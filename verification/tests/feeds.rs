use greader_sync::feeds::{
    judge_reply, push_subscription_entry, transient_status, FeedAction, FeedEntry, FeedPush, FeedPushAction,
    FeedPushFailure, FeedReply, SUBSCRIPTION_BATCH_SIZE,
};
use greader_sync::http::{Request, Status};
use greader_sync::session::Session;

fn session() -> Session {
    Session {
        base: "https://x".to_string(),
        auth: "a".to_string(),
        token: "tok".to_string(),
    }
}

fn answer(code: u16, body: &str, results: Result<i64, &str>) -> FeedReply {
    FeedReply::Answered {
        status: Status::from_u16(code).unwrap(),
        body: body.to_string(),
        results: results.map_err(str::to_string),
    }
}

fn failed(message: &str) -> FeedReply {
    FeedReply::Failed(message.to_string())
}

fn judged(action: &FeedAction, reply: FeedReply) -> Option<(String, bool)> {
    match push_subscription_entry(action, reply) {
        Ok(()) => None,
        Err(FeedPushFailure { message, transient }) => Some((message, transient)),
    }
}

fn wrong(message: &str, transient: bool) -> Option<(String, bool)> {
    Some((message.to_string(), transient))
}

fn entry(url: &str, action: FeedAction) -> FeedEntry {
    FeedEntry {
        feed_url: url.to_string(),
        action,
    }
}

fn sent(push: &FeedPush) -> Request {
    match push.action(&session()) {
        FeedPushAction::Send(request) => request,
        other => panic!("expected a request, got {other:?}"),
    }
}

fn pair(k: &str, v: &str) -> (String, String) {
    (k.to_string(), v.to_string())
}

#[test]
fn trying_again_helps_after_some_statuses() {
    for code in 100..=999u16 {
        let expected = (500..600).contains(&code) || code == 429 || code == 401 || code == 403;
        assert_eq!(transient_status(Status::from_u16(code).unwrap()), expected);
    }
}

#[test]
fn subscription_needs_a_feed_that_was_found() {
    let add = FeedAction::Subscribe;
    assert_eq!(judged(&add, answer(200, "{\"numResults\":1}", Ok(1))), None);
    assert_eq!(
        judged(&add, answer(200, "{}", Ok(0))),
        wrong("quickadd returned numResults=0", false)
    );
    assert_eq!(
        judged(&add, answer(200, "{}", Ok(-3))),
        wrong("quickadd returned numResults=-3", false)
    );
    assert_eq!(
        judged(&add, answer(200, "<html>", Err("expected value"))),
        wrong("quickadd response parse failed: expected value; body: <html>", false)
    );
    assert_eq!(
        judged(&add, answer(400, "bad", Ok(1))),
        wrong("quickadd HTTP 400 Bad Request: bad", false)
    );
    assert_eq!(
        judged(&add, answer(503, "later", Ok(1))),
        wrong("quickadd HTTP 503 Service Unavailable: later", true)
    );
    assert_eq!(judged(&add, failed("timed out")), wrong("timed out", true));
}

#[test]
fn unsubscription_is_done_where_the_feed_is_gone() {
    let drop = FeedAction::Unsubscribe;
    assert_eq!(judged(&drop, answer(200, "OK\n", Err("no json"))), None);
    assert_eq!(judged(&drop, answer(404, "", Err(""))), None);
    assert_eq!(judged(&drop, answer(400, "", Err(""))), None);
    assert_eq!(
        judged(&drop, answer(200, "nope", Err(""))),
        wrong("unsubscribe HTTP 200 OK without OK body: nope", false)
    );
    assert_eq!(
        judged(&drop, answer(401, "x", Err(""))),
        wrong("unsubscribe HTTP 401 Unauthorized: x", true)
    );
    assert_eq!(
        judged(&drop, answer(302, "x", Err(""))),
        wrong("unsubscribe HTTP 302 Found: x", false)
    );
    assert_eq!(
        judged(&drop, answer(500, "x", Err(""))),
        wrong("unsubscribe HTTP 500 Internal Server Error: x", true)
    );
    assert_eq!(judged(&drop, failed("reset")), wrong("reset", true));
}

#[test]
fn unknown_actions_fail_for_good() {
    assert_eq!(
        judged(&FeedAction::Other("move".to_string()), answer(200, "OK", Ok(1))),
        wrong("unknown FreshRSS subscription action: move", false)
    );
    let failure = FeedPushFailure::transient("m".to_string());
    assert!(failure.transient);
    assert!(!FeedPushFailure::permanent("m".to_string()).transient);
}

#[test]
fn empty_queue_wants_no_further_run() {
    let push = FeedPush::new();
    match push.action(&session()) {
        FeedPushAction::LoadQueue { limit } => assert_eq!(limit, SUBSCRIPTION_BATCH_SIZE),
        other => panic!("{other:?}"),
    }
    assert_eq!(SUBSCRIPTION_BATCH_SIZE, 50);
    assert_eq!(push.outcome(), None);
    let push = push.loaded(Vec::new());
    assert!(matches!(push.action(&session()), FeedPushAction::End));
    assert_eq!(push.outcome(), Some(false));
}

#[test]
fn accepted_changes_leave_the_queue() {
    let push = FeedPush::new().loaded(vec![
        entry("https://a/f", FeedAction::Subscribe),
        entry("https://b/f", FeedAction::Unsubscribe),
    ]);
    let add = sent(&push);
    assert_eq!(add.url, "https://x/reader/api/0/subscription/quickadd");
    assert_eq!(add.form, vec![pair("quickadd", "https://a/f"), pair("T", "tok")]);
    let push = push.replied(answer(200, "{}", Ok(1)));
    match push.action(&session()) {
        FeedPushAction::ClearEntry { feed_url, action } => {
            assert_eq!(feed_url, "https://a/f");
            assert!(matches!(action, FeedAction::Subscribe));
        }
        other => panic!("{other:?}"),
    }
    let push = push.cleared();
    let drop = sent(&push);
    assert_eq!(drop.url, "https://x/reader/api/0/subscription/edit");
    assert_eq!(
        drop.form,
        vec![pair("ac", "unsubscribe"), pair("s", "feed/https://b/f"), pair("T", "tok")]
    );
    let push = push.replied(answer(200, "OK", Err(""))).cleared();
    assert!(matches!(push.action(&session()), FeedPushAction::CheckWork));
    assert_eq!(push.checked(true).outcome(), Some(true));
}

#[test]
fn transient_failure_waits_for_a_later_run() {
    let push = FeedPush::new()
        .loaded(vec![entry("https://a/f", FeedAction::Subscribe)])
        .replied(answer(500, "x", Ok(0)));
    match push.action(&session()) {
        FeedPushAction::RecordFailure { feed_url, action, message } => {
            assert_eq!(feed_url, "https://a/f");
            assert!(matches!(action, FeedAction::Subscribe));
            assert_eq!(message, "quickadd HTTP 500 Internal Server Error: x");
        }
        other => panic!("{other:?}"),
    }
    let push = push.recorded(true);
    assert!(matches!(push.action(&session()), FeedPushAction::End));
    assert_eq!(push.outcome(), Some(false));
}

#[test]
fn failure_of_a_replaced_change_does_not_count() {
    let push = FeedPush::new()
        .loaded(vec![entry("https://a/f", FeedAction::Subscribe)])
        .replied(failed("timed out"))
        .recorded(false);
    assert!(matches!(push.action(&session()), FeedPushAction::CheckWork));
    assert_eq!(push.checked(false).outcome(), Some(false));
}

#[test]
fn unknown_action_is_recorded_without_a_request() {
    let push = FeedPush::new().loaded(vec![
        entry("https://a/f", FeedAction::Other("move".to_string())),
        entry("https://b/f", FeedAction::Subscribe),
    ]);
    match push.action(&session()) {
        FeedPushAction::RecordFailure { message, .. } => {
            assert_eq!(message, "unknown FreshRSS subscription action: move");
        }
        other => panic!("{other:?}"),
    }
    let push = push.recorded(true);
    assert_eq!(sent(&push).form[0], pair("quickadd", "https://b/f"));
    let push = push.replied(answer(200, "", Ok(2))).cleared();
    assert!(matches!(push.action(&session()), FeedPushAction::CheckWork));
}

#[test]
fn messages_hold_the_status_as_it_is_shown() {
    let judged = |action: &FeedAction, reply: FeedReply| match judge_reply(action, reply, "5xx Oops")
    {
        Ok(()) => None,
        Err(FeedPushFailure { message, transient }) => Some((message, transient)),
    };
    assert_eq!(
        judged(&FeedAction::Subscribe, answer(500, "b", Ok(1))),
        wrong("quickadd HTTP 5xx Oops: b", true)
    );
    assert_eq!(
        judged(&FeedAction::Unsubscribe, answer(200, "b", Ok(1))),
        wrong("unsubscribe HTTP 5xx Oops without OK body: b", false)
    );
    assert_eq!(judged(&FeedAction::Unsubscribe, answer(200, "OK", Ok(1))), None);
}
