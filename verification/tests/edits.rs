use greader_sync::auto_sync::AutoSync;
use greader_sync::edits::{EditPush, PushAction, Requeue, SyncEntry};
use greader_sync::http::{Request, Status};
use greader_sync::provider::{Provider, READ_TAG, STARRED_TAG};
use greader_sync::session::Session;

fn session() -> Session {
    Session {
        base: "https://x".to_string(),
        auth: "a".to_string(),
        token: "tok".to_string(),
    }
}

fn entry(article_id: i64, remote_id: &str, field: &str, value: bool) -> SyncEntry {
    SyncEntry {
        article_id,
        remote_id: remote_id.to_string(),
        field: field.to_string(),
        value,
    }
}

fn ok() -> Option<Status> {
    Status::from_u16(200)
}

fn sent(push: &EditPush) -> Request {
    match push.action(&session()) {
        PushAction::Send(request) => request,
        other => panic!("expected a request, got {other:?}"),
    }
}

fn ids(request: &Request) -> Vec<&str> {
    request.form[2..].iter().map(|(_, v)| v.as_str()).collect()
}

fn requeued_ids(action: PushAction) -> Vec<(i64, String, bool)> {
    match action {
        PushAction::Requeue(entries) => entries
            .into_iter()
            .map(|Requeue { article_id, field, value }| (article_id, field, value))
            .collect(),
        other => panic!("expected changes to queue again, got {other:?}"),
    }
}

#[test]
fn empty_queue_sends_nothing() {
    let push = EditPush::new(Provider::FreshRss);
    assert!(matches!(push.action(&session()), PushAction::DrainQueue));
    let push = push.drained(Vec::new());
    assert!(matches!(push.action(&session()), PushAction::End));
}

#[test]
fn batches_are_uniform_and_in_order() {
    let queue = vec![
        entry(1, "s/1", "starred", true),
        entry(2, "s/2", "read", true),
        entry(3, "s/3", "read", false),
        entry(4, "s/4", "starred", false),
        entry(5, "s/5", "read", true),
    ];
    let mut push = EditPush::new(Provider::Miniflux).drained(queue);
    let mut seen = Vec::new();
    while let PushAction::Send(request) = push.action(&session()) {
        assert_eq!(request.url, "https://x/reader/api/0/edit-tag");
        assert_eq!(request.form[1], ("T".to_string(), "tok".to_string()));
        assert!(request.form[2..].iter().all(|(k, _)| k == "i"));
        let (action, tag) = request.form[0].clone();
        seen.push((action, tag, ids(&request).join(",")));
        push = push.answered(ok());
    }
    let row = |a: &str, t: &str, i: &str| (a.to_string(), t.to_string(), i.to_string());
    assert_eq!(
        seen,
        vec![
            row("r", READ_TAG, "s/3"),
            row("a", READ_TAG, "s/2,s/5"),
            row("r", STARRED_TAG, "s/4"),
            row("a", STARRED_TAG, "s/1"),
        ]
    );
    assert!(matches!(push.action(&session()), PushAction::End));
}

#[test]
fn freshrss_marks_five_at_a_time_by_decimal_id() {
    let queue: Vec<SyncEntry> = (0..12)
        .map(|i| entry(i, &format!("tag/{:x}", i + 10), "read", true))
        .collect();
    let mut push = EditPush::new(Provider::FreshRss).drained(queue);
    assert_eq!(ids(&sent(&push)), ["10", "11", "12", "13", "14"]);
    push = push.answered(ok());
    assert_eq!(ids(&sent(&push)), ["15", "16", "17", "18", "19"]);
    push = push.answered(ok());
    assert_eq!(ids(&sent(&push)), ["20", "21"]);
    push = push.answered(ok());
    assert!(matches!(push.action(&session()), PushAction::End));
}

#[test]
fn other_batches_hold_a_hundred() {
    let queue: Vec<SyncEntry> = (0..201)
        .map(|i| entry(i, &format!("id-{i}"), "starred", true))
        .collect();
    let mut push = EditPush::new(Provider::FreshRss).drained(queue);
    let mut sizes = Vec::new();
    while let PushAction::Send(request) = push.action(&session()) {
        sizes.push(ids(&request).len());
        push = push.answered(ok());
    }
    assert_eq!(sizes, [100, 100, 1]);
}

#[test]
fn failed_changes_are_queued_again() {
    let queue = vec![
        entry(1, "a", "read", true),
        entry(2, "b", "starred", true),
        entry(3, "c", "starred", false),
    ];
    let push = EditPush::new(Provider::Miniflux)
        .drained(queue)
        .answered(None)
        .answered(ok())
        .answered(Status::from_u16(500));
    let again = requeued_ids(push.action(&session()));
    assert_eq!(
        again,
        vec![(1, "read".to_string(), true), (2, "starred".to_string(), true)]
    );
    assert!(matches!(push.requeued().action(&session()), PushAction::End));
}

#[test]
fn every_status_but_success_is_a_failure() {
    for code in [199, 300, 304, 404] {
        let push = EditPush::new(Provider::Miniflux)
            .drained(vec![entry(7, "a", "read", false)])
            .answered(Status::from_u16(code));
        assert_eq!(
            requeued_ids(push.action(&session())),
            vec![(7, "read".to_string(), false)]
        );
    }
}

#[test]
fn unknown_fields_are_sent_as_read() {
    let push = EditPush::new(Provider::Miniflux).drained(vec![entry(1, "a", "other", true)]);
    assert_eq!(
        sent(&push).form[0],
        ("a".to_string(), READ_TAG.to_string())
    );
}

#[test]
fn every_push_notes_one_drain() {
    for queue in [Vec::new(), vec![entry(1, "a", "read", true)]] {
        let empty = queue.is_empty();
        let mut auto = AutoSync::new();
        assert_eq!(auto.trigger(), Some(0));
        let push = EditPush::new(Provider::FreshRss);
        assert!(push.awaits_queue());
        let push = auto.drain(push, queue);
        assert_eq!(auto.generation, 1);
        assert!(auto.scheduled);
        assert!(!push.awaits_queue());
        assert_eq!(matches!(push.action(&session()), PushAction::End), empty);
        let push = auto.drain(push, vec![entry(2, "b", "read", true)]);
        assert_eq!(auto.generation, 1);
        assert_eq!(matches!(push.action(&session()), PushAction::End), empty);
    }
}
