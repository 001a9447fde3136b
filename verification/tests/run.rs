use greader_sync::apply::RemoteItemApply;
use greader_sync::http::{Request, Status};
use greader_sync::provider::{Provider, READING_LIST, READ_TAG};
use greader_sync::run::{sync_now, AppliedItem, RunAction, SyncRun, SyncStats, STREAM_PAGE_LIMIT};
use greader_sync::session::Session;
use greader_sync::wire::{Item, UnreadCount, UnreadCounts};

fn session() -> Session {
    Session {
        base: "https://x".to_string(),
        auth: "a".to_string(),
        token: "tok".to_string(),
    }
}

fn counts(n: usize) -> UnreadCounts {
    UnreadCounts {
        max: None,
        unreadcounts: vec![UnreadCount {
            id: READING_LIST.to_string(),
            count: n,
        }],
    }
}

fn item(id: &str, read: bool) -> Item {
    Item {
        id: id.to_string(),
        title: None,
        author: None,
        published: None,
        categories: if read { vec![READ_TAG.to_string()] } else { Vec::new() },
        canonical: Vec::new(),
        alternate: Vec::new(),
        summary: None,
        content: None,
        origin: None,
        enclosure: Vec::new(),
    }
}

fn nothing() -> RemoteItemApply {
    RemoteItemApply::default()
}

fn queued(id: &str) -> AppliedItem {
    (
        item(id, false),
        RemoteItemApply {
            matched: true,
            pending_gained_remote_id: true,
            queued_local_read_push: true,
            ..nothing()
        },
    )
}

fn imported(id: &str) -> AppliedItem {
    (item(id, false), RemoteItemApply { imported: true, ..nothing() })
}

fn matched(id: &str, read: bool, changed: bool) -> AppliedItem {
    (
        item(id, read),
        RemoteItemApply {
            matched: true,
            state_changed: changed,
            ..nothing()
        },
    )
}

fn request_of(action: RunAction) -> Request {
    match action {
        RunAction::PullSubscriptions(r)
        | RunAction::CountUnread(r)
        | RunAction::PullUnread(r)
        | RunAction::PullRecent(r)
        | RunAction::MarkAll(r) => r,
        other => panic!("expected a request, got {other:?}"),
    }
}

fn step(run: &SyncRun) -> &'static str {
    match run.action(&session()) {
        RunAction::PushEdits => "push edits",
        RunAction::PushFeeds => "push feeds",
        RunAction::PullSubscriptions(_) => "subscriptions",
        RunAction::CountUnread(_) => "count",
        RunAction::PullUnread(_) => "unread",
        RunAction::PullRecent(_) => "recent",
        RunAction::MarkAll(_) => "mark all",
        RunAction::End => "end",
    }
}

fn at_unread(provider: Provider, remote_unread: usize) -> SyncRun {
    let mut run = sync_now(provider);
    run.edits_pushed();
    if provider == Provider::FreshRss {
        run.feeds_pushed(false);
    }
    run.subscriptions_pulled();
    if provider == Provider::FreshRss {
        run.counted(&counts(remote_unread));
    }
    assert_eq!(step(&run), "unread");
    run
}

#[test]
fn freshrss_run_goes_through_its_phases() {
    let mut run = sync_now(Provider::FreshRss);
    assert_eq!(run.outcome(), None);
    assert_eq!(step(&run), "push edits");
    run.edits_pushed();
    assert_eq!(step(&run), "push feeds");
    run.feeds_pushed(true);
    assert_eq!(
        request_of(run.action(&session())).url,
        "https://x/reader/api/0/subscription/list?output=json"
    );
    run.subscriptions_pulled();
    assert_eq!(
        request_of(run.action(&session())).url,
        "https://x/reader/api/0/unread-count?output=json"
    );
    run.counted(&counts(7));
    assert_eq!(
        request_of(run.action(&session())).url,
        "https://x/reader/api/0/stream/contents/user/-/state/com.google/reading-list?output=json&n=1000&xt=user/-/state/com.google/read"
    );
    run.unread_pulled(&vec![imported("1")], Some("a b".to_string()));
    assert!(request_of(run.action(&session())).url.ends_with("&c=a+b"));
    let skipped = vec![
        (item("2", false), RemoteItemApply { skipped_no_stream: true, ..nothing() }),
        (item("3", false), RemoteItemApply { skipped_no_feed: true, ..nothing() }),
        (item("4", false), RemoteItemApply { skipped_no_feed: true, ..nothing() }),
        (item("5", false), RemoteItemApply { skipped_no_identity: true, ..nothing() }),
        matched("6", false, false),
        matched("7", true, true),
        (item("8", true), nothing()),
    ];
    run.unread_pulled(&skipped, Some(String::new()));
    assert_eq!(
        request_of(run.action(&session())).url,
        "https://x/reader/api/0/stream/contents/user/-/state/com.google/reading-list?output=json&n=1000"
    );
    run.recent_pulled(&vec![matched("1", true, true), matched("2", true, false), imported("3")]);
    assert_eq!(step(&run), "end");
    assert_eq!(
        run.outcome(),
        Some((
            SyncStats {
                reconciled_articles: 1,
                imported_articles: 1,
                remote_unread_articles: 7,
                matched_unread_articles: 1,
                skipped_unread_articles: 4,
                skipped_unread_no_stream: 1,
                skipped_unread_no_feed: 2,
                skipped_unread_no_identity: 1,
            },
            true
        ))
    );
}

#[test]
fn miniflux_run_has_no_feed_push_and_no_counts() {
    let mut run = sync_now(Provider::Miniflux);
    run.edits_pushed();
    assert_eq!(step(&run), "subscriptions");
    run.subscriptions_pulled();
    assert_eq!(step(&run), "unread");
    run.unread_pulled(&vec![queued("x"), queued("y")], None);
    run.recent_pulled(&Vec::new());
    assert_eq!(step(&run), "push edits");
    run.edits_pushed();
    assert_eq!(step(&run), "end");
    let (stats, more) = run.outcome().unwrap();
    assert_eq!(stats.remote_unread_articles, 2);
    assert_eq!(stats.matched_unread_articles, 2);
    assert!(!more);
}

#[test]
fn stream_gives_the_count_where_the_server_gives_none() {
    let mut run = at_unread(Provider::FreshRss, 0);
    run.unread_pulled(&vec![imported("1"), matched("2", true, false)], None);
    run.recent_pulled(&Vec::new());
    assert_eq!(run.outcome().unwrap().0.remote_unread_articles, 1);
    let mut run = at_unread(Provider::FreshRss, 9);
    run.unread_pulled(&vec![imported("1")], None);
    run.recent_pulled(&Vec::new());
    assert_eq!(run.outcome().unwrap().0.remote_unread_articles, 9);
}

#[test]
fn second_push_comes_only_when_needed() {
    let mut run = at_unread(Provider::FreshRss, 1);
    run.unread_pulled(&vec![imported("1")], None);
    let gained = (
        item("2", true),
        RemoteItemApply {
            matched: true,
            pending_gained_remote_id: true,
            ..nothing()
        },
    );
    run.recent_pulled(&vec![gained]);
    assert_eq!(step(&run), "push edits");
    run.edits_pushed();
    assert_eq!(step(&run), "count");
    run.counted(&counts(3));
    assert_eq!(step(&run), "end");
    assert_eq!(run.outcome().unwrap().0.remote_unread_articles, 3);
}

#[test]
fn first_count_must_not_fail() {
    let mut run = sync_now(Provider::FreshRss);
    run.edits_pushed();
    run.feeds_pushed(false);
    run.subscriptions_pulled();
    assert!(!run.count_failed());
    assert_eq!(step(&run), "count");
}

#[test]
fn later_counts_may_fail() {
    let mut run = at_unread(Provider::FreshRss, 2);
    run.unread_pulled(&vec![queued("tag/a"), queued("tag/b")], None);
    run.recent_pulled(&Vec::new());
    run.edits_pushed();
    assert_eq!(step(&run), "count");
    assert!(run.count_failed());
    assert_eq!(step(&run), "mark all");
    run.marked(Status::from_u16(200).unwrap(), "OK");
    assert_eq!(step(&run), "count");
    assert!(run.count_failed());
    assert_eq!(run.outcome().unwrap().0.remote_unread_articles, 2);
}

#[test]
fn everything_is_marked_up_to_the_largest_item() {
    let mut run = at_unread(Provider::FreshRss, 3);
    run.unread_pulled(&vec![queued("tag/ff"), queued("tag/1000")], Some("c".to_string()));
    run.unread_pulled(&vec![queued("tag/20"), matched("zz", true, false)], None);
    run.recent_pulled(&Vec::new());
    run.edits_pushed();
    run.counted(&counts(3));
    let request = request_of(run.action(&session()));
    assert_eq!(request.url, "https://x/reader/api/0/mark-all-as-read");
    assert_eq!(request.form[1], ("ts".to_string(), "4096".to_string()));
    run.marked(Status::from_u16(200).unwrap(), "OK");
    run.counted(&counts(0));
    assert_eq!(run.outcome().unwrap().0.remote_unread_articles, 0);
}

#[test]
fn refused_mark_all_ends_the_run() {
    for accept in [false, true] {
        let mut run = at_unread(Provider::FreshRss, 1);
        run.unread_pulled(&vec![queued("1")], None);
        run.recent_pulled(&Vec::new());
        run.edits_pushed();
        run.counted(&counts(1));
        assert_eq!(step(&run), "mark all");
        if accept {
            run.marked(Status::from_u16(200).unwrap(), "no");
        } else {
            run.mark_failed();
        }
        assert_eq!(step(&run), "end");
        assert_eq!(run.outcome().unwrap().0.remote_unread_articles, 1);
    }
}

#[test]
fn nothing_is_marked_where_something_is_unsettled() {
    let close = |pages: Vec<Vec<AppliedItem>>, after: usize| {
        let mut run = at_unread(Provider::FreshRss, 1);
        let last = pages.len() - 1;
        for (i, page) in pages.iter().enumerate() {
            let next = if i < last { Some("c".to_string()) } else { None };
            run.unread_pulled(page, next);
        }
        run.recent_pulled(&Vec::new());
        run.edits_pushed();
        run.counted(&counts(after));
        step(&run)
    };
    assert_eq!(close(vec![vec![queued("1")]], 1), "mark all");
    assert_eq!(close(vec![vec![queued("1")]], 0), "end");
    assert_eq!(close(vec![vec![queued("1")]], 2), "end");
    assert_eq!(close(vec![vec![queued("1"), queued("no number")]], 2), "end");
    assert_eq!(close(vec![vec![queued("1")], vec![imported("2")]], 2), "end");
    assert_eq!(close(vec![vec![queued("1"), matched("2", false, false)]], 2), "end");
    let skipped = (item("2", false), RemoteItemApply { skipped_no_feed: true, ..nothing() });
    assert_eq!(close(vec![vec![queued("1"), skipped]], 2), "end");
}

#[test]
fn stream_is_cut_off_at_the_page_limit() {
    let mut run = at_unread(Provider::FreshRss, 50);
    for page in 1..=STREAM_PAGE_LIMIT {
        assert_eq!(step(&run), "unread");
        assert!(!run.cut_off());
        run.unread_pulled(&vec![queued(&format!("{page:x}"))], Some("more".to_string()));
    }
    assert_eq!(STREAM_PAGE_LIMIT, 50);
    assert!(run.cut_off());
    assert_eq!(step(&run), "recent");
    run.recent_pulled(&Vec::new());
    run.edits_pushed();
    run.counted(&counts(50));
    assert_eq!(step(&run), "end");
    assert_eq!(run.outcome().unwrap().0.matched_unread_articles, 50);
}

#[test]
fn unexpected_answers_change_nothing() {
    let mut run = sync_now(Provider::FreshRss);
    run.feeds_pushed(true);
    run.subscriptions_pulled();
    run.counted(&counts(3));
    run.recent_pulled(&vec![queued("1")]);
    run.marked(Status::from_u16(200).unwrap(), "OK");
    run.mark_failed();
    assert!(run.has_room(usize::MAX));
    run.unread_pulled(&vec![queued("1")], None);
    assert_eq!(step(&run), "push edits");
    assert_eq!(run.outcome(), None);
}

#[test]
fn figures_count_the_unread_and_the_changed() {
    let mut run = at_unread(Provider::Miniflux, 0);
    let skipped = (item("4", false), RemoteItemApply { skipped_no_feed: true, ..nothing() });
    let first = vec![imported("1"), matched("2", false, true), matched("3", true, true)];
    run.unread_pulled(&first, Some("c".to_string()));
    run.unread_pulled(&vec![skipped, (item("5", false), nothing())], None);
    run.recent_pulled(&vec![matched("1", true, true), matched("2", false, false)]);
    let (stats, _) = run.outcome().unwrap();
    assert_eq!(stats.remote_unread_articles, 4);
    assert_eq!(stats.imported_articles, 1);
    assert_eq!(stats.matched_unread_articles, 1);
    assert_eq!(stats.skipped_unread_articles, 1);
    assert_eq!(stats.reconciled_articles, 1);
}

#[test]
fn only_the_unread_stream_imports() {
    let mut run = sync_now(Provider::FreshRss);
    assert!(!run.imports());
    run = at_unread(Provider::FreshRss, 1);
    assert!(run.imports());
    run.unread_pulled(&vec![imported("1")], None);
    assert_eq!(step(&run), "recent");
    assert!(!run.imports());
    assert!(!run.cut_off());
}

#[test]
fn stats_begin_at_zero() {
    let stats = SyncStats::default();
    assert_eq!(stats.reconciled_articles + stats.imported_articles, 0);
    assert_eq!(stats.remote_unread_articles + stats.matched_unread_articles, 0);
    assert_eq!(stats.skipped_unread_articles, 0);
}
