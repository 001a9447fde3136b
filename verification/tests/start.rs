use greader_sync::account::{AccountWrite, StoredSettings, SyncError};
use greader_sync::auto_sync::AutoSync;
use greader_sync::http::Status;
use greader_sync::provider::Provider;
use greader_sync::start::{sync_now_inner, StartAction, StartOutcome, SyncStart};

fn status(code: u16) -> Status {
    Status::from_u16(code).unwrap()
}

fn settings(auth: Option<&str>, pass: Option<&str>) -> StoredSettings {
    StoredSettings {
        url: Some("https://x".to_string()),
        user: Some("me".to_string()),
        auth: auth.map(str::to_string),
        pass: pass.map(str::to_string),
        provider: Some("miniflux".to_string()),
    }
}

fn url(start: &SyncStart) -> String {
    match start.action() {
        StartAction::Send(request) => request.url,
        other => panic!("expected a request, got {other:?}"),
    }
}

#[test]
fn superseded_run_does_nothing() {
    let mut auto = AutoSync::new();
    auto.drained();
    assert_eq!(auto.trigger(), Some(1));
    let before = auto;
    let start = sync_now_inner(Some(0));
    assert!(matches!(start.action(), StartAction::TakeTurn));
    let start = start.took_turn(&mut auto);
    assert_eq!(auto, before);
    assert!(matches!(start.action(), StartAction::End));
    let start = start
        .looked_up(settings(Some("a"), None))
        .replied(status(200), "tok")
        .stored();
    assert!(matches!(start.action(), StartAction::End));
    assert!(matches!(start.outcome(), Some(StartOutcome::Superseded)));
}

#[test]
fn run_without_a_connection_sends_nothing() {
    let mut auto = AutoSync::new();
    assert_eq!(auto.trigger(), Some(0));
    let start = sync_now_inner(None).took_turn(&mut auto);
    assert!(!auto.scheduled);
    assert!(matches!(start.action(), StartAction::LookUpSettings));
    let start = start.looked_up(settings(None, None));
    assert!(matches!(start.action(), StartAction::End));
    match start.outcome() {
        Some(StartOutcome::Refused { error }) => assert_eq!(error, SyncError::NotConnected),
        _ => panic!("expected a refusal"),
    }
}

#[test]
fn run_begins_with_a_session() {
    let mut auto = AutoSync::new();
    let start = sync_now_inner(Some(0))
        .took_turn(&mut auto)
        .looked_up(settings(Some("a"), None));
    assert_eq!(url(&start), "https://x/reader/api/0/token");
    assert!(start.needs_body(status(200)));
    assert!(!start.needs_body(status(401)));
    let start = start.replied(status(200), "tok");
    assert!(matches!(start.action(), StartAction::End));
    match start.outcome() {
        Some(StartOutcome::Run { run, session }) => {
            assert_eq!(run.provider(), Provider::Miniflux);
            assert!(run.outcome().is_none());
            assert_eq!(session.token, "tok");
        }
        _ => panic!("expected a run"),
    }
}

#[test]
fn refused_token_ends_the_beginning() {
    let mut auto = AutoSync::new();
    let start = sync_now_inner(None)
        .took_turn(&mut auto)
        .looked_up(settings(Some("a"), None))
        .replied(status(403), "");
    match start.outcome() {
        Some(StartOutcome::Refused { error }) => assert_eq!(error, SyncError::LoginFailed),
        _ => panic!("expected a refusal"),
    }
}

#[test]
fn legacy_password_is_replaced_before_the_run() {
    let mut auto = AutoSync::new();
    let start = sync_now_inner(None)
        .took_turn(&mut auto)
        .looked_up(settings(None, Some("pw")));
    assert_eq!(url(&start), "https://x/accounts/ClientLogin");
    let start = start.replied(status(200), "Auth=new");
    assert_eq!(url(&start), "https://x/reader/api/0/token");
    let start = start.replied(status(200), "tok");
    match start.action() {
        StartAction::Store(writes) => assert!(writes.iter().any(|w| matches!(
            w,
            AccountWrite::Store { key, value } if key == "freshrss_pass" && value.is_empty()
        ))),
        other => panic!("expected a store, got {other:?}"),
    }
    assert!(matches!(
        start.stored().outcome(),
        Some(StartOutcome::Run { .. })
    ));
}

#[test]
fn unasked_answers_do_not_begin_a_run() {
    let start = sync_now_inner(None)
        .looked_up(settings(Some("a"), None))
        .replied(status(200), "tok")
        .stored();
    assert!(matches!(start.action(), StartAction::TakeTurn));
    assert!(start.outcome().is_none());
}
