use std::collections::HashMap;

use greader_sync::account::{
    connected_url, creds, disconnect, persist_session, run_if_connected, AccountWrite,
    StoredSettings, SyncError, AUTH_KEY, PASS_KEY, PROVIDER_KEY, URL_KEY, USER_KEY,
};
use greader_sync::http::{Method, Request, Status};
use greader_sync::provider::Provider;
use greader_sync::session::{
    client_login, client_login_reply, connect, open_stored, session_with_token, token_reply,
    Opening, OpeningAction, Session,
};

fn status(code: u16) -> Status {
    Status::from_u16(code).unwrap()
}

fn settings(
    url: Option<&str>,
    user: Option<&str>,
    auth: Option<&str>,
    pass: Option<&str>,
    provider: Option<&str>,
) -> StoredSettings {
    StoredSettings {
        url: url.map(str::to_string),
        user: user.map(str::to_string),
        auth: auth.map(str::to_string),
        pass: pass.map(str::to_string),
        provider: provider.map(str::to_string),
    }
}

fn write_all(store: &mut HashMap<String, String>, writes: Vec<AccountWrite>) -> bool {
    let mut queue_dropped = false;
    for write in writes {
        match write {
            AccountWrite::Store { key, value } => {
                store.insert(key, value);
            }
            AccountWrite::ClearFeedQueue => queue_dropped = true,
        }
    }
    queue_dropped
}

fn read_all(store: &HashMap<String, String>) -> StoredSettings {
    StoredSettings {
        url: store.get(URL_KEY).cloned(),
        user: store.get(USER_KEY).cloned(),
        auth: store.get(AUTH_KEY).cloned(),
        pass: store.get(PASS_KEY).cloned(),
        provider: store.get(PROVIDER_KEY).cloned(),
    }
}

fn sent(opening: &Opening) -> Request {
    match opening.action() {
        OpeningAction::Send(request) => request,
        other => panic!("expected a request, got {other:?}"),
    }
}

fn session_of(opening: Opening) -> Session {
    match opening.outcome() {
        Some(Ok(session)) => session,
        other => panic!("expected a session, got {other:?}"),
    }
}

#[test]
fn connection_needs_url_user_and_secret() {
    let c = creds(settings(Some(" u "), Some("me"), Some("tok"), None, Some("miniflux"))).unwrap();
    assert_eq!(c.url, " u ");
    assert_eq!(c.user, "me");
    assert_eq!(c.auth.as_deref(), Some("tok"));
    assert_eq!(c.legacy_pass, None);
    assert_eq!(c.provider, Provider::Miniflux);

    let legacy = creds(settings(Some("u"), Some("me"), Some(""), Some("pw"), None)).unwrap();
    assert_eq!(legacy.auth, None);
    assert_eq!(legacy.legacy_pass.as_deref(), Some("pw"));
    assert_eq!(legacy.provider, Provider::FreshRss);

    assert!(creds(settings(Some(" \t"), Some("me"), Some("tok"), None, None)).is_none());
    assert!(creds(settings(None, Some("me"), Some("tok"), None, None)).is_none());
    assert!(creds(settings(Some("u"), Some(""), Some("tok"), None, None)).is_none());
    assert!(creds(settings(Some("u"), Some("me"), Some(""), None, None)).is_none());
    assert!(creds(settings(Some("u"), Some(" "), Some(" "), None, None)).is_some());
}

#[test]
fn connected_url_names_the_provider() {
    assert_eq!(
        connected_url(settings(Some("u"), Some("me"), Some("t"), None, Some("?"))),
        Some(("u".to_string(), "freshrss".to_string()))
    );
    assert_eq!(connected_url(settings(None, None, None, None, None)), None);
    assert!(run_if_connected(settings(Some("u"), Some("me"), Some("t"), None, None)));
    assert!(!run_if_connected(settings(Some("u"), Some("me"), None, None, None)));
}

#[test]
fn stored_connection_is_used_and_forgotten() {
    let mut store = HashMap::new();
    store.insert(PASS_KEY.to_string(), "old password".to_string());
    assert!(!write_all(
        &mut store,
        persist_session(" https://x/ ", "me", "tok", Provider::Miniflux)
    ));
    assert_eq!(store[PASS_KEY], "");
    let c = creds(read_all(&store)).unwrap();
    assert_eq!(c.url, "https://x/");
    assert_eq!(c.user, "me");
    assert_eq!(c.auth.as_deref(), Some("tok"));
    assert_eq!(c.legacy_pass, None);
    assert_eq!(c.provider, Provider::Miniflux);

    assert!(write_all(&mut store, disconnect()));
    assert!(creds(read_all(&store)).is_none());
    assert!(store.values().all(|v| v.is_empty()));
    assert_eq!(store.len(), 5);
}

#[test]
fn error_codes_are_fixed() {
    assert_eq!(SyncError::LoginFailed.code(), "freshrssLoginFailed");
    assert_eq!(SyncError::NoToken.code(), "freshrssNoToken");
    assert_eq!(SyncError::NotConnected.code(), "freshrssNotConnected");
}

#[test]
fn login_request_carries_the_credentials() {
    let request = client_login("https://x", "me", "pw");
    assert_eq!(request.method, Method::Post);
    assert_eq!(request.url, "https://x/accounts/ClientLogin");
    assert_eq!(request.authorization, None);
    assert_eq!(
        request.form,
        vec![
            ("Email".to_string(), "me".to_string()),
            ("Passwd".to_string(), "pw".to_string()),
        ]
    );
}

#[test]
fn login_answer_is_read_for_the_token() {
    let ok = |body: &str| client_login_reply(status(200), body);
    assert_eq!(ok("SID=a\nLSID=b\nAuth=me/123 \r\n"), Ok("me/123".to_string()));
    assert_eq!(ok("Auth=first\nAuth=second"), Ok("first".to_string()));
    assert_eq!(ok("Auth=x"), Ok("x".to_string()));
    assert_eq!(ok("Auth=\nAuth=second"), Err(SyncError::NoToken));
    assert_eq!(ok(" Auth=x"), Err(SyncError::NoToken));
    assert_eq!(ok(""), Err(SyncError::NoToken));
    assert_eq!(client_login_reply(status(401), "Auth=x"), Err(SyncError::LoginFailed));
    assert_eq!(client_login_reply(status(302), "Auth=x"), Err(SyncError::LoginFailed));
    assert_eq!(client_login_reply(status(299), "Auth=x"), Ok("x".to_string()));
}

#[test]
fn token_answer_opens_the_session() {
    let request = session_with_token("https://x", "a");
    assert_eq!(request.method, Method::Get);
    assert_eq!(request.url, "https://x/reader/api/0/token");
    assert_eq!(request.authorization.as_deref(), Some("GoogleLogin auth=a"));
    let session = token_reply("https://x", "a", status(200), " tok\n").unwrap();
    assert_eq!(session.base, "https://x");
    assert_eq!(session.auth, "a");
    assert_eq!(session.token, "tok");
    assert_eq!(token_reply("b", "a", status(304), "").unwrap().token, "");
    assert_eq!(token_reply("b", "a", status(403), "t").unwrap_err(), SyncError::LoginFailed);
    assert_eq!(token_reply("b", "a", status(500), "t").unwrap_err(), SyncError::LoginFailed);
}

#[test]
fn session_requests_are_authorised() {
    let session = Session {
        base: "https://x".to_string(),
        auth: "a".to_string(),
        token: "t".to_string(),
    };
    let get = session.get("p?q");
    assert_eq!(get.method, Method::Get);
    assert_eq!(get.url, "https://x/reader/api/0/p?q");
    assert_eq!(get.authorization.as_deref(), Some("GoogleLogin auth=a"));
    assert!(get.form.is_empty());
    let post = session.post("p", vec![("k".to_string(), "v".to_string())]);
    assert_eq!(post.method, Method::Post);
    assert_eq!(post.form, vec![("k".to_string(), "v".to_string())]);
}

#[test]
fn first_connection_stores_what_was_verified() {
    let start = connect(" https://x ", "me", "pw", None);
    assert_eq!(sent(&start).url, "https://x/api/greader.php/accounts/ClientLogin");
    let second = start.replied(status(200), "Auth=abc\n");
    let token = sent(&second);
    assert_eq!(token.url, "https://x/api/greader.php/reader/api/0/token");
    assert_eq!(token.authorization.as_deref(), Some("GoogleLogin auth=abc"));
    let third = second.replied(status(200), "tok");
    let mut store = HashMap::new();
    match third.action() {
        OpeningAction::Store(writes) => {
            write_all(&mut store, writes);
        }
        other => panic!("expected a store, got {other:?}"),
    }
    assert_eq!(store[URL_KEY], "https://x");
    assert_eq!(store[USER_KEY], "me");
    assert_eq!(store[AUTH_KEY], "abc");
    assert_eq!(store[PASS_KEY], "");
    assert_eq!(store[PROVIDER_KEY], "freshrss");
    let open = third.stored();
    assert!(matches!(open.action(), OpeningAction::End));
    let session = session_of(open);
    assert_eq!(session.base, "https://x/api/greader.php");
    assert_eq!(session.auth, "abc");
    assert_eq!(session.token, "tok");
}

#[test]
fn refused_connection_stores_nothing() {
    let refused = connect("https://x", "me", "pw", Some("miniflux")).replied(status(403), "");
    assert!(matches!(refused.action(), OpeningAction::End));
    assert!(matches!(refused.outcome(), Some(Err(SyncError::LoginFailed))));
    let no_token = connect("https://x", "me", "pw", None).replied(status(200), "SID=a");
    assert!(matches!(no_token.outcome(), Some(Err(SyncError::NoToken))));
    let half = connect("https://x", "me", "pw", None)
        .replied(status(200), "Auth=a")
        .replied(status(401), "");
    assert!(matches!(half.action(), OpeningAction::End));
    assert!(matches!(half.outcome(), Some(Err(SyncError::LoginFailed))));
}

#[test]
fn stored_token_opens_a_session_without_a_login() {
    let opening =
        open_stored(settings(Some("https://x"), Some("me"), Some("a"), Some("pw"), None)).unwrap();
    assert_eq!(sent(&opening).url, "https://x/api/greader.php/reader/api/0/token");
    let open = opening.replied(status(200), "tok");
    assert!(matches!(open.action(), OpeningAction::End));
    assert_eq!(session_of(open).token, "tok");
    assert_eq!(
        open_stored(settings(None, None, None, None, None)).unwrap_err(),
        SyncError::NotConnected
    );
}

#[test]
fn legacy_password_is_exchanged_and_dropped() {
    let mut store = HashMap::new();
    store.insert(URL_KEY.to_string(), "https://x".to_string());
    store.insert(USER_KEY.to_string(), "me".to_string());
    store.insert(PASS_KEY.to_string(), "pw".to_string());
    let opening = open_stored(read_all(&store)).unwrap();
    assert_eq!(sent(&opening).form[1], ("Passwd".to_string(), "pw".to_string()));
    let third = opening
        .replied(status(200), "Auth=abc")
        .replied(status(200), "tok");
    match third.action() {
        OpeningAction::Store(writes) => {
            write_all(&mut store, writes);
        }
        other => panic!("expected a store, got {other:?}"),
    }
    let c = creds(read_all(&store)).unwrap();
    assert_eq!(c.auth.as_deref(), Some("abc"));
    assert_eq!(c.legacy_pass, None);
    assert_eq!(session_of(third.stored()).auth, "abc");
}

#[test]
fn refusals_are_judged_without_their_body() {
    let login = connect("https://x", "me", "pw", None);
    assert!(login.needs_body(status(200)));
    assert!(!login.needs_body(status(302)));
    assert!(!login.needs_body(status(401)));
    let token = login.replied(status(200), "Auth=a");
    assert!(token.needs_body(status(200)));
    assert!(token.needs_body(status(302)));
    assert!(!token.needs_body(status(401)));
    assert!(!token.needs_body(status(503)));
    let refused = token.replied(status(503), "whatever");
    assert!(!refused.needs_body(status(200)));
}

#[test]
fn answers_that_were_not_asked_for_change_nothing() {
    let start = connect("https://x", "me", "pw", None).stored();
    assert_eq!(sent(&start).form[1].1, "pw");
    let refused = start.replied(status(500), "").replied(status(200), "Auth=a").stored();
    assert!(matches!(refused.outcome(), Some(Err(SyncError::LoginFailed))));
}
