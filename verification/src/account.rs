//! The stored connection to a server.

use vstd::prelude::*;
use vstd::string::*;
use crate::provider::Provider;
use crate::text;
use crate::wire;

verus! {

pub const URL_KEY: &'static str = "freshrss_url";

pub const USER_KEY: &'static str = "freshrss_user";

pub const AUTH_KEY: &'static str = "freshrss_auth";

pub const PASS_KEY: &'static str = "freshrss_pass";

pub const PROVIDER_KEY: &'static str = "freshrss_provider";

/// Why a connection could not be used.
#[derive(Clone, Copy, Debug, PartialEq, Eq, Structural)]
pub enum SyncError {
    /// The server did not accept the credentials.
    LoginFailed,
    /// The server accepted the credentials and sent no token.
    NoToken,
    /// No server is connected.
    NotConnected,
}

impl SyncError {
    pub open spec fn code_text(self) -> Seq<char> {
        match self {
            SyncError::LoginFailed => "freshrssLoginFailed"@,
            SyncError::NoToken => "freshrssNoToken"@,
            SyncError::NotConnected => "freshrssNotConnected"@,
        }
    }

    /// The code under which the error is shown.
    pub fn code(self) -> (r: &'static str)
        ensures
            r@ == self.code_text(),
    {
        match self {
            SyncError::LoginFailed => "freshrssLoginFailed",
            SyncError::NoToken => "freshrssNoToken",
            SyncError::NotConnected => "freshrssNotConnected",
        }
    }
}

/// The settings of a connection as they are stored.
#[derive(Debug)]
pub struct StoredSettings {
    pub url: Option<String>,
    pub user: Option<String>,
    pub auth: Option<String>,
    pub pass: Option<String>,
    pub provider: Option<String>,
}

/// What the stored settings hold.
pub struct SettingsView {
    pub url: Option<Seq<char>>,
    pub user: Option<Seq<char>>,
    pub auth: Option<Seq<char>>,
    pub pass: Option<Seq<char>>,
    pub provider: Option<Seq<char>>,
}

impl View for StoredSettings {
    type V = SettingsView;

    open spec fn view(&self) -> SettingsView {
        SettingsView {
            url: self.url.deep_view(),
            user: self.user.deep_view(),
            auth: self.auth.deep_view(),
            pass: self.pass.deep_view(),
            provider: self.provider.deep_view(),
        }
    }
}

/// A usable connection. The long-lived token is kept rather than the
/// password; `legacy_pass` is a password that an older installation stored.
#[derive(Debug)]
pub struct Creds {
    pub url: String,
    pub user: String,
    pub auth: Option<String>,
    pub legacy_pass: Option<String>,
    pub provider: Provider,
}

/// What a connection holds.
pub struct CredsView {
    pub url: Seq<char>,
    pub user: Seq<char>,
    pub auth: Option<Seq<char>>,
    pub legacy_pass: Option<Seq<char>>,
    pub provider: Provider,
}

impl View for Creds {
    type V = CredsView;

    open spec fn view(&self) -> CredsView {
        CredsView {
            url: self.url@,
            user: self.user@,
            auth: self.auth.deep_view(),
            legacy_pass: self.legacy_pass.deep_view(),
            provider: self.provider,
        }
    }
}

/// A stored text; a setting that is missing is empty.
pub open spec fn or_empty(setting: Option<Seq<char>>) -> Seq<char> {
    match setting {
        Some(s) => s,
        None => Seq::empty(),
    }
}

/// The connection that stored settings describe: there is one where the URL
/// is not blank, the user is not empty, and a token or a password is stored.
pub open spec fn connection(settings: SettingsView) -> Option<CredsView> {
    let url = or_empty(settings.url);
    let user = or_empty(settings.user);
    let auth = wire::some_nonempty(or_empty(settings.auth));
    let legacy_pass = wire::some_nonempty(or_empty(settings.pass));
    if text::blank(url) || user.len() == 0 || (auth is None && legacy_pass is None) {
        None
    } else {
        Some(
            CredsView {
                url,
                user,
                auth,
                legacy_pass,
                provider: Provider::of_setting(settings.provider),
            },
        )
    }
}

fn nonempty(setting: Option<String>) -> (r: Option<String>)
    ensures
        r.deep_view() == wire::some_nonempty(or_empty(setting.deep_view())),
{
    match setting {
        Some(s) => {
            if s.as_str().is_empty() {
                None
            } else {
                Some(s)
            }
        },
        None => None,
    }
}

fn text_of(setting: Option<String>) -> (r: String)
    ensures
        r@ == or_empty(setting.deep_view()),
{
    match setting {
        Some(s) => s,
        None => String::new(),
    }
}

/// The connection that stored settings describe.
pub fn creds(settings: StoredSettings) -> (r: Option<Creds>)
    ensures
        match r {
            Some(c) => connection(settings@) == Some(c@),
            None => connection(settings@) is None,
        },
{
    let provider: Provider = match &settings.provider {
        Some(p) => Provider::from_setting(Some(p.as_str())),
        None => Provider::from_setting(None),
    };
    let url: String = text_of(settings.url);
    let user: String = text_of(settings.user);
    let auth: Option<String> = nonempty(settings.auth);
    let legacy_pass: Option<String> = nonempty(settings.pass);
    if text::is_blank(url.as_str()) || user.as_str().is_empty() || (auth.is_none()
        && legacy_pass.is_none()) {
        return None;
    }
    Some(Creds { url, user, auth, legacy_pass, provider })
}

/// The server URL and the name of the provider of the stored connection.
pub open spec fn shown_connection(settings: SettingsView) -> Option<(Seq<char>, Seq<char>)> {
    match connection(settings) {
        Some(c) => Some((c.url, c.provider.name())),
        None => None,
    }
}

/// The server URL and the name of the provider of the stored connection.
pub fn connected_url(settings: StoredSettings) -> (r: Option<(String, String)>)
    ensures
        r.deep_view() == shown_connection(settings@),
{
    match creds(settings) {
        Some(c) => Some((c.url, c.provider.as_str().to_owned())),
        None => None,
    }
}

/// Whether a server is connected.
pub open spec fn is_connected(settings: SettingsView) -> bool {
    connection(settings) is Some
}

/// Whether a synchronisation is to run: only where a server is connected.
pub fn run_if_connected(settings: StoredSettings) -> (r: bool)
    ensures
        r == is_connected(settings@),
{
    creds(settings).is_some()
}

/// A change to what is stored about the connection.
#[derive(Debug)]
pub enum AccountWrite {
    /// Stores a setting.
    Store { key: String, value: String },
    /// Drops the queue of local feed additions and deletions.
    ClearFeedQueue,
}

/// What a change stores.
pub enum WriteView {
    Store { key: Seq<char>, value: Seq<char> },
    ClearFeedQueue,
}

impl View for AccountWrite {
    type V = WriteView;

    open spec fn view(&self) -> WriteView {
        match self {
            AccountWrite::Store { key, value } => WriteView::Store { key: key@, value: value@ },
            AccountWrite::ClearFeedQueue => WriteView::ClearFeedQueue,
        }
    }
}

/// What a list of changes stores.
pub open spec fn writes_view(writes: Seq<AccountWrite>) -> Seq<WriteView> {
    Seq::new(writes.len(), |i: int| writes[i]@)
}

/// The changes that store a verified connection: the trimmed URL, the user,
/// the token and the provider; any stored password is emptied.
pub open spec fn persisted(
    url: Seq<char>,
    user: Seq<char>,
    auth: Seq<char>,
    provider: Provider,
) -> Seq<WriteView> {
    seq![
        WriteView::Store { key: URL_KEY@, value: text::trimmed(url) },
        WriteView::Store { key: USER_KEY@, value: user },
        WriteView::Store { key: AUTH_KEY@, value: auth },
        WriteView::Store { key: PASS_KEY@, value: Seq::empty() },
        WriteView::Store { key: PROVIDER_KEY@, value: provider.name() },
    ]
}

/// The changes that forget a connection: every setting is emptied, and the
/// queue of feed changes is dropped.
pub open spec fn forgotten() -> Seq<WriteView> {
    seq![
        WriteView::Store { key: URL_KEY@, value: Seq::empty() },
        WriteView::Store { key: USER_KEY@, value: Seq::empty() },
        WriteView::Store { key: AUTH_KEY@, value: Seq::empty() },
        WriteView::Store { key: PASS_KEY@, value: Seq::empty() },
        WriteView::Store { key: PROVIDER_KEY@, value: Seq::empty() },
        WriteView::ClearFeedQueue,
    ]
}

fn put(key: &str, value: &str) -> (r: AccountWrite)
    ensures
        r@ == (WriteView::Store { key: key@, value: value@ }),
{
    AccountWrite::Store { key: key.to_owned(), value: value.to_owned() }
}

/// The changes that store a verified connection.
pub fn persist_session(url: &str, user: &str, auth: &str, provider: Provider) -> (r: Vec<
    AccountWrite,
>)
    ensures
        writes_view(r@) == persisted(url@, user@, auth@, provider),
{
    let r: Vec<AccountWrite> = vec![
        put(URL_KEY, text::trim(url)),
        put(USER_KEY, user),
        put(AUTH_KEY, auth),
        put(PASS_KEY, ""),
        put(PROVIDER_KEY, provider.as_str()),
    ];
    proof {
        reveal_strlit("");
        assert(""@ =~= Seq::<char>::empty());
        assert(writes_view(r@) =~= persisted(url@, user@, auth@, provider));
    }
    r
}

/// The changes that forget the stored connection.
pub fn disconnect() -> (r: Vec<AccountWrite>)
    ensures
        writes_view(r@) == forgotten(),
{
    let r: Vec<AccountWrite> = vec![
        put(URL_KEY, ""),
        put(USER_KEY, ""),
        put(AUTH_KEY, ""),
        put(PASS_KEY, ""),
        put(PROVIDER_KEY, ""),
        AccountWrite::ClearFeedQueue,
    ];
    proof {
        reveal_strlit("");
        assert(""@ =~= Seq::<char>::empty());
        assert(writes_view(r@) =~= forgotten());
    }
    r
}

/// The settings, by key, after a list of changes.
pub open spec fn store_after(store: Map<Seq<char>, Seq<char>>, writes: Seq<WriteView>) -> Map<
    Seq<char>,
    Seq<char>,
>
    decreases writes.len(),
{
    if writes.len() == 0 {
        store
    } else {
        let before = store_after(store, writes.drop_last());
        match writes.last() {
            WriteView::Store { key, value } => before.insert(key, value),
            WriteView::ClearFeedQueue => before,
        }
    }
}

/// The setting under a key.
pub open spec fn lookup(store: Map<Seq<char>, Seq<char>>, key: Seq<char>) -> Option<Seq<char>> {
    if store.dom().contains(key) {
        Some(store[key])
    } else {
        None
    }
}

/// The settings of a connection in a store.
pub open spec fn settings_in(store: Map<Seq<char>, Seq<char>>) -> SettingsView {
    SettingsView {
        url: lookup(store, URL_KEY@),
        user: lookup(store, USER_KEY@),
        auth: lookup(store, AUTH_KEY@),
        pass: lookup(store, PASS_KEY@),
        provider: lookup(store, PROVIDER_KEY@),
    }
}

proof fn lemma_keys_differ()
    ensures
        URL_KEY@ != USER_KEY@,
        URL_KEY@ != AUTH_KEY@,
        URL_KEY@ != PASS_KEY@,
        URL_KEY@ != PROVIDER_KEY@,
        USER_KEY@ != AUTH_KEY@,
        USER_KEY@ != PASS_KEY@,
        USER_KEY@ != PROVIDER_KEY@,
        AUTH_KEY@ != PASS_KEY@,
        AUTH_KEY@ != PROVIDER_KEY@,
        PASS_KEY@ != PROVIDER_KEY@,
{
    reveal_strlit("freshrss_url");
    reveal_strlit("freshrss_user");
    reveal_strlit("freshrss_auth");
    reveal_strlit("freshrss_pass");
    reveal_strlit("freshrss_provider");
    assert(URL_KEY@.len() == 12);
    assert(PROVIDER_KEY@.len() == 17);
    assert(USER_KEY@[9] == 'u');
    assert(AUTH_KEY@[9] == 'a');
    assert(PASS_KEY@[9] == 'p');
}

proof fn lemma_five_sets(store: Map<Seq<char>, Seq<char>>, w: Seq<WriteView>)
    requires
        w.len() == 5,
        w[0] is Store && w[0]->key == URL_KEY@,
        w[1] is Store && w[1]->key == USER_KEY@,
        w[2] is Store && w[2]->key == AUTH_KEY@,
        w[3] is Store && w[3]->key == PASS_KEY@,
        w[4] is Store && w[4]->key == PROVIDER_KEY@,
    ensures
        settings_in(store_after(store, w)) == (SettingsView {
            url: Some(w[0]->value),
            user: Some(w[1]->value),
            auth: Some(w[2]->value),
            pass: Some(w[3]->value),
            provider: Some(w[4]->value),
        }),
{
    lemma_keys_differ();
    reveal_with_fuel(store_after, 6);
    let w4 = w.drop_last();
    let w3 = w4.drop_last();
    let w2 = w3.drop_last();
    let w1 = w2.drop_last();
    assert(w1.drop_last().len() == 0);
    assert(w4.last() == w[3] && w3.last() == w[2] && w2.last() == w[1] && w1.last() == w[0]);
}

/// A connection that was stored is the one that is used afterwards, with the
/// token and without a password, whatever was stored before.
pub proof fn law_stored_connection_is_used(
    store: Map<Seq<char>, Seq<char>>,
    url: Seq<char>,
    user: Seq<char>,
    auth: Seq<char>,
    provider: Provider,
)
    requires
        !text::blank(url),
        user.len() > 0,
        auth.len() > 0,
    ensures
        connection(settings_in(store_after(store, persisted(url, user, auth, provider)))) == Some(
            CredsView {
                url: text::trimmed(url),
                user,
                auth: Some(auth),
                legacy_pass: None,
                provider,
            },
        ),
{
    lemma_five_sets(store, persisted(url, user, auth, provider));
    text::lemma_trimmed(url);
    text::lemma_trimmed_fixed(text::trimmed(url));
    text::lemma_trimmed(text::trimmed(url));
    crate::provider::law_setting_round_trip(provider);
}

/// After a disconnect there is no connection, whatever was stored before.
pub proof fn law_disconnect_forgets(store: Map<Seq<char>, Seq<char>>)
    ensures
        connection(settings_in(store_after(store, forgotten()))) is None,
{
    let w = forgotten().drop_last();
    assert(forgotten().last() is ClearFeedQueue);
    assert(store_after(store, forgotten()) == store_after(store, w));
    lemma_five_sets(store, w);
}

/// A connection needs a URL that is not blank, a user, and a token or a
/// password; it holds them as they are stored, with what is empty left out.
pub proof fn law_connection_holds_what_is_stored(settings: SettingsView)
    ensures
        connection(settings) is Some <==> (settings.url matches Some(url) && !text::blank(url)) && (
        settings.user matches Some(user) && user.len() > 0) && ((settings.auth matches Some(auth)
            && auth.len() > 0) || (settings.pass matches Some(pass) && pass.len() > 0)),
        connection(settings) matches Some(c) ==> {
            &&& Some(c.url) == settings.url
            &&& Some(c.user) == settings.user
            &&& c.auth is Some <==> (settings.auth matches Some(auth) && auth.len() > 0)
            &&& c.auth is Some ==> c.auth == settings.auth
            &&& c.legacy_pass is Some <==> (settings.pass matches Some(pass) && pass.len() > 0)
            &&& c.legacy_pass is Some ==> c.legacy_pass == settings.pass
            &&& c.provider == Provider::of_setting(settings.provider)
        },
{
}

proof fn lemma_other_key(store: Map<Seq<char>, Seq<char>>, writes: Seq<WriteView>, key: Seq<char>)
    requires
        forall|i: int|
            0 <= i < writes.len() ==> (#[trigger] writes[i] matches WriteView::Store {
                key: k,
                value,
            } ==> k != key),
    ensures
        lookup(store_after(store, writes), key) == lookup(store, key),
    decreases writes.len(),
{
    if writes.len() > 0 {
        assert forall|i: int| 0 <= i < writes.drop_last().len() implies (
        #[trigger] writes.drop_last()[i] matches WriteView::Store { key: k, value } ==> k != key) by {
            assert(writes.drop_last()[i] == writes[i]);
        }
        lemma_other_key(store, writes.drop_last(), key);
        assert(writes[writes.len() - 1] == writes.last());
    }
}

/// Storing a connection writes the trimmed URL, the user, the token, an empty
/// password and the name of the provider under their keys, and nothing under
/// any other key.
pub proof fn law_connection_is_stored_under_its_keys(
    store: Map<Seq<char>, Seq<char>>,
    url: Seq<char>,
    user: Seq<char>,
    auth: Seq<char>,
    provider: Provider,
    other: Seq<char>,
)
    requires
        other != "freshrss_url"@,
        other != "freshrss_user"@,
        other != "freshrss_auth"@,
        other != "freshrss_pass"@,
        other != "freshrss_provider"@,
    ensures
        ({
            let after = store_after(store, persisted(url, user, auth, provider));
            &&& lookup(after, "freshrss_url"@) == Some(text::trimmed(url))
            &&& lookup(after, "freshrss_user"@) == Some(user)
            &&& lookup(after, "freshrss_auth"@) == Some(auth)
            &&& lookup(after, "freshrss_pass"@) == Some(Seq::<char>::empty())
            &&& lookup(after, "freshrss_provider"@) == Some(provider.name())
            &&& lookup(after, other) == lookup(store, other)
        }),
{
    let writes = persisted(url, user, auth, provider);
    lemma_five_sets(store, writes);
    let after = settings_in(store_after(store, writes));
    assert(after.url == Some(text::trimmed(url)));
    lemma_other_key(store, writes, other);
}

/// Forgetting a connection empties every setting of it, leaves every other
/// setting alone, and drops the queue of feed changes.
pub proof fn law_disconnect_empties_every_setting(
    store: Map<Seq<char>, Seq<char>>,
    other: Seq<char>,
)
    requires
        other != "freshrss_url"@,
        other != "freshrss_user"@,
        other != "freshrss_auth"@,
        other != "freshrss_pass"@,
        other != "freshrss_provider"@,
    ensures
        ({
            let after = store_after(store, forgotten());
            let nothing = Some(Seq::<char>::empty());
            &&& lookup(after, "freshrss_url"@) == nothing
            &&& lookup(after, "freshrss_user"@) == nothing
            &&& lookup(after, "freshrss_auth"@) == nothing
            &&& lookup(after, "freshrss_pass"@) == nothing
            &&& lookup(after, "freshrss_provider"@) == nothing
            &&& lookup(after, other) == lookup(store, other)
            &&& exists|i: int|
                0 <= i < forgotten().len() && #[trigger] forgotten()[i] is ClearFeedQueue
        }),
{
    let w = forgotten().drop_last();
    assert(forgotten()[5] is ClearFeedQueue);
    assert(store_after(store, forgotten()) == store_after(store, w));
    lemma_five_sets(store, w);
    assert(settings_in(store_after(store, w)).url == Some(Seq::<char>::empty()));
    lemma_other_key(store, forgotten(), other);
}

/// The connection is changed without touching the queue of feed changes
/// unless it is forgotten.
pub proof fn law_storing_keeps_the_feed_queue(
    url: Seq<char>,
    user: Seq<char>,
    auth: Seq<char>,
    provider: Provider,
    i: int,
)
    requires
        0 <= i < persisted(url, user, auth, provider).len(),
    ensures
        !(persisted(url, user, auth, provider)[i] is ClearFeedQueue),
{
}

/// Every error is shown under a code of its own.
pub proof fn law_errors_have_their_codes(e: SyncError)
    ensures
        e == SyncError::LoginFailed ==> e.code_text() == "freshrssLoginFailed"@,
        e == SyncError::NoToken ==> e.code_text() == "freshrssNoToken"@,
        e == SyncError::NotConnected ==> e.code_text() == "freshrssNotConnected"@,
{
}

/// What is shown of a connection is the stored URL and a name that reads back
/// as the provider that is used; it is shown, and a synchronisation runs,
/// exactly where there is a URL that is not blank, a user, and a token or a
/// password.
pub proof fn law_shown_connection_is_the_one_used(settings: SettingsView)
    ensures
        is_connected(settings) <==> (settings.url matches Some(url) && !text::blank(url)) && (
        settings.user matches Some(user) && user.len() > 0) && ((settings.auth matches Some(auth)
            && auth.len() > 0) || (settings.pass matches Some(pass) && pass.len() > 0)),
        shown_connection(settings) is Some <==> is_connected(settings),
        shown_connection(settings) matches Some((url, name)) ==> Some(url) == settings.url
            && Provider::of_setting(Some(name)) == Provider::of_setting(settings.provider) && (name
            == "freshrss"@ || name == "miniflux"@),
{
    crate::provider::law_setting_round_trip(Provider::of_setting(settings.provider));
}

} // verus!
