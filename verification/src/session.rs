//! Logging in, and the requests of a session.

use vstd::prelude::*;
use vstd::string::*;
use crate::account;
use crate::account::{AccountWrite, Creds, CredsView, StoredSettings, SyncError, WriteView};
use crate::http;
use crate::http::{Method, Request, RequestView, Status};
use crate::provider;
use crate::provider::Provider;
use crate::text;

verus! {

/// An authenticated session.
#[derive(Debug)]
pub struct Session {
    pub base: String,
    pub auth: String,
    pub token: String,
}

/// What a session holds.
pub struct SessionView {
    pub base: Seq<char>,
    pub auth: Seq<char>,
    pub token: Seq<char>,
}

impl View for Session {
    type V = SessionView;

    open spec fn view(&self) -> SessionView {
        SessionView { base: self.base@, auth: self.auth@, token: self.token@ }
    }
}

/// The URL of an API call.
pub open spec fn api_url(base: Seq<char>, path: Seq<char>) -> Seq<char> {
    base + "/reader/api/0/"@ + path
}

/// The `Authorization` header for a token.
pub open spec fn auth_header(auth: Seq<char>) -> Seq<char> {
    "GoogleLogin auth="@ + auth
}

impl SessionView {
    pub open spec fn get(self, path: Seq<char>) -> RequestView {
        RequestView {
            method: Method::Get,
            url: api_url(self.base, path),
            authorization: Some(auth_header(self.auth)),
            form: Seq::empty(),
        }
    }

    pub open spec fn post(self, path: Seq<char>, form: Seq<(Seq<char>, Seq<char>)>) -> RequestView {
        RequestView {
            method: Method::Post,
            url: api_url(self.base, path),
            authorization: Some(auth_header(self.auth)),
            form,
        }
    }
}

fn url_of(base: &str, path: &str) -> (r: String)
    ensures
        r@ == api_url(base@, path@),
{
    let mut url: String = text::join(base, "/reader/api/0/");
    url.append(path);
    url
}

impl Session {
    /// A reading API call.
    pub fn get(&self, path: &str) -> (r: Request)
        ensures
            r@ == self@.get(path@),
    {
        let r: Request = Request {
            method: Method::Get,
            url: url_of(self.base.as_str(), path),
            authorization: Some(text::join("GoogleLogin auth=", self.auth.as_str())),
            form: Vec::new(),
        };
        assert(r.form.deep_view() =~= Seq::empty());
        r
    }

    /// A writing API call with the given form.
    pub fn post(&self, path: &str, form: Vec<(String, String)>) -> (r: Request)
        ensures
            r@ == self@.post(path@, form.deep_view()),
    {
        Request {
            method: Method::Post,
            url: url_of(self.base.as_str(), path),
            authorization: Some(text::join("GoogleLogin auth=", self.auth.as_str())),
            form,
        }
    }
}

/// The request that exchanges user and password for a token.
pub open spec fn login_request(base: Seq<char>, user: Seq<char>, pass: Seq<char>) -> RequestView {
    RequestView {
        method: Method::Post,
        url: base + "/accounts/ClientLogin"@,
        authorization: None,
        form: seq![("Email"@, user), ("Passwd"@, pass)],
    }
}

/// The request that exchanges user and password for a token.
pub fn client_login(base: &str, user: &str, pass: &str) -> (r: Request)
    ensures
        r@ == login_request(base@, user@, pass@),
{
    let form: Vec<(String, String)> = vec![
        http::field("Email", user),
        http::field("Passwd", pass),
    ];
    assert(form.deep_view() =~= seq![("Email"@, user@), ("Passwd"@, pass@)]);
    Request {
        method: Method::Post,
        url: text::join(base, "/accounts/ClientLogin"),
        authorization: None,
        form,
    }
}

/// The length of the first line of `s`.
pub open spec fn line_length(s: Seq<char>) -> nat
    decreases s.len(),
{
    if s.len() == 0 || s[0] == '\n' {
        0
    } else {
        1 + line_length(s.skip(1))
    }
}

proof fn lemma_line_length_is(s: Seq<char>, n: int)
    requires
        0 <= n <= s.len(),
        n == s.len() || s[n] == '\n',
        forall|k: int| 0 <= k < n ==> s[k] != '\n',
    ensures
        line_length(s) == n,
    decreases n,
{
    if n > 0 {
        assert forall|k: int| 0 <= k < n - 1 implies s.skip(1)[k] != '\n' by {
            assert(s.skip(1)[k] == s[k + 1]);
        }
        lemma_line_length_is(s.skip(1), n - 1);
    }
}

/// What follows `Auth=` on the first line that begins with it.
pub open spec fn auth_line(body: Seq<char>) -> Option<Seq<char>>
    decreases body.len(),
{
    let n = line_length(body) as int;
    if text::begins(body.take(n), "Auth="@) {
        Some(body.take(n).skip("Auth="@.len() as int))
    } else if n < body.len() {
        auth_line(body.skip(n + 1))
    } else {
        None
    }
}

/// The token in the answer to a login: the login fails unless the status is
/// a success, and there is no token where the first `Auth=` line is missing
/// or blank.
pub open spec fn login_token(code: u16, body: Seq<char>) -> Result<Seq<char>, SyncError> {
    if !http::success(code) {
        Err(SyncError::LoginFailed)
    } else {
        match auth_line(body) {
            Some(value) if text::trimmed(value).len() > 0 => Ok(text::trimmed(value)),
            _ => Err(SyncError::NoToken),
        }
    }
}

fn find_auth_line(body: &str) -> (r: Option<&str>)
    ensures
        r.deep_view() == auth_line(body@),
{
    let v: Vec<char> = text::chars_of(body);
    let n: usize = v.len();
    let mut i: usize = 0;
    assert(body@.skip(0) == body@);
    loop
        invariant
            v@ == body@,
            n == v.len(),
            i <= n,
            auth_line(body@) == auth_line(body@.skip(i as int)),
        decreases n - i,
    {
        let ghost rest = body@.skip(i as int);
        let mut j: usize = i;
        while j < n && v[j] != '\n'
            invariant
                v@ == body@,
                n == v.len(),
                i <= j <= n,
                forall|k: int| i <= k < j ==> body@[k] != '\n',
            decreases n - j,
        {
            j = j + 1;
        }
        proof {
            lemma_line_length_is(rest, j - i);
            assert(rest.take(j - i) == body@.subrange(i as int, j as int));
        }
        let line: &str = body.substring_char(i, j);
        match text::strip_prefix(line, "Auth=") {
            Some(value) => {
                return Some(value);
            },
            None => {},
        }
        if j == n {
            return None;
        }
        assert(rest.skip(j - i + 1) == body@.skip(j + 1));
        i = j + 1;
    }
}

/// Reads the token out of the answer to a login.
pub fn client_login_reply(status: Status, body: &str) -> (r: Result<String, SyncError>)
    ensures
        match r {
            Ok(token) => login_token(status.value(), body@) == Ok::<Seq<char>, SyncError>(token@),
            Err(e) => login_token(status.value(), body@) == Err::<Seq<char>, SyncError>(e),
        },
{
    if !http::is_success(status) {
        return Err(SyncError::LoginFailed);
    }
    match find_auth_line(body) {
        Some(value) => {
            let token: &str = text::trim(value);
            if token.is_empty() {
                Err(SyncError::NoToken)
            } else {
                Ok(token.to_owned())
            }
        },
        None => Err(SyncError::NoToken),
    }
}

/// The request that fetches a write token.
pub open spec fn token_request(base: Seq<char>, auth: Seq<char>) -> RequestView {
    RequestView {
        method: Method::Get,
        url: base + "/reader/api/0/token"@,
        authorization: Some(auth_header(auth)),
        form: Seq::empty(),
    }
}

/// The request that fetches a write token for an auth token.
pub fn session_with_token(base: &str, auth: &str) -> (r: Request)
    ensures
        r@ == token_request(base@, auth@),
{
    let r: Request = Request {
        method: Method::Get,
        url: text::join(base, "/reader/api/0/token"),
        authorization: Some(text::join("GoogleLogin auth=", auth)),
        form: Vec::new(),
    };
    assert(r.form.deep_view() =~= Seq::empty());
    r
}

/// The session that the answer to a token request opens: none where the
/// status is an error, else one with the trimmed body as its write token.
pub open spec fn opened(
    base: Seq<char>,
    auth: Seq<char>,
    code: u16,
    body: Seq<char>,
) -> Result<SessionView, SyncError> {
    if http::client_error(code) || http::server_error(code) {
        Err(SyncError::LoginFailed)
    } else {
        Ok(SessionView { base, auth, token: text::trimmed(body) })
    }
}

/// Opens a session from the answer to a token request.
pub fn token_reply(base: &str, auth: &str, status: Status, body: &str) -> (r: Result<
    Session,
    SyncError,
>)
    ensures
        match r {
            Ok(s) => opened(base@, auth@, status.value(), body@) == Ok::<SessionView, SyncError>(
                s@,
            ),
            Err(e) => opened(base@, auth@, status.value(), body@) == Err::<SessionView, SyncError>(
                e,
            ),
        },
{
    if http::is_client_error(status) || http::is_server_error(status) {
        Err(SyncError::LoginFailed)
    } else {
        Ok(
            Session {
                base: base.to_owned(),
                auth: auth.to_owned(),
                token: text::trim(body).to_owned(),
            },
        )
    }
}

/// How far the opening of a session has come.
#[derive(Debug)]
pub enum OpeningStep {
    /// The password is to be exchanged for an auth token.
    Login { pass: String },
    /// A write token is to be fetched; the connection is stored afterwards
    /// where the auth token is a new one.
    Token { auth: String, fresh: bool },
    /// The connection is to be stored.
    Store { session: Session },
    /// The session is open.
    Open { session: Session },
    /// The server refused.
    Refused { error: SyncError },
}

/// How far the opening of a session has come.
pub enum StepView {
    Login { pass: Seq<char> },
    Token { auth: Seq<char>, fresh: bool },
    Store { session: SessionView },
    Open { session: SessionView },
    Refused { error: SyncError },
}

impl View for OpeningStep {
    type V = StepView;

    open spec fn view(&self) -> StepView {
        match self {
            OpeningStep::Login { pass } => StepView::Login { pass: pass@ },
            OpeningStep::Token { auth, fresh } => StepView::Token { auth: auth@, fresh: *fresh },
            OpeningStep::Store { session } => StepView::Store { session: session@ },
            OpeningStep::Open { session } => StepView::Open { session: session@ },
            OpeningStep::Refused { error } => StepView::Refused { error: *error },
        }
    }
}

/// The opening of a session, one request at a time.
#[derive(Debug)]
pub struct Opening {
    pub url: String,
    pub user: String,
    pub provider: Provider,
    pub step: OpeningStep,
}

/// The state of an opening.
pub struct OpeningView {
    pub url: Seq<char>,
    pub user: Seq<char>,
    pub provider: Provider,
    pub step: StepView,
}

impl View for Opening {
    type V = OpeningView;

    open spec fn view(&self) -> OpeningView {
        OpeningView {
            url: self.url@,
            user: self.user@,
            provider: self.provider,
            step: self.step@,
        }
    }
}

/// What an opening asks for next.
#[derive(Debug)]
pub enum OpeningAction {
    /// A request is to be sent; `replied` takes the answer.
    Send(Request),
    /// Changes are to be stored; `stored` is called afterwards.
    Store(Vec<AccountWrite>),
    /// Nothing: the opening has ended.
    End,
}

/// What an opening asks for next.
pub enum OpeningActionView {
    Send(RequestView),
    Store(Seq<WriteView>),
    End,
}

impl View for OpeningAction {
    type V = OpeningActionView;

    open spec fn view(&self) -> OpeningActionView {
        match self {
            OpeningAction::Send(request) => OpeningActionView::Send(request@),
            OpeningAction::Store(writes) => OpeningActionView::Store(
                account::writes_view(writes@),
            ),
            OpeningAction::End => OpeningActionView::End,
        }
    }
}

impl OpeningView {
    /// A first connection with user and password.
    pub open spec fn connecting(
        url: Seq<char>,
        user: Seq<char>,
        pass: Seq<char>,
        provider: Provider,
    ) -> OpeningView {
        OpeningView { url, user, provider, step: StepView::Login { pass } }
    }

    /// A first connection with what the user typed and chose.
    pub open spec fn typed(
        url: Seq<char>,
        user: Seq<char>,
        pass: Seq<char>,
        provider: Option<Seq<char>>,
    ) -> OpeningView {
        OpeningView::connecting(url, user, pass, Provider::of_setting(provider))
    }

    /// A stored connection: by its token, or by the password that an older
    /// installation stored.
    pub open spec fn resuming(creds: CredsView) -> OpeningView {
        OpeningView {
            url: creds.url,
            user: creds.user,
            provider: creds.provider,
            step: match creds.auth {
                Some(auth) => StepView::Token { auth, fresh: false },
                None => StepView::Login { pass: account::or_empty(creds.legacy_pass) },
            },
        }
    }

    pub open spec fn base(self) -> Seq<char> {
        provider::base_of(self.url, self.provider)
    }

    /// What is asked for next.
    pub open spec fn asks(self) -> OpeningActionView {
        match self.step {
            StepView::Login { pass } => OpeningActionView::Send(
                login_request(self.base(), self.user, pass),
            ),
            StepView::Token { auth, fresh } => OpeningActionView::Send(
                token_request(self.base(), auth),
            ),
            StepView::Store { session } => OpeningActionView::Store(
                account::persisted(self.url, self.user, session.auth, self.provider),
            ),
            _ => OpeningActionView::End,
        }
    }

    /// Whether the body of an answer matters: a refusal is judged by its
    /// status alone.
    pub open spec fn reads_body(self, code: u16) -> bool {
        match self.step {
            StepView::Login { pass } => http::success(code),
            StepView::Token { auth, fresh } => !http::client_error(code) && !http::server_error(
                code,
            ),
            _ => false,
        }
    }

    /// The state after the answer to a request.
    pub open spec fn after_reply(self, code: u16, body: Seq<char>) -> OpeningView {
        let step = match self.step {
            StepView::Login { pass } => match login_token(code, body) {
                Ok(auth) => StepView::Token { auth, fresh: true },
                Err(error) => StepView::Refused { error },
            },
            StepView::Token { auth, fresh } => match opened(self.base(), auth, code, body) {
                Ok(session) => if fresh {
                    StepView::Store { session }
                } else {
                    StepView::Open { session }
                },
                Err(error) => StepView::Refused { error },
            },
            other => other,
        };
        OpeningView { step, ..self }
    }

    /// The state after the connection was stored.
    pub open spec fn after_store(self) -> OpeningView {
        let step = match self.step {
            StepView::Store { session } => StepView::Open { session },
            other => other,
        };
        OpeningView { step, ..self }
    }
}

impl Opening {
    /// Takes up a stored connection.
    pub fn resume(creds: Creds) -> (r: Opening)
        ensures
            r@ == OpeningView::resuming(creds@),
    {
        let step: OpeningStep = match creds.auth {
            Some(auth) => OpeningStep::Token { auth, fresh: false },
            None => OpeningStep::Login {
                pass: match creds.legacy_pass {
                    Some(pass) => pass,
                    None => String::new(),
                },
            },
        };
        Opening { url: creds.url, user: creds.user, provider: creds.provider, step }
    }

    /// What is to be done next.
    pub fn action(&self) -> (r: OpeningAction)
        ensures
            r@ == self@.asks(),
    {
        match &self.step {
            OpeningStep::Login { pass } => {
                let base: String = provider::greader_base(self.url.as_str(), self.provider);
                OpeningAction::Send(
                    client_login(base.as_str(), self.user.as_str(), pass.as_str()),
                )
            },
            OpeningStep::Token { auth, fresh } => {
                let base: String = provider::greader_base(self.url.as_str(), self.provider);
                OpeningAction::Send(session_with_token(base.as_str(), auth.as_str()))
            },
            OpeningStep::Store { session } => OpeningAction::Store(
                account::persist_session(
                    self.url.as_str(),
                    self.user.as_str(),
                    session.auth.as_str(),
                    self.provider,
                ),
            ),
            _ => OpeningAction::End,
        }
    }

    /// Whether the body of an answer with that status matters.
    pub fn needs_body(&self, status: Status) -> (r: bool)
        ensures
            r == self@.reads_body(status.value()),
    {
        match &self.step {
            OpeningStep::Login { pass } => http::is_success(status),
            OpeningStep::Token { auth, fresh } => !http::is_client_error(status)
                && !http::is_server_error(status),
            _ => false,
        }
    }

    /// Takes the answer to a request.
    pub fn replied(self, status: Status, body: &str) -> (r: Opening)
        ensures
            r@ == self@.after_reply(status.value(), body@),
    {
        let step: OpeningStep = match self.step {
            OpeningStep::Login { pass } => match client_login_reply(status, body) {
                Ok(auth) => OpeningStep::Token { auth, fresh: true },
                Err(error) => OpeningStep::Refused { error },
            },
            OpeningStep::Token { auth, fresh } => {
                let base: String = provider::greader_base(self.url.as_str(), self.provider);
                match token_reply(base.as_str(), auth.as_str(), status, body) {
                    Ok(session) => if fresh {
                        OpeningStep::Store { session }
                    } else {
                        OpeningStep::Open { session }
                    },
                    Err(error) => OpeningStep::Refused { error },
                }
            },
            other => other,
        };
        Opening { url: self.url, user: self.user, provider: self.provider, step }
    }

    /// Takes note that the connection was stored.
    pub fn stored(self) -> (r: Opening)
        ensures
            r@ == self@.after_store(),
    {
        let step: OpeningStep = match self.step {
            OpeningStep::Store { session } => OpeningStep::Open { session },
            other => other,
        };
        Opening { url: self.url, user: self.user, provider: self.provider, step }
    }

    /// The session or the refusal in which the opening ended.
    pub fn outcome(self) -> (r: Option<Result<Session, SyncError>>)
        ensures
            match r {
                Some(Ok(session)) => self@.step == (StepView::Open { session: session@ }),
                Some(Err(error)) => self@.step == (StepView::Refused { error }),
                None => !(self@.step is Open) && !(self@.step is Refused),
            },
    {
        match self.step {
            OpeningStep::Open { session } => Some(Ok(session)),
            OpeningStep::Refused { error } => Some(Err(error)),
            _ => None,
        }
    }
}

/// Connects with user and password: the connection is stored once the server
/// has accepted both.
pub fn connect(url: &str, user: &str, pass: &str, provider: Option<&str>) -> (r: Opening)
    ensures
        r@ == OpeningView::typed(url@, user@, pass@, provider.deep_view()),
{
    Opening {
        url: url.to_owned(),
        user: user.to_owned(),
        provider: Provider::from_setting(provider),
        step: OpeningStep::Login { pass: pass.to_owned() },
    }
}

/// Takes up the connection that the stored settings describe; there is no
/// session without one.
pub fn open_stored(settings: StoredSettings) -> (r: Result<Opening, SyncError>)
    ensures
        match account::connection(settings@) {
            Some(creds) => r matches Ok(opening) && opening@ == OpeningView::resuming(creds),
            None => r == Err::<Opening, SyncError>(SyncError::NotConnected),
        },
{
    match account::creds(settings) {
        Some(creds) => Ok(Opening::resume(creds)),
        None => Err(SyncError::NotConnected),
    }
}

/// Where the body of an answer does not matter, every body leads on alike.
pub proof fn law_a_refusal_needs_no_body(
    opening: OpeningView,
    code: u16,
    a: Seq<char>,
    b: Seq<char>,
)
    requires
        !opening.reads_body(code),
    ensures
        opening.after_reply(code, a) == opening.after_reply(code, b),
{
}

/// A first connection stores something exactly where both the login and the
/// token request succeeded, and what it stores then is the verified
/// connection.
pub proof fn law_connect_stores_only_verified(
    url: Seq<char>,
    user: Seq<char>,
    pass: Seq<char>,
    provider: Provider,
    login_code: u16,
    login_body: Seq<char>,
    token_code: u16,
    token_body: Seq<char>,
)
    ensures
        ({
            let start = OpeningView::connecting(url, user, pass, provider);
            let first = start.after_reply(login_code, login_body);
            let second = first.after_reply(token_code, token_body);
            let login = login_token(login_code, login_body);
            let session = opened(start.base(), login->Ok_0, token_code, token_body);
            &&& !(start.asks() is Store)
            &&& !(first.asks() is Store)
            &&& (second.asks() is Store <==> login is Ok && session is Ok)
            &&& (second.asks() matches OpeningActionView::Store(writes) ==> writes
                == account::persisted(url, user, login->Ok_0, provider))
        }),
{
}

/// A password that an older installation stored is gone once the session
/// that it opened has been stored, and the token serves from then on.
pub proof fn law_legacy_password_is_replaced(
    store: Map<Seq<char>, Seq<char>>,
    creds: CredsView,
    login_code: u16,
    login_body: Seq<char>,
    token_code: u16,
    token_body: Seq<char>,
)
    requires
        account::connection(account::settings_in(store)) == Some(creds),
        creds.auth is None,
        ({
            let second = OpeningView::resuming(creds).after_reply(
                login_code,
                login_body,
            ).after_reply(token_code, token_body);
            second.asks() is Store
        }),
    ensures
        ({
            let second = OpeningView::resuming(creds).after_reply(
                login_code,
                login_body,
            ).after_reply(token_code, token_body);
            let after = account::store_after(store, second.asks()->Store_0);
            account::connection(account::settings_in(after)) == Some(
                CredsView {
                    url: text::trimmed(creds.url),
                    auth: Some(login_token(login_code, login_body)->Ok_0),
                    legacy_pass: None,
                    ..creds
                },
            )
        }),
{
    account::law_stored_connection_is_used(
        store,
        creds.url,
        creds.user,
        login_token(login_code, login_body)->Ok_0,
        creds.provider,
    );
}

/// Every call of a session goes to the API below its root, with its auth
/// token, as a reading or as a writing call.
pub proof fn law_calls_go_to_the_api(
    session: SessionView,
    path: Seq<char>,
    form: Seq<(Seq<char>, Seq<char>)>,
)
    ensures
        ({
            let get = session.get(path);
            let post = session.post(path, form);
            &&& get.method == Method::Get && post.method == Method::Post
            &&& get.url == session.base + "/reader/api/0/"@ + path
            &&& post.url == get.url
            &&& get.authorization == Some("GoogleLogin auth="@ + session.auth)
            &&& post.authorization == get.authorization
            &&& get.form.len() == 0
            &&& post.form == form
        }),
{
}

/// Whether a line begins at an index.
pub open spec fn line_begins(body: Seq<char>, i: int) -> bool {
    0 <= i <= body.len() && (i == 0 || body[i - 1] == '\n')
}

proof fn lemma_line_length(s: Seq<char>)
    ensures
        line_length(s) <= s.len(),
        line_length(s) < s.len() ==> s[line_length(s) as int] == '\n',
        forall|k: int| 0 <= k < line_length(s) ==> #[trigger] s[k] != '\n',
    decreases s.len(),
{
    if s.len() > 0 && s[0] != '\n' {
        lemma_line_length(s.skip(1));
        assert forall|k: int| 0 <= k < line_length(s) implies #[trigger] s[k] != '\n' by {
            if k > 0 {
                assert(s.skip(1)[k - 1] == s[k]);
            }
        }
        if line_length(s) < s.len() {
            assert(s.skip(1)[line_length(s) - 1] == s[line_length(s) as int]);
        }
    }
}

proof fn lemma_occurs_skipped(s: Seq<char>, p: Seq<char>, m: int, i: int)
    requires
        0 <= m <= s.len(),
        0 <= i,
    ensures
        text::occurs_at(s.skip(m), p, i) <==> text::occurs_at(s, p, m + i),
{
    if m + i + p.len() <= s.len() {
        assert(s.skip(m).subrange(i, i + p.len()) =~= s.subrange(m + i, m + i + p.len()));
    }
}

proof fn lemma_first_line_begins(s: Seq<char>)
    ensures
        text::begins(s.take(line_length(s) as int), "Auth="@) <==> text::occurs_at(s, "Auth="@, 0),
{
    let n = line_length(s) as int;
    lemma_line_length(s);
    reveal_strlit("Auth=");
    if text::begins(s.take(n), "Auth="@) {
        assert(s.take(n).subrange(0, 5) =~= s.subrange(0, 5));
    }
    if text::occurs_at(s, "Auth="@, 0) {
        assert forall|k: int| 0 <= k < 5 implies s[k] == "Auth="@[k] by {
            assert(s.subrange(0, 5)[k] == s[k]);
        }
        assert(n >= 5);
        assert(s.take(n).subrange(0, 5) =~= s.subrange(0, 5));
    }
}

proof fn lemma_auth_line_is(body: Seq<char>, i: int, e: int)
    requires
        line_begins(body, i),
        text::occurs_at(body, "Auth="@, i),
        forall|j: int|
            0 <= j < i && #[trigger] line_begins(body, j) ==> !text::occurs_at(body, "Auth="@, j),
        i + 5 <= e <= body.len(),
        e == body.len() || body[e] == '\n',
        forall|k: int| i + 5 <= k < e ==> #[trigger] body[k] != '\n',
    ensures
        auth_line(body) == Some(body.subrange(i + 5, e)),
    decreases body.len(),
{
    let n = line_length(body) as int;
    lemma_line_length(body);
    lemma_first_line_begins(body);
    reveal_strlit("Auth=");
    if i == 0 {
        assert forall|k: int| 0 <= k < 5 implies body[k] == "Auth="@[k] by {
            assert(body.subrange(0, 5)[k] == body[k]);
        }
        lemma_line_length_is(body, e);
        assert(body.take(n).skip(5) =~= body.subrange(5, e));
    } else {
        assert(line_begins(body, 0));
        assert(body[i - 1] == '\n');
        assert(n <= i - 1);
        let rest = body.skip(n + 1);
        let m = i - n - 1;
        lemma_occurs_skipped(body, "Auth="@, n + 1, m);
        assert forall|j: int| 0 <= j < m && #[trigger] line_begins(rest, j) implies !text::occurs_at(
            rest,
            "Auth="@,
            j,
        ) by {
            lemma_occurs_skipped(body, "Auth="@, n + 1, j);
            if j > 0 {
                assert(rest[j - 1] == body[n + j]);
            }
            assert(line_begins(body, n + 1 + j));
        }
        assert forall|k: int| m + 5 <= k < e - n - 1 implies #[trigger] rest[k] != '\n' by {
            assert(rest[k] == body[n + 1 + k]);
        }
        lemma_auth_line_is(rest, m, e - n - 1);
        assert(rest.subrange(m + 5, e - n - 1) =~= body.subrange(i + 5, e));
    }
}

proof fn lemma_no_auth_line(body: Seq<char>)
    requires
        forall|j: int| #[trigger] line_begins(body, j) ==> !text::occurs_at(body, "Auth="@, j),
    ensures
        auth_line(body) is None,
    decreases body.len(),
{
    let n = line_length(body) as int;
    lemma_line_length(body);
    lemma_first_line_begins(body);
    assert(line_begins(body, 0));
    if n < body.len() {
        let rest = body.skip(n + 1);
        assert forall|j: int| #[trigger] line_begins(rest, j) implies !text::occurs_at(
            rest,
            "Auth="@,
            j,
        ) by {
            lemma_occurs_skipped(body, "Auth="@, n + 1, j);
            if j > 0 {
                assert(rest[j - 1] == body[n + j]);
            }
            assert(line_begins(body, n + 1 + j));
        }
        lemma_no_auth_line(rest);
    }
}

/// The auth token is what follows `Auth=` on the first line that begins with
/// it, up to the end of that line and without white space around it. A login
/// that succeeds without one has no token, and any other login failed.
pub proof fn law_auth_token_is_on_the_first_auth_line(code: u16, body: Seq<char>, i: int, e: int)
    requires
        line_begins(body, i),
        text::occurs_at(body, "Auth="@, i),
        forall|j: int|
            0 <= j < i && #[trigger] line_begins(body, j) ==> !text::occurs_at(body, "Auth="@, j),
        i + 5 <= e <= body.len(),
        e == body.len() || body[e] == '\n',
        forall|k: int| i + 5 <= k < e ==> #[trigger] body[k] != '\n',
    ensures
        200 <= code <= 299 && !text::blank(body.subrange(i + 5, e)) ==> login_token(code, body)
            == Ok::<Seq<char>, SyncError>(text::trimmed(body.subrange(i + 5, e))),
        200 <= code <= 299 && text::blank(body.subrange(i + 5, e)) ==> login_token(code, body)
            == Err::<Seq<char>, SyncError>(SyncError::NoToken),
        code < 200 || code > 299 ==> login_token(code, body) == Err::<Seq<char>, SyncError>(
            SyncError::LoginFailed,
        ),
{
    lemma_auth_line_is(body, i, e);
    text::lemma_trimmed(body.subrange(i + 5, e));
}

/// A successful login without a line that begins with `Auth=` has no token.
pub proof fn law_no_auth_line_is_no_token(code: u16, body: Seq<char>)
    requires
        forall|j: int| #[trigger] line_begins(body, j) ==> !text::occurs_at(body, "Auth="@, j),
    ensures
        200 <= code <= 299 ==> login_token(code, body) == Err::<Seq<char>, SyncError>(
            SyncError::NoToken,
        ),
        code < 200 || code > 299 ==> login_token(code, body) == Err::<Seq<char>, SyncError>(
            SyncError::LoginFailed,
        ),
{
    lemma_no_auth_line(body);
}

/// What can happen to an opening.
pub enum OpeningEvent {
    Replied(u16, Seq<char>),
    Stored,
}

/// An opening after a history.
pub open spec fn after_opening_events(
    opening: OpeningView,
    events: Seq<OpeningEvent>,
) -> OpeningView
    decreases events.len(),
{
    if events.len() == 0 {
        opening
    } else {
        let before = after_opening_events(opening, events.drop_last());
        match events.last() {
            OpeningEvent::Replied(code, body) => before.after_reply(code, body),
            OpeningEvent::Stored => before.after_store(),
        }
    }
}

/// Whatever the server answers, an opening talks to one place: the API root
/// of its server URL for its own provider. Its login and token requests go
/// there, and the session in which it ends has that root for its base.
pub proof fn law_session_keeps_the_root(start: OpeningView, events: Seq<OpeningEvent>)
    requires
        start.step is Login || start.step is Token,
    ensures
        ({
            let root = provider::base_of(start.url, start.provider);
            let now = after_opening_events(start, events);
            &&& now.url == start.url && now.user == start.user && now.provider == start.provider
            &&& now.asks() matches OpeningActionView::Send(request) ==> request.url == root
                + "/accounts/ClientLogin"@ || request.url == root + "/reader/api/0/token"@
            &&& now.step matches StepView::Store { session } ==> session.base == root
            &&& now.step matches StepView::Open { session } ==> session.base == root
        }),
    decreases events.len(),
{
    if events.len() > 0 {
        law_session_keeps_the_root(start, events.drop_last());
    }
}

/// A session with Miniflux calls the API right below the server root, and one
/// with FreshRSS below a root that holds `/api/greader.php`.
pub proof fn law_sessions_reach_their_provider(start: OpeningView, events: Seq<OpeningEvent>)
    requires
        start.step is Login || start.step is Token,
        after_opening_events(start, events).step is Open,
    ensures
        ({
            let base = after_opening_events(start, events).step->Open_session.base;
            &&& start.provider == Provider::Miniflux ==> base == provider::bare_end(
                text::trimmed(start.url),
            )
            &&& start.provider == Provider::FreshRss ==> text::occurs(base, "/api/greader.php"@)
        }),
{
    law_session_keeps_the_root(start, events);
    let base = provider::base_of(start.url, start.provider);
    if start.provider == Provider::Miniflux {
        provider::lemma_miniflux_base(start.url);
    } else {
        provider::law_base_reaches_the_api(start.url, start.provider);
        let suffix = "/api/greader.php"@;
        if text::ends(base, suffix) {
            assert(text::occurs_at(base, suffix, base.len() - suffix.len()));
        } else {
            let i = choose|i: int| text::occurs_at(base, suffix + "/"@, i);
            assert(text::occurs_at(base, suffix + "/"@, i));
            assert(base.subrange(i, i + (suffix + "/"@).len()).take(suffix.len() as int)
                =~= base.subrange(i, i + suffix.len()));
            assert((suffix + "/"@).take(suffix.len() as int) =~= suffix);
            assert(text::occurs_at(base, suffix, i));
        }
    }
}

/// A stored token is used without a login: the write token is asked for with
/// it, what comes back without white space around it opens the session, and
/// an error refuses it. Nothing is stored.
pub proof fn law_stored_token_opens(creds: CredsView, auth: Seq<char>, code: u16, body: Seq<char>)
    requires
        creds.auth == Some(auth),
    ensures
        ({
            let root = provider::base_of(creds.url, creds.provider);
            let start = OpeningView::resuming(creds);
            let end = start.after_reply(code, body);
            &&& start.asks() matches OpeningActionView::Send(request)
            &&& request.method == Method::Get
            &&& request.url == root + "/reader/api/0/token"@
            &&& request.authorization == Some("GoogleLogin auth="@ + auth)
            &&& request.form.len() == 0
            &&& code < 400 || code > 599 ==> end.step == (StepView::Open {
                session: SessionView { base: root, auth, token: text::trimmed(body) },
            })
            &&& 400 <= code <= 599 ==> end.step == (StepView::Refused {
                error: SyncError::LoginFailed,
            })
            &&& end.asks() is End
        }),
{
}

/// A password is exchanged for an auth token, with which the write token is
/// asked for; once both came the connection is stored, and then the session
/// is open.
pub proof fn law_password_opens(
    start: OpeningView,
    pass: Seq<char>,
    login_code: u16,
    login_body: Seq<char>,
    auth: Seq<char>,
    code: u16,
    body: Seq<char>,
)
    requires
        start.step == (StepView::Login { pass }),
        login_token(login_code, login_body) == Ok::<Seq<char>, SyncError>(auth),
        code < 400 || code > 599,
    ensures
        ({
            let root = provider::base_of(start.url, start.provider);
            let session = SessionView { base: root, auth, token: text::trimmed(body) };
            let second = start.after_reply(login_code, login_body);
            let third = second.after_reply(code, body);
            &&& start.asks() matches OpeningActionView::Send(login)
            &&& login.method == Method::Post
            &&& login.url == root + "/accounts/ClientLogin"@
            &&& login.authorization is None
            &&& login.form == seq![("Email"@, start.user), ("Passwd"@, pass)]
            &&& second.asks() matches OpeningActionView::Send(token)
            &&& token.method == Method::Get
            &&& token.url == root + "/reader/api/0/token"@
            &&& token.authorization == Some("GoogleLogin auth="@ + auth)
            &&& third.asks() == OpeningActionView::Store(
                account::persisted(start.url, start.user, auth, start.provider),
            )
            &&& third.after_store().step == (StepView::Open { session })
        }),
{
}

/// A login that fails, or whose answer holds no token, ends the opening with
/// that error, and so does a refused write token.
pub proof fn law_refusals_end_the_opening(
    start: OpeningView,
    login_code: u16,
    login_body: Seq<char>,
    auth: Seq<char>,
    code: u16,
    body: Seq<char>,
)
    requires
        start.step is Login,
        400 <= code <= 599,
    ensures
        ({
            let second = start.after_reply(login_code, login_body);
            let refused = OpeningView {
                step: StepView::Token { auth, fresh: true },
                ..start
            }.after_reply(code, body);
            &&& login_token(login_code, login_body) matches Err(error) ==> second.step == (
            StepView::Refused { error }) && second.asks() is End
            &&& refused.step == (StepView::Refused { error: SyncError::LoginFailed })
            &&& refused.asks() is End
        }),
{
}

/// A connection begins with the password that was typed, or with the stored
/// password of an older installation where no token is stored.
pub proof fn law_openings_begin_with_what_is_known(
    url: Seq<char>,
    user: Seq<char>,
    pass: Seq<char>,
    provider: Provider,
    creds: CredsView,
)
    ensures
        ({
            let typed = OpeningView::connecting(url, user, pass, provider);
            let stored = OpeningView::resuming(creds);
            &&& typed.url == url && typed.user == user && typed.provider == provider
            &&& typed.step == (StepView::Login { pass })
            &&& stored.url == creds.url && stored.user == creds.user && stored.provider
                == creds.provider
            &&& creds.auth is None ==> (creds.legacy_pass matches Some(old) ==> stored.step == (
            StepView::Login { pass: old }))
            &&& creds.auth matches Some(auth) ==> stored.step is Token
        }),
{
}

/// A first connection goes to the server that was typed, in the way of the
/// provider that was chosen, with the user and the password that were typed.
pub proof fn law_what_was_typed_is_tried(
    url: Seq<char>,
    user: Seq<char>,
    pass: Seq<char>,
    provider: Option<Seq<char>>,
)
    ensures
        ({
            let start = OpeningView::typed(url, user, pass, provider);
            let miniflux = provider matches Some(name) && text::surrounded("miniflux"@, name);
            &&& start.asks() matches OpeningActionView::Send(login)
            &&& miniflux ==> start.provider == Provider::Miniflux && login.url
                == provider::bare_end(text::trimmed(url)) + "/accounts/ClientLogin"@
            &&& !miniflux ==> start.provider == Provider::FreshRss && login.url
                == provider::base_of(url, Provider::FreshRss) + "/accounts/ClientLogin"@
            &&& login.form == seq![("Email"@, user), ("Passwd"@, pass)]
            &&& start.url == url && start.user == user
        }),
{
    if provider is Some {
        provider::law_providers_are_told_apart(provider->0);
    }
    provider::lemma_miniflux_base(url);
}

/// The body of an answer is read exactly where it can open something: of a
/// login that succeeded, and of a token request without an error.
pub proof fn law_bodies_are_read_where_they_matter(opening: OpeningView, code: u16)
    ensures
        opening.step is Login ==> (opening.reads_body(code) <==> 200 <= code <= 299),
        opening.step is Token ==> (opening.reads_body(code) <==> code < 400 || code > 599),
        !(opening.step is Login) && !(opening.step is Token) ==> !opening.reads_body(code),
{
}

} // verus!
