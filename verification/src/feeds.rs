//! Pushing local feed additions and deletions to FreshRSS.

use vstd::prelude::*;
use vstd::string::*;
use crate::http;
use crate::http::{Method, Request, RequestView, Status};
use crate::number;
use crate::outside;
use crate::session::{Session, SessionView};
use crate::text;

verus! {

/// How many queued feed changes one synchronisation pushes.
pub const SUBSCRIPTION_BATCH_SIZE: usize = 50;

/// What is to happen to a feed on the server.
#[derive(Debug)]
pub enum FeedAction {
    Subscribe,
    Unsubscribe,
    /// An action that is not known, by its stored name.
    Other(String),
}

/// What is to happen to a feed.
pub enum FeedActionView {
    Subscribe,
    Unsubscribe,
    Other(Seq<char>),
}

impl View for FeedAction {
    type V = FeedActionView;

    open spec fn view(&self) -> FeedActionView {
        match self {
            FeedAction::Subscribe => FeedActionView::Subscribe,
            FeedAction::Unsubscribe => FeedActionView::Unsubscribe,
            FeedAction::Other(name) => FeedActionView::Other(name@),
        }
    }
}

impl FeedAction {
    fn copy(&self) -> (r: FeedAction)
        ensures
            r@ == self@,
    {
        match self {
            FeedAction::Subscribe => FeedAction::Subscribe,
            FeedAction::Unsubscribe => FeedAction::Unsubscribe,
            FeedAction::Other(name) => FeedAction::Other(name.clone()),
        }
    }
}

/// A queued feed change.
#[derive(Debug)]
pub struct FeedEntry {
    pub feed_url: String,
    pub action: FeedAction,
}

/// Why a feed change was not accepted, and whether trying again can help.
#[derive(Debug)]
pub struct FeedPushFailure {
    pub message: String,
    pub transient: bool,
}

/// Why a feed change was not accepted.
pub struct FailureView {
    pub message: Seq<char>,
    pub transient: bool,
}

impl View for FeedPushFailure {
    type V = FailureView;

    open spec fn view(&self) -> FailureView {
        FailureView { message: self.message@, transient: self.transient }
    }
}

impl FeedPushFailure {
    /// A failure after which trying again can help.
    pub fn transient(message: String) -> (r: FeedPushFailure)
        ensures
            r@ == (FailureView { message: message@, transient: true }),
    {
        FeedPushFailure { message, transient: true }
    }

    /// A failure that stays.
    pub fn permanent(message: String) -> (r: FeedPushFailure)
        ensures
            r@ == (FailureView { message: message@, transient: false }),
    {
        FeedPushFailure { message, transient: false }
    }
}

/// Whether a status is one after which trying again can help: an error of
/// the server, too many requests, or missing authorisation.
pub open spec fn transient_code(code: u16) -> bool {
    http::server_error(code) || code == 429 || code == 401 || code == 403
}

/// Whether a status is one after which trying again can help.
pub fn transient_status(status: Status) -> (r: bool)
    ensures
        r == transient_code(status.value()),
{
    let code: u16 = status.as_u16();
    http::is_server_error(status) || code == 429 || code == 401 || code == 403
}

/// What came back for a feed change.
#[derive(Debug)]
pub enum FeedReply {
    /// Nothing: the request or the reading of its answer failed.
    Failed(String),
    /// An answer; `results` is the number of feeds that it says were found,
    /// or why it could not be read for that.
    Answered { status: Status, body: String, results: Result<i64, String> },
}

/// What came back for a feed change.
pub enum FeedReplyView {
    Failed(Seq<char>),
    Answered { code: u16, body: Seq<char>, results: Result<i64, Seq<char>> },
}

impl View for FeedReply {
    type V = FeedReplyView;

    open spec fn view(&self) -> FeedReplyView {
        match self {
            FeedReply::Failed(message) => FeedReplyView::Failed(message@),
            FeedReply::Answered { status, body, results } => FeedReplyView::Answered {
                code: status.value(),
                body: body@,
                results: match results {
                    Ok(n) => Ok(*n),
                    Err(e) => Err(e@),
                },
            },
        }
    }
}

/// The request that subscribes to a feed.
pub open spec fn subscribe_request(session: SessionView, feed_url: Seq<char>) -> RequestView {
    session.post("subscription/quickadd"@, seq![("quickadd"@, feed_url), ("T"@, session.token)])
}

/// The request that unsubscribes from a feed.
pub open spec fn unsubscribe_request(session: SessionView, feed_url: Seq<char>) -> RequestView {
    session.post(
        "subscription/edit"@,
        seq![("ac"@, "unsubscribe"@), ("s"@, "feed/"@ + feed_url), ("T"@, session.token)],
    )
}

fn subscribe(session: &Session, feed_url: &str) -> (r: Request)
    ensures
        r@ == subscribe_request(session@, feed_url@),
{
    let form: Vec<(String, String)> = vec![
        http::field("quickadd", feed_url),
        http::field("T", session.token.as_str()),
    ];
    assert(form.deep_view() =~= seq![("quickadd"@, feed_url@), ("T"@, session@.token)]);
    session.post("subscription/quickadd", form)
}

fn unsubscribe(session: &Session, feed_url: &str) -> (r: Request)
    ensures
        r@ == unsubscribe_request(session@, feed_url@),
{
    let stream: String = text::join("feed/", feed_url);
    let form: Vec<(String, String)> = vec![
        http::field("ac", "unsubscribe"),
        http::field("s", stream.as_str()),
        http::field("T", session.token.as_str()),
    ];
    assert(form.deep_view() =~= seq![
        ("ac"@, "unsubscribe"@),
        ("s"@, "feed/"@ + feed_url@),
        ("T"@, session@.token),
    ]);
    session.post("subscription/edit", form)
}

/// What is wrong with the answer to a subscription, if anything: it is
/// accepted only with a success status and at least one feed found.
pub open spec fn subscribe_failure(reply: FeedReplyView, line: Seq<char>) -> Option<FailureView> {
    match reply {
        FeedReplyView::Failed(message) => Some(FailureView { message, transient: true }),
        FeedReplyView::Answered { code, body, results } => if !http::success(code) {
            Some(
                FailureView {
                    message: http::message_of("quickadd HTTP "@, line, ": "@, body),
                    transient: transient_code(code),
                },
            )
        } else {
            match results {
                Err(e) => Some(
                    FailureView {
                        message: "quickadd response parse failed: "@ + e + "; body: "@ + body,
                        transient: false,
                    },
                ),
                Ok(n) if n >= 1 => None,
                Ok(n) => Some(
                    FailureView {
                        message: "quickadd returned numResults="@ + number::signed_decimal(
                            n as int,
                        ),
                        transient: false,
                    },
                ),
            }
        },
    }
}

/// What is wrong with the answer to an unsubscription, if anything: it is
/// accepted with a success status and the body `OK`, and also with a client
/// error after which trying again cannot help, since the feed is then not
/// there.
pub open spec fn unsubscribe_failure(reply: FeedReplyView, line: Seq<char>) -> Option<FailureView> {
    match reply {
        FeedReplyView::Failed(message) => Some(FailureView { message, transient: true }),
        FeedReplyView::Answered { code, body, results } => if http::success(code) {
            if text::trimmed(body) == "OK"@ {
                None
            } else {
                Some(
                    FailureView {
                        message: http::message_of(
                            "unsubscribe HTTP "@,
                            line,
                            " without OK body: "@,
                            body,
                        ),
                        transient: false,
                    },
                )
            }
        } else if http::client_error(code) && !transient_code(code) {
            None
        } else {
            Some(
                FailureView {
                    message: http::message_of("unsubscribe HTTP "@, line, ": "@, body),
                    transient: transient_code(code),
                },
            )
        },
    }
}

/// The failure of an action that is not known.
pub open spec fn unknown_action(name: Seq<char>) -> FailureView {
    FailureView {
        message: "unknown FreshRSS subscription action: "@ + name,
        transient: false,
    }
}

/// What is wrong with the push of a feed change, if anything, where the status
/// of the answer is shown as `line`.
pub open spec fn failure_shown(
    action: FeedActionView,
    reply: FeedReplyView,
    line: Seq<char>,
) -> Option<FailureView> {
    match action {
        FeedActionView::Subscribe => subscribe_failure(reply, line),
        FeedActionView::Unsubscribe => unsubscribe_failure(reply, line),
        FeedActionView::Other(name) => Some(unknown_action(name)),
    }
}

/// How the status of what came back is shown.
pub open spec fn line_of(reply: FeedReplyView) -> Seq<char> {
    match reply {
        FeedReplyView::Failed(_) => Seq::empty(),
        FeedReplyView::Answered { code, body, results } => outside::status_line(code),
    }
}

/// What is wrong with the push of a feed change, if anything.
pub open spec fn push_failure(action: FeedActionView, reply: FeedReplyView) -> Option<FailureView> {
    failure_shown(action, reply, line_of(reply))
}

/// The outcome as a result.
pub open spec fn outcome_is(r: Result<(), FeedPushFailure>, failure: Option<FailureView>) -> bool {
    match r {
        Ok(_) => failure is None,
        Err(f) => failure == Some(f@),
    }
}

fn subscribe_reply(reply: FeedReply, line: &str) -> (r: Result<(), FeedPushFailure>)
    ensures
        outcome_is(r, subscribe_failure(reply@, line@)),
{
    match reply {
        FeedReply::Failed(message) => Err(FeedPushFailure::transient(message)),
        FeedReply::Answered { status, body, results } => {
            if !http::is_success(status) {
                let message: String = http::status_message(
                    "quickadd HTTP ",
                    line,
                    ": ",
                    body.as_str(),
                );
                return Err(
                    if transient_status(status) {
                        FeedPushFailure::transient(message)
                    } else {
                        FeedPushFailure::permanent(message)
                    },
                );
            }
            match results {
                Err(e) => {
                    let mut message: String = text::join(
                        "quickadd response parse failed: ",
                        e.as_str(),
                    );
                    message.append("; body: ");
                    message.append(body.as_str());
                    Err(FeedPushFailure::permanent(message))
                },
                Ok(n) => {
                    if n >= 1 {
                        Ok(())
                    } else {
                        Err(
                            FeedPushFailure::permanent(
                                text::join(
                                    "quickadd returned numResults=",
                                    number::to_signed_decimal(n).as_str(),
                                ),
                            ),
                        )
                    }
                },
            }
        },
    }
}

fn unsubscribe_reply(reply: FeedReply, line: &str) -> (r: Result<(), FeedPushFailure>)
    ensures
        outcome_is(r, unsubscribe_failure(reply@, line@)),
{
    match reply {
        FeedReply::Failed(message) => Err(FeedPushFailure::transient(message)),
        FeedReply::Answered { status, body, results } => {
            if http::is_success(status) {
                if text::same(text::trim(body.as_str()), "OK") {
                    Ok(())
                } else {
                    Err(
                        FeedPushFailure::permanent(
                            http::status_message(
                                "unsubscribe HTTP ",
                                line,
                                " without OK body: ",
                                body.as_str(),
                            ),
                        ),
                    )
                }
            } else if http::is_client_error(status) && !transient_status(status) {
                Ok(())
            } else {
                let message: String = http::status_message(
                    "unsubscribe HTTP ",
                    line,
                    ": ",
                    body.as_str(),
                );
                Err(
                    if transient_status(status) {
                        FeedPushFailure::transient(message)
                    } else {
                        FeedPushFailure::permanent(message)
                    },
                )
            }
        },
    }
}

/// Judges what came back for a feed change, where the status of the answer is
/// shown as `line`.
pub fn judge_reply(action: &FeedAction, reply: FeedReply, line: &str) -> (r: Result<
    (),
    FeedPushFailure,
>)
    ensures
        outcome_is(r, failure_shown(action@, reply@, line@)),
{
    match action {
        FeedAction::Subscribe => subscribe_reply(reply, line),
        FeedAction::Unsubscribe => unsubscribe_reply(reply, line),
        FeedAction::Other(name) => Err(
            FeedPushFailure::permanent(
                text::join("unknown FreshRSS subscription action: ", name.as_str()),
            ),
        ),
    }
}

/// Judges what came back for a feed change.
pub fn push_subscription_entry(action: &FeedAction, reply: FeedReply) -> (r: Result<
    (),
    FeedPushFailure,
>)
    ensures
        outcome_is(r, push_failure(action@, reply@)),
{
    let line: String = match &reply {
        FeedReply::Failed(_) => String::new(),
        FeedReply::Answered { status, body, results } => status.describe(),
    };
    judge_reply(action, reply, line.as_str())
}

/// How far a push of feed changes has come.
#[derive(Debug)]
pub enum FeedStep {
    /// The queue is to be loaded.
    Load,
    /// The change at the front is to be sent.
    Send,
    /// The change at the front was accepted and is to leave the queue.
    Clear,
    /// The change at the front failed, which is to be recorded.
    Record { failure: FeedPushFailure },
    /// Whether more changes wait is to be looked up.
    CheckWork,
    /// The push is over.
    Over { more: bool },
}

/// How far a push of feed changes has come.
pub enum FeedStepView {
    Load,
    Send,
    Clear,
    Record { failure: FailureView },
    CheckWork,
    Over { more: bool },
}

impl View for FeedStep {
    type V = FeedStepView;

    open spec fn view(&self) -> FeedStepView {
        match self {
            FeedStep::Load => FeedStepView::Load,
            FeedStep::Send => FeedStepView::Send,
            FeedStep::Clear => FeedStepView::Clear,
            FeedStep::Record { failure } => FeedStepView::Record { failure: failure@ },
            FeedStep::CheckWork => FeedStepView::CheckWork,
            FeedStep::Over { more } => FeedStepView::Over { more: *more },
        }
    }
}

/// A push of queued feed changes, one at a time.
#[derive(Debug)]
pub struct FeedPush {
    step: FeedStep,
    remaining: Vec<FeedEntry>,
    transient_failed: bool,
}

/// The state of a push of feed changes.
pub struct FeedPushView {
    pub step: FeedStepView,
    /// The changes that are not settled, the current one first.
    pub remaining: Seq<FeedEntry>,
    /// Whether a change failed so that trying again can help.
    pub transient_failed: bool,
}

impl View for FeedPush {
    type V = FeedPushView;

    closed spec fn view(&self) -> FeedPushView {
        FeedPushView {
            step: self.step@,
            remaining: self.remaining@,
            transient_failed: self.transient_failed,
        }
    }
}

/// What a push of feed changes asks for next.
#[derive(Debug)]
pub enum FeedPushAction {
    /// Load up to `limit` queued changes; `loaded` takes them.
    LoadQueue { limit: usize },
    /// Send a request; `replied` takes what came back.
    Send(Request),
    /// Take a change off the queue; `cleared` is called afterwards.
    ClearEntry { feed_url: String, action: FeedAction },
    /// Record why a change failed; `recorded` takes whether the change is
    /// still the one that is queued for the feed.
    RecordFailure { feed_url: String, action: FeedAction, message: String },
    /// Look up whether more changes wait; `checked` takes the answer.
    CheckWork,
    /// Nothing: the push is over.
    End,
}

/// What a push of feed changes asks for next.
pub enum FeedPushActionView {
    LoadQueue { limit: usize },
    Send(RequestView),
    ClearEntry { feed_url: Seq<char>, action: FeedActionView },
    RecordFailure { feed_url: Seq<char>, action: FeedActionView, message: Seq<char> },
    CheckWork,
    End,
}

impl View for FeedPushAction {
    type V = FeedPushActionView;

    open spec fn view(&self) -> FeedPushActionView {
        match self {
            FeedPushAction::LoadQueue { limit } => FeedPushActionView::LoadQueue { limit: *limit },
            FeedPushAction::Send(request) => FeedPushActionView::Send(request@),
            FeedPushAction::ClearEntry { feed_url, action } => FeedPushActionView::ClearEntry {
                feed_url: feed_url@,
                action: action@,
            },
            FeedPushAction::RecordFailure { feed_url, action, message } =>
                FeedPushActionView::RecordFailure {
                feed_url: feed_url@,
                action: action@,
                message: message@,
            },
            FeedPushAction::CheckWork => FeedPushActionView::CheckWork,
            FeedPushAction::End => FeedPushActionView::End,
        }
    }
}

/// How the push of a change begins: an action that is not known fails
/// without a request.
pub open spec fn first_step(entry: FeedEntry) -> FeedStepView {
    match entry.action@ {
        FeedActionView::Other(name) => FeedStepView::Record { failure: unknown_action(name) },
        _ => FeedStepView::Send,
    }
}

impl FeedPushView {
    pub open spec fn start() -> FeedPushView {
        FeedPushView {
            step: FeedStepView::Load,
            remaining: Seq::empty(),
            transient_failed: false,
        }
    }

    /// A change is at hand exactly while one is being pushed, and only one
    /// with a known action is sent.
    pub open spec fn wf(self) -> bool {
        &&& self.remaining.len() > 0 <==> (self.step is Send || self.step is Clear
            || self.step is Record)
        &&& self.step is Send ==> !(self.remaining[0].action@ is Other)
    }

    /// What is asked for next.
    pub open spec fn asks(self, session: SessionView) -> FeedPushActionView {
        match self.step {
            FeedStepView::Load => FeedPushActionView::LoadQueue { limit: SUBSCRIPTION_BATCH_SIZE },
            FeedStepView::Send => FeedPushActionView::Send(
                if self.remaining[0].action@ is Subscribe {
                    subscribe_request(session, self.remaining[0].feed_url@)
                } else {
                    unsubscribe_request(session, self.remaining[0].feed_url@)
                },
            ),
            FeedStepView::Clear => FeedPushActionView::ClearEntry {
                feed_url: self.remaining[0].feed_url@,
                action: self.remaining[0].action@,
            },
            FeedStepView::Record { failure } => FeedPushActionView::RecordFailure {
                feed_url: self.remaining[0].feed_url@,
                action: self.remaining[0].action@,
                message: failure.message,
            },
            FeedStepView::CheckWork => FeedPushActionView::CheckWork,
            FeedStepView::Over { more } => FeedPushActionView::End,
        }
    }

    /// The state with the given changes still to push: where none is left,
    /// the queue is looked at again unless trying again could help, which is
    /// left to a later synchronisation.
    pub open spec fn with_remaining(
        remaining: Seq<FeedEntry>,
        transient_failed: bool,
    ) -> FeedPushView {
        FeedPushView {
            step: if remaining.len() > 0 {
                first_step(remaining[0])
            } else if transient_failed {
                FeedStepView::Over { more: false }
            } else {
                FeedStepView::CheckWork
            },
            remaining,
            transient_failed,
        }
    }

    /// The state after the queue was loaded.
    pub open spec fn after_load(self, entries: Seq<FeedEntry>) -> FeedPushView {
        if !(self.step is Load) {
            self
        } else if entries.len() == 0 {
            FeedPushView { step: FeedStepView::Over { more: false }, ..self }
        } else {
            FeedPushView::with_remaining(entries, self.transient_failed)
        }
    }

    /// The state after a request was answered.
    pub open spec fn after_reply(self, reply: FeedReplyView) -> FeedPushView {
        if !(self.step is Send) {
            self
        } else {
            FeedPushView {
                step: match push_failure(self.remaining[0].action@, reply) {
                    None => FeedStepView::Clear,
                    Some(failure) => FeedStepView::Record { failure },
                },
                ..self
            }
        }
    }

    /// The state after an accepted change left the queue.
    pub open spec fn after_clear(self) -> FeedPushView {
        if !(self.step is Clear) {
            self
        } else {
            FeedPushView::with_remaining(self.remaining.skip(1), self.transient_failed)
        }
    }

    /// The state after a failure was recorded.
    pub open spec fn after_record(self, still_current: bool) -> FeedPushView {
        match self.step {
            FeedStepView::Record { failure } => FeedPushView::with_remaining(
                self.remaining.skip(1),
                self.transient_failed || (still_current && failure.transient),
            ),
            _ => self,
        }
    }

    /// The state after it was looked up whether more changes wait.
    pub open spec fn after_check(self, has_work: bool) -> FeedPushView {
        if self.step is CheckWork {
            FeedPushView { step: FeedStepView::Over { more: has_work }, ..self }
        } else {
            self
        }
    }
}

fn begin_with(remaining: Vec<FeedEntry>, transient_failed: bool) -> (r: FeedPush)
    ensures
        r@ == FeedPushView::with_remaining(remaining@, transient_failed),
        r@.wf(),
{
    let step: FeedStep = if remaining.len() > 0 {
        match &remaining[0].action {
            FeedAction::Other(name) => FeedStep::Record {
                failure: FeedPushFailure::permanent(
                    text::join("unknown FreshRSS subscription action: ", name.as_str()),
                ),
            },
            _ => FeedStep::Send,
        }
    } else if transient_failed {
        FeedStep::Over { more: false }
    } else {
        FeedStep::CheckWork
    };
    FeedPush { step, remaining, transient_failed }
}

impl FeedPush {
    /// A push that begins by loading the queue.
    pub fn new() -> (r: FeedPush)
        ensures
            r@ == FeedPushView::start(),
            r@.wf(),
    {
        FeedPush { step: FeedStep::Load, remaining: Vec::new(), transient_failed: false }
    }

    /// What is to be done next.
    pub fn action(&self, session: &Session) -> (r: FeedPushAction)
        requires
            self@.wf(),
        ensures
            r@ == self@.asks(session@),
    {
        match &self.step {
            FeedStep::Load => FeedPushAction::LoadQueue { limit: SUBSCRIPTION_BATCH_SIZE },
            FeedStep::Send => {
                let entry: &FeedEntry = &self.remaining[0];
                match &entry.action {
                    FeedAction::Subscribe => FeedPushAction::Send(
                        subscribe(session, entry.feed_url.as_str()),
                    ),
                    _ => FeedPushAction::Send(unsubscribe(session, entry.feed_url.as_str())),
                }
            },
            FeedStep::Clear => {
                let entry: &FeedEntry = &self.remaining[0];
                FeedPushAction::ClearEntry {
                    feed_url: entry.feed_url.clone(),
                    action: entry.action.copy(),
                }
            },
            FeedStep::Record { failure } => {
                let entry: &FeedEntry = &self.remaining[0];
                FeedPushAction::RecordFailure {
                    feed_url: entry.feed_url.clone(),
                    action: entry.action.copy(),
                    message: failure.message.clone(),
                }
            },
            FeedStep::CheckWork => FeedPushAction::CheckWork,
            FeedStep::Over { more } => FeedPushAction::End,
        }
    }

    /// Takes the queued changes.
    pub fn loaded(self, entries: Vec<FeedEntry>) -> (r: FeedPush)
        requires
            self@.wf(),
        ensures
            r@ == self@.after_load(entries@),
            r@.wf(),
    {
        match self.step {
            FeedStep::Load => {
                if entries.len() == 0 {
                    FeedPush {
                        step: FeedStep::Over { more: false },
                        remaining: self.remaining,
                        transient_failed: self.transient_failed,
                    }
                } else {
                    begin_with(entries, self.transient_failed)
                }
            },
            _ => self,
        }
    }

    /// Takes what came back for a request.
    pub fn replied(self, reply: FeedReply) -> (r: FeedPush)
        requires
            self@.wf(),
        ensures
            r@ == self@.after_reply(reply@),
            r@.wf(),
    {
        match self.step {
            FeedStep::Send => {
                let step: FeedStep = match push_subscription_entry(
                    &self.remaining[0].action,
                    reply,
                ) {
                    Ok(_) => FeedStep::Clear,
                    Err(failure) => FeedStep::Record { failure },
                };
                FeedPush {
                    step,
                    remaining: self.remaining,
                    transient_failed: self.transient_failed,
                }
            },
            _ => self,
        }
    }

    /// Takes note that an accepted change left the queue.
    pub fn cleared(self) -> (r: FeedPush)
        requires
            self@.wf(),
        ensures
            r@ == self@.after_clear(),
            r@.wf(),
    {
        match self.step {
            FeedStep::Clear => {
                let mut remaining: Vec<FeedEntry> = self.remaining;
                let ghost whole = remaining@;
                let _settled: FeedEntry = remaining.remove(0);
                assert(remaining@ =~= whole.skip(1));
                begin_with(remaining, self.transient_failed)
            },
            _ => self,
        }
    }

    /// Takes note that a failure was recorded, and whether the failed change
    /// is still the one that is queued for its feed.
    pub fn recorded(self, still_current: bool) -> (r: FeedPush)
        requires
            self@.wf(),
        ensures
            r@ == self@.after_record(still_current),
            r@.wf(),
    {
        match self.step {
            FeedStep::Record { failure } => {
                let mut remaining: Vec<FeedEntry> = self.remaining;
                let ghost whole = remaining@;
                let _settled: FeedEntry = remaining.remove(0);
                assert(remaining@ =~= whole.skip(1));
                begin_with(
                    remaining,
                    self.transient_failed || (still_current && failure.transient),
                )
            },
            _ => self,
        }
    }

    /// Takes whether more changes wait.
    pub fn checked(self, has_work: bool) -> (r: FeedPush)
        requires
            self@.wf(),
        ensures
            r@ == self@.after_check(has_work),
            r@.wf(),
    {
        match self.step {
            FeedStep::CheckWork => FeedPush {
                step: FeedStep::Over { more: has_work },
                remaining: self.remaining,
                transient_failed: self.transient_failed,
            },
            _ => self,
        }
    }

    /// Whether another synchronisation is to be scheduled for changes that
    /// still wait, once the push is over.
    pub fn outcome(&self) -> (r: Option<bool>)
        ensures
            r == match self@.step {
                FeedStepView::Over { more } => Some(more),
                _ => None,
            },
    {
        match &self.step {
            FeedStep::Over { more } => Some(*more),
            _ => None,
        }
    }
}

/// A change leaves the queue exactly where the server's answer was accepted.
pub proof fn law_a_change_leaves_only_when_accepted(push: FeedPushView, reply: FeedReplyView)
    requires
        push.wf(),
        push.step is Send,
    ensures
        push.after_reply(reply).step is Clear <==> push_failure(push.remaining[0].action@, reply)
            is None,
        push.after_reply(reply).remaining == push.remaining,
{
}

/// What can happen to a push of feed changes.
pub enum FeedEvent {
    Loaded(Seq<FeedEntry>),
    Replied(FeedReplyView),
    Cleared,
    Recorded(bool),
    Checked(bool),
}

/// A push after one thing has happened.
pub open spec fn after_event(push: FeedPushView, event: FeedEvent) -> FeedPushView {
    match event {
        FeedEvent::Loaded(entries) => push.after_load(entries),
        FeedEvent::Replied(reply) => push.after_reply(reply),
        FeedEvent::Cleared => push.after_clear(),
        FeedEvent::Recorded(still_current) => push.after_record(still_current),
        FeedEvent::Checked(has_work) => push.after_check(has_work),
    }
}

/// A push after a history.
pub open spec fn after_events(push: FeedPushView, events: Seq<FeedEvent>) -> FeedPushView
    decreases events.len(),
{
    if events.len() == 0 {
        push
    } else {
        after_event(after_events(push, events.drop_last()), events.last())
    }
}

/// After a failure that trying again can help with, a push never asks for
/// another synchronisation right away.
pub proof fn law_no_retry_storm(events: Seq<FeedEvent>)
    ensures
        ({
            let push = after_events(FeedPushView::start(), events);
            &&& push.wf()
            &&& push.transient_failed ==> !(push.step is CheckWork)
            &&& push.transient_failed ==> push.step != (FeedStepView::Over { more: true })
        }),
    decreases events.len(),
{
    if events.len() > 0 {
        law_no_retry_storm(events.drop_last());
    }
}

/// The changes that a history has settled: those that left the queue and
/// those whose failure was recorded, in their order.
pub open spec fn settled(push: FeedPushView, events: Seq<FeedEvent>) -> Seq<FeedEntry>
    decreases events.len(),
{
    if events.len() == 0 {
        Seq::empty()
    } else {
        let before = after_events(push, events.drop_last());
        let earlier = settled(push, events.drop_last());
        match events.last() {
            FeedEvent::Cleared if before.step is Clear => earlier.push(before.remaining[0]),
            FeedEvent::Recorded(_) if before.step is Record => earlier.push(before.remaining[0]),
            _ => earlier,
        }
    }
}

/// Every change that was loaded is settled once, in the order of the queue:
/// at any time the settled changes and those that remain are the loaded ones.
pub proof fn law_feed_changes_are_settled_in_order(
    entries: Seq<FeedEntry>,
    events: Seq<FeedEvent>,
)
    ensures
        ({
            let push = FeedPushView::start().after_load(entries);
            let now = after_events(push, events);
            &&& now.wf()
            &&& !(now.step is Load)
            &&& settled(push, events) + now.remaining == entries
            &&& now.step is Over ==> settled(push, events) == entries
        }),
    decreases events.len(),
{
    let push = FeedPushView::start().after_load(entries);
    let now = after_events(push, events);
    if events.len() > 0 {
        law_feed_changes_are_settled_in_order(entries, events.drop_last());
        let before = after_events(push, events.drop_last());
        let earlier = settled(push, events.drop_last());
        if before.remaining.len() > 0 {
            assert(earlier.push(before.remaining[0]) + before.remaining.skip(1) =~= earlier
                + before.remaining);
        }
    }
    assert(settled(push, events) + now.remaining =~= entries);
    if now.step is Over {
        assert(settled(push, events) + now.remaining =~= settled(push, events));
    }
}

/// How many things can still happen to a push.
pub open spec fn work_left(push: FeedPushView) -> nat {
    match push.step {
        FeedStepView::Over { more } => 0,
        FeedStepView::CheckWork => 1,
        FeedStepView::Clear | FeedStepView::Record { .. } => 2 * push.remaining.len(),
        FeedStepView::Send => 2 * push.remaining.len() + 1,
        FeedStepView::Load => 0,
    }
}

/// A push ends: once the queue is loaded, every answer that was asked for
/// leaves less to do.
pub proof fn law_feed_push_makes_progress(push: FeedPushView, event: FeedEvent)
    requires
        push.wf(),
        match event {
            FeedEvent::Loaded(_) => false,
            FeedEvent::Replied(_) => push.step is Send,
            FeedEvent::Cleared => push.step is Clear,
            FeedEvent::Recorded(_) => push.step is Record,
            FeedEvent::Checked(_) => push.step is CheckWork,
        },
    ensures
        work_left(after_event(push, event)) < work_left(push),
{
}

/// A subscription is sent as a quick addition of the feed's URL, and a
/// deletion as an unsubscription from the feed's stream, each with the token
/// of the session.
pub proof fn law_feed_changes_are_sent(push: FeedPushView, session: SessionView)
    requires
        push.wf(),
        push.step is Send,
    ensures
        ({
            let entry = push.remaining[0];
            &&& push.asks(session) matches FeedPushActionView::Send(request)
            &&& request.method == Method::Post
            &&& request.authorization == Some("GoogleLogin auth="@ + session.auth)
            &&& entry.action@ is Subscribe ==> request.url == session.base + "/reader/api/0/"@
                + "subscription/quickadd"@ && request.form == seq![
                ("quickadd"@, entry.feed_url@),
                ("T"@, session.token),
            ]
            &&& entry.action@ is Unsubscribe ==> request.url == session.base + "/reader/api/0/"@
                + "subscription/edit"@ && request.form == seq![
                ("ac"@, "unsubscribe"@),
                ("s"@, "feed/"@ + entry.feed_url@),
                ("T"@, session.token),
            ]
            &&& !(entry.action@ is Other)
        }),
{
}

/// A subscription is done exactly where a success says that a feed was found.
/// A deletion is done exactly where a success says `OK`, or where the client
/// is at fault in a way that trying again cannot mend. An unknown action is
/// never done.
pub proof fn law_when_a_feed_change_is_done(
    code: u16,
    body: Seq<char>,
    results: Result<i64, Seq<char>>,
    message: Seq<char>,
    name: Seq<char>,
    line: Seq<char>,
)
    ensures
        ({
            let reply = FeedReplyView::Answered { code, body, results };
            let failed = FeedReplyView::Failed(message);
            &&& failure_shown(FeedActionView::Subscribe, reply, line) is None <==> 200 <= code
                <= 299 && (results matches Ok(n) && n >= 1)
            &&& failure_shown(FeedActionView::Unsubscribe, reply, line) is None <==> (200 <= code
                <= 299 && text::trimmed(body) == "OK"@) || (400 <= code <= 499 && code != 401
                && code != 403 && code != 429)
            &&& failure_shown(FeedActionView::Other(name), reply, line) is Some
            &&& failure_shown(FeedActionView::Subscribe, failed, line) is Some
            &&& failure_shown(FeedActionView::Unsubscribe, failed, line) is Some
            &&& failure_shown(FeedActionView::Other(name), failed, line) is Some
        }),
{
}

/// Trying again can help where nothing came back, and where the status says
/// that the server was at fault, too many requests came or authorisation is
/// missing; it cannot after any success, nor for an unknown action.
pub proof fn law_when_trying_again_can_help(
    subscribe: bool,
    code: u16,
    body: Seq<char>,
    results: Result<i64, Seq<char>>,
    message: Seq<char>,
    name: Seq<char>,
    line: Seq<char>,
)
    ensures
        ({
            let action = if subscribe {
                FeedActionView::Subscribe
            } else {
                FeedActionView::Unsubscribe
            };
            let reply = FeedReplyView::Answered { code, body, results };
            let failed = FeedReplyView::Failed(message);
            &&& failure_shown(action, failed, line) == Some(
                FailureView { message, transient: true },
            )
            &&& failure_shown(action, reply, line) matches Some(failure) ==> (failure.transient
                <==> 500 <= code <= 599 || code == 429 || code == 401 || code == 403)
            &&& failure_shown(FeedActionView::Other(name), reply, line) matches Some(failure)
                && !failure.transient
        }),
{
}

/// What is said of a failure: what was tried, the status and the body, or
/// what is wrong with the body.
pub proof fn law_feed_failures_say_why(
    code: u16,
    body: Seq<char>,
    results: Result<i64, Seq<char>>,
    name: Seq<char>,
    line: Seq<char>,
)
    ensures
        ({
            let reply = FeedReplyView::Answered { code, body, results };
            let added = failure_shown(FeedActionView::Subscribe, reply, line);
            let dropped = failure_shown(FeedActionView::Unsubscribe, reply, line);
            let other = failure_shown(FeedActionView::Other(name), reply, line);
            let ok = 200 <= code <= 299;
            &&& !ok ==> added->0.message == "quickadd HTTP "@ + line + ": "@ + body
            &&& ok && (results matches Err(e)) ==> added->0.message
                == "quickadd response parse failed: "@ + results->Err_0 + "; body: "@ + body
            &&& ok && (results matches Ok(n) && n < 1) ==> added->0.message
                == "quickadd returned numResults="@ + number::signed_decimal(
                results->Ok_0 as int,
            )
            &&& ok && dropped is Some ==> dropped->0.message == "unsubscribe HTTP "@ + line
                + " without OK body: "@ + body
            &&& !ok && dropped is Some ==> dropped->0.message == "unsubscribe HTTP "@ + line
                + ": "@ + body
            &&& other->0.message == "unknown FreshRSS subscription action: "@ + name
        }),
{
}

/// A change that was accepted is taken off the queue, one that failed is
/// recorded with its reason, and one with an unknown action is recorded
/// without a request.
pub proof fn law_answers_settle_the_change_at_the_front(
    push: FeedPushView,
    reply: FeedReplyView,
    session: SessionView,
)
    requires
        push.wf(),
        push.remaining.len() > 0,
    ensures
        ({
            let entry = push.remaining[0];
            let next = push.after_reply(reply);
            let line = match reply {
                FeedReplyView::Answered { code, body, results } => outside::status_line(code),
                FeedReplyView::Failed(_) => Seq::empty(),
            };
            let failure = failure_shown(entry.action@, reply, line);
            &&& push.step is Send && failure is None ==> next.asks(session) == (
            FeedPushActionView::ClearEntry { feed_url: entry.feed_url@, action: entry.action@ })
            &&& push.step is Send && failure is Some ==> next.asks(session) == (
            FeedPushActionView::RecordFailure {
                feed_url: entry.feed_url@,
                action: entry.action@,
                message: failure->0.message,
            })
            &&& first_step(entry) is Send <==> entry.action@ is Subscribe || entry.action@
                is Unsubscribe
            &&& entry.action@ matches FeedActionView::Other(name) ==> first_step(entry) == (
            FeedStepView::Record {
                failure: FailureView {
                    message: "unknown FreshRSS subscription action: "@ + name,
                    transient: false,
                },
            })
        }),
{
}

/// Whether a history recorded a failure of a change that is still queued and
/// that trying again can help with.
pub open spec fn had_transient_failure(push: FeedPushView, events: Seq<FeedEvent>) -> bool
    decreases events.len(),
{
    &&& events.len() > 0
    &&& had_transient_failure(push, events.drop_last()) || (events.last() matches FeedEvent::Recorded(
        still_current,
    ) && still_current && (after_events(push, events.drop_last()).step matches FeedStepView::Record {
        failure,
    } && failure.transient))
}

proof fn lemma_transient_failures(events: Seq<FeedEvent>)
    ensures
        ({
            let push = after_events(FeedPushView::start(), events);
            &&& push.wf()
            &&& push.transient_failed <==> had_transient_failure(FeedPushView::start(), events)
            &&& push.transient_failed ==> !(push.step is CheckWork)
            &&& push.step is Load ==> !push.transient_failed
        }),
    decreases events.len(),
{
    if events.len() > 0 {
        lemma_transient_failures(events.drop_last());
    }
}

/// A push that is over asks for another one exactly where it was found that
/// more changes wait, which is looked up once every change is settled and only
/// where no change failed in a way that trying again can help with.
pub proof fn law_more_is_asked_for_where_more_waits(events: Seq<FeedEvent>, has_work: bool)
    ensures
        ({
            let start = FeedPushView::start();
            let push = after_events(start, events);
            &&& push.step is CheckWork ==> push.remaining.len() == 0 && !had_transient_failure(
                start,
                events,
            )
            &&& push.step is CheckWork ==> push.after_check(has_work).step == (FeedStepView::Over {
                more: has_work,
            })
            &&& had_transient_failure(start, events) && push.step is Over ==> push.step == (
            FeedStepView::Over { more: false })
        }),
{
    lemma_transient_failures(events);
    law_no_retry_storm(events);
}

/// A push begins with up to fifty queued changes; without any it is over, and
/// after the last one the rest of the queue is looked up unless trying again
/// can help.
pub proof fn law_a_feed_push_begins_and_ends(
    entries: Seq<FeedEntry>,
    push: FeedPushView,
    session: SessionView,
    still_current: bool,
)
    requires
        push.wf(),
        push.remaining.len() == 1,
        push.step is Clear || push.step is Record,
    ensures
        FeedPushView::start().asks(session) == (FeedPushActionView::LoadQueue { limit: 50 }),
        entries.len() == 0 ==> FeedPushView::start().after_load(entries).step == (
        FeedStepView::Over { more: false }),
        entries.len() > 0 ==> FeedPushView::start().after_load(entries).remaining == entries,
        push.step is Clear ==> (push.after_clear().asks(session) is CheckWork
            <==> !push.transient_failed),
        push.step matches FeedStepView::Record { failure } ==> (push.after_record(
            still_current,
        ).asks(session) is CheckWork <==> !push.transient_failed && !(still_current
            && failure.transient)),
{
}

} // verus!
