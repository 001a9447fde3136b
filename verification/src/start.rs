//! The beginning of a synchronisation: its turn, the stored connection and
//! the session.

use vstd::prelude::*;
use crate::account;
use crate::account::{AccountWrite, CredsView, SettingsView, StoredSettings, SyncError, WriteView};
use crate::auto_sync;
use crate::auto_sync::{AutoSync, Tick};
use crate::http::{Request, RequestView, Status};
use crate::provider;
use crate::provider::Provider;
use crate::run;
use crate::run::{RunView, SyncRun};
use crate::session;
use crate::session::{
    Opening, OpeningAction, OpeningActionView, OpeningStep, OpeningView, Session, SessionView,
    StepView,
};

verus! {

/// How far the beginning of a synchronisation has come.
pub enum StartStep {
    /// It waits for its turn. One that was triggered names the generation
    /// that it was triggered at.
    Turn { expected: Option<u64> },
    /// The stored settings are to be looked up.
    LookUp,
    /// The session is being opened.
    Open { opening: Opening },
    /// The synchronisation can run.
    Ready { provider: Provider, session: Session },
    /// It has no work to do: the queue was drained before its turn.
    Superseded,
    /// There is no connection, or the server refused.
    Refused { error: SyncError },
}

/// How far the beginning of a synchronisation has come.
pub enum StartView {
    Turn { expected: Option<u64> },
    LookUp,
    Open { opening: OpeningView },
    Ready { provider: Provider, session: SessionView },
    Superseded,
    Refused { error: SyncError },
}

/// The beginning of a synchronisation.
pub struct SyncStart {
    step: StartStep,
}

impl View for SyncStart {
    type V = StartView;

    closed spec fn view(&self) -> StartView {
        match self.step {
            StartStep::Turn { expected } => StartView::Turn { expected },
            StartStep::LookUp => StartView::LookUp,
            StartStep::Open { opening } => StartView::Open { opening: opening@ },
            StartStep::Ready { provider, session } => StartView::Ready {
                provider,
                session: session@,
            },
            StartStep::Superseded => StartView::Superseded,
            StartStep::Refused { error } => StartView::Refused { error },
        }
    }
}

/// What the beginning of a synchronisation asks for next.
#[derive(Debug)]
pub enum StartAction {
    /// Wait until no other synchronisation runs; `took_turn` is called
    /// afterwards.
    TakeTurn,
    /// Look up the stored settings; `looked_up` takes them.
    LookUpSettings,
    /// Send a request; `replied` takes the answer.
    Send(Request),
    /// Store changes; `stored` is called afterwards.
    Store(Vec<AccountWrite>),
    /// Nothing: `outcome` says what came of it.
    End,
}

/// What the beginning of a synchronisation asks for next.
pub enum StartActionView {
    TakeTurn,
    LookUpSettings,
    Send(RequestView),
    Store(Seq<WriteView>),
    End,
}

impl View for StartAction {
    type V = StartActionView;

    open spec fn view(&self) -> StartActionView {
        match self {
            StartAction::TakeTurn => StartActionView::TakeTurn,
            StartAction::LookUpSettings => StartActionView::LookUpSettings,
            StartAction::Send(request) => StartActionView::Send(request@),
            StartAction::Store(writes) => StartActionView::Store(account::writes_view(writes@)),
            StartAction::End => StartActionView::End,
        }
    }
}

/// What came of the beginning of a synchronisation.
pub enum StartOutcome {
    /// It runs, with a session.
    Run { run: SyncRun, session: Session },
    /// It has no work to do.
    Superseded,
    /// It cannot run.
    Refused { error: SyncError },
}

/// Whether a synchronisation that has its turn is to run: one that was
/// triggered is not where the queue was drained since.
pub open spec fn due(expected: Option<u64>, auto: AutoSync) -> bool {
    match expected {
        Some(generation) => auto.generation == generation,
        None => true,
    }
}

impl StartView {
    /// The state that the opening of a session has come to.
    pub open spec fn opening(opening: OpeningView) -> StartView {
        match opening.step {
            StepView::Open { session } => StartView::Ready { provider: opening.provider, session },
            StepView::Refused { error } => StartView::Refused { error },
            _ => StartView::Open { opening },
        }
    }

    /// What is asked for next.
    pub open spec fn asks(self) -> StartActionView {
        match self {
            StartView::Turn { expected } => StartActionView::TakeTurn,
            StartView::LookUp => StartActionView::LookUpSettings,
            StartView::Open { opening } => match opening.asks() {
                OpeningActionView::Send(request) => StartActionView::Send(request),
                OpeningActionView::Store(writes) => StartActionView::Store(writes),
                OpeningActionView::End => StartActionView::End,
            },
            _ => StartActionView::End,
        }
    }

    /// After it got its turn.
    pub open spec fn after_turn(self, auto: AutoSync) -> StartView {
        match self {
            StartView::Turn { expected } => if due(expected, auto) {
                StartView::LookUp
            } else {
                StartView::Superseded
            },
            _ => self,
        }
    }

    /// After the stored settings were looked up.
    pub open spec fn after_lookup(self, settings: SettingsView) -> StartView {
        match self {
            StartView::LookUp => match account::connection(settings) {
                Some(creds) => StartView::opening(OpeningView::resuming(creds)),
                None => StartView::Refused { error: SyncError::NotConnected },
            },
            _ => self,
        }
    }

    /// After a request was answered.
    pub open spec fn after_reply(self, code: u16, body: Seq<char>) -> StartView {
        match self {
            StartView::Open { opening } => StartView::opening(opening.after_reply(code, body)),
            _ => self,
        }
    }

    /// After changes were stored.
    pub open spec fn after_store(self) -> StartView {
        match self {
            StartView::Open { opening } => StartView::opening(opening.after_store()),
            _ => self,
        }
    }

    /// Whether the body of an answer with that status matters.
    pub open spec fn reads_body(self, code: u16) -> bool {
        match self {
            StartView::Open { opening } => opening.reads_body(code),
            _ => false,
        }
    }
}

/// A synchronisation that the user asked for, or one that was triggered at a
/// generation.
pub fn sync_now_inner(expected: Option<u64>) -> (r: SyncStart)
    ensures
        r@ == (StartView::Turn { expected }),
{
    SyncStart { step: StartStep::Turn { expected } }
}

fn opening_step(opening: Opening) -> (r: SyncStart)
    ensures
        r@ == StartView::opening(opening@),
{
    let step: StartStep = match opening.step {
        OpeningStep::Open { session } => StartStep::Ready { provider: opening.provider, session },
        OpeningStep::Refused { error } => StartStep::Refused { error },
        step => StartStep::Open {
            opening: Opening {
                url: opening.url,
                user: opening.user,
                provider: opening.provider,
                step,
            },
        },
    };
    SyncStart { step }
}

impl SyncStart {
    /// What is to be done next.
    pub fn action(&self) -> (r: StartAction)
        ensures
            r@ == self@.asks(),
    {
        match &self.step {
            StartStep::Turn { expected } => StartAction::TakeTurn,
            StartStep::LookUp => StartAction::LookUpSettings,
            StartStep::Open { opening } => match opening.action() {
                OpeningAction::Send(request) => StartAction::Send(request),
                OpeningAction::Store(writes) => StartAction::Store(writes),
                OpeningAction::End => StartAction::End,
            },
            _ => StartAction::End,
        }
    }

    /// Takes note that it got its turn: it goes on where it is still due, and
    /// then stands in for any waiter.
    pub fn took_turn(self, auto: &mut AutoSync) -> (r: SyncStart)
        ensures
            r@ == self@.after_turn(*old(auto)),
            *final(auto) == match self@ {
                StartView::Turn { expected } => auto_sync::after_tick(
                    *old(auto),
                    Tick::Begin(expected),
                ),
                _ => *old(auto),
            },
    {
        match self.step {
            StartStep::Turn { expected } => {
                if auto.begin(expected) {
                    SyncStart { step: StartStep::LookUp }
                } else {
                    SyncStart { step: StartStep::Superseded }
                }
            },
            _ => self,
        }
    }

    /// Takes the stored settings.
    pub fn looked_up(self, settings: StoredSettings) -> (r: SyncStart)
        ensures
            r@ == self@.after_lookup(settings@),
    {
        match self.step {
            StartStep::LookUp => match session::open_stored(settings) {
                Ok(opening) => opening_step(opening),
                Err(error) => SyncStart { step: StartStep::Refused { error } },
            },
            _ => self,
        }
    }

    /// Whether the body of an answer with that status matters.
    pub fn needs_body(&self, status: Status) -> (r: bool)
        ensures
            r == self@.reads_body(status.value()),
    {
        match &self.step {
            StartStep::Open { opening } => opening.needs_body(status),
            _ => false,
        }
    }

    /// Takes the answer to a request.
    pub fn replied(self, status: Status, body: &str) -> (r: SyncStart)
        ensures
            r@ == self@.after_reply(status.value(), body@),
    {
        match self.step {
            StartStep::Open { opening } => opening_step(opening.replied(status, body)),
            _ => self,
        }
    }

    /// Takes note that changes were stored.
    pub fn stored(self) -> (r: SyncStart)
        ensures
            r@ == self@.after_store(),
    {
        match self.step {
            StartStep::Open { opening } => opening_step(opening.stored()),
            _ => self,
        }
    }

    /// What came of the beginning, once nothing is asked for.
    pub fn outcome(self) -> (r: Option<StartOutcome>)
        ensures
            match self@ {
                StartView::Ready { provider, session } => r matches Some(
                    StartOutcome::Run { run, session: s },
                ) && run@ == RunView::start(provider) && run@.wf() && s@ == session,
                StartView::Superseded => r == Some(StartOutcome::Superseded),
                StartView::Refused { error } => r == Some(StartOutcome::Refused { error }),
                _ => r is None,
            },
    {
        match self.step {
            StartStep::Ready { provider, session } => Some(
                StartOutcome::Run { run: run::sync_now(provider), session },
            ),
            StartStep::Superseded => Some(StartOutcome::Superseded),
            StartStep::Refused { error } => Some(StartOutcome::Refused { error }),
            _ => None,
        }
    }
}

/// What can happen to the beginning of a synchronisation.
pub enum StartEvent {
    TookTurn(AutoSync),
    LookedUp(SettingsView),
    Replied(u16, Seq<char>),
    Stored,
}

/// The beginning of a synchronisation after one thing has happened.
pub open spec fn after_event(start: StartView, event: StartEvent) -> StartView {
    match event {
        StartEvent::TookTurn(auto) => start.after_turn(auto),
        StartEvent::LookedUp(settings) => start.after_lookup(settings),
        StartEvent::Replied(code, body) => start.after_reply(code, body),
        StartEvent::Stored => start.after_store(),
    }
}

/// The beginning of a synchronisation after a history.
pub open spec fn after_events(start: StartView, events: Seq<StartEvent>) -> StartView
    decreases events.len(),
{
    if events.len() == 0 {
        start
    } else {
        after_event(after_events(start, events.drop_last()), events.last())
    }
}

/// A synchronisation that was triggered does nothing at all where the queue
/// was drained before its turn: whatever happens then, it asks for nothing,
/// and what is known of triggered synchronisations stays as it is.
pub proof fn law_a_superseded_run_does_nothing(
    generation: u64,
    auto: AutoSync,
    events: Seq<StartEvent>,
)
    requires
        auto.generation != generation,
    ensures
        ({
            let start = StartView::Turn { expected: Some(generation) };
            let now = after_events(start.after_turn(auto), events);
            &&& now == StartView::Superseded
            &&& now.asks() is End
            &&& auto_sync::after_tick(auto, Tick::Begin(Some(generation))) == auto
        }),
    decreases events.len(),
{
    if events.len() > 0 {
        law_a_superseded_run_does_nothing(generation, auto, events.drop_last());
    }
}

/// A synchronisation without a connection sends and stores nothing: whatever
/// happens then, it asks for nothing.
pub proof fn law_no_connection_sends_nothing(settings: SettingsView, events: Seq<StartEvent>)
    requires
        account::connection(settings) is None,
    ensures
        ({
            let now = after_events(StartView::LookUp.after_lookup(settings), events);
            &&& now == (StartView::Refused { error: SyncError::NotConnected })
            &&& now.asks() is End
        }),
    decreases events.len(),
{
    if events.len() > 0 {
        law_no_connection_sends_nothing(settings, events.drop_last());
    }
}

/// Whether a history gave a synchronisation its turn while it was due.
pub open spec fn got_turn(expected: Option<u64>, events: Seq<StartEvent>) -> bool {
    exists|k: int|
        0 <= k < events.len() && (#[trigger] events[k] matches StartEvent::TookTurn(auto) && due(
            expected,
            auto,
        ))
}

/// Whether a history found a connection.
pub open spec fn found_connection(events: Seq<StartEvent>) -> bool {
    exists|k: int|
        0 <= k < events.len() && (#[trigger] events[k] matches StartEvent::LookedUp(settings)
            && account::connection(settings) is Some)
}

/// Nothing is looked up before a synchronisation got its turn while it was
/// due, and nothing is sent, stored or run before a connection was found as
/// well.
pub proof fn law_turn_and_connection_come_first(expected: Option<u64>, events: Seq<StartEvent>)
    ensures
        ({
            let now = after_events(StartView::Turn { expected }, events);
            &&& now is Turn ==> now == (StartView::Turn { expected })
            &&& now is LookUp || now is Open || now is Ready ==> got_turn(expected, events)
            &&& now.asks() is LookUpSettings ==> got_turn(expected, events)
            &&& now is Open || now is Ready ==> found_connection(events)
            &&& now.asks() is Send || now.asks() is Store ==> found_connection(events)
        }),
    decreases events.len(),
{
    if events.len() > 0 {
        let earlier = events.drop_last();
        let before = after_events(StartView::Turn { expected }, earlier);
        law_turn_and_connection_come_first(expected, earlier);
        assert(events[events.len() - 1] == events.last());
        if got_turn(expected, earlier) {
            let k = choose|k: int|
                0 <= k < earlier.len() && (#[trigger] earlier[k] matches StartEvent::TookTurn(auto)
                    && due(expected, auto));
            assert(events[k] == earlier[k]);
        }
        if found_connection(earlier) {
            let k = choose|k: int|
                0 <= k < earlier.len() && (#[trigger] earlier[k] matches StartEvent::LookedUp(
                    settings,
                ) && account::connection(settings) is Some);
            assert(events[k] == earlier[k]);
        }
    }
}

/// A synchronisation is due where the user asked for it, or where the
/// generation is still that of its trigger; it then looks up the settings.
pub proof fn law_only_a_due_run_begins(expected: Option<u64>, auto: AutoSync)
    ensures
        ({
            let start = StartView::Turn { expected };
            let next = start.after_turn(auto);
            &&& start.asks() is TakeTurn
            &&& expected is None || expected == Some(auto.generation) ==> next.asks()
                is LookUpSettings
            &&& expected is Some && expected != Some(auto.generation) ==> next
                == StartView::Superseded
        }),
{
}

/// A synchronisation opens the session of the stored connection: it asks for
/// what that opening asks for, and the run and the session that it ends in are
/// with the provider and the API root of that connection.
pub proof fn law_runs_are_with_the_stored_connection(
    settings: SettingsView,
    creds: CredsView,
    events: Seq<StartEvent>,
)
    requires
        account::connection(settings) == Some(creds),
    ensures
        ({
            let first = StartView::LookUp.after_lookup(settings);
            let now = after_events(first, events);
            &&& first == (StartView::Open { opening: OpeningView::resuming(creds) })
            &&& now matches StartView::Ready { provider, session } ==> provider == creds.provider
                && session.base == provider::base_of(creds.url, creds.provider)
            &&& now matches StartView::Open { opening } ==> opening.provider == creds.provider
                && opening.url == creds.url && opening.user == creds.user
            &&& now is Open || now is Ready || now is Refused
        }),
    decreases events.len(),
{
    lemma_started(creds, StartView::LookUp.after_lookup(settings), events);
}

/// Whether a beginning is on its way with a connection.
spec fn on_its_way(creds: CredsView, now: StartView) -> bool {
    let root = provider::base_of(creds.url, creds.provider);
    match now {
        StartView::Ready { provider, session } => provider == creds.provider && session.base
            == root,
        StartView::Open { opening } => opening.provider == creds.provider && opening.url
            == creds.url && opening.user == creds.user && match opening.step {
            StepView::Store { session } => session.base == root,
            StepView::Open { session } => session.base == root,
            _ => true,
        },
        StartView::Refused { error } => true,
        _ => false,
    }
}

proof fn lemma_started(creds: CredsView, first: StartView, events: Seq<StartEvent>)
    requires
        on_its_way(creds, first),
    ensures
        on_its_way(creds, after_events(first, events)),
    decreases events.len(),
{
    if events.len() > 0 {
        lemma_started(creds, first, events.drop_last());
    }
}

/// A run begins exactly where the opening of the session ended in one, and it
/// is refused exactly where the opening was.
pub proof fn law_a_run_begins_with_the_session(opening: OpeningView)
    ensures
        opening.step matches StepView::Open { session } ==> StartView::opening(opening) == (
        StartView::Ready { provider: opening.provider, session }),
        opening.step matches StepView::Refused { error } ==> StartView::opening(opening) == (
        StartView::Refused { error }),
        !(opening.step is Open) && !(opening.step is Refused) ==> StartView::opening(opening) == (
        StartView::Open { opening }),
{
}

/// While the session is being opened, the beginning of a synchronisation does
/// what the opening asks for, hands it every answer, and reads a body exactly
/// where the opening does; at no other time does it send, store or read.
pub proof fn law_the_opening_is_followed(
    opening: OpeningView,
    start: StartView,
    code: u16,
    body: Seq<char>,
)
    ensures
        ({
            let open = StartView::Open { opening };
            &&& opening.asks() matches OpeningActionView::Send(request) ==> open.asks()
                == StartActionView::Send(request)
            &&& opening.asks() matches OpeningActionView::Store(writes) ==> open.asks()
                == StartActionView::Store(writes)
            &&& open.reads_body(code) == opening.reads_body(code)
            &&& open.after_reply(code, body) == StartView::opening(opening.after_reply(code, body))
            &&& open.after_store() == StartView::opening(opening.after_store())
        }),
        !(start is Open) ==> !(start.asks() is Send) && !(start.asks() is Store)
            && !start.reads_body(code) && start.after_reply(code, body) == start
            && start.after_store() == start,
{
}

} // verus!
