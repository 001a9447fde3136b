//! When a queued local edit is flushed: soon, and once for edits that come
//! close together.

use vstd::prelude::*;
use crate::edits::{EditPush, PushStep, PushView, SyncEntry};

verus! {

/// How many seconds a triggered synchronisation waits for further edits.
pub const AUTO_SYNC_DEBOUNCE_SECS: u64 = 5;

/// What is known of triggered synchronisations.
#[derive(Clone, Copy, Debug, PartialEq, Eq, Structural)]
pub struct AutoSync {
    /// Whether a triggered synchronisation is waiting, so that further
    /// triggers join it.
    pub scheduled: bool,
    /// How many times the queue of edits was drained, modulo 2^64.
    pub generation: u64,
}

/// What can happen to an `AutoSync`.
pub enum Tick {
    Trigger,
    Wake(u64),
    Begin(Option<u64>),
    Drained,
}

/// An `AutoSync` after one thing has happened to it.
pub open spec fn after_tick(auto: AutoSync, tick: Tick) -> AutoSync {
    match tick {
        Tick::Trigger => AutoSync { scheduled: true, ..auto },
        Tick::Wake(_) => AutoSync { scheduled: false, ..auto },
        Tick::Begin(Some(generation)) if auto.generation != generation => auto,
        Tick::Begin(_) => AutoSync { scheduled: false, ..auto },
        Tick::Drained => AutoSync {
            generation: ((auto.generation + 1) % 0x1_0000_0000_0000_0000) as u64,
            ..auto
        },
    }
}

impl AutoSync {
    /// The generation that a waiter for an edit has to remember; none where a
    /// waiter is there already.
    pub open spec fn new_waiter(self) -> Option<u64> {
        if self.scheduled {
            None
        } else {
            Some(self.generation)
        }
    }

    /// Nothing waits and nothing was drained.
    pub fn new() -> (r: AutoSync)
        ensures
            r == (AutoSync { scheduled: false, generation: 0 }),
    {
        AutoSync { scheduled: false, generation: 0 }
    }

    /// A local edit was queued. Gives the generation that the new waiter has
    /// to remember, or nothing where a waiter is there already.
    pub fn trigger(&mut self) -> (r: Option<u64>)
        ensures
            *final(self) == after_tick(*old(self), Tick::Trigger),
            r == old(self).new_waiter(),
    {
        if self.scheduled {
            return None;
        }
        self.scheduled = true;
        Some(self.generation)
    }

    /// A waiter wakes. Tells whether its trigger still has work to do: it
    /// has none where the queue was drained meanwhile.
    pub fn wake(&mut self, scheduled_at: u64) -> (r: bool)
        ensures
            *final(self) == after_tick(*old(self), Tick::Wake(scheduled_at)),
            r == (old(self).generation == scheduled_at),
    {
        self.scheduled = false;
        self.generation == scheduled_at
    }

    /// A synchronisation has got its turn. Tells whether it is to run: one
    /// that was triggered is not where the queue was drained since. One that
    /// runs stands in for any waiter.
    pub fn begin(&mut self, expected: Option<u64>) -> (r: bool)
        ensures
            r == match expected {
                Some(generation) => old(self).generation == generation,
                None => true,
            },
            *final(self) == after_tick(*old(self), Tick::Begin(expected)),
    {
        match expected {
            Some(generation) => {
                if self.generation != generation {
                    return false;
                }
            },
            None => {},
        }
        self.scheduled = false;
        true
    }

    /// The queue of edits was drained.
    pub fn drained(&mut self)
        ensures
            *final(self) == after_tick(*old(self), Tick::Drained),
    {
        self.generation = self.generation.wrapping_add(1);
    }
}

/// An `AutoSync` after a push took the queue: the drain is noted where the
/// push asked for it.
pub open spec fn after_drain(push: PushView, auto: AutoSync) -> AutoSync {
    if push.step == PushStep::Drain {
        after_tick(auto, Tick::Drained)
    } else {
        auto
    }
}

impl AutoSync {
    /// Hands the changes that were on the queue to a push that asked for
    /// them, and notes the drain, whether anything was on the queue or not.
    pub fn drain(&mut self, push: EditPush, queue: Vec<SyncEntry>) -> (r: EditPush)
        requires
            push@.wf(),
        ensures
            r@ == push@.after_drain(queue@),
            r@.wf(),
            *final(self) == after_drain(push@, *old(self)),
    {
        if push.awaits_queue() {
            self.drained();
        }
        push.drained(queue)
    }
}

/// An `AutoSync` after a history.
pub open spec fn after_ticks(auto: AutoSync, ticks: Seq<Tick>) -> AutoSync
    decreases ticks.len(),
{
    if ticks.len() == 0 {
        auto
    } else {
        after_tick(after_ticks(auto, ticks.drop_last()), ticks.last())
    }
}

/// How often a history drains the queue.
pub open spec fn drains(ticks: Seq<Tick>) -> nat
    decreases ticks.len(),
{
    if ticks.len() == 0 {
        0
    } else {
        drains(ticks.drop_last()) + if ticks.last() is Drained {
            1nat
        } else {
            0nat
        }
    }
}

/// The generation counts the drains and nothing else.
pub proof fn law_generation_counts_drains(auto: AutoSync, ticks: Seq<Tick>)
    ensures
        after_ticks(auto, ticks).generation == (auto.generation + drains(ticks))
            % 0x1_0000_0000_0000_0000,
    decreases ticks.len(),
{
    if ticks.len() > 0 {
        law_generation_counts_drains(auto, ticks.drop_last());
    }
}

/// A waiter that stands down does so because the queue was drained after it
/// was scheduled; and as long as nothing drains the queue, no waiter stands
/// down.
pub proof fn law_a_waiter_stands_down_only_after_a_drain(auto: AutoSync, ticks: Seq<Tick>)
    requires
        drains(ticks) < 0x1_0000_0000_0000_0000,
    ensures
        after_ticks(auto, ticks).generation != auto.generation <==> drains(ticks) > 0,
{
    law_generation_counts_drains(auto, ticks);
}

/// Triggers that follow one another join one waiter: after a trigger, and
/// until a waiter wakes or a synchronisation begins, every further trigger
/// finds a waiter.
pub proof fn law_triggers_coalesce(auto: AutoSync, ticks: Seq<Tick>)
    requires
        forall|i: int| 0 <= i < ticks.len() ==> #[trigger] ticks[i] is Trigger || ticks[i] is Drained,
    ensures
        after_ticks(after_tick(auto, Tick::Trigger), ticks).scheduled,
    decreases ticks.len(),
{
    if ticks.len() > 0 {
        assert(ticks.last() is Trigger || ticks.last() is Drained);
        assert forall|i: int| 0 <= i < ticks.drop_last().len() implies #[trigger] ticks.drop_last()[i]
            is Trigger || ticks.drop_last()[i] is Drained by {
            assert(ticks.drop_last()[i] == ticks[i]);
        }
        law_triggers_coalesce(auto, ticks.drop_last());
    }
}

/// A synchronisation that the user asked for lets the next edit schedule a
/// new waiter.
pub proof fn law_a_manual_run_frees_the_waiter(auto: AutoSync)
    ensures
        !after_tick(auto, Tick::Begin(None)).scheduled,
{
}

/// A triggered synchronisation on its way.
#[derive(Clone, Copy, Debug, PartialEq, Eq, Structural)]
pub enum QueuedSync {
    /// It waits for further edits.
    Waiting { scheduled_at: u64 },
    /// It woke, and the stored connection is to be looked up.
    Checking { scheduled_at: u64 },
    /// It is to run, unless the queue is drained before its turn.
    Running { scheduled_at: u64 },
    /// It ran, and its result is to be shown.
    Announcing,
    /// It is over.
    Over,
}

/// What a triggered synchronisation asks for next.
#[derive(Clone, Copy, Debug, PartialEq, Eq, Structural)]
pub enum QueuedAction {
    /// Sleep for a number of seconds, then call `woke`.
    Sleep { secs: u64 },
    /// Look up the stored connection, then call `looked_up`.
    LookUpConnection,
    /// Synchronise unless the generation has changed, then call `ran`.
    Synchronise { expected: u64 },
    /// Show the result, then call `announced`.
    Announce,
    /// Nothing is left to do.
    End,
}

/// A local edit was queued: schedules a synchronisation, unless one is
/// waiting.
pub fn trigger_soon(auto: &mut AutoSync) -> (r: Option<QueuedSync>)
    ensures
        *final(auto) == after_tick(*old(auto), Tick::Trigger),
        r == match old(auto).new_waiter() {
            Some(scheduled_at) => Some(QueuedSync::Waiting { scheduled_at }),
            None => None,
        },
{
    match auto.trigger() {
        Some(scheduled_at) => Some(QueuedSync::Waiting { scheduled_at }),
        None => None,
    }
}

impl QueuedSync {
    pub open spec fn asks(self) -> QueuedAction {
        match self {
            QueuedSync::Waiting { scheduled_at } => QueuedAction::Sleep {
                secs: AUTO_SYNC_DEBOUNCE_SECS,
            },
            QueuedSync::Checking { scheduled_at } => QueuedAction::LookUpConnection,
            QueuedSync::Running { scheduled_at } => QueuedAction::Synchronise {
                expected: scheduled_at,
            },
            QueuedSync::Announcing => QueuedAction::Announce,
            QueuedSync::Over => QueuedAction::End,
        }
    }

    /// After the sleep: goes on where the queue was not drained meanwhile.
    pub open spec fn after_sleep(self, auto: AutoSync) -> QueuedSync {
        match self {
            QueuedSync::Waiting { scheduled_at } => if auto.generation == scheduled_at {
                QueuedSync::Checking { scheduled_at }
            } else {
                QueuedSync::Over
            },
            _ => self,
        }
    }

    /// After the stored connection was looked up.
    pub open spec fn after_lookup(self, connected: bool) -> QueuedSync {
        match self {
            QueuedSync::Checking { scheduled_at } => if connected {
                QueuedSync::Running { scheduled_at }
            } else {
                QueuedSync::Over
            },
            _ => self,
        }
    }

    /// After the synchronisation had its turn.
    pub open spec fn after_run(self, completed: bool) -> QueuedSync {
        match self {
            QueuedSync::Running { scheduled_at } => if completed {
                QueuedSync::Announcing
            } else {
                QueuedSync::Over
            },
            _ => self,
        }
    }

    /// After the result was shown.
    pub open spec fn after_show(self) -> QueuedSync {
        if self == QueuedSync::Announcing {
            QueuedSync::Over
        } else {
            self
        }
    }

    /// What is to be done next.
    pub fn action(self) -> (r: QueuedAction)
        ensures
            r == self.asks(),
    {
        match self {
            QueuedSync::Waiting { scheduled_at } => QueuedAction::Sleep {
                secs: AUTO_SYNC_DEBOUNCE_SECS,
            },
            QueuedSync::Checking { scheduled_at } => QueuedAction::LookUpConnection,
            QueuedSync::Running { scheduled_at } => QueuedAction::Synchronise {
                expected: scheduled_at,
            },
            QueuedSync::Announcing => QueuedAction::Announce,
            QueuedSync::Over => QueuedAction::End,
        }
    }

    /// The sleep is over: goes on where the queue was not drained meanwhile.
    pub fn woke(self, auto: &mut AutoSync) -> (r: QueuedSync)
        ensures
            r == self.after_sleep(*old(auto)),
            *final(auto) == match self {
                QueuedSync::Waiting { scheduled_at } => after_tick(
                    *old(auto),
                    Tick::Wake(scheduled_at),
                ),
                _ => *old(auto),
            },
    {
        match self {
            QueuedSync::Waiting { scheduled_at } => {
                if auto.wake(scheduled_at) {
                    QueuedSync::Checking { scheduled_at }
                } else {
                    QueuedSync::Over
                }
            },
            _ => self,
        }
    }

    /// The stored connection was looked up: goes on where there is one.
    pub fn looked_up(self, connected: bool) -> (r: QueuedSync)
        ensures
            r == self.after_lookup(connected),
    {
        match self {
            QueuedSync::Checking { scheduled_at } => if connected {
                QueuedSync::Running { scheduled_at }
            } else {
                QueuedSync::Over
            },
            _ => self,
        }
    }

    /// The synchronisation had its turn: its result is shown where it ran to
    /// its end.
    pub fn ran(self, completed: bool) -> (r: QueuedSync)
        ensures
            r == self.after_run(completed),
    {
        match self {
            QueuedSync::Running { scheduled_at } => if completed {
                QueuedSync::Announcing
            } else {
                QueuedSync::Over
            },
            _ => self,
        }
    }

    /// The result was shown.
    pub fn announced(self) -> (r: QueuedSync)
        ensures
            r == self.after_show(),
    {
        match self {
            QueuedSync::Announcing => QueuedSync::Over,
            _ => self,
        }
    }
}

/// A trigger schedules a waiter exactly where none waits, and the waiter
/// remembers the generation of its trigger. Waking and a run that is due end
/// the waiting, and neither they nor a trigger change the generation; a drain
/// does not end the waiting, and a run that is not due changes nothing.
pub proof fn law_waiting_begins_and_ends(auto: AutoSync, at: u64)
    ensures
        auto.new_waiter() is Some <==> !auto.scheduled,
        auto.new_waiter() matches Some(generation) ==> generation == auto.generation,
        after_tick(auto, Tick::Trigger).scheduled,
        after_tick(auto, Tick::Trigger).generation == auto.generation,
        !after_tick(auto, Tick::Wake(at)).scheduled,
        after_tick(auto, Tick::Wake(at)).generation == auto.generation,
        at == auto.generation ==> !after_tick(auto, Tick::Begin(Some(at))).scheduled,
        at != auto.generation ==> after_tick(auto, Tick::Begin(Some(at))) == auto,
        after_tick(auto, Tick::Begin(Some(at))).generation == auto.generation,
        after_tick(auto, Tick::Begin(None)).generation == auto.generation,
        after_tick(auto, Tick::Drained).scheduled == auto.scheduled,
        after_tick(auto, Tick::Drained).generation != auto.generation,
{
}

/// A triggered synchronisation sleeps for five seconds, looks up the
/// connection, runs for the generation of its trigger and shows its result.
/// It stops before the lookup where the queue was drained meanwhile, before
/// the run without a connection, and before showing a run that did not
/// complete.
pub proof fn law_a_triggered_run_takes_its_course(at: u64, auto: AutoSync)
    ensures
        ({
            let waiting = QueuedSync::Waiting { scheduled_at: at };
            let woken = waiting.after_sleep(auto);
            let checked = woken.after_lookup(true);
            let ran = checked.after_run(true);
            &&& waiting.asks() == (QueuedAction::Sleep { secs: 5 })
            &&& auto.generation != at ==> woken.asks() == QueuedAction::End
            &&& auto.generation == at ==> {
                &&& woken.asks() == QueuedAction::LookUpConnection
                &&& checked.asks() == (QueuedAction::Synchronise { expected: at })
                &&& ran.asks() == QueuedAction::Announce
                &&& ran.after_show().asks() == QueuedAction::End
                &&& woken.after_lookup(false).asks() == QueuedAction::End
                &&& checked.after_run(false).asks() == QueuedAction::End
            }
        }),
{
}

/// A triggered synchronisation takes only the answer that it asked for: any
/// other leaves it as it is.
pub proof fn law_unasked_answers_leave_a_triggered_run(queued: QueuedSync, auto: AutoSync, yes: bool)
    ensures
        !(queued.asks() is Sleep) ==> queued.after_sleep(auto) == queued,
        !(queued.asks() is LookUpConnection) ==> queued.after_lookup(yes) == queued,
        !(queued.asks() is Synchronise) ==> queued.after_run(yes) == queued,
        !(queued.asks() is Announce) ==> queued.after_show() == queued,
{
}

} // verus!
