//! One synchronisation, from its session to its end.

use vstd::prelude::*;
use vstd::string::*;
use crate::apply;
use crate::apply::{ApplyEvent, ApplyStep, ApplyView, RemoteItemApply};
use crate::freshrss;
use crate::http;
use crate::http::{Method, Request, RequestView, Status};
use crate::provider;
use crate::provider::Provider;
use crate::session::{Session, SessionView};
use crate::wire;
use crate::wire::{Item, UnreadCounts};

verus! {

/// How many pages of the unread stream are read at most.
pub const STREAM_PAGE_LIMIT: usize = 50;

/// What a synchronisation did.
#[derive(Clone, Copy, Debug, PartialEq, Eq, Structural)]
pub struct SyncStats {
    pub reconciled_articles: usize,
    pub imported_articles: usize,
    pub remote_unread_articles: usize,
    pub matched_unread_articles: usize,
    pub skipped_unread_articles: usize,
    pub skipped_unread_no_stream: usize,
    pub skipped_unread_no_feed: usize,
    pub skipped_unread_no_identity: usize,
}

impl Default for SyncStats {
    fn default() -> (r: SyncStats)
        ensures
            r == (SyncStats {
                reconciled_articles: 0,
                imported_articles: 0,
                remote_unread_articles: 0,
                matched_unread_articles: 0,
                skipped_unread_articles: 0,
                skipped_unread_no_stream: 0,
                skipped_unread_no_feed: 0,
                skipped_unread_no_identity: 0,
            }),
    {
        SyncStats {
            reconciled_articles: 0,
            imported_articles: 0,
            remote_unread_articles: 0,
            matched_unread_articles: 0,
            skipped_unread_articles: 0,
            skipped_unread_no_stream: 0,
            skipped_unread_no_feed: 0,
            skipped_unread_no_identity: 0,
        }
    }
}

/// An item with what became of it.
pub type AppliedItem = (Item, RemoteItemApply);

/// What is counted of the items of a page.
#[derive(Clone, Copy, Debug, PartialEq, Eq, Structural)]
pub enum Mark {
    Imported,
    MatchedUnread,
    NoStream,
    NoFeed,
    NoIdentity,
    Unread,
    UnreadWithoutNumber,
    QueuedRead,
    Gained,
    Changed,
}

/// Whether an item is counted under a mark. The first five exclude one
/// another, in this order.
pub open spec fn bears(mark: Mark, it: AppliedItem) -> bool {
    let (item, applied) = it;
    let matched = !item.read() && applied.matched;
    match mark {
        Mark::Imported => applied.imported,
        Mark::MatchedUnread => !applied.imported && matched,
        Mark::NoStream => !applied.imported && !matched && applied.skipped_no_stream,
        Mark::NoFeed => !applied.imported && !matched && !applied.skipped_no_stream
            && applied.skipped_no_feed,
        Mark::NoIdentity => !applied.imported && !matched && !applied.skipped_no_stream
            && !applied.skipped_no_feed && applied.skipped_no_identity,
        Mark::Unread => !item.read(),
        Mark::UnreadWithoutNumber => !item.read() && freshrss::item_number(item.id@) is None,
        Mark::QueuedRead => applied.queued_local_read_push,
        Mark::Gained => applied.pending_gained_remote_id,
        Mark::Changed => applied.state_changed,
    }
}

/// How many items of a page bear a mark.
pub open spec fn count(page: Seq<AppliedItem>, mark: Mark) -> nat
    decreases page.len(),
{
    if page.len() == 0 {
        0
    } else {
        count(page.drop_last(), mark) + if bears(mark, page.last()) {
            1nat
        } else {
            0nat
        }
    }
}

/// The larger of two numbers that may be missing.
pub open spec fn larger(a: Option<u64>, b: Option<u64>) -> Option<u64> {
    match (a, b) {
        (Some(x), Some(y)) => if x >= y {
            Some(x)
        } else {
            Some(y)
        },
        (Some(x), None) => Some(x),
        (None, _) => b,
    }
}

/// The largest number that an unread item of a page ends in.
pub open spec fn largest_number(page: Seq<AppliedItem>) -> Option<u64>
    decreases page.len(),
{
    if page.len() == 0 {
        None
    } else {
        let before = largest_number(page.drop_last());
        if page.last().0.read() {
            before
        } else {
            larger(before, freshrss::item_number(page.last().0.id@))
        }
    }
}

/// What the unread stream came to.
#[derive(Clone, Copy, Debug, PartialEq, Eq, Structural)]
pub struct UnreadTally {
    /// The items that were seen.
    pub seen: usize,
    pub imported: usize,
    pub matched: usize,
    pub no_stream: usize,
    pub no_feed: usize,
    pub no_identity: usize,
    /// The unread items of the stream.
    pub unread: usize,
    /// The items that the server was told about because they were read
    /// locally.
    pub queued: usize,
    /// The unread items of FreshRSS whose ids end in no number.
    pub without_number: usize,
    /// The largest number that an unread item of FreshRSS ends in.
    pub largest: Option<u64>,
    /// Whether the stream went on after the last page that was read.
    pub cut_off: bool,
}

impl UnreadTally {
    pub open spec fn zero() -> UnreadTally {
        UnreadTally {
            seen: 0,
            imported: 0,
            matched: 0,
            no_stream: 0,
            no_feed: 0,
            no_identity: 0,
            unread: 0,
            queued: 0,
            without_number: 0,
            largest: None,
            cut_off: false,
        }
    }

    /// Every item is counted at most once.
    pub open spec fn wf(self) -> bool {
        &&& self.imported + self.matched + self.no_stream + self.no_feed + self.no_identity
            <= self.seen
        &&& self.unread <= self.seen
        &&& self.queued <= self.seen
        &&& self.without_number <= self.unread
    }

    /// The unread items that were not taken over.
    pub open spec fn skipped(self) -> int {
        self.no_stream + self.no_feed + self.no_identity
    }

    /// The tally with a page added.
    pub open spec fn plus(self, provider: Provider, page: Seq<AppliedItem>) -> UnreadTally {
        UnreadTally {
            seen: (self.seen + page.len()) as usize,
            imported: (self.imported + count(page, Mark::Imported)) as usize,
            matched: (self.matched + count(page, Mark::MatchedUnread)) as usize,
            no_stream: (self.no_stream + count(page, Mark::NoStream)) as usize,
            no_feed: (self.no_feed + count(page, Mark::NoFeed)) as usize,
            no_identity: (self.no_identity + count(page, Mark::NoIdentity)) as usize,
            unread: (self.unread + count(page, Mark::Unread)) as usize,
            queued: (self.queued + count(page, Mark::QueuedRead)) as usize,
            without_number: if provider == Provider::FreshRss {
                (self.without_number + count(page, Mark::UnreadWithoutNumber)) as usize
            } else {
                self.without_number
            },
            largest: if provider == Provider::FreshRss {
                larger(self.largest, largest_number(page))
            } else {
                self.largest
            },
            cut_off: self.cut_off,
        }
    }
}

/// On a page every item is counted at most once.
proof fn lemma_counts(page: Seq<AppliedItem>)
    ensures
        count(page, Mark::Imported) + count(page, Mark::MatchedUnread) + count(page, Mark::NoStream)
            + count(page, Mark::NoFeed) + count(page, Mark::NoIdentity) <= page.len(),
        count(page, Mark::Unread) <= page.len(),
        count(page, Mark::QueuedRead) <= page.len(),
        count(page, Mark::UnreadWithoutNumber) <= count(page, Mark::Unread),
        count(page, Mark::Changed) <= page.len(),
        count(page, Mark::Gained) <= page.len(),
    decreases page.len(),
{
    if page.len() > 0 {
        lemma_counts(page.drop_last());
    }
}

fn bump(n: usize, yes: bool) -> (r: usize)
    requires
        n < usize::MAX,
    ensures
        r == n + if yes {
            1int
        } else {
            0int
        },
{
    if yes {
        n + 1
    } else {
        n
    }
}

fn larger_of(a: Option<u64>, b: Option<u64>) -> (r: Option<u64>)
    ensures
        r == larger(a, b),
{
    match (a, b) {
        (Some(x), Some(y)) => if x >= y {
            Some(x)
        } else {
            Some(y)
        },
        (Some(x), None) => Some(x),
        (None, _) => b,
    }
}

proof fn lemma_plus_one(tally: UnreadTally, provider: Provider, page: Seq<AppliedItem>, n: int)
    requires
        0 <= n < page.len(),
        tally.seen + page.len() <= usize::MAX,
        tally.wf(),
    ensures
        page.take(n + 1).drop_last() == page.take(n),
        page.take(n + 1).last() == page[n],
        tally.plus(provider, page.take(n)).wf(),
        tally.plus(provider, page.take(n)).seen == tally.seen + n,
{
    assert(page.take(n + 1).drop_last() =~= page.take(n));
    lemma_counts(page.take(n));
}

fn tally_page(tally: UnreadTally, provider: Provider, page: &Vec<AppliedItem>) -> (r: UnreadTally)
    requires
        tally.wf(),
        tally.seen + page@.len() <= usize::MAX,
    ensures
        r == tally.plus(provider, page@),
        r.wf(),
{
    let mut t: UnreadTally = tally;
    let mut i: usize = 0;
    assert(larger(tally.largest, None) == tally.largest);
    assert(t == tally.plus(provider, page@.take(0)));
    while i < page.len()
        invariant
            i <= page.len(),
            tally.wf(),
            tally.seen + page@.len() <= usize::MAX,
            t == tally.plus(provider, page@.take(i as int)),
        decreases page.len() - i,
    {
        proof {
            lemma_plus_one(tally, provider, page@, i as int);
            lemma_counts(page@.take(i as int));
            lemma_counts(page@.take(i + 1));
        }
        let item: &Item = &page[i].0;
        let applied: RemoteItemApply = page[i].1;
        let unread: bool = !wire::item_is_read(item);
        let matched: bool = unread && applied.matched;
        let number: Option<u64> = freshrss::item_decimal_id(item.id.as_str());
        let ghost before = t;
        t.seen = t.seen + 1;
        if applied.imported {
            t.imported = t.imported + 1;
        } else if matched {
            t.matched = t.matched + 1;
        } else if applied.skipped_no_stream {
            t.no_stream = t.no_stream + 1;
        } else if applied.skipped_no_feed {
            t.no_feed = t.no_feed + 1;
        } else if applied.skipped_no_identity {
            t.no_identity = t.no_identity + 1;
        }
        t.unread = bump(t.unread, unread);
        t.queued = bump(t.queued, applied.queued_local_read_push);
        if provider == Provider::FreshRss && unread {
            if number.is_some() {
                t.largest = larger_of(t.largest, number);
            } else {
                t.without_number = t.without_number + 1;
            }
        }
        assert(t.largest == tally.plus(provider, page@.take(i + 1)).largest);
        assert(t == tally.plus(provider, page@.take(i + 1)));
        i = i + 1;
    }
    assert(page@.take(i as int) =~= page@);
    proof {
        lemma_counts(page@);
    }
    t
}

/// How far a synchronisation has come.
#[derive(Debug)]
pub enum RunPhase {
    /// Queued read and starred changes are to be pushed.
    PushEdits,
    /// Queued feed changes are to be pushed.
    PushFeeds,
    /// The subscriptions are to be taken over.
    PullSubscriptions,
    /// The unread items are to be counted.
    CountUnread,
    /// A page of the unread stream is to be taken over.
    PullUnread { page: usize, continuation: Option<String> },
    /// The recent items are to be taken over.
    PullRecent,
    /// Changes that can be pushed now are to be pushed.
    PushAgain,
    /// The unread items are to be counted after that push.
    CountAgain,
    /// The whole reading list is to be marked as read up to an item.
    MarkAll { older_than: u64 },
    /// The unread items are to be counted after that.
    CountMarked,
    /// The synchronisation is over.
    Over,
}

/// A synchronisation, one phase at a time.
#[derive(Debug)]
pub struct SyncRun {
    provider: Provider,
    phase: RunPhase,
    schedule_more: bool,
    tally: UnreadTally,
    remote_unread: usize,
    gained: bool,
    reconciled: usize,
}

/// The state of a synchronisation.
pub struct RunView {
    pub provider: Provider,
    pub phase: RunPhase,
    /// Whether another synchronisation is wanted for feed changes that wait.
    pub schedule_more: bool,
    pub tally: UnreadTally,
    /// How many items are unread on the server.
    pub remote_unread: usize,
    /// Whether a change can be pushed that could not be pushed before.
    pub gained: bool,
    /// How many recent items changed the state of their articles.
    pub reconciled: usize,
}

impl View for SyncRun {
    type V = RunView;

    closed spec fn view(&self) -> RunView {
        RunView {
            provider: self.provider,
            phase: self.phase,
            schedule_more: self.schedule_more,
            tally: self.tally,
            remote_unread: self.remote_unread,
            gained: self.gained,
            reconciled: self.reconciled,
        }
    }
}

/// What a synchronisation asks for next.
#[derive(Debug)]
pub enum RunAction {
    /// Push queued read and starred changes; `edits_pushed` is called
    /// afterwards.
    PushEdits,
    /// Push queued feed changes; `feeds_pushed` takes the outcome.
    PushFeeds,
    /// Fetch the subscriptions and take them over; `subscriptions_pulled` is
    /// called afterwards.
    PullSubscriptions(Request),
    /// Fetch the unread counts; `counted` takes them.
    CountUnread(Request),
    /// Fetch a page of the unread stream and apply its items, as `imports`
    /// says; `unread_pulled` takes it.
    PullUnread(Request),
    /// Fetch the recent items and apply them, as `imports` says;
    /// `recent_pulled` takes them.
    PullRecent(Request),
    /// Mark the whole reading list as read; `marked` takes the answer.
    MarkAll(Request),
    /// Nothing: the synchronisation is over.
    End,
}

/// What a synchronisation asks for next.
pub enum RunActionView {
    PushEdits,
    PushFeeds,
    PullSubscriptions(RequestView),
    CountUnread(RequestView),
    PullUnread(RequestView),
    PullRecent(RequestView),
    MarkAll(RequestView),
    End,
}

impl View for RunAction {
    type V = RunActionView;

    open spec fn view(&self) -> RunActionView {
        match self {
            RunAction::PushEdits => RunActionView::PushEdits,
            RunAction::PushFeeds => RunActionView::PushFeeds,
            RunAction::PullSubscriptions(request) => RunActionView::PullSubscriptions(request@),
            RunAction::CountUnread(request) => RunActionView::CountUnread(request@),
            RunAction::PullUnread(request) => RunActionView::PullUnread(request@),
            RunAction::PullRecent(request) => RunActionView::PullRecent(request@),
            RunAction::MarkAll(request) => RunActionView::MarkAll(request@),
            RunAction::End => RunActionView::End,
        }
    }
}

/// The item up to which everything is marked as read, if anything is: only
/// where every unread item of the server was seen, was read locally, and was
/// already reported as read without effect.
pub open spec fn mark_all_target(
    provider: Provider,
    tally: UnreadTally,
    remote_unread: usize,
) -> Option<u64> {
    if provider == Provider::FreshRss && tally.without_number == 0 && !tally.cut_off
        && remote_unread > 0 && remote_unread == tally.unread && tally.queued == tally.unread
        && tally.imported == 0 && tally.skipped() == 0 {
        tally.largest
    } else {
        None
    }
}

/// The continuation that leads to a next page.
pub open spec fn leads_on(continuation: Option<String>) -> bool {
    continuation matches Some(c) && c@.len() > 0
}

impl RunView {
    pub open spec fn start(provider: Provider) -> RunView {
        RunView {
            provider,
            phase: RunPhase::PushEdits,
            schedule_more: false,
            tally: UnreadTally::zero(),
            remote_unread: 0,
            gained: false,
            reconciled: 0,
        }
    }

    /// What the phases rely on.
    pub open spec fn wf(self) -> bool {
        &&& self.tally.wf()
        &&& match self.phase {
            RunPhase::PushEdits | RunPhase::PushFeeds | RunPhase::PullSubscriptions
            | RunPhase::CountUnread => self.tally == UnreadTally::zero() && !self.gained
                && self.reconciled == 0,
            RunPhase::PullUnread { page, continuation } => {
                &&& 1 <= page <= STREAM_PAGE_LIMIT
                &&& !self.tally.cut_off
                &&& self.reconciled == 0
                &&& page == 1 <==> continuation is None
                &&& continuation is Some ==> leads_on(continuation)
            },
            RunPhase::PullRecent => self.reconciled == 0,
            RunPhase::PushAgain => self.gained,
            RunPhase::CountAgain => self.gained && self.provider == Provider::FreshRss,
            RunPhase::MarkAll { older_than } => mark_all_target(
                self.provider,
                self.tally,
                self.remote_unread,
            ) == Some(older_than),
            RunPhase::CountMarked => self.provider == Provider::FreshRss,
            RunPhase::Over => true,
        }
        &&& self.phase is PushFeeds || self.phase is CountUnread ==> self.provider
            == Provider::FreshRss
        &&& self.schedule_more ==> self.provider == Provider::FreshRss
    }

    /// What is asked for next.
    pub open spec fn asks(self, session: SessionView) -> RunActionView {
        match self.phase {
            RunPhase::PushEdits | RunPhase::PushAgain => RunActionView::PushEdits,
            RunPhase::PushFeeds => RunActionView::PushFeeds,
            RunPhase::PullSubscriptions => RunActionView::PullSubscriptions(
                session.get("subscription/list?output=json"@),
            ),
            RunPhase::CountUnread | RunPhase::CountAgain | RunPhase::CountMarked =>
                RunActionView::CountUnread(freshrss::count_request(session)),
            RunPhase::PullUnread { page, continuation } => RunActionView::PullUnread(
                session.get(http::contents_path(continuation.deep_view(), true)),
            ),
            RunPhase::PullRecent => RunActionView::PullRecent(
                session.get(http::contents_path(None, false)),
            ),
            RunPhase::MarkAll { older_than } => RunActionView::MarkAll(
                freshrss::mark_all_request(session, older_than),
            ),
            RunPhase::Over => RunActionView::End,
        }
    }

    /// The end, or marking everything as read before it.
    pub open spec fn closing(self) -> RunView {
        RunView {
            phase: match mark_all_target(self.provider, self.tally, self.remote_unread) {
                Some(older_than) => RunPhase::MarkAll { older_than },
                None => RunPhase::Over,
            },
            ..self
        }
    }

    /// After queued changes were pushed.
    pub open spec fn after_edits(self) -> RunView {
        match self.phase {
            RunPhase::PushEdits => RunView {
                phase: if self.provider == Provider::FreshRss {
                    RunPhase::PushFeeds
                } else {
                    RunPhase::PullSubscriptions
                },
                ..self
            },
            RunPhase::PushAgain => if self.provider == Provider::FreshRss {
                RunView { phase: RunPhase::CountAgain, ..self }
            } else {
                self.closing()
            },
            _ => self,
        }
    }

    /// After feed changes were pushed.
    pub open spec fn after_feeds(self, more: bool) -> RunView {
        match self.phase {
            RunPhase::PushFeeds => RunView {
                phase: RunPhase::PullSubscriptions,
                schedule_more: more,
                ..self
            },
            _ => self,
        }
    }

    /// After the subscriptions were taken over.
    pub open spec fn after_subscriptions(self) -> RunView {
        match self.phase {
            RunPhase::PullSubscriptions => RunView {
                phase: if self.provider == Provider::FreshRss {
                    RunPhase::CountUnread
                } else {
                    RunPhase::PullUnread { page: 1, continuation: None }
                },
                ..self
            },
            _ => self,
        }
    }

    /// Whether the synchronisation goes on where a count fails: it does with
    /// an earlier count.
    pub open spec fn goes_on_uncounted(self) -> bool {
        self.phase is CountAgain || self.phase is CountMarked
    }

    /// After the unread items were counted; nothing where a later count
    /// failed.
    pub open spec fn after_count(self, counted: Option<usize>) -> RunView {
        let remote_unread = match counted {
            Some(n) => n,
            None => self.remote_unread,
        };
        match self.phase {
            RunPhase::CountUnread => RunView {
                phase: RunPhase::PullUnread { page: 1, continuation: None },
                remote_unread,
                ..self
            },
            RunPhase::CountAgain => (RunView { remote_unread, ..self }).closing(),
            RunPhase::CountMarked => RunView { phase: RunPhase::Over, remote_unread, ..self },
            _ => self,
        }
    }

    /// After a page of the unread stream was taken over: goes on to the next
    /// page where there is one, up to the limit. Where the server gave no
    /// count, the unread items of the stream are the count.
    pub open spec fn after_unread(
        self,
        items: Seq<AppliedItem>,
        continuation: Option<String>,
    ) -> RunView {
        match self.phase {
            RunPhase::PullUnread { page, continuation: _ } => {
                let tally = self.tally.plus(self.provider, items);
                let gained = self.gained || count(items, Mark::Gained) > 0;
                if leads_on(continuation) && page < STREAM_PAGE_LIMIT {
                    RunView {
                        phase: RunPhase::PullUnread { page: (page + 1) as usize, continuation },
                        tally,
                        gained,
                        ..self
                    }
                } else {
                    RunView {
                        phase: RunPhase::PullRecent,
                        tally: UnreadTally { cut_off: leads_on(continuation), ..tally },
                        remote_unread: if self.remote_unread == 0 {
                            tally.unread
                        } else {
                            self.remote_unread
                        },
                        gained,
                        ..self
                    }
                }
            },
            _ => self,
        }
    }

    /// After the recent items were taken over: pushes again exactly where a
    /// change can be pushed that could not be pushed before.
    pub open spec fn after_recent(self, items: Seq<AppliedItem>) -> RunView {
        match self.phase {
            RunPhase::PullRecent => {
                let next = RunView {
                    gained: self.gained || count(items, Mark::Gained) > 0,
                    reconciled: count(items, Mark::Changed) as usize,
                    ..self
                };
                if next.gained {
                    RunView { phase: RunPhase::PushAgain, ..next }
                } else {
                    next.closing()
                }
            },
            _ => self,
        }
    }

    /// After everything was marked as read, or was not.
    pub open spec fn after_mark(self, accepted: bool) -> RunView {
        match self.phase {
            RunPhase::MarkAll { older_than } => RunView {
                phase: if accepted {
                    RunPhase::CountMarked
                } else {
                    RunPhase::Over
                },
                ..self
            },
            _ => self,
        }
    }

    /// What the synchronisation did.
    pub open spec fn stats(self) -> SyncStats {
        SyncStats {
            reconciled_articles: self.reconciled,
            imported_articles: self.tally.imported,
            remote_unread_articles: self.remote_unread,
            matched_unread_articles: self.tally.matched,
            skipped_unread_articles: self.tally.skipped() as usize,
            skipped_unread_no_stream: self.tally.no_stream,
            skipped_unread_no_feed: self.tally.no_feed,
            skipped_unread_no_identity: self.tally.no_identity,
        }
    }
}

/// How many items of a page bear a mark that does not depend on the item.
fn count_outcomes(page: &Vec<AppliedItem>, gained: bool) -> (r: usize)
    ensures
        r == count(
            page@,
            if gained {
                Mark::Gained
            } else {
                Mark::Changed
            },
        ),
{
    let ghost mark = if gained {
        Mark::Gained
    } else {
        Mark::Changed
    };
    let mut n: usize = 0;
    let mut i: usize = 0;
    while i < page.len()
        invariant
            i <= page.len(),
            n <= i,
            mark == if gained {
                Mark::Gained
            } else {
                Mark::Changed
            },
            n == count(page@.take(i as int), mark),
        decreases page.len() - i,
    {
        assert(page@.take(i + 1).drop_last() =~= page@.take(i as int));
        let yes: bool = if gained {
            page[i].1.pending_gained_remote_id
        } else {
            page[i].1.state_changed
        };
        n = bump(n, yes);
        i = i + 1;
    }
    assert(page@.take(i as int) =~= page@);
    n
}

/// A synchronisation, which begins by pushing queued changes.
pub fn sync_now(provider: Provider) -> (r: SyncRun)
    ensures
        r@ == RunView::start(provider),
        r@.wf(),
{
    SyncRun {
        provider,
        phase: RunPhase::PushEdits,
        schedule_more: false,
        tally: UnreadTally {
            seen: 0,
            imported: 0,
            matched: 0,
            no_stream: 0,
            no_feed: 0,
            no_identity: 0,
            unread: 0,
            queued: 0,
            without_number: 0,
            largest: None,
            cut_off: false,
        },
        remote_unread: 0,
        gained: false,
        reconciled: 0,
    }
}

impl SyncRun {
    /// The provider that is synchronised with.
    pub fn provider(&self) -> (r: Provider)
        ensures
            r == self@.provider,
    {
        self.provider
    }

    /// What is to be done next.
    pub fn action(&self, session: &Session) -> (r: RunAction)
        ensures
            r@ == self@.asks(session@),
    {
        match &self.phase {
            RunPhase::PushEdits => RunAction::PushEdits,
            RunPhase::PushAgain => RunAction::PushEdits,
            RunPhase::PushFeeds => RunAction::PushFeeds,
            RunPhase::PullSubscriptions => RunAction::PullSubscriptions(
                session.get("subscription/list?output=json"),
            ),
            RunPhase::CountUnread => RunAction::CountUnread(freshrss::remote_unread_count(session)),
            RunPhase::CountAgain => RunAction::CountUnread(freshrss::remote_unread_count(session)),
            RunPhase::CountMarked => RunAction::CountUnread(freshrss::remote_unread_count(session)),
            RunPhase::PullUnread { page, continuation } => {
                let path: String = match continuation {
                    Some(c) => http::reading_list_contents_path(Some(c.as_str()), true),
                    None => http::reading_list_contents_path(None, true),
                };
                RunAction::PullUnread(session.get(path.as_str()))
            },
            RunPhase::PullRecent => RunAction::PullRecent(
                session.get(http::reading_list_contents_path(None, false).as_str()),
            ),
            RunPhase::MarkAll { older_than } => RunAction::MarkAll(
                freshrss::mark_all_reading_list_as_read(session, *older_than),
            ),
            RunPhase::Over => RunAction::End,
        }
    }

    fn close(&mut self)
        requires
            old(self)@.tally.wf(),
            old(self)@.schedule_more ==> old(self)@.provider == Provider::FreshRss,
        ensures
            final(self)@ == old(self)@.closing(),
            final(self)@.wf(),
    {
        let skipped: usize = self.tally.no_stream + self.tally.no_feed + self.tally.no_identity;
        let mut target: Option<u64> = None;
        if provider::should_try_mark_all_read_fallback(
            self.provider,
            self.tally.without_number,
            self.tally.cut_off,
        ) {
            target =
            freshrss::mark_all_read_fallback_id(
                self.remote_unread,
                self.tally.unread,
                self.tally.queued,
                self.tally.imported,
                skipped,
                self.tally.largest,
            );
        }
        self.phase =
        match target {
            Some(older_than) => RunPhase::MarkAll { older_than },
            None => RunPhase::Over,
        };
    }

    /// Takes note that queued changes were pushed.
    pub fn edits_pushed(&mut self)
        requires
            old(self)@.wf(),
        ensures
            final(self)@ == old(self)@.after_edits(),
            final(self)@.wf(),
    {
        match &self.phase {
            RunPhase::PushEdits => {
                self.phase =
                if self.provider == Provider::FreshRss {
                    RunPhase::PushFeeds
                } else {
                    RunPhase::PullSubscriptions
                };
            },
            RunPhase::PushAgain => {
                if self.provider == Provider::FreshRss {
                    self.phase = RunPhase::CountAgain;
                } else {
                    self.close();
                }
            },
            _ => {},
        }
    }

    /// Takes whether more feed changes wait than were pushed.
    pub fn feeds_pushed(&mut self, more: bool)
        requires
            old(self)@.wf(),
        ensures
            final(self)@ == old(self)@.after_feeds(more),
            final(self)@.wf(),
    {
        match &self.phase {
            RunPhase::PushFeeds => {
                self.schedule_more = more;
                self.phase = RunPhase::PullSubscriptions;
            },
            _ => {},
        }
    }

    /// Takes note that the subscriptions were taken over.
    pub fn subscriptions_pulled(&mut self)
        requires
            old(self)@.wf(),
        ensures
            final(self)@ == old(self)@.after_subscriptions(),
            final(self)@.wf(),
    {
        match &self.phase {
            RunPhase::PullSubscriptions => {
                self.phase =
                if self.provider == Provider::FreshRss {
                    RunPhase::CountUnread
                } else {
                    RunPhase::PullUnread { page: 1, continuation: None }
                };
            },
            _ => {},
        }
    }

    fn take_count(&mut self, counted: Option<usize>)
        requires
            old(self)@.wf(),
        ensures
            final(self)@ == old(self)@.after_count(counted),
            final(self)@.wf(),
    {
        match &self.phase {
            RunPhase::CountUnread => {
                match counted {
                    Some(n) => {
                        self.remote_unread = n;
                    },
                    None => {},
                }
                self.phase = RunPhase::PullUnread { page: 1, continuation: None };
            },
            RunPhase::CountAgain => {
                match counted {
                    Some(n) => {
                        self.remote_unread = n;
                    },
                    None => {},
                }
                self.close();
            },
            RunPhase::CountMarked => {
                match counted {
                    Some(n) => {
                        self.remote_unread = n;
                    },
                    None => {},
                }
                self.phase = RunPhase::Over;
            },
            _ => {},
        }
    }

    /// Takes the unread counts.
    pub fn counted(&mut self, counts: &UnreadCounts)
        requires
            old(self)@.wf(),
        ensures
            final(self)@ == old(self)@.after_count(freshrss::unread_count(*counts)),
            final(self)@.wf(),
    {
        self.take_count(freshrss::reading_list_unread_count(counts));
    }

    /// Takes note that the unread counts could not be fetched. Tells whether
    /// the synchronisation goes on, with the last count: it does not where
    /// there is none yet.
    pub fn count_failed(&mut self) -> (r: bool)
        requires
            old(self)@.wf(),
        ensures
            r == old(self)@.goes_on_uncounted(),
            final(self)@ == if r {
                old(self)@.after_count(None)
            } else {
                old(self)@
            },
            final(self)@.wf(),
    {
        match &self.phase {
            RunPhase::CountAgain => {
                self.take_count(None);
                true
            },
            RunPhase::CountMarked => {
                self.take_count(None);
                true
            },
            _ => false,
        }
    }

    /// Whether unread items without a local article are imported from the
    /// page that is taken over: only those of the unread stream are.
    pub fn imports(&self) -> (r: bool)
        ensures
            r == (self@.phase is PullUnread),
    {
        match &self.phase {
            RunPhase::PullUnread { page, continuation } => true,
            _ => false,
        }
    }

    /// Whether the unread stream went on after the last page that was read.
    pub fn cut_off(&self) -> (r: bool)
        ensures
            r == self@.tally.cut_off,
    {
        self.tally.cut_off
    }

    /// Whether that many more items can be counted.
    pub fn has_room(&self, items: usize) -> (r: bool)
        ensures
            r == (self@.tally.seen + items <= usize::MAX),
    {
        items <= usize::MAX - self.tally.seen
    }

    /// Takes a page of the unread stream with what became of its items.
    pub fn unread_pulled(&mut self, items: &Vec<AppliedItem>, continuation: Option<String>)
        requires
            old(self)@.wf(),
            old(self)@.tally.seen + items@.len() <= usize::MAX,
        ensures
            final(self)@ == old(self)@.after_unread(items@, continuation),
            final(self)@.wf(),
    {
        match &self.phase {
            RunPhase::PullUnread { page, continuation: _ } => {
                let page: usize = *page;
                let on: bool = match &continuation {
                    Some(c) => !c.as_str().is_empty(),
                    None => false,
                };
                self.tally = tally_page(self.tally, self.provider, items);
                self.gained = self.gained || count_outcomes(items, true) > 0;
                if on && page < STREAM_PAGE_LIMIT {
                    self.phase = RunPhase::PullUnread { page: page + 1, continuation };
                } else {
                    self.tally.cut_off = on;
                    if self.remote_unread == 0 {
                        self.remote_unread = self.tally.unread;
                    }
                    self.phase = RunPhase::PullRecent;
                }
            },
            _ => {},
        }
    }

    /// Takes the recent items with what became of them.
    pub fn recent_pulled(&mut self, items: &Vec<AppliedItem>)
        requires
            old(self)@.wf(),
        ensures
            final(self)@ == old(self)@.after_recent(items@),
            final(self)@.wf(),
    {
        match &self.phase {
            RunPhase::PullRecent => {
                self.gained = self.gained || count_outcomes(items, true) > 0;
                self.reconciled = count_outcomes(items, false);
                if self.gained {
                    self.phase = RunPhase::PushAgain;
                } else {
                    self.close();
                }
            },
            _ => {},
        }
    }

    /// Takes the answer to marking everything as read.
    pub fn marked(&mut self, status: Status, body: &str)
        requires
            old(self)@.wf(),
        ensures
            final(self)@ == old(self)@.after_mark(freshrss::marked_all(status.value(), body@)),
            final(self)@.wf(),
    {
        match &self.phase {
            RunPhase::MarkAll { older_than } => {
                self.phase =
                if freshrss::mark_all_reply(status, body).is_ok() {
                    RunPhase::CountMarked
                } else {
                    RunPhase::Over
                };
            },
            _ => {},
        }
    }

    /// Takes note that the request to mark everything as read failed.
    pub fn mark_failed(&mut self)
        requires
            old(self)@.wf(),
        ensures
            final(self)@ == old(self)@.after_mark(false),
            final(self)@.wf(),
    {
        match &self.phase {
            RunPhase::MarkAll { older_than } => {
                self.phase = RunPhase::Over;
            },
            _ => {},
        }
    }

    /// What the synchronisation did, and whether another one is wanted, once
    /// it is over.
    pub fn outcome(&self) -> (r: Option<(SyncStats, bool)>)
        requires
            self@.wf(),
        ensures
            r == if self@.phase is Over {
                Some((self@.stats(), self@.schedule_more))
            } else {
                None
            },
    {
        match &self.phase {
            RunPhase::Over => Some(
                (
                    SyncStats {
                        reconciled_articles: self.reconciled,
                        imported_articles: self.tally.imported,
                        remote_unread_articles: self.remote_unread,
                        matched_unread_articles: self.tally.matched,
                        skipped_unread_articles: self.tally.no_stream + self.tally.no_feed
                            + self.tally.no_identity,
                        skipped_unread_no_stream: self.tally.no_stream,
                        skipped_unread_no_feed: self.tally.no_feed,
                        skipped_unread_no_identity: self.tally.no_identity,
                    },
                    self.schedule_more,
                ),
            ),
            _ => None,
        }
    }
}

/// What can happen to a synchronisation.
pub enum RunEvent {
    EditsPushed,
    FeedsPushed(bool),
    SubscriptionsPulled,
    Counted(Option<usize>),
    UnreadPulled(Seq<AppliedItem>, Option<String>),
    RecentPulled(Seq<AppliedItem>),
    Marked(bool),
}

/// A synchronisation after one thing has happened.
pub open spec fn after_event(run: RunView, event: RunEvent) -> RunView {
    match event {
        RunEvent::EditsPushed => run.after_edits(),
        RunEvent::FeedsPushed(more) => run.after_feeds(more),
        RunEvent::SubscriptionsPulled => run.after_subscriptions(),
        RunEvent::Counted(counted) => run.after_count(counted),
        RunEvent::UnreadPulled(items, continuation) => run.after_unread(items, continuation),
        RunEvent::RecentPulled(items) => run.after_recent(items),
        RunEvent::Marked(accepted) => run.after_mark(accepted),
    }
}

/// Whether what happened leaves the counts within the numbers of the machine.
pub open spec fn countable(run: RunView, event: RunEvent) -> bool {
    match event {
        RunEvent::UnreadPulled(items, _) => run.tally.seen + items.len() <= usize::MAX,
        RunEvent::RecentPulled(items) => items.len() <= usize::MAX,
        _ => true,
    }
}

/// A synchronisation after a history.
pub open spec fn after_events(run: RunView, events: Seq<RunEvent>) -> RunView
    decreases events.len(),
{
    if events.len() == 0 {
        run
    } else {
        after_event(after_events(run, events.drop_last()), events.last())
    }
}

/// Whether every step of a history is countable.
pub open spec fn all_countable(run: RunView, events: Seq<RunEvent>) -> bool
    decreases events.len(),
{
    events.len() > 0 ==> all_countable(run, events.drop_last()) && countable(
        after_events(run, events.drop_last()),
        events.last(),
    )
}

/// Where a phase stands in the order of a synchronisation.
pub open spec fn rank(phase: RunPhase) -> int {
    match phase {
        RunPhase::PushEdits => 0,
        RunPhase::PushFeeds => 1,
        RunPhase::PullSubscriptions => 2,
        RunPhase::CountUnread => 3,
        RunPhase::PullUnread { page, continuation } => 3 + page,
        RunPhase::PullRecent => 4 + STREAM_PAGE_LIMIT,
        RunPhase::PushAgain => 5 + STREAM_PAGE_LIMIT,
        RunPhase::CountAgain => 6 + STREAM_PAGE_LIMIT,
        RunPhase::MarkAll { older_than } => 7 + STREAM_PAGE_LIMIT,
        RunPhase::CountMarked => 8 + STREAM_PAGE_LIMIT,
        RunPhase::Over => 9 + STREAM_PAGE_LIMIT,
    }
}

/// A synchronisation goes through its phases in order, each at most once and
/// at most as many pages as the limit allows, so it ends: whatever happens
/// changes nothing or leads to a later phase.
pub proof fn law_phases_come_in_order(run: RunView, event: RunEvent)
    requires
        run.wf(),
        countable(run, event),
    ensures
        after_event(run, event).wf(),
        after_event(run, event).provider == run.provider,
        after_event(run, event) == run || rank(run.phase) < rank(after_event(run, event).phase),
        rank(run.phase) <= 9 + STREAM_PAGE_LIMIT,
{
    match event {
        RunEvent::UnreadPulled(items, _) => {
            lemma_counts(items);
        },
        RunEvent::RecentPulled(items) => {
            lemma_counts(items);
        },
        _ => {},
    }
}

/// Whatever happens, a synchronisation keeps what its phases rely on.
pub proof fn law_runs_stay_well_formed(provider: Provider, events: Seq<RunEvent>)
    requires
        all_countable(RunView::start(provider), events),
    ensures
        after_events(RunView::start(provider), events).wf(),
        after_events(RunView::start(provider), events).provider == provider,
    decreases events.len(),
{
    if events.len() > 0 {
        law_runs_stay_well_formed(provider, events.drop_last());
        law_phases_come_in_order(
            after_events(RunView::start(provider), events.drop_last()),
            events.last(),
        );
    }
}

/// The page that is asked for is one of the unread stream exactly in the
/// phase in which missing items are imported.
pub proof fn law_only_the_unread_stream_imports(run: RunView, session: SessionView)
    ensures
        run.asks(session) is PullUnread <==> run.phase is PullUnread,
        run.asks(session) is PullRecent ==> !(run.phase is PullUnread),
{
}

/// The unread stream is cut off exactly where it went on after as many pages
/// as the limit allows.
pub proof fn law_only_the_page_limit_cuts_off(
    run: RunView,
    items: Seq<AppliedItem>,
    continuation: Option<String>,
)
    requires
        run.wf(),
        run.phase is PullUnread,
    ensures
        run.after_unread(items, continuation).tally.cut_off <==> leads_on(continuation)
            && run.phase->page == STREAM_PAGE_LIMIT,
{
}

/// Queued changes are pushed before anything is pulled, and on FreshRSS
/// queued feed changes are pushed before the subscriptions are pulled, so
/// that a local deletion is not undone: a history that has come to pulling
/// subscriptions has passed through both pushes.
pub proof fn law_pushes_come_before_pulls(provider: Provider, events: Seq<RunEvent>)
    requires
        all_countable(RunView::start(provider), events),
        after_events(RunView::start(provider), events).phase is PullSubscriptions,
    ensures
        exists|k: int|
            0 <= k < events.len() && #[trigger] events[k] is EditsPushed && after_events(
                RunView::start(provider),
                events.take(k),
            ).phase is PushEdits,
        provider == Provider::FreshRss ==> exists|k: int|
            0 <= k < events.len() && #[trigger] events[k] is FeedsPushed && after_events(
                RunView::start(provider),
                events.take(k),
            ).phase is PushFeeds,
    decreases events.len(),
{
    let start = RunView::start(provider);
    if events.len() > 0 {
        let n = events.len() - 1;
        let before = after_events(start, events.drop_last());
        law_runs_stay_well_formed(provider, events.drop_last());
        assert(events.take(n) =~= events.drop_last());
        assert(events[n] == events.last());
        if before.phase is PullSubscriptions {
            law_pushes_come_before_pulls(provider, events.drop_last());
            lemma_earlier_event(provider, events);
        } else if before.phase is PushFeeds {
            lemma_feeds_follow_edits(provider, events.drop_last());
            lemma_earlier_event(provider, events);
        }
    }
}

/// What stands in a history without its last event stands in the history.
proof fn lemma_earlier_event(provider: Provider, events: Seq<RunEvent>)
    requires
        events.len() > 0,
    ensures
        forall|k: int|
            0 <= k < events.drop_last().len() ==> #[trigger] events.drop_last()[k] == events[k]
                && events.drop_last().take(k) == events.take(k),
{
    assert forall|k: int| 0 <= k < events.drop_last().len() implies #[trigger] events.drop_last()[k]
        == events[k] && events.drop_last().take(k) == events.take(k) by {
        assert(events.drop_last().take(k) =~= events.take(k));
    }
}

proof fn lemma_feeds_follow_edits(provider: Provider, events: Seq<RunEvent>)
    requires
        all_countable(RunView::start(provider), events),
        after_events(RunView::start(provider), events).phase is PushFeeds,
    ensures
        exists|k: int|
            0 <= k < events.len() && #[trigger] events[k] is EditsPushed && after_events(
                RunView::start(provider),
                events.take(k),
            ).phase is PushEdits,
    decreases events.len(),
{
    let start = RunView::start(provider);
    if events.len() > 0 {
        let n = events.len() - 1;
        let before = after_events(start, events.drop_last());
        law_runs_stay_well_formed(provider, events.drop_last());
        assert(events.take(n) =~= events.drop_last());
        assert(events[n] == events.last());
        if before.phase is PushFeeds {
            lemma_feeds_follow_edits(provider, events.drop_last());
            lemma_earlier_event(provider, events);
        }
    }
}

/// A second push happens exactly where an item of the unread stream or a
/// recent item made a change pushable.
pub proof fn law_second_push_only_when_needed(run: RunView, items: Seq<AppliedItem>)
    requires
        run.wf(),
        run.phase is PullRecent,
    ensures
        run.after_recent(items).phase is PushAgain <==> run.gained || count(items, Mark::Gained)
            > 0,
{
}

/// Everything is marked as read only on FreshRSS, and only where the unread
/// stream was read to its end, every id in it was understood, the server
/// still counts exactly the unread items of the stream, every one of them
/// was read locally and reported, and none was imported or skipped; the item
/// up to which everything is marked is then the largest unread one.
pub proof fn law_mark_all_is_safe(provider: Provider, events: Seq<RunEvent>, older_than: u64)
    requires
        all_countable(RunView::start(provider), events),
        after_events(RunView::start(provider), events).phase == (RunPhase::MarkAll { older_than }),
    ensures
        ({
            let run = after_events(RunView::start(provider), events);
            &&& provider == Provider::FreshRss
            &&& run.tally.without_number == 0
            &&& !run.tally.cut_off
            &&& run.remote_unread == run.tally.unread
            &&& run.tally.queued == run.tally.unread
            &&& run.tally.unread > 0
            &&& run.tally.imported == 0
            &&& run.tally.skipped() == 0
            &&& run.tally.largest == Some(older_than)
        }),
{
    law_runs_stay_well_formed(provider, events);
}

/// The largest number of a page is that of an unread item on it, and no
/// unread item on it has a larger one.
pub proof fn law_largest_number_is_the_maximum(page: Seq<AppliedItem>, i: int)
    requires
        0 <= i < page.len(),
        !page[i].0.read(),
        freshrss::item_number(page[i].0.id@) is Some,
    ensures
        largest_number(page) is Some,
        largest_number(page)->0 >= freshrss::item_number(page[i].0.id@)->0,
        exists|k: int|
            0 <= k < page.len() && !(#[trigger] page[k]).0.read() && freshrss::item_number(
                page[k].0.id@,
            ) == largest_number(page),
    decreases page.len(),
{
    let rest = page.drop_last();
    if i < rest.len() {
        law_largest_number_is_the_maximum(rest, i);
        let k = choose|k: int|
            0 <= k < rest.len() && !(#[trigger] rest[k]).0.read() && freshrss::item_number(
                rest[k].0.id@,
            ) == largest_number(rest);
        assert(page[k] == rest[k]);
    } else {
        if largest_number(rest) is Some {
            lemma_largest_is_there(rest);
            let k = choose|k: int|
                0 <= k < rest.len() && !(#[trigger] rest[k]).0.read() && freshrss::item_number(
                    rest[k].0.id@,
                ) == largest_number(rest);
            assert(page[k] == rest[k]);
        }
    }
    assert(page[page.len() - 1] == page.last());
}

proof fn lemma_largest_is_there(page: Seq<AppliedItem>)
    requires
        largest_number(page) is Some,
    ensures
        exists|k: int|
            0 <= k < page.len() && !(#[trigger] page[k]).0.read() && freshrss::item_number(
                page[k].0.id@,
            ) == largest_number(page),
    decreases page.len(),
{
    let rest = page.drop_last();
    assert(page[page.len() - 1] == page.last());
    if largest_number(rest) is Some {
        lemma_largest_is_there(rest);
        let k = choose|k: int|
            0 <= k < rest.len() && !(#[trigger] rest[k]).0.read() && freshrss::item_number(
                rest[k].0.id@,
            ) == largest_number(rest);
        assert(page[k] == rest[k]);
    }
}

proof fn lemma_count_joined(a: Seq<AppliedItem>, b: Seq<AppliedItem>, mark: Mark)
    ensures
        count(a + b, mark) == count(a, mark) + count(b, mark),
    decreases b.len(),
{
    if b.len() == 0 {
        assert(a + b =~= a);
    } else {
        assert((a + b).drop_last() =~= a + b.drop_last());
        lemma_count_joined(a, b.drop_last(), mark);
    }
}

proof fn lemma_largest_joined(a: Seq<AppliedItem>, b: Seq<AppliedItem>)
    ensures
        largest_number(a + b) == larger(largest_number(a), largest_number(b)),
    decreases b.len(),
{
    if b.len() == 0 {
        assert(a + b =~= a);
    } else {
        assert((a + b).drop_last() =~= a + b.drop_last());
        lemma_largest_joined(a, b.drop_last());
    }
}

/// Adding two pages one after the other is adding them as one.
proof fn lemma_plus_joined(
    tally: UnreadTally,
    provider: Provider,
    a: Seq<AppliedItem>,
    b: Seq<AppliedItem>,
)
    requires
        tally.wf(),
        tally.seen + a.len() + b.len() <= usize::MAX,
    ensures
        tally.plus(provider, a).plus(provider, b) == tally.plus(provider, a + b),
{
    lemma_counts(a);
    lemma_counts(b);
    lemma_counts(a + b);
    lemma_count_joined(a, b, Mark::Imported);
    lemma_count_joined(a, b, Mark::MatchedUnread);
    lemma_count_joined(a, b, Mark::NoStream);
    lemma_count_joined(a, b, Mark::NoFeed);
    lemma_count_joined(a, b, Mark::NoIdentity);
    lemma_count_joined(a, b, Mark::Unread);
    lemma_count_joined(a, b, Mark::QueuedRead);
    lemma_count_joined(a, b, Mark::UnreadWithoutNumber);
    lemma_largest_joined(a, b);
}

/// The items of the unread stream that a history took over, in their order.
pub open spec fn unread_stream(run: RunView, events: Seq<RunEvent>) -> Seq<AppliedItem>
    decreases events.len(),
{
    if events.len() == 0 {
        Seq::empty()
    } else {
        let earlier = unread_stream(run, events.drop_last());
        match events.last() {
            RunEvent::UnreadPulled(items, _) if after_events(run, events.drop_last()).phase
                is PullUnread => earlier + items,
            _ => earlier,
        }
    }
}

/// The tally of a synchronisation is that of the whole unread stream that it
/// took over, however it was cut into pages.
pub proof fn law_tally_is_of_the_whole_stream(provider: Provider, events: Seq<RunEvent>)
    requires
        all_countable(RunView::start(provider), events),
    ensures
        ({
            let start = RunView::start(provider);
            let run = after_events(start, events);
            let stream = unread_stream(start, events);
            &&& run.tally.seen == stream.len()
            &&& run.tally == (UnreadTally {
                cut_off: run.tally.cut_off,
                ..UnreadTally::zero().plus(provider, stream)
            })
        }),
    decreases events.len(),
{
    let start = RunView::start(provider);
    if events.len() == 0 {
        assert(UnreadTally::zero().plus(provider, Seq::empty()) == UnreadTally::zero());
    } else {
        law_tally_is_of_the_whole_stream(provider, events.drop_last());
        law_runs_stay_well_formed(provider, events.drop_last());
        let before = after_events(start, events.drop_last());
        let earlier = unread_stream(start, events.drop_last());
        match events.last() {
            RunEvent::UnreadPulled(items, _) => {
                if before.phase is PullUnread {
                    lemma_plus_joined(UnreadTally::zero(), provider, earlier, items);
                }
            },
            _ => {},
        }
    }
}

/// The recent items that a history took over.
pub open spec fn recent_items(run: RunView, events: Seq<RunEvent>) -> Seq<AppliedItem>
    decreases events.len(),
{
    if events.len() == 0 {
        Seq::empty()
    } else {
        let earlier = recent_items(run, events.drop_last());
        match events.last() {
            RunEvent::RecentPulled(items) if after_events(run, events.drop_last()).phase
                is PullRecent => earlier + items,
            _ => earlier,
        }
    }
}

/// Whether a history pushed queued changes a second time.
pub open spec fn pushed_again(run: RunView, events: Seq<RunEvent>) -> bool
    decreases events.len(),
{
    &&& events.len() > 0
    &&& pushed_again(run, events.drop_last()) || (events.last() is EditsPushed && after_events(
        run,
        events.drop_last(),
    ).phase is PushAgain)
}

proof fn lemma_gained(provider: Provider, events: Seq<RunEvent>)
    requires
        all_countable(RunView::start(provider), events),
    ensures
        ({
            let start = RunView::start(provider);
            let run = after_events(start, events);
            &&& run.gained <==> count(unread_stream(start, events), Mark::Gained) + count(
                recent_items(start, events),
                Mark::Gained,
            ) > 0
            &&& pushed_again(start, events) <==> run.gained && rank(run.phase) > rank(
                RunPhase::PushAgain,
            )
        }),
    decreases events.len(),
{
    let start = RunView::start(provider);
    if events.len() > 0 {
        lemma_gained(provider, events.drop_last());
        law_runs_stay_well_formed(provider, events.drop_last());
        let before = after_events(start, events.drop_last());
        law_phases_come_in_order(before, events.last());
        match events.last() {
            RunEvent::UnreadPulled(items, _) => {
                lemma_count_joined(
                    unread_stream(start, events.drop_last()),
                    items,
                    Mark::Gained,
                );
            },
            RunEvent::RecentPulled(items) => {
                lemma_count_joined(recent_items(start, events.drop_last()), items, Mark::Gained);
            },
            _ => {},
        }
    }
}

/// A change that can be pushed because its article got its remote id, or that
/// was queued for a remote item, reaches the server in the same
/// synchronisation: one that is over has pushed a second time exactly where
/// an item of the unread stream or a recent item made a change pushable.
pub proof fn law_gained_changes_are_pushed(provider: Provider, events: Seq<RunEvent>)
    requires
        all_countable(RunView::start(provider), events),
        after_events(RunView::start(provider), events).phase is Over,
    ensures
        ({
            let start = RunView::start(provider);
            pushed_again(start, events) <==> count(unread_stream(start, events), Mark::Gained)
                + count(recent_items(start, events), Mark::Gained) > 0
        }),
{
    lemma_gained(provider, events);
}

proof fn lemma_no_mark(page: Seq<AppliedItem>, mark: Mark, i: int)
    requires
        0 <= i < page.len(),
        count(page, mark) == 0,
    ensures
        !bears(mark, page[i]),
    decreases page.len(),
{
    if i < page.len() - 1 {
        lemma_no_mark(page.drop_last(), mark, i);
        assert(page.drop_last()[i] == page[i]);
    }
}

/// Where everything is marked as read up to an item, no unread item of the
/// stream lies beyond it, and each of them has a number.
pub proof fn law_mark_all_covers_the_stream(
    provider: Provider,
    events: Seq<RunEvent>,
    older_than: u64,
    i: int,
)
    requires
        all_countable(RunView::start(provider), events),
        after_events(RunView::start(provider), events).phase == (RunPhase::MarkAll { older_than }),
        0 <= i < unread_stream(RunView::start(provider), events).len(),
        !unread_stream(RunView::start(provider), events)[i].0.read(),
    ensures
        ({
            let item = unread_stream(RunView::start(provider), events)[i].0;
            freshrss::item_number(item.id@) matches Some(n) && n <= older_than
        }),
{
    let start = RunView::start(provider);
    let stream = unread_stream(start, events);
    law_mark_all_is_safe(provider, events, older_than);
    law_tally_is_of_the_whole_stream(provider, events);
    lemma_counts(stream);
    lemma_no_mark(stream, Mark::UnreadWithoutNumber, i);
    law_largest_number_is_the_maximum(stream, i);
}

/// Whether what became of each item fits it, as it does where the items were
/// applied one by one.
pub open spec fn all_plausible(items: Seq<AppliedItem>) -> bool {
    forall|k: int| 0 <= k < items.len() ==> apply::plausible((#[trigger] items[k]).0, items[k].1)
}

/// Whether what became of an item is how an application of it ended, whatever
/// the store answered.
pub open spec fn was_applied(it: AppliedItem) -> bool {
    exists|start: ApplyView, events: Seq<ApplyEvent>|
        start == ApplyView::start(it.0, start.feeds, start.pending, start.import)
            && (#[trigger] apply::after_events(start, events)).step == (ApplyStep::Over {
            applied: it.1,
        })
}

/// What became of items that were applied fits them.
pub proof fn law_applied_items_are_plausible(items: Seq<AppliedItem>)
    requires
        forall|k: int| 0 <= k < items.len() ==> was_applied(#[trigger] items[k]),
    ensures
        all_plausible(items),
{
    assert forall|k: int| 0 <= k < items.len() implies apply::plausible(
        (#[trigger] items[k]).0,
        items[k].1,
    ) by {
        assert(was_applied(items[k]));
        let (start, events) = choose|start: ApplyView, events: Seq<ApplyEvent>|
            start == ApplyView::start(items[k].0, start.feeds, start.pending, start.import)
                && (#[trigger] apply::after_events(start, events)).step == (ApplyStep::Over {
                applied: items[k].1,
            });
        assert(start.item == items[k].0);
        apply::law_outcomes_fit_the_item(start, events);
    }
}

proof fn lemma_queued_are_unread(page: Seq<AppliedItem>, i: int)
    requires
        0 <= i < page.len(),
        all_plausible(page),
    ensures
        count(page, Mark::QueuedRead) <= count(page, Mark::Unread),
        bears(Mark::Unread, page[i]) && !bears(Mark::QueuedRead, page[i]) ==> count(
            page,
            Mark::QueuedRead,
        ) < count(page, Mark::Unread),
    decreases page.len(),
{
    let rest = page.drop_last();
    assert forall|k: int| 0 <= k < rest.len() implies apply::plausible(
        (#[trigger] rest[k]).0,
        rest[k].1,
    ) by {
        assert(rest[k] == page[k]);
    }
    assert(page[page.len() - 1] == page.last());
    assert(apply::plausible(page[page.len() - 1].0, page[page.len() - 1].1));
    if i < rest.len() {
        lemma_queued_are_unread(rest, i);
        assert(rest[i] == page[i]);
    } else if rest.len() > 0 {
        lemma_queued_are_unread(rest, 0);
    }
}

/// Where everything is marked as read, every unread item of the stream had a
/// local article that was read.
pub proof fn law_mark_all_spares_the_unread(
    provider: Provider,
    events: Seq<RunEvent>,
    older_than: u64,
    i: int,
)
    requires
        all_countable(RunView::start(provider), events),
        after_events(RunView::start(provider), events).phase == (RunPhase::MarkAll { older_than }),
        all_plausible(unread_stream(RunView::start(provider), events)),
        0 <= i < unread_stream(RunView::start(provider), events).len(),
        !unread_stream(RunView::start(provider), events)[i].0.read(),
    ensures
        unread_stream(RunView::start(provider), events)[i].1.queued_local_read_push,
{
    let stream = unread_stream(RunView::start(provider), events);
    law_mark_all_is_safe(provider, events, older_than);
    law_tally_is_of_the_whole_stream(provider, events);
    lemma_counts(stream);
    lemma_queued_are_unread(stream, i);
}

proof fn lemma_counted_are_unread(page: Seq<AppliedItem>)
    requires
        all_plausible(page),
    ensures
        count(page, Mark::Imported) + count(page, Mark::MatchedUnread) + count(page, Mark::NoStream)
            + count(page, Mark::NoFeed) + count(page, Mark::NoIdentity) <= count(
            page,
            Mark::Unread,
        ),
    decreases page.len(),
{
    if page.len() > 0 {
        let rest = page.drop_last();
        assert forall|k: int| 0 <= k < rest.len() implies apply::plausible(
            (#[trigger] rest[k]).0,
            rest[k].1,
        ) by {
            assert(rest[k] == page[k]);
        }
        assert(page[page.len() - 1] == page.last());
        assert(apply::plausible(page[page.len() - 1].0, page[page.len() - 1].1));
        lemma_counted_are_unread(rest);
    }
}

proof fn lemma_figures(provider: Provider, events: Seq<RunEvent>)
    requires
        all_countable(RunView::start(provider), events),
    ensures
        ({
            let start = RunView::start(provider);
            let run = after_events(start, events);
            &&& run.reconciled == count(recent_items(start, events), Mark::Changed)
            &&& provider == Provider::Miniflux ==> run.remote_unread == if rank(run.phase) < rank(
                RunPhase::PullRecent,
            ) {
                0
            } else {
                run.tally.unread
            }
        }),
    decreases events.len(),
{
    let start = RunView::start(provider);
    if events.len() > 0 {
        lemma_figures(provider, events.drop_last());
        law_runs_stay_well_formed(provider, events.drop_last());
        let before = after_events(start, events.drop_last());
        law_phases_come_in_order(before, events.last());
        match events.last() {
            RunEvent::RecentPulled(items) => {
                lemma_counts(items);
                lemma_count_joined(recent_items(start, events.drop_last()), items, Mark::Changed);
            },
            _ => {},
        }
    }
}

/// The figures of a synchronisation add up: the skipped items are those of
/// the three kinds; no item of the unread stream is counted twice, and where
/// what became of the items fits them, none but the unread ones is counted;
/// the reconciled articles are the recent items that changed their articles;
/// and on Miniflux, which gives no count, the unread items of the server are
/// in the end those of the unread stream.
pub proof fn law_figures_add_up(provider: Provider, events: Seq<RunEvent>)
    requires
        all_countable(RunView::start(provider), events),
    ensures
        ({
            let start = RunView::start(provider);
            let run = after_events(start, events);
            let stats = run.stats();
            let stream = unread_stream(start, events);
            let recent = recent_items(start, events);
            let counted = stats.imported_articles + stats.matched_unread_articles
                + stats.skipped_unread_articles;
            &&& stats.skipped_unread_articles == stats.skipped_unread_no_stream
                + stats.skipped_unread_no_feed + stats.skipped_unread_no_identity
            &&& counted <= stream.len()
            &&& all_plausible(stream) ==> counted <= count(stream, Mark::Unread)
            &&& stats.reconciled_articles == count(recent, Mark::Changed)
            &&& stats.reconciled_articles <= recent.len()
            &&& provider == Provider::Miniflux && run.phase is Over
                ==> stats.remote_unread_articles == count(stream, Mark::Unread)
        }),
{
    let start = RunView::start(provider);
    let stream = unread_stream(start, events);
    law_runs_stay_well_formed(provider, events);
    law_tally_is_of_the_whole_stream(provider, events);
    lemma_counts(stream);
    lemma_counts(recent_items(start, events));
    lemma_figures(provider, events);
    if all_plausible(stream) {
        lemma_counted_are_unread(stream);
    }
}

/// A synchronisation asks for the subscriptions, for the pages of the unread
/// stream one after the other, and for the first page of the whole reading
/// list, all with the session.
pub proof fn law_requests_of_a_run(run: RunView, session: SessionView)
    ensures
        ({
            let api = session.base + "/reader/api/0/"@;
            &&& run.asks(session) matches RunActionView::PullSubscriptions(r) ==> r.method
                == Method::Get && r.url == api + "subscription/list?output=json"@
                && r.authorization == Some("GoogleLogin auth="@ + session.auth)
            &&& run.asks(session) matches RunActionView::CountUnread(r) ==> r.method == Method::Get
                && r.url == api + "unread-count?output=json"@ && r.authorization == Some(
                "GoogleLogin auth="@ + session.auth,
            )
            &&& run.asks(session) matches RunActionView::PullUnread(r) ==> r.method == Method::Get
                && r.url == api + http::contents_path(
                run.phase->continuation.deep_view(),
                true,
            ) && r.authorization == Some("GoogleLogin auth="@ + session.auth)
            &&& run.asks(session) matches RunActionView::PullRecent(r) ==> r.method == Method::Get
                && r.url == api + http::contents_path(None, false) && r.authorization == Some(
                "GoogleLogin auth="@ + session.auth,
            )
            &&& run.asks(session) matches RunActionView::MarkAll(r) ==> r
                == freshrss::mark_all_request(session, run.phase->older_than)
        }),
{
}

/// A synchronisation with FreshRSS pushes edits, pushes feed changes, takes
/// over the subscriptions, counts the unread items and then takes over the
/// first page of the unread stream. One with Miniflux neither pushes feed
/// changes nor counts.
pub proof fn law_how_a_run_begins(
    provider: Provider,
    session: SessionView,
    more: bool,
    counted: Option<usize>,
)
    ensures
        ({
            let start = RunView::start(provider);
            let pushed = start.after_edits();
            let ready = if provider == Provider::FreshRss {
                pushed.after_feeds(more)
            } else {
                pushed
            };
            let subscribed = ready.after_subscriptions();
            let unread = if provider == Provider::FreshRss {
                subscribed.after_count(counted)
            } else {
                subscribed
            };
            &&& start.provider == provider
            &&& start.asks(session) is PushEdits
            &&& provider == Provider::FreshRss ==> pushed.asks(session) is PushFeeds
            &&& ready.asks(session) is PullSubscriptions
            &&& provider == Provider::FreshRss ==> subscribed.asks(session) is CountUnread
            &&& unread.asks(session) is PullUnread
            &&& unread.phase->page == 1 && unread.phase->continuation is None
            &&& provider == Provider::FreshRss ==> unread.schedule_more == more
            &&& provider == Provider::Miniflux ==> !unread.schedule_more
            &&& provider == Provider::FreshRss ==> unread.remote_unread == match counted {
                Some(n) => n,
                None => 0,
            }
            &&& provider == Provider::Miniflux ==> unread.remote_unread == 0
        }),
{
}

/// A page of the unread stream is followed by the page that its continuation
/// leads to, up to fifty pages; without a continuation, or after as many
/// pages, the recent items follow.
pub proof fn law_pages_follow_their_continuation(
    run: RunView,
    session: SessionView,
    items: Seq<AppliedItem>,
    continuation: Option<String>,
)
    requires
        run.wf(),
        run.phase is PullUnread,
    ensures
        ({
            let next = run.after_unread(items, continuation);
            let on = continuation matches Some(c) && c@.len() > 0;
            &&& on && run.phase->page < 50 ==> next.asks(session) is PullUnread
                && next.phase->continuation == continuation && next.phase->page == run.phase->page
                + 1 && next.remote_unread == run.remote_unread
            &&& !on || run.phase->page == 50 ==> next.asks(session) is PullRecent
            &&& !on || run.phase->page == 50 ==> next.remote_unread == if run.remote_unread == 0 {
                next.tally.unread
            } else {
                run.remote_unread
            }
            &&& next.gained <==> run.gained || exists|i: int|
                0 <= i < items.len() && (#[trigger] items[i]).1.pending_gained_remote_id
        }),
{
    lemma_count_is_exists(items, Mark::Gained);
    if exists|i: int| 0 <= i < items.len() && (#[trigger] items[i]).1.pending_gained_remote_id {
        let i = choose|i: int|
            0 <= i < items.len() && (#[trigger] items[i]).1.pending_gained_remote_id;
        assert(bears(Mark::Gained, items[i]));
    }
}

proof fn lemma_count_is_exists(page: Seq<AppliedItem>, mark: Mark)
    ensures
        count(page, mark) > 0 <==> exists|i: int| 0 <= i < page.len() && bears(mark, #[trigger] page[i]),
    decreases page.len(),
{
    if page.len() > 0 {
        let rest = page.drop_last();
        lemma_count_is_exists(rest, mark);
        assert(page[page.len() - 1] == page.last());
        if exists|i: int| 0 <= i < rest.len() && bears(mark, #[trigger] rest[i]) {
            let i = choose|i: int| 0 <= i < rest.len() && bears(mark, #[trigger] rest[i]);
            assert(bears(mark, page[i]));
        }
        if exists|i: int| 0 <= i < page.len() && bears(mark, #[trigger] page[i]) {
            let i = choose|i: int| 0 <= i < page.len() && bears(mark, #[trigger] page[i]);
            if i < rest.len() {
                assert(bears(mark, rest[i]));
            }
        }
    }
}

/// After the recent items, what can be pushed now is pushed, and FreshRSS
/// counts once more; where nothing can be pushed neither happens. A later
/// count replaces the earlier one, and one that fails leaves it.
pub proof fn law_how_a_run_goes_on_after_the_recent_items(
    run: RunView,
    session: SessionView,
    items: Seq<AppliedItem>,
    counted: Option<usize>,
)
    requires
        run.wf(),
        run.phase is PullRecent,
    ensures
        ({
            let next = run.after_recent(items);
            let pushed = next.after_edits();
            let recounted = pushed.after_count(counted);
            let again = run.gained || exists|i: int|
                0 <= i < items.len() && (#[trigger] items[i]).1.pending_gained_remote_id;
            &&& next.asks(session) is PushEdits <==> again
            &&& again && run.provider == Provider::FreshRss ==> pushed.asks(session)
                is CountUnread && recounted.remote_unread == match counted {
                Some(n) => n,
                None => run.remote_unread,
            }
            &&& again && run.provider == Provider::Miniflux ==> pushed.asks(session) is End
            &&& !again ==> next.asks(session) is End || next.asks(session) is MarkAll
        }),
{
    lemma_count_is_exists(items, Mark::Gained);
    if exists|i: int| 0 <= i < items.len() && (#[trigger] items[i]).1.pending_gained_remote_id {
        let i = choose|i: int|
            0 <= i < items.len() && (#[trigger] items[i]).1.pending_gained_remote_id;
        assert(bears(Mark::Gained, items[i]));
    }
}

/// Where FreshRSS still counts as unread exactly the items of a stream that
/// was read to its end, each of which has a number, was read locally and was
/// reported, and nothing was imported or skipped, everything is marked as read
/// up to the largest of those items; where any of that is wanting, nothing is.
pub proof fn law_when_everything_is_marked(run: RunView, session: SessionView)
    requires
        run.tally.wf(),
    ensures
        ({
            let t = run.tally;
            let closed = run.closing();
            let due = run.provider == Provider::FreshRss && t.without_number == 0 && !t.cut_off
                && run.remote_unread > 0 && run.remote_unread == t.unread && t.queued == t.unread
                && t.imported == 0 && t.no_stream == 0 && t.no_feed == 0 && t.no_identity == 0;
            &&& due && t.largest is Some ==> closed.asks(session) is MarkAll
                && closed.phase->older_than == t.largest->0
            &&& !due || t.largest is None ==> closed.asks(session) is End
        }),
{
}

/// Once marking was accepted the unread items are counted a last time, which
/// ends the synchronisation; a refusal ends it at once with the last count.
pub proof fn law_how_marking_ends(run: RunView, session: SessionView, counted: Option<usize>)
    requires
        run.phase is MarkAll,
    ensures
        ({
            let accepted = run.after_mark(true);
            let refused = run.after_mark(false);
            &&& accepted.asks(session) is CountUnread
            &&& accepted.after_count(counted).asks(session) is End
            &&& accepted.after_count(counted).remote_unread == match counted {
                Some(n) => n,
                None => run.remote_unread,
            }
            &&& refused.asks(session) is End && refused.remote_unread == run.remote_unread
        }),
{
}

/// The items of a page for which something holds, counted.
pub open spec fn number_of(page: Seq<AppliedItem>, test: spec_fn(AppliedItem) -> bool) -> nat
    decreases page.len(),
{
    if page.len() == 0 {
        0
    } else if test(page[0]) {
        1 + number_of(page.skip(1), test)
    } else {
        number_of(page.skip(1), test)
    }
}

proof fn lemma_number_of(page: Seq<AppliedItem>, mark: Mark, test: spec_fn(AppliedItem) -> bool)
    requires
        forall|i: int| 0 <= i < page.len() ==> bears(mark, #[trigger] page[i]) == test(page[i]),
    ensures
        count(page, mark) == number_of(page, test),
    decreases page.len(),
{
    if page.len() > 0 {
        let first = seq![page[0]];
        let rest = page.skip(1);
        assert(page =~= first + rest);
        lemma_count_joined(first, rest, mark);
        assert(first.drop_last() =~= Seq::empty());
        reveal_with_fuel(count, 2);
        assert(bears(mark, page[0]) == test(page[0]));
        assert forall|i: int| 0 <= i < rest.len() implies bears(mark, #[trigger] rest[i]) == test(
            rest[i],
        ) by {
            assert(rest[i] == page[i + 1]);
        }
        lemma_number_of(rest, mark, test);
    }
}

/// The figures of a synchronisation whose items were applied one by one: the
/// imported items of the unread stream, those that are unread and have a local
/// article, those that were skipped for each reason, and the recent items
/// whose articles changed.
pub proof fn law_figures_are_those_of_the_items(provider: Provider, events: Seq<RunEvent>)
    requires
        all_countable(RunView::start(provider), events),
        all_plausible(unread_stream(RunView::start(provider), events)),
    ensures
        ({
            let start = RunView::start(provider);
            let stream = unread_stream(start, events);
            let recent = recent_items(start, events);
            let run = after_events(start, events);
            let stats = run.stats();
            &&& stats.imported_articles == number_of(stream, |it: AppliedItem| it.1.imported)
            &&& stats.matched_unread_articles == number_of(
                stream,
                |it: AppliedItem| !it.0.read() && it.1.matched,
            )
            &&& stats.skipped_unread_no_stream == number_of(
                stream,
                |it: AppliedItem| it.1.skipped_no_stream,
            )
            &&& stats.skipped_unread_no_feed == number_of(
                stream,
                |it: AppliedItem| it.1.skipped_no_feed,
            )
            &&& stats.skipped_unread_no_identity == number_of(
                stream,
                |it: AppliedItem| it.1.skipped_no_identity,
            )
            &&& stats.skipped_unread_articles == stats.skipped_unread_no_stream
                + stats.skipped_unread_no_feed + stats.skipped_unread_no_identity
            &&& stats.reconciled_articles == number_of(
                recent,
                |it: AppliedItem| it.1.state_changed,
            )
            &&& stats.remote_unread_articles == run.remote_unread
            &&& run.tally.unread == number_of(stream, |it: AppliedItem| !it.0.read())
            &&& run.tally.queued == number_of(
                stream,
                |it: AppliedItem| it.1.queued_local_read_push,
            )
            &&& provider == Provider::FreshRss ==> run.tally.without_number == number_of(
                stream,
                |it: AppliedItem| !it.0.read() && freshrss::item_number(it.0.id@) is None,
            )
        }),
{
    let start = RunView::start(provider);
    let stream = unread_stream(start, events);
    let recent = recent_items(start, events);
    law_runs_stay_well_formed(provider, events);
    law_tally_is_of_the_whole_stream(provider, events);
    lemma_counts(stream);
    lemma_counts(recent);
    lemma_figures(provider, events);
    assert forall|i: int| 0 <= i < stream.len() implies apply::plausible(
        (#[trigger] stream[i]).0,
        stream[i].1,
    ) by {
    }
    lemma_number_of(stream, Mark::Imported, |it: AppliedItem| it.1.imported);
    lemma_number_of(
        stream,
        Mark::MatchedUnread,
        |it: AppliedItem| !it.0.read() && it.1.matched,
    );
    lemma_number_of(stream, Mark::NoStream, |it: AppliedItem| it.1.skipped_no_stream);
    lemma_number_of(stream, Mark::NoFeed, |it: AppliedItem| it.1.skipped_no_feed);
    lemma_number_of(stream, Mark::NoIdentity, |it: AppliedItem| it.1.skipped_no_identity);
    lemma_number_of(recent, Mark::Changed, |it: AppliedItem| it.1.state_changed);
    lemma_number_of(stream, Mark::Unread, |it: AppliedItem| !it.0.read());
    lemma_number_of(stream, Mark::QueuedRead, |it: AppliedItem| it.1.queued_local_read_push);
    lemma_number_of(
        stream,
        Mark::UnreadWithoutNumber,
        |it: AppliedItem| !it.0.read() && freshrss::item_number(it.0.id@) is None,
    );
}

/// Whether a history found that more feed changes wait than were pushed.
pub open spec fn more_feeds_wait(run: RunView, events: Seq<RunEvent>) -> bool
    decreases events.len(),
{
    &&& events.len() > 0
    &&& more_feeds_wait(run, events.drop_last()) || (events.last() == RunEvent::FeedsPushed(true)
        && after_events(run, events.drop_last()).phase is PushFeeds)
}

proof fn lemma_more_feeds(provider: Provider, events: Seq<RunEvent>)
    requires
        all_countable(RunView::start(provider), events),
    ensures
        ({
            let run = after_events(RunView::start(provider), events);
            &&& run.schedule_more <==> more_feeds_wait(RunView::start(provider), events)
            &&& rank(run.phase) <= rank(RunPhase::PushFeeds) ==> !run.schedule_more
        }),
    decreases events.len(),
{
    if events.len() > 0 {
        lemma_more_feeds(provider, events.drop_last());
        law_runs_stay_well_formed(provider, events.drop_last());
        law_phases_come_in_order(
            after_events(RunView::start(provider), events.drop_last()),
            events.last(),
        );
    }
}

/// Another synchronisation is wanted exactly where the push of feed changes
/// found that more of them wait.
pub proof fn law_another_run_is_wanted_for_waiting_feeds(
    provider: Provider,
    events: Seq<RunEvent>,
)
    requires
        all_countable(RunView::start(provider), events),
    ensures
        after_events(RunView::start(provider), events).schedule_more <==> more_feeds_wait(
            RunView::start(provider),
            events,
        ),
{
    lemma_more_feeds(provider, events);
}

/// A synchronisation takes only the answer that it asked for: any other leaves
/// it as it is.
pub proof fn law_unasked_answers_leave_a_run(
    run: RunView,
    session: SessionView,
    items: Seq<AppliedItem>,
    continuation: Option<String>,
    counted: Option<usize>,
    yes: bool,
)
    ensures
        !(run.asks(session) is PushEdits) ==> run.after_edits() == run,
        !(run.asks(session) is PushFeeds) ==> run.after_feeds(yes) == run,
        !(run.asks(session) is PullSubscriptions) ==> run.after_subscriptions() == run,
        !(run.asks(session) is CountUnread) ==> run.after_count(counted) == run,
        !(run.asks(session) is PullUnread) ==> run.after_unread(items, continuation) == run,
        !(run.asks(session) is PullRecent) ==> run.after_recent(items) == run,
        !(run.asks(session) is MarkAll) ==> run.after_mark(yes) == run,
        run.asks(session) is End <==> run.phase is Over,
{
}

/// A synchronisation that is to count fails with the count exactly where it
/// has not taken over anything yet; after the unread stream it goes on.
pub proof fn law_only_the_first_count_must_not_fail(run: RunView, session: SessionView)
    requires
        run.asks(session) is CountUnread,
    ensures
        run.goes_on_uncounted() <==> rank(run.phase) > 3,
        !run.goes_on_uncounted() <==> run.phase is CountUnread,
{
}

} // verus!
