//! Pushing queued local read and starred changes to the server.

use vstd::prelude::*;
use vstd::multiset::Multiset;
use vstd::string::*;
use crate::auto_sync;
use crate::auto_sync::{AutoSync, Tick};
use crate::http;
use crate::http::{Method, Request, RequestView, Status};
use crate::provider;
use crate::provider::{Provider, READ_TAG, STARRED_TAG};
use crate::session::{Session, SessionView};
use crate::text;

verus! {

/// A queued change: the article's `field`, read or starred, becomes `value`.
#[derive(Debug)]
pub struct SyncEntry {
    pub article_id: i64,
    pub remote_id: String,
    pub field: String,
    pub value: bool,
}

/// Whether two changes set the same field to the same value.
pub open spec fn same_change(a: SyncEntry, b: SyncEntry) -> bool {
    a.field@ == b.field@ && a.value == b.value
}

/// Whether the change of `a` is sent before that of `b`: by field, and the
/// removal of a tag before its addition.
pub open spec fn sent_before(a: SyncEntry, b: SyncEntry) -> bool {
    text::precedes(a.field@, b.field@) || (a.field@ == b.field@ && !a.value && b.value)
}

/// `s` with `e` in front of the first entry that is not sent before it.
pub open spec fn insert_entry(e: SyncEntry, s: Seq<SyncEntry>) -> Seq<SyncEntry>
    decreases s.len(),
{
    if s.len() > 0 && sent_before(s[0], e) {
        seq![s[0]] + insert_entry(e, s.skip(1))
    } else {
        seq![e] + s
    }
}

/// A queue in the order in which it is sent; entries with the same change
/// keep their order.
pub open spec fn ordered(queue: Seq<SyncEntry>) -> Seq<SyncEntry>
    decreases queue.len(),
{
    if queue.len() == 0 {
        queue
    } else {
        insert_entry(queue[0], ordered(queue.skip(1)))
    }
}

fn is_sent_before(a: &SyncEntry, b: &SyncEntry) -> (r: bool)
    ensures
        r == sent_before(*a, *b),
{
    text::before(a.field.as_str(), b.field.as_str()) || (text::same(
        a.field.as_str(),
        b.field.as_str(),
    ) && !a.value && b.value)
}

fn is_same_change(a: &SyncEntry, b: &SyncEntry) -> (r: bool)
    ensures
        r == same_change(*a, *b),
{
    text::same(a.field.as_str(), b.field.as_str()) && a.value == b.value
}

proof fn lemma_insert_at(e: SyncEntry, s: Seq<SyncEntry>, n: int)
    requires
        0 <= n <= s.len(),
        forall|i: int| 0 <= i < n ==> sent_before(#[trigger] s[i], e),
        n == s.len() || !sent_before(s[n], e),
    ensures
        insert_entry(e, s) == s.insert(n, e),
    decreases n,
{
    if n == 0 {
        assert(seq![e] + s == s.insert(0, e));
    } else {
        assert forall|i: int| 0 <= i < n - 1 implies sent_before(#[trigger] s.skip(1)[i], e) by {
            assert(s.skip(1)[i] == s[i + 1]);
        }
        lemma_insert_at(e, s.skip(1), n - 1);
        assert(seq![s[0]] + s.skip(1).insert(n - 1, e) =~= s.insert(n, e));
    }
}

fn sort_entries(queue: Vec<SyncEntry>) -> (r: Vec<SyncEntry>)
    ensures
        r@ == ordered(queue@),
{
    let ghost whole = queue@;
    let mut rest: Vec<SyncEntry> = queue;
    let mut r: Vec<SyncEntry> = Vec::new();
    assert(whole.skip(whole.len() as int) == Seq::<SyncEntry>::empty());
    while rest.len() > 0
        invariant
            rest.len() <= whole.len(),
            rest@ == whole.take(rest@.len() as int),
            r@ == ordered(whole.skip(rest@.len() as int)),
        decreases rest.len(),
    {
        let ghost n = rest@.len() as int;
        let popped: Option<SyncEntry> = rest.pop();
        match popped {
            Some(e) => {
                let mut i: usize = 0;
                while i < r.len() && is_sent_before(&r[i], &e)
                    invariant
                        i <= r.len(),
                        forall|k: int| 0 <= k < i ==> sent_before(#[trigger] r@[k], e),
                    decreases r.len() - i,
                {
                    i = i + 1;
                }
                proof {
                    lemma_insert_at(e, r@, i as int);
                    assert(whole.skip(n - 1)[0] == e);
                    assert(whole.skip(n - 1).skip(1) == whole.skip(n));
                }
                r.insert(i, e);
            },
            None => {},
        }
        assert(rest@ == whole.take(n - 1));
    }
    assert(whole.skip(0) == whole);
    r
}

/// How far the run of one change that starts a queue goes on from `n`
/// entries, up to `limit` of them.
pub open spec fn run_from(queue: Seq<SyncEntry>, limit: nat, n: nat) -> nat
    decreases queue.len() - n,
{
    if n < queue.len() && n < limit && same_change(queue[n as int], queue[0]) {
        run_from(queue, limit, n + 1)
    } else {
        n
    }
}

/// How many entries at the start of a queue go into one request: those with
/// the change of the first one, as many as one request may carry.
pub open spec fn batch_length(provider: Provider, queue: Seq<SyncEntry>) -> nat {
    run_from(
        queue,
        provider::batch_limit(provider, queue[0].field@, queue[0].value) as nat,
        1,
    )
}

proof fn lemma_run_from(queue: Seq<SyncEntry>, limit: nat, n: nat)
    requires
        1 <= n <= queue.len(),
        n <= limit,
        forall|i: int| 0 <= i < n ==> same_change(#[trigger] queue[i], queue[0]),
    ensures
        n <= run_from(queue, limit, n) <= queue.len(),
        run_from(queue, limit, n) <= limit,
        forall|i: int|
            0 <= i < run_from(queue, limit, n) ==> same_change(#[trigger] queue[i], queue[0]),
        run_from(queue, limit, n) < queue.len() && run_from(queue, limit, n) < limit
            ==> !same_change(queue[run_from(queue, limit, n) as int], queue[0]),
    decreases queue.len() - n,
{
    if n < queue.len() && n < limit && same_change(queue[n as int], queue[0]) {
        lemma_run_from(queue, limit, n + 1);
    }
}

/// A request carries at least one entry, and no more than it may; all of
/// them set the same field to the same value; and it carries as many as it
/// can.
pub proof fn law_batch_is_uniform_and_full(provider: Provider, queue: Seq<SyncEntry>)
    requires
        queue.len() > 0,
    ensures
        ({
            let n = batch_length(provider, queue) as int;
            let limit = provider::batch_limit(provider, queue[0].field@, queue[0].value);
            &&& 1 <= n <= queue.len()
            &&& n <= limit
            &&& forall|i: int| 0 <= i < n ==> same_change(#[trigger] queue[i], queue[0])
            &&& n < queue.len() && n < limit ==> !same_change(queue[n], queue[0])
        }),
{
    let limit = provider::batch_limit(provider, queue[0].field@, queue[0].value) as nat;
    lemma_run_from(queue, limit, 1);
}

/// FreshRSS never gets a mark-read request for more than five items.
pub proof fn law_freshrss_mark_read_stays_small(queue: Seq<SyncEntry>)
    requires
        queue.len() > 0,
        queue[0].field@ == "read"@,
        queue[0].value,
    ensures
        batch_length(Provider::FreshRss, queue) <= 5,
{
    law_batch_is_uniform_and_full(Provider::FreshRss, queue);
}

fn next_batch(provider: Provider, queue: &Vec<SyncEntry>) -> (r: usize)
    requires
        queue@.len() > 0,
    ensures
        r == batch_length(provider, queue@),
        1 <= r <= queue@.len(),
{
    let limit: usize = provider::edit_tag_batch_size(
        provider,
        queue[0].field.as_str(),
        queue[0].value,
    );
    let mut n: usize = 1;
    while n < queue.len() && n < limit && is_same_change(&queue[n], &queue[0])
        invariant
            1 <= n <= queue.len(),
            run_from(queue@, limit as nat, 1) == run_from(queue@, limit as nat, n as nat),
        decreases queue.len() - n,
    {
        n = n + 1;
    }
    n
}

/// The tag that a field stands for.
pub open spec fn tag_of(field: Seq<char>) -> Seq<char> {
    if field == "starred"@ {
        STARRED_TAG@
    } else {
        READ_TAG@
    }
}

/// The form of the request for a batch: the tag to add or to remove, the
/// write token, and one field for every item.
pub open spec fn edit_form(
    provider: Provider,
    token: Seq<char>,
    batch: Seq<SyncEntry>,
) -> Seq<(Seq<char>, Seq<char>)> {
    seq![
        (
            if batch[0].value {
                "a"@
            } else {
                "r"@
            },
            tag_of(batch[0].field@),
        ),
        ("T"@, token),
    ] + Seq::new(
        batch.len(),
        |i: int| ("i"@, provider::wire_item_id(provider, batch[i].remote_id@)),
    )
}

fn form_of(provider: Provider, token: &str, queue: &Vec<SyncEntry>, n: usize) -> (r: Vec<
    (String, String),
>)
    requires
        1 <= n <= queue@.len(),
    ensures
        r.deep_view() == edit_form(provider, token@, queue@.take(n as int)),
{
    let tag: &str = if text::same(queue[0].field.as_str(), "starred") {
        STARRED_TAG
    } else {
        READ_TAG
    };
    let action: &str = if queue[0].value {
        "a"
    } else {
        "r"
    };
    let mut form: Vec<(String, String)> = vec![http::field(action, tag), http::field("T", token)];
    let ghost batch = queue@.take(n as int);
    let ghost whole = edit_form(provider, token@, batch);
    assert(form.deep_view() =~= whole.take(2));
    let mut i: usize = 0;
    while i < n
        invariant
            i <= n <= queue@.len(),
            batch == queue@.take(n as int),
            whole == edit_form(provider, token@, batch),
            form.deep_view() == whole.take(i + 2),
        decreases n - i,
    {
        let id: String = provider::edit_tag_item_id(provider, queue[i].remote_id.as_str());
        let ghost before = form.deep_view();
        form.push(http::field("i", id.as_str()));
        assert(form.deep_view() =~= before.push(("i"@, id@)));
        assert(whole[i + 2] == ("i"@, id@));
        assert(whole.take(i + 3) =~= whole.take(i + 2).push(whole[i + 2]));
        i = i + 1;
    }
    assert(whole.take(n + 2) =~= whole);
    form
}

/// How far a push of queued changes has come.
#[derive(Clone, Copy, Debug, PartialEq, Eq, Structural)]
pub enum PushStep {
    /// The queue is to be drained.
    Drain,
    /// A batch is to be sent.
    Send,
    /// The changes that the server did not take are to be queued again.
    Requeue,
    /// The push is over.
    Over,
}

/// A push of queued changes, one request at a time.
#[derive(Debug)]
pub struct EditPush {
    provider: Provider,
    step: PushStep,
    remaining: Vec<SyncEntry>,
    failed: Vec<SyncEntry>,
}

/// The state of a push.
pub struct PushView {
    pub provider: Provider,
    pub step: PushStep,
    /// The changes that were not sent yet.
    pub remaining: Seq<SyncEntry>,
    /// The changes that the server did not take.
    pub failed: Seq<SyncEntry>,
}

impl View for EditPush {
    type V = PushView;

    closed spec fn view(&self) -> PushView {
        PushView {
            provider: self.provider,
            step: self.step,
            remaining: self.remaining@,
            failed: self.failed@,
        }
    }
}

/// A change that is to be queued again.
#[derive(Debug)]
pub struct Requeue {
    pub article_id: i64,
    pub field: String,
    pub value: bool,
}

/// What is queued again.
pub struct RequeueView {
    pub article_id: i64,
    pub field: Seq<char>,
    pub value: bool,
}

impl View for Requeue {
    type V = RequeueView;

    open spec fn view(&self) -> RequeueView {
        RequeueView { article_id: self.article_id, field: self.field@, value: self.value }
    }
}

/// What a push asks for next.
#[derive(Debug)]
pub enum PushAction {
    /// Take the changes whose articles have a remote id off the queue, and
    /// hand them to `AutoSync::drain` before another edit can be queued.
    DrainQueue,
    /// Send a request; `answered` takes its status, where there is one.
    Send(Request),
    /// Queue changes again; `requeued` is called afterwards.
    Requeue(Vec<Requeue>),
    /// Nothing: the push is over.
    End,
}

/// What a push asks for next.
pub enum PushActionView {
    DrainQueue,
    Send(RequestView),
    Requeue(Seq<RequeueView>),
    End,
}

impl View for PushAction {
    type V = PushActionView;

    open spec fn view(&self) -> PushActionView {
        match self {
            PushAction::DrainQueue => PushActionView::DrainQueue,
            PushAction::Send(request) => PushActionView::Send(request@),
            PushAction::Requeue(entries) => PushActionView::Requeue(
                Seq::new(entries@.len(), |i: int| entries@[i]@),
            ),
            PushAction::End => PushActionView::End,
        }
    }
}

impl PushView {
    pub open spec fn start(provider: Provider) -> PushView {
        PushView {
            provider,
            step: PushStep::Drain,
            remaining: Seq::empty(),
            failed: Seq::empty(),
        }
    }

    /// Something is left to send exactly while sending, and to queue again
    /// exactly while queueing again.
    pub open spec fn wf(self) -> bool {
        &&& self.step == PushStep::Send <==> self.remaining.len() > 0
        &&& self.step == PushStep::Requeue ==> self.failed.len() > 0
    }

    /// The batch that is sent next.
    pub open spec fn batch(self) -> Seq<SyncEntry> {
        self.remaining.take(batch_length(self.provider, self.remaining) as int)
    }

    /// What is asked for next.
    pub open spec fn asks(self, session: SessionView) -> PushActionView {
        match self.step {
            PushStep::Drain => PushActionView::DrainQueue,
            PushStep::Send => PushActionView::Send(
                session.post("edit-tag"@, edit_form(self.provider, session.token, self.batch())),
            ),
            PushStep::Requeue => PushActionView::Requeue(
                Seq::new(
                    self.failed.len(),
                    |i: int|
                        RequeueView {
                            article_id: self.failed[i].article_id,
                            field: self.failed[i].field@,
                            value: self.failed[i].value,
                        },
                ),
            ),
            PushStep::Over => PushActionView::End,
        }
    }

    /// The state after the queue was drained.
    pub open spec fn after_drain(self, queue: Seq<SyncEntry>) -> PushView {
        if self.step != PushStep::Drain {
            self
        } else if queue.len() == 0 {
            PushView { step: PushStep::Over, ..self }
        } else {
            PushView { step: PushStep::Send, remaining: ordered(queue), ..self }
        }
    }

    /// The state after a batch was sent, and taken or not.
    pub open spec fn after_send(self, taken: bool) -> PushView {
        if self.step != PushStep::Send {
            self
        } else {
            let rest = self.remaining.skip(
                batch_length(self.provider, self.remaining) as int,
            );
            let failed = if taken {
                self.failed
            } else {
                self.failed + self.batch()
            };
            PushView {
                step: if rest.len() > 0 {
                    PushStep::Send
                } else if failed.len() > 0 {
                    PushStep::Requeue
                } else {
                    PushStep::Over
                },
                remaining: rest,
                failed,
                ..self
            }
        }
    }

    /// The state after the failed changes were queued again.
    pub open spec fn after_requeue(self) -> PushView {
        if self.step == PushStep::Requeue {
            PushView { step: PushStep::Over, ..self }
        } else {
            self
        }
    }
}

/// Whether a server takes a batch: only with a success status.
pub open spec fn takes(status: Option<Status>) -> bool {
    match status {
        Some(status) => http::success(status.value()),
        None => false,
    }
}

impl EditPush {
    /// A push that begins by draining the queue.
    pub fn new(provider: Provider) -> (r: EditPush)
        ensures
            r@ == PushView::start(provider),
            r@.wf(),
    {
        EditPush { provider, step: PushStep::Drain, remaining: Vec::new(), failed: Vec::new() }
    }

    /// What is to be done next.
    pub fn action(&self, session: &Session) -> (r: PushAction)
        requires
            self@.wf(),
        ensures
            r@ == self@.asks(session@),
    {
        match self.step {
            PushStep::Drain => PushAction::DrainQueue,
            PushStep::Send => {
                let n: usize = next_batch(self.provider, &self.remaining);
                let form: Vec<(String, String)> = form_of(
                    self.provider,
                    session.token.as_str(),
                    &self.remaining,
                    n,
                );
                PushAction::Send(session.post("edit-tag", form))
            },
            PushStep::Requeue => {
                let mut entries: Vec<Requeue> = Vec::new();
                let mut i: usize = 0;
                while i < self.failed.len()
                    invariant
                        i <= self.failed.len(),
                        entries@.len() == i,
                        forall|k: int|
                            0 <= k < i ==> #[trigger] entries@[k]@ == (RequeueView {
                                article_id: self.failed@[k].article_id,
                                field: self.failed@[k].field@,
                                value: self.failed@[k].value,
                            }),
                    decreases self.failed.len() - i,
                {
                    let entry: &SyncEntry = &self.failed[i];
                    entries.push(
                        Requeue {
                            article_id: entry.article_id,
                            field: entry.field.clone(),
                            value: entry.value,
                        },
                    );
                    i = i + 1;
                }
                let r: PushAction = PushAction::Requeue(entries);
                assert(r@->Requeue_0 =~= self@.asks(session@)->Requeue_0);
                r
            },
            PushStep::Over => PushAction::End,
        }
    }

    /// Whether the queue is to be drained.
    pub fn awaits_queue(&self) -> (r: bool)
        ensures
            r == (self@.step == PushStep::Drain),
    {
        match self.step {
            PushStep::Drain => true,
            _ => false,
        }
    }

    /// Takes the changes that were on the queue.
    pub fn drained(self, queue: Vec<SyncEntry>) -> (r: EditPush)
        requires
            self@.wf(),
        ensures
            r@ == self@.after_drain(queue@),
            r@.wf(),
    {
        match self.step {
            PushStep::Drain => {
                if queue.len() == 0 {
                    EditPush {
                        provider: self.provider,
                        step: PushStep::Over,
                        remaining: self.remaining,
                        failed: self.failed,
                    }
                } else {
                    proof {
                        lemma_ordered_multiset(queue@);
                        lemma_multiset_len(queue@, ordered(queue@));
                    }
                    EditPush {
                        provider: self.provider,
                        step: PushStep::Send,
                        remaining: sort_entries(queue),
                        failed: self.failed,
                    }
                }
            },
            _ => self,
        }
    }

    /// Takes the status of the answer to a batch; there is none where the
    /// request failed.
    pub fn answered(self, status: Option<Status>) -> (r: EditPush)
        requires
            self@.wf(),
        ensures
            r@ == self@.after_send(takes(status)),
            r@.wf(),
    {
        match self.step {
            PushStep::Send => {
                let taken: bool = match status {
                    Some(status) => http::is_success(status),
                    None => false,
                };
                let n: usize = next_batch(self.provider, &self.remaining);
                let mut batch: Vec<SyncEntry> = self.remaining;
                let mut failed: Vec<SyncEntry> = self.failed;
                let ghost whole = batch@;
                let rest: Vec<SyncEntry> = batch.split_off(n);
                assert(rest@ == whole.skip(n as int));
                assert(batch@ == whole.take(n as int));
                if !taken {
                    failed.append(&mut batch);
                }
                let step: PushStep = if rest.len() > 0 {
                    PushStep::Send
                } else if failed.len() > 0 {
                    PushStep::Requeue
                } else {
                    PushStep::Over
                };
                EditPush { provider: self.provider, step, remaining: rest, failed }
            },
            _ => self,
        }
    }

    /// Takes note that the failed changes were queued again.
    pub fn requeued(self) -> (r: EditPush)
        requires
            self@.wf(),
        ensures
            r@ == self@.after_requeue(),
            r@.wf(),
    {
        match self.step {
            PushStep::Requeue => EditPush {
                provider: self.provider,
                step: PushStep::Over,
                remaining: self.remaining,
                failed: self.failed,
            },
            _ => self,
        }
    }
}

proof fn lemma_multiset_len(a: Seq<SyncEntry>, b: Seq<SyncEntry>)
    requires
        a.to_multiset() == b.to_multiset(),
    ensures
        a.len() == b.len(),
{
    a.to_multiset_ensures();
    b.to_multiset_ensures();
}

proof fn lemma_insert_multiset(e: SyncEntry, s: Seq<SyncEntry>)
    ensures
        insert_entry(e, s).to_multiset() == s.to_multiset().insert(e),
    decreases s.len(),
{
    broadcast use vstd::seq_lib::group_to_multiset_ensures;

    if s.len() > 0 && sent_before(s[0], e) {
        lemma_insert_multiset(e, s.skip(1));
        vstd::seq_lib::lemma_multiset_commutative(seq![s[0]], insert_entry(e, s.skip(1)));
        vstd::seq_lib::lemma_multiset_commutative(seq![s[0]], s.skip(1));
        assert(seq![s[0]] + s.skip(1) =~= s);
        assert(insert_entry(e, s).to_multiset() =~= s.to_multiset().insert(e));
    } else {
        vstd::seq_lib::lemma_multiset_commutative(seq![e], s);
        assert(seq![e] =~= Seq::<SyncEntry>::empty().push(e));
        assert(Seq::<SyncEntry>::empty().to_multiset() =~= Multiset::<SyncEntry>::empty());
        assert(insert_entry(e, s).to_multiset() =~= s.to_multiset().insert(e));
    }
}

proof fn lemma_ordered_multiset(queue: Seq<SyncEntry>)
    ensures
        ordered(queue).to_multiset() == queue.to_multiset(),
    decreases queue.len(),
{
    broadcast use vstd::seq_lib::group_to_multiset_ensures;

    if queue.len() > 0 {
        lemma_ordered_multiset(queue.skip(1));
        lemma_insert_multiset(queue[0], ordered(queue.skip(1)));
        vstd::seq_lib::lemma_multiset_commutative(seq![queue[0]], queue.skip(1));
        assert(seq![queue[0]] + queue.skip(1) =~= queue);
        assert(seq![queue[0]] =~= Seq::<SyncEntry>::empty().push(queue[0]));
        assert(Seq::<SyncEntry>::empty().to_multiset() =~= Multiset::<SyncEntry>::empty());
        assert(ordered(queue).to_multiset() =~= queue.to_multiset());
    }
}

/// No text comes before itself, of two different texts one comes before the
/// other, and the order is transitive.
proof fn lemma_precedes_order(a: Seq<char>, b: Seq<char>, c: Seq<char>)
    ensures
        !text::precedes(a, a),
        a != b ==> text::precedes(a, b) || text::precedes(b, a),
        text::precedes(a, b) ==> !text::precedes(b, a),
        text::precedes(a, b) && text::precedes(b, c) ==> text::precedes(a, c),
    decreases a.len() + b.len() + c.len(),
{
    if a.len() > 0 {
        lemma_precedes_order(a.skip(1), a.skip(1).take(0), a.skip(1).take(0));
    }
    if a.len() > 0 && b.len() > 0 && a[0] == b[0] {
        if c.len() > 0 {
            lemma_precedes_order(a.skip(1), b.skip(1), c.skip(1));
        } else {
            lemma_precedes_order(a.skip(1), b.skip(1), c);
        }
        if a.skip(1) == b.skip(1) {
            assert(a =~= seq![a[0]] + a.skip(1));
            assert(b =~= seq![b[0]] + b.skip(1));
        }
    }
    if a.len() == 0 && b.len() == 0 {
        assert(a =~= b);
    }
}

/// Two entries that are not sent before one another have the same change, and
/// being sent before is transitive.
proof fn lemma_sent_order(a: SyncEntry, b: SyncEntry, c: SyncEntry)
    ensures
        !sent_before(a, a),
        sent_before(a, b) ==> !sent_before(b, a),
        !sent_before(a, b) && !sent_before(b, a) <==> same_change(a, b),
        sent_before(a, b) && sent_before(b, c) ==> sent_before(a, c),
        !sent_before(b, a) && !sent_before(c, b) ==> !sent_before(c, a),
{
    lemma_precedes_order(a.field@, b.field@, c.field@);
    lemma_precedes_order(b.field@, a.field@, c.field@);
    lemma_precedes_order(c.field@, a.field@, b.field@);
    lemma_precedes_order(b.field@, c.field@, a.field@);
    lemma_precedes_order(c.field@, b.field@, a.field@);
}

/// Whether no entry of a queue is sent before an earlier one.
pub open spec fn in_order(queue: Seq<SyncEntry>) -> bool {
    forall|i: int, j: int| 0 <= i < j < queue.len() ==> !sent_before(queue[j], queue[i])
}

proof fn lemma_insert_in_order(e: SyncEntry, s: Seq<SyncEntry>)
    requires
        in_order(s),
    ensures
        in_order(insert_entry(e, s)),
        forall|k: int|
            0 <= k < insert_entry(e, s).len() ==> #[trigger] insert_entry(e, s)[k] == e
                || s.contains(insert_entry(e, s)[k]),
    decreases s.len(),
{
    let r = insert_entry(e, s);
    if s.len() > 0 && sent_before(s[0], e) {
        let t = s.skip(1);
        let q = insert_entry(e, t);
        lemma_insert_in_order(e, t);
        assert forall|k: int| 0 <= k < r.len() implies #[trigger] r[k] == e || s.contains(r[k]) by {
            if k > 0 {
                assert(r[k] == q[k - 1]);
                if q[k - 1] != e {
                    let m = choose|m: int| 0 <= m < t.len() && t[m] == q[k - 1];
                    assert(s[m + 1] == r[k]);
                }
            } else {
                assert(s[0] == r[0]);
            }
        }
        assert forall|i: int, j: int| 0 <= i < j < r.len() implies !sent_before(r[j], r[i]) by {
            assert(r[j] == q[j - 1]);
            if i > 0 {
                assert(r[i] == q[i - 1]);
            } else {
                lemma_sent_order(s[0], e, e);
                if q[j - 1] != e {
                    let m = choose|m: int| 0 <= m < t.len() && t[m] == q[j - 1];
                    assert(!sent_before(s[m + 1], s[0]));
                }
            }
        }
    } else {
        assert forall|k: int| 0 <= k < r.len() implies #[trigger] r[k] == e || s.contains(r[k]) by {
            if k > 0 {
                assert(s[k - 1] == r[k]);
            }
        }
        assert forall|i: int, j: int| 0 <= i < j < r.len() implies !sent_before(r[j], r[i]) by {
            assert(r[j] == s[j - 1]);
            if i > 0 {
                assert(r[i] == s[i - 1]);
            } else {
                if j > 1 {
                    assert(!sent_before(s[j - 1], s[0]));
                    lemma_sent_order(e, s[0], s[j - 1]);
                }
            }
        }
    }
}

/// The queue is sent in order.
pub proof fn law_queue_is_sent_in_order(queue: Seq<SyncEntry>)
    ensures
        in_order(ordered(queue)),
    decreases queue.len(),
{
    if queue.len() > 0 {
        law_queue_is_sent_in_order(queue.skip(1));
        lemma_insert_in_order(queue[0], ordered(queue.skip(1)));
    }
}

/// The entries of a queue with the change of `sample`, in their order.
pub open spec fn with_change(queue: Seq<SyncEntry>, sample: SyncEntry) -> Seq<SyncEntry>
    decreases queue.len(),
{
    if queue.len() == 0 {
        queue
    } else if same_change(queue[0], sample) {
        seq![queue[0]] + with_change(queue.skip(1), sample)
    } else {
        with_change(queue.skip(1), sample)
    }
}

proof fn lemma_insert_with_change(e: SyncEntry, s: Seq<SyncEntry>, sample: SyncEntry)
    ensures
        with_change(insert_entry(e, s), sample) == if same_change(e, sample) {
            seq![e] + with_change(s, sample)
        } else {
            with_change(s, sample)
        },
    decreases s.len(),
{
    let r = insert_entry(e, s);
    if s.len() > 0 && sent_before(s[0], e) {
        lemma_insert_with_change(e, s.skip(1), sample);
        assert(r.skip(1) =~= insert_entry(e, s.skip(1)));
        lemma_sent_order(s[0], e, e);
    } else {
        assert(r.skip(1) =~= s);
    }
}

/// Ordering a queue keeps the entries of every change in their order.
pub proof fn law_ordering_is_stable(queue: Seq<SyncEntry>, sample: SyncEntry)
    ensures
        with_change(ordered(queue), sample) == with_change(queue, sample),
    decreases queue.len(),
{
    if queue.len() > 0 {
        law_ordering_is_stable(queue.skip(1), sample);
        lemma_insert_with_change(queue[0], ordered(queue.skip(1)), sample);
    }
}

/// A push after the answers to its first batches.
pub open spec fn after_answers(push: PushView, taken: Seq<bool>) -> PushView
    decreases taken.len(),
{
    if taken.len() == 0 {
        push
    } else {
        after_answers(push, taken.drop_last()).after_send(taken.last())
    }
}

/// The entries that the server took with those answers.
pub open spec fn taken_entries(push: PushView, taken: Seq<bool>) -> Seq<SyncEntry>
    decreases taken.len(),
{
    if taken.len() == 0 {
        Seq::empty()
    } else {
        let before = after_answers(push, taken.drop_last());
        let earlier = taken_entries(push, taken.drop_last());
        if taken.last() && before.step == PushStep::Send {
            earlier + before.batch()
        } else {
            earlier
        }
    }
}

proof fn lemma_split_multiset(queue: Seq<SyncEntry>, n: int)
    requires
        0 <= n <= queue.len(),
    ensures
        queue.to_multiset() == queue.take(n).to_multiset().add(queue.skip(n).to_multiset()),
{
    vstd::seq_lib::lemma_multiset_commutative(queue.take(n), queue.skip(n));
    assert(queue.take(n) + queue.skip(n) =~= queue);
}

proof fn lemma_answers_keep_entries(push: PushView, taken: Seq<bool>)
    requires
        push.wf(),
        push.failed.len() == 0,
        push.step == PushStep::Send || push.step == PushStep::Over,
    ensures
        ({
            let now = after_answers(push, taken);
            &&& now.wf()
            &&& now.step != PushStep::Drain
            &&& push.remaining.to_multiset() == taken_entries(push, taken).to_multiset().add(
                now.failed.to_multiset(),
            ).add(now.remaining.to_multiset())
            &&& now.step == PushStep::Over ==> now.failed.len() == 0
        }),
    decreases taken.len(),
{
    broadcast use vstd::seq_lib::group_to_multiset_ensures;

    if taken.len() == 0 {
        assert(push.failed =~= Seq::empty());
        assert(Seq::<SyncEntry>::empty().to_multiset() =~= Multiset::empty());
        assert(push.remaining.to_multiset() =~= Multiset::<SyncEntry>::empty().add(
            Multiset::empty(),
        ).add(push.remaining.to_multiset()));
    } else {
        lemma_answers_keep_entries(push, taken.drop_last());
        let before = after_answers(push, taken.drop_last());
        if before.step == PushStep::Send {
            let n = batch_length(before.provider, before.remaining) as int;
            law_batch_is_uniform_and_full(before.provider, before.remaining);
            lemma_split_multiset(before.remaining, n);
            vstd::seq_lib::lemma_multiset_commutative(
                taken_entries(push, taken.drop_last()),
                before.batch(),
            );
            vstd::seq_lib::lemma_multiset_commutative(before.failed, before.batch());
            let now = after_answers(push, taken);
            assert(push.remaining.to_multiset() =~= taken_entries(push, taken).to_multiset().add(
                now.failed.to_multiset(),
            ).add(now.remaining.to_multiset()));
        }
    }
}

/// No change is lost: at any time every change that was drained was taken by
/// the server, is held to be queued again, or is still to be sent, and
/// nothing else is; and a push that is over with nothing to queue again had
/// every change taken.
pub proof fn law_no_change_is_lost(provider: Provider, queue: Seq<SyncEntry>, taken: Seq<bool>)
    ensures
        ({
            let push = PushView::start(provider).after_drain(queue);
            let now = after_answers(push, taken);
            &&& queue.to_multiset() == taken_entries(push, taken).to_multiset().add(
                now.failed.to_multiset(),
            ).add(now.remaining.to_multiset())
            &&& now.step == PushStep::Over ==> queue.to_multiset() == taken_entries(
                push,
                taken,
            ).to_multiset()
            &&& now.step == PushStep::Requeue ==> queue.to_multiset() == taken_entries(
                push,
                taken,
            ).to_multiset().add(now.failed.to_multiset())
        }),
{
    broadcast use vstd::seq_lib::group_to_multiset_ensures;

    let push = PushView::start(provider).after_drain(queue);
    lemma_ordered_multiset(queue);
    lemma_multiset_len(queue, ordered(queue));
    lemma_answers_keep_entries(push, taken);
    let now = after_answers(push, taken);
    let sum = taken_entries(push, taken).to_multiset();
    if queue.len() == 0 {
        assert(queue =~= push.remaining);
    }
    assert(Seq::<SyncEntry>::empty().to_multiset() =~= Multiset::empty());
    if now.step == PushStep::Over {
        assert(now.failed =~= Seq::empty());
        assert(now.remaining =~= Seq::empty());
        assert(sum.add(Multiset::empty()).add(Multiset::empty()) =~= sum);
    }
    if now.step == PushStep::Requeue {
        assert(now.remaining =~= Seq::empty());
        let both = sum.add(now.failed.to_multiset());
        assert(both.add(Multiset::empty()) =~= both);
    }
}

/// What can happen to a push.
pub enum PushEvent {
    Drained(Seq<SyncEntry>),
    Answered(bool),
    Requeued,
}

/// A push and what is known of triggered synchronisations, after one thing
/// has happened: the drain that the push asked for is noted.
pub open spec fn after_push_event(state: (PushView, AutoSync), event: PushEvent) -> (
    PushView,
    AutoSync,
) {
    let (push, auto) = state;
    match event {
        PushEvent::Drained(queue) => (push.after_drain(queue), auto_sync::after_drain(push, auto)),
        PushEvent::Answered(taken) => (push.after_send(taken), auto),
        PushEvent::Requeued => (push.after_requeue(), auto),
    }
}

/// A push and what is known of triggered synchronisations, after a history.
pub open spec fn after_push_events(state: (PushView, AutoSync), events: Seq<PushEvent>) -> (
    PushView,
    AutoSync,
)
    decreases events.len(),
{
    if events.len() == 0 {
        state
    } else {
        after_push_event(after_push_events(state, events.drop_last()), events.last())
    }
}

/// A push notes one drain: the generation is as before until the queue was
/// drained, and from then on one more, whether anything was on the queue or
/// not.
pub proof fn law_a_push_drains_once(provider: Provider, auto: AutoSync, events: Seq<PushEvent>)
    ensures
        ({
            let (push, now) = after_push_events((PushView::start(provider), auto), events);
            &&& push.wf()
            &&& now == if push.step == PushStep::Drain {
                auto
            } else {
                auto_sync::after_tick(auto, Tick::Drained)
            }
        }),
    decreases events.len(),
{
    if events.len() > 0 {
        law_a_push_drains_once(provider, auto, events.drop_last());
        let (push, now) = after_push_events((PushView::start(provider), auto), events.drop_last());
        match events.last() {
            PushEvent::Drained(queue) => {
                lemma_ordered_multiset(queue);
                lemma_multiset_len(queue, ordered(queue));
            },
            PushEvent::Answered(_) => {
                if push.step == PushStep::Send {
                    law_batch_is_uniform_and_full(push.provider, push.remaining);
                }
            },
            PushEvent::Requeued => {},
        }
    }
}

/// An empty queue sends nothing.
pub proof fn law_an_empty_queue_sends_nothing(provider: Provider, session: SessionView)
    ensures
        PushView::start(provider).after_drain(Seq::empty()).asks(session) is End,
{
}

/// A push ends: every answer leaves fewer changes to send.
pub proof fn law_push_makes_progress(push: PushView, taken: bool)
    requires
        push.wf(),
        push.step == PushStep::Send,
    ensures
        push.after_send(taken).remaining.len() < push.remaining.len(),
{
    law_batch_is_uniform_and_full(push.provider, push.remaining);
}

/// Whether a server that adds a tag on `a` and removes it on `r` holds a tag
/// for an item after it took a form, where `held` says whether it did before.
pub open spec fn holds_after(
    held: bool,
    form: Seq<(Seq<char>, Seq<char>)>,
    item: Seq<char>,
    tag: Seq<char>,
) -> bool {
    if form[0].1 == tag && exists|k: int| 1 <= k < form.len() && #[trigger] form[k] == ("i"@, item) {
        if form[0].0 == "a"@ {
            true
        } else if form[0].0 == "r"@ {
            false
        } else {
            held
        }
    } else {
        held
    }
}

/// A batch is posted to `edit-tag` with the token of the session, and a
/// server that takes it holds exactly the queued value of the queued field for
/// each item of the batch, whichever provider it is, and what it held before
/// for every other item and every other tag.
pub proof fn law_a_taken_batch_sets_the_queued_values(
    push: PushView,
    session: SessionView,
    held: bool,
    i: int,
    item: Seq<char>,
    tag: Seq<char>,
)
    requires
        push.wf(),
        push.step == PushStep::Send,
        0 <= i < push.remaining.len() - push.after_send(true).remaining.len(),
    ensures
        ({
            let n = push.remaining.len() - push.after_send(true).remaining.len();
            let entry = push.remaining[i];
            let starred = "user/-/state/com.google/starred"@;
            let read = "user/-/state/com.google/read"@;
            &&& push.asks(session) matches PushActionView::Send(request)
            &&& request.method == Method::Post
            &&& request.url == session.base + "/reader/api/0/"@ + "edit-tag"@
            &&& request.authorization == Some("GoogleLogin auth="@ + session.auth)
            &&& request.form.len() == n + 2
            &&& request.form[1] == ("T"@, session.token)
            &&& request.form[0].0 == if entry.value {
                "a"@
            } else {
                "r"@
            }
            &&& entry.field@ == "starred"@ ==> request.form[0].1 == starred && holds_after(
                held,
                request.form,
                provider::wire_item_id(push.provider, entry.remote_id@),
                starred,
            ) == entry.value
            &&& entry.field@ != "starred"@ ==> request.form[0].1 == read && holds_after(
                held,
                request.form,
                provider::wire_item_id(push.provider, entry.remote_id@),
                read,
            ) == entry.value
            &&& (forall|k: int|
                0 <= k < n ==> provider::wire_item_id(
                    push.provider,
                    (#[trigger] push.remaining[k]).remote_id@,
                ) != item) || tag != request.form[0].1 ==> holds_after(
                held,
                request.form,
                item,
                tag,
            ) == held
        }),
{
    let batch = push.batch();
    let n = batch_length(push.provider, push.remaining) as int;
    law_batch_is_uniform_and_full(push.provider, push.remaining);
    let form = edit_form(push.provider, session.token, batch);
    reveal_strlit("a");
    reveal_strlit("r");
    reveal_strlit("T");
    reveal_strlit("i");
    assert("a"@[0] != "r"@[0]);
    assert("T"@[0] != "i"@[0]);
    assert(same_change(push.remaining[i], push.remaining[0]));
    assert(batch[0] == push.remaining[0]);
    assert(form[i + 2] == ("i"@, provider::wire_item_id(push.provider, batch[i].remote_id@)));
    if exists|k: int| 1 <= k < form.len() && #[trigger] form[k] == ("i"@, item) {
        let k = choose|k: int| 1 <= k < form.len() && #[trigger] form[k] == ("i"@, item);
        assert(k != 1);
        assert(form[k] == ("i"@, provider::wire_item_id(
            push.provider,
            batch[k - 2].remote_id@,
        )));
        assert(batch[k - 2] == push.remaining[k - 2]);
    }
}

/// A batch holds changes of one field to one value, as many in a row as there
/// are, up to five where FreshRSS marks as read and up to a hundred in every
/// other case; what is sent next begins right after it.
pub proof fn law_batches_are_as_long_as_they_can_be(push: PushView, taken: bool)
    requires
        push.wf(),
        push.step == PushStep::Send,
    ensures
        ({
            let n = push.remaining.len() - push.after_send(taken).remaining.len();
            let first = push.remaining[0];
            let limit: int = if push.provider == Provider::FreshRss && first.field@ == "read"@
                && first.value {
                5
            } else {
                100
            };
            &&& 1 <= n <= limit
            &&& push.after_send(taken).remaining == push.remaining.skip(n)
            &&& forall|i: int|
                0 <= i < n ==> (#[trigger] push.remaining[i]).field@ == first.field@
                    && push.remaining[i].value == first.value
            &&& n < limit && n < push.remaining.len() ==> push.remaining[n].field@ != first.field@
                || push.remaining[n].value != first.value
        }),
{
    law_batch_is_uniform_and_full(push.provider, push.remaining);
    let n = batch_length(push.provider, push.remaining) as int;
    assert forall|i: int| 0 <= i < n implies (#[trigger] push.remaining[i]).field@
        == push.remaining[0].field@ && push.remaining[i].value == push.remaining[0].value by {
        assert(same_change(push.remaining[i], push.remaining[0]));
    }
}

/// A batch that the server did not take joins the changes to queue again, in
/// their order, and one that it took does not. The push goes on while changes
/// are left, then queues again what failed, and is over where nothing did.
pub proof fn law_failures_are_queued_again(push: PushView, session: SessionView)
    requires
        push.wf(),
        push.step == PushStep::Send,
    ensures
        ({
            let taken = push.after_send(true);
            let lost = push.after_send(false);
            let n = push.remaining.len() - taken.remaining.len();
            &&& taken.failed == push.failed
            &&& lost.failed == push.failed + push.remaining.take(n)
            &&& lost.remaining == taken.remaining
            &&& taken.remaining.len() > 0 ==> taken.asks(session) is Send && lost.asks(session)
                is Send
            &&& taken.remaining.len() == 0 ==> lost.asks(session) is Requeue
            &&& taken.remaining.len() == 0 && push.failed.len() > 0 ==> taken.asks(session)
                is Requeue
            &&& taken.remaining.len() == 0 && push.failed.len() == 0 ==> taken.asks(session) is End
            &&& lost.after_requeue().asks(session) is End || lost.remaining.len() > 0
        }),
{
    law_batch_is_uniform_and_full(push.provider, push.remaining);
}

/// What is queued again is the article, the field and the value of every
/// change that failed, and nothing else.
pub proof fn law_failed_changes_keep_their_value(push: PushView, session: SessionView, i: int)
    requires
        push.step == PushStep::Requeue,
        0 <= i < push.failed.len(),
    ensures
        push.asks(session) matches PushActionView::Requeue(entries) && entries.len()
            == push.failed.len() && entries[i].article_id == push.failed[i].article_id
            && entries[i].field == push.failed[i].field@ && entries[i].value
            == push.failed[i].value,
{
}

/// A batch is taken with a success status alone.
pub proof fn law_only_a_success_takes_a_batch(status: Status)
    ensures
        takes(Some(status)) <==> 200 <= status.value() <= 299,
        !takes(None),
{
}

/// A queue is sent field by field, in the order of the texts, and in every
/// field what is removed goes before what is added.
pub proof fn law_removals_go_before_additions(queue: Seq<SyncEntry>, i: int, j: int)
    requires
        0 <= i < j < ordered(queue).len(),
    ensures
        !text::precedes(ordered(queue)[j].field@, ordered(queue)[i].field@),
        ordered(queue)[i].field@ == ordered(queue)[j].field@ && ordered(queue)[i].value
            ==> ordered(queue)[j].value,
{
    law_queue_is_sent_in_order(queue);
    assert(!sent_before(ordered(queue)[j], ordered(queue)[i]));
}

/// A push begins with the whole queue and no failures, in the order in which
/// it is sent.
pub proof fn law_a_push_takes_the_whole_queue(
    provider: Provider,
    queue: Seq<SyncEntry>,
    session: SessionView,
)
    ensures
        ({
            let start = PushView::start(provider);
            let push = start.after_drain(queue);
            &&& start.provider == provider && push.provider == provider
            &&& start.asks(session) is DrainQueue
            &&& push.failed.len() == 0
            &&& push.remaining.len() == queue.len()
            &&& push.remaining.to_multiset() == queue.to_multiset()
            &&& queue.len() > 0 ==> push.asks(session) is Send
            &&& queue.len() == 0 ==> push.asks(session) is End
        }),
{
    lemma_ordered_multiset(queue);
    lemma_multiset_len(queue, ordered(queue));
    if queue.len() == 0 {
        assert(queue =~= Seq::empty());
    }
}

} // verus!
