//! Bringing one remote item to the local store.

use std::collections::HashSet;
use vstd::prelude::*;
use crate::article;
use crate::article::{ArticleView, NewArticle, RenderRequest, RenderView, Rendered};
use crate::feed_ids;
use crate::feed_ids::FeedIds;
use crate::text;
use crate::wire;
use crate::wire::Item;

verus! {

/// What became of a remote item.
#[derive(Clone, Copy, Debug, PartialEq, Eq, Structural)]
pub struct RemoteItemApply {
    pub matched: bool,
    pub imported: bool,
    pub state_changed: bool,
    pub pending_gained_remote_id: bool,
    pub queued_local_read_push: bool,
    pub skipped_no_stream: bool,
    pub skipped_no_feed: bool,
    pub skipped_no_identity: bool,
}

/// Nothing became of an item.
pub open spec fn nothing() -> RemoteItemApply {
    RemoteItemApply {
        matched: false,
        imported: false,
        state_changed: false,
        pending_gained_remote_id: false,
        queued_local_read_push: false,
        skipped_no_stream: false,
        skipped_no_feed: false,
        skipped_no_identity: false,
    }
}

impl Default for RemoteItemApply {
    fn default() -> (r: RemoteItemApply)
        ensures
            r == nothing(),
    {
        RemoteItemApply {
            matched: false,
            imported: false,
            state_changed: false,
            pending_gained_remote_id: false,
            queued_local_read_push: false,
            skipped_no_stream: false,
            skipped_no_feed: false,
            skipped_no_identity: false,
        }
    }
}

/// How far the application of an item has come.
#[derive(Debug)]
pub enum ApplyStep {
    /// The local article is to be found by the item's URL.
    Find,
    /// The article that was found is to be given the item's id.
    Link { article: i64 },
    /// Whether the article was read locally is to be looked up.
    Compare { article: i64 },
    /// The server is to be told that the article was read.
    QueueRead { article: i64 },
    /// The article is to take over the state of the item.
    Settle { article: i64 },
    /// The texts of an item to import are to be rendered.
    Render { feed: i64 },
    /// The imported article is to be stored.
    Upsert { feed: i64, rendered: Rendered },
    /// The imported article is to be found again.
    FindImported { feed: i64 },
    /// The imported article is to be given the item's id.
    LinkImported { article: i64 },
    /// The imported article is to be unread, and starred as the item is.
    SettleImported { article: i64 },
    /// The item is done with.
    Over { applied: RemoteItemApply },
}

/// The application of one item. `pending` holds the articles with local
/// edits that were not pushed yet.
pub struct ItemApply<'a> {
    item: &'a Item,
    feeds: &'a FeedIds,
    pending: &'a HashSet<i64>,
    import_missing_unread: bool,
    step: ApplyStep,
}

/// The state of an application.
pub struct ApplyView {
    pub item: Item,
    pub feeds: Map<Seq<char>, i64>,
    pub pending: Set<i64>,
    /// Whether an unread item without a local article is imported.
    pub import: bool,
    pub step: ApplyStep,
}

impl<'a> View for ItemApply<'a> {
    type V = ApplyView;

    closed spec fn view(&self) -> ApplyView {
        ApplyView {
            item: *self.item,
            feeds: self.feeds@,
            pending: self.pending@,
            import: self.import_missing_unread,
            step: self.step,
        }
    }
}

/// What an application asks for next.
#[derive(Debug)]
pub enum ApplyAction {
    /// Find an article by URL; `found` takes it.
    FindByUrl { url: String },
    /// Find an article by feed and guid; `found` takes it.
    FindByGuid { feed: i64, guid: String },
    /// Give an article its remote id; `linked` is called afterwards.
    SetRemoteId { article: i64, remote_id: String },
    /// Look up whether an article was read; `compared` takes the answer.
    ReadState { article: i64 },
    /// Queue the change of a field of an article; `queued` is called
    /// afterwards.
    Queue { article: i64, field: String, value: bool },
    /// Set the state of an article; `settled` takes whether that changed it.
    SetState { article: i64, read: bool, starred: bool },
    /// Render texts; `rendered` takes them.
    Render(RenderRequest),
    /// Store an article; `upserted` is called afterwards.
    Upsert { feed: i64, new: NewArticle },
    /// Nothing: the item is done with.
    End,
}

/// What an application asks for next.
pub enum ApplyActionView {
    FindByUrl { url: Seq<char> },
    FindByGuid { feed: i64, guid: Seq<char> },
    SetRemoteId { article: i64, remote_id: Seq<char> },
    ReadState { article: i64 },
    Queue { article: i64, field: Seq<char>, value: bool },
    SetState { article: i64, read: bool, starred: bool },
    Render(RenderView),
    Upsert { feed: i64, new: ArticleView },
    End,
}

impl View for ApplyAction {
    type V = ApplyActionView;

    open spec fn view(&self) -> ApplyActionView {
        match self {
            ApplyAction::FindByUrl { url } => ApplyActionView::FindByUrl { url: url@ },
            ApplyAction::FindByGuid { feed, guid } => ApplyActionView::FindByGuid {
                feed: *feed,
                guid: guid@,
            },
            ApplyAction::SetRemoteId { article, remote_id } => ApplyActionView::SetRemoteId {
                article: *article,
                remote_id: remote_id@,
            },
            ApplyAction::ReadState { article } => ApplyActionView::ReadState { article: *article },
            ApplyAction::Queue { article, field, value } => ApplyActionView::Queue {
                article: *article,
                field: field@,
                value: *value,
            },
            ApplyAction::SetState { article, read, starred } => ApplyActionView::SetState {
                article: *article,
                read: *read,
                starred: *starred,
            },
            ApplyAction::Render(request) => ApplyActionView::Render(request@),
            ApplyAction::Upsert { feed, new } => ApplyActionView::Upsert {
                feed: *feed,
                new: new@,
            },
            ApplyAction::End => ApplyActionView::End,
        }
    }
}

/// How an item without a local article goes on: it is imported where that
/// is wanted, it is unread, its feed is known, and there is something to
/// know it by.
pub open spec fn missing(item: Item, feeds: Map<Seq<char>, i64>, import: bool) -> ApplyStep {
    if !import || item.read() {
        ApplyStep::Over { applied: nothing() }
    } else {
        match item.stream() {
            None => ApplyStep::Over {
                applied: RemoteItemApply { skipped_no_stream: true, ..nothing() },
            },
            Some(stream) => match feed_ids::feed_in(feeds, stream) {
                None => ApplyStep::Over {
                    applied: RemoteItemApply { skipped_no_feed: true, ..nothing() },
                },
                Some(feed) => if item.identity() is None {
                    ApplyStep::Over {
                        applied: RemoteItemApply { skipped_no_identity: true, ..nothing() },
                    }
                } else {
                    ApplyStep::Render { feed }
                },
            },
        }
    }
}

/// Whether at most one thing became of an item, and what goes with it.
pub open spec fn consistent(applied: RemoteItemApply) -> bool {
    &&& applied.imported ==> applied == (RemoteItemApply { imported: true, ..nothing() })
    &&& applied.skipped_no_stream ==> applied == (RemoteItemApply {
        skipped_no_stream: true,
        ..nothing()
    })
    &&& applied.skipped_no_feed ==> applied == (RemoteItemApply {
        skipped_no_feed: true,
        ..nothing()
    })
    &&& applied.skipped_no_identity ==> applied == (RemoteItemApply {
        skipped_no_identity: true,
        ..nothing()
    })
    &&& applied.state_changed ==> applied.matched && !applied.pending_gained_remote_id
    &&& applied.pending_gained_remote_id ==> applied.matched
    &&& applied.queued_local_read_push ==> applied.pending_gained_remote_id
}

/// Whether an outcome fits the item: it is consistent, and only an unread
/// item is imported, skipped or reported as read.
pub open spec fn plausible(item: Item, applied: RemoteItemApply) -> bool {
    &&& consistent(applied)
    &&& applied.imported || applied.queued_local_read_push || applied.skipped_no_stream
        || applied.skipped_no_feed || applied.skipped_no_identity ==> !item.read()
}

impl ApplyView {
    /// The beginning: an item with a URL is looked for first.
    pub open spec fn start(
        item: Item,
        feeds: Map<Seq<char>, i64>,
        pending: Set<i64>,
        import: bool,
    ) -> ApplyView {
        let begun = ApplyView { item, feeds, pending, import, step: ApplyStep::Find };
        if item.link() is Some {
            begun
        } else {
            ApplyView { step: missing(item, feeds, import), ..begun }
        }
    }

    /// What the steps rely on.
    pub open spec fn wf(self) -> bool {
        match self.step {
            ApplyStep::Find => self.item.link() is Some,
            ApplyStep::Compare { article } | ApplyStep::QueueRead { article } => self.import
                && !self.item.read() && !self.pending.contains(article),
            ApplyStep::Settle { article } => !self.pending.contains(article),
            ApplyStep::Render { .. } | ApplyStep::Upsert { .. } | ApplyStep::FindImported { .. } =>
                self.import && !self.item.read() && self.item.identity() is Some,
            ApplyStep::LinkImported { .. } | ApplyStep::SettleImported { .. } => self.import
                && !self.item.read(),
            ApplyStep::Over { applied } => plausible(self.item, applied),
            ApplyStep::Link { .. } => true,
        }
    }

    /// What is asked for next.
    pub open spec fn asks(self) -> ApplyActionView {
        match self.step {
            ApplyStep::Find => ApplyActionView::FindByUrl { url: self.item.link()->0 },
            ApplyStep::Link { article } | ApplyStep::LinkImported { article } =>
                ApplyActionView::SetRemoteId { article, remote_id: self.item.id@ },
            ApplyStep::Compare { article } => ApplyActionView::ReadState { article },
            ApplyStep::QueueRead { article } => ApplyActionView::Queue {
                article,
                field: "read"@,
                value: true,
            },
            ApplyStep::Settle { article } => ApplyActionView::SetState {
                article,
                read: self.item.read(),
                starred: self.item.starred(),
            },
            ApplyStep::Render { feed } => ApplyActionView::Render(self.item.to_render()),
            ApplyStep::Upsert { feed, rendered } => ApplyActionView::Upsert {
                feed,
                new: article::article_of(self.item, rendered)->0,
            },
            ApplyStep::FindImported { feed } => match self.item.link() {
                Some(url) => ApplyActionView::FindByUrl { url },
                None => ApplyActionView::FindByGuid { feed, guid: self.item.identity()->0 },
            },
            ApplyStep::SettleImported { article } => ApplyActionView::SetState {
                article,
                read: false,
                starred: self.item.starred(),
            },
            ApplyStep::Over { .. } => ApplyActionView::End,
        }
    }

    /// After an article was looked for.
    pub open spec fn after_find(self, found: Option<i64>) -> ApplyView {
        let step = match (self.step, found) {
            (ApplyStep::Find, Some(article)) => ApplyStep::Link { article },
            (ApplyStep::Find, None) => missing(self.item, self.feeds, self.import),
            (ApplyStep::FindImported { feed }, Some(article)) => ApplyStep::LinkImported {
                article,
            },
            (ApplyStep::FindImported { feed }, None) => ApplyStep::Over { applied: nothing() },
            (other, _) => other,
        };
        ApplyView { step, ..self }
    }

    /// After an article got its remote id: one with local edits stays as it
    /// is, and one that the server holds for unread is compared first where
    /// unread items are imported.
    pub open spec fn after_link(self) -> ApplyView {
        let step = match self.step {
            ApplyStep::Link { article } => if self.pending.contains(article) {
                ApplyStep::Over {
                    applied: RemoteItemApply {
                        matched: true,
                        pending_gained_remote_id: true,
                        ..nothing()
                    },
                }
            } else if self.import && !self.item.read() {
                ApplyStep::Compare { article }
            } else {
                ApplyStep::Settle { article }
            },
            ApplyStep::LinkImported { article } => ApplyStep::SettleImported { article },
            other => other,
        };
        ApplyView { step, ..self }
    }

    /// After it was looked up whether the article was read locally.
    pub open spec fn after_compare(self, local_read: bool) -> ApplyView {
        let step = match self.step {
            ApplyStep::Compare { article } => if local_read {
                ApplyStep::QueueRead { article }
            } else {
                ApplyStep::Settle { article }
            },
            other => other,
        };
        ApplyView { step, ..self }
    }

    /// After the change that the article was read was queued.
    pub open spec fn after_queue(self) -> ApplyView {
        let step = match self.step {
            ApplyStep::QueueRead { article } => ApplyStep::Over {
                applied: RemoteItemApply {
                    matched: true,
                    pending_gained_remote_id: true,
                    queued_local_read_push: true,
                    ..nothing()
                },
            },
            other => other,
        };
        ApplyView { step, ..self }
    }

    /// After the state of the article was set.
    pub open spec fn after_settle(self, changed: bool) -> ApplyView {
        let step = match self.step {
            ApplyStep::Settle { article } => ApplyStep::Over {
                applied: RemoteItemApply { matched: true, state_changed: changed, ..nothing() },
            },
            ApplyStep::SettleImported { article } => ApplyStep::Over {
                applied: RemoteItemApply { imported: true, ..nothing() },
            },
            other => other,
        };
        ApplyView { step, ..self }
    }

    /// After the texts were rendered.
    pub open spec fn after_render(self, rendered: Rendered) -> ApplyView {
        let step = match self.step {
            ApplyStep::Render { feed } => ApplyStep::Upsert { feed, rendered },
            other => other,
        };
        ApplyView { step, ..self }
    }

    /// After the imported article was stored.
    pub open spec fn after_upsert(self) -> ApplyView {
        let step = match self.step {
            ApplyStep::Upsert { feed, rendered } => ApplyStep::FindImported { feed },
            other => other,
        };
        ApplyView { step, ..self }
    }
}

fn missing_step(item: &Item, feeds: &FeedIds, import: bool) -> (r: ApplyStep)
    ensures
        r == missing(*item, feeds@, import),
{
    if !import || wire::item_is_read(item) {
        return ApplyStep::Over { applied: RemoteItemApply::default() };
    }
    match wire::item_remote_stream_id(item) {
        None => {
            let mut applied: RemoteItemApply = RemoteItemApply::default();
            applied.skipped_no_stream = true;
            ApplyStep::Over { applied }
        },
        Some(stream) => match feeds.get(stream) {
            None => {
                let mut applied: RemoteItemApply = RemoteItemApply::default();
                applied.skipped_no_feed = true;
                ApplyStep::Over { applied }
            },
            Some(feed) => {
                if article::item_identity(item).is_none() {
                    let mut applied: RemoteItemApply = RemoteItemApply::default();
                    applied.skipped_no_identity = true;
                    ApplyStep::Over { applied }
                } else {
                    ApplyStep::Render { feed }
                }
            },
        },
    }
}

/// Begins the application of a remote item: to the local article with its
/// URL, or, where `import_missing_unread` is set, as a new article.
pub fn apply_remote_item<'a>(
    item: &'a Item,
    feeds: &'a FeedIds,
    pending: &'a HashSet<i64>,
    import_missing_unread: bool,
) -> (r: ItemApply<'a>)
    ensures
        r@ == ApplyView::start(*item, feeds@, pending@, import_missing_unread),
        r@.wf(),
{
    let step: ApplyStep = if wire::item_url(item).is_some() {
        ApplyStep::Find
    } else {
        missing_step(item, feeds, import_missing_unread)
    };
    ItemApply { item, feeds, pending, import_missing_unread, step }
}

impl<'a> ItemApply<'a> {
    fn at(self, step: ApplyStep) -> (r: ItemApply<'a>)
        ensures
            r@ == (ApplyView { step, ..self@ }),
    {
        ItemApply {
            item: self.item,
            feeds: self.feeds,
            pending: self.pending,
            import_missing_unread: self.import_missing_unread,
            step,
        }
    }

    /// What is to be done next.
    pub fn action(&self) -> (r: ApplyAction)
        requires
            self@.wf(),
        ensures
            r@ == self@.asks(),
    {
        match &self.step {
            ApplyStep::Find => match wire::item_url(self.item) {
                Some(url) => ApplyAction::FindByUrl { url },
                None => ApplyAction::End,
            },
            ApplyStep::Link { article } => ApplyAction::SetRemoteId {
                article: *article,
                remote_id: self.item.id.clone(),
            },
            ApplyStep::LinkImported { article } => ApplyAction::SetRemoteId {
                article: *article,
                remote_id: self.item.id.clone(),
            },
            ApplyStep::Compare { article } => ApplyAction::ReadState { article: *article },
            ApplyStep::QueueRead { article } => ApplyAction::Queue {
                article: *article,
                field: "read".to_owned(),
                value: true,
            },
            ApplyStep::Settle { article } => ApplyAction::SetState {
                article: *article,
                read: wire::item_is_read(self.item),
                starred: wire::item_is_starred(self.item),
            },
            ApplyStep::Render { feed } => ApplyAction::Render(article::render_request(self.item)),
            ApplyStep::Upsert { feed, rendered } => match article::remote_item_article(
                self.item,
                rendered,
            ) {
                Some(new) => ApplyAction::Upsert { feed: *feed, new },
                None => ApplyAction::End,
            },
            ApplyStep::FindImported { feed } => match wire::item_url(self.item) {
                Some(url) => ApplyAction::FindByUrl { url },
                None => match article::item_identity(self.item) {
                    Some(guid) => ApplyAction::FindByGuid { feed: *feed, guid },
                    None => ApplyAction::End,
                },
            },
            ApplyStep::SettleImported { article } => ApplyAction::SetState {
                article: *article,
                read: false,
                starred: wire::item_is_starred(self.item),
            },
            ApplyStep::Over { applied } => ApplyAction::End,
        }
    }

    /// Takes the article that was found, if any.
    pub fn found(self, article: Option<i64>) -> (r: ItemApply<'a>)
        requires
            self@.wf(),
        ensures
            r@ == self@.after_find(article),
            r@.wf(),
    {
        let step: ApplyStep = match (&self.step, article) {
            (ApplyStep::Find, Some(article)) => ApplyStep::Link { article },
            (ApplyStep::Find, None) => missing_step(
                self.item,
                self.feeds,
                self.import_missing_unread,
            ),
            (ApplyStep::FindImported { feed }, Some(article)) => ApplyStep::LinkImported {
                article,
            },
            (ApplyStep::FindImported { feed }, None) => ApplyStep::Over {
                applied: RemoteItemApply::default(),
            },
            _ => {
                return self;
            },
        };
        self.at(step)
    }

    /// Takes note that the article got its remote id.
    pub fn linked(self) -> (r: ItemApply<'a>)
        requires
            self@.wf(),
        ensures
            r@ == self@.after_link(),
            r@.wf(),
    {
        broadcast use vstd::std_specs::hash::group_hash_axioms;

        let step: ApplyStep = match &self.step {
            ApplyStep::Link { article } => {
                if self.pending.contains(article) {
                    let mut applied: RemoteItemApply = RemoteItemApply::default();
                    applied.matched = true;
                    applied.pending_gained_remote_id = true;
                    ApplyStep::Over { applied }
                } else if self.import_missing_unread && !wire::item_is_read(self.item) {
                    ApplyStep::Compare { article: *article }
                } else {
                    ApplyStep::Settle { article: *article }
                }
            },
            ApplyStep::LinkImported { article } => ApplyStep::SettleImported { article: *article },
            _ => {
                return self;
            },
        };
        self.at(step)
    }

    /// Takes whether the article was read locally.
    pub fn compared(self, local_read: bool) -> (r: ItemApply<'a>)
        requires
            self@.wf(),
        ensures
            r@ == self@.after_compare(local_read),
            r@.wf(),
    {
        let step: ApplyStep = match &self.step {
            ApplyStep::Compare { article } => if local_read {
                ApplyStep::QueueRead { article: *article }
            } else {
                ApplyStep::Settle { article: *article }
            },
            _ => {
                return self;
            },
        };
        self.at(step)
    }

    /// Takes note that the change was queued.
    pub fn queued(self) -> (r: ItemApply<'a>)
        requires
            self@.wf(),
        ensures
            r@ == self@.after_queue(),
            r@.wf(),
    {
        let step: ApplyStep = match &self.step {
            ApplyStep::QueueRead { article } => {
                let mut applied: RemoteItemApply = RemoteItemApply::default();
                applied.matched = true;
                applied.pending_gained_remote_id = true;
                applied.queued_local_read_push = true;
                ApplyStep::Over { applied }
            },
            _ => {
                return self;
            },
        };
        self.at(step)
    }

    /// Takes whether setting the state changed the article.
    pub fn settled(self, changed: bool) -> (r: ItemApply<'a>)
        requires
            self@.wf(),
        ensures
            r@ == self@.after_settle(changed),
            r@.wf(),
    {
        let step: ApplyStep = match &self.step {
            ApplyStep::Settle { article } => {
                let mut applied: RemoteItemApply = RemoteItemApply::default();
                applied.matched = true;
                applied.state_changed = changed;
                ApplyStep::Over { applied }
            },
            ApplyStep::SettleImported { article } => {
                let mut applied: RemoteItemApply = RemoteItemApply::default();
                applied.imported = true;
                ApplyStep::Over { applied }
            },
            _ => {
                return self;
            },
        };
        self.at(step)
    }

    /// Takes the rendered texts.
    pub fn rendered(self, rendered: Rendered) -> (r: ItemApply<'a>)
        requires
            self@.wf(),
        ensures
            r@ == self@.after_render(rendered),
            r@.wf(),
    {
        let step: ApplyStep = match &self.step {
            ApplyStep::Render { feed } => ApplyStep::Upsert { feed: *feed, rendered },
            _ => {
                return self;
            },
        };
        self.at(step)
    }

    /// Takes note that the imported article was stored.
    pub fn upserted(self) -> (r: ItemApply<'a>)
        requires
            self@.wf(),
        ensures
            r@ == self@.after_upsert(),
            r@.wf(),
    {
        let step: ApplyStep = match &self.step {
            ApplyStep::Upsert { feed, rendered } => ApplyStep::FindImported { feed: *feed },
            _ => {
                return self;
            },
        };
        self.at(step)
    }

    /// What became of the item, once it is done with.
    pub fn outcome(&self) -> (r: Option<RemoteItemApply>)
        ensures
            r == match self@.step {
                ApplyStep::Over { applied } => Some(applied),
                _ => None,
            },
    {
        match &self.step {
            ApplyStep::Over { applied } => Some(*applied),
            _ => None,
        }
    }
}

/// What can happen to the application of an item.
pub enum ApplyEvent {
    Found(Option<i64>),
    Linked,
    Compared(bool),
    Queued,
    Settled(bool),
    Rendered(Rendered),
    Upserted,
}

/// An application after one thing has happened.
pub open spec fn after_event(apply: ApplyView, event: ApplyEvent) -> ApplyView {
    match event {
        ApplyEvent::Found(article) => apply.after_find(article),
        ApplyEvent::Linked => apply.after_link(),
        ApplyEvent::Compared(local_read) => apply.after_compare(local_read),
        ApplyEvent::Queued => apply.after_queue(),
        ApplyEvent::Settled(changed) => apply.after_settle(changed),
        ApplyEvent::Rendered(rendered) => apply.after_render(rendered),
        ApplyEvent::Upserted => apply.after_upsert(),
    }
}

/// An application after a history.
pub open spec fn after_events(apply: ApplyView, events: Seq<ApplyEvent>) -> ApplyView
    decreases events.len(),
{
    if events.len() == 0 {
        apply
    } else {
        after_event(after_events(apply, events.drop_last()), events.last())
    }
}

/// Whatever the store answers, the context of an application stays the same
/// and its steps keep what they rely on, and what became of the item fits it:
/// it is at most one of matched, imported and the three skips, and only an
/// unread item is imported, skipped or reported as read.
pub proof fn law_outcomes_fit_the_item(start: ApplyView, events: Seq<ApplyEvent>)
    requires
        start == ApplyView::start(start.item, start.feeds, start.pending, start.import),
    ensures
        ({
            let now = after_events(start, events);
            &&& now == (ApplyView { step: now.step, ..start })
            &&& now.wf()
            &&& now.step matches ApplyStep::Over { applied } ==> plausible(start.item, applied)
        }),
    decreases events.len(),
{
    if events.len() > 0 {
        law_outcomes_fit_the_item(start, events.drop_last());
    }
}

/// A local edit that was not pushed yet is never overwritten: the article
/// with the item's URL gets its remote id and nothing else.
pub proof fn law_pending_edits_are_kept(start: ApplyView, article: i64)
    requires
        start.step is Find,
        start.wf(),
        start.pending.contains(article),
    ensures
        ({
            let link = start.after_find(Some(article));
            &&& start.asks() == (ApplyActionView::FindByUrl { url: start.item.link()->0 })
            &&& link.asks() == (ApplyActionView::SetRemoteId {
                article,
                remote_id: start.item.id@,
            })
            &&& link.after_link().step == (ApplyStep::Over {
                applied: RemoteItemApply {
                    matched: true,
                    pending_gained_remote_id: true,
                    ..nothing()
                },
            })
        }),
{
}

/// Whatever the store answers, no article with a local edit that was not
/// pushed yet is compared, queued or set to the state of an item that was
/// matched to it.
pub proof fn law_pending_edits_are_never_touched(start: ApplyView, events: Seq<ApplyEvent>)
    requires
        start == ApplyView::start(start.item, start.feeds, start.pending, start.import),
    ensures
        match after_events(start, events).step {
            ApplyStep::Compare { article } => !start.pending.contains(article),
            ApplyStep::QueueRead { article } => !start.pending.contains(article),
            ApplyStep::Settle { article } => !start.pending.contains(article),
            _ => true,
        },
{
    law_outcomes_fit_the_item(start, events);
}

/// An article that was read locally stays read where the server holds it for
/// unread: the server is told instead.
pub proof fn law_local_read_wins(start: ApplyView, article: i64)
    requires
        start.step is Find,
        start.wf(),
        !start.pending.contains(article),
        start.import,
        !start.item.read(),
    ensures
        ({
            let link = start.after_find(Some(article));
            let compare = link.after_link();
            let queue = compare.after_compare(true);
            &&& link.asks() == (ApplyActionView::SetRemoteId {
                article,
                remote_id: start.item.id@,
            })
            &&& compare.asks() == (ApplyActionView::ReadState { article })
            &&& queue.asks() == (ApplyActionView::Queue { article, field: "read"@, value: true })
            &&& queue.after_queue().step == (ApplyStep::Over {
                applied: RemoteItemApply {
                    matched: true,
                    pending_gained_remote_id: true,
                    queued_local_read_push: true,
                    ..nothing()
                },
            })
        }),
{
}

/// In every other case an article with the item's URL takes over the state
/// of the item, and it is noted whether that changed it.
pub proof fn law_remote_state_is_adopted(start: ApplyView, article: i64, changed: bool)
    requires
        start.step is Find,
        start.wf(),
        !start.pending.contains(article),
    ensures
        ({
            let link = start.after_find(Some(article));
            let settle = if start.import && !start.item.read() {
                link.after_link().after_compare(false)
            } else {
                link.after_link()
            };
            &&& settle.asks() == (ApplyActionView::SetState {
                article,
                read: start.item.read(),
                starred: start.item.starred(),
            })
            &&& settle.after_settle(changed).step == (ApplyStep::Over {
                applied: RemoteItemApply { matched: true, state_changed: changed, ..nothing() },
            })
        }),
{
}

/// Only unread items are imported, and only where that is wanted: whatever
/// the store answers, nothing is rendered, stored or queued for any other item.
pub proof fn law_only_unread_items_are_imported(start: ApplyView, events: Seq<ApplyEvent>)
    requires
        start == ApplyView::start(start.item, start.feeds, start.pending, start.import),
        !start.import || start.item.read(),
    ensures
        ({
            let asks = after_events(start, events).asks();
            !(asks is Render) && !(asks is Upsert) && !(asks is Queue)
        }),
{
    law_outcomes_fit_the_item(start, events);
}

/// An unread item of a known feed that has no local article, and something to
/// be known by, becomes an unread article of that feed that is starred as the
/// item is and carries its id. It is found again by its URL, or else by what
/// it is known by.
pub proof fn law_missing_unread_is_imported(
    start: ApplyView,
    feed: i64,
    rendered: Rendered,
    article: i64,
    changed: bool,
)
    requires
        start == ApplyView::start(start.item, start.feeds, start.pending, start.import),
        start.import,
        !start.item.read(),
        start.item.identity() is Some,
        start.item.stream() is Some,
        feed_ids::feed_in(start.feeds, start.item.stream()->0) == Some(feed),
    ensures
        ({
            let render = start.after_find(None);
            let upsert = render.after_render(rendered);
            let find = upsert.after_upsert();
            let link = find.after_find(Some(article));
            let settle = link.after_link();
            &&& render.asks() == ApplyActionView::Render(start.item.to_render())
            &&& article::article_of(start.item, rendered) is Some
            &&& upsert.asks() == (ApplyActionView::Upsert {
                feed,
                new: article::article_of(start.item, rendered)->0,
            })
            &&& find.asks() == match start.item.link() {
                Some(url) => ApplyActionView::FindByUrl { url },
                None => ApplyActionView::FindByGuid { feed, guid: start.item.identity()->0 },
            }
            &&& link.asks() == (ApplyActionView::SetRemoteId {
                article,
                remote_id: start.item.id@,
            })
            &&& settle.asks() == (ApplyActionView::SetState {
                article,
                read: false,
                starred: start.item.starred(),
            })
            &&& settle.after_settle(changed).step == (ApplyStep::Over {
                applied: RemoteItemApply { imported: true, ..nothing() },
            })
        }),
{
}

/// How many answers an application still waits for, at most.
pub open spec fn answers_left(apply: ApplyView) -> nat {
    match apply.step {
        ApplyStep::Find => 7,
        ApplyStep::Render { .. } => 6,
        ApplyStep::Upsert { .. } => 5,
        ApplyStep::FindImported { .. } => 4,
        ApplyStep::Link { .. } => 4,
        ApplyStep::LinkImported { .. } => 3,
        ApplyStep::Compare { .. } => 3,
        ApplyStep::SettleImported { .. } => 2,
        ApplyStep::QueueRead { .. } => 2,
        ApplyStep::Settle { .. } => 2,
        ApplyStep::Over { .. } => 0,
    }
}

/// An application ends: every answer that changes it leaves fewer to wait
/// for.
pub proof fn law_an_application_ends(apply: ApplyView, event: ApplyEvent)
    ensures
        after_event(apply, event) == apply || answers_left(after_event(apply, event))
            < answers_left(apply),
{
}

/// Whenever the state of an article is set, it is starred exactly where the
/// starred tag is among the categories of the item, whatever the others are;
/// an article that was matched is read exactly where the read tag is among
/// them, and an imported one is unread.
pub proof fn law_adopted_state_is_that_of_the_tags(apply: ApplyView)
    requires
        apply.asks() is SetState,
    ensures
        ({
            let categories = apply.item.categories@;
            &&& apply.asks()->starred <==> exists|i: int|
                0 <= i < categories.len() && #[trigger] categories[i]@
                    == "user/-/state/com.google/starred"@
            &&& apply.step is Settle ==> (apply.asks()->read <==> exists|i: int|
                0 <= i < categories.len() && #[trigger] categories[i]@
                    == "user/-/state/com.google/read"@)
            &&& apply.step is SettleImported ==> !apply.asks()->read
        }),
{
}

/// An article gets the id of its item, as it came, and it alone.
pub proof fn law_articles_get_the_id_of_their_item(apply: ApplyView, article: i64)
    ensures
        apply.step == (ApplyStep::Link { article }) || apply.step == (ApplyStep::LinkImported {
            article,
        }) ==> apply.asks() == (ApplyActionView::SetRemoteId {
            article,
            remote_id: apply.item.id@,
        }),
        apply.asks() is SetRemoteId ==> apply.asks()->remote_id == apply.item.id@,
{
}

/// An item with a URL is looked for by it first; one without goes on as one
/// that has no local article.
pub proof fn law_items_are_looked_for_by_url(
    item: Item,
    feeds: Map<Seq<char>, i64>,
    pending: Set<i64>,
    import: bool,
)
    ensures
        ({
            let start = ApplyView::start(item, feeds, pending, import);
            &&& start.item == item && start.feeds == feeds && start.pending == pending
                && start.import == import
            &&& item.link() matches Some(url) ==> start.asks() == (ApplyActionView::FindByUrl {
                url,
            })
            &&& item.link() is None ==> start.step == (ApplyView {
                step: ApplyStep::Find,
                ..start
            }).after_find(None).step
        }),
{
}

/// What becomes of an item without a local article: nothing where nothing is
/// imported or the item was read. Else it is skipped for want of a stream, of
/// a known feed or of something to know it by, in this order, and rendered in
/// order to be imported where nothing is wanting.
pub proof fn law_what_becomes_of_a_missing_item(find: ApplyView)
    requires
        find.step is Find,
    ensures
        ({
            let item = find.item;
            let next = find.after_find(None);
            let skipped = next.step->applied;
            let wanted = find.import && !item.read();
            let feed = feed_ids::feed_in(find.feeds, item.stream()->0);
            &&& !wanted ==> next.step is Over && !skipped.matched && !skipped.imported
                && !skipped.state_changed && !skipped.pending_gained_remote_id
                && !skipped.queued_local_read_push && !skipped.skipped_no_stream
                && !skipped.skipped_no_feed && !skipped.skipped_no_identity
            &&& wanted && item.stream() is None ==> next.step is Over && skipped.skipped_no_stream
                && consistent(skipped)
            &&& wanted && item.stream() is Some && feed is None ==> next.step is Over
                && skipped.skipped_no_feed && consistent(skipped)
            &&& wanted && item.stream() is Some && feed is Some && text::blank(item.id@)
                && item.link() is None ==> next.step is Over && skipped.skipped_no_identity
                && consistent(skipped)
            &&& wanted && item.stream() is Some && feed is Some && (!text::blank(item.id@)
                || item.link() is Some) ==> next.step == (ApplyStep::Render { feed: feed->0 })
        }),
{
}

/// An outcome says at most one of matched, imported and the three skips, and
/// a changed state, a gained id and a queued change only of a matched item.
pub proof fn law_consistent_outcomes_say_one_thing(applied: RemoteItemApply)
    requires
        consistent(applied),
    ensures
        applied.imported ==> !applied.matched && !applied.skipped_no_stream
            && !applied.skipped_no_feed && !applied.skipped_no_identity,
        applied.skipped_no_stream ==> !applied.matched && !applied.skipped_no_feed
            && !applied.skipped_no_identity,
        applied.skipped_no_feed ==> !applied.matched && !applied.skipped_no_identity,
        applied.skipped_no_identity ==> !applied.matched,
        applied.state_changed || applied.pending_gained_remote_id
            || applied.queued_local_read_push ==> applied.matched,
        !(applied.state_changed && applied.pending_gained_remote_id),
{
}

/// An application takes only the answer that it asked for: any other leaves it
/// as it is.
pub proof fn law_unasked_answers_leave_an_application(
    apply: ApplyView,
    found: Option<i64>,
    yes: bool,
    rendered: Rendered,
)
    requires
        apply.wf(),
    ensures
        !(apply.asks() is FindByUrl) && !(apply.asks() is FindByGuid) ==> apply.after_find(found)
            == apply,
        !(apply.asks() is SetRemoteId) ==> apply.after_link() == apply,
        !(apply.asks() is ReadState) ==> apply.after_compare(yes) == apply,
        !(apply.asks() is Queue) ==> apply.after_queue() == apply,
        !(apply.asks() is SetState) ==> apply.after_settle(yes) == apply,
        !(apply.asks() is Render) ==> apply.after_render(rendered) == apply,
        !(apply.asks() is Upsert) ==> apply.after_upsert() == apply,
        apply.asks() is End <==> apply.step is Over,
{
}

/// An imported article that is not found again counts as nothing.
pub proof fn law_lost_imports_are_not_counted(apply: ApplyView)
    requires
        apply.step is FindImported,
    ensures
        apply.after_find(None).step is Over,
        !apply.after_find(None).step->applied.imported,
        !apply.after_find(None).step->applied.matched,
{
}

} // verus!
