//! Bringing remote subscriptions to the local store.

use vstd::prelude::*;
use vstd::string::*;
use crate::feed_ids::{FeedIds, FeedUrls};
use crate::freshrss;
use crate::provider::Provider;
use crate::wire;
use crate::wire::Sub;

verus! {

/// How far a subscription has come.
#[derive(Clone, Copy, Debug, PartialEq, Eq, Structural)]
pub enum SubStep {
    /// The local folder is to be looked up or made.
    Folder,
    /// The local feed is to be found.
    Find { folder: Option<i64> },
    /// The local feed is to be moved to the folder.
    Move { feed: i64, folder: Option<i64> },
    /// A local feed is to be made.
    Insert { folder: Option<i64> },
    /// The subscription is done with, and belongs to the feed.
    Over { local: Option<i64> },
}

/// One subscription on its way to the local store.
#[derive(Debug)]
pub struct SubscriptionPull<'a> {
    provider: Provider,
    sub: &'a Sub,
    step: SubStep,
}

/// The state of a subscription on its way.
pub struct SubView {
    pub provider: Provider,
    pub sub: Sub,
    pub step: SubStep,
}

impl<'a> View for SubscriptionPull<'a> {
    type V = SubView;

    closed spec fn view(&self) -> SubView {
        SubView { provider: self.provider, sub: *self.sub, step: self.step }
    }
}

/// What a subscription asks for next.
#[derive(Debug)]
pub enum SubAction {
    /// Look up a folder by name, making it where it is missing; `filed`
    /// takes it.
    FolderByName { name: String },
    /// Find a feed by its URL; `found` takes it.
    FindFeed { url: String },
    /// Move a feed to a folder, or out of its folder; `moved` is called
    /// afterwards.
    MoveFeed { feed: i64, folder: Option<i64> },
    /// Make a feed; `inserted` takes it.
    InsertFeed { url: String, title: String, folder: Option<i64> },
    /// Nothing: the subscription is done with.
    End,
}

/// What a subscription asks for next.
pub enum SubActionView {
    FolderByName { name: Seq<char> },
    FindFeed { url: Seq<char> },
    MoveFeed { feed: i64, folder: Option<i64> },
    InsertFeed { url: Seq<char>, title: Seq<char>, folder: Option<i64> },
    End,
}

impl View for SubAction {
    type V = SubActionView;

    open spec fn view(&self) -> SubActionView {
        match self {
            SubAction::FolderByName { name } => SubActionView::FolderByName { name: name@ },
            SubAction::FindFeed { url } => SubActionView::FindFeed { url: url@ },
            SubAction::MoveFeed { feed, folder } => SubActionView::MoveFeed {
                feed: *feed,
                folder: *folder,
            },
            SubAction::InsertFeed { url, title, folder } => SubActionView::InsertFeed {
                url: url@,
                title: title@,
                folder: *folder,
            },
            SubAction::End => SubActionView::End,
        }
    }
}

impl Sub {
    /// The URL of the feed, unless empty.
    pub open spec fn feed_url(self) -> Option<Seq<char>> {
        match self.url {
            Some(url) => wire::some_nonempty(url@),
            None => None,
        }
    }

    /// The id of the remote stream, unless empty.
    pub open spec fn stream_id(self) -> Option<Seq<char>> {
        match self.id {
            Some(id) => wire::some_nonempty(id@),
            None => None,
        }
    }

    /// The folder that the subscription is filed under.
    pub open spec fn folder(self) -> Option<Seq<char>> {
        freshrss::first_folder(self.categories@)
    }

    /// The title: that of the subscription, or else its URL.
    pub open spec fn name(self) -> Seq<char> {
        match self.title {
            Some(title) => title@,
            None => self.feed_url()->0,
        }
    }
}

/// Whether a subscription is taken over: it has a URL, and it is not one that
/// FreshRSS has yet to be told to drop.
pub open spec fn wanted(provider: Provider, sub: Sub, unsubscribing: Set<Seq<char>>) -> bool {
    match sub.feed_url() {
        Some(url) => provider != Provider::FreshRss || !unsubscribing.contains(url),
        None => false,
    }
}

impl SubView {
    /// The beginning: FreshRSS files subscriptions in folders.
    pub open spec fn start(provider: Provider, sub: Sub, unsubscribing: Set<Seq<char>>) -> SubView {
        SubView {
            provider,
            sub,
            step: if !wanted(provider, sub, unsubscribing) {
                SubStep::Over { local: None }
            } else if provider == Provider::FreshRss && sub.folder() is Some {
                SubStep::Folder
            } else {
                SubStep::Find { folder: None }
            },
        }
    }

    /// What the steps rely on.
    pub open spec fn wf(self) -> bool {
        &&& !(self.step is Over) ==> self.sub.feed_url() is Some
        &&& self.step is Folder ==> self.sub.folder() is Some
        &&& self.step is Folder || self.step is Move ==> self.provider == Provider::FreshRss
        &&& match self.step {
            SubStep::Find { folder } | SubStep::Insert { folder } => folder is Some
                ==> self.provider == Provider::FreshRss,
            _ => true,
        }
    }

    /// What is asked for next.
    pub open spec fn asks(self) -> SubActionView {
        match self.step {
            SubStep::Folder => SubActionView::FolderByName { name: self.sub.folder()->0 },
            SubStep::Find { folder } => SubActionView::FindFeed { url: self.sub.feed_url()->0 },
            SubStep::Move { feed, folder } => SubActionView::MoveFeed { feed, folder },
            SubStep::Insert { folder } => SubActionView::InsertFeed {
                url: self.sub.feed_url()->0,
                title: self.sub.name(),
                folder,
            },
            SubStep::Over { local } => SubActionView::End,
        }
    }

    /// After the folder was looked up.
    pub open spec fn after_folder(self, id: i64) -> SubView {
        match self.step {
            SubStep::Folder => SubView { step: SubStep::Find { folder: Some(id) }, ..self },
            _ => self,
        }
    }

    /// After the feed was looked for: one that is there is moved where the
    /// provider files it, else it is made.
    pub open spec fn after_find(self, found: Option<i64>) -> SubView {
        match self.step {
            SubStep::Find { folder } => SubView {
                step: match found {
                    Some(feed) => if self.provider == Provider::FreshRss {
                        SubStep::Move { feed, folder }
                    } else {
                        SubStep::Over { local: Some(feed) }
                    },
                    None => SubStep::Insert { folder },
                },
                ..self
            },
            _ => self,
        }
    }

    /// After the feed was moved.
    pub open spec fn after_move(self) -> SubView {
        match self.step {
            SubStep::Move { feed, folder } => SubView {
                step: SubStep::Over { local: Some(feed) },
                ..self
            },
            _ => self,
        }
    }

    /// After a feed was made.
    pub open spec fn after_insert(self, feed: i64) -> SubView {
        match self.step {
            SubStep::Insert { folder } => SubView {
                step: SubStep::Over { local: Some(feed) },
                ..self
            },
            _ => self,
        }
    }

    /// The feeds by stream with this subscription added.
    pub open spec fn recorded(self, feeds: Map<Seq<char>, i64>) -> Map<Seq<char>, i64> {
        match (self.step, self.sub.stream_id()) {
            (SubStep::Over { local: Some(feed) }, Some(stream)) => feeds.insert(stream, feed),
            _ => feeds,
        }
    }
}

fn url_of(sub: &Sub) -> (r: Option<&str>)
    ensures
        r.deep_view() == sub.feed_url(),
{
    match &sub.url {
        Some(url) => if url.as_str().is_empty() {
            None
        } else {
            Some(url.as_str())
        },
        None => None,
    }
}

/// Begins with a subscription. `unsubscribing` holds the URLs of the feeds
/// that FreshRSS has yet to be told to drop.
pub fn sync_subscription_to_local<'a>(
    provider: Provider,
    sub: &'a Sub,
    unsubscribing: &FeedUrls,
) -> (r: SubscriptionPull<'a>)
    ensures
        r@ == SubView::start(provider, *sub, unsubscribing@),
        r@.wf(),
{
    let step: SubStep = match url_of(sub) {
        None => SubStep::Over { local: None },
        Some(url) => {
            if provider == Provider::FreshRss && unsubscribing.contains(url) {
                SubStep::Over { local: None }
            } else if provider == Provider::FreshRss && freshrss::subscription_folder_name(
                sub,
            ).is_some() {
                SubStep::Folder
            } else {
                SubStep::Find { folder: None }
            }
        },
    };
    SubscriptionPull { provider, sub, step }
}

impl<'a> SubscriptionPull<'a> {
    fn at(self, step: SubStep) -> (r: SubscriptionPull<'a>)
        ensures
            r@ == (SubView { step, ..self@ }),
    {
        SubscriptionPull { provider: self.provider, sub: self.sub, step }
    }

    /// What is to be done next.
    pub fn action(&self) -> (r: SubAction)
        requires
            self@.wf(),
        ensures
            r@ == self@.asks(),
    {
        let url: &str = match url_of(self.sub) {
            Some(url) => url,
            None => {
                return SubAction::End;
            },
        };
        match self.step {
            SubStep::Folder => match freshrss::subscription_folder_name(self.sub) {
                Some(name) => SubAction::FolderByName { name },
                None => SubAction::End,
            },
            SubStep::Find { folder } => SubAction::FindFeed { url: url.to_owned() },
            SubStep::Move { feed, folder } => SubAction::MoveFeed { feed, folder },
            SubStep::Insert { folder } => {
                let title: String = match &self.sub.title {
                    Some(title) => title.clone(),
                    None => url.to_owned(),
                };
                SubAction::InsertFeed { url: url.to_owned(), title, folder }
            },
            SubStep::Over { local } => SubAction::End,
        }
    }

    /// Takes the folder.
    pub fn filed(self, id: i64) -> (r: SubscriptionPull<'a>)
        requires
            self@.wf(),
        ensures
            r@ == self@.after_folder(id),
            r@.wf(),
    {
        match self.step {
            SubStep::Folder => self.at(SubStep::Find { folder: Some(id) }),
            _ => self,
        }
    }

    /// Takes the feed that was found, if any.
    pub fn found(self, feed: Option<i64>) -> (r: SubscriptionPull<'a>)
        requires
            self@.wf(),
        ensures
            r@ == self@.after_find(feed),
            r@.wf(),
    {
        match self.step {
            SubStep::Find { folder } => {
                let step: SubStep = match feed {
                    Some(feed) => if self.provider == Provider::FreshRss {
                        SubStep::Move { feed, folder }
                    } else {
                        SubStep::Over { local: Some(feed) }
                    },
                    None => SubStep::Insert { folder },
                };
                self.at(step)
            },
            _ => self,
        }
    }

    /// Takes note that the feed was moved.
    pub fn moved(self) -> (r: SubscriptionPull<'a>)
        requires
            self@.wf(),
        ensures
            r@ == self@.after_move(),
            r@.wf(),
    {
        match self.step {
            SubStep::Move { feed, folder } => self.at(SubStep::Over { local: Some(feed) }),
            _ => self,
        }
    }

    /// Takes the feed that was made.
    pub fn inserted(self, feed: i64) -> (r: SubscriptionPull<'a>)
        requires
            self@.wf(),
        ensures
            r@ == self@.after_insert(feed),
            r@.wf(),
    {
        match self.step {
            SubStep::Insert { folder } => self.at(SubStep::Over { local: Some(feed) }),
            _ => self,
        }
    }

    /// Notes the feed under the id of its remote stream, once the
    /// subscription is done with.
    pub fn record(&self, feeds: &mut FeedIds)
        ensures
            final(feeds)@ == self@.recorded(old(feeds)@),
    {
        match self.step {
            SubStep::Over { local: Some(feed) } => match &self.sub.id {
                Some(id) => {
                    if !id.as_str().is_empty() {
                        feeds.insert(id.as_str(), feed);
                    }
                },
                None => {},
            },
            _ => {},
        }
    }
}

/// On FreshRSS the remote folder wins: a feed that is there is moved to the
/// folder that its subscription is filed under, or out of its folder where it
/// is filed under none.
pub proof fn law_freshrss_folder_wins(sub: Sub, unsubscribing: Set<Seq<char>>, folder: i64, feed: i64)
    requires
        wanted(Provider::FreshRss, sub, unsubscribing),
    ensures
        ({
            let start = SubView::start(Provider::FreshRss, sub, unsubscribing);
            let find = if sub.folder() is Some {
                start.after_folder(folder)
            } else {
                start
            };
            let target = if sub.folder() is Some {
                Some(folder)
            } else {
                None
            };
            &&& sub.folder() matches Some(name) ==> start.asks() == (SubActionView::FolderByName {
                name,
            })
            &&& find.asks() == (SubActionView::FindFeed { url: sub.feed_url()->0 })
            &&& find.after_find(Some(feed)).asks() == (SubActionView::MoveFeed {
                feed,
                folder: target,
            })
            &&& find.after_find(None).asks() == (SubActionView::InsertFeed {
                url: sub.feed_url()->0,
                title: sub.name(),
                folder: target,
            })
        }),
{
}

/// Other providers leave local folders alone: a feed that is there is not
/// moved, and one that is made is filed under no folder.
pub proof fn law_other_providers_leave_folders(
    provider: Provider,
    sub: Sub,
    unsubscribing: Set<Seq<char>>,
    feed: i64,
)
    requires
        provider != Provider::FreshRss,
        wanted(provider, sub, unsubscribing),
    ensures
        ({
            let start = SubView::start(provider, sub, unsubscribing);
            &&& start.asks() == (SubActionView::FindFeed { url: sub.feed_url()->0 })
            &&& start.after_find(Some(feed)).step == (SubStep::Over { local: Some(feed) })
            &&& start.after_find(None).asks() == (SubActionView::InsertFeed {
                url: sub.feed_url()->0,
                title: sub.name(),
                folder: None,
            })
        }),
{
}

/// A feed that FreshRSS has yet to be told to drop is not taken over again.
pub proof fn law_unsubscribed_feed_stays_away(
    sub: Sub,
    unsubscribing: Set<Seq<char>>,
    feeds: Map<Seq<char>, i64>,
)
    requires
        sub.feed_url() is Some,
        unsubscribing.contains(sub.feed_url()->0),
    ensures
        SubView::start(Provider::FreshRss, sub, unsubscribing).asks() is End,
        SubView::start(Provider::FreshRss, sub, unsubscribing).recorded(feeds) == feeds,
{
}

/// A feed that is made for a subscription with a title is made under that
/// title, as it came; only without a title is it made under its URL.
pub proof fn law_new_feeds_have_the_title_of_their_subscription(pull: SubView)
    requires
        pull.wf(),
        pull.asks() is InsertFeed,
    ensures
        pull.asks()->InsertFeed_url == pull.sub.url->0@,
        pull.sub.title matches Some(title) ==> pull.asks()->title == title@,
        pull.sub.title is None ==> pull.asks()->title == pull.sub.url->0@,
        pull.step == (SubStep::Insert { folder: pull.asks()->InsertFeed_folder }),
{
}

/// A subscription is passed over exactly where it has no URL, or where
/// FreshRSS has yet to be told to drop the feed. A feed is looked for by its
/// URL, as it came.
pub proof fn law_subscriptions_are_taken_over_by_url(
    provider: Provider,
    sub: Sub,
    unsubscribing: Set<Seq<char>>,
)
    ensures
        ({
            let start = SubView::start(provider, sub, unsubscribing);
            let passed = (sub.url matches Some(url) ==> url@.len() == 0) || (provider
                == Provider::FreshRss && unsubscribing.contains(sub.url->0@));
            &&& start.provider == provider && start.sub == sub
            &&& start.asks() is End <==> passed
            &&& !passed && start.asks() is FindFeed ==> start.asks()->FindFeed_url == sub.url->0@
            &&& !passed ==> (start.asks() is FolderByName <==> provider == Provider::FreshRss
                && freshrss::first_folder(sub.categories@) is Some)
            &&& start.asks() is FolderByName ==> start.asks()->name == freshrss::first_folder(
                sub.categories@,
            )->0
            &&& start.asks() is FindFeed ==> start.step == (SubStep::Find { folder: None })
        }),
{
}

/// A subscription that is done with is noted under the id of its stream, with
/// the feed that was found or made, and no other stream changes; without an id
/// or a feed nothing is noted.
pub proof fn law_feeds_are_noted_under_their_stream(
    pull: SubView,
    feeds: Map<Seq<char>, i64>,
    other: Seq<char>,
)
    ensures
        ({
            let after = pull.recorded(feeds);
            let id = pull.sub.id->0@;
            &&& (pull.step matches SubStep::Over { local: Some(feed) }) && pull.sub.id is Some
                && id.len() > 0 ==> after.dom().contains(id) && Some(after[id])
                == pull.step->local
            &&& (pull.sub.id is None || id.len() == 0 || !(pull.step is Over)
                || pull.step->local is None) ==> after == feeds
            &&& pull.sub.id is Some && other != id ==> (after.dom().contains(other)
                <==> feeds.dom().contains(other)) && after[other] == feeds[other]
        }),
{
}

/// The feed that a subscription belongs to is the one that was found, that was
/// moved or that was made.
pub proof fn law_subscriptions_belong_to_their_feed(
    find: SubView,
    folder: Option<i64>,
    feed: i64,
)
    requires
        find.step == (SubStep::Find { folder }),
    ensures
        find.provider == Provider::FreshRss ==> find.after_find(Some(feed)).after_move().step == (
        SubStep::Over { local: Some(feed) }),
        find.provider != Provider::FreshRss ==> find.after_find(Some(feed)).step == (
        SubStep::Over { local: Some(feed) }),
        find.after_find(None).step == (SubStep::Insert { folder }),
        find.after_find(None).after_insert(feed).step == (SubStep::Over { local: Some(feed) }),
        (SubView { step: SubStep::Folder, ..find }).after_folder(feed).step == (SubStep::Find {
            folder: Some(feed),
        }),
{
}

} // verus!
