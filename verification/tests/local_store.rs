use std::collections::HashSet;

use greader_sync::apply::{apply_remote_item, ApplyAction, RemoteItemApply};
use greader_sync::article::{NewArticle, RenderRequest, Rendered};
use greader_sync::edits::SyncEntry;
use greader_sync::feed_ids::{FeedIds, FeedUrls};
use greader_sync::provider::{Provider, READ_TAG, STARRED_TAG};
use greader_sync::subscriptions::{sync_subscription_to_local, SubAction};
use greader_sync::wire::{Href, Item, Origin, Sub, SubscriptionCategory, TextContent};

struct Feed {
    url: String,
    title: String,
    folder: Option<i64>,
}

struct Article {
    feed: i64,
    guid: String,
    url: Option<String>,
    title: String,
    body_text: String,
    published_at: Option<String>,
    is_read: bool,
    is_starred: bool,
    remote_id: Option<String>,
}

/// A local store in memory; ids are indices.
#[derive(Default)]
struct Store {
    folders: Vec<String>,
    feeds: Vec<Feed>,
    articles: Vec<Article>,
    queue: Vec<(i64, String, bool)>,
    log: Vec<&'static str>,
}

impl Store {
    fn folder_id_by_name(&mut self, name: &str) -> i64 {
        match self.folders.iter().position(|f| f == name) {
            Some(i) => i as i64,
            None => {
                self.folders.push(name.to_string());
                self.folders.len() as i64 - 1
            }
        }
    }

    fn find_feed_by_url(&self, url: &str) -> Option<i64> {
        self.feeds.iter().position(|f| f.url == url).map(|i| i as i64)
    }

    fn insert_feed(&mut self, url: &str, title: &str, folder: Option<i64>) -> i64 {
        self.feeds.push(Feed {
            url: url.to_string(),
            title: title.to_string(),
            folder,
        });
        self.feeds.len() as i64 - 1
    }

    fn feed_folder_name(&self, url: &str) -> Option<String> {
        let feed = &self.feeds[self.find_feed_by_url(url).unwrap() as usize];
        feed.folder.map(|id| self.folders[id as usize].clone())
    }

    fn article_id_by_url(&self, url: &str) -> Option<i64> {
        self.articles
            .iter()
            .position(|a| a.url.as_deref() == Some(url))
            .map(|i| i as i64)
    }

    fn article_id_by_feed_guid(&self, feed: i64, guid: &str) -> Option<i64> {
        self.articles
            .iter()
            .position(|a| a.feed == feed && a.guid == guid)
            .map(|i| i as i64)
    }

    fn upsert_article(&mut self, feed: i64, new: &NewArticle) {
        if self.article_id_by_feed_guid(feed, &new.guid).is_none() {
            self.articles.push(Article {
                feed,
                guid: new.guid.clone(),
                url: new.url.clone(),
                title: new.title.clone(),
                body_text: new.body_text.clone(),
                published_at: new.published_at.clone(),
                is_read: false,
                is_starred: false,
                remote_id: None,
            });
        }
    }

    fn set_sync_state(&mut self, article: i64, read: bool, starred: bool) -> bool {
        let a = &mut self.articles[article as usize];
        let changed = a.is_read != read || a.is_starred != starred;
        a.is_read = read;
        a.is_starred = starred;
        changed
    }

    fn enqueue_sync(&mut self, article: i64, field: &str, value: bool) {
        self.queue.push((article, field.to_string(), value));
    }

    fn pending_sync_article_ids(&self) -> HashSet<i64> {
        self.queue.iter().map(|(id, _, _)| *id).collect()
    }

    /// Takes the changes whose articles have a remote id.
    fn take_sync_queue(&mut self) -> Vec<SyncEntry> {
        let mut taken = Vec::new();
        let mut left = Vec::new();
        for (article, field, value) in self.queue.drain(..) {
            match &self.articles[article as usize].remote_id {
                Some(remote_id) => taken.push(SyncEntry {
                    article_id: article,
                    remote_id: remote_id.clone(),
                    field,
                    value,
                }),
                None => left.push((article, field, value)),
            }
        }
        self.queue = left;
        taken
    }

    fn count_unread(&self) -> usize {
        self.articles.iter().filter(|a| !a.is_read).count()
    }

    fn pull(&mut self, provider: Provider, sub: &Sub, dropping: &Vec<String>, feeds: &mut FeedIds) {
        let unsubscribing = FeedUrls::of(dropping);
        let mut pull = sync_subscription_to_local(provider, sub, &unsubscribing);
        loop {
            pull = match pull.action() {
                SubAction::FolderByName { name } => {
                    let id = self.folder_id_by_name(&name);
                    pull.filed(id)
                }
                SubAction::FindFeed { url } => {
                    let feed = self.find_feed_by_url(&url);
                    pull.found(feed)
                }
                SubAction::MoveFeed { feed, folder } => {
                    self.feeds[feed as usize].folder = folder;
                    pull.moved()
                }
                SubAction::InsertFeed { url, title, folder } => {
                    let feed = self.insert_feed(&url, &title, folder);
                    pull.inserted(feed)
                }
                SubAction::End => break,
            };
        }
        pull.record(feeds);
    }

    fn apply(
        &mut self,
        item: &Item,
        feeds: &FeedIds,
        pending: &HashSet<i64>,
        import: bool,
    ) -> RemoteItemApply {
        self.log.clear();
        let mut apply = apply_remote_item(item, feeds, pending, import);
        loop {
            apply = match apply.action() {
                ApplyAction::FindByUrl { url } => {
                    self.log.push("find by url");
                    apply.found(self.article_id_by_url(&url))
                }
                ApplyAction::FindByGuid { feed, guid } => {
                    self.log.push("find by guid");
                    apply.found(self.article_id_by_feed_guid(feed, &guid))
                }
                ApplyAction::SetRemoteId { article, remote_id } => {
                    self.log.push("set remote id");
                    self.articles[article as usize].remote_id = Some(remote_id);
                    apply.linked()
                }
                ApplyAction::ReadState { article } => {
                    self.log.push("read state");
                    apply.compared(self.articles[article as usize].is_read)
                }
                ApplyAction::Queue { article, field, value } => {
                    self.log.push("queue");
                    self.enqueue_sync(article, &field, value);
                    apply.queued()
                }
                ApplyAction::SetState { article, read, starred } => {
                    self.log.push("set state");
                    let changed = self.set_sync_state(article, read, starred);
                    apply.settled(changed)
                }
                ApplyAction::Render(request) => {
                    self.log.push("render");
                    apply.rendered(render(request))
                }
                ApplyAction::Upsert { feed, new } => {
                    self.log.push("upsert");
                    self.upsert_article(feed, &new);
                    apply.upserted()
                }
                ApplyAction::End => break,
            };
        }
        apply.outcome().unwrap()
    }
}

fn plain(html: &str) -> String {
    let mut text = String::new();
    let mut inside = false;
    for c in html.chars() {
        match c {
            '<' => inside = true,
            '>' => inside = false,
            _ if !inside => text.push(c),
            _ => {}
        }
    }
    text
}

fn render(request: RenderRequest) -> Rendered {
    Rendered {
        content_html: request.html.clone(),
        body_text: plain(&request.html),
        image_url: None,
        summary: plain(request.summary.as_deref().unwrap_or("")),
        published: request.published,
    }
}

fn unread_item(stream_id: &str, url: &str) -> Item {
    Item {
        id: "tag:google.com,2005:reader/item/0000000000000001".to_string(),
        title: Some("Remote unread".to_string()),
        author: Some("FreshRSS".to_string()),
        published: Some(1_700_000_000),
        categories: vec!["user/-/state/com.google/reading-list".to_string()],
        canonical: vec![Href {
            href: url.to_string(),
        }],
        alternate: Vec::new(),
        summary: Some(TextContent {
            content: Some("<p>Hello <strong>world</strong></p>".to_string()),
        }),
        content: None,
        origin: Some(Origin {
            stream_id: Some(stream_id.to_string()),
            html_url: Some("https://example.com".to_string()),
        }),
        enclosure: Vec::new(),
    }
}

fn subscription(feed_url: &str, title: &str, folder: Option<&str>) -> Sub {
    Sub {
        id: Some(format!("feed/{feed_url}")),
        url: Some(feed_url.to_string()),
        title: Some(title.to_string()),
        categories: folder
            .map(|name| {
                vec![SubscriptionCategory {
                    id: Some(format!("user/-/label/{name}")),
                    label: Some(name.to_string()),
                    kind: Some("folder".to_string()),
                }]
            })
            .unwrap_or_default(),
    }
}

fn local_article(guid: &str, url: &str, title: &str) -> NewArticle {
    NewArticle {
        guid: guid.to_string(),
        url: Some(url.to_string()),
        title: title.to_string(),
        author: None,
        summary: None,
        content_html: None,
        body_text: String::new(),
        image_url: None,
        published_at: None,
        enclosures: Vec::new(),
    }
}

#[test]
fn freshrss_subscription_pull_places_new_feed_in_remote_folder() {
    let mut store = Store::default();
    let sub = subscription("https://remote.example/feed.xml", "Remote", Some("Tech"));
    let mut remote_feed_ids = FeedIds::new();

    store.pull(Provider::FreshRss, &sub, &Vec::new(), &mut remote_feed_ids);

    let feed_id = store
        .find_feed_by_url("https://remote.example/feed.xml")
        .unwrap();
    assert_eq!(
        store
            .feed_folder_name("https://remote.example/feed.xml")
            .as_deref(),
        Some("Tech")
    );
    assert_eq!(
        remote_feed_ids.get("feed/https://remote.example/feed.xml"),
        Some(feed_id)
    );
}

#[test]
fn freshrss_subscription_pull_remote_folder_overwrites_existing_local_move() {
    let mut store = Store::default();
    let local_folder = store.folder_id_by_name("Local");
    store.insert_feed("https://remote.example/feed.xml", "Remote", Some(local_folder));
    let sub = subscription("https://remote.example/feed.xml", "Remote", Some("FreshRSS"));
    let mut remote_feed_ids = FeedIds::new();

    store.pull(Provider::FreshRss, &sub, &Vec::new(), &mut remote_feed_ids);

    assert_eq!(
        store
            .feed_folder_name("https://remote.example/feed.xml")
            .as_deref(),
        Some("FreshRSS")
    );
}

#[test]
fn freshrss_subscription_pull_default_category_clears_local_folder() {
    let mut store = Store::default();
    let local_folder = store.folder_id_by_name("Local");
    store.insert_feed("https://remote.example/feed.xml", "Remote", Some(local_folder));
    let sub = subscription(
        "https://remote.example/feed.xml",
        "Remote",
        Some("Uncategorized"),
    );
    let mut remote_feed_ids = FeedIds::new();

    store.pull(Provider::FreshRss, &sub, &Vec::new(), &mut remote_feed_ids);

    assert_eq!(
        store.feed_folder_name("https://remote.example/feed.xml"),
        None
    );
}

#[test]
fn remote_unread_stream_imports_missing_local_article() {
    let mut store = Store::default();
    let feed_id = store.insert_feed("https://example.com/feed.xml", "Example", None);
    let mut remote_feed_ids = FeedIds::new();
    remote_feed_ids.insert("feed/42", feed_id);

    let item = unread_item("feed/42", "https://example.com/old-unread");
    let applied = store.apply(&item, &remote_feed_ids, &HashSet::new(), true);

    assert!(applied.imported);
    assert_eq!(store.count_unread(), 1);
    let id = store
        .article_id_by_url("https://example.com/old-unread")
        .unwrap();
    let article = &store.articles[id as usize];
    assert_eq!(article.title, "Remote unread");
    assert!(!article.is_read);
    assert_eq!(article.remote_id.as_deref(), Some(item.id.as_str()));
    assert_eq!(article.body_text, "Hello world");
    assert_eq!(article.published_at.as_deref(), Some("2023-11-14T22:13:20+00:00"));
}

#[test]
fn remote_unread_stream_existing_local_read_queues_remote_read_push() {
    let mut store = Store::default();
    let feed_id = store.insert_feed("https://example.com/feed.xml", "Example", None);
    let article = local_article("local-guid", "https://example.com/old-unread", "Local article");
    store.upsert_article(feed_id, &article);
    let article_id = store
        .article_id_by_url("https://example.com/old-unread")
        .unwrap();
    store.set_sync_state(article_id, true, false);
    let mut remote_feed_ids = FeedIds::new();
    remote_feed_ids.insert("feed/42", feed_id);

    let item = unread_item("feed/42", "https://example.com/old-unread");
    let applied = store.apply(&item, &remote_feed_ids, &HashSet::new(), true);

    assert!(applied.matched);
    assert!(!applied.imported);
    assert!(!applied.state_changed);
    assert!(applied.pending_gained_remote_id);
    assert_eq!(store.count_unread(), 0);
    let entries = store.take_sync_queue();
    assert_eq!(entries.len(), 1);
    assert_eq!(entries[0].remote_id, item.id);
    assert_eq!(entries[0].field, "read");
    assert!(entries[0].value);

    let applied_again = store.apply(&item, &remote_feed_ids, &HashSet::new(), true);
    assert!(applied_again.matched);
    assert!(applied_again.pending_gained_remote_id);
}

#[test]
fn remote_unread_pending_local_edit_gains_remote_id_without_overwriting_state() {
    let mut store = Store::default();
    let feed_id = store.insert_feed("https://example.com/feed.xml", "Example", None);
    let article = local_article("local-guid", "https://example.com/old-unread", "Local article");
    store.upsert_article(feed_id, &article);
    let article_id = store
        .article_id_by_url("https://example.com/old-unread")
        .unwrap();
    store.set_sync_state(article_id, true, false);
    store.enqueue_sync(article_id, "read", true);
    let mut remote_feed_ids = FeedIds::new();
    remote_feed_ids.insert("feed/42", feed_id);
    let pending: HashSet<i64> = store.pending_sync_article_ids();

    let item = unread_item("feed/42", "https://example.com/old-unread");
    let applied = store.apply(&item, &remote_feed_ids, &pending, true);

    assert!(applied.matched);
    assert!(applied.pending_gained_remote_id);
    assert!(!applied.state_changed);
    assert_eq!(store.count_unread(), 0);
    let entries = store.take_sync_queue();
    assert_eq!(entries.len(), 1);
    assert_eq!(entries[0].remote_id, item.id);
    assert_eq!(entries[0].field, "read");
    assert!(entries[0].value);
}

#[test]
fn remote_unread_stream_without_feed_mapping_does_not_import() {
    let mut store = Store::default();
    let item = unread_item("feed/42", "https://example.com/old-unread");
    let applied = store.apply(&item, &FeedIds::new(), &HashSet::new(), true);

    assert!(!applied.imported);
    assert!(applied.skipped_no_feed);
    assert_eq!(store.count_unread(), 0);
}

#[test]
fn pending_edit_gets_its_remote_id_and_nothing_else() {
    let mut store = Store::default();
    let feed = store.insert_feed("f", "F", None);
    store.upsert_article(feed, &local_article("g", "https://a", "A"));
    store.enqueue_sync(0, "starred", true);
    let mut item = unread_item("feed/1", "https://a");
    item.categories = vec![READ_TAG.to_string(), STARRED_TAG.to_string()];
    let pending = store.pending_sync_article_ids();
    for import in [true, false] {
        let applied = store.apply(&item, &FeedIds::new(), &pending, import);
        assert!(applied.matched && applied.pending_gained_remote_id);
        assert_eq!(store.log, ["find by url", "set remote id"]);
        assert!(!store.articles[0].is_read && !store.articles[0].is_starred);
    }
}

#[test]
fn remote_state_is_taken_over() {
    let mut store = Store::default();
    let feed = store.insert_feed("f", "F", None);
    store.upsert_article(feed, &local_article("g", "https://a", "A"));
    let mut item = unread_item("feed/1", "https://a");
    item.categories = vec![READ_TAG.to_string(), STARRED_TAG.to_string()];
    let applied = store.apply(&item, &FeedIds::new(), &HashSet::new(), false);
    assert_eq!(
        applied,
        RemoteItemApply {
            matched: true,
            state_changed: true,
            ..RemoteItemApply::default()
        }
    );
    assert!(store.articles[0].is_read && store.articles[0].is_starred);
    let again = store.apply(&item, &FeedIds::new(), &HashSet::new(), false);
    assert!(again.matched && !again.state_changed);
    item.categories = Vec::new();
    let unread = store.apply(&item, &FeedIds::new(), &HashSet::new(), false);
    assert!(unread.state_changed && !unread.queued_local_read_push);
    assert!(!store.articles[0].is_read);
}

#[test]
fn local_unread_article_stays_unread_and_gets_the_star() {
    let mut store = Store::default();
    let feed = store.insert_feed("f", "F", None);
    store.upsert_article(feed, &local_article("g", "https://a", "A"));
    let mut item = unread_item("feed/1", " https://a ");
    item.categories = vec![STARRED_TAG.to_string()];
    let applied = store.apply(&item, &FeedIds::new(), &HashSet::new(), true);
    assert!(applied.matched && applied.state_changed);
    assert_eq!(store.log, ["find by url", "set remote id", "read state", "set state"]);
    assert!(store.articles[0].is_starred && !store.articles[0].is_read);
    assert!(store.queue.is_empty());
}

#[test]
fn read_items_are_not_imported() {
    let mut store = Store::default();
    let mut feeds = FeedIds::new();
    feeds.insert("feed/1", 0);
    let mut item = unread_item("feed/1", "https://a");
    assert_eq!(
        store.apply(&item, &feeds, &HashSet::new(), false),
        RemoteItemApply::default()
    );
    item.categories = vec![READ_TAG.to_string()];
    assert_eq!(
        store.apply(&item, &feeds, &HashSet::new(), true),
        RemoteItemApply::default()
    );
    assert_eq!(store.log, ["find by url"]);
}

#[test]
fn item_without_url_is_imported_by_its_id() {
    let mut store = Store::default();
    let feed = store.insert_feed("f", "F", None);
    let mut feeds = FeedIds::new();
    feeds.insert("feed/1", feed);
    let mut item = unread_item(" feed/1 ", "  ");
    item.categories.push(STARRED_TAG.to_string());
    let applied = store.apply(&item, &feeds, &HashSet::new(), true);
    assert_eq!(
        applied,
        RemoteItemApply {
            imported: true,
            ..RemoteItemApply::default()
        }
    );
    assert_eq!(
        store.log,
        ["render", "upsert", "find by guid", "set remote id", "set state"]
    );
    assert_eq!(store.articles[0].guid, item.id);
    assert!(store.articles[0].is_starred && !store.articles[0].is_read);
}

#[test]
fn items_that_cannot_be_placed_are_skipped() {
    let mut store = Store::default();
    let mut feeds = FeedIds::new();
    feeds.insert("feed/1", 0);
    let mut item = unread_item("  ", "https://a");
    assert!(store.apply(&item, &feeds, &HashSet::new(), true).skipped_no_stream);
    item.origin = None;
    assert!(store.apply(&item, &feeds, &HashSet::new(), true).skipped_no_stream);
    let unknown = unread_item("feed/2", "https://a");
    assert!(store.apply(&unknown, &feeds, &HashSet::new(), true).skipped_no_feed);
    let mut nameless = unread_item("feed/1", "");
    nameless.id = " ".to_string();
    assert_eq!(
        store.apply(&nameless, &feeds, &HashSet::new(), true),
        RemoteItemApply {
            skipped_no_identity: true,
            ..RemoteItemApply::default()
        }
    );
    assert!(store.articles.is_empty());
}

#[test]
fn imported_article_that_is_not_found_again_is_not_counted() {
    let feeds = {
        let mut feeds = FeedIds::new();
        feeds.insert("feed/1", 0);
        feeds
    };
    let item = unread_item("feed/1", "https://a");
    let pending = HashSet::new();
    let apply = apply_remote_item(&item, &feeds, &pending, true).found(None);
    let apply = match apply.action() {
        ApplyAction::Render(request) => {
            assert!(request.sanitize);
            apply.rendered(render(request))
        }
        other => panic!("{other:?}"),
    };
    assert_eq!(apply.outcome(), None);
    let apply = apply.upserted().found(None);
    assert_eq!(apply.outcome(), Some(RemoteItemApply::default()));
}

#[test]
fn pending_unsubscription_keeps_the_feed_away() {
    let mut store = Store::default();
    let sub = subscription("https://a/f", "A", Some("Tech"));
    let dropping = vec!["https://b/f".to_string(), "https://a/f".to_string()];
    let mut feeds = FeedIds::new();
    store.pull(Provider::FreshRss, &sub, &dropping, &mut feeds);
    assert!(store.feeds.is_empty() && store.folders.is_empty());
    assert_eq!(feeds.get("feed/https://a/f"), None);
    store.pull(Provider::Miniflux, &sub, &dropping, &mut feeds);
    assert_eq!(feeds.get("feed/https://a/f"), Some(0));
}

#[test]
fn other_providers_leave_folders_alone() {
    let mut store = Store::default();
    let local = store.folder_id_by_name("Local");
    store.insert_feed("https://a/f", "A", Some(local));
    let mut feeds = FeedIds::new();
    for url in ["https://a/f", "https://b/f"] {
        let sub = subscription(url, "T", Some("Tech"));
        store.pull(Provider::Miniflux, &sub, &Vec::new(), &mut feeds);
    }
    assert_eq!(store.feed_folder_name("https://a/f").as_deref(), Some("Local"));
    assert_eq!(store.feed_folder_name("https://b/f"), None);
    assert_eq!(store.folders, ["Local"]);
}

#[test]
fn subscription_details_may_be_missing() {
    let mut store = Store::default();
    let mut feeds = FeedIds::new();
    let mut sub = subscription("https://a/f", "A", None);
    sub.title = None;
    sub.id = Some(String::new());
    store.pull(Provider::FreshRss, &sub, &Vec::new(), &mut feeds);
    assert_eq!(store.feeds[0].title, "https://a/f");
    assert_eq!(feeds.get(""), None);
    sub.url = Some(String::new());
    store.pull(Provider::FreshRss, &sub, &Vec::new(), &mut feeds);
    sub.url = None;
    store.pull(Provider::FreshRss, &sub, &Vec::new(), &mut feeds);
    assert_eq!(store.feeds.len(), 1);
}

#[test]
fn feed_of_a_stream_is_the_last_one_noted() {
    let mut feeds = FeedIds::new();
    feeds.insert("a", 1);
    feeds.insert("b", 2);
    feeds.insert("a", 3);
    assert_eq!(feeds.get("a"), Some(3));
    assert_eq!(feeds.get("b"), Some(2));
    assert_eq!(feeds.get("c"), None);
}

#[test]
fn sets_of_urls_hold_what_was_listed() {
    let list = vec!["https://a".to_string(), "https://b".to_string(), "https://a".to_string()];
    let urls = FeedUrls::of(&list);
    assert!(urls.contains("https://a") && urls.contains("https://b"));
    assert!(!urls.contains("https://") && !urls.contains(""));
}
