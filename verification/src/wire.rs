//! What the server sends, field by field.

use vstd::prelude::*;
use crate::provider::{READ_TAG, STARRED_TAG};
use crate::text;

verus! {

/// The list of subscriptions.
#[derive(Debug)]
pub struct SubList {
    pub subscriptions: Vec<Sub>,
}

/// One subscription.
#[derive(Debug)]
pub struct Sub {
    pub id: Option<String>,
    pub url: Option<String>,
    pub title: Option<String>,
    pub categories: Vec<SubscriptionCategory>,
}

/// A category that a subscription was filed under.
#[derive(Debug)]
pub struct SubscriptionCategory {
    pub id: Option<String>,
    pub label: Option<String>,
    pub kind: Option<String>,
}

/// The unread counts of all streams.
#[derive(Debug)]
pub struct UnreadCounts {
    pub max: Option<usize>,
    pub unreadcounts: Vec<UnreadCount>,
}

/// The unread count of one stream.
#[derive(Debug)]
pub struct UnreadCount {
    pub id: String,
    pub count: usize,
}

/// One page of a stream.
#[derive(Debug)]
pub struct Contents {
    pub items: Vec<Item>,
    pub continuation: Option<String>,
}

/// One item of a stream.
#[derive(Debug)]
pub struct Item {
    pub id: String,
    pub title: Option<String>,
    pub author: Option<String>,
    pub published: Option<i64>,
    pub categories: Vec<String>,
    pub canonical: Vec<Href>,
    pub alternate: Vec<Href>,
    pub summary: Option<TextContent>,
    pub content: Option<TextContent>,
    pub origin: Option<Origin>,
    pub enclosure: Vec<RemoteEnclosure>,
}

#[derive(Debug)]
pub struct Href {
    pub href: String,
}

#[derive(Debug)]
pub struct TextContent {
    pub content: Option<String>,
}

/// The feed that an item came from.
#[derive(Debug)]
pub struct Origin {
    pub stream_id: Option<String>,
    pub html_url: Option<String>,
}

#[derive(Debug)]
pub struct RemoteEnclosure {
    pub href: Option<String>,
    pub url: Option<String>,
    pub mime_type: Option<String>,
    pub length: Option<i64>,
}

/// `s` where it has characters.
pub open spec fn some_nonempty(s: Seq<char>) -> Option<Seq<char>> {
    if s.len() > 0 {
        Some(s)
    } else {
        None
    }
}

impl Item {
    /// The first canonical link, or the first alternate link where there is
    /// no canonical one.
    pub open spec fn first_link(self) -> Option<Seq<char>> {
        if self.canonical@.len() > 0 {
            Some(self.canonical@[0].href@)
        } else if self.alternate@.len() > 0 {
            Some(self.alternate@[0].href@)
        } else {
            None
        }
    }

    /// The URL of the item: its first link, trimmed, unless nothing is left.
    pub open spec fn link(self) -> Option<Seq<char>> {
        match self.first_link() {
            Some(href) => some_nonempty(text::trimmed(href)),
            None => None,
        }
    }

    /// Whether the item carries the tag.
    pub open spec fn tagged(self, tag: Seq<char>) -> bool {
        exists|i: int| 0 <= i < self.categories@.len() && #[trigger] self.categories@[i]@ == tag
    }

    pub open spec fn read(self) -> bool {
        self.tagged(READ_TAG@)
    }

    pub open spec fn starred(self) -> bool {
        self.tagged(STARRED_TAG@)
    }

    /// The stream of the feed that the item came from.
    pub open spec fn stream(self) -> Option<Seq<char>> {
        match self.origin {
            Some(origin) => match origin.stream_id {
                Some(id) => some_nonempty(text::trimmed(id@)),
                None => None,
            },
            None => None,
        }
    }
}

/// The URL of an item.
pub fn item_url(item: &Item) -> (r: Option<String>)
    ensures
        r.deep_view() == item.link(),
{
    let href: &str = if item.canonical.len() > 0 {
        item.canonical[0].href.as_str()
    } else if item.alternate.len() > 0 {
        item.alternate[0].href.as_str()
    } else {
        return None;
    };
    let url: &str = text::trim(href);
    if url.is_empty() {
        None
    } else {
        Some(url.to_owned())
    }
}

fn has_category(item: &Item, tag: &str) -> (r: bool)
    ensures
        r == item.tagged(tag@),
{
    let mut i: usize = 0;
    while i < item.categories.len()
        invariant
            i <= item.categories.len(),
            forall|k: int| 0 <= k < i ==> #[trigger] item.categories@[k]@ != tag@,
        decreases item.categories.len() - i,
    {
        if text::same(item.categories[i].as_str(), tag) {
            return true;
        }
        i = i + 1;
    }
    false
}

/// Whether the server holds the item for read.
pub fn item_is_read(item: &Item) -> (r: bool)
    ensures
        r == item.read(),
{
    has_category(item, READ_TAG)
}

/// Whether the server holds the item for starred.
pub fn item_is_starred(item: &Item) -> (r: bool)
    ensures
        r == item.starred(),
{
    has_category(item, STARRED_TAG)
}

/// The stream of the feed that an item came from.
pub fn item_remote_stream_id(item: &Item) -> (r: Option<&str>)
    ensures
        r.deep_view() == item.stream(),
{
    match &item.origin {
        Some(origin) => match &origin.stream_id {
            Some(id) => {
                let id: &str = text::trim(id.as_str());
                if id.is_empty() {
                    None
                } else {
                    Some(id)
                }
            },
            None => None,
        },
        None => None,
    }
}

/// An item is read exactly where the read tag is among its categories, and
/// starred exactly where the starred tag is, whatever its other categories
/// are.
pub proof fn law_tags_say_what_an_item_is(item: Item)
    ensures
        item.read() <==> exists|i: int|
            0 <= i < item.categories@.len() && #[trigger] item.categories@[i]@
                == "user/-/state/com.google/read"@,
        item.starred() <==> exists|i: int|
            0 <= i < item.categories@.len() && #[trigger] item.categories@[i]@
                == "user/-/state/com.google/starred"@,
{
}

/// The URL of an item is its first canonical link, or else its first
/// alternate link, without white space around it, and there is none where
/// that link is blank or missing.
pub proof fn law_url_is_the_first_link(item: Item)
    ensures
        ({
            let links = if item.canonical@.len() > 0 {
                item.canonical@
            } else {
                item.alternate@
            };
            &&& item.link() is Some <==> links.len() > 0 && !text::blank(links[0].href@)
            &&& item.link() matches Some(url) ==> url == text::trimmed(links[0].href@)
        }),
{
    if item.canonical@.len() > 0 {
        text::lemma_trimmed(item.canonical@[0].href@);
    } else if item.alternate@.len() > 0 {
        text::lemma_trimmed(item.alternate@[0].href@);
    }
}

/// The stream of an item is the stream id of its origin, without white space
/// around it, and there is none where that is blank or missing.
pub proof fn law_stream_is_that_of_the_origin(item: Item)
    ensures
        item.stream() is Some <==> (item.origin matches Some(origin) && (origin.stream_id matches Some(
            id,
        ) && !text::blank(id@))),
        item.stream() matches Some(stream) ==> stream == text::trimmed(
            item.origin->0.stream_id->0@,
        ),
{
    if item.origin is Some && item.origin->0.stream_id is Some {
        text::lemma_trimmed(item.origin->0.stream_id->0@);
    }
}

} // verus!
