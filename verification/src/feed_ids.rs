//! Which local feed each remote stream belongs to, and sets of feed URLs.

use vstd::hash_map::StringHashMap;
use vstd::hash_set::StringHashSet;
use vstd::prelude::*;
use vstd::string::*;

verus! {

/// The local feeds by the ids of their remote streams.
pub struct FeedIds {
    by_stream: StringHashMap<i64>,
}

impl View for FeedIds {
    type V = Map<Seq<char>, i64>;

    closed spec fn view(&self) -> Map<Seq<char>, i64> {
        self.by_stream@
    }
}

/// The feed of a stream, where one is known.
pub open spec fn feed_in(feeds: Map<Seq<char>, i64>, stream: Seq<char>) -> Option<i64> {
    if feeds.dom().contains(stream) {
        Some(feeds[stream])
    } else {
        None
    }
}

impl FeedIds {
    /// No stream is known.
    pub fn new() -> (r: FeedIds)
        ensures
            r@ == Map::<Seq<char>, i64>::empty(),
    {
        FeedIds { by_stream: StringHashMap::new() }
    }

    /// Notes the feed of a stream; one that was noted before is replaced.
    pub fn insert(&mut self, stream: &str, feed: i64)
        ensures
            final(self)@ == old(self)@.insert(stream@, feed),
    {
        self.by_stream.insert(stream.to_owned(), feed);
    }

    /// The feed of a stream.
    pub fn get(&self, stream: &str) -> (r: Option<i64>)
        ensures
            r == feed_in(self@, stream@),
    {
        match self.by_stream.get(stream) {
            Some(feed) => Some(*feed),
            None => None,
        }
    }
}

/// A set of feed URLs.
pub struct FeedUrls {
    urls: StringHashSet,
}

impl View for FeedUrls {
    type V = Set<Seq<char>>;

    closed spec fn view(&self) -> Set<Seq<char>> {
        self.urls@
    }
}

/// The texts of a list.
pub open spec fn texts_of(list: Seq<String>) -> Set<Seq<char>>
    decreases list.len(),
{
    if list.len() == 0 {
        Set::empty()
    } else {
        texts_of(list.drop_last()).insert(list.last()@)
    }
}

impl FeedUrls {
    /// The URLs of a list.
    pub fn of(list: &Vec<String>) -> (r: FeedUrls)
        ensures
            r@ == texts_of(list@),
    {
        let mut urls: StringHashSet = StringHashSet::new();
        let mut i: usize = 0;
        while i < list.len()
            invariant
                i <= list.len(),
                urls@ == texts_of(list@.take(i as int)),
            decreases list.len() - i,
        {
            assert(list@.take(i + 1).drop_last() =~= list@.take(i as int));
            urls.insert(list[i].clone());
            i = i + 1;
        }
        assert(list@.take(i as int) =~= list@);
        FeedUrls { urls }
    }

    /// Whether a URL is in the set.
    pub fn contains(&self, url: &str) -> (r: bool)
        ensures
            r == self@.contains(url@),
    {
        self.urls.contains(url)
    }
}

/// A set of texts holds exactly those that are in the list.
pub proof fn law_texts_are_those_of_the_list(list: Seq<String>, t: Seq<char>)
    ensures
        texts_of(list).contains(t) <==> exists|i: int|
            0 <= i < list.len() && #[trigger] list[i]@ == t,
    decreases list.len(),
{
    if list.len() > 0 {
        let rest = list.drop_last();
        law_texts_are_those_of_the_list(rest, t);
        assert(list[list.len() - 1] == list.last());
        if exists|i: int| 0 <= i < rest.len() && #[trigger] rest[i]@ == t {
            let i = choose|i: int| 0 <= i < rest.len() && #[trigger] rest[i]@ == t;
            assert(list[i]@ == t);
        }
        if exists|i: int| 0 <= i < list.len() && #[trigger] list[i]@ == t {
            let i = choose|i: int| 0 <= i < list.len() && #[trigger] list[i]@ == t;
            if i < rest.len() {
                assert(rest[i]@ == t);
            }
        }
    }
}

/// A stream that was noted is found with its feed, the last one that was
/// noted for it, and noting it changes no other stream.
pub proof fn law_noted_streams_are_found(
    feeds: Map<Seq<char>, i64>,
    stream: Seq<char>,
    feed: i64,
    other: Seq<char>,
)
    ensures
        feed_in(feeds.insert(stream, feed), stream) == Some(feed),
        other != stream ==> feed_in(feeds.insert(stream, feed), other) == feed_in(feeds, other),
        feed_in(Map::<Seq<char>, i64>::empty(), stream) is None,
{
}

} // verus!
