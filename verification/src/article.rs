//! The local article that a remote item becomes.

use vstd::prelude::*;
use vstd::string::*;
use crate::outside;
use crate::text;
use crate::wire;
use crate::wire::{Item, RemoteEnclosure};

verus! {

/// A moment: seconds since 1970 in UTC, and nanoseconds.
#[derive(Clone, Copy, Debug, PartialEq, Eq, Structural)]
pub struct Moment {
    pub secs: i64,
    pub nanos: u32,
}

/// A file that goes with an article.
#[derive(Debug)]
pub struct Enclosure {
    pub url: String,
    pub mime_type: Option<String>,
    pub length: Option<i64>,
}

/// What an enclosure holds.
pub struct EnclosureView {
    pub url: Seq<char>,
    pub mime_type: Option<Seq<char>>,
    pub length: Option<i64>,
}

impl View for Enclosure {
    type V = EnclosureView;

    open spec fn view(&self) -> EnclosureView {
        EnclosureView {
            url: self.url@,
            mime_type: self.mime_type.deep_view(),
            length: self.length,
        }
    }
}

/// An article that is to be stored.
#[derive(Debug)]
pub struct NewArticle {
    pub guid: String,
    pub url: Option<String>,
    pub title: String,
    pub author: Option<String>,
    pub summary: Option<String>,
    pub content_html: Option<String>,
    pub body_text: String,
    pub image_url: Option<String>,
    pub published_at: Option<String>,
    pub enclosures: Vec<Enclosure>,
}

/// What an article holds.
pub struct ArticleView {
    pub guid: Seq<char>,
    pub url: Option<Seq<char>>,
    pub title: Seq<char>,
    pub author: Option<Seq<char>>,
    pub summary: Option<Seq<char>>,
    pub content_html: Option<Seq<char>>,
    pub body_text: Seq<char>,
    pub image_url: Option<Seq<char>>,
    pub published_at: Option<Seq<char>>,
    pub enclosures: Seq<EnclosureView>,
}

impl View for NewArticle {
    type V = ArticleView;

    open spec fn view(&self) -> ArticleView {
        ArticleView {
            guid: self.guid@,
            url: self.url.deep_view(),
            title: self.title@,
            author: self.author.deep_view(),
            summary: self.summary.deep_view(),
            content_html: self.content_html.deep_view(),
            body_text: self.body_text@,
            image_url: self.image_url.deep_view(),
            published_at: self.published_at.deep_view(),
            enclosures: Seq::new(self.enclosures@.len(), |i: int| self.enclosures@[i]@),
        }
    }
}

/// The texts of an item that have to be rendered before it can be stored.
#[derive(Debug)]
pub struct RenderRequest {
    /// The item's HTML, which becomes plain text and, where `sanitize` is
    /// set, sanitised HTML with its first image.
    pub html: String,
    /// The URL that relative links are resolved against.
    pub base: Option<String>,
    /// Whether the HTML is more than white space.
    pub sanitize: bool,
    /// The item's summary, which becomes plain text.
    pub summary: Option<String>,
    /// The moment of publication, which is clamped to plausible ones.
    pub published: Option<Moment>,
}

/// What is to be rendered.
pub struct RenderView {
    pub html: Seq<char>,
    pub base: Option<Seq<char>>,
    pub sanitize: bool,
    pub summary: Option<Seq<char>>,
    pub published: Option<Moment>,
}

impl View for RenderRequest {
    type V = RenderView;

    open spec fn view(&self) -> RenderView {
        RenderView {
            html: self.html@,
            base: self.base.deep_view(),
            sanitize: self.sanitize,
            summary: self.summary.deep_view(),
            published: self.published,
        }
    }
}

/// The rendered texts of an item. What was not asked for is not used.
#[derive(Debug)]
pub struct Rendered {
    pub content_html: String,
    pub body_text: String,
    pub image_url: Option<String>,
    pub summary: String,
    pub published: Option<Moment>,
}

impl Item {
    /// The summary of the item.
    pub open spec fn summary_html(self) -> Option<Seq<char>> {
        match self.summary {
            Some(summary) => summary.content.deep_view(),
            None => None,
        }
    }

    /// The HTML of the item: its content, or else its summary, or else
    /// nothing.
    pub open spec fn html(self) -> Seq<char> {
        match self.content {
            Some(content) if content.content is Some => content.content->0@,
            _ => match self.summary_html() {
                Some(summary) => summary,
                None => Seq::empty(),
            },
        }
    }

    /// The URL that relative links are resolved against: that of the item, or
    /// else that of the site that it came from.
    pub open spec fn base_url(self) -> Option<Seq<char>> {
        match self.link() {
            Some(url) => Some(url),
            None => match self.origin {
                Some(origin) => origin.html_url.deep_view(),
                None => None,
            },
        }
    }

    /// The moment of publication, where it is one of the calendar.
    pub open spec fn published_moment(self) -> Option<Moment> {
        match self.published {
            Some(secs) => moment_of(secs),
            None => None,
        }
    }

    /// What has to be rendered before the item can be stored.
    pub open spec fn to_render(self) -> RenderView {
        RenderView {
            html: self.html(),
            base: self.base_url(),
            sanitize: !text::blank(self.html()),
            summary: self.summary_html(),
            published: self.published_moment(),
        }
    }

    /// The title: that of the item, trimmed, or else its URL, or else a
    /// placeholder.
    pub open spec fn headline(self) -> Seq<char> {
        match self.title {
            Some(title) if !text::blank(title@) => text::trimmed(title@),
            _ => match self.link() {
                Some(url) => url,
                None => "(untitled)"@,
            },
        }
    }

    /// What the article is known by: the id of the item, or its URL where the
    /// id is blank.
    pub open spec fn identity(self) -> Option<Seq<char>> {
        if text::blank(self.id@) {
            self.link()
        } else {
            Some(self.id@)
        }
    }

    /// The author, unless blank.
    pub open spec fn byline(self) -> Option<Seq<char>> {
        match self.author {
            Some(author) if !text::blank(author@) => Some(author@),
            _ => None,
        }
    }
}

/// The moment of a publication date.
pub open spec fn moment_of(secs: i64) -> Option<Moment> {
    if outside::representable(secs, 0) {
        Some(Moment { secs, nanos: 0 })
    } else {
        None
    }
}

/// The text of a publication date that was clamped to the given moment.
pub open spec fn date_text(secs: i64, clamped: Option<Moment>) -> Option<Seq<char>> {
    match clamped {
        Some(m) if moment_of(secs) is Some && outside::representable(m.secs, m.nanos) => Some(
            outside::rfc3339(m.secs, m.nanos),
        ),
        _ => None,
    }
}

/// The enclosure that a remote one becomes: under its `href`, or else its
/// `url`, trimmed; a blank one is dropped.
pub open spec fn enclosure_of(remote: RemoteEnclosure) -> Option<EnclosureView> {
    let link = match remote.href {
        Some(href) => Some(href@),
        None => remote.url.deep_view(),
    };
    match link {
        Some(url) if !text::blank(url) => Some(
            EnclosureView {
                url: text::trimmed(url),
                mime_type: remote.mime_type.deep_view(),
                length: remote.length,
            },
        ),
        _ => None,
    }
}

/// The enclosures that remote ones become, in their order.
pub open spec fn enclosures_of(remote: Seq<RemoteEnclosure>) -> Seq<EnclosureView>
    decreases remote.len(),
{
    if remote.len() == 0 {
        Seq::empty()
    } else {
        let before = enclosures_of(remote.drop_last());
        match enclosure_of(remote.last()) {
            Some(enclosure) => before.push(enclosure),
            None => before,
        }
    }
}

/// The article that an item becomes with its rendered texts and its date:
/// none where there is nothing to know it by.
pub open spec fn article_dated(
    item: Item,
    rendered: Rendered,
    date: Option<Seq<char>>,
) -> Option<ArticleView> {
    match item.identity() {
        None => None,
        Some(guid) => Some(
            ArticleView {
                guid,
                url: item.link(),
                title: item.headline(),
                author: item.byline(),
                summary: match item.summary_html() {
                    Some(_) => wire::some_nonempty(rendered.summary@),
                    None => None,
                },
                content_html: if item.to_render().sanitize {
                    Some(rendered.content_html@)
                } else {
                    None
                },
                body_text: rendered.body_text@,
                image_url: if item.to_render().sanitize {
                    rendered.image_url.deep_view()
                } else {
                    None
                },
                published_at: date,
                enclosures: enclosures_of(item.enclosure@),
            },
        ),
    }
}

/// The text of an item's publication date, as it was clamped.
pub open spec fn item_date(item: Item, rendered: Rendered) -> Option<Seq<char>> {
    match item.published {
        Some(secs) => date_text(secs, rendered.published),
        None => None,
    }
}

/// The article that an item becomes with its rendered texts.
pub open spec fn article_of(item: Item, rendered: Rendered) -> Option<ArticleView> {
    article_dated(item, rendered, item_date(item, rendered))
}

/// The moment of a publication date, where it is one of the calendar.
pub fn epoch_moment(secs: i64) -> (r: Option<Moment>)
    ensures
        r == moment_of(secs),
{
    if outside::from_timestamp(secs, 0) {
        Some(Moment { secs, nanos: 0 })
    } else {
        None
    }
}

/// The text of a publication date that was clamped to the given moment.
pub fn epoch_to_rfc3339(secs: i64, clamped: Option<Moment>) -> (r: Option<String>)
    ensures
        r.deep_view() == date_text(secs, clamped),
{
    match clamped {
        Some(m) => {
            if epoch_moment(secs).is_some() && outside::from_timestamp(m.secs, m.nanos) {
                Some(outside::to_rfc3339(m.secs, m.nanos))
            } else {
                None
            }
        },
        None => None,
    }
}

fn copy_text(s: &Option<String>) -> (r: Option<String>)
    ensures
        r.deep_view() == s.deep_view(),
{
    match s {
        Some(t) => Some(t.clone()),
        None => None,
    }
}

fn summary_of(item: &Item) -> (r: Option<String>)
    ensures
        r.deep_view() == item.summary_html(),
{
    match &item.summary {
        Some(summary) => copy_text(&summary.content),
        None => None,
    }
}

fn html_of(item: &Item) -> (r: String)
    ensures
        r@ == item.html(),
{
    match &item.content {
        Some(content) => match &content.content {
            Some(html) => {
                return html.clone();
            },
            None => {},
        },
        None => {},
    }
    match summary_of(item) {
        Some(summary) => summary,
        None => String::new(),
    }
}

/// What has to be rendered before an item can be stored.
pub fn render_request(item: &Item) -> (r: RenderRequest)
    ensures
        r@ == item.to_render(),
{
    let html: String = html_of(item);
    let sanitize: bool = !text::is_blank(html.as_str());
    let base: Option<String> = match wire::item_url(item) {
        Some(url) => Some(url),
        None => match &item.origin {
            Some(origin) => copy_text(&origin.html_url),
            None => None,
        },
    };
    let published: Option<Moment> = match item.published {
        Some(secs) => epoch_moment(secs),
        None => None,
    };
    RenderRequest { html, base, sanitize, summary: summary_of(item), published }
}

fn to_enclosure(remote: &RemoteEnclosure) -> (r: Option<Enclosure>)
    ensures
        match r {
            Some(e) => enclosure_of(*remote) == Some(e@),
            None => enclosure_of(*remote) is None,
        },
{
    let link: &str = match &remote.href {
        Some(href) => href.as_str(),
        None => match &remote.url {
            Some(url) => url.as_str(),
            None => {
                return None;
            },
        },
    };
    let url: &str = text::trim(link);
    proof {
        text::lemma_trimmed(link@);
    }
    if url.is_empty() {
        None
    } else {
        Some(
            Enclosure {
                url: url.to_owned(),
                mime_type: copy_text(&remote.mime_type),
                length: remote.length,
            },
        )
    }
}

fn to_enclosures(remote: &Vec<RemoteEnclosure>) -> (r: Vec<Enclosure>)
    ensures
        Seq::new(r@.len(), |i: int| r@[i]@) == enclosures_of(remote@),
{
    let mut r: Vec<Enclosure> = Vec::new();
    let mut i: usize = 0;
    assert(Seq::new(r@.len(), |i: int| r@[i]@) =~= enclosures_of(remote@.take(0)));
    while i < remote.len()
        invariant
            i <= remote.len(),
            Seq::new(r@.len(), |i: int| r@[i]@) == enclosures_of(remote@.take(i as int)),
        decreases remote.len() - i,
    {
        let ghost before = Seq::new(r@.len(), |i: int| r@[i]@);
        assert(remote@.take(i + 1).drop_last() =~= remote@.take(i as int));
        match to_enclosure(&remote[i]) {
            Some(enclosure) => {
                r.push(enclosure);
                assert(Seq::new(r@.len(), |i: int| r@[i]@) =~= before.push(enclosure@));
            },
            None => {},
        }
        i = i + 1;
    }
    assert(remote@.take(i as int) =~= remote@);
    r
}

fn title_of(item: &Item) -> (r: String)
    ensures
        r@ == item.headline(),
{
    match &item.title {
        Some(title) => {
            if !text::is_blank(title.as_str()) {
                return text::trim(title.as_str()).to_owned();
            }
        },
        None => {},
    }
    match wire::item_url(item) {
        Some(url) => url,
        None => "(untitled)".to_owned(),
    }
}

/// What an item is known by.
pub fn item_identity(item: &Item) -> (r: Option<String>)
    ensures
        r.deep_view() == item.identity(),
{
    if text::is_blank(item.id.as_str()) {
        wire::item_url(item)
    } else {
        Some(item.id.clone())
    }
}

/// The article that an item becomes with its rendered texts.
pub fn remote_item_article(item: &Item, rendered: &Rendered) -> (r: Option<NewArticle>)
    ensures
        match r {
            Some(article) => article_of(*item, *rendered) == Some(article@),
            None => article_of(*item, *rendered) is None,
        },
{
    let date: Option<String> = match item.published {
        Some(secs) => epoch_to_rfc3339(secs, rendered.published),
        None => None,
    };
    dated_article(item, rendered, date)
}

/// The article that an item becomes with its rendered texts and its date.
pub fn dated_article(item: &Item, rendered: &Rendered, date: Option<String>) -> (r: Option<
    NewArticle,
>)
    ensures
        match r {
            Some(article) => article_dated(*item, *rendered, date.deep_view()) == Some(article@),
            None => article_dated(*item, *rendered, date.deep_view()) is None,
        },
{
    let guid: String = match item_identity(item) {
        Some(guid) => guid,
        None => {
            return None;
        },
    };
    let sanitize: bool = !text::is_blank(html_of(item).as_str());
    let author: Option<String> = match &item.author {
        Some(author) => {
            if text::is_blank(author.as_str()) {
                None
            } else {
                Some(author.clone())
            }
        },
        None => None,
    };
    let summary: Option<String> = if summary_of(item).is_some()
        && !rendered.summary.as_str().is_empty() {
        Some(rendered.summary.clone())
    } else {
        None
    };
    let content_html: Option<String> = if sanitize {
        Some(rendered.content_html.clone())
    } else {
        None
    };
    let image_url: Option<String> = if sanitize {
        copy_text(&rendered.image_url)
    } else {
        None
    };
    Some(
        NewArticle {
            guid,
            url: wire::item_url(item),
            title: title_of(item),
            author,
            summary,
            content_html,
            body_text: rendered.body_text.clone(),
            image_url,
            published_at: date,
            enclosures: to_enclosures(&item.enclosure),
        },
    )
}

/// An item becomes an article exactly where its id is not blank or it has a
/// URL, and what the article is known by and its title are never blank.
pub proof fn law_an_article_has_an_identity(item: Item, rendered: Rendered)
    ensures
        article_of(item, rendered) is Some <==> !text::blank(item.id@) || item.link() is Some,
        article_of(item, rendered) matches Some(article) ==> !text::blank(article.guid)
            && !text::blank(article.title),
{
    match item.first_link() {
        Some(href) => {
            text::lemma_trimmed(href);
            text::lemma_trimmed(text::trimmed(href));
            text::lemma_trimmed_fixed(text::trimmed(href));
        },
        None => {},
    }
    match item.title {
        Some(title) => {
            text::lemma_trimmed(title@);
            text::lemma_trimmed(text::trimmed(title@));
            text::lemma_trimmed_fixed(text::trimmed(title@));
        },
        None => {},
    }
    reveal_strlit("(untitled)");
    assert("(untitled)"@[0] == '(');
    assert(!text::is_white("(untitled)"@[0]));
}

/// An item with nothing but white space for its HTML has no sanitised HTML
/// and no image.
pub proof fn law_blank_html_is_no_content(item: Item, rendered: Rendered)
    requires
        text::blank(item.html()),
    ensures
        article_of(item, rendered) matches Some(article) ==> article.content_html is None
            && article.image_url is None,
{
}

/// The HTML of an item is that of its content; where there is none it is that
/// of its summary, and else nothing.
pub proof fn law_summary_stands_in_for_content(item: Item)
    ensures
        (item.content matches Some(c) && c.content is Some) ==> item.to_render().html
            == item.content->0.content->0@,
        !(item.content matches Some(c) && c.content is Some) && (item.summary matches Some(s)
            && s.content is Some) ==> item.to_render().html == item.summary->0.content->0@,
        !(item.content matches Some(c) && c.content is Some) && !(item.summary matches Some(s)
            && s.content is Some) ==> item.to_render().html.len() == 0,
        item.to_render().sanitize <==> !text::blank(item.to_render().html),
        (item.summary matches Some(s) && s.content is Some) ==> item.to_render().summary == Some(
            item.summary->0.content->0@,
        ),
        !(item.summary matches Some(s) && s.content is Some) ==> item.to_render().summary is None,
{
}

/// Where the HTML of an item, that of its content or else that of its
/// summary, is more than white space, the article has the sanitised HTML and
/// the image that was found in it, and in no other case.
pub proof fn law_html_that_is_not_blank_is_content(
    item: Item,
    rendered: Rendered,
    date: Option<Seq<char>>,
)
    ensures
        ({
            let html = if item.content matches Some(c) && c.content is Some {
                item.content->0.content->0@
            } else if item.summary matches Some(s) && s.content is Some {
                item.summary->0.content->0@
            } else {
                Seq::empty()
            };
            article_dated(item, rendered, date) matches Some(article) ==> {
                &&& !text::blank(html) ==> article.content_html == Some(rendered.content_html@)
                    && article.image_url == rendered.image_url.deep_view()
                &&& text::blank(html) ==> article.content_html is None && article.image_url is None
                &&& article.body_text == rendered.body_text@
            }
        }),
{
}

/// An article is known by the id of its item, or by the URL where the id is
/// blank; it has the URL, the date and the enclosures of the item.
pub proof fn law_articles_carry_their_item(
    item: Item,
    rendered: Rendered,
    date: Option<Seq<char>>,
)
    ensures
        article_dated(item, rendered, date) is Some <==> !text::blank(item.id@) || item.link()
            is Some,
        article_dated(item, rendered, date) matches Some(article) ==> {
            &&& !text::blank(item.id@) ==> article.guid == item.id@
            &&& text::blank(item.id@) ==> Some(article.guid) == item.link()
            &&& article.url == item.link()
            &&& article.published_at == date
            &&& article.enclosures == enclosures_of(item.enclosure@)
        },
{
}

/// An article has the title of its item without white space around it, or
/// else its URL, or else a placeholder; its author unless blank; and the plain
/// text of its summary unless empty.
pub proof fn law_articles_are_headed_by_their_item(
    item: Item,
    rendered: Rendered,
    date: Option<Seq<char>>,
)
    ensures
        article_dated(item, rendered, date) matches Some(article) ==> {
            &&& (item.title matches Some(title) && !text::blank(title@)) ==> article.title
                == text::trimmed(item.title->0@)
            &&& !(item.title matches Some(title) && !text::blank(title@)) && item.link() is Some
                ==> article.title == item.link()->0
            &&& !(item.title matches Some(title) && !text::blank(title@)) && item.link() is None
                ==> article.title == "(untitled)"@
            &&& (item.author matches Some(author) && !text::blank(author@)) ==> article.author
                == Some(item.author->0@)
            &&& !(item.author matches Some(author) && !text::blank(author@)) ==> article.author
                is None
            &&& (item.summary matches Some(s) && s.content is Some) && rendered.summary@.len() > 0
                ==> article.summary == Some(rendered.summary@)
            &&& !(item.summary matches Some(s) && s.content is Some) || rendered.summary@.len()
                == 0 ==> article.summary is None
        },
{
}

/// Relative links are resolved against the URL of the item, or else against
/// the site that it came from.
pub proof fn law_links_are_resolved_against_the_item(item: Item)
    ensures
        item.link() is Some ==> item.to_render().base == item.link(),
        item.link() is None && (item.origin matches Some(origin) && origin.html_url is Some)
            ==> item.to_render().base == Some(item.origin->0.html_url->0@),
        item.link() is None && !(item.origin matches Some(origin) && origin.html_url is Some)
            ==> item.to_render().base is None,
{
}

/// A publication date of the calendar is rendered as it is, to the second,
/// and is written as the moment that it was clamped to; any other date, and
/// one that was clamped to no moment, is left out.
pub proof fn law_dates_are_written_as_clamped(item: Item, rendered: Rendered, secs: i64)
    requires
        item.published == Some(secs),
    ensures
        -8334601228800 <= secs <= 8210266876799 ==> item.to_render().published == Some(
            Moment { secs, nanos: 0 },
        ),
        secs < -8334601228800 || secs > 8210266876799 ==> item.to_render().published is None
            && item_date(item, rendered) is None,
        -8334601228800 <= secs <= 8210266876799 ==> (rendered.published matches Some(m) ==> (
        outside::representable(m.secs, m.nanos) ==> item_date(item, rendered) == Some(
            outside::rfc3339(m.secs, m.nanos),
        ))),
        rendered.published is None ==> item_date(item, rendered) is None,
{
}

/// An item without a publication date has no date.
pub proof fn law_no_date_stays_none(item: Item, rendered: Rendered)
    requires
        item.published is None,
    ensures
        item.to_render().published is None,
        item_date(item, rendered) is None,
{
}

/// An article is dated by the date of its item.
pub proof fn law_articles_are_dated_by_their_item(item: Item, rendered: Rendered)
    ensures
        article_of(item, rendered) matches Some(article) ==> article.published_at == item_date(
            item,
            rendered,
        ),
        article_of(item, rendered) == article_dated(item, rendered, item_date(item, rendered)),
{
}

/// Enclosures are taken over one by one and in order: under the `href`, or
/// else the `url`, without white space around it and with type and length;
/// one whose link is blank or missing is left out.
pub proof fn law_enclosures_are_taken_over(
    a: Seq<RemoteEnclosure>,
    b: Seq<RemoteEnclosure>,
    remote: RemoteEnclosure,
)
    ensures
        enclosures_of(a + b) == enclosures_of(a) + enclosures_of(b),
        ({
            let taken = enclosures_of(seq![remote]);
            let link = if remote.href is Some {
                remote.href
            } else {
                remote.url
            };
            &&& taken.len() == if link matches Some(url) && !text::blank(url@) {
                1nat
            } else {
                0nat
            }
            &&& taken.len() == 1 ==> taken[0].url == text::trimmed(link->0@) && taken[0].length
                == remote.length && taken[0].mime_type == remote.mime_type.deep_view()
        }),
    decreases b.len(),
{
    reveal_with_fuel(enclosures_of, 2);
    assert(seq![remote].drop_last() =~= Seq::empty());
    if b.len() == 0 {
        assert(a + b =~= a);
        assert(enclosures_of(a) + enclosures_of(b) =~= enclosures_of(a));
    } else {
        assert((a + b).drop_last() =~= a + b.drop_last());
        law_enclosures_are_taken_over(a, b.drop_last(), remote);
        assert(enclosures_of(a + b) =~= enclosures_of(a) + enclosures_of(b));
    }
}

} // verus!
