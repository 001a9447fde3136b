use greader_sync::article::{
    dated_article, epoch_moment, epoch_to_rfc3339, item_identity, remote_item_article, render_request, Moment,
    Rendered,
};
use greader_sync::provider::{READ_TAG, STARRED_TAG};
use greader_sync::wire::{
    item_is_read, item_is_starred, item_remote_stream_id, item_url, Href, Item, Origin,
    RemoteEnclosure, TextContent,
};

fn bare(id: &str) -> Item {
    Item {
        id: id.to_string(),
        title: None,
        author: None,
        published: None,
        categories: Vec::new(),
        canonical: Vec::new(),
        alternate: Vec::new(),
        summary: None,
        content: None,
        origin: None,
        enclosure: Vec::new(),
    }
}

fn link(href: &str) -> Href {
    Href {
        href: href.to_string(),
    }
}

fn text(content: &str) -> Option<TextContent> {
    Some(TextContent {
        content: Some(content.to_string()),
    })
}

fn rendered() -> Rendered {
    Rendered {
        content_html: "<b>c</b>".to_string(),
        body_text: "c".to_string(),
        image_url: Some("i.png".to_string()),
        summary: "s".to_string(),
        published: None,
    }
}

#[test]
fn url_is_the_first_canonical_link() {
    let mut item = bare("1");
    assert_eq!(item_url(&item), None);
    item.alternate = vec![link(" https://alt ")];
    assert_eq!(item_url(&item).as_deref(), Some("https://alt"));
    item.canonical = vec![link("https://c"), link("https://d")];
    assert_eq!(item_url(&item).as_deref(), Some("https://c"));
    item.canonical = vec![link(" ")];
    assert_eq!(item_url(&item), None);
}

#[test]
fn tags_and_stream_are_read() {
    let mut item = bare("1");
    assert!(!item_is_read(&item) && !item_is_starred(&item));
    item.categories = vec!["x".to_string(), STARRED_TAG.to_string()];
    assert!(!item_is_read(&item) && item_is_starred(&item));
    item.categories.push(READ_TAG.to_string());
    assert!(item_is_read(&item));
    assert_eq!(item_remote_stream_id(&item), None);
    item.origin = Some(Origin {
        stream_id: Some(" feed/1 ".to_string()),
        html_url: None,
    });
    assert_eq!(item_remote_stream_id(&item), Some("feed/1"));
}

#[test]
fn identity_is_the_id_or_the_url() {
    let mut item = bare(" id ");
    assert_eq!(item_identity(&item).as_deref(), Some(" id "));
    item.id = " ".to_string();
    assert_eq!(item_identity(&item), None);
    assert!(remote_item_article(&item, &rendered()).is_none());
    item.canonical = vec![link("https://a")];
    let article = remote_item_article(&item, &rendered()).unwrap();
    assert_eq!(article.guid, "https://a");
    assert_eq!(article.url.as_deref(), Some("https://a"));
    assert_eq!(article.title, "https://a");
}

#[test]
fn title_falls_back() {
    let mut item = bare("1");
    item.title = Some("  ".to_string());
    assert_eq!(remote_item_article(&item, &rendered()).unwrap().title, "(untitled)");
    item.title = Some(" T ".to_string());
    assert_eq!(remote_item_article(&item, &rendered()).unwrap().title, "T");
}

#[test]
fn content_comes_before_summary() {
    let mut item = bare("1");
    item.summary = text("<p>s</p>");
    item.content = Some(TextContent { content: None });
    assert_eq!(render_request(&item).html, "<p>s</p>");
    item.content = text("<p>c</p>");
    item.origin = Some(Origin {
        stream_id: None,
        html_url: Some("https://site".to_string()),
    });
    let request = render_request(&item);
    assert_eq!(request.html, "<p>c</p>");
    assert_eq!(request.base.as_deref(), Some("https://site"));
    assert!(request.sanitize);
    assert_eq!(request.summary.as_deref(), Some("<p>s</p>"));
    assert_eq!(request.published, None);
    let article = remote_item_article(&item, &rendered()).unwrap();
    assert_eq!(article.content_html.as_deref(), Some("<b>c</b>"));
    assert_eq!(article.image_url.as_deref(), Some("i.png"));
    assert_eq!(article.summary.as_deref(), Some("s"));
    assert_eq!(article.body_text, "c");
    item.canonical = vec![link("https://a")];
    assert_eq!(render_request(&item).base.as_deref(), Some("https://a"));
}

#[test]
fn blank_html_is_no_content() {
    let mut item = bare("1");
    item.content = text(" \n");
    item.author = Some(" ".to_string());
    assert!(!render_request(&item).sanitize);
    let article = remote_item_article(&item, &rendered()).unwrap();
    assert_eq!(article.content_html, None);
    assert_eq!(article.image_url, None);
    assert_eq!(article.summary, None);
    assert_eq!(article.author, None);
    item.author = Some(" A ".to_string());
    item.summary = text("");
    let mut empty = rendered();
    empty.summary = String::new();
    let article = remote_item_article(&item, &empty).unwrap();
    assert_eq!(article.author.as_deref(), Some(" A "));
    assert_eq!(article.summary, None);
}

#[test]
fn enclosures_need_a_link() {
    let enclosure = |href: Option<&str>, url: Option<&str>| RemoteEnclosure {
        href: href.map(str::to_string),
        url: url.map(str::to_string),
        mime_type: Some("audio/mpeg".to_string()),
        length: Some(5),
    };
    let mut item = bare("1");
    item.enclosure = vec![
        enclosure(Some(" https://h "), Some("https://u")),
        enclosure(Some(" "), Some("https://u")),
        enclosure(None, Some("https://u")),
        enclosure(None, None),
    ];
    let article = remote_item_article(&item, &rendered()).unwrap();
    let urls: Vec<&str> = article.enclosures.iter().map(|e| e.url.as_str()).collect();
    assert_eq!(urls, ["https://h", "https://u"]);
    assert_eq!(article.enclosures[0].mime_type.as_deref(), Some("audio/mpeg"));
    assert_eq!(article.enclosures[1].length, Some(5));
}

#[test]
fn moments_are_those_of_the_calendar() {
    let at = |secs: i64| Some(Moment { secs, nanos: 0 });
    assert_eq!(epoch_moment(0), at(0));
    assert_eq!(epoch_moment(-8334601228800), at(-8334601228800));
    assert_eq!(epoch_moment(-8334601228801), None);
    assert_eq!(epoch_moment(8210266876799), at(8210266876799));
    assert_eq!(epoch_moment(8210266876800), None);
    assert_eq!(epoch_moment(i64::MAX), None);
    assert_eq!(epoch_moment(i64::MIN), None);
}

#[test]
fn dates_are_written_by_the_clamped_moment() {
    let at = |secs: i64, nanos: u32| Some(Moment { secs, nanos });
    let written = |secs, clamped| epoch_to_rfc3339(secs, clamped);
    assert_eq!(
        written(1_700_000_000, at(1_700_000_000, 0)).as_deref(),
        Some("2023-11-14T22:13:20+00:00")
    );
    assert_eq!(written(5, at(0, 500_000_000)).as_deref(), Some("1970-01-01T00:00:00.500+00:00"));
    assert_eq!(written(5, at(59, 1_500_000_000)).as_deref(), Some("1970-01-01T00:00:60.500+00:00"));
    assert_eq!(written(5, at(58, 1_500_000_000)), None);
    assert_eq!(written(5, at(59, 2_000_000_000)), None);
    assert_eq!(written(5, at(-1, 1_000_000_000)).as_deref(), Some("1969-12-31T23:59:60+00:00"));
    assert_eq!(written(5, None), None);
    assert_eq!(written(i64::MAX, at(0, 0)), None);
    assert_eq!(written(0, at(i64::MAX, 0)), None);
    let mut item = bare("1");
    item.published = Some(1_700_000_000);
    assert_eq!(render_request(&item).published, at(1_700_000_000, 0));
    let mut r = rendered();
    r.published = at(0, 0);
    let article = remote_item_article(&item, &r).unwrap();
    assert_eq!(article.published_at.as_deref(), Some("1970-01-01T00:00:00+00:00"));
    item.published = None;
    assert_eq!(remote_item_article(&item, &r).unwrap().published_at, None);
}

#[test]
fn article_carries_the_date_that_it_is_given() {
    let item = bare("1");
    let dated = dated_article(&item, &rendered(), Some("then".to_string())).unwrap();
    assert_eq!(dated.published_at.as_deref(), Some("then"));
    assert_eq!(dated.guid, "1");
    assert!(dated_article(&bare(""), &rendered(), None).is_none());
}
