use greader_sync::http::{
    is_client_error, is_server_error, is_success, reading_list_contents_path, Status,
    STREAM_BATCH_SIZE,
};
use greader_sync::provider::{
    edit_tag_batch_size, edit_tag_item_id, greader_base, should_try_mark_all_read_fallback,
    Provider, EDIT_TAG_BATCH_SIZE, READING_LIST, READ_TAG,
};

#[test]
fn freshrss_mark_read_uses_single_entry_compatible_batches() {
    assert_eq!(edit_tag_batch_size(Provider::FreshRss, "read", true), 5);
    assert_eq!(
        edit_tag_batch_size(Provider::FreshRss, "read", false),
        EDIT_TAG_BATCH_SIZE
    );
    assert_eq!(
        edit_tag_batch_size(Provider::FreshRss, "starred", true),
        EDIT_TAG_BATCH_SIZE
    );
    assert_eq!(
        edit_tag_batch_size(Provider::Miniflux, "read", true),
        EDIT_TAG_BATCH_SIZE
    );
}

#[test]
fn freshrss_edit_tag_item_id_sends_decimal_entry_ids() {
    assert_eq!(
        edit_tag_item_id(
            Provider::FreshRss,
            "tag:google.com,2005:reader/item/0006529d48ab0e0c"
        ),
        "1779685342776844"
    );
    assert_eq!(
        edit_tag_item_id(
            Provider::Miniflux,
            "tag:google.com,2005:reader/item/0006529d48ab0e0c"
        ),
        "tag:google.com,2005:reader/item/0006529d48ab0e0c"
    );
    assert_eq!(
        edit_tag_item_id(Provider::FreshRss, "not-a-hex-item"),
        "not-a-hex-item"
    );
}

#[test]
fn reading_list_contents_path_encodes_continuation() {
    let path = reading_list_contents_path(Some("abc&x=1/%+="), true);

    assert_eq!(
        path,
        format!(
            "stream/contents/{READING_LIST}?output=json&n={STREAM_BATCH_SIZE}&xt={READ_TAG}&c=abc%26x%3D1%2F%25%2B%3D"
        )
    );
}

#[test]
fn mark_all_fallback_is_disabled_when_unread_stream_hits_page_limit() {
    assert!(should_try_mark_all_read_fallback(
        Provider::FreshRss,
        0,
        false
    ));
    assert!(!should_try_mark_all_read_fallback(
        Provider::FreshRss,
        0,
        true
    ));
    assert!(!should_try_mark_all_read_fallback(
        Provider::FreshRss,
        1,
        false
    ));
    assert!(!should_try_mark_all_read_fallback(
        Provider::Miniflux,
        0,
        false
    ));
}

#[test]
fn every_byte_is_form_encoded() {
    let prefix = reading_list_contents_path(None, false);
    for code in 1u8..128 {
        let c = (code as char).to_string();
        let expected = match code {
            b'0'..=b'9' | b'A'..=b'Z' | b'a'..=b'z' | b'*' | b'-' | b'.' | b'_' => c.clone(),
            b' ' => "+".to_string(),
            _ => format!("%{code:02X}"),
        };
        assert_eq!(
            reading_list_contents_path(Some(&c), false),
            format!("{prefix}&c={expected}")
        );
    }
    assert_eq!(
        reading_list_contents_path(Some("ü未"), false),
        format!("{prefix}&c=%C3%BC%E6%9C%AA")
    );
}

#[test]
fn path_without_continuation_asks_for_the_first_page() {
    assert_eq!(
        reading_list_contents_path(None, false),
        "stream/contents/user/-/state/com.google/reading-list?output=json&n=1000"
    );
    assert_eq!(
        reading_list_contents_path(Some(""), true),
        reading_list_contents_path(None, true)
    );
    assert_ne!(
        reading_list_contents_path(Some("a b"), true),
        reading_list_contents_path(Some("a+b"), true)
    );
}

#[test]
fn settings_round_trip() {
    for p in [Provider::FreshRss, Provider::Miniflux] {
        assert_eq!(Provider::from_setting(Some(p.as_str())), p);
    }
    assert_eq!(Provider::from_setting(None), Provider::FreshRss);
    assert_eq!(Provider::from_setting(Some("")), Provider::FreshRss);
    assert_eq!(Provider::from_setting(Some("other")), Provider::FreshRss);
    assert_eq!(Provider::from_setting(Some(" miniflux\n")), Provider::Miniflux);
    assert_eq!(Provider::from_setting(Some("Miniflux")), Provider::FreshRss);
    assert_eq!(Provider::FreshRss.path_suffix(), "/api/greader.php");
    assert_eq!(Provider::Miniflux.path_suffix(), "");
}

#[test]
fn base_gets_the_api_path_once() {
    let f = Provider::FreshRss;
    for url in [
        "https://rss.example",
        " https://rss.example/ ",
        "https://rss.example//",
        "https://rss.example/api/greader.php",
        "https://rss.example/api/greader.php/",
    ] {
        assert_eq!(greader_base(url, f), "https://rss.example/api/greader.php");
    }
    assert_eq!(
        greader_base("https://rss.example/api/greader.php/x", f),
        "https://rss.example/api/greader.php/x"
    );
    assert_eq!(
        greader_base("https://rss.example/api/greader.phpx", f),
        "https://rss.example/api/greader.phpx/api/greader.php"
    );
    assert_eq!(greader_base("", f), "/api/greader.php");
    assert_eq!(
        greader_base(" https://flux.example/ ", Provider::Miniflux),
        "https://flux.example"
    );
}

#[test]
fn base_of_a_base_is_the_base() {
    for p in [Provider::FreshRss, Provider::Miniflux] {
        for url in [
            "",
            "/",
            " / ",
            "https://a.example/x/",
            "https://a.example/api/greader.php/y",
            "https://a.example/api/greader.php/y / /",
            "a b /",
        ] {
            let base = greader_base(url, p);
            assert_eq!(greader_base(&base, p), base);
        }
    }
}

#[test]
fn white_space_before_trailing_slashes_does_not_hide_the_path() {
    let once = greader_base("http://x /", Provider::Miniflux);
    assert_eq!(once, "http://x");
    assert_eq!(greader_base(&once, Provider::Miniflux), "http://x");
    for url in [
        "http://h/api/greader.php /",
        "http://h/api/greader.php/ /",
        "http://h/api/greader.php/ /\t//",
    ] {
        let once = greader_base(url, Provider::FreshRss);
        assert_eq!(once, "http://h/api/greader.php");
        assert_eq!(greader_base(&once, Provider::FreshRss), once);
    }
    let inner = greader_base("http://h/api/greader.php/x /", Provider::FreshRss);
    assert_eq!(inner, "http://h/api/greader.php/x");
}

#[test]
fn path_is_added_to_what_the_trailing_slashes_leave() {
    for (url, base) in [
        ("http://h /", "http://h /api/greader.php"),
        (" http://h / / ", "http://h / /api/greader.php"),
        ("/ /", "/ /api/greader.php"),
        ("/", "/api/greader.php"),
    ] {
        assert_eq!(greader_base(url, Provider::FreshRss), base);
        assert_eq!(greader_base(base, Provider::FreshRss), base);
    }
}

#[test]
fn statuses_have_three_digits() {
    assert!(Status::from_u16(99).is_none());
    assert!(Status::from_u16(1000).is_none());
    assert_eq!(Status::from_u16(999).unwrap().as_u16(), 999);
    assert_eq!(Status::from_u16(503).unwrap().describe(), "503 Service Unavailable");
    assert_eq!(Status::from_u16(100).unwrap().describe(), "100 Continue");
    assert!(Status::from_u16(799).unwrap().describe().starts_with("799 "));
    for code in 100..=999u16 {
        let s = Status::from_u16(code).unwrap();
        let real = reqwest::StatusCode::from_u16(code).unwrap();
        assert_eq!(is_success(s), real.is_success());
        assert_eq!(is_client_error(s), real.is_client_error());
        assert_eq!(is_server_error(s), real.is_server_error());
        assert_eq!(s.describe(), real.to_string());
    }
}
