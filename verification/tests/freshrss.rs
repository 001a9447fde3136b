use greader_sync::freshrss::{
    category_stream_label, edit_tag_batch_size, edit_tag_item_id, is_default_category,
    item_decimal_id, judge_mark_all, mark_all_read_fallback_id, mark_all_reading_list_as_read, mark_all_reply,
    reading_list_unread_count, remote_id_tail, remote_unread_count, subscription_folder_name,
};
use greader_sync::http::{status_message, Method, Status};
use greader_sync::provider::{EDIT_TAG_BATCH_SIZE, READING_LIST};
use greader_sync::session::Session;
use greader_sync::wire::{Sub, SubscriptionCategory, UnreadCount, UnreadCounts};

fn subscription(feed_url: &str, title: &str, folder: Option<&str>) -> Sub {
    Sub {
        id: Some(format!("feed/{feed_url}")),
        url: Some(feed_url.to_string()),
        title: Some(title.to_string()),
        categories: folder
            .map(|name| {
                vec![SubscriptionCategory {
                    id: Some(format!("user/-/label/{name}")),
                    label: Some(name.to_string()),
                    kind: Some("folder".to_string()),
                }]
            })
            .unwrap_or_default(),
    }
}

fn session() -> Session {
    Session {
        base: "https://rss.example/api/greader.php".to_string(),
        auth: "alice/abc".to_string(),
        token: "tok".to_string(),
    }
}

fn status(code: u16) -> Status {
    Status::from_u16(code).unwrap()
}

#[test]
fn reading_list_unread_count_prefers_reading_list_entry() {
    let counts = UnreadCounts {
        max: Some(99),
        unreadcounts: vec![UnreadCount {
            id: READING_LIST.to_string(),
            count: 131,
        }],
    };

    assert_eq!(reading_list_unread_count(&counts), Some(131));
}

#[test]
fn unread_count_takes_the_first_entry_or_the_overall_count() {
    let entry = |id: &str, count: usize| UnreadCount {
        id: id.to_string(),
        count,
    };
    let twice = UnreadCounts {
        max: None,
        unreadcounts: vec![entry("feed/1", 7), entry(READING_LIST, 0), entry(READING_LIST, 4)],
    };
    assert_eq!(reading_list_unread_count(&twice), Some(0));
    let other = UnreadCounts {
        max: Some(99),
        unreadcounts: vec![entry("feed/1", 7)],
    };
    assert_eq!(reading_list_unread_count(&other), Some(99));
    let nothing = UnreadCounts {
        max: None,
        unreadcounts: Vec::new(),
    };
    assert_eq!(reading_list_unread_count(&nothing), None);
}

#[test]
fn subscription_folder_name_uses_folder_categories_only() {
    let sub = Sub {
        id: None,
        url: Some("https://example.com/feed.xml".to_string()),
        title: None,
        categories: vec![
            SubscriptionCategory {
                id: Some("user/-/label/Read Later".to_string()),
                label: Some("Read Later".to_string()),
                kind: Some("tag".to_string()),
            },
            SubscriptionCategory {
                id: Some("user/-/label/Tech".to_string()),
                label: None,
                kind: Some("folder".to_string()),
            },
        ],
    };

    assert_eq!(subscription_folder_name(&sub).as_deref(), Some("Tech"));
}

#[test]
fn subscription_folder_name_ignores_default_category() {
    for name in ["Uncategorized", "uncategorised", "未分类", "未分類"] {
        let sub = subscription("https://example.com/feed.xml", "Example", Some(name));
        assert_eq!(subscription_folder_name(&sub), None);
    }
}

#[test]
fn subscription_folder_name_goes_on_to_the_next_category() {
    let category = |id: Option<&str>, label: Option<&str>, kind: Option<&str>| {
        SubscriptionCategory {
            id: id.map(str::to_string),
            label: label.map(str::to_string),
            kind: kind.map(str::to_string),
        }
    };
    let sub = Sub {
        id: None,
        url: None,
        title: None,
        categories: vec![
            category(Some("user/-/label/X"), Some("  "), Some("folder")),
            category(None, None, None),
            category(Some("no-label-here"), None, None),
            category(None, Some("  News "), Some("FOLDER")),
            category(None, Some("Later"), None),
        ],
    };
    assert_eq!(subscription_folder_name(&sub).as_deref(), Some("News"));
}

#[test]
fn remote_id_tail_keeps_the_freshrss_item_id_visible() {
    assert_eq!(
        remote_id_tail("tag:google.com,2005:reader/item/000631d2b3c4a500"),
        "000631d2b3c4a500"
    );
    assert_eq!(remote_id_tail("plain-id"), "plain-id");
}

#[test]
fn edit_tag_item_id_sends_decimal_entry_ids() {
    assert_eq!(
        edit_tag_item_id("tag:google.com,2005:reader/item/0006529d48ab0e0c"),
        "1779685342776844"
    );
    assert_eq!(edit_tag_item_id("not-a-hex-item"), "not-a-hex-item");
}

#[test]
fn mark_all_read_fallback_only_when_all_remote_unread_are_local_read() {
    assert_eq!(
        mark_all_read_fallback_id(20, 20, 20, 0, 0, Some(42)),
        Some(42)
    );
    assert_eq!(mark_all_read_fallback_id(19, 20, 20, 0, 0, Some(42)), None);
    assert_eq!(mark_all_read_fallback_id(20, 20, 19, 0, 0, Some(42)), None);
    assert_eq!(mark_all_read_fallback_id(20, 20, 20, 1, 0, Some(42)), None);
    assert_eq!(mark_all_read_fallback_id(20, 20, 20, 0, 1, Some(42)), None);
}

#[test]
fn mark_all_fallback_needs_unread_items_and_a_number() {
    assert_eq!(mark_all_read_fallback_id(0, 0, 0, 0, 0, Some(42)), None);
    assert_eq!(mark_all_read_fallback_id(20, 20, 20, 0, 0, None), None);
}

#[test]
fn item_numbers_are_hexadecimal_and_fit() {
    assert_eq!(item_decimal_id("a/b/00fF"), Some(255));
    assert_eq!(item_decimal_id("ffffffffffffffff"), Some(u64::MAX));
    assert_eq!(item_decimal_id("0000ffffffffffffffff"), Some(u64::MAX));
    assert_eq!(item_decimal_id("10000000000000000"), None);
    assert_eq!(item_decimal_id("item/"), None);
    assert_eq!(item_decimal_id(""), None);
    assert_eq!(item_decimal_id("item/+12"), None);
    assert_eq!(item_decimal_id("item/１２"), None);
    assert_eq!(remote_id_tail("a/b/"), "");
    assert_eq!(edit_tag_item_id("item/0"), "0");
}

#[test]
fn only_marking_as_read_is_batched_by_five() {
    assert_eq!(edit_tag_batch_size("read", true), 5);
    assert_eq!(edit_tag_batch_size("read", false), EDIT_TAG_BATCH_SIZE);
    assert_eq!(edit_tag_batch_size("Read", true), EDIT_TAG_BATCH_SIZE);
    assert_eq!(edit_tag_batch_size("starred", true), 100);
}

#[test]
fn stream_labels_are_read_from_category_ids() {
    assert_eq!(category_stream_label("user/-/label/Tech"), Some("Tech"));
    assert_eq!(category_stream_label("user/1/label/a/label/b"), Some("a/label/b"));
    assert_eq!(category_stream_label("user/-/label/"), Some(""));
    assert_eq!(category_stream_label("user/-/state/com.google/read"), None);
    assert_eq!(category_stream_label("x/label/ü"), Some("ü"));
}

#[test]
fn default_categories_are_recognised() {
    assert!(is_default_category("  \t"));
    assert!(is_default_category(" UNCATEGORIZED "));
    assert!(is_default_category("uncategorised"));
    assert!(!is_default_category("Uncategorized feeds"));
    assert!(!is_default_category("Tech"));
}

#[test]
fn unread_count_request_is_an_authorised_get() {
    let request = remote_unread_count(&session());
    assert_eq!(request.method, Method::Get);
    assert_eq!(
        request.url,
        "https://rss.example/api/greader.php/reader/api/0/unread-count?output=json"
    );
    assert_eq!(request.authorization.as_deref(), Some("GoogleLogin auth=alice/abc"));
    assert!(request.form.is_empty());
}

#[test]
fn mark_all_request_names_stream_item_and_token() {
    let request = mark_all_reading_list_as_read(&session(), 1779685342776844);
    assert_eq!(request.method, Method::Post);
    assert_eq!(
        request.url,
        "https://rss.example/api/greader.php/reader/api/0/mark-all-as-read"
    );
    assert_eq!(
        request.form,
        vec![
            ("s".to_string(), READING_LIST.to_string()),
            ("ts".to_string(), "1779685342776844".to_string()),
            ("T".to_string(), "tok".to_string()),
        ]
    );
}

#[test]
fn mark_all_is_accepted_with_ok_alone() {
    assert_eq!(mark_all_reply(status(200), " OK\n"), Ok(()));
    assert_eq!(
        mark_all_reply(status(200), "Error=x"),
        Err("FreshRSS mark-all-as-read failed: HTTP 200 OK: Error=x".to_string())
    );
    assert_eq!(
        mark_all_reply(status(404), "OK"),
        Err("FreshRSS mark-all-as-read failed: HTTP 404 Not Found: OK".to_string())
    );
}

#[test]
fn mark_all_message_holds_the_status_as_it_is_shown() {
    assert_eq!(status_message("a ", "b", ": ", "c"), "a b: c");
    assert_eq!(judge_mark_all(status(200), "x", "OK"), Ok(()));
    assert_eq!(
        judge_mark_all(status(500), "x", "OK"),
        Err("FreshRSS mark-all-as-read failed: HTTP x: OK".to_string())
    );
}
