//! Rules that hold for FreshRSS servers alone.

use vstd::prelude::*;
use vstd::string::*;
use crate::http;
use crate::http::{Method, Request, RequestView, Status};
use crate::number;
use crate::outside;
use crate::provider::{EDIT_TAG_BATCH_SIZE, READING_LIST};
use crate::session::{Session, SessionView};
use crate::text;
use crate::wire::{Sub, SubscriptionCategory, UnreadCount, UnreadCounts};

verus! {

/// The part of an item id after its last slash.
pub fn remote_id_tail(remote_id: &str) -> (r: &str)
    ensures
        r@ == text::after_last(remote_id@, '/'),
{
    text::tail_after(remote_id, '/')
}

/// The number that an item id ends in, where its last part is hexadecimal
/// and fits 64 bits.
pub open spec fn item_number(remote_id: Seq<char>) -> Option<u64> {
    let tail = text::after_last(remote_id, '/');
    if number::is_hex(tail) && number::hex_value(tail) <= u64::MAX {
        Some(number::hex_value(tail) as u64)
    } else {
        None
    }
}

/// The number that an item id ends in.
pub fn item_decimal_id(remote_id: &str) -> (r: Option<u64>)
    ensures
        r == item_number(remote_id@),
{
    number::from_hex(remote_id_tail(remote_id))
}

/// The item id in the decimal form that FreshRSS edits by; an id that ends
/// in no number stays as it is.
pub open spec fn decimal_item_id(remote_id: Seq<char>) -> Seq<char> {
    match item_number(remote_id) {
        Some(id) => number::decimal(id as nat),
        None => remote_id,
    }
}

/// The item id in the decimal form that FreshRSS edits by.
pub fn edit_tag_item_id(remote_id: &str) -> (r: String)
    ensures
        r@ == decimal_item_id(remote_id@),
{
    match item_decimal_id(remote_id) {
        Some(id) => number::to_decimal(id),
        None => remote_id.to_owned(),
    }
}

/// FreshRSS answers OK to a bulk mark-read even where it changed nothing, so
/// such requests stay under six items and take its path for single entries.
pub open spec fn batch_limit(field: Seq<char>, value: bool) -> usize {
    if field == "read"@ && value {
        5
    } else {
        EDIT_TAG_BATCH_SIZE
    }
}

/// How many items one `edit-tag` request may change.
pub fn edit_tag_batch_size(field: &str, value: bool) -> (r: usize)
    ensures
        r == batch_limit(field@, value),
{
    if text::same(field, "read") && value {
        5
    } else {
        EDIT_TAG_BATCH_SIZE
    }
}

/// The item id below which the whole reading list may be marked as read:
/// given only where the unread items that the server still counts are
/// exactly those of the unread stream, every one of them is read locally,
/// and none was imported or skipped.
pub fn mark_all_read_fallback_id(
    remote_unread_after_push: usize,
    unread_stream_articles: usize,
    queued_local_read_pushes: usize,
    imported_articles: usize,
    skipped_unread_articles: usize,
    max_unread_item_id: Option<u64>,
) -> (r: Option<u64>)
    ensures
        r == if remote_unread_after_push > 0 && remote_unread_after_push == unread_stream_articles
            && queued_local_read_pushes == unread_stream_articles && imported_articles == 0
            && skipped_unread_articles == 0 {
            max_unread_item_id
        } else {
            None
        },
{
    if remote_unread_after_push > 0 && remote_unread_after_push == unread_stream_articles
        && queued_local_read_pushes == unread_stream_articles && imported_articles == 0
        && skipped_unread_articles == 0 {
        max_unread_item_id
    } else {
        None
    }
}

/// The count of the first entry for the reading list.
pub open spec fn listed_count(entries: Seq<UnreadCount>) -> Option<usize>
    decreases entries.len(),
{
    if entries.len() == 0 {
        None
    } else if entries[0].id@ == READING_LIST@ {
        Some(entries[0].count)
    } else {
        listed_count(entries.skip(1))
    }
}

/// The number of unread items: the count of the reading list, or else the
/// overall count.
pub open spec fn unread_count(counts: UnreadCounts) -> Option<usize> {
    match listed_count(counts.unreadcounts@) {
        Some(count) => Some(count),
        None => counts.max,
    }
}

/// The number of unread items.
pub fn reading_list_unread_count(counts: &UnreadCounts) -> (r: Option<usize>)
    ensures
        r == unread_count(*counts),
{
    let entries: &Vec<UnreadCount> = &counts.unreadcounts;
    let mut i: usize = 0;
    assert(entries@.skip(0) == entries@);
    while i < entries.len()
        invariant
            *entries == counts.unreadcounts,
            i <= entries.len(),
            listed_count(entries@) == listed_count(entries@.skip(i as int)),
        decreases entries.len() - i,
    {
        if text::same(entries[i].id.as_str(), READING_LIST) {
            return Some(entries[i].count);
        }
        assert(entries@.skip(i as int).skip(1) == entries@.skip(i + 1));
        i = i + 1;
    }
    counts.max
}

/// The label that a category's stream id names.
pub open spec fn stream_label(id: Seq<char>) -> Option<Seq<char>> {
    if text::begins(id, "user/-/label/"@) {
        Some(id.skip("user/-/label/"@.len() as int))
    } else if text::occurs(id, "/label/"@) {
        Some(id.skip(text::first_index(id, "/label/"@) + "/label/"@.len()))
    } else {
        None
    }
}

/// The label that a category's stream id names.
pub fn category_stream_label(id: &str) -> (r: Option<&str>)
    ensures
        r.deep_view() == stream_label(id@),
{
    match text::strip_prefix(id, "user/-/label/") {
        Some(label) => Some(label),
        None => text::after_first(id, "/label/"),
    }
}

/// Whether a category name stands for no folder at all.
pub open spec fn default_category(name: Seq<char>) -> bool {
    let name = text::trimmed(name);
    ||| name.len() == 0
    ||| text::alike(name, "uncategorized"@)
    ||| text::alike(name, "uncategorised"@)
    ||| name == "未分类"@
    ||| name == "未分類"@
}

/// Whether a category name stands for no folder at all.
pub fn is_default_category(name: &str) -> (r: bool)
    ensures
        r == default_category(name@),
{
    let name: &str = text::trim(name);
    name.is_empty() || text::eq_ignore_ascii_case(name, "uncategorized")
        || text::eq_ignore_ascii_case(name, "uncategorised") || text::same(name, "未分类")
        || text::same(name, "未分類")
}

/// Whether a category is a folder: one of another kind is not, and one of
/// no kind is.
pub open spec fn is_folder(category: SubscriptionCategory) -> bool {
    match category.kind {
        Some(kind) => text::alike(kind@, "folder"@),
        None => true,
    }
}

/// The label of a category, or else the label that its stream id names.
pub open spec fn category_label(category: SubscriptionCategory) -> Option<Seq<char>> {
    match category.label {
        Some(label) => Some(label@),
        None => match category.id {
            Some(id) => stream_label(id@),
            None => None,
        },
    }
}

/// The folder that one category names.
pub open spec fn category_folder(category: SubscriptionCategory) -> Option<Seq<char>> {
    match category_label(category) {
        Some(label) if is_folder(category) && !default_category(text::trimmed(label)) => Some(
            text::trimmed(label),
        ),
        _ => None,
    }
}

/// The folder that the first category that names one names.
pub open spec fn first_folder(categories: Seq<SubscriptionCategory>) -> Option<Seq<char>>
    decreases categories.len(),
{
    if categories.len() == 0 {
        None
    } else if category_folder(categories[0]) is Some {
        category_folder(categories[0])
    } else {
        first_folder(categories.skip(1))
    }
}

fn folder_of_category(category: &SubscriptionCategory) -> (r: Option<String>)
    ensures
        r.deep_view() == category_folder(*category),
{
    match &category.kind {
        Some(kind) => {
            if !text::eq_ignore_ascii_case(kind.as_str(), "folder") {
                return None;
            }
        },
        None => {},
    }
    let label: &str = match &category.label {
        Some(label) => label.as_str(),
        None => match &category.id {
            Some(id) => match category_stream_label(id.as_str()) {
                Some(label) => label,
                None => {
                    return None;
                },
            },
            None => {
                return None;
            },
        },
    };
    let name: &str = text::trim(label);
    if is_default_category(name) {
        None
    } else {
        Some(name.to_owned())
    }
}

/// The folder that a subscription is filed under.
pub fn subscription_folder_name(sub: &Sub) -> (r: Option<String>)
    ensures
        r.deep_view() == first_folder(sub.categories@),
{
    let categories: &Vec<SubscriptionCategory> = &sub.categories;
    let mut i: usize = 0;
    assert(categories@.skip(0) == categories@);
    while i < categories.len()
        invariant
            *categories == sub.categories,
            i <= categories.len(),
            first_folder(categories@) == first_folder(categories@.skip(i as int)),
        decreases categories.len() - i,
    {
        let folder: Option<String> = folder_of_category(&categories[i]);
        if folder.is_some() {
            return folder;
        }
        assert(categories@.skip(i as int).skip(1) == categories@.skip(i + 1));
        i = i + 1;
    }
    None
}

/// The request for the unread counts.
pub open spec fn count_request(session: SessionView) -> RequestView {
    session.get("unread-count?output=json"@)
}

/// The request for the unread counts.
pub fn remote_unread_count(session: &Session) -> (r: Request)
    ensures
        r@ == count_request(session@),
{
    session.get("unread-count?output=json")
}

/// The request that marks the reading list as read up to an item.
pub open spec fn mark_all_request(session: SessionView, older_than_id: u64) -> RequestView {
    session.post(
        "mark-all-as-read"@,
        seq![
            ("s"@, READING_LIST@),
            ("ts"@, number::decimal(older_than_id as nat)),
            ("T"@, session.token),
        ],
    )
}

/// The request that marks the reading list as read up to an item.
pub fn mark_all_reading_list_as_read(session: &Session, older_than_id: u64) -> (r: Request)
    ensures
        r@ == mark_all_request(session@, older_than_id),
{
    let ts: String = number::to_decimal(older_than_id);
    let form: Vec<(String, String)> = vec![
        http::field("s", READING_LIST),
        http::field("ts", ts.as_str()),
        http::field("T", session.token.as_str()),
    ];
    assert(form.deep_view() =~= seq![
        ("s"@, READING_LIST@),
        ("ts"@, number::decimal(older_than_id as nat)),
        ("T"@, session@.token),
    ]);
    session.post("mark-all-as-read", form)
}

/// Whether the reading list was marked as read: the status is a success and
/// the body is `OK`.
pub open spec fn marked_all(code: u16, body: Seq<char>) -> bool {
    http::success(code) && text::trimmed(body) == "OK"@
}

/// What is wrong with the answer to marking the reading list as read, if
/// anything, where its status is shown as `line`.
pub open spec fn mark_all_failure(code: u16, line: Seq<char>, body: Seq<char>) -> Option<
    Seq<char>,
> {
    if marked_all(code, body) {
        None
    } else {
        Some(
            http::message_of("FreshRSS mark-all-as-read failed: HTTP "@, line, ": "@, body),
        )
    }
}

/// Judges the answer to marking the reading list as read, where its status is
/// shown as `line`.
pub fn judge_mark_all(status: Status, line: &str, body: &str) -> (r: Result<(), String>)
    ensures
        match r {
            Ok(_) => mark_all_failure(status.value(), line@, body@) is None,
            Err(message) => mark_all_failure(status.value(), line@, body@) == Some(message@),
        },
{
    if http::is_success(status) && text::same(text::trim(body), "OK") {
        Ok(())
    } else {
        Err(
            http::status_message(
                "FreshRSS mark-all-as-read failed: HTTP ",
                line,
                ": ",
                body,
            ),
        )
    }
}

/// Judges the answer to marking the reading list as read.
pub fn mark_all_reply(status: Status, body: &str) -> (r: Result<(), String>)
    ensures
        ({
            let line = outside::status_line(status.value());
            match r {
                Ok(_) => mark_all_failure(status.value(), line, body@) is None,
                Err(message) => mark_all_failure(status.value(), line, body@) == Some(message@),
            }
        }),
{
    judge_mark_all(status, status.describe().as_str(), body)
}

proof fn lemma_hex_has_no_slash(n: nat, capitals: bool)
    ensures
        forall|k: int|
            0 <= k < number::hex_text(n, capitals).len() ==> #[trigger] number::hex_text(
                n,
                capitals,
            )[k] != '/',
{
    let text = number::hex_text(n, capitals);
    number::law_hex_reads_back(n, capitals);
    assert forall|k: int| 0 <= k < text.len() implies #[trigger] text[k] != '/' by {
        assert(number::hex_digit(text[k]) is Some);
    }
}

/// The number of an item is what the part of its id after the last slash
/// writes in hexadecimal, with or without zeros in front.
pub proof fn law_item_ids_end_in_their_number(head: Seq<char>, n: u64, capitals: bool)
    ensures
        item_number(number::hex_text(n as nat, capitals)) == Some(n),
        item_number(head + seq!['/'] + number::hex_text(n as nat, capitals)) == Some(n),
        item_number(head + seq!['/'] + (seq!['0'] + number::hex_text(n as nat, capitals))) == Some(
            n,
        ),
{
    let text = number::hex_text(n as nat, capitals);
    let padded = seq!['0'] + text;
    number::law_hex_reads_back(n as nat, capitals);
    number::law_leading_zeros_do_not_count(text);
    lemma_hex_has_no_slash(n as nat, capitals);
    text::law_tail_follows_the_last_separator(head, text, '/');
    assert forall|k: int| 0 <= k < padded.len() implies #[trigger] padded[k] != '/' by {
        if k > 0 {
            assert(padded[k] == text[k - 1]);
        }
    }
    text::law_tail_follows_the_last_separator(head, padded, '/');
}

/// An id whose last part is empty, holds anything but hexadecimal digits or
/// writes more than 64 bits has no number.
pub proof fn law_other_ids_have_no_number(head: Seq<char>, tail: Seq<char>, i: int)
    requires
        forall|k: int| 0 <= k < tail.len() ==> #[trigger] tail[k] != '/',
        tail.len() == 0 || number::hex_value(tail) > u64::MAX || (0 <= i < tail.len()
            && number::hex_digit(tail[i]) is None),
    ensures
        item_number(head + seq!['/'] + tail) is None,
        item_number(tail) is None,
{
    text::law_tail_follows_the_last_separator(head, tail, '/');
}

proof fn lemma_listed_count(entries: Seq<UnreadCount>, i: int)
    requires
        0 <= i <= entries.len(),
        forall|k: int| 0 <= k < i ==> (#[trigger] entries[k]).id@ != READING_LIST@,
    ensures
        i == entries.len() ==> listed_count(entries) is None,
        i < entries.len() && entries[i].id@ == READING_LIST@ ==> listed_count(entries) == Some(
            entries[i].count,
        ),
    decreases i,
{
    if i > 0 {
        assert(entries[0].id@ != READING_LIST@);
        assert forall|k: int| 0 <= k < i - 1 implies (#[trigger] entries.skip(1)[k]).id@
            != READING_LIST@ by {
            assert(entries.skip(1)[k] == entries[k + 1]);
        }
        lemma_listed_count(entries.skip(1), i - 1);
    }
}

/// The unread count is that of the first entry for the reading list, whatever
/// the overall count is; without such an entry it is the overall count.
pub proof fn law_reading_list_is_counted(counts: UnreadCounts, i: int)
    requires
        0 <= i <= counts.unreadcounts@.len(),
        forall|k: int|
            0 <= k < i ==> (#[trigger] counts.unreadcounts@[k]).id@
                != "user/-/state/com.google/reading-list"@,
    ensures
        i < counts.unreadcounts@.len() && counts.unreadcounts@[i].id@
            == "user/-/state/com.google/reading-list"@ ==> unread_count(counts) == Some(
            counts.unreadcounts@[i].count,
        ),
        i == counts.unreadcounts@.len() ==> unread_count(counts) == counts.max,
{
    lemma_listed_count(counts.unreadcounts@, i);
}

/// The label of a category is what follows the first `/label/` of its id, and
/// an id without that names no label.
pub proof fn law_label_follows_its_marker(head: Seq<char>, label: Seq<char>, other: Seq<char>)
    requires
        forall|j: int|
            0 <= j < head.len() ==> !text::occurs_at(head + "/label/"@ + label, "/label/"@, j),
        !text::occurs(other, "/label/"@),
    ensures
        stream_label(head + "/label/"@ + label) == Some(label),
        stream_label(other) is None,
{
    let id = head + "/label/"@ + label;
    let n = head.len() as int;
    reveal_strlit("user/-/label/");
    reveal_strlit("/label/");
    assert(id.subrange(n, n + 7) =~= "/label/"@);
    assert(text::occurs_at(id, "/label/"@, n));
    assert(text::first_at(id, "/label/"@, n));
    if text::begins(id, "user/-/label/"@) {
        let prefix = "user/-/label/"@;
        assert(id.subrange(0, 13) == prefix);
        assert forall|k: int| 0 <= k < 13 implies id[k] == prefix[k] by {
            assert(id.subrange(0, 13)[k] == id[k]);
        }
        assert(id.subrange(6, 13) =~= "/label/"@);
        assert(text::occurs_at(id, "/label/"@, 6));
        if n < 6 {
            assert(id.subrange(n, n + 7)[1] == id[n + 1]);
            assert(id.subrange(n, n + 7)[0] == id[n]);
        }
        assert(n == 6);
    } else {
        let f = text::first_index(id, "/label/"@);
        assert(text::first_at(id, "/label/"@, f));
        assert(text::occurs_at(id, "/label/"@, f));
        assert(f == n);
    }
    assert(id.skip(n + 7) =~= label);
    if text::begins(other, "user/-/label/"@) {
        assert(other.subrange(0, 13) == "user/-/label/"@);
        assert forall|k: int| 0 <= k < 13 implies other[k] == "user/-/label/"@[k] by {
            assert(other.subrange(0, 13)[k] == other[k]);
        }
        assert(other.subrange(6, 13) =~= "/label/"@);
        assert(text::occurs_at(other, "/label/"@, 6));
    }
}

/// A category stands for no folder where its name is blank or, but for ASCII
/// case and white space around it, one of the names of the default category,
/// and in no other case.
pub proof fn law_default_categories(name: Seq<char>)
    ensures
        text::blank(name) ==> default_category(name),
        !text::blank(name) ==> (default_category(name) <==> text::alike(
            text::trimmed(name),
            "uncategorized"@,
        ) || text::alike(text::trimmed(name), "uncategorised"@) || text::trimmed(name) == "未分类"@
            || text::trimmed(name) == "未分類"@),
{
    text::lemma_trimmed(name);
}

/// The first category that names a folder files the subscription: categories
/// of another kind, without a label or with a default name are passed over.
pub proof fn law_first_named_folder_files(categories: Seq<SubscriptionCategory>, i: int)
    requires
        0 <= i <= categories.len(),
        forall|k: int| 0 <= k < i ==> passed_over(#[trigger] categories[k]),
    ensures
        i == categories.len() ==> first_folder(categories) is None,
        i < categories.len() && (categories[i].kind matches Some(kind) ==> text::alike(
            kind@,
            "folder"@,
        )) && (categories[i].label matches Some(label) && !default_category(
            text::trimmed(label@),
        )) ==> first_folder(categories) == Some(text::trimmed(categories[i].label->0@)),
        i < categories.len() && (categories[i].kind matches Some(kind) ==> text::alike(
            kind@,
            "folder"@,
        )) && categories[i].label is None && (categories[i].id matches Some(id) && (stream_label(
            id@,
        ) matches Some(label) && !default_category(text::trimmed(label)))) ==> first_folder(
            categories,
        ) == Some(text::trimmed(stream_label(categories[i].id->0@)->0)),
    decreases i,
{
    if i > 0 {
        assert(passed_over(categories[0]));
        assert forall|k: int| 0 <= k < i - 1 implies passed_over(
            #[trigger] categories.skip(1)[k],
        ) by {
            assert(categories.skip(1)[k] == categories[k + 1]);
        }
        law_first_named_folder_files(categories.skip(1), i - 1);
    }
}

/// Whether a category does not name a folder: it is of another kind, or its
/// label, or else the label in its id, is missing or a default name.
pub open spec fn passed_over(category: SubscriptionCategory) -> bool {
    ||| category.kind matches Some(kind) && !text::alike(kind@, "folder"@)
    ||| category.label matches Some(label) && default_category(text::trimmed(label@))
    ||| category.label is None && category.id is None
    ||| category.label is None && (category.id matches Some(id) && stream_label(id@) is None)
    ||| category.label is None && (category.id matches Some(id) && (stream_label(id@) matches Some(
        label,
    ) && default_category(text::trimmed(label))))
}

/// The unread counts are read, and everything is marked as read up to an item
/// of the reading list by its number, with the token of the session.
pub proof fn law_freshrss_requests(session: SessionView, older_than_id: u64)
    ensures
        ({
            let count = count_request(session);
            let mark = mark_all_request(session, older_than_id);
            &&& count.method == Method::Get && mark.method == Method::Post
            &&& count.url == session.base + "/reader/api/0/"@ + "unread-count?output=json"@
            &&& mark.url == session.base + "/reader/api/0/"@ + "mark-all-as-read"@
            &&& count.authorization == Some("GoogleLogin auth="@ + session.auth)
            &&& mark.authorization == count.authorization
            &&& count.form.len() == 0 && mark.form.len() == 3
            &&& mark.form[0] == ("s"@, "user/-/state/com.google/reading-list"@)
            &&& mark.form[1].0 == "ts"@ && number::decimal_value(mark.form[1].1) == Some(
                older_than_id as nat,
            )
            &&& mark.form[2] == ("T"@, session.token)
        }),
{
    number::law_decimal_reads_back(older_than_id as nat);
}

/// Everything was marked as read exactly where a success says `OK`, with
/// nothing but white space around it.
pub proof fn law_marking_is_confirmed_by_ok(code: u16, body: Seq<char>)
    ensures
        marked_all(code, body) <==> 200 <= code <= 299 && text::trimmed(body) == "OK"@,
{
}

/// A failed marking is told with the status and the body.
pub proof fn law_failed_marking_says_why(code: u16, line: Seq<char>, body: Seq<char>)
    ensures
        mark_all_failure(code, line, body) is None <==> 200 <= code <= 299 && text::trimmed(body)
            == "OK"@,
        mark_all_failure(code, line, body) matches Some(message) ==> message
            == "FreshRSS mark-all-as-read failed: HTTP "@ + line + ": "@ + body,
{
}

/// Only the part of an id after its last slash counts: it gives the number
/// where it is one or more hexadecimal digits and writes no more than 64 bits.
pub proof fn law_last_part_gives_the_number(head: Seq<char>, tail: Seq<char>)
    requires
        forall|k: int| 0 <= k < tail.len() ==> #[trigger] tail[k] != '/',
    ensures
        item_number(head + seq!['/'] + tail) == item_number(tail),
        item_number(tail) is Some <==> tail.len() > 0 && (forall|k: int|
            0 <= k < tail.len() ==> number::hex_digit(#[trigger] tail[k]) is Some)
            && number::hex_value(tail) <= 0xffff_ffff_ffff_ffff,
        item_number(tail) matches Some(n) ==> n == number::hex_value(tail),
{
    text::law_tail_follows_the_last_separator(head, tail, '/');
}

} // verus!
