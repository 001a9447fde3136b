//! The servers that speak the Google Reader API, and what sets them apart.

use vstd::prelude::*;
use vstd::string::*;
use crate::freshrss;
use crate::number;
use crate::text;

verus! {

/// The tag of items that were read.
pub const READ_TAG: &'static str = "user/-/state/com.google/read";

/// The tag of items that were starred.
pub const STARRED_TAG: &'static str = "user/-/state/com.google/starred";

/// The stream of all items of all subscriptions.
pub const READING_LIST: &'static str = "user/-/state/com.google/reading-list";

/// How many items one `edit-tag` request may change.
pub const EDIT_TAG_BATCH_SIZE: usize = 100;

/// A server product. The protocol is the same for all of them; the place of
/// the API below the server URL is not.
#[derive(Clone, Copy, Debug, PartialEq, Eq, Structural)]
pub enum Provider {
    FreshRss,
    Miniflux,
}

impl Provider {
    /// The path of the API root below the server URL.
    pub open spec fn suffix(self) -> Seq<char> {
        match self {
            Provider::FreshRss => "/api/greader.php"@,
            Provider::Miniflux => ""@,
        }
    }

    /// The name under which the choice of provider is stored.
    pub open spec fn name(self) -> Seq<char> {
        match self {
            Provider::FreshRss => "freshrss"@,
            Provider::Miniflux => "miniflux"@,
        }
    }

    /// The provider that a stored setting stands for. A missing or unknown
    /// setting stands for FreshRSS.
    pub open spec fn of_setting(setting: Option<Seq<char>>) -> Provider {
        match setting {
            Some(s) if text::trimmed(s) == "miniflux"@ => Provider::Miniflux,
            _ => Provider::FreshRss,
        }
    }

    /// The path of the API root below the server URL.
    pub fn path_suffix(self) -> (r: &'static str)
        ensures
            r@ == self.suffix(),
    {
        match self {
            Provider::FreshRss => "/api/greader.php",
            Provider::Miniflux => "",
        }
    }

    /// Reads the stored setting.
    pub fn from_setting(s: Option<&str>) -> (r: Provider)
        ensures
            r == Provider::of_setting(s.deep_view()),
    {
        match s {
            Some(t) => {
                if text::same(text::trim(t), "miniflux") {
                    Provider::Miniflux
                } else {
                    Provider::FreshRss
                }
            },
            None => Provider::FreshRss,
        }
    }

    /// The name under which the choice is stored.
    pub fn as_str(self) -> (r: &'static str)
        ensures
            r@ == self.name(),
    {
        match self {
            Provider::FreshRss => "freshrss",
            Provider::Miniflux => "miniflux",
        }
    }
}

/// What is stored for a provider reads back as that provider.
pub proof fn law_setting_round_trip(p: Provider)
    ensures
        Provider::of_setting(Some(p.name())) == p,
{
    reveal_strlit("freshrss");
    reveal_strlit("miniflux");
    text::lemma_trimmed_fixed(p.name());
    assert("freshrss"@[0] != "miniflux"@[0]);
}

/// Whether a character at the end of a server URL says nothing: a slash or
/// white space.
pub open spec fn is_loose(c: char) -> bool {
    c == '/' || text::is_white(c)
}

/// `s` without the slashes and the white space at its end.
pub open spec fn bare_end(s: Seq<char>) -> Seq<char>
    decreases s.len(),
{
    if s.len() > 0 && is_loose(s.last()) {
        bare_end(s.drop_last())
    } else {
        s
    }
}

/// The server URL without white space around it and slashes at its end.
pub open spec fn server_root(url: Seq<char>) -> Seq<char> {
    text::trim_end_char(text::trimmed(url), '/')
}

/// Whether a URL holds the path of the API root: at its end, or followed by a
/// slash.
pub open spec fn holds_path(url: Seq<char>, provider: Provider) -> bool {
    text::ends(url, provider.suffix()) || text::occurs(url, provider.suffix() + "/"@)
}

/// The API root for a server URL as the user typed it: the URL itself, freed
/// of everything loose at its end, where it holds the path already, and else
/// the server root with the path added.
pub open spec fn base_of(url: Seq<char>, provider: Provider) -> Seq<char> {
    let root = server_root(url);
    if holds_path(bare_end(root), provider) {
        bare_end(root)
    } else {
        root + provider.suffix()
    }
}

fn strip_end(s: &str) -> (r: &str)
    ensures
        r@ == bare_end(s@),
{
    let v: Vec<char> = text::chars_of(s);
    let mut n: usize = v.len();
    assert(s@.take(n as int) == s@);
    while n > 0 && (v[n - 1] == '/' || text::white(v[n - 1]))
        invariant
            v@ == s@,
            n <= v.len(),
            bare_end(s@) == bare_end(s@.take(n as int)),
        decreases n,
    {
        assert(s@.take(n as int).drop_last() == s@.take(n - 1));
        n = n - 1;
    }
    assert(s@.take(n as int) == s@.subrange(0, n as int));
    s.substring_char(0, n)
}

/// Brings a server URL as the user typed it to the provider's API root. The
/// path of the API root is not added where the URL has it already.
pub fn greader_base(url: &str, provider: Provider) -> (r: String)
    ensures
        r@ == base_of(url@, provider),
{
    let root: &str = text::trim_end_matches(text::trim(url), '/');
    let bare: &str = strip_end(root);
    let suffix: &str = provider.path_suffix();
    if text::ends_with(bare, suffix) || text::contains(bare, text::join(suffix, "/").as_str()) {
        bare.to_owned()
    } else {
        text::join(root, suffix)
    }
}

proof fn lemma_bare_end(s: Seq<char>)
    ensures
        bare_end(s).len() <= s.len(),
        bare_end(s).len() > 0 ==> !is_loose(bare_end(s).last()) && bare_end(s)[0] == s[0],
        bare_end(text::trim_end(s)) == bare_end(s),
    decreases s.len(),
{
    if s.len() > 0 && is_loose(s.last()) {
        lemma_bare_end(s.drop_last());
    }
}

proof fn lemma_loose_tail(s: Seq<char>, tail: Seq<char>)
    requires
        forall|i: int| 0 <= i < tail.len() ==> is_loose(#[trigger] tail[i]),
    ensures
        bare_end(s + tail) == bare_end(s),
    decreases tail.len(),
{
    if tail.len() == 0 {
        assert(s + tail =~= s);
    } else {
        assert(is_loose(tail[tail.len() - 1]));
        assert((s + tail).drop_last() =~= s + tail.drop_last());
        assert forall|i: int| 0 <= i < tail.drop_last().len() implies is_loose(
            #[trigger] tail.drop_last()[i],
        ) by {
            assert(tail.drop_last()[i] == tail[i]);
        }
        lemma_loose_tail(s, tail.drop_last());
    }
}

proof fn lemma_trim_slashes(s: Seq<char>)
    ensures
        text::trim_end_char(s, '/').len() <= s.len(),
        text::trim_end_char(s, '/').len() > 0 ==> text::trim_end_char(s, '/')[0] == s[0],
        s.len() > 0 && s.last() != '/' ==> text::trim_end_char(s, '/') == s,
        bare_end(text::trim_end_char(s, '/')) == bare_end(s),
    decreases s.len(),
{
    if s.len() > 0 && s.last() == '/' {
        lemma_trim_slashes(s.drop_last());
    }
}

/// A URL with nothing loose at its ends is its own API root where it holds
/// the path.
proof fn lemma_base_fixed(url: Seq<char>, provider: Provider)
    requires
        url.len() > 0 ==> !text::is_white(url[0]) && !is_loose(url.last()),
        holds_path(url, provider),
    ensures
        base_of(url, provider) == url,
{
    text::lemma_trimmed_fixed(url);
    lemma_trim_slashes(url);
}

/// Taking the API root of an API root changes nothing.
pub proof fn law_base_is_idempotent(url: Seq<char>, provider: Provider)
    ensures
        base_of(base_of(url, provider), provider) == base_of(url, provider),
{
    let root = server_root(url);
    let suffix = provider.suffix();
    let base = base_of(url, provider);
    text::lemma_trimmed(url);
    lemma_trim_slashes(text::trimmed(url));
    lemma_bare_end(root);
    reveal_strlit("/api/greader.php");
    reveal_strlit("");
    if !holds_path(bare_end(root), provider) {
        let bare = bare_end(root);
        assert(bare.subrange(bare.len() as int, bare.len() as int) =~= ""@);
        assert(provider == Provider::FreshRss);
        assert(base[0] == if root.len() > 0 { root[0] } else { '/' });
        assert(base.last() == 'p');
        assert(base.subrange(base.len() - suffix.len(), base.len() as int) =~= suffix);
    }
    lemma_base_fixed(base, provider);
}

/// The API root holds the path of the API root.
pub proof fn law_base_reaches_the_api(url: Seq<char>, provider: Provider)
    ensures
        holds_path(base_of(url, provider), provider),
{
    let base = server_root(url) + provider.suffix();
    assert(base.subrange(base.len() - provider.suffix().len(), base.len() as int)
        =~= provider.suffix());
}

/// Where no white space stands before the slashes at its end, the API root is
/// the server root, with the path added unless the server root holds it.
pub proof fn law_base_extends_the_server_root(url: Seq<char>, provider: Provider)
    requires
        server_root(url).len() > 0 ==> !text::is_white(server_root(url).last()),
    ensures
        base_of(url, provider) == if holds_path(server_root(url), provider) {
            server_root(url)
        } else {
            server_root(url) + provider.suffix()
        },
{
    lemma_trim_slashes_ends(text::trimmed(url));
}

proof fn lemma_trim_slashes_ends(s: Seq<char>)
    ensures
        text::trim_end_char(s, '/').len() > 0 ==> text::trim_end_char(s, '/').last() != '/',
    decreases s.len(),
{
    if s.len() > 0 && s.last() == '/' {
        lemma_trim_slashes_ends(s.drop_last());
    }
}

/// A path of the API root that the user typed is not added again, whatever
/// slashes and white space follow it.
pub proof fn law_typed_path_is_kept(head: Seq<char>, tail: Seq<char>)
    requires
        forall|i: int| 0 <= i < tail.len() ==> is_loose(#[trigger] tail[i]),
    ensures
        ({
            let suffix = Provider::FreshRss.suffix();
            base_of(head + suffix + tail, Provider::FreshRss) == text::trim_start(head) + suffix
        }),
{
    let suffix = Provider::FreshRss.suffix();
    let url = head + suffix + tail;
    let start = text::trim_start(head);
    reveal_strlit("/api/greader.php");
    assert(url =~= head + (suffix + tail));
    text::lemma_trim_start_joined(head, suffix + tail);
    assert(text::trim_start(url) =~= start + suffix + tail);
    lemma_bare_end(text::trim_start(url));
    lemma_trim_slashes(text::trimmed(url));
    lemma_loose_tail(start + suffix, tail);
    let root = start + suffix;
    assert(root.last() == 'p');
    assert(bare_end(server_root(url)) == root);
    assert(root.subrange(root.len() - suffix.len(), root.len() as int) =~= suffix);
}

/// The item id that an `edit-tag` request carries.
pub open spec fn wire_item_id(provider: Provider, remote_id: Seq<char>) -> Seq<char> {
    match provider {
        Provider::FreshRss => freshrss::decimal_item_id(remote_id),
        Provider::Miniflux => remote_id,
    }
}

/// The item id that an `edit-tag` request carries.
pub fn edit_tag_item_id(provider: Provider, remote_id: &str) -> (r: String)
    ensures
        r@ == wire_item_id(provider, remote_id@),
{
    match provider {
        Provider::FreshRss => freshrss::edit_tag_item_id(remote_id),
        Provider::Miniflux => remote_id.to_owned(),
    }
}

/// How many items one `edit-tag` request may change.
pub open spec fn batch_limit(provider: Provider, field: Seq<char>, value: bool) -> usize {
    match provider {
        Provider::FreshRss => freshrss::batch_limit(field, value),
        Provider::Miniflux => EDIT_TAG_BATCH_SIZE,
    }
}

/// How many items one `edit-tag` request may change.
pub fn edit_tag_batch_size(provider: Provider, field: &str, value: bool) -> (r: usize)
    ensures
        r == batch_limit(provider, field@, value),
{
    match provider {
        Provider::FreshRss => freshrss::edit_tag_batch_size(field, value),
        Provider::Miniflux => EDIT_TAG_BATCH_SIZE,
    }
}

/// Whether marking the whole reading list as read may be considered at all:
/// only on FreshRSS, and only where the unread stream was read to its end
/// and every item id in it was understood.
pub fn should_try_mark_all_read_fallback(
    provider: Provider,
    unread_item_id_parse_failures: usize,
    unread_stream_hit_page_limit: bool,
) -> (r: bool)
    ensures
        r == (provider == Provider::FreshRss && unread_item_id_parse_failures == 0
            && !unread_stream_hit_page_limit),
{
    provider == Provider::FreshRss && unread_item_id_parse_failures == 0
        && !unread_stream_hit_page_limit
}

/// FreshRSS serves the API below the path `/api/greader.php`, and Miniflux at
/// the server root; the two are told apart by the stored names alone.
pub proof fn law_providers_are_told_apart(setting: Seq<char>)
    ensures
        Provider::FreshRss.suffix() == "/api/greader.php"@,
        Provider::Miniflux.suffix().len() == 0,
        Provider::FreshRss.name() == "freshrss"@,
        Provider::Miniflux.name() == "miniflux"@,
        Provider::of_setting(None) == Provider::FreshRss,
        Provider::of_setting(Some(setting)) == Provider::Miniflux <==> text::surrounded(
            "miniflux"@,
            setting,
        ),
{
    reveal_strlit("");
    reveal_strlit("miniflux");
    text::law_trimming_takes_white_space_alone(setting);
    if text::surrounded("miniflux"@, setting) {
        lemma_core_is_unique(setting, "miniflux"@, text::trimmed(setting));
    }
}

/// A text without white space at its ends is the only such part of another
/// that nothing but white space surrounds.
proof fn lemma_core_is_unique(whole: Seq<char>, a: Seq<char>, b: Seq<char>)
    requires
        text::surrounded(a, whole),
        text::surrounded(b, whole),
        a.len() > 0 && !text::is_white(a[0]) && !text::is_white(a[a.len() - 1]),
        b.len() > 0 ==> !text::is_white(b[0]) && !text::is_white(b[b.len() - 1]),
    ensures
        a == b,
{
    let (i, j) = choose|i: int, j: int| #[trigger]
        whole.subrange(i, j) == a && 0 <= i <= j <= whole.len() && (forall|k: int|
            0 <= k < i || j <= k < whole.len() ==> text::is_white(#[trigger] whole[k]));
    let (m, n) = choose|i: int, j: int| #[trigger]
        whole.subrange(i, j) == b && 0 <= i <= j <= whole.len() && (forall|k: int|
            0 <= k < i || j <= k < whole.len() ==> text::is_white(#[trigger] whole[k]));
    assert(a[0] == whole[i] && a[a.len() - 1] == whole[j - 1]);
    if b.len() == 0 {
        assert(text::is_white(whole[i]));
    } else {
        assert(b[0] == whole[m] && b[b.len() - 1] == whole[n - 1]);
    }
}

/// To the server URL of Miniflux nothing is added: its API root is the URL
/// without white space in front and without slashes and white space behind.
pub proof fn law_miniflux_adds_nothing(url: Seq<char>)
    ensures
        ({
            let base = base_of(url, Provider::Miniflux);
            exists|i: int| #[trigger]
                url.subrange(i, i + base.len()) == base && 0 <= i && i + base.len() <= url.len()
                    && (forall|k: int| 0 <= k < i ==> text::is_white(#[trigger] url[k]))
                    && (forall|k: int|
                    i + base.len() <= k < url.len() ==> (#[trigger] url[k] == '/'
                        || text::is_white(url[k])))
        }),
        base_of(url, Provider::Miniflux).len() > 0 ==> !text::is_white(
            base_of(url, Provider::Miniflux)[0],
        ) && !is_loose(base_of(url, Provider::Miniflux).last()),
{
    let root = server_root(url);
    let bare = bare_end(root);
    let base = base_of(url, Provider::Miniflux);
    reveal_strlit("");
    assert(bare.subrange(bare.len() as int, bare.len() as int) =~= ""@);
    assert(base == bare);
    text::law_trimming_takes_white_space_alone(url);
    text::law_trim_end_drops_the_run(text::trimmed(url), '/');
    lemma_bare_end(root);
    lemma_bare_end_part(root);
    let core = text::trimmed(url);
    let (i, j) = choose|i: int, j: int| #[trigger]
        url.subrange(i, j) == core && 0 <= i <= j <= url.len() && (forall|k: int|
            0 <= k < i || j <= k < url.len() ==> text::is_white(#[trigger] url[k]));
    assert forall|k: int| i + base.len() <= k < url.len() implies (#[trigger] url[k] == '/'
        || text::is_white(url[k])) by {
        if k < j {
            assert(url[k] == core[k - i]);
            if k - i < root.len() {
                assert(core.take(root.len() as int)[k - i] == core[k - i]);
                assert(is_loose(root[k - i]));
            }
        }
    }
    assert(url.subrange(i, i + base.len()) =~= base) by {
        assert forall|k: int| 0 <= k < base.len() implies url[i + k] == base[k] by {
            assert(root.take(base.len() as int)[k] == base[k]);
            assert(core.take(root.len() as int)[k] == root[k]);
            assert(core[k] == url[i + k]);
        }
    }
}

proof fn lemma_bare_end_part(s: Seq<char>)
    ensures
        bare_end(s).len() <= s.len(),
        s.take(bare_end(s).len() as int) == bare_end(s),
        forall|k: int| bare_end(s).len() <= k < s.len() ==> is_loose(#[trigger] s[k]),
    decreases s.len(),
{
    if s.len() > 0 && is_loose(s.last()) {
        lemma_bare_end_part(s.drop_last());
        let n = bare_end(s).len() as int;
        assert(s.take(n) =~= s.drop_last().take(n));
        assert forall|k: int| n <= k < s.len() implies is_loose(#[trigger] s[k]) by {
            if k < s.len() - 1 {
                assert(s.drop_last()[k] == s[k]);
            }
        }
    } else {
        assert(s.take(s.len() as int) =~= s);
    }
}

/// To a FreshRSS server URL that neither ends in the path of the API nor
/// holds it followed by a slash the path is added, after what the slashes at
/// its end leave.
pub proof fn law_freshrss_path_is_added(root: Seq<char>, slashes: Seq<char>)
    requires
        root.len() > 0,
        !text::is_white(root[0]),
        root.last() != '/',
        slashes.len() > 0 || !text::is_white(root.last()),
        forall|k: int| 0 <= k < slashes.len() ==> #[trigger] slashes[k] == '/',
        !text::ends(bare_end(root), "/api/greader.php"@),
        !text::occurs(bare_end(root), "/api/greader.php/"@),
    ensures
        base_of(root + slashes, Provider::FreshRss) == root + "/api/greader.php"@,
{
    let url = root + slashes;
    reveal_strlit("/api/greader.php/");
    reveal_strlit("/api/greader.php");
    reveal_strlit("/");
    assert("/api/greader.php"@ + "/"@ =~= "/api/greader.php/"@);
    if slashes.len() > 0 {
        assert(url.last() == slashes[slashes.len() - 1]);
    } else {
        assert(url =~= root);
    }
    text::lemma_trimmed_fixed(url);
    lemma_trim_run(root, slashes);
}

proof fn lemma_trim_run(root: Seq<char>, slashes: Seq<char>)
    requires
        root.len() > 0,
        root.last() != '/',
        forall|k: int| 0 <= k < slashes.len() ==> #[trigger] slashes[k] == '/',
    ensures
        text::trim_end_char(root + slashes, '/') == root,
    decreases slashes.len(),
{
    if slashes.len() == 0 {
        assert(root + slashes =~= root);
    } else {
        assert(slashes[slashes.len() - 1] == '/');
        assert((root + slashes).drop_last() =~= root + slashes.drop_last());
        assert forall|k: int| 0 <= k < slashes.drop_last().len() implies #[trigger] slashes.drop_last()[k]
            == '/' by {
            assert(slashes.drop_last()[k] == slashes[k]);
        }
        lemma_trim_run(root, slashes.drop_last());
    }
}

/// Miniflux takes an item by the id that it gave it, and FreshRSS by the
/// number that the id ends in, in decimal; an id without a number goes as it
/// is.
pub proof fn law_items_are_named_as_the_server_knows_them(remote_id: Seq<char>)
    ensures
        wire_item_id(Provider::Miniflux, remote_id) == remote_id,
        freshrss::item_number(remote_id) matches Some(n) ==> number::decimal_value(
            wire_item_id(Provider::FreshRss, remote_id),
        ) == Some(n as nat) && (n > 0 ==> wire_item_id(Provider::FreshRss, remote_id)[0] != '0'),
        freshrss::item_number(remote_id) is None ==> wire_item_id(Provider::FreshRss, remote_id)
            == remote_id,
{
    if freshrss::item_number(remote_id) is Some {
        number::law_decimal_reads_back(freshrss::item_number(remote_id)->0 as nat);
    }
}

/// FreshRSS takes five items at a time for marking as read; every other
/// request takes a hundred.
pub proof fn law_batches_are_five_or_a_hundred(provider: Provider, field: Seq<char>, value: bool)
    ensures
        provider == Provider::FreshRss && field == "read"@ && value ==> batch_limit(
            provider,
            field,
            value,
        ) == 5,
        provider == Provider::Miniflux || field != "read"@ || !value ==> batch_limit(
            provider,
            field,
            value,
        ) == 100,
{
}

/// The API root of Miniflux is the server URL without white space in front
/// and without anything loose behind.
pub proof fn lemma_miniflux_base(url: Seq<char>)
    ensures
        base_of(url, Provider::Miniflux) == bare_end(text::trimmed(url)),
{
    let bare = bare_end(server_root(url));
    reveal_strlit("");
    assert(bare.subrange(bare.len() as int, bare.len() as int) =~= ""@);
    lemma_trim_slashes(text::trimmed(url));
}

/// A FreshRSS server URL that holds the path of the API followed by more of a
/// path is kept as it is, but for what is loose at its end.
pub proof fn law_path_inside_is_kept(head: Seq<char>, more: Seq<char>, tail: Seq<char>)
    requires
        more.len() > 0,
        !is_loose(more.last()),
        forall|i: int| 0 <= i < tail.len() ==> is_loose(#[trigger] tail[i]),
    ensures
        base_of(head + "/api/greader.php/"@ + more + tail, Provider::FreshRss) == text::trim_start(
            head,
        ) + "/api/greader.php/"@ + more,
{
    let path = "/api/greader.php/"@;
    let url = head + path + more + tail;
    let start = text::trim_start(head);
    let kept = start + path + more;
    reveal_strlit("/api/greader.php/");
    reveal_strlit("/api/greader.php");
    reveal_strlit("/");
    assert(url =~= head + (path + more + tail));
    text::lemma_trim_start_joined(head, path + more + tail);
    assert(text::trim_start(url) =~= kept + tail);
    lemma_bare_end(text::trim_start(url));
    lemma_trim_slashes(text::trimmed(url));
    lemma_loose_tail(kept, tail);
    assert(kept.last() == more.last());
    assert(bare_end(server_root(url)) == kept);
    let n = start.len() as int;
    assert("/api/greader.php"@ + "/"@ =~= path);
    assert(kept.subrange(n, n + path.len()) =~= path);
    assert(text::occurs_at(kept, path, n));
}

} // verus!
