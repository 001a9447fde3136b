//! The calls into other crates, each with what is relied on.

use vstd::prelude::*;
use crate::number;
use crate::text;

verus! {

/// Whether form encoding leaves a byte as it is: ASCII letters and digits,
/// `*`, `-`, `.` and `_`.
pub open spec fn form_keeps(b: u8) -> bool {
    ||| 0x30 <= b <= 0x39
    ||| 0x41 <= b <= 0x5a
    ||| 0x61 <= b <= 0x7a
    ||| b == 0x2a
    ||| b == 0x2d
    ||| b == 0x2e
    ||| b == 0x5f
}

/// The upper-case hexadecimal digit for `d`.
pub open spec fn hex_char(d: u8) -> char {
    if d < 10 {
        (0x30 + d) as char
    } else {
        (0x37 + d) as char
    }
}

/// One byte in form encoding: itself, `+` for a space, or a percent sign and
/// two hexadecimal digits.
pub open spec fn form_byte(b: u8) -> Seq<char> {
    if form_keeps(b) {
        seq![b as char]
    } else if b == 0x20 {
        seq!['+']
    } else {
        seq!['%', hex_char(b / 16), hex_char(b % 16)]
    }
}

/// Bytes in form encoding.
pub open spec fn form_encoded(bytes: Seq<u8>) -> Seq<char>
    decreases bytes.len(),
{
    if bytes.len() == 0 {
        Seq::empty()
    } else {
        form_encoded(bytes.drop_last()) + form_byte(bytes.last())
    }
}

/// Calls `url::form_urlencoded::byte_serialize` and collects its pieces: the
/// bytes in the encoding of form bodies and query strings.
#[verifier::external_body]
pub(crate) fn byte_serialize(input: &[u8]) -> (r: String)
    ensures
        r@ == form_encoded(input@),
{
    url::form_urlencoded::byte_serialize(input).collect()
}

/// How a status code is displayed: the number and its reason phrase.
pub uninterp spec fn status_line(code: u16) -> Seq<char>;

/// Formats a `reqwest::StatusCode` through its `Display`: the number, a space
/// and the phrase that goes with it. Which phrase goes with which number is
/// left to that crate.
#[verifier::external_body]
pub(crate) fn display_status(code: u16) -> (r: String)
    requires
        100 <= code <= 999,
    ensures
        r@ == status_line(code),
        text::begins(r@, number::decimal(code as nat) + " "@),
{
    match reqwest::StatusCode::from_u16(code) {
        Ok(status) => status.to_string(),
        Err(_) => String::new(),
    }
}

/// Whether a number of seconds since 1970 and nanoseconds is a moment of the
/// calendar: from the start of the year -262143 to the end of the year
/// 262142, with a leap second only in the last second of a minute.
pub open spec fn representable(secs: i64, nanos: u32) -> bool {
    &&& -8334601228800 <= secs <= 8210266876799
    &&& nanos < 1_000_000_000 || (nanos < 2_000_000_000 && secs as int % 60 == 59)
}

/// Calls `chrono::DateTime::<Utc>::from_timestamp`, which gives a value
/// exactly for the moments in its range.
#[verifier::external_body]
pub(crate) fn from_timestamp(secs: i64, nanos: u32) -> (r: bool)
    ensures
        r == representable(secs, nanos),
{
    chrono::DateTime::<chrono::Utc>::from_timestamp(secs, nanos).is_some()
}

/// The RFC 3339 text of a moment, in UTC.
pub uninterp spec fn rfc3339(secs: i64, nanos: u32) -> Seq<char>;

/// Calls `chrono::DateTime::<Utc>::to_rfc3339` on a moment. How the calendar
/// date is computed and written is left to that crate.
#[verifier::external_body]
pub(crate) fn to_rfc3339(secs: i64, nanos: u32) -> (r: String)
    requires
        representable(secs, nanos),
    ensures
        r@ == rfc3339(secs, nanos),
{
    match chrono::DateTime::<chrono::Utc>::from_timestamp(secs, nanos) {
        Some(moment) => moment.to_rfc3339(),
        None => String::new(),
    }
}

/// Form encoding yields nothing that has a meaning in a query string: only
/// letters, digits, `*`, `-`, `.`, `_`, `+` and `%`.
pub proof fn law_form_encoding_is_inert(bytes: Seq<u8>, i: int)
    requires
        0 <= i < form_encoded(bytes).len(),
    ensures
        ({
            let c = form_encoded(bytes)[i];
            c == '+' || c == '%' || (c as u32 <= 0xff && form_keeps(c as u8))
        }),
    decreases bytes.len(),
{
    let head = form_encoded(bytes.drop_last());
    if i < head.len() {
        law_form_encoding_is_inert(bytes.drop_last(), i);
    }
}

proof fn lemma_form_encoded_front(bytes: Seq<u8>)
    requires
        bytes.len() > 0,
    ensures
        form_encoded(bytes) == form_byte(bytes[0]) + form_encoded(bytes.skip(1)),
    decreases bytes.len(),
{
    if bytes.len() == 1 {
        assert(bytes.drop_last() =~= Seq::empty());
        assert(bytes.skip(1) =~= Seq::empty());
        assert(form_encoded(bytes) =~= form_byte(bytes[0]) + form_encoded(bytes.skip(1)));
    } else {
        lemma_form_encoded_front(bytes.drop_last());
        assert(bytes.drop_last().skip(1) =~= bytes.skip(1).drop_last());
        assert(form_encoded(bytes) =~= form_byte(bytes[0]) + form_encoded(bytes.skip(1)));
    }
}

/// Two bytes whose encodings begin alike are the same, and so are the rests.
proof fn lemma_form_byte_splits(a: u8, x: Seq<char>, b: u8, y: Seq<char>)
    requires
        form_byte(a) + x == form_byte(b) + y,
    ensures
        a == b,
        x == y,
{
    let s = form_byte(a) + x;
    let t = form_byte(b) + y;
    assert(s[0] == form_byte(a)[0] && t[0] == form_byte(b)[0]);
    if form_byte(a).len() == 3 && form_byte(b).len() == 3 {
        assert(s[1] == form_byte(a)[1] && t[1] == form_byte(b)[1]);
        assert(s[2] == form_byte(a)[2] && t[2] == form_byte(b)[2]);
    }
    assert(form_byte(a).len() == form_byte(b).len());
    assert(x =~= s.skip(form_byte(a).len() as int));
    assert(y =~= t.skip(form_byte(b).len() as int));
}

/// Different bytes have different form encodings.
pub proof fn law_form_encoding_is_injective(a: Seq<u8>, b: Seq<u8>)
    requires
        form_encoded(a) == form_encoded(b),
    ensures
        a == b,
    decreases a.len(),
{
    if a.len() > 0 {
        lemma_form_encoded_front(a);
        assert((form_byte(a[0]) + form_encoded(a.skip(1))).len() > 0);
    }
    if b.len() > 0 {
        lemma_form_encoded_front(b);
        assert((form_byte(b[0]) + form_encoded(b.skip(1))).len() > 0);
    }
    if a.len() > 0 && b.len() > 0 {
        lemma_form_byte_splits(
            a[0],
            form_encoded(a.skip(1)),
            b[0],
            form_encoded(b.skip(1)),
        );
        law_form_encoding_is_injective(a.skip(1), b.skip(1));
        assert(a =~= seq![a[0]] + a.skip(1));
        assert(b =~= seq![b[0]] + b.skip(1));
    } else {
        assert(a =~= b);
    }
}

} // verus!
