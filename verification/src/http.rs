//! Requests to the server and the status codes of its answers.

use vstd::prelude::*;
use vstd::string::*;
use vstd::utf8::*;
use crate::number;
use crate::outside;
use crate::provider::{READING_LIST, READ_TAG};
use crate::text;

verus! {

/// How many items one page of a stream holds.
pub const STREAM_BATCH_SIZE: usize = 1000;

/// An HTTP status code.
#[derive(Clone, Copy, Debug, PartialEq, Eq, Structural)]
pub struct Status {
    code: u16,
}

impl Status {
    /// The code, from 100 to 999.
    pub closed spec fn value(self) -> u16 {
        self.code
    }

    #[verifier::type_invariant]
    spec fn three_digits(self) -> bool {
        100 <= self.code <= 999
    }

    /// The status with the given code, where it has three digits.
    pub fn from_u16(code: u16) -> (r: Option<Status>)
        ensures
            r is Some <==> 100 <= code <= 999,
            r matches Some(status) ==> status.value() == code,
    {
        if 100 <= code && code <= 999 {
            Some(Status { code })
        } else {
            None
        }
    }

    /// The code.
    pub fn as_u16(self) -> (r: u16)
        ensures
            r == self.value(),
    {
        self.code
    }

    /// The status as it is shown in messages.
    pub fn describe(self) -> (r: String)
        ensures
            r@ == outside::status_line(self.value()),
    {
        proof {
            use_type_invariant(&self);
        }
        outside::display_status(self.code)
    }
}

/// Whether a code is a success.
pub open spec fn success(code: u16) -> bool {
    200 <= code < 300
}

/// Whether a code says that the request was at fault.
pub open spec fn client_error(code: u16) -> bool {
    400 <= code < 500
}

/// Whether a code says that the server was at fault.
pub open spec fn server_error(code: u16) -> bool {
    500 <= code < 600
}

/// Whether a status is a success.
pub fn is_success(status: Status) -> (r: bool)
    ensures
        r == success(status.value()),
{
    let code: u16 = status.as_u16();
    200 <= code && code < 300
}

/// Whether a status says that the request was at fault.
pub fn is_client_error(status: Status) -> (r: bool)
    ensures
        r == client_error(status.value()),
{
    let code: u16 = status.as_u16();
    400 <= code && code < 500
}

/// Whether a status says that the server was at fault.
pub fn is_server_error(status: Status) -> (r: bool)
    ensures
        r == server_error(status.value()),
{
    let code: u16 = status.as_u16();
    500 <= code && code < 600
}

/// A message about an answer: what was tried, the status as it is shown, and
/// the body.
pub open spec fn message_of(
    what: Seq<char>,
    line: Seq<char>,
    link: Seq<char>,
    body: Seq<char>,
) -> Seq<char> {
    what + line + link + body
}

/// A message about an answer with the given status line.
pub fn status_message(what: &str, line: &str, link: &str, body: &str) -> (r: String)
    ensures
        r@ == message_of(what@, line@, link@, body@),
{
    let mut r: String = text::join(what, line);
    r.append(link);
    r.append(body);
    r
}

#[derive(Clone, Copy, Debug, PartialEq, Eq, Structural)]
pub enum Method {
    Get,
    Post,
}

/// A request: its URL, its `Authorization` header and the fields of its form.
#[derive(Debug)]
pub struct Request {
    pub method: Method,
    pub url: String,
    pub authorization: Option<String>,
    pub form: Vec<(String, String)>,
}

/// What a request says.
pub struct RequestView {
    pub method: Method,
    pub url: Seq<char>,
    pub authorization: Option<Seq<char>>,
    pub form: Seq<(Seq<char>, Seq<char>)>,
}

impl View for Request {
    type V = RequestView;

    open spec fn view(&self) -> RequestView {
        RequestView {
            method: self.method,
            url: self.url@,
            authorization: self.authorization.deep_view(),
            form: self.form.deep_view(),
        }
    }
}

/// A field of a form.
pub fn field(name: &str, value: &str) -> (r: (String, String))
    ensures
        r.deep_view() == (name@, value@),
{
    (name.to_owned(), value.to_owned())
}

/// The path of a page of the reading list below the API.
pub open spec fn contents_path(continuation: Option<Seq<char>>, unread_only: bool) -> Seq<char> {
    let page = "stream/contents/"@ + READING_LIST@ + "?output=json&n="@ + number::decimal(
        STREAM_BATCH_SIZE as nat,
    );
    let filtered = if unread_only {
        page + "&xt="@ + READ_TAG@
    } else {
        page
    };
    match continuation {
        Some(c) if c.len() > 0 => filtered + "&c="@ + outside::form_encoded(encode_utf8(c)),
        _ => filtered,
    }
}

/// The path of a page of the reading list below the API: the page that
/// `continuation` leads to, without the items that were read where only
/// unread ones are asked for.
pub fn reading_list_contents_path(continuation: Option<&str>, unread_only: bool) -> (r: String)
    ensures
        r@ == contents_path(continuation.deep_view(), unread_only),
{
    let mut path: String = text::join("stream/contents/", READING_LIST);
    path.append("?output=json&n=");
    path.append(number::to_decimal(STREAM_BATCH_SIZE as u64).as_str());
    if unread_only {
        path.append("&xt=");
        path.append(READ_TAG);
    }
    match continuation {
        Some(c) => {
            if !c.is_empty() {
                path.append("&c=");
                path.append(outside::byte_serialize(c.as_bytes()).as_str());
            }
        },
        None => {},
    }
    path
}

/// An empty continuation asks for the same page as none.
pub proof fn law_empty_continuation_is_none(unread_only: bool)
    ensures
        contents_path(Some(Seq::empty()), unread_only) == contents_path(None, unread_only),
{
}

/// Different continuations ask for different pages.
pub proof fn law_continuations_are_told_apart(a: Seq<char>, b: Seq<char>, unread_only: bool)
    requires
        a.len() > 0,
        b.len() > 0,
        contents_path(Some(a), unread_only) == contents_path(Some(b), unread_only),
    ensures
        a == b,
{
    let head = contents_path(None, unread_only) + "&c="@;
    let x = outside::form_encoded(encode_utf8(a));
    let y = outside::form_encoded(encode_utf8(b));
    assert((head + x).skip(head.len() as int) =~= x);
    assert((head + y).skip(head.len() as int) =~= y);
    outside::law_form_encoding_is_injective(encode_utf8(a), encode_utf8(b));
    encode_utf8_decode_utf8(a);
    encode_utf8_decode_utf8(b);
}

/// The first digit of a code says whether it is a success, an error of the
/// client or one of the server.
pub proof fn law_first_digit_is_the_class(code: u16)
    ensures
        success(code) <==> code / 100 == 2,
        client_error(code) <==> code / 100 == 4,
        server_error(code) <==> code / 100 == 5,
{
}

/// A page of the reading list holds a thousand items. The unread stream
/// leaves out what carries the read tag, and a continuation adds itself,
/// encoded, to the path of the first page.
pub proof fn law_pages_of_the_reading_list(continuation: Seq<char>, unread_only: bool)
    ensures
        contents_path(None, false)
            == "stream/contents/user/-/state/com.google/reading-list?output=json&n=1000"@,
        contents_path(None, true) == contents_path(None, false)
            + "&xt=user/-/state/com.google/read"@,
        continuation.len() > 0 ==> contents_path(Some(continuation), unread_only)
            == contents_path(None, unread_only) + "&c="@ + outside::form_encoded(
            encode_utf8(continuation),
        ),
{
    reveal_strlit("stream/contents/");
    reveal_strlit("user/-/state/com.google/reading-list");
    reveal_strlit("?output=json&n=");
    reveal_strlit("stream/contents/user/-/state/com.google/reading-list?output=json&n=1000");
    reveal_strlit("&xt=");
    reveal_strlit("user/-/state/com.google/read");
    reveal_strlit("&xt=user/-/state/com.google/read");
    reveal_with_fuel(number::decimal, 4);
    assert(number::decimal(1000) =~= seq!['1', '0', '0', '0']);
    assert(contents_path(None, false)
        =~= "stream/contents/user/-/state/com.google/reading-list?output=json&n=1000"@);
    assert("&xt="@ + "user/-/state/com.google/read"@ =~= "&xt=user/-/state/com.google/read"@);
    assert(contents_path(None, true) =~= contents_path(None, false)
        + "&xt=user/-/state/com.google/read"@);
}

/// A message begins with what was tried, ends with the body, and holds the
/// status as it is shown in front of the link to the body.
pub proof fn law_messages_hold_their_parts(
    what: Seq<char>,
    line: Seq<char>,
    link: Seq<char>,
    body: Seq<char>,
)
    ensures
        ({
            let message = message_of(what, line, link, body);
            let n = what.len() as int;
            let m = n + line.len();
            &&& message.len() == m + link.len() + body.len()
            &&& message.take(n) == what
            &&& message.subrange(n, m) == line
            &&& message.subrange(m, m + link.len()) == link
            &&& message.skip(m + link.len()) == body
        }),
{
    let message = message_of(what, line, link, body);
    let n = what.len() as int;
    let m = n + line.len();
    assert(message.take(n) =~= what);
    assert(message.subrange(n, m) =~= line);
    assert(message.subrange(m, m + link.len()) =~= link);
    assert(message.skip(m + link.len()) =~= body);
}

} // verus!
