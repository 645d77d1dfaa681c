//! HTTP responses as the engine sees them, and what it reads from their headers.
use vstd::prelude::*;
use vstd::string::*;
use vstd::utf8::{decode_utf8, valid_utf8};

use crate::text::{eq_ignore_ascii_case, eq_ignoring_ascii_case, same_text};

verus! {

/// A completed HTTP exchange: the status code, the headers in the order received
/// (a name may repeat), and the body once any of it has been read.
#[derive(Debug, Clone, PartialEq, Eq)]
pub struct Response {
    pub status: u16,
    pub headers: Vec<(String, String)>,
    pub body: Option<Vec<u8>>,
}

/// The status code of a successful exchange.
pub const STATUS_OK: u16 = 200;

/// The value of the first header at or after `i` whose name matches `name` in any
/// ASCII case.
pub open spec fn header_value_from(
    headers: Seq<(Seq<char>, Seq<char>)>,
    name: Seq<char>,
    i: int,
) -> Option<Seq<char>>
    decreases headers.len() - i,
{
    if i < 0 || i >= headers.len() {
        None
    } else if eq_ignoring_ascii_case(headers[i].0, name) {
        Some(headers[i].1)
    } else {
        header_value_from(headers, name, i + 1)
    }
}

/// The value of the first header whose name matches `name` in any ASCII case.
pub open spec fn header_value(headers: Seq<(Seq<char>, Seq<char>)>, name: Seq<char>) -> Option<
    Seq<char>,
> {
    header_value_from(headers, name, 0)
}

/// What the `mime` crate reads from a media type: its top level and sub level.
pub uninterp spec fn media_type_of(value: Seq<char>) -> Option<(Seq<char>, Seq<char>)>;

/// The index of the first ';' at or after `i`, or the length of `v`.
pub open spec fn semicolon_from(v: Seq<char>, i: int) -> int
    decreases v.len() - i,
{
    if i < 0 || i >= v.len() {
        v.len() as int
    } else if v[i] == ';' {
        i
    } else {
        semicolon_from(v, i + 1)
    }
}

/// The media type part of a `Content-Type` value: what comes before its parameters.
pub open spec fn media_part_of(v: Seq<char>) -> Seq<char> {
    v.subrange(0, semicolon_from(v, 0))
}

/// Relies on `FromStr for mime::Mime`: parses a media type such as `text/html` and
/// gives its top level and sub level as text (`TopLevel::as_str`, `SubLevel::as_str`).
/// Without a ';' the parser reads no parameters, and it reads type and subtype only
/// while their characters are ASCII, so it does not panic.
#[verifier::external_body]
fn media_type(value: &str) -> (r: Option<(String, String)>)
    requires
        forall|i: int| 0 <= i < value@.len() ==> value@[i] != ';',
    ensures
        r.deep_view() == media_type_of(value@),
{
    match value.parse::<mime::Mime>() {
        Ok(mime::Mime(top, sub, _)) => Some((top.as_str().to_string(), sub.as_str().to_string())),
        Err(_) => None,
    }
}

/// Relies on `std::str::from_utf8`: the text that the bytes encode, where they are
/// valid UTF-8.
#[verifier::external_body]
fn utf8_text(bytes: &[u8]) -> (r: Option<&str>)
    ensures
        r.is_some() == valid_utf8(bytes@),
        r.is_some() ==> r.unwrap()@ == decode_utf8(bytes@),
{
    std::str::from_utf8(bytes).ok()
}

/// Whether headers declare an HTML body: the first `Content-Type` header names the
/// media type `text/html`, whatever its parameters.
pub open spec fn declares_html(headers: Seq<(Seq<char>, Seq<char>)>) -> bool {
    match header_value(headers, "content-type"@) {
        Some(v) => media_type_of(media_part_of(v)) == Some(("text"@, "html"@)),
        None => false,
    }
}

/// The text of a body, where it is valid UTF-8.
pub open spec fn body_text(body: Seq<u8>) -> Option<Seq<char>> {
    if valid_utf8(body) {
        Some(decode_utf8(body))
    } else {
        None
    }
}

/// The value of the first header of `headers` named `name`, in any ASCII case.
pub fn find_header<'a>(headers: &'a Vec<(String, String)>, name: &str) -> (r: Option<&'a str>)
    ensures
        r.is_some() == header_value(headers.deep_view(), name@).is_some(),
        r.is_some() ==> r.unwrap()@ == header_value(headers.deep_view(), name@).unwrap(),
{
    let ghost hs = headers.deep_view();
    let mut i: usize = 0;
    while i < headers.len()
        invariant
            i <= headers@.len(),
            hs == headers.deep_view(),
            header_value(hs, name@) == header_value_from(hs, name@, i as int),
        decreases headers@.len() - i,
    {
        let pair = &headers[i];
        assert(hs[i as int] == (pair.0@, pair.1@));
        if eq_ignore_ascii_case(pair.0.as_str(), name) {
            return Some(pair.1.as_str());
        }
        i = i + 1;
    }
    None
}

/// The media type part of a `Content-Type` value: what comes before its parameters.
pub fn media_part(value: &str) -> (r: &str)
    ensures
        r@ == media_part_of(value@),
        forall|i: int| 0 <= i < r@.len() ==> r@[i] != ';',
{
    let n = value.unicode_len();
    let mut i: usize = 0;
    while i < n && value.get_char(i) != ';'
        invariant
            n == value@.len(),
            i <= n,
            forall|j: int| 0 <= j < i ==> value@[j] != ';',
            semicolon_from(value@, 0) == semicolon_from(value@, i as int),
        decreases n - i,
    {
        i = i + 1;
    }
    assert(semicolon_from(value@, i as int) == i);
    value.substring_char(0, i)
}

/// Whether headers declare an HTML body.
pub fn is_html(headers: &Vec<(String, String)>) -> (r: bool)
    ensures
        r == declares_html(headers.deep_view()),
{
    match find_header(headers, "content-type") {
        Some(value) => match media_type(media_part(value)) {
            Some((top, sub)) => {
                let text = same_text(top.as_str(), "text");
                let html = same_text(sub.as_str(), "html");
                text && html
            },
            None => false,
        },
        None => false,
    }
}

/// The text of a body, where it is valid UTF-8.
pub fn decode_body(body: &Vec<u8>) -> (r: Option<&str>)
    ensures
        r.is_some() == body_text(body@).is_some(),
        r.is_some() ==> r.unwrap()@ == body_text(body@).unwrap(),
{
    utf8_text(body.as_slice())
}

impl Response {
    /// The value of the first header named `name`, in any ASCII case.
    pub fn header(&self, name: &str) -> (r: Option<&str>)
        ensures
            r.is_some() == header_value(self.headers.deep_view(), name@).is_some(),
            r.is_some() ==> r.unwrap()@ == header_value(self.headers.deep_view(), name@).unwrap(),
    {
        find_header(&self.headers, name)
    }
}

} // verus!
