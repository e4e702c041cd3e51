//! A signed HTTP request, ready to be sent, and the errors of building one.
use vstd::prelude::*;
use vstd::string::StringSliceAdditionalSpecFns;

use crate::util::pair_views;

verus! {

/// HTTP method of a request.
#[derive(Debug, Clone, Copy, PartialEq, Eq, Structural)]
pub enum HttpMethod {
    Get,
    Post,
}

/// A request as the providers expect it.
#[derive(Debug)]
pub struct SignedRequest {
    pub method: HttpMethod,
    /// Scheme, host and path, without the query.
    pub url: String,
    /// Header names and values, in the order they are set.
    pub headers: Vec<(String, String)>,
    /// Query parameters, to be form-encoded after the URL.
    pub query: Vec<(String, String)>,
    pub body: String,
}

/// Why a request could not be built.
#[derive(Debug, Clone, Copy, PartialEq, Eq, Structural)]
pub enum RequestError {
    /// A header value holds a byte that HTTP does not accept there.
    InvalidHeaderValue,
    /// The timestamp lies outside the calendar range of the date library.
    TimestampOutOfRange,
    /// A rule to delete has no identifier.
    MissingRuleId,
}

/// A byte that an HTTP header value may hold: a tab, or a byte of 32 or more
/// other than 127.
pub open spec fn header_byte_ok(b: u8) -> bool {
    (b >= 32 && b != 127) || b == 9
}

/// A text that an HTTP header value may be: every byte of its UTF-8 form is
/// accepted.
pub open spec fn header_value_ok(s: Seq<char>) -> bool {
    let b = vstd::utf8::encode_utf8(s);
    forall|i: int| 0 <= i < b.len() ==> header_byte_ok(#[trigger] b[i])
}

/// Every header value is accepted.
pub open spec fn headers_ok(h: Seq<(Seq<char>, Seq<char>)>) -> bool {
    forall|i: int| 0 <= i < h.len() ==> header_value_ok((#[trigger] h[i]).1)
}

/// Relies on `http::HeaderValue::from_str`, which accepts a value exactly
/// when each of its bytes is a tab or at least 32 and not 127.
#[verifier::external_body]
fn header_value_accepted(s: &str) -> (r: bool)
    ensures
        r == header_value_ok(s@),
{
    http::HeaderValue::from_str(s).is_ok()
}

/// Whether every header value is accepted.
pub fn check_headers(headers: &Vec<(String, String)>) -> (r: bool)
    ensures
        r == headers_ok(pair_views(headers@)),
{
    let ghost h = pair_views(headers@);
    let mut i: usize = 0;
    while i < headers.len()
        invariant
            0 <= i <= headers@.len(),
            h == pair_views(headers@),
            forall|j: int| 0 <= j < i ==> header_value_ok((#[trigger] h[j]).1),
        decreases headers@.len() - i,
    {
        if !header_value_accepted(headers[i].1.as_str()) {
            assert(!header_value_ok(h[i as int].1));
            return false;
        }
        i = i + 1;
    }
    true
}

/// Appends a header.
pub fn push_header(headers: &mut Vec<(String, String)>, name: &str, value: &str)
    ensures
        pair_views(final(headers)@) == pair_views(old(headers)@).push((name@, value@)),
{
    headers.push((name.to_owned(), value.to_owned()));
    assert(pair_views(final(headers)@) =~= pair_views(old(headers)@).push((name@, value@)));
}

} // verus!
