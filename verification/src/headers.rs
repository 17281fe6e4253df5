//! Request headers, read with `axum`'s header types.

use axum::http::{HeaderMap, HeaderValue};
use vstd::prelude::*;

verus! {

/// `axum::http::HeaderMap`: the headers of a request.
#[verifier::external_type_specification]
#[verifier::external_body]
#[verifier::reject_recursive_types(T)]
pub struct ExHeaderMap<T>(axum::http::HeaderMap<T>);

/// `axum::http::HeaderValue`: the value of one header.
#[verifier::external_type_specification]
#[verifier::external_body]
pub struct ExHeaderValue(axum::http::HeaderValue);

/// `axum::http::header::ToStrError`: a header value is not plain text.
#[verifier::external_type_specification]
#[verifier::external_body]
pub struct ExToStrError(axum::http::header::ToStrError);

/// The headers that a map holds: each name, in every spelling under which it is
/// found, with the bytes of its first value.
pub uninterp spec fn header_values(headers: HeaderMap<HeaderValue>) -> Map<Seq<char>, Seq<u8>>;

/// The bytes of a header value.
pub uninterp spec fn value_bytes(value: HeaderValue) -> Seq<u8>;

/// Calls `HeaderMap::get` with a string: the first value of the header of that
/// name.
#[verifier::external_body]
fn header_value<'a>(headers: &'a HeaderMap, name: &str) -> (value: Option<&'a HeaderValue>)
    ensures
        match value {
            Some(v) => header_values(*headers).contains_key(name@) && header_values(*headers)[name@]
                == value_bytes(*v),
            None => !header_values(*headers).contains_key(name@),
        },
{
    headers.get(name)
}

/// Whether a byte is a visible ASCII character, a space or a tab.
pub open spec fn is_plain_byte(b: u8) -> bool {
    32 <= b < 127 || b == 9
}

/// Whether bytes are plain text throughout.
pub open spec fn is_plain(bytes: Seq<u8>) -> bool {
    forall|i: int| 0 <= i < bytes.len() ==> is_plain_byte(#[trigger] bytes[i])
}

/// ASCII bytes as characters, one for one.
pub open spec fn plain_text(bytes: Seq<u8>) -> Seq<char> {
    Seq::new(bytes.len(), |i: int| bytes[i] as char)
}

/// `HeaderValue::to_str`: the text of a value whose bytes are all visible
/// ASCII, space or tab, and an error of any other.
pub assume_specification[ axum::http::HeaderValue::to_str ](value: &HeaderValue) -> (text: Result<
    &str,
    axum::http::header::ToStrError,
>)
    ensures
        match text {
            Ok(t) => is_plain(value_bytes(*value)) && t@ == plain_text(value_bytes(*value)),
            Err(_) => !is_plain(value_bytes(*value)),
        },
;

/// The text of a header, empty where the header is missing or not plain text.
pub open spec fn header_text(values: Map<Seq<char>, Seq<u8>>, name: Seq<char>) -> Seq<char> {
    if values.contains_key(name) && is_plain(values[name]) {
        plain_text(values[name])
    } else {
        Seq::empty()
    }
}

/// The text of the header `name`, empty where it is missing or not plain text.
pub fn header_str(headers: &HeaderMap, name: &str) -> (s: String)
    ensures
        s@ == header_text(header_values(*headers), name@),
{
    match header_value(headers, name) {
        Some(value) => match value.to_str() {
            Ok(text) => text.to_owned(),
            Err(_) => String::new(),
        },
        None => String::new(),
    }
}

} // verus!
