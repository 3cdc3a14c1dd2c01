//! What requests tell in their header fields.

use http::HeaderMap;
use vstd::prelude::*;

use crate::fields::{field_text, header_values, Fields};
use crate::text::{parse_unsigned, same, strip_prefix};
use crate::utils::headers::{check_header, parse_header};

verus! {

/// The number that a field tells.
pub open spec fn size_in(fields: Fields, name: Seq<char>) -> Option<usize> {
    match field_text(fields, name) {
        Some(text) => match parse_unsigned(text, usize::MAX as nat) {
            Some(n) => Some(n as usize),
            None => None,
        },
        None => None,
    }
}

/// The length that a request tells in its `Upload-Length` field.
pub open spec fn length_in(fields: Fields) -> Option<usize> {
    size_in(fields, "Upload-Length"@)
}

/// The offset that a request tells in its `Upload-Offset` field.
pub open spec fn offset_in(fields: Fields) -> Option<usize> {
    size_in(fields, "Upload-Offset"@)
}

/// The request will tell the length later.
pub open spec fn defers_length(fields: Fields) -> bool {
    field_text(fields, "Upload-Defer-Length"@) == Some("1"@)
}

/// The request asks for an upload that is made of others.
pub open spec fn asks_final(fields: Fields) -> bool {
    field_text(fields, "Upload-Concat"@) matches Some(text) && "final;"@.is_prefix_of(text)
}

/// The request asks for an upload that will become a part of another.
pub open spec fn asks_partial(fields: Fields) -> bool {
    field_text(fields, "Upload-Concat"@) == Some("partial"@)
}

/// The body of the request is a run of upload bytes.
pub open spec fn sends_bytes(fields: Fields) -> bool {
    field_text(fields, "Content-Type"@) == Some("application/offset+octet-stream"@)
}

/// Whether a field has a text.
pub fn header_is(headers: &HeaderMap, name: &str, wanted: &str) -> (r: bool)
    ensures
        r == (field_text(header_values(*headers), name@) == Some(wanted@)),
{
    let is_wanted = |value: &str| -> (b: bool)
        ensures
            b == (value@ == wanted@),
        {
            same(value, wanted)
        };
    check_header(headers, name, is_wanted)
}

/// Whether the request asks for an upload that is made of others.
pub fn header_asks_final(headers: &HeaderMap) -> (r: bool)
    ensures
        r == asks_final(header_values(*headers)),
{
    let is_final = |value: &str| -> (b: bool)
        ensures
            b == "final;"@.is_prefix_of(value@),
        {
            strip_prefix(value, "final;").is_some()
        };
    check_header(headers, "Upload-Concat", is_final)
}

/// The number that a field tells.
pub fn header_size(headers: &HeaderMap, name: &str) -> (r: Option<usize>)
    ensures
        r == size_in(header_values(*headers), name@),
{
    parse_header::<usize>(headers, name)
}

/// Whether the body of the request is a run of upload bytes.
pub fn header_sends_bytes(headers: &HeaderMap) -> (r: bool)
    ensures
        r == sends_bytes(header_values(*headers)),
{
    header_is(headers, "Content-Type", "application/offset+octet-stream")
}

} // verus!
