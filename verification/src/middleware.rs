//! What happens around the handlers of the server.

use http::HeaderMap;
use vstd::prelude::*;
use vstd::utf8::{decode_utf8, valid_utf8};

use crate::codec::utf8_text;
use crate::fields::{
    append_header, field_text, header_text, header_values, is_field_value, is_token, no_fields,
    no_headers, parse_method, valid_value, with_more, Fields,
};
use crate::protocol::exchange::{Reply, ReplyModel};
use crate::text::{decimal, decimal_text};

verus! {

broadcast use vstd::string::group_string_axioms;

/// The method of a request: that of the `X-HTTP-Method-Override` field where it tells one.
pub open spec fn overridden(method: Seq<char>, fields: Fields) -> Seq<char> {
    match field_text(fields, "X-HTTP-Method-Override"@) {
        Some(name) => if is_token(name) {
            name
        } else {
            method
        },
        None => method,
    }
}

/// Middleware that overrides method of a request if
/// "X-HTTP-Method-Override" header is provided.
pub fn method_override(method: String, headers: &HeaderMap) -> (r: String)
    ensures
        r@ == overridden(method@, header_values(*headers)),
{
    if let Some(name) = header_text(headers, "X-HTTP-Method-Override") {
        if let Some(other) = parse_method(name.as_str()) {
            return other;
        }
    }
    method
}

/// A status that tells of an error of the client or of the server.
pub open spec fn is_error(status: u16) -> bool {
    400 <= status < 600
}

/// Middleware that registers found errors.
///
/// The labels under which a reply counts as an error, which are its path and its status; nothing
/// where it is none.
pub fn error_metrics(path: &str, status: u16) -> (labels: Option<(String, String)>)
    ensures
        match labels {
            Some((p, s)) => is_error(status) && p@ == path@ && s@ == decimal(status as nat),
            None => !is_error(status),
        },
{
    if status >= 400 && status < 600 {
        Some((path.to_owned(), decimal_text(status as u64)))
    } else {
        None
    }
}

/// The text of encoded metrics; an empty one where they are not UTF-8.
pub open spec fn metrics_text(buffer: Seq<u8>) -> Seq<char> {
    if valid_utf8(buffer) {
        decode_utf8(buffer)
    } else {
        seq![]
    }
}

/// The reply with encoded metrics; an empty one where a field cannot hold their format.
pub open spec fn metrics_reply(buffer: Seq<u8>, format_type: Seq<char>) -> ReplyModel {
    if is_field_value(format_type) {
        ReplyModel {
            status: 200,
            fields: with_more(no_fields(), "Content-Type"@, format_type),
            body: Some(metrics_text(buffer)),
        }
    } else {
        ReplyModel { status: 200, fields: no_fields(), body: Some(seq![]) }
    }
}

/// Handler that exposes metrics.
///
/// It takes the encoded metrics and the name of their format.
pub fn metrics_handler(buffer: Vec<u8>, format_type: &str) -> (r: Reply)
    ensures
        r@ == metrics_reply(buffer@, format_type@),
{
    let body = match utf8_text(buffer) {
        Some(body) => body,
        None => String::new(),
    };
    let mut headers = no_headers();
    if !valid_value(format_type) {
        return Reply { status: 200, headers, body: Some(String::new()) };
    }
    proof {
        reveal_strlit("Content-Type");
    }
    append_header(&mut headers, "Content-Type", format_type);
    Reply { status: 200, headers, body: Some(body) }
}

} // verus!
