//! Reading and making header fields.

use http::HeaderMap;
use vstd::prelude::*;

use crate::codec::{guess_media, is_portable, media_of};
use crate::fields::{field_text, header_text, header_values, is_field_value, lower, valid_value, Fields};
use crate::file_info::text_option;
use crate::text::{
    chars_of, same, split, split_text, strip_prefix, trim_back, trim_end_char, trim_front,
    trim_start_char, trim_text, trimmed, FromText,
};

verus! {

broadcast use vstd::string::group_string_axioms;

/// Parse header's value.
///
/// The value of the first field of that name, read as a `T`. Nothing where the field is not
/// present, where its value is not text, or where no `T` can be read from it.
pub fn parse_header<T: FromText>(headers: &HeaderMap, header_name: &str) -> (r: Option<T>)
    ensures
        match field_text(header_values(*headers), header_name@) {
            Some(text) => T::reads_as(text, r),
            None => r is None,
        },
{
    match header_text(headers, header_name) {
        Some(text) => T::from_text(text.as_str()),
        None => None,
    }
}

/// Check that header value satisfies some predicate.
///
/// Passes the value to `expr` if the header is present and is text; otherwise the check fails.
pub fn check_header<F: Fn(&str) -> bool>(headers: &HeaderMap, header_name: &str, expr: F) -> (r: bool)
    requires
        forall|text: &str| #[trigger] expr.requires((text,)),
    ensures
        match field_text(header_values(*headers), header_name@) {
            Some(text) => exists|value: &str| value@ == text && #[trigger] expr.ensures((value,), r),
            None => !r,
        },
{
    match header_text(headers, header_name) {
        Some(text) => {
            let value: &str = text.as_str();
            let r = expr(value);
            assert(value@ == text@ && expr.ensures((value,), r));
            r
        },
        None => false,
    }
}

/// The address in an element of a `Forwarded` field, where it tells one.
pub open spec fn forwarded_element(element: Seq<char>) -> Option<Seq<char>> {
    let part = trimmed(element);
    if "for="@.is_prefix_of(part) {
        let rest = part.skip("for="@.len() as int);
        let quotes = |c: char| c == '"';
        let cleaned = trim_front(trim_back(trim_front(rest, quotes), quotes), |c: char| c == '[');
        if cleaned.len() > 0 {
            Some(cleaned)
        } else {
            None
        }
    } else {
        None
    }
}

/// The address in the first element of a `Forwarded` field that tells one.
pub open spec fn forwarded_address(elements: Seq<Seq<char>>) -> Option<Seq<char>>
    decreases elements.len(),
{
    if elements.len() == 0 {
        None
    } else {
        match forwarded_element(elements[0]) {
            Some(address) => Some(address),
            None => forwarded_address(elements.drop_first()),
        }
    }
}

/// The address that a proxy tells: of the `Forwarded` field, or else the first of the
/// `X-Forwarded-For` field.
pub open spec fn proxied_address(fields: Fields) -> Option<Seq<char>> {
    let forwarded = match field_text(fields, "Forwarded"@) {
        Some(text) => forwarded_address(split(text, ';')),
        None => None,
    };
    if forwarded is Some {
        forwarded
    } else {
        match field_text(fields, "X-Forwarded-For"@) {
            Some(text) => {
                let first = trimmed(split(text, ',')[0]);
                if first.len() > 0 {
                    Some(first)
                } else {
                    None
                }
            },
            None => None,
        }
    }
}

/// The address from which a request came.
pub open spec fn client_address(
    fields: Fields,
    peer: Option<Seq<char>>,
    behind_proxy: bool,
) -> Option<Seq<char>> {
    if behind_proxy {
        proxied_address(fields)
    } else {
        peer
    }
}

/// The address in an element of a `Forwarded` field, where it tells one.
fn element_address(element: &str) -> (r: Option<String>)
    ensures
        text_option(r) == forwarded_element(element@),
{
    let part = trim_text(element);
    match strip_prefix(part, "for=") {
        Some(rest) => {
            let cleaned = trim_start_char(trim_end_char(trim_start_char(rest, '"'), '"'), '[');
            if cleaned.is_empty() {
                None
            } else {
                Some(cleaned.to_owned())
            }
        },
        None => None,
    }
}

/// The address in the first element of a `Forwarded` field that tells one.
fn first_address(forwarded: &str) -> (r: Option<String>)
    ensures
        text_option(r) == forwarded_address(split(forwarded@, ';')),
{
    let elements = split_text(forwarded, ';');
    let ghost all = split(forwarded@, ';');
    assert(all.skip(0) =~= all);
    for i in 0..elements.len()
        invariant
            all == split(forwarded@, ';'),
            all == elements@.map_values(|p: &str| p@),
            forwarded_address(all) == forwarded_address(all.skip(i as int)),
    {
        let address = element_address(elements[i]);
        assert(all.skip(i as int)[0] == elements@[i as int]@);
        assert(all.skip(i as int).drop_first() =~= all.skip(i + 1));
        if address.is_some() {
            return address;
        }
    }
    None
}

/// Resolve the remote address of a request.
///
/// When `behind_proxy` is set, the client address is taken from the
/// `Forwarded` / `X-Forwarded-For` headers. Otherwise the peer address
/// from the connection info is used (if available).
pub fn remote_addr(headers: &HeaderMap, conn: Option<String>, behind_proxy: bool) -> (r: Option<String>)
    ensures
        text_option(r) == client_address(header_values(*headers), text_option(conn), behind_proxy),
{
    if behind_proxy {
        if let Some(forwarded) = header_text(headers, "Forwarded") {
            let address = first_address(forwarded.as_str());
            if address.is_some() {
                return address;
            }
        }
        if let Some(forwarded_for) = header_text(headers, "X-Forwarded-For") {
            let pieces = split_text(forwarded_for.as_str(), ',');
            let ghost all = split(forwarded_for@, ',');
            assert(all.len() > 0);
            let first = trim_text(pieces[0]);
            assert(all[0] == pieces@[0]@);
            if !first.is_empty() {
                return Some(first.to_owned());
            }
        }
        return None;
    }
    conn
}

/// Whether two texts differ at most in the case of ASCII letters.
pub open spec fn same_ignoring_case(a: Seq<char>, b: Seq<char>) -> bool {
    a.map_values(|c: char| lower(c)) == b.map_values(|c: char| lower(c))
}

/// Media that a browser shows by itself: images, texts, sounds, films, scripts and data for them.
pub open spec fn is_shown(kind: Seq<char>, subtype: Seq<char>) -> bool {
    ||| kind == "image"@ || kind == "text"@ || kind == "audio"@ || kind == "video"@
    ||| kind == "application"@ && (subtype == "javascript"@ || subtype == "json"@
        || same_ignoring_case(subtype, "wasm"@))
}

/// The value of a `Content-Disposition` field for a file of a kind of media: shown where browsers
/// can, else saved, and under its name where a field can hold the name.
pub open spec fn disposition_value(media: (Seq<char>, Seq<char>), filename: Seq<char>) -> Seq<char> {
    let disposition = if is_shown(media.0, media.1) {
        "inline"@
    } else {
        "attachment"@
    };
    let value = disposition + "; filename=\""@ + filename + "\""@;
    if is_field_value(value) {
        value
    } else {
        "attachment"@
    }
}

fn lower_char(c: char) -> (r: char)
    ensures
        r == lower(c),
{
    if 'A' <= c && c <= 'Z' {
        ((c as u8) + 32) as char
    } else {
        c
    }
}

fn eq_ignoring_case(a: &str, b: &str) -> (r: bool)
    ensures
        r == same_ignoring_case(a@, b@),
{
    let left = chars_of(a);
    let right = chars_of(b);
    let ghost la = a@.map_values(|c: char| lower(c));
    let ghost lb = b@.map_values(|c: char| lower(c));
    if left.len() != right.len() {
        assert(la.len() != lb.len());
        return false;
    }
    for i in 0..left.len()
        invariant
            left@ == a@,
            right@ == b@,
            a@.len() == b@.len(),
            la == a@.map_values(|c: char| lower(c)),
            lb == b@.map_values(|c: char| lower(c)),
            forall|j: int| 0 <= j < i ==> la[j] == lb[j],
    {
        if lower_char(left[i]) != lower_char(right[i]) {
            assert(la[i as int] != lb[i as int]);
            return false;
        }
    }
    assert(la =~= lb);
    true
}

/// The `Content-Disposition` field of a file of a kind of media: its name and its value.
pub fn disposition_for(media: &(String, String), filename: &str) -> (field: (String, String))
    ensures
        field.0@ == "content-disposition"@,
        field.1@ == disposition_value((media.0@, media.1@), filename@),
{
    let kind = media.0.as_str();
    let subtype = media.1.as_str();
    let shown = same(kind, "image") || same(kind, "text") || same(kind, "audio") || same(kind, "video")
        || (same(kind, "application") && (same(subtype, "javascript") || same(subtype, "json")
        || eq_ignoring_case(subtype, "wasm")));
    let disposition = if shown {
        "inline"
    } else {
        "attachment"
    };
    let value = disposition.to_owned().concat("; filename=\"").concat(filename).concat("\"");
    let value = if valid_value(value.as_str()) {
        value
    } else {
        "attachment".to_owned()
    };
    ("content-disposition".to_owned(), value)
}

/// This function generates a `Content-Disposition` header value
/// based on file name.
pub fn generate_disposition(filename: &str) -> (field: (String, String))
    ensures
        field.0@ == "content-disposition"@,
        exists|media: (Seq<char>, Seq<char>)|
            (is_portable(filename@) ==> media == media_of(filename@)) && field.1@
                == #[trigger] disposition_value(media, filename@),
{
    let media = guess_media(filename);
    disposition_for(&media, filename)
}

} // verus!
