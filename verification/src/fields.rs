//! HTTP header fields, as the `http` crate keeps them.

use std::str::FromStr;

use http::{HeaderMap, HeaderName, HeaderValue, Method};
use vstd::prelude::*;
use vstd::utf8::{encode_utf8, is_ascii_chars_encode_utf8};

use crate::text::{decimal, is_digit, joined, lemma_decimal};

verus! {

/// `http::HeaderMap`, a multimap from field names to field values.
#[verifier::external_type_specification]
#[verifier::external_body]
#[verifier::reject_recursive_types(T)]
pub struct ExHeaderMap<T>(HeaderMap<T>);

/// `http::HeaderValue`, the value type of a header map.
#[verifier::external_type_specification]
#[verifier::external_body]
pub struct ExHeaderValue(HeaderValue);

/// Header fields: from a field name in lower case to its values, as bytes and in order.
pub type Fields = Map<Seq<char>, Seq<Seq<u8>>>;

/// What a header map holds.
pub uninterp spec fn header_values(headers: HeaderMap) -> Map<Seq<char>, Seq<Seq<u8>>>;

/// A number of field names below which a header map takes one more, however its names hash.
pub const FIELD_NAME_LIMIT: usize = 6554;

/// An ASCII letter in lower case; any other character as it is.
pub open spec fn lower(c: char) -> char {
    if 'A' <= c <= 'Z' {
        ((c as u32) + 32) as char
    } else {
        c
    }
}

/// The key under which a field name is kept: field names do not distinguish case.
pub open spec fn header_key(name: Seq<char>) -> Seq<char> {
    name.map_values(|c: char| lower(c))
}

/// The characters of which field names and methods are made.
pub open spec fn token_char(c: char) -> bool {
    ||| '0' <= c <= '9'
    ||| 'a' <= c <= 'z'
    ||| 'A' <= c <= 'Z'
    ||| c == '!' || c == '#' || c == '$' || c == '%' || c == '&' || c == '\'' || c == '*' || c == '+'
    ||| c == '-' || c == '.' || c == '^' || c == '_' || c == '`' || c == '|' || c == '~'
}

/// At least one character, and only token characters.
pub open spec fn is_token(s: Seq<char>) -> bool {
    &&& s.len() > 0
    &&& forall|i: int| 0 <= i < s.len() ==> token_char(#[trigger] s[i])
}

/// The texts that can name a field.
pub open spec fn is_field_name(s: Seq<char>) -> bool {
    is_token(s) && s.len() <= 65535
}

/// The characters that a field value can be made of: no control character but the tab.
pub open spec fn value_char(c: char) -> bool {
    (c >= ' ' && c != '\u{7f}') || c == '\t'
}

/// The texts that can be a field value.
pub open spec fn is_field_value(s: Seq<char>) -> bool {
    forall|i: int| 0 <= i < s.len() ==> value_char(#[trigger] s[i])
}

/// The bytes of a field value that can be read as a character.
pub open spec fn visible(b: u8) -> bool {
    32 <= b < 127 || b == 9
}

/// The text of a field value, where all of its bytes are visible ASCII or tabs.
pub open spec fn text_of(bytes: Seq<u8>) -> Option<Seq<char>> {
    if forall|i: int| 0 <= i < bytes.len() ==> visible(#[trigger] bytes[i]) {
        Some(bytes.map_values(|b: u8| b as char))
    } else {
        None
    }
}

/// No field at all.
pub open spec fn no_fields() -> Fields {
    Map::empty()
}

/// The bytes of the first value of a field. A text that cannot name a field has none.
pub open spec fn field_bytes(fields: Fields, name: Seq<char>) -> Option<Seq<u8>> {
    if is_field_name(name) && fields.contains_key(header_key(name)) {
        Some(fields[header_key(name)][0])
    } else {
        None
    }
}

/// The text of the first value of a field.
pub open spec fn field_text(fields: Fields, name: Seq<char>) -> Option<Seq<char>> {
    match field_bytes(fields, name) {
        Some(bytes) => text_of(bytes),
        None => None,
    }
}

/// The fields with `value` as the only value of `name`.
pub open spec fn with_value(fields: Fields, name: Seq<char>, value: Seq<char>) -> Fields {
    fields.insert(header_key(name), seq![encode_utf8(value)])
}

/// The fields with `value` as one more value of `name`.
pub open spec fn with_more(fields: Fields, name: Seq<char>, value: Seq<char>) -> Fields {
    let key = header_key(name);
    let before = if fields.contains_key(key) {
        fields[key]
    } else {
        seq![]
    };
    fields.insert(key, before.push(encode_utf8(value)))
}

/// `HeaderMap::new`: a header map without fields.
#[verifier::external_body]
pub(crate) fn no_headers() -> (headers: HeaderMap)
    ensures
        header_values(headers) == no_fields(),
{
    HeaderMap::new()
}

/// `HeaderMap::clone`: a header map with the same fields.
#[verifier::external_body]
pub(crate) fn copy_headers(headers: &HeaderMap) -> (copy: HeaderMap)
    ensures
        header_values(copy) == header_values(*headers),
{
    headers.clone()
}

/// `HeaderMap::get`: the first value of the field, whatever the case of its name, or nothing where
/// the map does not hold the field or the text cannot name one.
#[verifier::external_body]
pub(crate) fn header_bytes<'a>(headers: &'a HeaderMap, name: &str) -> (value: Option<&'a [u8]>)
    ensures
        match value {
            Some(bytes) => field_bytes(header_values(*headers), name@) == Some(bytes@),
            None => field_bytes(header_values(*headers), name@) is None,
        },
{
    headers.get(name).map(|value| value.as_bytes())
}

/// `HeaderValue::to_str`: the text of a value whose bytes are all visible ASCII or tabs, nothing of
/// another value. Bytes that are no header value hold a control character, which is not visible.
#[verifier::external_body]
pub(crate) fn value_text(bytes: &[u8]) -> (text: Option<String>)
    ensures
        match text {
            Some(t) => text_of(bytes@) == Some(t@),
            None => text_of(bytes@) is None,
        },
{
    HeaderValue::from_bytes(bytes).ok().and_then(|value| value.to_str().ok().map(String::from))
}

/// `HeaderValue::from_str`: whether a text can be a field value.
#[verifier::external_body]
pub(crate) fn valid_value(value: &str) -> (r: bool)
    ensures
        r == is_field_value(value@),
{
    HeaderValue::from_str(value).is_ok()
}

/// `HeaderName::from_str`: whether a text can name a field.
#[verifier::external_body]
pub(crate) fn valid_name(name: &str) -> (r: bool)
    ensures
        r == is_field_name(name@),
{
    HeaderName::from_str(name).is_ok()
}

/// `HeaderMap::insert`: the value becomes the only one of the field, and the other fields stay.
/// The map is small enough not to reach its largest size.
#[verifier::external_body]
pub(crate) fn insert_header(headers: &mut HeaderMap, name: &'static str, value: &str)
    requires
        is_field_name(name@),
        is_field_value(value@),
        header_values(*old(headers)).dom().finite(),
        header_values(*old(headers)).dom().len() < FIELD_NAME_LIMIT,
    ensures
        header_values(*final(headers)) == with_value(header_values(*old(headers)), name@, value@),
{
    if let Ok(value) = HeaderValue::from_str(value) {
        headers.insert(name, value);
    }
}

/// As many field names as a header map may refuse to add to.
pub open spec fn is_crowded(fields: Fields) -> bool {
    fields.dom().finite() && fields.dom().len() >= FIELD_NAME_LIMIT
}

/// `HeaderMap::try_insert`: the value becomes the only one of the field, and the other fields stay;
/// or the map is at its largest size, and nothing changes. Below the limit it never is. Whether it
/// is above the limit, depends on how the names hash.
#[verifier::external_body]
pub(crate) fn try_insert_header(headers: &mut HeaderMap, name: &'static str, value: &str) -> (r: bool)
    requires
        is_field_name(name@),
        is_field_value(value@),
    ensures
        header_values(*final(headers)) == if r {
            with_value(header_values(*old(headers)), name@, value@)
        } else {
            header_values(*old(headers))
        },
        !r ==> is_crowded(header_values(*old(headers))),
{
    match HeaderValue::from_str(value) {
        Ok(value) => headers.try_insert(name, value).is_ok(),
        Err(_) => false,
    }
}

/// `HeaderMap::append`: the value comes behind the values that the field has, and the other fields
/// stay. The map is small enough not to reach its largest size.
#[verifier::external_body]
pub(crate) fn append_header(headers: &mut HeaderMap, name: &'static str, value: &str)
    requires
        is_field_name(name@),
        is_field_value(value@),
        header_values(*old(headers)).dom().finite(),
        header_values(*old(headers)).dom().len() < FIELD_NAME_LIMIT,
    ensures
        header_values(*final(headers)) == with_more(header_values(*old(headers)), name@, value@),
{
    if let Ok(value) = HeaderValue::from_str(value) {
        headers.append(name, value);
    }
}

/// `Method::from_str`: a request method is any token, and keeps the text that it was made of.
#[verifier::external_body]
pub(crate) fn parse_method(name: &str) -> (method: Option<String>)
    ensures
        match method {
            Some(m) => is_token(name@) && m@ == name@,
            None => !is_token(name@),
        },
{
    Method::from_str(name).ok().map(|method| method.as_str().to_string())
}

/// The text of the first value of a field, where the map holds the field and its value is text.
pub fn header_text(headers: &HeaderMap, name: &str) -> (text: Option<String>)
    ensures
        match text {
            Some(t) => field_text(header_values(*headers), name@) == Some(t@),
            None => field_text(header_values(*headers), name@) is None,
        },
{
    match header_bytes(headers, name) {
        Some(bytes) => value_text(bytes),
        None => None,
    }
}

/// A decimal numeral can be a field value.
pub proof fn lemma_decimal_is_value(n: nat)
    ensures
        is_field_value(decimal(n)),
{
    lemma_decimal(n);
    assert forall|i: int| 0 <= i < decimal(n).len() implies value_char(
        #[trigger] decimal(n)[i],
    ) by {
        assert(is_digit(decimal(n)[i]));
    }
}

/// Field values with field values between them make a field value.
pub proof fn lemma_joined_is_value(parts: Seq<Seq<char>>, sep: Seq<char>)
    requires
        is_field_value(sep),
        forall|i: int| 0 <= i < parts.len() ==> is_field_value(#[trigger] parts[i]),
    ensures
        is_field_value(joined(parts, sep)),
    decreases parts.len(),
{
    if parts.len() > 1 {
        let front = parts.drop_last();
        assert forall|i: int| 0 <= i < front.len() implies is_field_value(#[trigger] front[i]) by {
            assert(front[i] == parts[i]);
        }
        lemma_joined_is_value(front, sep);
        let whole = joined(parts, sep);
        let head = joined(front, sep);
        assert(is_field_value(parts[parts.len() - 1]));
        assert forall|i: int| 0 <= i < whole.len() implies value_char(#[trigger] whole[i]) by {
            if i < head.len() {
                assert(whole[i] == head[i]);
            } else if i < head.len() + sep.len() {
                assert(whole[i] == sep[i - head.len()]);
            } else {
                assert(whole[i] == parts.last()[i - head.len() - sep.len()]);
            }
        }
    } else if parts.len() == 1 {
        assert(is_field_value(parts[0]));
    }
}

/// One more value of a field is at most one more field name.
pub proof fn lemma_with_more(fields: Fields, name: Seq<char>, value: Seq<char>)
    requires
        fields.dom().finite(),
    ensures
        with_more(fields, name, value).dom().finite(),
        with_more(fields, name, value).dom().len() <= fields.dom().len() + 1,
{
}

/// A character that the text of a field value can hold.
pub open spec fn visible_char(c: char) -> bool {
    ' ' <= c <= '~' || c == '\t'
}

/// All characters can stand in the text of a field value.
pub open spec fn is_visible(s: Seq<char>) -> bool {
    forall|i: int| 0 <= i < s.len() ==> visible_char(#[trigger] s[i])
}

/// Visible texts, joined by a visible one, are visible.
pub proof fn lemma_joined_is_visible(parts: Seq<Seq<char>>, sep: Seq<char>)
    requires
        is_visible(sep),
        forall|i: int| 0 <= i < parts.len() ==> is_visible(#[trigger] parts[i]),
    ensures
        is_visible(joined(parts, sep)),
    decreases parts.len(),
{
    if parts.len() > 1 {
        let front = parts.drop_last();
        assert(forall|i: int| 0 <= i < front.len() ==> #[trigger] front[i] == parts[i]);
        lemma_joined_is_visible(front, sep);
        let head = joined(front, sep);
        assert(is_visible(parts[parts.len() - 1]));
        lemma_behind_is_visible(head, sep);
        lemma_behind_is_visible(head + sep, parts.last());
    } else if parts.len() == 1 {
        assert(is_visible(parts[0]));
    }
}

/// Two visible texts, one behind the other, are visible.
pub proof fn lemma_behind_is_visible(a: Seq<char>, b: Seq<char>)
    requires
        is_visible(a),
        is_visible(b),
    ensures
        is_visible(a + b),
{
    assert forall|i: int| 0 <= i < (a + b).len() implies visible_char(#[trigger] (a + b)[i]) by {
        if i < a.len() {
            assert(visible_char(a[i]));
        } else {
            assert(visible_char(b[i - a.len()]));
        }
    }
}

/// A text of visible characters is read as it was written.
pub proof fn lemma_text_reads_back(s: Seq<char>)
    requires
        is_visible(s),
    ensures
        text_of(encode_utf8(s)) == Some(s),
{
    let bytes = encode_utf8(s);
    assert forall|i: int| 0 <= i < s.len() implies '\0' <= #[trigger] s[i] <= '\u{7f}' by {
        assert(visible_char(s[i]));
    }
    is_ascii_chars_encode_utf8(s);
    assert forall|i: int| 0 <= i < bytes.len() implies visible(#[trigger] bytes[i]) && bytes[i] as char
        == s[i] by {
        assert(visible_char(s[i]));
        assert(s[i] as u8 == bytes[i]);
    }
    assert(bytes.map_values(|b: u8| b as char) =~= s);
}

/// A decimal numeral is visible.
pub proof fn lemma_decimal_is_visible(n: nat)
    ensures
        is_visible(decimal(n)),
{
    lemma_decimal(n);
    assert forall|i: int| 0 <= i < decimal(n).len() implies visible_char(
        #[trigger] decimal(n)[i],
    ) by {
        assert(is_digit(decimal(n)[i]));
    }
}

/// Names that differ in length, or at a place in more than case, are of different fields.
pub proof fn lemma_keys_differ(a: Seq<char>, b: Seq<char>, i: int)
    requires
        a.len() != b.len() || (0 <= i < a.len() && lower(a[i]) != lower(b[i])),
    ensures
        header_key(a) != header_key(b),
{
    if a.len() == b.len() {
        assert(header_key(a)[i] == lower(a[i]));
        assert(header_key(b)[i] == lower(b[i]));
    } else {
        assert(header_key(a).len() != header_key(b).len());
    }
}

/// The only value of a field is read as it was written, and the other fields stay.
pub proof fn law_insert_reads_back(fields: Fields, name: Seq<char>, value: Seq<char>, other: Seq<char>)
    requires
        is_field_name(name),
        is_visible(value),
    ensures
        field_text(with_value(fields, name, value), name) == Some(value),
        header_key(other) != header_key(name) ==> field_text(with_value(fields, name, value), other)
            == field_text(fields, other),
{
    lemma_text_reads_back(value);
}

/// One more value of a field is read where it is the first, and the other fields stay.
pub proof fn law_append_reads_back(fields: Fields, name: Seq<char>, value: Seq<char>, other: Seq<char>)
    requires
        is_field_name(name),
        !fields.contains_key(header_key(name)),
    ensures
        is_visible(value) ==> field_text(with_more(fields, name, value), name) == Some(value),
        header_key(other) != header_key(name) ==> field_text(with_more(fields, name, value), other)
            == field_text(fields, other),
{
    if is_visible(value) {
        lemma_text_reads_back(value);
    }
}

/// The text of a field is that of its first value, and is there if and only if the field is and all
/// bytes of that value are visible.
pub proof fn law_field_text(fields: Fields, name: Seq<char>, s: Seq<char>)
    ensures
        field_text(fields, name) == Some(s) <==> {
            &&& is_field_name(name)
            &&& fields.contains_key(header_key(name))
            &&& {
                let bytes = fields[header_key(name)][0];
                &&& bytes.len() == s.len()
                &&& forall|i: int|
                    0 <= i < s.len() ==> visible(#[trigger] bytes[i]) && bytes[i] as char == s[i]
            }
        },
{
    if is_field_name(name) && fields.contains_key(header_key(name)) {
        let bytes = fields[header_key(name)][0];
        let text = bytes.map_values(|b: u8| b as char);
        if field_text(fields, name) == Some(s) {
            assert(text == s);
            assert forall|i: int| 0 <= i < s.len() implies visible(#[trigger] bytes[i])
                && bytes[i] as char == s[i] by {
                assert(text[i] == s[i]);
            }
        }
        if bytes.len() == s.len() && forall|i: int|
            0 <= i < s.len() ==> visible(#[trigger] bytes[i]) && bytes[i] as char == s[i] {
            assert(text =~= s);
        }
    }
}

} // verus!
