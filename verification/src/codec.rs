//! Encodings, identifiers and guesses that other crates compute.

use base64::{engine::general_purpose, Engine};
use uuid::Uuid;
use vstd::prelude::*;
use vstd::utf8::{decode_utf8, valid_utf8};
use wildmatch::WildMatch;

verus! {

/// The base64 text of a byte sequence, with the standard alphabet and with padding.
pub uninterp spec fn base64_text(bytes: Seq<u8>) -> Seq<char>;

/// The bytes that a base64 text stands for; nothing where it is not such a text.
pub uninterp spec fn base64_bytes(text: Seq<char>) -> Option<Seq<u8>>;

/// The type and the subtype of the media that a file name suggests.
pub uninterp spec fn media_of(filename: Seq<char>) -> (Seq<char>, Seq<char>);

/// The characters of the standard base64 alphabet, and the padding.
pub open spec fn base64_char(c: char) -> bool {
    ||| 'A' <= c <= 'Z'
    ||| 'a' <= c <= 'z'
    ||| '0' <= c <= '9'
    ||| c == '+' || c == '/' || c == '='
}

/// The digits of a hexadecimal numeral in lower case.
pub open spec fn hex_char(c: char) -> bool {
    '0' <= c <= '9' || 'a' <= c <= 'f'
}

/// The text form of a random identifier: 32 hexadecimal digits in five groups, with the version
/// digit 4 and one of the four variant digits.
pub open spec fn is_random_id(s: Seq<char>) -> bool {
    &&& s.len() == 36
    &&& s[14] == '4'
    &&& s[19] == '8' || s[19] == '9' || s[19] == 'a' || s[19] == 'b'
    &&& forall|i: int| 0 <= i < 36 ==> if i == 8 || i == 13 || i == 18 || i == 23 {
        #[trigger] s[i] == '-'
    } else {
        hex_char(s[i])
    }
}

/// Whether a pattern matches the whole of a text: `*` stands for any characters, `?` for any one
/// character, and every other character for itself.
pub open spec fn wildcard(pattern: Seq<char>, text: Seq<char>) -> bool
    decreases pattern.len(), text.len(),
{
    if pattern.len() == 0 {
        text.len() == 0
    } else if pattern[0] == '*' {
        wildcard(pattern.drop_first(), text) || (text.len() > 0 && wildcard(
            pattern,
            text.drop_first(),
        ))
    } else {
        &&& text.len() > 0
        &&& pattern[0] == '?' || pattern[0] == text[0]
        &&& wildcard(pattern.drop_first(), text.drop_first())
    }
}

/// `Engine::encode` of `base64`'s `STANDARD` engine: the text has four characters for each three
/// bytes, begun or whole, all of the base64 alphabet, and decoding it gives the bytes back.
#[verifier::external_body]
pub(crate) fn encode_base64(bytes: &[u8]) -> (text: String)
    ensures
        text@ == base64_text(bytes@),
        text@.len() == 4 * ((bytes@.len() + 2) / 3),
        forall|i: int| 0 <= i < text@.len() ==> base64_char(#[trigger] text@[i]),
        base64_bytes(text@) == Some(bytes@),
{
    general_purpose::STANDARD.encode(bytes)
}

/// `Engine::decode` of `base64`'s `STANDARD` engine: the bytes that the text stands for, or nothing
/// where it is no padded base64 text.
#[verifier::external_body]
pub(crate) fn decode_base64(text: &str) -> (bytes: Option<Vec<u8>>)
    ensures
        match bytes {
            Some(b) => base64_bytes(text@) == Some(b@),
            None => base64_bytes(text@) is None,
        },
{
    general_purpose::STANDARD.decode(text).ok()
}

/// `String::from_utf8`: the text of which the bytes are the UTF-8 form, or nothing where they are
/// not valid UTF-8.
#[verifier::external_body]
pub(crate) fn utf8_text(bytes: Vec<u8>) -> (text: Option<String>)
    ensures
        match text {
            Some(t) => valid_utf8(bytes@) && t@ == decode_utf8(bytes@),
            None => !valid_utf8(bytes@),
        },
{
    String::from_utf8(bytes).ok()
}

/// `Uuid::new_v4`: a random identifier in its hyphenated text form. Which one it is, is chance.
#[verifier::external_body]
pub(crate) fn random_id() -> (id: String)
    ensures
        is_random_id(id@),
{
    Uuid::new_v4().to_string()
}

/// `WildMatch::matches`: whether the pattern matches the whole text.
#[verifier::external_body]
pub(crate) fn wildcard_matches(pattern: &str, text: &str) -> (r: bool)
    ensures
        r == wildcard(pattern@, text@),
{
    WildMatch::new(pattern) == text
}

/// An ASCII letter, as drives are named.
pub open spec fn is_letter(c: char) -> bool {
    'a' <= c <= 'z' || 'A' <= c <= 'Z'
}

/// A file name in which all machines see the same extension. It holds no backslash, which some take
/// for a separator, and does not begin with what some take for a drive (`c:`) or for a share (`//`).
pub open spec fn is_portable(filename: Seq<char>) -> bool {
    &&& !filename.contains('\\')
    &&& !(filename.len() >= 2 && is_letter(filename[0]) && filename[1] == ':')
    &&& !(filename.len() >= 2 && filename[0] == '/' && filename[1] == '/')
}

/// `mime_guess::from_path`: the type and the subtype of the first guess for the extension of a file
/// name, which are those of `application/octet-stream` where there is none. Where the extension
/// starts is left to the machine in names that are not portable, so nothing is said of those.
#[verifier::external_body]
pub(crate) fn guess_media(filename: &str) -> (media: (String, String))
    ensures
        is_portable(filename@) ==> (media.0@, media.1@) == media_of(filename@),
{
    let media = mime_guess::from_path(filename).first_or_octet_stream();
    (media.type_().as_str().to_string(), media.subtype().as_str().to_string())
}

} // verus!
