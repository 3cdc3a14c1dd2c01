//! When bytes have the checksum that came with them.

use vstd::prelude::*;
use vstd::utf8::encode_utf8;

use crate::codec::base64_bytes;
use crate::fields::{is_visible, lemma_behind_is_visible, lemma_text_reads_back, text_of, visible};
use crate::text::{law_split_in_two, lemma_split_alone, split};
use crate::utils::hashes::{
    checksum_holds, md5_digest, sha1_digest, sha256_digest, sha512_digest,
};

verus! {

broadcast use vstd::string::group_string_axioms;

/// The bytes of a field value that tells a digest by its name, and maybe something more.
pub open spec fn told_digest(name: Seq<char>, text: Seq<char>, more: Seq<char>) -> Seq<u8> {
    encode_utf8(name + seq![' '] + text + more)
}

/// Bytes have a digest that a base64 text tells.
pub open spec fn has_digest(text: Seq<char>, digest: Seq<u8>) -> Option<bool> {
    match base64_bytes(text) {
        Some(expected) => Some(expected == digest),
        None => None,
    }
}

proof fn lemma_words(name: Seq<char>, text: Seq<char>, more: Seq<char>)
    requires
        !name.contains(' '),
        !text.contains(' '),
        is_visible(name),
        is_visible(text),
        is_visible(more),
        more.len() > 0 ==> more[0] == ' ',
    ensures
        text_of(told_digest(name, text, more)) == Some(name + seq![' '] + text + more),
        split(name + seq![' '] + text + more, ' ').len() >= 2,
        split(name + seq![' '] + text + more, ' ')[0] == name,
        split(name + seq![' '] + text + more, ' ')[1] == text,
{
    let space = seq![' '];
    assert(is_visible(space));
    lemma_behind_is_visible(name, space);
    lemma_behind_is_visible(name + space, text);
    lemma_behind_is_visible(name + space + text, more);
    let whole = name + space + text + more;
    lemma_text_reads_back(whole);
    lemma_split_alone(name, ' ');
    lemma_split_alone(text, ' ');
    if more.len() == 0 {
        assert(whole =~= name + space + text);
        law_split_in_two(name, ' ', text);
    } else {
        let rest = more.drop_first();
        assert(whole =~= name + space + (text + space + rest));
        law_split_in_two(name, ' ', text + space + rest);
        law_split_in_two(text, ' ', rest);
    }
}

/// Bytes of any number have the checksum that a field tells if and only if the bytes that its base64
/// text stands for are the digest of all of them, by the name that the field gives.
pub proof fn law_checksums(text: Seq<char>, more: Seq<char>, bytes: Seq<u8>)
    requires
        is_visible(text),
        !text.contains(' '),
        is_visible(more),
        more.len() > 0 ==> more[0] == ' ',
    ensures
        checksum_holds(told_digest("md5"@, text, more), bytes) == has_digest(text, md5_digest(bytes)),
        checksum_holds(told_digest("sha1"@, text, more), bytes) == has_digest(
            text,
            sha1_digest(bytes),
        ),
        checksum_holds(told_digest("sha256"@, text, more), bytes) == has_digest(
            text,
            sha256_digest(bytes),
        ),
        checksum_holds(told_digest("sha512"@, text, more), bytes) == has_digest(
            text,
            sha512_digest(bytes),
        ),
{
    reveal_strlit("md5");
    reveal_strlit("sha1");
    reveal_strlit("sha256");
    reveal_strlit("sha512");
    assert("md5"@.len() == 3 && "sha1"@.len() == 4 && "sha256"@.len() == 6 && "sha512"@.len() == 6);
    assert("sha256"@[3] != "sha512"@[3]);
    lemma_words("md5"@, text, more);
    lemma_words("sha1"@, text, more);
    lemma_words("sha256"@, text, more);
    lemma_words("sha512"@, text, more);
}

/// A field that is no text, that does not tell two words, or whose first word names no digest, tells
/// no checksum of any bytes.
pub proof fn law_no_checksum(field: Seq<u8>, name: Seq<char>, rest: Seq<char>, bytes: Seq<u8>)
    requires
        !name.contains(' '),
        is_visible(name),
        is_visible(rest),
        name != "md5"@ && name != "sha1"@ && name != "sha256"@ && name != "sha512"@,
    ensures
        (exists|i: int| 0 <= i < field.len() && !visible(#[trigger] field[i])) ==> checksum_holds(
            field,
            bytes,
        ) is None,
        checksum_holds(encode_utf8(name), bytes) is None,
        checksum_holds(encode_utf8(name + seq![' '] + rest), bytes) is None,
{
    let space = seq![' '];
    assert(is_visible(space));
    lemma_text_reads_back(name);
    lemma_behind_is_visible(name, space);
    lemma_behind_is_visible(name + space, rest);
    lemma_text_reads_back(name + space + rest);
    lemma_split_alone(name, ' ');
    law_split_in_two(name, ' ', rest);
}

/// One field does not tell the checksum of two bodies whose digests differ.
pub proof fn law_one_checksum(field: Seq<u8>, a: Seq<u8>, b: Seq<u8>)
    requires
        md5_digest(a) != md5_digest(b),
        sha1_digest(a) != sha1_digest(b),
        sha256_digest(a) != sha256_digest(b),
        sha512_digest(a) != sha512_digest(b),
    ensures
        !(checksum_holds(field, a) == Some(true) && checksum_holds(field, b) == Some(true)),
        checksum_holds(field, a) is Some <==> checksum_holds(field, b) is Some,
{
}

} // verus!
