//! Checksums of what a request brings.

use sha1::Digest;
use vstd::prelude::*;

use crate::codec::{base64_bytes, decode_base64};
use crate::fields::{text_of, value_text};
use crate::text::{same, split, split_text};

verus! {

broadcast use vstd::string::group_string_axioms;

/// The MD5 digest of a byte sequence.
pub uninterp spec fn md5_digest(bytes: Seq<u8>) -> Seq<u8>;

/// The SHA-1 digest of a byte sequence.
pub uninterp spec fn sha1_digest(bytes: Seq<u8>) -> Seq<u8>;

/// The SHA-256 digest of a byte sequence.
pub uninterp spec fn sha256_digest(bytes: Seq<u8>) -> Seq<u8>;

/// The SHA-512 digest of a byte sequence.
pub uninterp spec fn sha512_digest(bytes: Seq<u8>) -> Seq<u8>;

/// `Digest::digest` of `md5::Md5`: 16 bytes that the bytes alone decide.
#[verifier::external_body]
fn md5_of(bytes: &[u8]) -> (digest: Vec<u8>)
    ensures
        digest@ == md5_digest(bytes@),
        digest@.len() == 16,
{
    md5::Md5::digest(bytes).to_vec()
}

/// `Digest::digest` of `sha1::Sha1`: 20 bytes that the bytes alone decide.
#[verifier::external_body]
fn sha1_of(bytes: &[u8]) -> (digest: Vec<u8>)
    ensures
        digest@ == sha1_digest(bytes@),
        digest@.len() == 20,
{
    sha1::Sha1::digest(bytes).to_vec()
}

/// `Digest::digest` of `sha2::Sha256`: 32 bytes that the bytes alone decide.
#[verifier::external_body]
fn sha256_of(bytes: &[u8]) -> (digest: Vec<u8>)
    ensures
        digest@ == sha256_digest(bytes@),
        digest@.len() == 32,
{
    sha2::Sha256::digest(bytes).to_vec()
}

/// `Digest::digest` of `sha2::Sha512`: 64 bytes that the bytes alone decide.
#[verifier::external_body]
fn sha512_of(bytes: &[u8]) -> (digest: Vec<u8>)
    ensures
        digest@ == sha512_digest(bytes@),
        digest@.len() == 64,
{
    sha2::Sha512::digest(bytes).to_vec()
}

/// The digests that a request may tell.
#[derive(Clone, Copy, Debug, PartialEq, Eq, Structural)]
pub enum Algorithm {
    Md5,
    Sha1,
    Sha256,
    Sha512,
}

/// The digest that goes by a name.
pub open spec fn algorithm_named(name: Seq<char>) -> Option<Algorithm> {
    if name == "md5"@ {
        Some(Algorithm::Md5)
    } else if name == "sha1"@ {
        Some(Algorithm::Sha1)
    } else if name == "sha256"@ {
        Some(Algorithm::Sha256)
    } else if name == "sha512"@ {
        Some(Algorithm::Sha512)
    } else {
        None
    }
}

/// A digest of a byte sequence.
pub open spec fn digest_of(algorithm: Algorithm, bytes: Seq<u8>) -> Seq<u8> {
    match algorithm {
        Algorithm::Md5 => md5_digest(bytes),
        Algorithm::Sha1 => sha1_digest(bytes),
        Algorithm::Sha256 => sha256_digest(bytes),
        Algorithm::Sha512 => sha512_digest(bytes),
    }
}

/// What the value of an `Upload-Checksum` field tells: the name of a digest, a space, and a text.
pub open spec fn checksum_in(field: Seq<u8>) -> Option<(Algorithm, Seq<char>)> {
    match text_of(field) {
        Some(text) => {
            let words = split(text, ' ');
            if words.len() < 2 {
                None
            } else {
                match algorithm_named(words[0]) {
                    Some(algorithm) => Some((algorithm, words[1])),
                    None => None,
                }
            }
        },
        None => None,
    }
}

/// Whether bytes have the checksum that a field tells as base64; nothing where it tells none.
pub open spec fn checksum_holds(field: Seq<u8>, bytes: Seq<u8>) -> Option<bool> {
    match checksum_in(field) {
        Some((algorithm, text)) => match base64_bytes(text) {
            Some(expected) => Some(expected == digest_of(algorithm, bytes)),
            None => None,
        },
        None => None,
    }
}

/// The digest that goes by a name.
fn find_algorithm(name: &str) -> (r: Option<Algorithm>)
    ensures
        r == algorithm_named(name@),
{
    if same(name, "md5") {
        Some(Algorithm::Md5)
    } else if same(name, "sha1") {
        Some(Algorithm::Sha1)
    } else if same(name, "sha256") {
        Some(Algorithm::Sha256)
    } else if same(name, "sha512") {
        Some(Algorithm::Sha512)
    } else {
        None
    }
}

/// What the value of an `Upload-Checksum` field tells.
pub fn read_checksum(field: &[u8]) -> (r: Option<(Algorithm, String)>)
    ensures
        match r {
            Some((algorithm, text)) => checksum_in(field@) == Some((algorithm, text@)),
            None => checksum_in(field@) is None,
        },
{
    let text = match value_text(field) {
        Some(text) => text,
        None => {
            return None;
        },
    };
    let words = split_text(text.as_str(), ' ');
    let ghost all = split(text@, ' ');
    assert(all == words@.map_values(|p: &str| p@));
    if words.len() < 2 {
        return None;
    }
    assert(all[0] == words@[0]@);
    assert(all[1] == words@[1]@);
    match find_algorithm(words[0]) {
        Some(algorithm) => Some((algorithm, words[1].to_owned())),
        None => None,
    }
}

/// Whether two byte sequences are the same.
pub fn same_bytes(a: &Vec<u8>, b: &Vec<u8>) -> (r: bool)
    ensures
        r == (a@ == b@),
{
    if a.len() != b.len() {
        return false;
    }
    for i in 0..a.len()
        invariant
            a@.len() == b@.len(),
            forall|j: int| 0 <= j < i ==> a@[j] == b@[j],
    {
        if a[i] != b[i] {
            return false;
        }
    }
    assert(a@ =~= b@);
    true
}

/// A digest of a byte sequence.
fn compute_digest(algorithm: Algorithm, bytes: &[u8]) -> (r: Vec<u8>)
    ensures
        r@ == digest_of(algorithm, bytes@),
{
    match algorithm {
        Algorithm::Md5 => md5_of(bytes),
        Algorithm::Sha1 => sha1_of(bytes),
        Algorithm::Sha256 => sha256_of(bytes),
        Algorithm::Sha512 => sha512_of(bytes),
    }
}

/// Whether bytes have the checksum that the value of an `Upload-Checksum` field tells; nothing where
/// it tells none.
pub fn verify_chunk_checksum(field: &[u8], bytes: &[u8]) -> (r: Option<bool>)
    ensures
        r == checksum_holds(field@, bytes@),
{
    match read_checksum(field) {
        Some((algorithm, text)) => match decode_base64(text.as_str()) {
            Some(expected) => Some(same_bytes(&expected, &compute_digest(algorithm, bytes))),
            None => None,
        },
        None => None,
    }
}

} // verus!
