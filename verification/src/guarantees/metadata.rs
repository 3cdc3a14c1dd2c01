//! What metadata a request tells.

use vstd::prelude::*;
use vstd::utf8::{
    decode_utf8, encode_utf8, encode_utf8_decode_utf8, encode_utf8_valid_utf8, valid_utf8,
};

use crate::codec::base64_bytes;
use crate::file_info::{law_put, lemma_position, position, put, value_of, Pairs};
use crate::protocol::creation::metadata::plain_key;
use crate::protocol::creation::routes::{pairs_of, with_decoded, with_piece};
use crate::text::{
    joined, law_split_joined, law_trimmed, lemma_split_two, split, trimmed, white_space,
};

verus! {

broadcast use vstd::string::group_string_axioms;

/// A piece of a field that tells a key and a value, with white space around it.
pub open spec fn tells_pair(piece: Seq<char>, key: Seq<char>, value: Seq<char>) -> bool {
    exists|a: Seq<char>, text: Seq<char>, b: Seq<char>| #[trigger]
        piece_of(a, key, text, b) == piece && is_padding(a) && is_padding(b) && tells_value(
            text,
            value,
        )
}

/// A piece of a field: a key, a space and a text, with something around it.
pub open spec fn piece_of(a: Seq<char>, key: Seq<char>, text: Seq<char>, b: Seq<char>) -> Seq<char> {
    a + (key + seq![' '] + text) + b
}

pub open spec fn is_padding(s: Seq<char>) -> bool {
    forall|i: int| 0 <= i < s.len() ==> white_space(#[trigger] s[i])
}

/// A base64 text that stands for a value.
pub open spec fn tells_value(text: Seq<char>, value: Seq<char>) -> bool {
    &&& base64_bytes(text) == Some(encode_utf8(value))
    &&& text.len() > 0
    &&& !text.contains(' ')
    &&& !text.contains(',')
    &&& !white_space(text.last())
}

proof fn lemma_piece(pairs: Pairs, piece: Seq<char>, key: Seq<char>, value: Seq<char>)
    requires
        plain_key(key),
        tells_pair(piece, key, value),
    ensures
        with_piece(pairs, piece) == put(pairs, key, value),
        !piece.contains(','),
{
    let (a, text, b) = choose|a: Seq<char>, text: Seq<char>, b: Seq<char>| #[trigger]
        piece_of(a, key, text, b) == piece && is_padding(a) && is_padding(b) && tells_value(
            text,
            value,
        );
    let core = key + seq![' '] + text;
    assert(core[0] == key[0]);
    assert(core.last() == text.last());
    law_trimmed(a, core, b);
    lemma_split_two(key, ' ', text);
    encode_utf8_valid_utf8(value);
    encode_utf8_decode_utf8(value);
    if piece.contains(',') {
        let j = choose|j: int| 0 <= j < piece.len() && piece[j] == ',';
        if j < a.len() {
            assert(white_space(a[j]));
        } else if j < a.len() + key.len() {
            assert(key[j - a.len()] == ',');
        } else if j < a.len() + core.len() {
            if j > a.len() + key.len() {
                assert(text[j - a.len() - key.len() - 1] == ',');
            }
        } else {
            assert(white_space(b[j - a.len() - core.len()]));
        }
    }
}

/// A field of pieces that tell keys and values, with commas between them, tells all of these pairs
/// in their order, whatever white space is around the pieces.
pub proof fn law_told_metadata(pieces: Seq<Seq<char>>, pairs: Pairs)
    requires
        pairs.len() > 0,
        pieces.len() == pairs.len(),
        forall|i: int, j: int| 0 <= i < j < pairs.len() ==> pairs[i].0 != pairs[j].0,
        forall|i: int|
            0 <= i < pairs.len() ==> plain_key((#[trigger] pairs[i]).0) && tells_pair(
                pieces[i],
                pairs[i].0,
                pairs[i].1,
            ),
    ensures
        pairs_of(split(joined(pieces, seq![',']), ',')) == pairs,
{
    assert forall|i: int| 0 <= i < pieces.len() implies !(#[trigger] pieces[i]).contains(',') by {
        assert(plain_key(pairs[i].0));
        lemma_piece(pairs, pieces[i], pairs[i].0, pairs[i].1);
    }
    law_split_joined(pieces, ',');
    lemma_pieces(pieces, pairs);
}

proof fn lemma_pieces(pieces: Seq<Seq<char>>, pairs: Pairs)
    requires
        pieces.len() == pairs.len(),
        forall|i: int, j: int| 0 <= i < j < pairs.len() ==> pairs[i].0 != pairs[j].0,
        forall|i: int|
            0 <= i < pairs.len() ==> plain_key((#[trigger] pairs[i]).0) && tells_pair(
                pieces[i],
                pairs[i].0,
                pairs[i].1,
            ),
    ensures
        pairs_of(pieces) == pairs,
    decreases pairs.len(),
{
    if pairs.len() == 0 {
        assert(pairs_of(pieces) =~= pairs);
    } else {
        let n = pairs.len() - 1;
        let front = pairs.drop_last();
        assert forall|i: int| 0 <= i < front.len() implies plain_key((#[trigger] front[i]).0)
            && tells_pair(pieces.drop_last()[i], front[i].0, front[i].1) by {
            assert(front[i] == pairs[i]);
        }
        lemma_pieces(pieces.drop_last(), front);
        assert(plain_key(pairs[n].0));
        lemma_piece(front, pieces[n], pairs[n].0, pairs[n].1);
        lemma_position(front, pairs[n].0);
        assert(position(front, pairs[n].0) == front.len());
        assert(front.push(pairs[n]) =~= pairs);
    }
}

/// One piece more sets the value of its key where it tells one that is text, and leaves all other
/// values. A piece without a key and a value, or with a value that is not text, tells nothing.
pub proof fn law_one_piece_more(pieces: Seq<Seq<char>>, piece: Seq<char>, key: Seq<char>)
    ensures
        ({
            let words = split(trimmed(piece), ' ');
            let before = pairs_of(pieces);
            let after = pairs_of(pieces.push(piece));
            if words.len() >= 2 && base64_bytes(words[1]) is Some && valid_utf8(
                base64_bytes(words[1])->0,
            ) {
                value_of(after, key) == if words[0] == key {
                    Some(decode_utf8(base64_bytes(words[1])->0))
                } else {
                    value_of(before, key)
                }
            } else {
                after == before
            }
        }),
{
    let words = split(trimmed(piece), ' ');
    let before = pairs_of(pieces);
    assert(pieces.push(piece).drop_last() =~= pieces);
    if words.len() >= 2 && base64_bytes(words[1]) is Some && valid_utf8(
        base64_bytes(words[1])->0,
    ) {
        law_put(before, words[0], decode_utf8(base64_bytes(words[1])->0), key);
    }
}

/// In metadata that repeats no key, a key has a value if and only if it stands there with it. A key
/// that is set again keeps its place, and a new one comes last.
pub proof fn law_values(pairs: Pairs, key: Seq<char>, value: Seq<char>)
    requires
        forall|i: int, j: int| 0 <= i < j < pairs.len() ==> pairs[i].0 != pairs[j].0,
    ensures
        value_of(pairs, key) == Some(value) <==> pairs.contains((key, value)),
        value_of(pairs, key) is None <==> forall|i: int|
            0 <= i < pairs.len() ==> (#[trigger] pairs[i]).0 != key,
        value_of(pairs, key) is None ==> put(pairs, key, value) == pairs.push((key, value)),
        value_of(pairs, key) is Some ==> put(pairs, key, value).len() == pairs.len() && forall|i: int|
            0 <= i < pairs.len() ==> (#[trigger] put(pairs, key, value)[i]).0 == pairs[i].0,
{
    lemma_position(pairs, key);
    let n = position(pairs, key) as int;
    if n < pairs.len() {
        assert(pairs[n].0 == key);
        if pairs[n].1 == value {
            assert(pairs[n] == (key, value));
        }
        if pairs.contains((key, value)) {
            let i = choose|i: int| 0 <= i < pairs.len() && pairs[i] == (key, value);
            assert(i == n);
        }
    } else if pairs.contains((key, value)) {
        let i = choose|i: int| 0 <= i < pairs.len() && pairs[i] == (key, value);
        assert(pairs[i].0 == key);
    }
}

/// A value that came decoded is set where it is text, and leaves everything otherwise.
pub proof fn law_decoded_values(pairs: Pairs, key: Seq<char>, value: Seq<char>, bytes: Seq<u8>)
    ensures
        with_decoded(pairs, key, Some(encode_utf8(value))) == put(pairs, key, value),
        with_decoded(pairs, key, None) == pairs,
        !valid_utf8(bytes) ==> with_decoded(pairs, key, Some(bytes)) == pairs,
{
    encode_utf8_valid_utf8(value);
    encode_utf8_decode_utf8(value);
}

} // verus!
