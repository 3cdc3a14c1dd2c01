//! How the metadata of an upload is told and read back.

use vstd::prelude::*;
use vstd::utf8::{decode_utf8, encode_utf8, encode_utf8_decode_utf8, encode_utf8_valid_utf8};

use crate::codec::{base64_bytes, base64_char, base64_text};
use crate::fields::{
    field_bytes, field_text, is_field_value, is_visible, lemma_behind_is_visible,
    lemma_joined_is_value, lemma_joined_is_visible, value_char, visible, visible_char, Fields,
};
use crate::file_info::{
    distinct, law_put, lemma_position, pair_text, pairs_text, position, put, Pairs,
};
use crate::protocol::creation::routes::{metadata_in, pairs_of, with_piece};
use crate::text::{
    law_split_joined, lemma_joined_holds, lemma_split_pieces, lemma_split_two, lemma_trimmed,
    lemma_trimmed_stays, split, trimmed, white_space,
};

verus! {

/// A key that stands in a field as it is: at least one character, no space, no comma, and no white
/// space at the front.
pub open spec fn plain_key(key: Seq<char>) -> bool {
    &&& key.len() > 0
    &&& !white_space(key[0])
    &&& !key.contains(' ')
    &&& !key.contains(',')
}

/// Metadata that can be told: plain keys of which none occurs twice, and no empty value.
pub open spec fn tellable(pairs: Pairs) -> bool {
    &&& distinct(pairs)
    &&& forall|i: int|
        0 <= i < pairs.len() ==> plain_key((#[trigger] pairs[i]).0) && pairs[i].1.len() > 0
}

/// The base64 text of the bytes reads back, is made of base64 characters, and is not empty unless
/// the bytes are.
pub open spec fn encodes(bytes: Seq<u8>) -> bool {
    let text = base64_text(bytes);
    &&& base64_bytes(text) == Some(bytes)
    &&& bytes.len() > 0 ==> text.len() > 0
    &&& forall|i: int| 0 <= i < text.len() ==> base64_char(#[trigger] text[i])
}

/// All values of the pairs can be told as base64.
pub open spec fn values_encode(pairs: Pairs) -> bool {
    forall|i: int| 0 <= i < pairs.len() ==> encodes(encode_utf8((#[trigger] pairs[i]).1))
}

/// The text of a pair tells the pair, and holds no comma.
proof fn lemma_pair_reads_back(pairs: Pairs, key: Seq<char>, value: Seq<char>)
    requires
        plain_key(key),
        value.len() > 0,
        encodes(encode_utf8(value)),
    ensures
        with_piece(pairs, pair_text((key, value))) == put(pairs, key, value),
        !pair_text((key, value)).contains(','),
{
    let bytes = encode_utf8(value);
    let text = base64_text(bytes);
    let piece = pair_text((key, value));
    reveal_strlit(" ");
    assert(" "@ =~= seq![' ']);
    encode_utf8_valid_utf8(value);
    encode_utf8_decode_utf8(value);
    assert(bytes.len() > 0) by {
        if bytes.len() == 0 {
            assert(bytes =~= seq![]);
            assert(decode_utf8(bytes).len() == 0);
        }
    }
    assert(piece[0] == key[0]);
    assert(base64_char(text.last()));
    assert(piece.last() == text.last());
    lemma_trimmed_stays(piece);
    assert(!text.contains(' ')) by {
        assert(forall|i: int| 0 <= i < text.len() ==> base64_char(#[trigger] text[i]));
    }
    lemma_split_two(key, ' ', text);
    assert forall|i: int| 0 <= i < piece.len() implies piece[i] != ',' by {
        if i < key.len() {
            assert(key.contains(key[i]));
        } else if i > key.len() {
            assert(base64_char(text[i - key.len() - 1]));
        }
    }
}

/// Metadata that can be told is read back as it is.
pub proof fn lemma_pairs_read_back(pairs: Pairs)
    requires
        pairs.len() > 0,
        tellable(pairs),
        values_encode(pairs),
    ensures
        pairs_of(split(pairs_text(pairs), ',')) == pairs,
{
    let pieces = pairs.map_values(|p: (Seq<char>, Seq<char>)| pair_text(p));
    reveal_strlit(",");
    assert(","@ =~= seq![',']);
    assert forall|i: int| 0 <= i < pieces.len() implies !(#[trigger] pieces[i]).contains(',') by {
        lemma_pair_reads_back(pairs, pairs[i].0, pairs[i].1);
    }
    law_split_joined(pieces, ',');
    lemma_pieces_read_back(pairs);
}

proof fn lemma_pieces_read_back(pairs: Pairs)
    requires
        tellable(pairs),
        values_encode(pairs),
    ensures
        pairs_of(pairs.map_values(|p: (Seq<char>, Seq<char>)| pair_text(p))) == pairs,
    decreases pairs.len(),
{
    let pieces = pairs.map_values(|p: (Seq<char>, Seq<char>)| pair_text(p));
    if pairs.len() > 0 {
        let front = pairs.drop_last();
        let last = pairs.last();
        assert(pieces.drop_last() =~= front.map_values(
            |p: (Seq<char>, Seq<char>)| pair_text(p),
        ));
        assert(forall|i: int| 0 <= i < front.len() ==> #[trigger] front[i] == pairs[i]);
        lemma_pieces_read_back(front);
        assert(pairs[pairs.len() - 1] == last);
        lemma_pair_reads_back(front, last.0, last.1);
        lemma_position(front, last.0);
        assert(position(front, last.0) == front.len());
        assert(front.push(last) =~= pairs);
    }
}

/// Pairs with plain keys, none of them twice.
pub open spec fn plain(pairs: Pairs) -> bool {
    &&& distinct(pairs)
    &&& forall|i: int| 0 <= i < pairs.len() ==> plain_key((#[trigger] pairs[i]).0)
}

/// Whatever a field tells, the metadata has plain keys, and none of them twice.
proof fn lemma_metadata_is_plain(text: Seq<char>)
    ensures
        plain(pairs_of(split(text, ','))),
{
    lemma_split_pieces(text, ',');
    lemma_pairs_of_plain(split(text, ','));
}

proof fn lemma_pairs_of_plain(pieces: Seq<Seq<char>>)
    requires
        forall|i: int| 0 <= i < pieces.len() ==> !(#[trigger] pieces[i]).contains(','),
    ensures
        plain(pairs_of(pieces)),
    decreases pieces.len(),
{
    if pieces.len() > 0 {
        let front = pieces.drop_last();
        assert(forall|i: int| 0 <= i < front.len() ==> #[trigger] front[i] == pieces[i]);
        lemma_pairs_of_plain(front);
        assert(pieces[pieces.len() - 1] == pieces.last());
        let piece = trimmed(pieces.last());
        let words = split(piece, ' ');
        lemma_trimmed(pieces.last());
        lemma_split_pieces(piece, ' ');
        let before = pairs_of(front);
        let after = pairs_of(pieces);
        if after != before {
            let key = words[0];
            let value = choose|value: Seq<char>| after == put(before, key, value);
            assert(after == put(before, key, value));
            law_put(before, key, value, key);
            assert(piece.len() > 0);
            assert(key[0] == piece[0]);
            assert(!key.contains(',')) by {
                if key.contains(',') {
                    assert(piece.contains(','));
                }
            }
            assert(plain_key(key));
            assert forall|i: int| 0 <= i < after.len() implies plain_key((#[trigger] after[i]).0) by {
                assert(after[i].0 == key || after[i] == before[i]);
            }
        }
    }
}

/// All keys are visible.
pub open spec fn visible_keys(pairs: Pairs) -> bool {
    forall|i: int| 0 <= i < pairs.len() ==> is_visible((#[trigger] pairs[i]).0)
}

/// Metadata with visible keys makes a visible text.
pub proof fn lemma_pairs_are_visible(pairs: Pairs)
    requires
        visible_keys(pairs),
        values_encode(pairs),
    ensures
        is_visible(pairs_text(pairs)),
{
    let pieces = pairs.map_values(|p: (Seq<char>, Seq<char>)| pair_text(p));
    reveal_strlit(",");
    reveal_strlit(" ");
    assert forall|i: int| 0 <= i < pieces.len() implies is_visible(#[trigger] pieces[i]) by {
        let text = base64_text(encode_utf8(pairs[i].1));
        assert forall|j: int| 0 <= j < text.len() implies visible_char(#[trigger] text[j]) by {
            assert(base64_char(text[j]));
        }
        lemma_behind_is_visible(pairs[i].0, " "@);
        lemma_behind_is_visible(pairs[i].0 + " "@, text);
    }
    lemma_joined_is_visible(pieces, ","@);
}

/// Every key can stand in a field value.
pub open spec fn keys_are_values(pairs: Pairs) -> bool {
    forall|i: int| 0 <= i < pairs.len() ==> is_field_value((#[trigger] pairs[i]).0)
}

/// Metadata makes a field value if and only if all of its keys can stand in one.
pub proof fn lemma_pairs_are_value(pairs: Pairs)
    requires
        values_encode(pairs),
    ensures
        is_field_value(pairs_text(pairs)) == keys_are_values(pairs),
{
    let pieces = pairs.map_values(|p: (Seq<char>, Seq<char>)| pair_text(p));
    let whole = pairs_text(pairs);
    reveal_strlit(",");
    reveal_strlit(" ");
    if keys_are_values(pairs) {
        assert forall|i: int| 0 <= i < pieces.len() implies is_field_value(#[trigger] pieces[i]) by {
            let key = pairs[i].0;
            let text = base64_text(encode_utf8(pairs[i].1));
            assert forall|j: int| 0 <= j < pieces[i].len() implies value_char(
                #[trigger] pieces[i][j],
            ) by {
                if j < key.len() {
                    assert(value_char(key[j]));
                } else if j > key.len() {
                    assert(base64_char(text[j - key.len() - 1]));
                }
            }
        }
        lemma_joined_is_value(pieces, ","@);
    }
    if is_field_value(whole) {
        assert forall|i: int| 0 <= i < pairs.len() implies is_field_value(
            (#[trigger] pairs[i]).0,
        ) by {
            let key = pairs[i].0;
            assert forall|j: int| 0 <= j < key.len() implies value_char(#[trigger] key[j]) by {
                assert(pieces[i][j] == key[j]);
                assert(pieces[i].contains(key[j]));
                lemma_joined_holds(pieces, ","@, i, key[j]);
                let k = choose|k: int| 0 <= k < whole.len() && whole[k] == key[j];
                assert(value_char(whole[k]));
            }
        }
    }
}

/// The keys in a visible text are visible.
proof fn lemma_metadata_is_visible(text: Seq<char>)
    requires
        is_visible(text),
    ensures
        visible_keys(pairs_of(split(text, ','))),
{
    let pieces = split(text, ',');
    lemma_split_pieces(text, ',');
    assert forall|i: int, c: char|
        0 <= i < pieces.len() && #[trigger] pieces[i].contains(c) implies visible_char(c) by {
        assert(text.contains(c));
        let j = choose|j: int| 0 <= j < text.len() && text[j] == c;
        assert(visible_char(text[j]));
    }
    lemma_pairs_of_visible(pieces);
}

proof fn lemma_pairs_of_visible(pieces: Seq<Seq<char>>)
    requires
        forall|i: int, c: char|
            0 <= i < pieces.len() && #[trigger] pieces[i].contains(c) ==> visible_char(c),
    ensures
        visible_keys(pairs_of(pieces)),
    decreases pieces.len(),
{
    if pieces.len() > 0 {
        let front = pieces.drop_last();
        assert forall|i: int, c: char|
            0 <= i < front.len() && #[trigger] front[i].contains(c) implies visible_char(c) by {
            assert(pieces[i].contains(c));
        }
        lemma_pairs_of_visible(front);
        let last = pieces[pieces.len() - 1];
        let piece = trimmed(last);
        let words = split(piece, ' ');
        lemma_trimmed(last);
        lemma_split_pieces(piece, ' ');
        let before = pairs_of(front);
        let after = pairs_of(pieces);
        if after != before {
            let key = words[0];
            let value = choose|value: Seq<char>| after == put(before, key, value);
            assert(after == put(before, key, value));
            lemma_position(before, key);
            assert forall|j: int| 0 <= j < key.len() implies visible_char(#[trigger] key[j]) by {
                assert(key.contains(key[j]));
                assert(piece.contains(key[j]));
                assert(last.contains(key[j]));
            }
            assert forall|i: int| 0 <= i < after.len() implies is_visible((#[trigger] after[i]).0) by {
                assert(after[i].0 == key || after[i] == before[i]);
            }
        }
    }
}

/// Whatever a request tells, its metadata can be told again unless a value is empty.
pub proof fn law_metadata_can_be_told(fields: Fields)
    ensures
        metadata_in(fields) matches Some(pairs) ==> {
            &&& visible_keys(pairs)
            &&& plain(pairs)
            &&& (forall|i: int| 0 <= i < pairs.len() ==> (#[trigger] pairs[i]).1.len() > 0)
                ==> tellable(pairs)
        },
{
    if let Some(text) = field_text(fields, "Upload-Metadata"@) {
        let bytes = field_bytes(fields, "Upload-Metadata"@)->0;
        assert forall|i: int| 0 <= i < text.len() implies visible_char(#[trigger] text[i]) by {
            assert(visible(bytes[i]));
        }
        lemma_metadata_is_plain(text);
        lemma_metadata_is_visible(text);
    }
}

} // verus!
