//! What is known of an upload.

use vstd::prelude::*;
use vstd::utf8::encode_utf8;

use crate::codec::{base64_text, encode_base64};
use crate::protocol::creation::metadata::{
    encodes, lemma_pairs_read_back, tellable, values_encode,
};
use crate::protocol::creation::routes::pairs_of;
use crate::text::{join_text, joined, same, split, texts};

verus! {

broadcast use vstd::string::group_string_axioms;

/// Key and value pairs in the order in which the keys first came.
pub type Pairs = Seq<(Seq<char>, Seq<char>)>;

/// Where `key` stands in the pairs; their number where it does not occur.
pub open spec fn position(pairs: Pairs, key: Seq<char>) -> nat
    decreases pairs.len(),
{
    if pairs.len() == 0 || pairs[0].0 == key {
        0
    } else {
        1 + position(pairs.drop_first(), key)
    }
}

/// The value of `key`, where it occurs.
pub open spec fn value_of(pairs: Pairs, key: Seq<char>) -> Option<Seq<char>> {
    let i = position(pairs, key) as int;
    if i < pairs.len() {
        Some(pairs[i].1)
    } else {
        None
    }
}

/// The pairs with `value` as the value of `key`.
pub open spec fn put(pairs: Pairs, key: Seq<char>, value: Seq<char>) -> Pairs {
    let i = position(pairs, key) as int;
    if i < pairs.len() {
        pairs.update(i, (key, value))
    } else {
        pairs.push((key, value))
    }
}

/// No key occurs twice.
pub open spec fn distinct(pairs: Pairs) -> bool {
    forall|i: int, j: int| 0 <= i < j < pairs.len() ==> pairs[i].0 != pairs[j].0
}

pub proof fn lemma_position(pairs: Pairs, key: Seq<char>)
    ensures
        position(pairs, key) <= pairs.len(),
        forall|j: int| 0 <= j < position(pairs, key) ==> pairs[j].0 != key,
        position(pairs, key) < pairs.len() ==> pairs[position(pairs, key) as int].0 == key,
    decreases pairs.len(),
{
    if pairs.len() > 0 && pairs[0].0 != key {
        let rest = pairs.drop_first();
        lemma_position(rest, key);
        assert forall|j: int| 0 <= j < position(pairs, key) implies pairs[j].0 != key by {
            if j > 0 {
                assert(pairs[j] == rest[j - 1]);
            }
        }
    }
}

proof fn lemma_position_is(pairs: Pairs, key: Seq<char>, i: int)
    requires
        0 <= i <= pairs.len(),
        forall|j: int| 0 <= j < i ==> pairs[j].0 != key,
        i < pairs.len() ==> pairs[i].0 == key,
    ensures
        position(pairs, key) == i,
{
    lemma_position(pairs, key);
}

/// Setting the value of a key gives that value back for the key, leaves the values of the other
/// keys, and repeats no key.
pub proof fn law_put(pairs: Pairs, key: Seq<char>, value: Seq<char>, other: Seq<char>)
    ensures
        value_of(put(pairs, key, value), key) == Some(value),
        other != key ==> value_of(put(pairs, key, value), other) == value_of(pairs, other),
        distinct(pairs) ==> distinct(put(pairs, key, value)),
{
    let after = put(pairs, key, value);
    lemma_position(pairs, key);
    lemma_position(pairs, other);
    lemma_position_is(after, key, position(pairs, key) as int);
    if other != key {
        let i = position(pairs, other) as int;
        if i < pairs.len() {
            assert(after[i] == pairs[i]);
            assert forall|j: int| 0 <= j < i implies after[j].0 != other by {
                assert(j == position(pairs, key) || after[j] == pairs[j]);
            }
            lemma_position_is(after, other, i);
        } else {
            assert forall|j: int| 0 <= j < after.len() implies after[j].0 != other by {
                assert(j == position(pairs, key) || after[j] == pairs[j]);
            }
            lemma_position_is(after, other, after.len() as int);
        }
    }
}

/// The metadata of an upload: texts that the client chose, by key.
#[derive(Debug)]
pub struct Metadata {
    entries: Vec<(String, String)>,
}

impl View for Metadata {
    type V = Pairs;

    closed spec fn view(&self) -> Pairs {
        self.entries@.map_values(|e: (String, String)| (e.0@, e.1@))
    }
}

impl Metadata {
    /// No key occurs twice.
    pub open spec fn wf(self) -> bool {
        distinct(self@)
    }

    pub fn new() -> (r: Self)
        ensures
            r@ == Pairs::empty(),
            r.wf(),
    {
        let r = Metadata { entries: Vec::new() };
        assert(r@ =~= Pairs::empty());
        r
    }

    /// Where `key` stands among the entries.
    fn find(&self, key: &str) -> (i: usize)
        ensures
            i == position(self@, key@),
            i <= self.entries@.len(),
    {
        let mut i: usize = 0;
        while i < self.entries.len()
            invariant
                i <= self.entries@.len(),
                forall|j: int| 0 <= j < i ==> self@[j].0 != key@,
            decreases self.entries@.len() - i,
        {
            if same(self.entries[i].0.as_str(), key) {
                assert(self@[i as int].0 == key@);
                proof {
                    lemma_position_is(self@, key@, i as int);
                }
                return i;
            }
            i = i + 1;
        }
        proof {
            lemma_position_is(self@, key@, i as int);
        }
        i
    }

    /// Sets the value of `key`.
    pub fn insert(&mut self, key: String, value: String)
        ensures
            final(self)@ == put(old(self)@, key@, value@),
            old(self).wf() ==> final(self).wf(),
    {
        proof {
            law_put(self@, key@, value@, key@);
        }
        let ghost before = self@;
        let i = self.find(key.as_str());
        let ghost pair = (key@, value@);
        if i < self.entries.len() {
            self.entries.set(i, (key, value));
            assert(self@ =~= before.update(i as int, pair));
        } else {
            self.entries.push((key, value));
            assert(self@ =~= before.push(pair));
        }
    }

    /// The value of `key`.
    pub fn get(&self, key: &str) -> (value: Option<&str>)
        ensures
            match value {
                Some(v) => value_of(self@, key@) == Some(v@),
                None => value_of(self@, key@) is None,
            },
    {
        let i = self.find(key);
        if i < self.entries.len() {
            Some(self.entries[i].1.as_str())
        } else {
            None
        }
    }

    /// How many keys there are.
    pub fn len(&self) -> (n: usize)
        ensures
            n == self@.len(),
    {
        self.entries.len()
    }

    /// The key and the value at a position.
    pub fn entry(&self, i: usize) -> (e: (&str, &str))
        requires
            i < self@.len(),
        ensures
            (e.0@, e.1@) == self@[i as int],
    {
        (self.entries[i].0.as_str(), self.entries[i].1.as_str())
    }
}

impl Clone for Metadata {
    fn clone(&self) -> (r: Self)
        ensures
            r@ == self@,
    {
        let mut entries: Vec<(String, String)> = Vec::new();
        for i in 0..self.entries.len()
            invariant
                entries@ =~= self.entries@.take(i as int),
        {
            entries.push((self.entries[i].0.clone(), self.entries[i].1.clone()));
        }
        assert(entries@ =~= self.entries@);
        Metadata { entries }
    }
}

/// A metadata pair as it stands in a header: the key, a space, and the value as base64.
pub open spec fn pair_text(pair: (Seq<char>, Seq<char>)) -> Seq<char> {
    pair.0 + " "@ + base64_text(encode_utf8(pair.1))
}

/// The pairs as they stand in a header, with commas between them.
pub open spec fn pairs_text(pairs: Pairs) -> Seq<char> {
    joined(pairs.map_values(|p: (Seq<char>, Seq<char>)| pair_text(p)), ","@)
}

/// The model of an upload.
#[verifier::ext_equal]
pub struct Upload {
    pub id: Seq<char>,
    pub offset: usize,
    pub length: Option<usize>,
    pub path: Option<Seq<char>>,
    pub created_at: i64,
    pub deferred_size: bool,
    pub is_partial: bool,
    pub is_final: bool,
    pub parts: Option<Seq<Seq<char>>>,
    pub storage: Seq<char>,
    pub metadata: Pairs,
}

impl Upload {
    /// All bytes of the upload have come.
    pub open spec fn complete(self) -> bool {
        self.length == Some(self.offset)
    }
}

/// What is known of an upload.
#[derive(Debug)]
pub struct FileInfo {
    pub id: String,
    /// How many bytes have come.
    pub offset: usize,
    /// How many bytes there will be, where that is known.
    pub length: Option<usize>,
    /// Where the data storage keeps the bytes.
    pub path: Option<String>,
    /// When the upload was created, in seconds since the start of 1970.
    pub created_at: i64,
    /// The length will be told later.
    pub deferred_size: bool,
    /// The upload is meant to become a part of a final one.
    pub is_partial: bool,
    /// The upload is the concatenation of others.
    pub is_final: bool,
    /// The ids of the uploads that a final one is made of.
    pub parts: Option<Vec<String>>,
    /// The name of the data storage that holds the bytes.
    pub storage: String,
    pub metadata: Metadata,
}

/// The text of an optional string.
pub open spec fn text_option(s: Option<String>) -> Option<Seq<char>> {
    match s {
        Some(t) => Some(t@),
        None => None,
    }
}

impl View for FileInfo {
    type V = Upload;

    open spec fn view(&self) -> Upload {
        Upload {
            id: self.id@,
            offset: self.offset,
            length: self.length,
            path: text_option(self.path),
            created_at: self.created_at,
            deferred_size: self.deferred_size,
            is_partial: self.is_partial,
            is_final: self.is_final,
            parts: match self.parts {
                Some(parts) => Some(texts(parts@)),
                None => None,
            },
            storage: self.storage@,
            metadata: self.metadata@,
        }
    }
}

/// Strings with the same texts.
pub fn copy_strings(strings: &Vec<String>) -> (r: Vec<String>)
    ensures
        texts(r@) == texts(strings@),
{
    let mut r: Vec<String> = Vec::new();
    for i in 0..strings.len()
        invariant
            texts(r@) =~= texts(strings@).take(i as int),
    {
        let ghost before = texts(r@);
        r.push(strings[i].clone());
        assert(texts(r@) =~= before.push(strings@[i as int]@));
    }
    assert(texts(r@) =~= texts(strings@));
    r
}

impl Clone for FileInfo {
    fn clone(&self) -> (r: Self)
        ensures
            r@ == self@,
    {
        FileInfo {
            id: self.id.clone(),
            offset: self.offset,
            length: self.length,
            path: match &self.path {
                Some(path) => Some(path.clone()),
                None => None,
            },
            created_at: self.created_at,
            deferred_size: self.deferred_size,
            is_partial: self.is_partial,
            is_final: self.is_final,
            parts: match &self.parts {
                Some(parts) => Some(copy_strings(parts)),
                None => None,
            },
            storage: self.storage.clone(),
            metadata: self.metadata.clone(),
        }
    }
}

/// A new upload: no byte has come, and the length is deferred where it is not known.
pub open spec fn new_upload(
    id: Seq<char>,
    length: Option<usize>,
    path: Option<Seq<char>>,
    storage: Seq<char>,
    metadata: Option<Pairs>,
    created_at: i64,
) -> Upload {
    Upload {
        id,
        offset: 0,
        length,
        path,
        created_at,
        deferred_size: length is None,
        is_partial: false,
        is_final: false,
        parts: None,
        storage,
        metadata: match metadata {
            Some(pairs) => pairs,
            None => Pairs::empty(),
        },
    }
}

/// The pairs of optional metadata.
pub open spec fn pairs_option(metadata: Option<Metadata>) -> Option<Pairs> {
    match metadata {
        Some(m) => Some(m@),
        None => None,
    }
}

impl FileInfo {
    /// A new upload: no byte has come, and the length is deferred where it is not known.
    pub fn new(
        file_id: &str,
        length: Option<usize>,
        path: Option<String>,
        storage: String,
        initial_metadata: Option<Metadata>,
        created_at: i64,
    ) -> (r: FileInfo)
        ensures
            r@ == new_upload(
                file_id@,
                length,
                text_option(path),
                storage@,
                pairs_option(initial_metadata),
                created_at,
            ),
    {
        FileInfo {
            id: file_id.to_owned(),
            offset: 0,
            length,
            path,
            created_at,
            deferred_size: length.is_none(),
            is_partial: false,
            is_final: false,
            parts: None,
            storage,
            metadata: match initial_metadata {
                Some(metadata) => metadata,
                None => Metadata::new(),
            },
        }
    }

    /// The metadata as it stands in a header; nothing where there is none.
    ///
    /// A request with this header tells the same metadata, where metadata can be told.
    pub fn get_metadata_string(&self) -> (r: Option<String>)
        ensures
            match r {
                Some(s) => {
                    &&& self.metadata@.len() > 0
                    &&& s@ == pairs_text(self.metadata@)
                    &&& values_encode(self.metadata@)
                    &&& tellable(self.metadata@) ==> pairs_of(split(s@, ',')) == self.metadata@
                },
                None => self.metadata@.len() == 0,
            },
    {
        let n = self.metadata.len();
        if n == 0 {
            return None;
        }
        let mut pairs: Vec<String> = Vec::new();
        let ghost all = self.metadata@.map_values(|p: (Seq<char>, Seq<char>)| pair_text(p));
        for i in 0..n
            invariant
                n == self.metadata@.len(),
                all == self.metadata@.map_values(|p: (Seq<char>, Seq<char>)| pair_text(p)),
                texts(pairs@) =~= all.take(i as int),
                forall|j: int|
                    0 <= j < i ==> encodes(encode_utf8((#[trigger] self.metadata@[j]).1)),
        {
            let (key, value) = self.metadata.entry(i);
            let pair = key.to_owned().concat(" ").concat(encode_base64(value.as_bytes()).as_str());
            assert(pair@ == pair_text(self.metadata@[i as int]));
            let ghost before = texts(pairs@);
            pairs.push(pair);
            assert(texts(pairs@) =~= before.push(pair@));
        }
        assert(texts(pairs@) =~= all);
        proof {
            if tellable(self.metadata@) {
                lemma_pairs_read_back(self.metadata@);
            }
        }
        Some(join_text(&pairs, ","))
    }
}

} // verus!
