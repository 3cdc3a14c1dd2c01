//! What a request for what is known of an upload, or for its bytes, is told.

use vstd::prelude::*;
use vstd::utf8::encode_utf8;

use crate::codec::base64_text;
use crate::config::RustusConf;
use crate::errors::RustusError;
use crate::fields::{
    field_text, header_key, is_field_name, is_field_value, lemma_joined_is_value, lemma_keys_differ,
    lemma_text_reads_back, value_char, Fields,
};
use crate::file_info::{pair_text, pairs_text, Pairs, Upload};
use crate::guarantees::requests::heard;
use crate::protocol::base::get_info::{
    closing_fields, concat_fields, concat_value, known_fields, metadata_fields, part_urls,
    size_fields, LookupState,
};
use crate::protocol::exchange::{ActionModel, EffectModel, EventModel};
use crate::protocol::storing::{reading, run, telling, Around, Stored};
use crate::text::{
    decimal, joined, law_joined_in_two, lemma_joined_holds, signed_decimal,
};

verus! {

broadcast use vstd::string::group_string_axioms;

/// The values of a field, in order.
pub open spec fn values(fields: Fields, name: Seq<char>) -> Seq<Seq<u8>> {
    if fields.contains_key(header_key(name)) {
        fields[header_key(name)]
    } else {
        seq![]
    }
}

/// A field has the value where a condition holds, and none at all otherwise.
pub open spec fn only_where(
    condition: bool,
    fields: Fields,
    name: Seq<char>,
    value: Seq<char>,
) -> bool {
    &&& fields.contains_key(header_key(name)) <==> condition
    &&& condition ==> fields[header_key(name)] == seq![encode_utf8(value)]
}

/// Fields can hold the addresses of the parts of a final upload, and the keys of its metadata.
pub open spec fn fits_fields(conf: RustusConf, upload: Upload) -> bool {
    &&& upload.is_final && upload.parts is Some ==> forall|i: int|
        0 <= i < upload.parts->0.len() ==> is_field_value(
            "/"@ + conf.base_url@ + "/"@ + #[trigger] upload.parts->0[i],
        )
    &&& forall|i: int|
        0 <= i < upload.metadata.len() ==> is_field_value((#[trigger] upload.metadata[i]).0)
}

/// A request for what is known of an upload, from its beginning to its answer.
pub open spec fn looked_up(
    conf: RustusConf,
    id: Seq<char>,
    storage: Seq<char>,
    around: Around,
    stored: Stored,
) -> (Stored, ActionModel) {
    run(telling(conf, id, storage), around, stored, LookupState::Start, EventModel::Begin, 1)
}

/// No two names of the fields that tell of an upload are the same.
proof fn lemma_names()
    ensures
        is_field_name("Upload-Defer-Length"@),
        header_key("Upload-Offset"@) != header_key("Upload-Concat"@),
        header_key("Upload-Offset"@) != header_key("Content-Length"@),
        header_key("Upload-Offset"@) != header_key("Upload-Length"@),
        header_key("Upload-Offset"@) != header_key("Upload-Defer-Length"@),
        header_key("Upload-Offset"@) != header_key("Upload-Metadata"@),
        header_key("Upload-Offset"@) != header_key("Upload-Created"@),
        header_key("Upload-Offset"@) != header_key("Cache-Control"@),
        header_key("Upload-Concat"@) != header_key("Content-Length"@),
        header_key("Upload-Concat"@) != header_key("Upload-Length"@),
        header_key("Upload-Concat"@) != header_key("Upload-Defer-Length"@),
        header_key("Upload-Concat"@) != header_key("Upload-Metadata"@),
        header_key("Upload-Concat"@) != header_key("Upload-Created"@),
        header_key("Upload-Concat"@) != header_key("Cache-Control"@),
        header_key("Content-Length"@) != header_key("Upload-Length"@),
        header_key("Content-Length"@) != header_key("Upload-Defer-Length"@),
        header_key("Content-Length"@) != header_key("Upload-Metadata"@),
        header_key("Content-Length"@) != header_key("Upload-Created"@),
        header_key("Content-Length"@) != header_key("Cache-Control"@),
        header_key("Upload-Length"@) != header_key("Upload-Defer-Length"@),
        header_key("Upload-Length"@) != header_key("Upload-Metadata"@),
        header_key("Upload-Length"@) != header_key("Upload-Created"@),
        header_key("Upload-Length"@) != header_key("Cache-Control"@),
        header_key("Upload-Defer-Length"@) != header_key("Upload-Metadata"@),
        header_key("Upload-Defer-Length"@) != header_key("Upload-Created"@),
        header_key("Upload-Defer-Length"@) != header_key("Cache-Control"@),
        header_key("Upload-Metadata"@) != header_key("Upload-Created"@),
        header_key("Upload-Metadata"@) != header_key("Cache-Control"@),
        header_key("Upload-Created"@) != header_key("Cache-Control"@),
{
    reveal_strlit("Upload-Offset");
    reveal_strlit("Upload-Concat");
    reveal_strlit("Content-Length");
    reveal_strlit("Upload-Length");
    reveal_strlit("Upload-Defer-Length");
    reveal_strlit("Upload-Metadata");
    reveal_strlit("Upload-Created");
    reveal_strlit("Cache-Control");
    lemma_keys_differ("Upload-Offset"@, "Upload-Concat"@, 7);
    lemma_keys_differ("Upload-Offset"@, "Content-Length"@, 0);
    lemma_keys_differ("Upload-Offset"@, "Upload-Length"@, 7);
    lemma_keys_differ("Upload-Offset"@, "Upload-Defer-Length"@, 7);
    lemma_keys_differ("Upload-Offset"@, "Upload-Metadata"@, 7);
    lemma_keys_differ("Upload-Offset"@, "Upload-Created"@, 7);
    lemma_keys_differ("Upload-Offset"@, "Cache-Control"@, 0);
    lemma_keys_differ("Upload-Concat"@, "Content-Length"@, 0);
    lemma_keys_differ("Upload-Concat"@, "Upload-Length"@, 7);
    lemma_keys_differ("Upload-Concat"@, "Upload-Defer-Length"@, 7);
    lemma_keys_differ("Upload-Concat"@, "Upload-Metadata"@, 7);
    lemma_keys_differ("Upload-Concat"@, "Upload-Created"@, 8);
    lemma_keys_differ("Upload-Concat"@, "Cache-Control"@, 1);
    lemma_keys_differ("Content-Length"@, "Upload-Length"@, 0);
    lemma_keys_differ("Content-Length"@, "Upload-Defer-Length"@, 0);
    lemma_keys_differ("Content-Length"@, "Upload-Metadata"@, 0);
    lemma_keys_differ("Content-Length"@, "Upload-Created"@, 0);
    lemma_keys_differ("Content-Length"@, "Cache-Control"@, 1);
    lemma_keys_differ("Upload-Length"@, "Upload-Defer-Length"@, 7);
    lemma_keys_differ("Upload-Length"@, "Upload-Metadata"@, 7);
    lemma_keys_differ("Upload-Length"@, "Upload-Created"@, 7);
    lemma_keys_differ("Upload-Length"@, "Cache-Control"@, 0);
    lemma_keys_differ("Upload-Defer-Length"@, "Upload-Metadata"@, 7);
    lemma_keys_differ("Upload-Defer-Length"@, "Upload-Created"@, 7);
    lemma_keys_differ("Upload-Defer-Length"@, "Cache-Control"@, 0);
    lemma_keys_differ("Upload-Metadata"@, "Upload-Created"@, 7);
    lemma_keys_differ("Upload-Metadata"@, "Cache-Control"@, 0);
    lemma_keys_differ("Upload-Created"@, "Cache-Control"@, 0);
}

/// What the fields of a reply tell of an upload, field by field.
pub open spec fn tells_upload(conf: RustusConf, upload: Upload, fields: Fields) -> bool {
    let offset = decimal(upload.offset as nat);
    let length = decimal(upload.length->0 as nat);
    let partial = if upload.is_partial {
        seq![encode_utf8("partial"@)]
    } else {
        seq![]
    };
    let parts = if upload.is_final && upload.parts is Some {
        seq![encode_utf8(concat_value(conf, upload.parts->0))]
    } else {
        seq![]
    };
    &&& only_where(true, fields, "Upload-Offset"@, offset)
    &&& only_where(upload.length is Some, fields, "Upload-Length"@, length)
    &&& only_where(upload.length is Some, fields, "Content-Length"@, offset)
    &&& only_where(upload.length is None, fields, "Upload-Defer-Length"@, "1"@)
    &&& only_where(
        upload.metadata.len() > 0,
        fields,
        "Upload-Metadata"@,
        pairs_text(upload.metadata),
    )
    &&& only_where(true, fields, "Upload-Created"@, signed_decimal(upload.created_at as int))
    &&& values(fields, "Cache-Control"@) == seq![
        encode_utf8("no-cache"@),
        encode_utf8("no-store"@),
    ]
    &&& values(fields, "Upload-Concat"@) == partial + parts
}

/// A field that tells of an upload.
pub open spec fn is_known_key(key: Seq<char>) -> bool {
    ||| key == header_key("Upload-Offset"@)
    ||| key == header_key("Upload-Length"@)
    ||| key == header_key("Content-Length"@)
    ||| key == header_key("Upload-Defer-Length"@)
    ||| key == header_key("Upload-Metadata"@)
    ||| key == header_key("Upload-Created"@)
    ||| key == header_key("Cache-Control"@)
    ||| key == header_key("Upload-Concat"@)
}

proof fn lemma_tells(conf: RustusConf, info: Upload)
    ensures
        tells_upload(conf, info, known_fields(conf, info)),
        forall|key: Seq<char>| #[trigger]
            known_fields(conf, info).contains_key(key) ==> is_known_key(key),
{
    lemma_names();
    let concat = concat_fields(conf, info);
    let sizes = size_fields(concat, info);
    let metadata = metadata_fields(sizes, info);
    let none = Seq::<Seq<u8>>::empty();
    assert(forall|a: Seq<u8>| #[trigger] none.push(a) =~= seq![a]);
    assert(forall|a: Seq<u8>, b: Seq<u8>| #[trigger] seq![a].push(b) =~= seq![a, b]);
    let fields = closing_fields(metadata, info);
    assert(values(fields, "Upload-Concat"@) =~= values(concat, "Upload-Concat"@));
    assert(values(concat, "Upload-Concat"@) =~= ({
        let partial = if info.is_partial {
            seq![encode_utf8("partial"@)]
        } else {
            seq![]
        };
        let parts = if info.is_final && info.parts is Some {
            seq![encode_utf8(concat_value(conf, info.parts->0))]
        } else {
            seq![]
        };
        partial + parts
    }));
}

/// The value that lists parts can stand in a field if and only if the address of each part can.
proof fn lemma_concat_fits(conf: RustusConf, ids: Seq<Seq<char>>)
    ensures
        is_field_value(concat_value(conf, ids)) <==> forall|i: int|
            0 <= i < ids.len() ==> is_field_value(
                "/"@ + conf.base_url@ + "/"@ + #[trigger] ids[i],
            ),
{
    reveal_strlit("final; ");
    reveal_strlit(" ");
    let urls = part_urls(conf, ids);
    let list = joined(urls, " "@);
    let value = concat_value(conf, ids);
    let n = "final; "@.len() as int;
    if forall|i: int|
        0 <= i < ids.len() ==> is_field_value("/"@ + conf.base_url@ + "/"@ + #[trigger] ids[i]) {
        assert forall|i: int| 0 <= i < urls.len() implies is_field_value(#[trigger] urls[i]) by {
            assert(urls[i] == "/"@ + conf.base_url@ + "/"@ + ids[i]);
        }
        lemma_joined_is_value(urls, " "@);
        assert forall|j: int| 0 <= j < value.len() implies value_char(#[trigger] value[j]) by {
            if j >= n {
                assert(value_char(list[j - n]));
            }
        }
    }
    if is_field_value(value) {
        assert forall|i: int| 0 <= i < ids.len() implies is_field_value(
            "/"@ + conf.base_url@ + "/"@ + #[trigger] ids[i],
        ) by {
            let url = "/"@ + conf.base_url@ + "/"@ + ids[i];
            assert(urls[i] == url);
            assert forall|j: int| 0 <= j < url.len() implies value_char(#[trigger] url[j]) by {
                assert(urls[i].contains(url[j]));
                lemma_joined_holds(urls, " "@, i, url[j]);
                let k = choose|k: int| 0 <= k < list.len() && list[k] == url[j];
                assert(value[k + n] == url[j]);
                assert(value_char(value[k + n]));
            }
        }
    }
}

/// A request for what is known of an upload is told all of it, field by field, and changes nothing.
/// It is refused where the upload is not known, belongs to another storage, or has what no field can
/// hold.
pub proof fn law_lookups(
    conf: RustusConf,
    id: Seq<char>,
    storage: Seq<char>,
    around: Around,
    stored: Stored,
)
    ensures
        ({
            let (after, answer) = looked_up(conf, id, storage, around, stored);
            let upload = stored.infos[id];
            &&& after == stored
            &&& heard(
                telling(conf, id, storage),
                around,
                stored,
                LookupState::Start,
                EventModel::Begin,
                1,
            ) == Seq::<EffectModel>::empty()
            &&& if !stored.infos.contains_key(id) {
                answer == ActionModel::Abort
            } else if upload.storage != storage {
                answer == (ActionModel::Fail { error: RustusError::FileNotFound })
            } else if !fits_fields(conf, upload) {
                answer == (ActionModel::Fail { error: RustusError::Unknown })
            } else {
                &&& answer matches ActionModel::Respond { reply }
                &&& reply.status == 200
                &&& reply.body is None
                &&& tells_upload(conf, upload, reply.fields)
                &&& forall|key: Seq<char>| #[trigger]
                    reply.fields.contains_key(key) ==> is_known_key(key)
            }
        }),
{
    reveal_with_fuel(run, 3);
    reveal_with_fuel(heard, 3);
    let upload = stored.infos[id];
    lemma_tells(conf, upload);
    if let Some(ids) = upload.parts {
        lemma_concat_fits(conf, ids);
    }
}

/// The reply tells that the length comes later if and only if it is not known, whatever the offset.
pub proof fn law_deferral_is_told(
    conf: RustusConf,
    id: Seq<char>,
    storage: Seq<char>,
    around: Around,
    stored: Stored,
)
    ensures
        looked_up(conf, id, storage, around, stored).1 matches ActionModel::Respond { reply } ==> (
        field_text(reply.fields, "Upload-Defer-Length"@) == Some("1"@) <==> stored.infos[id].length
            is None),
{
    law_lookups(conf, id, storage, around, stored);
    lemma_names();
    reveal_strlit("1");
    lemma_text_reads_back("1"@);
    if let ActionModel::Respond { reply } = looked_up(conf, id, storage, around, stored).1 {
        let upload = stored.infos[id];
        assert(only_where(upload.length is None, reply.fields, "Upload-Defer-Length"@, "1"@));
    }
}

/// The list of parts in a reply: one part is at its address, and two lists one behind the other have
/// a space between them.
pub proof fn law_lists_of_parts(
    conf: RustusConf,
    id: Seq<char>,
    a: Seq<Seq<char>>,
    b: Seq<Seq<char>>,
    list_a: Seq<char>,
    list_b: Seq<char>,
)
    requires
        a.len() > 0,
        b.len() > 0,
        concat_value(conf, a) == "final; "@ + list_a,
        concat_value(conf, b) == "final; "@ + list_b,
    ensures
        concat_value(conf, seq![id]) == "final; "@ + "/"@ + conf.base_url@ + "/"@ + id,
        concat_value(conf, a + b) == "final; "@ + list_a + " "@ + list_b,
{
    let n = "final; "@.len() as int;
    let urls_a = part_urls(conf, a);
    let urls_b = part_urls(conf, b);
    assert(concat_value(conf, a).skip(n) =~= joined(urls_a, " "@));
    assert(("final; "@ + list_a).skip(n) =~= list_a);
    assert(concat_value(conf, b).skip(n) =~= joined(urls_b, " "@));
    assert(("final; "@ + list_b).skip(n) =~= list_b);
    assert(part_urls(conf, a + b) =~= urls_a + urls_b);
    let address = "/"@ + conf.base_url@ + "/"@ + id;
    law_joined_in_two(urls_a, urls_b, " "@, address);
    assert(part_urls(conf, seq![id]) =~= seq![address]);
    assert(concat_value(conf, seq![id]) =~= "final; "@ + "/"@ + conf.base_url@ + "/"@ + id);
    assert(concat_value(conf, a + b) =~= "final; "@ + list_a + " "@ + list_b);
}

/// The metadata in a reply: one pair is its key, a space, and its value as base64, and two lists one
/// behind the other have a comma between them.
pub proof fn law_metadata_text(key: Seq<char>, value: Seq<char>, a: Pairs, b: Pairs)
    ensures
        pairs_text(seq![(key, value)]) == key + " "@ + base64_text(encode_utf8(value)),
        a.len() > 0 && b.len() > 0 ==> pairs_text(a + b) == pairs_text(a) + ","@ + pairs_text(b),
{
    let f = |p: (Seq<char>, Seq<char>)| pair_text(p);
    let one = key + " "@ + base64_text(encode_utf8(value));
    assert(seq![(key, value)].map_values(f) =~= seq![one]);
    law_joined_in_two(a.map_values(f), b.map_values(f), ","@, one);
    assert((a + b).map_values(f) =~= a.map_values(f) + b.map_values(f));
}

/// A request for the bytes of an upload is answered with those of the upload of that id, and changes
/// nothing. It is refused where the upload is not known or belongs to another storage.
pub proof fn law_downloads(id: Seq<char>, storage: Seq<char>, around: Around, stored: Stored)
    ensures
        ({
            let (after, answer) = run(
                reading(id, storage),
                around,
                stored,
                LookupState::Start,
                EventModel::Begin,
                1,
            );
            &&& after == stored
            &&& heard(
                reading(id, storage),
                around,
                stored,
                LookupState::Start,
                EventModel::Begin,
                1,
            ) == Seq::<EffectModel>::empty()
            &&& answer == if !stored.infos.contains_key(id) {
                ActionModel::Abort
            } else if stored.infos[id].storage != storage {
                ActionModel::Fail { error: RustusError::FileNotFound }
            } else {
                ActionModel::GetContents { info: stored.infos[id] }
            }
        }),
{
    reveal_with_fuel(run, 3);
    reveal_with_fuel(heard, 3);
}

} // verus!
