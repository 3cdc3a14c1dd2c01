//! What holds of the server as a whole.

use vstd::prelude::*;

use crate::codec::{hex_char, is_random_id};
use crate::config::RustusConf;
use crate::fields::{
    field_text, header_key, is_field_name, is_field_value, is_visible, law_append_reads_back,
    law_insert_reads_back, lemma_decimal_is_visible, lemma_joined_is_visible, lemma_keys_differ,
    no_fields, with_more, with_value,
};
use crate::file_info::{pairs_text, Upload};
use crate::protocol::base::get_info::{
    closing_fields, concat_fields, concat_value, info_turn, known_fields, metadata_fields,
    part_urls, size_fields, LookupState,
};
use crate::protocol::base::server_info::{extension_names, info_fields};
use crate::protocol::base::write_bytes::{write_turn, written_reply, WriteModel};
use crate::protocol::creation::routes::{
    create_turn, created_reply, id_in, ids_in, parts_in, upload_url, CreateModel,
};
use crate::protocol::exchange::{turn, ActionModel, EventModel, Request};
use crate::protocol::getting::routes::get_turn;
use crate::protocol::reading::{asks_final, length_in, offset_in};
use crate::protocol::storing::{refuses, takes_write, written, Around};
use crate::protocol::termination::routes::{terminate_turn, TerminateModel};
use crate::text::{
    decimal, joined, law_decimal_reads_back, law_split_joined, lemma_split_alone, lemma_split_last,
    lemma_trimmed, lemma_trimmed_keeps, lemma_trimmed_stays, split, trimmed, white_space,
};

verus! {

broadcast use vstd::string::group_string_axioms;

/// The offset in the reply to a write can be sent as the offset of the next write.
pub proof fn law_written_offset_reads_back(info: Upload)
    ensures
        offset_in(written_reply(info).fields) == Some(info.offset),
{
    reveal_strlit("Upload-Offset");
    reveal_strlit("Cache-Control");
    let n = info.offset as nat;
    lemma_decimal_is_visible(n);
    law_decimal_reads_back(n, usize::MAX as nat);
    lemma_keys_differ("Upload-Offset"@, "Cache-Control"@, 0);
    let fields = with_value(no_fields(), "Upload-Offset"@, decimal(n));
    law_insert_reads_back(no_fields(), "Upload-Offset"@, decimal(n), "Upload-Offset"@);
    assert(field_text(written_reply(info).fields, "Upload-Offset"@) == field_text(
        fields,
        "Upload-Offset"@,
    ));
}

/// The offset in the reply to a creation can be sent as the offset of the first write.
pub proof fn law_created_offset_reads_back(conf: RustusConf, info: Upload)
    requires
        is_field_value(upload_url(conf, info.id)),
    ensures
        offset_in(created_reply(conf, info).fields) == Some(info.offset),
{
    reveal_strlit("Upload-Offset");
    let n = info.offset as nat;
    lemma_decimal_is_visible(n);
    law_decimal_reads_back(n, usize::MAX as nat);
    let fields = with_value(no_fields(), "Location"@, upload_url(conf, info.id));
    law_insert_reads_back(fields, "Upload-Offset"@, decimal(n), "Upload-Offset"@);
}

/// These texts name fields, and no two of them the same.
proof fn lemma_known_names_differ()
    ensures
        is_field_name("Upload-Offset"@),
        is_field_name("Upload-Length"@),
        is_field_name("Upload-Metadata"@),
        is_field_name("Upload-Concat"@),
        header_key("Upload-Offset"@) != header_key("Upload-Concat"@),
        header_key("Upload-Offset"@) != header_key("Content-Length"@),
        header_key("Upload-Offset"@) != header_key("Upload-Length"@),
        header_key("Upload-Offset"@) != header_key("Upload-Defer-Length"@),
        header_key("Upload-Offset"@) != header_key("Upload-Metadata"@),
        header_key("Upload-Offset"@) != header_key("Upload-Created"@),
        header_key("Upload-Offset"@) != header_key("Cache-Control"@),
        header_key("Upload-Length"@) != header_key("Upload-Concat"@),
        header_key("Upload-Length"@) != header_key("Content-Length"@),
        header_key("Upload-Length"@) != header_key("Upload-Defer-Length"@),
        header_key("Upload-Length"@) != header_key("Upload-Metadata"@),
        header_key("Upload-Length"@) != header_key("Upload-Created"@),
        header_key("Upload-Length"@) != header_key("Cache-Control"@),
        header_key("Upload-Metadata"@) != header_key("Upload-Concat"@),
        header_key("Upload-Metadata"@) != header_key("Content-Length"@),
        header_key("Upload-Metadata"@) != header_key("Upload-Defer-Length"@),
        header_key("Upload-Metadata"@) != header_key("Upload-Created"@),
        header_key("Upload-Metadata"@) != header_key("Cache-Control"@),
        header_key("Upload-Concat"@) != header_key("Content-Length"@),
        header_key("Upload-Concat"@) != header_key("Upload-Defer-Length"@),
        header_key("Upload-Concat"@) != header_key("Upload-Created"@),
        header_key("Upload-Concat"@) != header_key("Cache-Control"@),
{
    reveal_strlit("Upload-Offset");
    reveal_strlit("Upload-Concat");
    reveal_strlit("Content-Length");
    reveal_strlit("Upload-Length");
    reveal_strlit("Upload-Defer-Length");
    reveal_strlit("Upload-Metadata");
    reveal_strlit("Upload-Created");
    reveal_strlit("Cache-Control");
    lemma_keys_differ("Upload-Offset"@, "Upload-Concat"@, 7);
    lemma_keys_differ("Upload-Offset"@, "Content-Length"@, 0);
    lemma_keys_differ("Upload-Offset"@, "Upload-Length"@, 7);
    lemma_keys_differ("Upload-Offset"@, "Upload-Defer-Length"@, 7);
    lemma_keys_differ("Upload-Offset"@, "Upload-Metadata"@, 7);
    lemma_keys_differ("Upload-Offset"@, "Upload-Created"@, 7);
    lemma_keys_differ("Upload-Offset"@, "Cache-Control"@, 0);
    lemma_keys_differ("Upload-Length"@, "Upload-Concat"@, 7);
    lemma_keys_differ("Upload-Length"@, "Content-Length"@, 0);
    lemma_keys_differ("Upload-Length"@, "Upload-Defer-Length"@, 7);
    lemma_keys_differ("Upload-Length"@, "Upload-Metadata"@, 7);
    lemma_keys_differ("Upload-Length"@, "Upload-Created"@, 7);
    lemma_keys_differ("Upload-Length"@, "Cache-Control"@, 0);
    lemma_keys_differ("Upload-Metadata"@, "Upload-Concat"@, 7);
    lemma_keys_differ("Upload-Metadata"@, "Content-Length"@, 0);
    lemma_keys_differ("Upload-Metadata"@, "Upload-Defer-Length"@, 7);
    lemma_keys_differ("Upload-Metadata"@, "Upload-Created"@, 7);
    lemma_keys_differ("Upload-Metadata"@, "Cache-Control"@, 0);
    lemma_keys_differ("Upload-Concat"@, "Content-Length"@, 0);
    lemma_keys_differ("Upload-Concat"@, "Upload-Defer-Length"@, 7);
    lemma_keys_differ("Upload-Concat"@, "Upload-Created"@, 8);
    lemma_keys_differ("Upload-Concat"@, "Cache-Control"@, 0);
}

/// The reply that tells what is known of an upload tells its offset and its length as requests tell
/// them. A length that is not known is not told.
pub proof fn law_known_sizes_read_back(conf: RustusConf, info: Upload)
    ensures
        offset_in(known_fields(conf, info)) == Some(info.offset),
        length_in(known_fields(conf, info)) == info.length,
{
    lemma_known_names_differ();
    let n = info.offset as nat;
    lemma_decimal_is_visible(n);
    law_decimal_reads_back(n, usize::MAX as nat);
    let concat = concat_fields(conf, info);
    let sizes = size_fields(concat, info);
    let offset = with_more(concat, "Upload-Offset"@, decimal(n));
    law_append_reads_back(concat, "Upload-Offset"@, decimal(n), "Upload-Length"@);
    assert(field_text(offset, "Upload-Offset"@) == Some(decimal(n)));
    assert(field_text(sizes, "Upload-Offset"@) == Some(decimal(n)));
    match info.length {
        Some(length) => {
            lemma_decimal_is_visible(length as nat);
            law_decimal_reads_back(length as nat, usize::MAX as nat);
            let before = with_more(offset, "Content-Length"@, decimal(n));
            law_append_reads_back(
                before,
                "Upload-Length"@,
                decimal(length as nat),
                "Upload-Length"@,
            );
        },
        None => {
            assert(field_text(sizes, "Upload-Length"@) is None);
        },
    }
    let metadata = metadata_fields(sizes, info);
    assert(field_text(metadata, "Upload-Offset"@) == field_text(sizes, "Upload-Offset"@));
    assert(field_text(metadata, "Upload-Length"@) == field_text(sizes, "Upload-Length"@));
    let known = closing_fields(metadata, info);
    assert(field_text(known, "Upload-Offset"@) == field_text(metadata, "Upload-Offset"@));
    assert(field_text(known, "Upload-Length"@) == field_text(metadata, "Upload-Length"@));
}

/// The reply that tells what is known of an upload tells its metadata, where it has any and that
/// makes a visible text.
pub proof fn law_known_metadata_reads_back(conf: RustusConf, info: Upload)
    requires
        info.metadata.len() > 0,
        is_visible(pairs_text(info.metadata)),
    ensures
        field_text(known_fields(conf, info), "Upload-Metadata"@) == Some(pairs_text(info.metadata)),
{
    lemma_known_names_differ();
    let name = "Upload-Metadata"@;
    let sizes = size_fields(concat_fields(conf, info), info);
    assert(!sizes.contains_key(header_key(name)));
    law_append_reads_back(sizes, name, pairs_text(info.metadata), name);
    let metadata = metadata_fields(sizes, info);
    assert(field_text(closing_fields(metadata, info), name) == field_text(metadata, name));
}

/// An id that can stand at the end of an address.
pub open spec fn addressable(id: Seq<char>) -> bool {
    &&& id.len() > 0
    &&& !id.contains(' ')
    &&& !id.contains('/')
    &&& !white_space(id.last())
}

/// A random id can stand at the end of an address.
pub proof fn law_random_id_is_addressable(id: Seq<char>)
    requires
        is_random_id(id),
    ensures
        addressable(id),
{
    assert(forall|i: int| 0 <= i < 36 ==> #[trigger] id[i] == '-' || hex_char(id[i]));
    assert(id[35] == id.last());
}

/// The address that the reply to a creation tells ends in the id of the upload.
pub proof fn law_location_ends_in_id(conf: RustusConf, id: Seq<char>)
    requires
        addressable(id),
    ensures
        split(upload_url(conf, id), '/').last() == id,
        id_in(upload_url(conf, id)) == id,
{
    reveal_strlit("/");
    let url = upload_url(conf, id);
    let front = "/"@ + conf.base_url@;
    assert("/"@ =~= seq!['/']);
    assert(url =~= front + seq!['/'] + id);
    lemma_split_last(front, '/', id);
    assert(url[0] == '/');
    assert(url.last() == id.last());
    lemma_trimmed_stays(url);
}

proof fn lemma_joined_behind_nothing(parts: Seq<Seq<char>>, sep: Seq<char>)
    requires
        parts.len() > 0,
    ensures
        joined(seq![Seq::<char>::empty()] + parts, sep) == sep + joined(parts, sep),
    decreases parts.len(),
{
    let all = seq![Seq::<char>::empty()] + parts;
    assert(all.drop_last() =~= seq![Seq::<char>::empty()] + parts.drop_last());
    if parts.len() > 1 {
        lemma_joined_behind_nothing(parts.drop_last(), sep);
    } else {
        assert(all.drop_last() =~= seq![Seq::<char>::empty()]);
        assert(joined(all.drop_last(), sep) == Seq::<char>::empty());
    }
    assert(all.last() == parts.last());
    assert(joined(all, sep) =~= sep + joined(parts, sep));
}

proof fn lemma_ids_in_urls(conf: RustusConf, ids: Seq<Seq<char>>)
    requires
        forall|i: int| 0 <= i < ids.len() ==> addressable(#[trigger] ids[i]),
    ensures
        ids_in(seq![Seq::<char>::empty()] + part_urls(conf, ids)) == ids,
    decreases ids.len(),
{
    let urls = seq![Seq::<char>::empty()] + part_urls(conf, ids);
    if ids.len() == 0 {
        let blank = Seq::<char>::empty();
        assert(urls =~= seq![blank]);
        assert(urls.drop_last() =~= Seq::empty());
        lemma_trimmed(blank);
        assert(trimmed(blank) =~= blank);
        lemma_split_alone(blank, '/');
        reveal_with_fuel(ids_in, 2);
        assert(ids_in(urls) =~= ids);
    } else {
        let front = ids.drop_last();
        assert(forall|i: int| 0 <= i < front.len() ==> #[trigger] front[i] == ids[i]);
        lemma_ids_in_urls(conf, front);
        assert(urls.drop_last() =~= seq![Seq::<char>::empty()] + part_urls(conf, front));
        let id = ids[ids.len() - 1];
        law_location_ends_in_id(conf, id);
        assert(urls.last() == upload_url(conf, id));
        assert(trimmed(id).len() > 0) by {
            lemma_trimmed_keeps(id);
        }
        assert(front.push(id) =~= ids);
    }
}

/// The parts that the reply of a final upload tells are read back from it as a request would list
/// them.
pub proof fn law_parts_read_back(conf: RustusConf, ids: Seq<Seq<char>>)
    requires
        ids.len() > 0,
        forall|i: int| 0 <= i < ids.len() ==> addressable(#[trigger] ids[i]),
        !conf.base_url@.contains(' '),
    ensures
        "final;"@.is_prefix_of(concat_value(conf, ids)),
        parts_in(concat_value(conf, ids)) == ids,
{
    reveal_strlit("final;");
    reveal_strlit("final; ");
    reveal_strlit(" ");
    reveal_strlit("/");
    assert(" "@ =~= seq![' ']);
    let urls = part_urls(conf, ids);
    let blank = Seq::<char>::empty();
    let all = seq![blank] + urls;
    let value = concat_value(conf, ids);
    assert("final; "@ =~= "final;"@ + " "@);
    assert("final;"@ =~= value.take("final;"@.len() as int));
    lemma_joined_behind_nothing(urls, " "@);
    assert(value.skip("final;"@.len() as int) =~= joined(all, " "@));
    assert forall|i: int| 0 <= i < all.len() implies !(#[trigger] all[i]).contains(' ') by {
        if i > 0 {
            let id = ids[i - 1];
            let url = upload_url(conf, id);
            assert(all[i] == url);
            if url.contains(' ') {
                let j = choose|j: int| 0 <= j < url.len() && url[j] == ' ';
                let n = conf.base_url@.len() as int;
                if 1 <= j < n + 1 {
                    assert(conf.base_url@[j - 1] == ' ');
                } else if j >= n + 2 {
                    assert(id[j - n - 2] == ' ');
                }
            }
        }
    }
    law_split_joined(all, ' ');
    lemma_ids_in_urls(conf, ids);
}

/// The reply that tells what is known of a final upload lists its parts as a request would, where
/// their addresses make a visible text.
pub proof fn law_known_parts_read_back(conf: RustusConf, info: Upload)
    requires
        info.is_final,
        !info.is_partial,
        info.parts matches Some(ids) && ids.len() > 0 && forall|i: int|
            0 <= i < ids.len() ==> addressable(#[trigger] ids[i]),
        !conf.base_url@.contains(' '),
        is_visible(concat_value(conf, info.parts->0)),
    ensures
        asks_final(known_fields(conf, info)),
        field_text(known_fields(conf, info), "Upload-Concat"@) matches Some(text) && parts_in(text)
            == info.parts->0,
{
    lemma_known_names_differ();
    let name = "Upload-Concat"@;
    let value = concat_value(conf, info.parts->0);
    law_parts_read_back(conf, info.parts->0);
    law_append_reads_back(no_fields(), name, value, name);
    let concat = concat_fields(conf, info);
    let sizes = size_fields(concat, info);
    assert(field_text(sizes, name) == field_text(concat, name));
    let metadata = metadata_fields(sizes, info);
    assert(field_text(metadata, name) == field_text(sizes, name));
    assert(field_text(closing_fields(metadata, info), name) == field_text(metadata, name));
}

/// A length that is known is not changed by a write.
pub proof fn law_known_length_stays(
    conf: RustusConf,
    request: Request,
    storage: Seq<char>,
    around: Around,
    info: Upload,
)
    requires
        takes_write(conf, request, storage, around, info),
        info.length is Some,
    ensures
        written(conf, request, info).length == info.length,
{
}

/// An error that an action ended in is handed on as it is, and no handler tells or counts anything
/// then.
pub proof fn law_errors_are_handed_on(
    conf: RustusConf,
    request: Request,
    id: Seq<char>,
    storage: Seq<char>,
    now: i64,
    creating: CreateModel,
    writing: WriteModel,
    removing: TerminateModel,
    looking: LookupState,
)
    ensures
        create_turn(conf, request, id, storage, now, creating, EventModel::Failed) == turn(
            CreateModel::Finished,
            ActionModel::Abort,
        ),
        write_turn(conf, request, id, storage, writing, EventModel::Failed) == turn(
            WriteModel::Finished,
            ActionModel::Abort,
        ),
        terminate_turn(conf, request, id, storage, removing, EventModel::Failed) == turn(
            TerminateModel::Finished,
            ActionModel::Abort,
        ),
        info_turn(conf, id, storage, looking, EventModel::Failed) == turn(
            LookupState::Finished,
            ActionModel::Abort,
        ),
        get_turn(id, storage, looking, EventModel::Failed) == turn(
            LookupState::Finished,
            ActionModel::Abort,
        ),
{
}

/// A turn that refuses a request tells and counts nothing.
pub proof fn law_refusals_are_silent(
    conf: RustusConf,
    request: Request,
    id: Seq<char>,
    storage: Seq<char>,
    now: i64,
    creating: CreateModel,
    writing: WriteModel,
    removing: TerminateModel,
    looking: LookupState,
    event: EventModel,
)
    ensures
        ({
            let turn = create_turn(conf, request, id, storage, now, creating, event);
            refuses(turn.action) ==> turn.effects.len() == 0
        }),
        ({
            let turn = write_turn(conf, request, id, storage, writing, event);
            refuses(turn.action) ==> turn.effects.len() == 0
        }),
        ({
            let turn = terminate_turn(conf, request, id, storage, removing, event);
            refuses(turn.action) ==> turn.effects.len() == 0
        }),
        ({
            let turn = info_turn(conf, id, storage, looking, event);
            refuses(turn.action) ==> turn.effects.len() == 0
        }),
        ({
            let turn = get_turn(id, storage, looking, event);
            refuses(turn.action) ==> turn.effects.len() == 0
        }),
{
}

/// The extensions that the server tells are those that it offers, in their order.
pub proof fn law_extensions_read_back(conf: RustusConf)
    requires
        conf.tus_extensions@.len() > 0,
    ensures
        field_text(info_fields(conf), "Tus-Extension"@) matches Some(text) && split(text, ',')
            == extension_names(conf.tus_extensions@),
{
    let names = extension_names(conf.tus_extensions@);
    reveal_strlit(",");
    reveal_strlit("Tus-Extension");
    reveal_strlit("Tus-Checksum-Algorithm");
    reveal_strlit("creation");
    reveal_strlit("creation-defer-length");
    reveal_strlit("creation-with-upload");
    reveal_strlit("termination");
    reveal_strlit("concatenation");
    reveal_strlit("getting");
    reveal_strlit("checksum");
    assert(","@ =~= seq![',']);
    assert forall|i: int| 0 <= i < names.len() implies !(#[trigger] names[i]).contains(',')
        && is_visible(names[i]) by {
        assert(names[i] == conf.tus_extensions@[i].name());
    }
    law_split_joined(names, ',');
    lemma_joined_is_visible(names, ","@);
    let text = joined(names, ","@);
    lemma_keys_differ("Tus-Extension"@, "Tus-Checksum-Algorithm"@, 0);
    let first = with_value(no_fields(), "Tus-Extension"@, text);
    law_insert_reads_back(no_fields(), "Tus-Extension"@, text, "Tus-Extension"@);
    assert(field_text(info_fields(conf), "Tus-Extension"@) == field_text(first, "Tus-Extension"@));
}

} // verus!
