//! What a request that adds bytes does.

use vstd::prelude::*;

use crate::config::RustusConf;
use crate::errors::RustusError;
use crate::fields::{
    field_text, header_key, law_insert_reads_back, lemma_decimal_is_visible, lemma_keys_differ,
    no_fields, with_value,
};
use crate::file_info::Upload;
use crate::guarantees::requests::{brings_bytes, heard, number_told};
use crate::notifiers::Hook;
use crate::protocol::base::write_bytes::{write_turn, WriteModel};
use crate::protocol::exchange::{bare, says, ActionModel, Counter, EffectModel, EventModel, Request};
use crate::protocol::extensions::Extensions;
use crate::protocol::storing::{run, sound, writing, Around, Stored};
use crate::text::decimal;

verus! {

broadcast use vstd::string::group_string_axioms;

/// The length that a request tells of an upload, where the server lets it be told after the
/// creation.
pub open spec fn length_told(conf: RustusConf, request: Request) -> Option<nat> {
    if conf.tus_extensions@.contains(Extensions::CreationDeferLength) {
        number_told(request.fields(), "Upload-Length"@)
    } else {
        None
    }
}

/// The request brings a checksum, and the server holds the body against checksums.
pub open spec fn brings_checksum(conf: RustusConf, request: Request) -> bool {
    &&& conf.tus_extensions@.contains(Extensions::Checksum)
    &&& request.fields().contains_key(header_key("Upload-Checksum"@))
}

/// The request sends bytes at an offset, and they have the checksum that came with them.
pub open spec fn can_be_added(conf: RustusConf, request: Request, around: Around) -> bool {
    &&& brings_bytes(request)
    &&& number_told(request.fields(), "Upload-Offset"@) is Some
    &&& brings_checksum(conf, request) ==> around.matches
}

/// The upload waits for bytes of the request.
pub open spec fn awaits(
    conf: RustusConf,
    request: Request,
    storage: Seq<char>,
    upload: Upload,
) -> bool {
    &&& !upload.is_final
    &&& upload.storage == storage
    &&& number_told(request.fields(), "Upload-Offset"@) == Some(upload.offset as nat)
    &&& match (upload.length, length_told(conf, request)) {
        (Some(length), None) => length != upload.offset,
        (Some(_), Some(_)) => false,
        (None, Some(told)) => told > upload.offset,
        (None, None) => true,
    }
}

/// A request that adds bytes, as it is served from its beginning to its answer.
pub open spec fn patched(
    conf: RustusConf,
    request: Request,
    id: Seq<char>,
    storage: Seq<char>,
    around: Around,
    stored: Stored,
) -> (Stored, ActionModel) {
    run(
        writing(conf, request, id, storage),
        around,
        stored,
        WriteModel::Start,
        EventModel::Begin,
        4,
    )
}

/// The bytes of an accepted request are behind those of its upload, whatever their number. The
/// upload has come so much further, its length is the one that was told where one was, and nothing
/// else of it changes. Other uploads stay as they are.
pub proof fn law_accepted_bytes_are_stored(
    conf: RustusConf,
    request: Request,
    id: Seq<char>,
    storage: Seq<char>,
    around: Around,
    stored: Stored,
)
    requires
        sound(stored),
        around.body.len() == request.body_len,
        stored.infos.contains_key(id),
        stored.infos[id].offset + request.body_len <= usize::MAX,
        can_be_added(conf, request, around),
        awaits(conf, request, storage, stored.infos[id]),
    ensures
        ({
            let (after, _) = patched(conf, request, id, storage, around, stored);
            let old_upload = stored.infos[id];
            let upload = after.infos[id];
            &&& after.files == stored.files.insert(id, stored.files[id] + around.body)
            &&& after.infos.dom() == stored.infos.dom()
            &&& forall|other: Seq<char>|
                other != id && stored.infos.contains_key(other) ==> #[trigger] after.infos[other]
                    == stored.infos[other]
            &&& upload.offset == old_upload.offset + around.body.len()
            &&& match length_told(conf, request) {
                Some(told) => {
                    &&& upload.length matches Some(length) && length == told
                    &&& !upload.deferred_size
                },
                None => {
                    &&& upload.length == old_upload.length
                    &&& upload.deferred_size == old_upload.deferred_size
                },
            }
            &&& upload == (Upload {
                offset: upload.offset,
                length: upload.length,
                deferred_size: upload.deferred_size,
                ..old_upload
            })
        }),
{
    reveal_strlit("Upload-Checksum");
    reveal_with_fuel(run, 6);
    let (after, _) = patched(conf, request, id, storage, around, stored);
    assert(after.infos.dom() =~= stored.infos.dom());
}

/// An accepted request is answered with the offset behind its bytes, and nothing more than that and
/// that nobody is to keep the reply.
pub proof fn law_accepted_bytes_are_answered(
    conf: RustusConf,
    request: Request,
    id: Seq<char>,
    storage: Seq<char>,
    around: Around,
    stored: Stored,
)
    requires
        sound(stored),
        around.body.len() == request.body_len,
        stored.infos.contains_key(id),
        stored.infos[id].offset + request.body_len <= usize::MAX,
        can_be_added(conf, request, around),
        awaits(conf, request, storage, stored.infos[id]),
    ensures
        ({
            let (_, answer) = patched(conf, request, id, storage, around, stored);
            let offset = (stored.infos[id].offset + request.body_len) as nat;
            &&& answer matches ActionModel::Respond { reply }
            &&& reply.status == 204
            &&& reply.body is None
            &&& field_text(reply.fields, "Upload-Offset"@) == Some(decimal(offset))
            &&& field_text(reply.fields, "Cache-Control"@) == Some("no-cache"@)
            &&& forall|key: Seq<char>| #[trigger]
                reply.fields.contains_key(key) ==> key == header_key("Upload-Offset"@) || key
                    == header_key("Cache-Control"@)
        }),
{
    reveal_strlit("Upload-Checksum");
    reveal_strlit("Upload-Offset");
    reveal_strlit("Cache-Control");
    reveal_strlit("no-cache");
    reveal_with_fuel(run, 6);
    let n = (stored.infos[id].offset + request.body_len) as nat;
    lemma_decimal_is_visible(n);
    lemma_keys_differ("Upload-Offset"@, "Cache-Control"@, 0);
    let first = with_value(no_fields(), "Upload-Offset"@, decimal(n));
    law_insert_reads_back(no_fields(), "Upload-Offset"@, decimal(n), "Upload-Offset"@);
    law_insert_reads_back(first, "Cache-Control"@, "no-cache"@, "Upload-Offset"@);
    law_insert_reads_back(first, "Cache-Control"@, "no-cache"@, "Cache-Control"@);
}

/// A request that is not accepted changes nothing and tells nobody. Its answer tells the first of
/// the reasons.
pub proof fn law_refused_bytes(
    conf: RustusConf,
    request: Request,
    id: Seq<char>,
    storage: Seq<char>,
    around: Around,
    stored: Stored,
)
    requires
        sound(stored),
        !(can_be_added(conf, request, around) && stored.infos.contains_key(id) && awaits(
            conf,
            request,
            storage,
            stored.infos[id],
        )),
    ensures
        ({
            let (after, answer) = patched(conf, request, id, storage, around, stored);
            let upload = stored.infos[id];
            let told = length_told(conf, request);
            &&& after == stored
            &&& heard(
                writing(conf, request, id, storage),
                around,
                stored,
                WriteModel::Start,
                EventModel::Begin,
                4,
            ) == Seq::<EffectModel>::empty()
            &&& if !brings_bytes(request) {
                answer == (ActionModel::Respond { reply: says(415, "Unknown content-type."@) })
            } else if number_told(request.fields(), "Upload-Offset"@) is None {
                answer == (ActionModel::Respond { reply: says(415, "No offset provided."@) })
            } else if !can_be_added(conf, request, around) {
                answer == (ActionModel::Fail { error: RustusError::WrongChecksum })
            } else if !stored.infos.contains_key(id) {
                answer == ActionModel::Abort
            } else if upload.is_final {
                answer == (ActionModel::Respond { reply: bare(403) })
            } else if upload.storage != storage {
                answer == (ActionModel::Fail { error: RustusError::FileNotFound })
            } else if number_told(request.fields(), "Upload-Offset"@) != Some(
                upload.offset as nat,
            ) {
                answer == (ActionModel::Respond { reply: bare(409) })
            } else if told is Some && told->0 < upload.offset {
                answer == (ActionModel::Fail { error: RustusError::WrongOffset })
            } else if told is Some && upload.length is Some {
                answer == (ActionModel::Fail { error: RustusError::SizeAlreadyKnown })
            } else {
                answer == (ActionModel::Fail { error: RustusError::FrozenFile })
            }
        }),
{
    reveal_strlit("Upload-Checksum");
    reveal_with_fuel(run, 6);
    reveal_with_fuel(heard, 6);
}

/// Who is told of accepted bytes, and what is counted: the upload is finished once as many bytes
/// have come as it is long, and otherwise waits for more.
pub proof fn law_accepted_bytes_are_heard_of(
    conf: RustusConf,
    request: Request,
    id: Seq<char>,
    storage: Seq<char>,
    around: Around,
    stored: Stored,
)
    requires
        sound(stored),
        around.body.len() == request.body_len,
        stored.infos.contains_key(id),
        stored.infos[id].offset + request.body_len <= usize::MAX,
        can_be_added(conf, request, around),
        awaits(conf, request, storage, stored.infos[id]),
    ensures
        ({
            let (after, _) = patched(conf, request, id, storage, around, stored);
            let info = after.infos[id];
            let finished = info.length == Some(info.offset);
            let hook = if finished {
                Hook::PostFinish
            } else {
                Hook::PostReceive
            };
            let told = if conf.hooks@.contains(hook) {
                seq![EffectModel::Notify { hook, request: request.told(conf), info }]
            } else {
                seq![]
            };
            let counted = if finished {
                seq![
                    EffectModel::Count { counter: Counter::ActiveLess },
                    EffectModel::Count { counter: Counter::Finished },
                ]
            } else {
                seq![]
            };
            heard(
                writing(conf, request, id, storage),
                around,
                stored,
                WriteModel::Start,
                EventModel::Begin,
                4,
            ) == told + counted
        }),
{
    reveal_strlit("Upload-Checksum");
    reveal_with_fuel(run, 6);
    reveal_with_fuel(heard, 6);
}

/// The checksum that is held against the body is the first that the request brings, byte for byte.
pub proof fn law_checksum_is_handed_on(
    conf: RustusConf,
    request: Request,
    id: Seq<char>,
    storage: Seq<char>,
)
    requires
        brings_bytes(request),
        number_told(request.fields(), "Upload-Offset"@) is Some,
        brings_checksum(conf, request),
    ensures
        write_turn(conf, request, id, storage, WriteModel::Start, EventModel::Begin).action == (
        ActionModel::VerifyChecksum {
            checksum: request.fields()[header_key("Upload-Checksum"@)][0],
        }),
{
    reveal_strlit("Upload-Checksum");
}

/// Whatever record the data storage hands back with the bytes is saved with as many bytes more as
/// the request brought, and as it is otherwise.
pub proof fn law_handed_back_record_is_saved(
    conf: RustusConf,
    request: Request,
    id: Seq<char>,
    storage: Seq<char>,
    info: Upload,
)
    requires
        info.offset + request.body_len <= usize::MAX,
    ensures
        write_turn(
            conf,
            request,
            id,
            storage,
            WriteModel::Appending,
            EventModel::Appended { info },
        ).action matches ActionModel::SetInfo { info: saved, create } && !create && saved.offset
            == info.offset + request.body_len && saved == (Upload { offset: saved.offset, ..info }),
{
}

} // verus!
