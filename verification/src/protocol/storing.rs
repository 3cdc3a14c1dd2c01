//! What the handlers make of storages that do as they are asked.

use vstd::prelude::*;

use crate::config::RustusConf;
use crate::fields::{
    field_bytes, field_text, is_field_value, is_visible, lemma_joined_is_value, value_char, visible,
    visible_char, Fields,
};
use crate::file_info::Upload;
use crate::laws::law_known_sizes_read_back;
use crate::notifiers::Hook;
use crate::protocol::base::get_info::{
    can_tell, concat_value, info_turn, part_urls, LookupState,
};
use crate::protocol::base::write_bytes::{
    grown, told_length, with_length, write_turn, written_reply, WriteModel,
};
use crate::protocol::creation::metadata::{keys_are_values, law_metadata_can_be_told};
use crate::protocol::creation::routes::{
    create_turn, created_reply, ids_in, joinable, joined_upload, metadata_in, parts_in, planned,
    refusal, takes_bytes, total, upload_url, CreateModel,
};
use crate::protocol::exchange::{bare, says, ActionModel, EventModel, Request, TurnModel};
use crate::protocol::extensions::Extensions;
use crate::protocol::getting::routes::get_turn;
use crate::protocol::reading::{asks_final, length_in, offset_in, sends_bytes};
use crate::protocol::termination::routes::{terminate_turn, TerminateModel};
use crate::text::{joined, lemma_split_pieces, lemma_trimmed, split, trimmed};

verus! {

/// What the storages keep: of each id what is known of the upload, and its bytes.
#[verifier::ext_equal]
pub struct Stored {
    pub infos: Map<Seq<char>, Upload>,
    pub files: Map<Seq<char>, Seq<u8>>,
}

/// What a request meets beside the storages.
#[verifier::ext_equal]
pub struct Around {
    /// The body of the request.
    pub body: Seq<u8>,
    /// The listeners agree to what they are told of.
    pub agrees: bool,
    /// The body has the checksum that the request tells.
    pub matches: bool,
    /// Where the data storage keeps a new upload.
    pub path: Seq<char>,
}

/// The bytes of some uploads, one behind the other.
pub open spec fn bytes_of(files: Map<Seq<char>, Seq<u8>>, parts: Seq<Upload>) -> Seq<u8>
    decreases parts.len(),
{
    if parts.len() == 0 {
        seq![]
    } else {
        bytes_of(files, parts.drop_last()) + files[parts.last().id]
    }
}

/// All of the uploads have bytes in the data storage.
pub open spec fn has_all(files: Map<Seq<char>, Seq<u8>>, parts: Seq<Upload>) -> bool {
    forall|i: int| 0 <= i < parts.len() ==> files.contains_key((#[trigger] parts[i]).id)
}

/// What an action makes of what is stored, and what comes of it. An action on an upload that is
/// not stored ends in an error.
pub open spec fn perform(around: Around, stored: Stored, action: ActionModel) -> (
    Stored,
    EventModel,
) {
    match action {
        ActionModel::SendHook { .. } => (
            stored,
            if around.agrees {
                EventModel::Done
            } else {
                EventModel::Failed
            },
        ),
        ActionModel::VerifyChecksum { .. } => (
            stored,
            EventModel::Checksum { matches: around.matches },
        ),
        ActionModel::GetInfo { id } => (
            stored,
            if stored.infos.contains_key(id) {
                EventModel::Info { info: stored.infos[id] }
            } else {
                EventModel::Failed
            },
        ),
        ActionModel::SetInfo { info, .. } => (
            Stored { infos: stored.infos.insert(info.id, info), ..stored },
            EventModel::Done,
        ),
        ActionModel::CreateFile { info } => (
            Stored { files: stored.files.insert(info.id, seq![]), ..stored },
            EventModel::Created { info, path: around.path },
        ),
        ActionModel::AddBytes { info } if stored.files.contains_key(info.id) => (
            Stored {
                files: stored.files.insert(info.id, stored.files[info.id] + around.body),
                ..stored
            },
            EventModel::Appended { info },
        ),
        ActionModel::ConcatFiles { info, parts } if has_all(stored.files, parts) => (
            Stored {
                files: stored.files.insert(info.id, bytes_of(stored.files, parts)),
                ..stored
            },
            EventModel::Done,
        ),
        ActionModel::RemoveInfo { id } if stored.infos.contains_key(id) => (
            Stored { infos: stored.infos.remove(id), ..stored },
            EventModel::Done,
        ),
        ActionModel::RemoveFile { info } if stored.files.contains_key(info.id) => (
            Stored { files: stored.files.remove(info.id), ..stored },
            EventModel::Done,
        ),
        _ => (stored, EventModel::Failed),
    }
}

/// What is stored once a handler is through, and the action with which it answers. The handler
/// takes at most one turn more than `turns`.
pub open spec fn run<S>(
    handler: spec_fn(S, EventModel) -> TurnModel<S>,
    around: Around,
    stored: Stored,
    state: S,
    event: EventModel,
    turns: nat,
) -> (Stored, ActionModel)
    decreases turns,
{
    let taken = handler(state, event);
    if taken.action.ends() || turns == 0 {
        (stored, taken.action)
    } else {
        let (stored, event) = perform(around, stored, taken.action);
        run(handler, around, stored, taken.state, event, (turns - 1) as nat)
    }
}

/// Every upload that is known has its bytes, as many as its offset tells.
pub open spec fn sound(stored: Stored) -> bool {
    forall|id: Seq<char>| #[trigger]
        stored.infos.contains_key(id) ==> {
            &&& stored.infos[id].id == id
            &&& stored.files.contains_key(id)
            &&& stored.files[id].len() == stored.infos[id].offset
        }
}

/// The action refuses the request.
pub open spec fn refuses(action: ActionModel) -> bool {
    match action {
        ActionModel::Respond { reply } => reply.status >= 400,
        ActionModel::Fail { .. } => true,
        ActionModel::Abort => true,
        _ => false,
    }
}

/// The handler of a write.
pub open spec fn writing(
    conf: RustusConf,
    request: Request,
    file_id: Seq<char>,
    storage: Seq<char>,
) -> spec_fn(WriteModel, EventModel) -> TurnModel<WriteModel> {
    |state: WriteModel, event: EventModel|
        write_turn(conf, request, file_id, storage, state, event)
}

/// The request tells a checksum, and the server holds the body against it.
pub open spec fn checks_sum(conf: RustusConf, request: Request) -> bool {
    conf.offers(Extensions::Checksum) && field_bytes(request.fields(), "Upload-Checksum"@) is Some
}

/// The bytes of a request are added to an upload: they have the checksum, they belong where the
/// upload has come to, and the upload waits for some.
pub open spec fn takes_write(
    conf: RustusConf,
    request: Request,
    storage: Seq<char>,
    around: Around,
    info: Upload,
) -> bool {
    let told = told_length(conf, request);
    &&& sends_bytes(request.fields())
    &&& offset_in(request.fields()) == Some(info.offset)
    &&& checks_sum(conf, request) ==> around.matches
    &&& !info.is_final
    &&& info.storage == storage
    &&& told is Some ==> info.length is None && info.offset <= told->0
    &&& !with_length(info, told).complete()
}

/// The upload as a write leaves it.
pub open spec fn written(conf: RustusConf, request: Request, info: Upload) -> Upload {
    grown(with_length(info, told_length(conf, request)), request.body_len)
}

/// A write adds the body to the bytes of its upload, and the reply tells how many there are; or it
/// is refused, and nothing changes. Which of the two is clear from the request and the upload. No
/// other upload is touched.
pub proof fn law_write(
    conf: RustusConf,
    request: Request,
    file_id: Seq<char>,
    storage: Seq<char>,
    around: Around,
    stored: Stored,
    turns: nat,
)
    requires
        sound(stored),
        around.body.len() == request.body_len,
        turns >= 4,
        stored.infos.contains_key(file_id) ==> stored.infos[file_id].offset + request.body_len
            <= usize::MAX,
    ensures
        ({
            let (after, answer) = run(
                writing(conf, request, file_id, storage),
                around,
                stored,
                WriteModel::Start,
                EventModel::Begin,
                turns,
            );
            let info = stored.infos[file_id];
            &&& sound(after)
            &&& stored.infos.contains_key(file_id) && takes_write(
                conf,
                request,
                storage,
                around,
                info,
            ) ==> {
                &&& after.files == stored.files.insert(
                    file_id,
                    stored.files[file_id] + around.body,
                )
                &&& after.infos == stored.infos.insert(file_id, written(conf, request, info))
                &&& answer == (ActionModel::Respond {
                    reply: written_reply(written(conf, request, info)),
                })
            }
            &&& !(stored.infos.contains_key(file_id) && takes_write(
                conf,
                request,
                storage,
                around,
                info,
            )) ==> after == stored && refuses(answer)
        }),
{
    reveal_with_fuel(run, 6);
}

/// What is stored after some writes to one upload, each with what it meets.
pub open spec fn after_writes(
    conf: RustusConf,
    file_id: Seq<char>,
    storage: Seq<char>,
    stored: Stored,
    writes: Seq<(Request, Around)>,
) -> Stored
    decreases writes.len(),
{
    if writes.len() == 0 {
        stored
    } else {
        let (request, around) = writes.last();
        run(
            writing(conf, request, file_id, storage),
            around,
            after_writes(conf, file_id, storage, stored, writes.drop_last()),
            WriteModel::Start,
            EventModel::Begin,
            4,
        ).0
    }
}

/// The bodies of some writes, one behind the other.
pub open spec fn bodies(writes: Seq<(Request, Around)>) -> Seq<u8>
    decreases writes.len(),
{
    if writes.len() == 0 {
        seq![]
    } else {
        bodies(writes.drop_last()) + writes.last().1.body
    }
}

/// The length that some writes tell of their upload.
pub open spec fn told_by(conf: RustusConf, writes: Seq<(Request, Around)>) -> Option<usize>
    decreases writes.len(),
{
    if writes.len() == 0 {
        None
    } else {
        match told_length(conf, writes.last().0) {
            Some(length) => Some(length),
            None => told_by(conf, writes.drop_last()),
        }
    }
}

/// The write sends bytes that belong at an offset to an upload that waits for some, and nothing
/// speaks against them. It may tell the length of the upload where that is not known yet.
pub open spec fn fair_write(
    conf: RustusConf,
    write: (Request, Around),
    length: Option<usize>,
    offset: int,
) -> bool {
    let (request, around) = write;
    let told = told_length(conf, request);
    &&& around.body.len() == request.body_len
    &&& sends_bytes(request.fields())
    &&& offset_in(request.fields()) matches Some(at) && at == offset
    &&& checks_sum(conf, request) ==> around.matches
    &&& match (length, told) {
        (Some(_), Some(_)) => false,
        (Some(known), None) => known != offset,
        (None, Some(told)) => told > offset,
        (None, None) => true,
    }
}

/// The length of an upload that is known once some writes are done.
pub open spec fn length_after(
    conf: RustusConf,
    info: Upload,
    writes: Seq<(Request, Around)>,
) -> Option<usize> {
    with_length(info, told_by(conf, writes)).length
}

/// An upload that is sent in pieces, each at the offset to which those before it come, has the
/// bytes of all of them in their order. Where its length was not known, one of the pieces may tell
/// it, and the upload has that length from then on.
pub proof fn law_writes(
    conf: RustusConf,
    file_id: Seq<char>,
    storage: Seq<char>,
    stored: Stored,
    writes: Seq<(Request, Around)>,
)
    requires
        sound(stored),
        stored.infos.contains_key(file_id),
        stored.infos[file_id].storage == storage,
        !stored.infos[file_id].is_final,
        stored.infos[file_id].offset + bodies(writes).len() <= usize::MAX,
        forall|i: int|
            0 <= i < writes.len() ==> fair_write(
                conf,
                #[trigger] writes[i],
                length_after(conf, stored.infos[file_id], writes.take(i)),
                stored.infos[file_id].offset + bodies(writes.take(i)).len(),
            ),
    ensures
        sound(after_writes(conf, file_id, storage, stored, writes)),
        after_writes(conf, file_id, storage, stored, writes) == (Stored {
            infos: stored.infos.insert(
                file_id,
                Upload {
                    offset: (stored.infos[file_id].offset + bodies(writes).len()) as usize,
                    ..with_length(stored.infos[file_id], told_by(conf, writes))
                },
            ),
            files: stored.files.insert(file_id, stored.files[file_id] + bodies(writes)),
        }),
    decreases writes.len(),
{
    let info = stored.infos[file_id];
    if writes.len() == 0 {
        assert(stored.infos.insert(file_id, info) =~= stored.infos);
        assert(stored.files[file_id] + bodies(writes) =~= stored.files[file_id]);
        assert(stored.files.insert(file_id, stored.files[file_id]) =~= stored.files);
    } else {
        let fewer = writes.drop_last();
        let last = writes.last();
        assert(writes.take(writes.len() - 1) =~= fewer);
        assert forall|i: int| 0 <= i < fewer.len() implies fair_write(
            conf,
            #[trigger] fewer[i],
            length_after(conf, info, fewer.take(i)),
            info.offset + bodies(fewer.take(i)).len(),
        ) by {
            assert(writes[i] == fewer[i]);
            assert(fewer.take(i) =~= writes.take(i));
        }
        law_writes(conf, file_id, storage, stored, fewer);
        let before = after_writes(conf, file_id, storage, stored, fewer);
        assert(writes[writes.len() - 1] == last);
        law_write(conf, last.0, file_id, storage, last.1, before, 4);
        let after = after_writes(conf, file_id, storage, stored, writes);
        assert(takes_write(conf, last.0, storage, last.1, before.infos[file_id]));
        assert(after.infos[file_id] =~= Upload {
            offset: (info.offset + bodies(writes).len()) as usize,
            ..with_length(info, told_by(conf, writes))
        });
        assert(after.files[file_id] =~= stored.files[file_id] + bodies(writes));
        assert(after.files =~= stored.files.insert(file_id, after.files[file_id]));
        assert(after.infos =~= stored.infos.insert(file_id, after.infos[file_id]));
    }
}

/// The handler of a request for what is known of an upload.
pub open spec fn telling(conf: RustusConf, file_id: Seq<char>, storage: Seq<char>) -> spec_fn(
    LookupState,
    EventModel,
) -> TurnModel<LookupState> {
    |state: LookupState, event: EventModel| info_turn(conf, file_id, storage, state, event)
}

/// The handler of a request for the bytes of an upload.
pub open spec fn reading(file_id: Seq<char>, storage: Seq<char>) -> spec_fn(
    LookupState,
    EventModel,
) -> TurnModel<LookupState> {
    |state: LookupState, event: EventModel| get_turn(file_id, storage, state, event)
}

/// A request for what is known of an upload changes nothing. It is answered with the offset and the
/// length of an upload of the same storage, and refused where there is none.
pub proof fn law_lookup(
    conf: RustusConf,
    file_id: Seq<char>,
    storage: Seq<char>,
    around: Around,
    stored: Stored,
    turns: nat,
)
    requires
        turns >= 1,
    ensures
        ({
            let (after, answer) = run(
                telling(conf, file_id, storage),
                around,
                stored,
                LookupState::Start,
                EventModel::Begin,
                turns,
            );
            let info = stored.infos[file_id];
            &&& after == stored
            &&& if stored.infos.contains_key(file_id) && info.storage == storage && can_tell(
                conf,
                info,
            ) {
                &&& answer matches ActionModel::Respond { reply }
                &&& reply.status == 200
                &&& offset_in(reply.fields) == Some(info.offset)
                &&& length_in(reply.fields) == info.length
            } else {
                refuses(answer)
            }
        }),
{
    reveal_with_fuel(run, 3);
    if stored.infos.contains_key(file_id) {
        law_known_sizes_read_back(conf, stored.infos[file_id]);
    }
}

/// A request for the bytes of an upload changes nothing. It is answered with the bytes of an upload
/// of the same storage, and refused where there is none.
pub proof fn law_getting(
    file_id: Seq<char>,
    storage: Seq<char>,
    around: Around,
    stored: Stored,
    turns: nat,
)
    requires
        sound(stored),
        turns >= 1,
    ensures
        ({
            let (after, answer) = run(
                reading(file_id, storage),
                around,
                stored,
                LookupState::Start,
                EventModel::Begin,
                turns,
            );
            let info = stored.infos[file_id];
            &&& after == stored
            &&& if stored.infos.contains_key(file_id) && info.storage == storage {
                &&& answer == (ActionModel::GetContents { info })
                &&& info.id == file_id
                &&& stored.files[info.id].len() == info.offset
            } else {
                refuses(answer)
            }
        }),
{
    reveal_with_fuel(run, 3);
}

/// The handler of a removal.
pub open spec fn removing(
    conf: RustusConf,
    request: Request,
    file_id: Seq<char>,
    storage: Seq<char>,
) -> spec_fn(TerminateModel, EventModel) -> TurnModel<TerminateModel> {
    |state: TerminateModel, event: EventModel|
        terminate_turn(conf, request, file_id, storage, state, event)
}

/// A removal leaves neither the record nor the bytes of its upload, and leaves all other uploads;
/// or it is refused, and nothing changes.
pub proof fn law_termination(
    conf: RustusConf,
    request: Request,
    file_id: Seq<char>,
    storage: Seq<char>,
    around: Around,
    stored: Stored,
    turns: nat,
)
    requires
        sound(stored),
        turns >= 4,
    ensures
        ({
            let (after, answer) = run(
                removing(conf, request, file_id, storage),
                around,
                stored,
                TerminateModel::Start,
                EventModel::Begin,
                turns,
            );
            let agreed = conf.tells(Hook::PreTerminate) ==> around.agrees;
            &&& sound(after)
            &&& if stored.infos.contains_key(file_id) && stored.infos[file_id].storage == storage
                && agreed {
                &&& after.infos == stored.infos.remove(file_id)
                &&& after.files == stored.files.remove(file_id)
                &&& answer == (ActionModel::Respond { reply: bare(204) })
            } else {
                after == stored && refuses(answer)
            }
        }),
{
    reveal_with_fuel(run, 6);
}

/// The handler of a creation.
pub open spec fn creating(
    conf: RustusConf,
    request: Request,
    id: Seq<char>,
    storage: Seq<char>,
    now: i64,
) -> spec_fn(CreateModel, EventModel) -> TurnModel<CreateModel> {
    |state: CreateModel, event: EventModel|
        create_turn(conf, request, id, storage, now, state, event)
}

/// What is stored, and how the request is answered, once a creation is through.
pub open spec fn creation(
    conf: RustusConf,
    request: Request,
    id: Seq<char>,
    storage: Seq<char>,
    now: i64,
    around: Around,
    stored: Stored,
    turns: nat,
) -> (Stored, ActionModel) {
    run(
        creating(conf, request, id, storage, now),
        around,
        stored,
        CreateModel::Start,
        EventModel::Begin,
        turns,
    )
}

/// Nothing is stored under an id.
pub open spec fn fresh(stored: Stored, id: Seq<char>) -> bool {
    !stored.infos.contains_key(id) && !stored.files.contains_key(id)
}

/// The listeners agree to a creation, or are not asked.
pub open spec fn may_create(conf: RustusConf, around: Around) -> bool {
    conf.tells(Hook::PreCreate) ==> around.agrees
}

/// A creation that the request is refused, or to which the listeners do not agree, stores nothing.
pub proof fn law_refused_creation(
    conf: RustusConf,
    request: Request,
    id: Seq<char>,
    storage: Seq<char>,
    now: i64,
    around: Around,
    stored: Stored,
    turns: nat,
)
    requires
        refusal(conf, request.fields()) is Some || !may_create(conf, around),
        turns >= 1,
    ensures
        ({
            let (after, answer) = creation(
                conf,
                request,
                id,
                storage,
                now,
                around,
                stored,
                turns,
            );
            &&& after == stored
            &&& refuses(answer)
            &&& refusal(conf, request.fields()) matches Some(reply) ==> answer == (
            ActionModel::Respond { reply })
        }),
{
    reveal_with_fuel(run, 3);
}

/// The first bytes of an upload that is no final one: the body of the request, where the server
/// takes it at creation.
pub open spec fn first_bytes(conf: RustusConf, request: Request, around: Around) -> Seq<u8> {
    if takes_bytes(conf, request) {
        around.body
    } else {
        seq![]
    }
}

/// An upload that is created is stored as the request describes it, with the bytes that came with
/// the request. The reply tells where it is, and how many bytes have come. No other upload is
/// touched.
pub proof fn law_creation(
    conf: RustusConf,
    request: Request,
    id: Seq<char>,
    storage: Seq<char>,
    now: i64,
    around: Around,
    stored: Stored,
    turns: nat,
)
    requires
        sound(stored),
        around.body.len() == request.body_len,
        turns >= 4,
        refusal(conf, request.fields()) is None,
        may_create(conf, around),
        !(conf.offers(Extensions::Concatenation) && asks_final(request.fields())),
    ensures
        ({
            let (after, answer) = creation(
                conf,
                request,
                id,
                storage,
                now,
                around,
                stored,
                turns,
            );
            let bytes = first_bytes(conf, request, around);
            let info = Upload {
                path: Some(around.path),
                offset: bytes.len() as usize,
                ..planned(conf, request.fields(), id, storage, now)
            };
            &&& sound(after)
            &&& after.infos == stored.infos.insert(id, info)
            &&& after.files == stored.files.insert(id, bytes)
            &&& answer == (ActionModel::Respond { reply: created_reply(conf, info) })
        }),
{
    reveal_with_fuel(run, 6);
    let (after, answer) = creation(conf, request, id, storage, now, around, stored, turns);
    let bytes = first_bytes(conf, request, around);
    assert(Seq::<u8>::empty() + around.body =~= around.body);
    assert(after.files =~= stored.files.insert(id, bytes));
}

/// What is known of the uploads with some ids.
pub open spec fn records(stored: Stored, ids: Seq<Seq<char>>) -> Seq<Upload> {
    ids.map_values(|id: Seq<char>| stored.infos[id])
}

/// All of the ids are of uploads that are known.
pub open spec fn known(stored: Stored, ids: Seq<Seq<char>>) -> bool {
    forall|i: int| 0 <= i < ids.len() ==> stored.infos.contains_key(#[trigger] ids[i])
}

/// What is stored without the first `n` of some uploads.
pub open spec fn without(stored: Stored, parts: Seq<Upload>, n: int) -> Stored
    decreases n,
{
    if n <= 0 {
        stored
    } else {
        let rest = without(stored, parts, n - 1);
        let id = parts[n - 1].id;
        Stored { infos: rest.infos.remove(id), files: rest.files.remove(id) }
    }
}

/// What stays once a final upload is made of its parts.
pub open spec fn kept(conf: RustusConf, stored: Stored, parts: Seq<Upload>) -> Stored {
    if conf.remove_parts {
        without(stored, parts, parts.len() as int)
    } else {
        stored
    }
}

proof fn lemma_total_prefix(parts: Seq<Upload>, n: int)
    requires
        0 <= n <= parts.len(),
    ensures
        total(parts.take(n)) <= total(parts),
    decreases parts.len(),
{
    if n == parts.len() {
        assert(parts.take(n) =~= parts);
    } else {
        lemma_total_prefix(parts.drop_last(), n);
        assert(parts.drop_last().take(n) =~= parts.take(n));
    }
}

/// The uploads have as many bytes as their offsets tell together.
proof fn lemma_bytes_total(stored: Stored, parts: Seq<Upload>)
    requires
        forall|i: int|
            0 <= i < parts.len() ==> stored.files[(#[trigger] parts[i]).id].len()
                == parts[i].offset,
    ensures
        bytes_of(stored.files, parts).len() == total(parts),
    decreases parts.len(),
{
    if parts.len() > 0 {
        assert(forall|i: int|
            0 <= i < parts.drop_last().len() ==> #[trigger] parts.drop_last()[i] == parts[i]);
        lemma_bytes_total(stored, parts.drop_last());
        assert(parts[parts.len() - 1] == parts.last());
    }
}

/// Bytes under another id do not matter to those of the uploads.
proof fn lemma_bytes_of_others(
    files: Map<Seq<char>, Seq<u8>>,
    parts: Seq<Upload>,
    id: Seq<char>,
    bytes: Seq<u8>,
)
    requires
        forall|i: int| 0 <= i < parts.len() ==> (#[trigger] parts[i]).id != id,
    ensures
        bytes_of(files.insert(id, bytes), parts) == bytes_of(files, parts),
    decreases parts.len(),
{
    if parts.len() > 0 {
        assert(forall|i: int|
            0 <= i < parts.drop_last().len() ==> #[trigger] parts.drop_last()[i] == parts[i]);
        lemma_bytes_of_others(files, parts.drop_last(), id, bytes);
        assert(parts[parts.len() - 1] == parts.last());
    }
}

/// What is without some uploads keeps the others, and stays sound.
proof fn lemma_without(stored: Stored, parts: Seq<Upload>, n: int, id: Seq<char>)
    requires
        0 <= n <= parts.len(),
        forall|i: int| 0 <= i < n ==> (#[trigger] parts[i]).id != id,
    ensures
        without(stored, parts, n).infos.contains_key(id) == stored.infos.contains_key(id),
        without(stored, parts, n).files.contains_key(id) == stored.files.contains_key(id),
        sound(stored) ==> sound(without(stored, parts, n)),
    decreases n,
{
    if n > 0 {
        lemma_without(stored, parts, n - 1, id);
        assert(parts[n - 1].id != id);
    }
}

/// Removing some uploads and storing the bytes of another can change places.
proof fn lemma_without_commutes(
    stored: Stored,
    parts: Seq<Upload>,
    n: int,
    id: Seq<char>,
    bytes: Seq<u8>,
)
    requires
        0 <= n <= parts.len(),
        forall|i: int| 0 <= i < n ==> (#[trigger] parts[i]).id != id,
    ensures
        ({
            let more = Stored { files: stored.files.insert(id, bytes), ..stored };
            let less = without(stored, parts, n);
            without(more, parts, n) == (Stored { files: less.files.insert(id, bytes), ..less })
        }),
    decreases n,
{
    if n > 0 {
        lemma_without_commutes(stored, parts, n - 1, id, bytes);
        assert(parts[n - 1].id != id);
        let more = Stored { files: stored.files.insert(id, bytes), ..stored };
        let less = without(stored, parts, n);
        assert(without(more, parts, n).files =~= less.files.insert(id, bytes));
    }
}

/// A look at a part, once those before it are looked at.
spec fn looking(
    conf: RustusConf,
    request: Request,
    id: Seq<char>,
    storage: Seq<char>,
    now: i64,
    around: Around,
    stored: Stored,
    info: Upload,
    k: int,
    turns: nat,
) -> (Stored, ActionModel) {
    let ids = info.parts->0;
    let parts = records(stored, ids).take(k);
    run(
        creating(conf, request, id, storage, now),
        around,
        stored,
        CreateModel::Gathering { info, parts, size: total(parts) as usize },
        perform(around, stored, ActionModel::GetInfo { id: ids[k] }).1,
        turns,
    )
}

/// From the look at the first part to that at another, where those before it can be joined.
proof fn lemma_gathering(
    conf: RustusConf,
    request: Request,
    id: Seq<char>,
    storage: Seq<char>,
    now: i64,
    around: Around,
    stored: Stored,
    info: Upload,
    k: int,
    turns: nat,
)
    requires
        info.parts matches Some(ids) && 0 <= k < ids.len(),
        known(stored, info.parts->0.take(k)),
        joinable(records(stored, info.parts->0).take(k)),
        total(records(stored, info.parts->0).take(k)) <= usize::MAX,
        turns >= k,
    ensures
        looking(conf, request, id, storage, now, around, stored, info, 0, turns) == looking(
            conf,
            request,
            id,
            storage,
            now,
            around,
            stored,
            info,
            k,
            (turns - k) as nat,
        ),
    decreases k,
{
    let ids = info.parts->0;
    let parts = records(stored, ids);
    if k > 0 {
        let j = k - 1;
        assert(parts.take(k).take(j) =~= parts.take(j));
        assert(parts.take(k).drop_last() =~= parts.take(j));
        assert(parts.take(j).push(parts[j]) =~= parts.take(k));
        assert(parts.take(k)[j] == parts[j]);
        assert(ids.take(k)[j] == ids[j]);
        assert forall|i: int| 0 <= i < j implies stored.infos.contains_key(
            #[trigger] ids.take(j)[i],
        ) by {
            assert(ids.take(k)[i] == ids.take(j)[i]);
        }
        assert forall|i: int| 0 <= i < j implies (#[trigger] parts.take(j)[i]).complete()
            && parts.take(j)[i].is_partial by {
            assert(parts.take(k)[i] == parts.take(j)[i]);
        }
        lemma_gathering(conf, request, id, storage, now, around, stored, info, j, turns);
        reveal_with_fuel(run, 2);
    }
}

/// From the removal of the bytes of one part to that of the last, and to the end.
proof fn lemma_dropping(
    conf: RustusConf,
    request: Request,
    id: Seq<char>,
    storage: Seq<char>,
    now: i64,
    around: Around,
    stored: Stored,
    info: Upload,
    parts: Seq<Upload>,
    next: usize,
    turns: nat,
)
    requires
        next < parts.len() <= usize::MAX,
        !takes_bytes(conf, request),
        forall|i: int|
            0 <= i < parts.len() ==> stored.infos.contains_key((#[trigger] parts[i]).id)
                && stored.files.contains_key(parts[i].id),
        forall|i: int, j: int|
            0 <= i < j < parts.len() ==> (#[trigger] parts[i]).id != (#[trigger] parts[j]).id,
        turns >= 2 * (parts.len() - next),
    ensures
        ({
            let before = without(stored, parts, next as int);
            let after = without(stored, parts, parts.len() as int);
            run(
                creating(conf, request, id, storage, now),
                around,
                Stored { files: before.files.remove(parts[next as int].id), ..before },
                CreateModel::DroppingFile { info, parts, next },
                EventModel::Done,
                turns,
            ) == (
                Stored { infos: after.infos.insert(info.id, info), ..after },
                ActionModel::Respond { reply: created_reply(conf, info) },
            )
        }),
    decreases parts.len() - next,
{
    reveal_with_fuel(run, 4);
    let n = next as int;
    let before = without(stored, parts, n);
    let after = without(stored, parts, n + 1);
    lemma_without(stored, parts, n, parts[n].id);
    assert(after.infos =~= before.infos.remove(parts[n].id));
    if n + 1 < parts.len() {
        lemma_without(stored, parts, n + 1, parts[n + 1].id);
        lemma_dropping(
            conf,
            request,
            id,
            storage,
            now,
            around,
            stored,
            info,
            parts,
            (next + 1) as usize,
            (turns - 2) as nat,
        );
    }
}

/// The ids of the parts that a request lists.
pub open spec fn listed(request: Request) -> Seq<Seq<char>> {
    parts_in(field_text(request.fields(), "Upload-Concat"@)->0)
}

/// The request asks for a final upload, and gets as far as its parts.
pub open spec fn joins(conf: RustusConf, request: Request, around: Around) -> bool {
    &&& refusal(conf, request.fields()) is None
    &&& may_create(conf, around)
    &&& conf.offers(Extensions::Concatenation)
    &&& asks_final(request.fields())
}

/// From the request for a final upload to the look at its first part.
proof fn lemma_first_look(
    conf: RustusConf,
    request: Request,
    id: Seq<char>,
    storage: Seq<char>,
    now: i64,
    around: Around,
    stored: Stored,
    turns: nat,
)
    requires
        joins(conf, request, around),
        turns >= 3,
    ensures
        ({
            let info = Upload {
                path: Some(around.path),
                ..planned(conf, request.fields(), id, storage, now)
            };
            let room = Stored { files: stored.files.insert(id, seq![]), ..stored };
            let asked: nat = if conf.tells(Hook::PreCreate) {
                1
            } else {
                0
            };
            creation(conf, request, id, storage, now, around, stored, turns) == looking(
                conf,
                request,
                id,
                storage,
                now,
                around,
                room,
                info,
                0,
                (turns - asked - 2) as nat,
            )
        }),
{
    let room = Stored { files: stored.files.insert(id, seq![]), ..stored };
    assert(records(room, listed(request)).take(0) =~= seq![]);
    reveal_with_fuel(run, 4);
}

/// From the request for a final upload to where its parts are joined.
proof fn lemma_joining(
    conf: RustusConf,
    request: Request,
    id: Seq<char>,
    storage: Seq<char>,
    now: i64,
    around: Around,
    stored: Stored,
    turns: nat,
)
    requires
        sound(stored),
        fresh(stored, id),
        joins(conf, request, around),
        known(stored, listed(request)),
        joinable(records(stored, listed(request))),
        total(records(stored, listed(request))) <= usize::MAX,
        turns >= listed(request).len() + 3,
    ensures
        ({
            let parts = records(stored, listed(request));
            let info = Upload {
                path: Some(around.path),
                ..planned(conf, request.fields(), id, storage, now)
            };
            let asked: nat = if conf.tells(Hook::PreCreate) {
                1
            } else {
                0
            };
            creation(conf, request, id, storage, now, around, stored, turns) == run(
                creating(conf, request, id, storage, now),
                around,
                Stored {
                    files: stored.files.insert(id, bytes_of(stored.files, parts)),
                    ..stored
                },
                CreateModel::Joining { info, parts, size: total(parts) as usize },
                EventModel::Done,
                (turns - asked - 2 - listed(request).len()) as nat,
            )
        }),
{
    let ids = listed(request);
    let parts = records(stored, ids);
    let n = ids.len();
    let info = Upload {
        path: Some(around.path),
        ..planned(conf, request.fields(), id, storage, now)
    };
    let room = Stored { files: stored.files.insert(id, seq![]), ..stored };
    let asked: nat = if conf.tells(Hook::PreCreate) {
        1
    } else {
        0
    };
    assert forall|i: int| 0 <= i < n implies {
        &&& (#[trigger] parts[i]).id == ids[i]
        &&& parts[i].id != id
        &&& stored.infos.contains_key(parts[i].id)
        &&& stored.files.contains_key(parts[i].id)
    } by {
        assert(stored.infos.contains_key(ids[i]));
    }
    lemma_bytes_of_others(stored.files, parts, id, seq![]);
    assert(info.parts == Some(ids));
    assert(records(room, ids) =~= parts);
    lemma_first_look(conf, request, id, storage, now, around, stored, turns);
    let looked = (turns - asked - 2) as nat;
    let k = n - 1;
    assert forall|i: int| 0 <= i < k implies room.infos.contains_key(#[trigger] ids.take(k)[i]) by {
        assert(stored.infos.contains_key(ids[i]));
    }
    assert forall|i: int| 0 <= i < k implies (#[trigger] parts.take(k)[i]).complete()
        && parts.take(k)[i].is_partial by {
        assert(parts[i] == parts.take(k)[i]);
    }
    lemma_total_prefix(parts, k);
    lemma_gathering(conf, request, id, storage, now, around, room, info, k, looked);
    assert(stored.infos.contains_key(ids[k]));
    assert(parts[k].complete() && parts[k].is_partial);
    assert(parts.drop_last() =~= parts.take(k));
    assert(parts.take(k).push(parts[k]) =~= parts);
    let bytes = bytes_of(stored.files, parts);
    let (joined, event) = perform(around, room, ActionModel::ConcatFiles { info, parts });
    let full = Stored { files: stored.files.insert(id, bytes), ..stored };
    assert(joined == full) by {
        assert(joined.files =~= full.files);
    }
    assert(event == EventModel::Done);
    reveal_with_fuel(run, 2);
}

/// A final upload has the bytes of its parts in the order in which the request lists them, and as
/// many as they have together. The parts go where the server is told to remove them, and nothing
/// else changes. A part that is to be removed is listed once; `law_repeated_part` tells the rest.
pub proof fn law_final_creation(
    conf: RustusConf,
    request: Request,
    id: Seq<char>,
    storage: Seq<char>,
    now: i64,
    around: Around,
    stored: Stored,
    turns: nat,
)
    requires
        sound(stored),
        fresh(stored, id),
        joins(conf, request, around),
        known(stored, listed(request)),
        joinable(records(stored, listed(request))),
        total(records(stored, listed(request))) <= usize::MAX,
        conf.remove_parts ==> listed(request).no_duplicates() && listed(request).len()
            <= usize::MAX,
        turns >= 3 * listed(request).len() + 5,
    ensures
        ({
            let parts = records(stored, listed(request));
            let (after, answer) = creation(
                conf,
                request,
                id,
                storage,
                now,
                around,
                stored,
                turns,
            );
            let info = joined_upload(
                Upload {
                    path: Some(around.path),
                    ..planned(conf, request.fields(), id, storage, now)
                },
                total(parts) as usize,
            );
            let kept = kept(conf, stored, parts);
            &&& sound(after)
            &&& after.infos == kept.infos.insert(id, info)
            &&& after.files == kept.files.insert(id, bytes_of(stored.files, parts))
            &&& bytes_of(stored.files, parts).len() == info.offset
            &&& answer == (ActionModel::Respond { reply: created_reply(conf, info) })
        }),
{
    let ids = listed(request);
    let parts = records(stored, ids);
    let n = ids.len();
    let info = Upload {
        path: Some(around.path),
        ..planned(conf, request.fields(), id, storage, now)
    };
    let made = joined_upload(info, total(parts) as usize);
    let asked: nat = if conf.tells(Hook::PreCreate) {
        1
    } else {
        0
    };
    assert forall|i: int| 0 <= i < n implies {
        &&& (#[trigger] parts[i]).id == ids[i]
        &&& parts[i].id != id
        &&& stored.infos.contains_key(parts[i].id)
        &&& stored.files.contains_key(parts[i].id)
        &&& stored.files[parts[i].id].len() == parts[i].offset
    } by {
        assert(stored.infos.contains_key(ids[i]));
    }
    lemma_bytes_total(stored, parts);
    lemma_joining(conf, request, id, storage, now, around, stored, turns);
    let bytes = bytes_of(stored.files, parts);
    let full = Stored { files: stored.files.insert(id, bytes), ..stored };
    let left = (turns - asked - 2 - n) as nat;
    reveal_with_fuel(run, 3);
    if conf.remove_parts {
        assert forall|i: int, j: int| 0 <= i < j < parts.len() implies (#[trigger] parts[i]).id != (
        #[trigger] parts[j]).id by {
            assert(parts[i].id == ids[i] && parts[j].id == ids[j]);
        }
        assert(without(full, parts, 0) == full);
        lemma_dropping(
            conf,
            request,
            id,
            storage,
            now,
            around,
            full,
            made,
            parts,
            0,
            (left - 1) as nat,
        );
        lemma_without_commutes(stored, parts, n as int, id, bytes);
        lemma_without(stored, parts, n as int, id);
    }
}

/// A final upload with a part that is not known, whose bytes have not all come, or that is no
/// partial upload, is refused. Of it nothing is known, and its bytes are none; of all others
/// nothing changes. The first such part is named.
pub proof fn law_unjoinable(
    conf: RustusConf,
    request: Request,
    id: Seq<char>,
    storage: Seq<char>,
    now: i64,
    around: Around,
    stored: Stored,
    turns: nat,
    bad: int,
)
    requires
        sound(stored),
        fresh(stored, id),
        joins(conf, request, around),
        0 <= bad < listed(request).len(),
        known(stored, listed(request).take(bad)),
        joinable(records(stored, listed(request)).take(bad)),
        total(records(stored, listed(request)).take(bad)) <= usize::MAX,
        ({
            let part = listed(request)[bad];
            stored.infos.contains_key(part) ==> !(stored.infos[part].complete()
                && stored.infos[part].is_partial)
        }),
        turns >= bad + 3,
    ensures
        ({
            let part = listed(request)[bad];
            let (after, answer) = creation(
                conf,
                request,
                id,
                storage,
                now,
                around,
                stored,
                turns,
            );
            &&& sound(after)
            &&& after.infos == stored.infos
            &&& after.files == stored.files.insert(id, seq![])
            &&& answer == if !stored.infos.contains_key(part) {
                ActionModel::Abort
            } else if !stored.infos[part].complete() {
                ActionModel::Respond { reply: says(400, part + " upload is not complete."@) }
            } else {
                ActionModel::Respond { reply: says(400, part + " upload is not partial."@) }
            }
        }),
{
    let info = Upload {
        path: Some(around.path),
        ..planned(conf, request.fields(), id, storage, now)
    };
    let room = Stored { files: stored.files.insert(id, seq![]), ..stored };
    let asked: nat = if conf.tells(Hook::PreCreate) {
        1
    } else {
        0
    };
    lemma_first_look(conf, request, id, storage, now, around, stored, turns);
    assert(records(room, listed(request)) =~= records(stored, listed(request)));
    lemma_gathering(
        conf,
        request,
        id,
        storage,
        now,
        around,
        room,
        info,
        bad,
        (turns - asked - 2) as nat,
    );
}

/// After a write, a request for what is known of the upload is told the offset behind the bytes
/// that were written.
pub proof fn law_write_is_told(
    conf: RustusConf,
    request: Request,
    file_id: Seq<char>,
    storage: Seq<char>,
    around: Around,
    stored: Stored,
    later: Around,
)
    requires
        sound(stored),
        around.body.len() == request.body_len,
        stored.infos.contains_key(file_id),
        takes_write(conf, request, storage, around, stored.infos[file_id]),
        stored.infos[file_id].offset + request.body_len <= usize::MAX,
        can_tell(conf, stored.infos[file_id]),
    ensures
        ({
            let (after, _) = run(
                writing(conf, request, file_id, storage),
                around,
                stored,
                WriteModel::Start,
                EventModel::Begin,
                4,
            );
            let (_, answer) = run(
                telling(conf, file_id, storage),
                later,
                after,
                LookupState::Start,
                EventModel::Begin,
                1,
            );
            &&& answer matches ActionModel::Respond { reply }
            &&& offset_in(reply.fields) matches Some(offset) && offset
                == stored.infos[file_id].offset + request.body_len
        }),
{
    law_write(conf, request, file_id, storage, around, stored, 4);
    let (after, _) = run(
        writing(conf, request, file_id, storage),
        around,
        stored,
        WriteModel::Start,
        EventModel::Begin,
        4,
    );
    law_lookup(conf, file_id, storage, later, after, 1);
}

/// The keys that a request tells can stand in a field value.
proof fn lemma_keys_of_request(fields: Fields)
    ensures
        metadata_in(fields) matches Some(pairs) ==> keys_are_values(pairs),
{
    law_metadata_can_be_told(fields);
    if let Some(pairs) = metadata_in(fields) {
        assert forall|i: int| 0 <= i < pairs.len() implies is_field_value(
            (#[trigger] pairs[i]).0,
        ) by {
            let key = pairs[i].0;
            assert(is_visible(key));
            assert forall|j: int| 0 <= j < key.len() implies value_char(#[trigger] key[j]) by {
                assert(visible_char(key[j]));
            }
        }
    }
}

/// Ids at the ends of addresses are made of characters of the addresses.
proof fn lemma_ids_in_urls(urls: Seq<Seq<char>>, i: int, c: char)
    requires
        0 <= i < ids_in(urls).len(),
        ids_in(urls)[i].contains(c),
    ensures
        exists|k: int| 0 <= k < urls.len() && (#[trigger] urls[k]).contains(c),
    decreases urls.len(),
{
    let front = urls.drop_last();
    if i < ids_in(front).len() {
        lemma_ids_in_urls(front, i, c);
        let k = choose|k: int| 0 <= k < front.len() && (#[trigger] front[k]).contains(c);
        assert(urls[k].contains(c));
    } else {
        let url = urls[urls.len() - 1];
        let segments = split(trimmed(url), '/');
        lemma_split_pieces(trimmed(url), '/');
        assert(segments[segments.len() - 1].contains(c));
        lemma_trimmed(url);
        assert(trimmed(url).contains(c));
        assert(url.contains(c));
    }
}

/// Where the parts that a request lists are found, can be told once the address of one upload can.
proof fn lemma_parts_can_be_told(conf: RustusConf, request: Request, id: Seq<char>)
    requires
        asks_final(request.fields()),
        is_field_value(upload_url(conf, id)),
    ensures
        is_field_value(concat_value(conf, listed(request))),
{
    reveal_strlit("final;");
    reveal_strlit("final; ");
    reveal_strlit(" ");
    reveal_strlit("/");
    let text = field_text(request.fields(), "Upload-Concat"@)->0;
    let bytes = field_bytes(request.fields(), "Upload-Concat"@)->0;
    let rest = text.skip("final;"@.len() as int);
    let ids = listed(request);
    let urls = part_urls(conf, ids);
    lemma_split_pieces(rest, ' ');
    assert forall|i: int| 0 <= i < urls.len() implies is_field_value(#[trigger] urls[i]) by {
        let part = ids[i];
        let n = conf.base_url@.len() as int;
        assert forall|j: int| 0 <= j < urls[i].len() implies value_char(#[trigger] urls[i][j]) by {
            if j < n + 2 {
                assert(urls[i][j] == upload_url(conf, id)[j]);
                assert(value_char(upload_url(conf, id)[j]));
            } else {
                let c = part[j - n - 2];
                assert(urls[i][j] == c);
                assert(part.contains(c));
                lemma_ids_in_urls(split(rest, ' '), i, c);
                let k = choose|k: int|
                    0 <= k < split(rest, ' ').len() && (#[trigger] split(rest, ' ')[k]).contains(c);
                assert(rest.contains(c));
                let m = choose|m: int| 0 <= m < rest.len() && rest[m] == c;
                assert(text[m + "final;"@.len()] == c);
                assert(visible(bytes[m + "final;"@.len()]));
            }
        }
    }
    lemma_joined_is_value(urls, " "@);
    let list = joined(urls, " "@);
    let value = concat_value(conf, ids);
    assert forall|j: int| 0 <= j < value.len() implies value_char(#[trigger] value[j]) by {
        if j >= "final; "@.len() {
            assert(value_char(list[j - "final; "@.len()]));
        }
    }
}

/// After a creation, a request for what is known of the upload is told the length that the request
/// told, and how many bytes came with it.
pub proof fn law_creation_is_told(
    conf: RustusConf,
    request: Request,
    id: Seq<char>,
    storage: Seq<char>,
    now: i64,
    around: Around,
    stored: Stored,
    later: Around,
)
    requires
        sound(stored),
        around.body.len() == request.body_len,
        refusal(conf, request.fields()) is None,
        may_create(conf, around),
        !(conf.offers(Extensions::Concatenation) && asks_final(request.fields())),
    ensures
        ({
            let (after, _) = creation(conf, request, id, storage, now, around, stored, 4);
            let (_, answer) = run(
                telling(conf, id, storage),
                later,
                after,
                LookupState::Start,
                EventModel::Begin,
                1,
            );
            &&& answer matches ActionModel::Respond { reply }
            &&& length_in(reply.fields) == length_in(request.fields())
            &&& offset_in(reply.fields) matches Some(offset) && offset == first_bytes(
                conf,
                request,
                around,
            ).len()
        }),
{
    law_creation(conf, request, id, storage, now, around, stored, 4);
    let (after, _) = creation(conf, request, id, storage, now, around, stored, 4);
    lemma_keys_of_request(request.fields());
    law_lookup(conf, id, storage, later, after, 1);
}

/// After the creation of a final upload whose address can be told, a request for what is known of
/// it is told that all of its bytes have come, as many as its parts have together.
pub proof fn law_final_creation_is_told(
    conf: RustusConf,
    request: Request,
    id: Seq<char>,
    storage: Seq<char>,
    now: i64,
    around: Around,
    stored: Stored,
    later: Around,
    turns: nat,
)
    requires
        sound(stored),
        fresh(stored, id),
        joins(conf, request, around),
        known(stored, listed(request)),
        joinable(records(stored, listed(request))),
        total(records(stored, listed(request))) <= usize::MAX,
        conf.remove_parts ==> listed(request).no_duplicates() && listed(request).len()
            <= usize::MAX,
        turns >= 3 * listed(request).len() + 5,
        is_field_value(upload_url(conf, id)),
    ensures
        ({
            let (after, _) = creation(conf, request, id, storage, now, around, stored, turns);
            let (_, answer) = run(
                telling(conf, id, storage),
                later,
                after,
                LookupState::Start,
                EventModel::Begin,
                1,
            );
            let size = total(records(stored, listed(request))) as usize;
            &&& answer matches ActionModel::Respond { reply }
            &&& length_in(reply.fields) == Some(size)
            &&& offset_in(reply.fields) == Some(size)
        }),
{
    law_final_creation(conf, request, id, storage, now, around, stored, turns);
    let (after, _) = creation(conf, request, id, storage, now, around, stored, turns);
    lemma_keys_of_request(request.fields());
    lemma_parts_can_be_told(conf, request, id);
    law_lookup(conf, id, storage, later, after, 1);
}

/// An upload that is removed is gone.
proof fn lemma_without_gone(stored: Stored, parts: Seq<Upload>, n: int, m: int)
    requires
        0 <= m < n <= parts.len(),
    ensures
        !without(stored, parts, n).files.contains_key(parts[m].id),
    decreases n,
{
    if m < n - 1 {
        lemma_without_gone(stored, parts, n - 1, m);
    }
}

/// From the removal of the bytes of one part to the failure at a part that is removed already.
proof fn lemma_dropping_fails(
    conf: RustusConf,
    request: Request,
    id: Seq<char>,
    storage: Seq<char>,
    now: i64,
    around: Around,
    stored: Stored,
    info: Upload,
    parts: Seq<Upload>,
    next: usize,
    bad: int,
    turns: nat,
)
    requires
        next < bad < parts.len() <= usize::MAX,
        forall|i: int|
            0 <= i < bad ==> stored.infos.contains_key((#[trigger] parts[i]).id)
                && stored.files.contains_key(parts[i].id),
        forall|i: int, j: int|
            0 <= i < j < bad ==> (#[trigger] parts[i]).id != (#[trigger] parts[j]).id,
        exists|m: int| 0 <= m < bad && (#[trigger] parts[m]).id == parts[bad].id,
        turns >= 2 * (bad - next),
    ensures
        ({
            let before = without(stored, parts, next as int);
            run(
                creating(conf, request, id, storage, now),
                around,
                Stored { files: before.files.remove(parts[next as int].id), ..before },
                CreateModel::DroppingFile { info, parts, next },
                EventModel::Done,
                turns,
            ) == (without(stored, parts, bad), ActionModel::Abort)
        }),
    decreases bad - next,
{
    reveal_with_fuel(run, 4);
    let n = next as int;
    let before = without(stored, parts, n);
    let after = without(stored, parts, n + 1);
    lemma_without(stored, parts, n, parts[n].id);
    assert(after.infos =~= before.infos.remove(parts[n].id));
    if n + 1 < bad {
        lemma_without(stored, parts, n + 1, parts[n + 1].id);
        lemma_dropping_fails(
            conf,
            request,
            id,
            storage,
            now,
            around,
            stored,
            info,
            parts,
            (next + 1) as usize,
            bad,
            (turns - 2) as nat,
        );
    } else {
        let m = choose|m: int| 0 <= m < bad && (#[trigger] parts[m]).id == parts[bad].id;
        lemma_without_gone(stored, parts, bad, m);
    }
}

/// Where the parts of a final upload are removed, one that the request lists again cannot be
/// removed again: the error of the storage is handed on. The parts before it are gone, the bytes of
/// the final upload are there, and nothing is known of it.
pub proof fn law_repeated_part(
    conf: RustusConf,
    request: Request,
    id: Seq<char>,
    storage: Seq<char>,
    now: i64,
    around: Around,
    stored: Stored,
    turns: nat,
    bad: int,
)
    requires
        sound(stored),
        fresh(stored, id),
        joins(conf, request, around),
        known(stored, listed(request)),
        joinable(records(stored, listed(request))),
        total(records(stored, listed(request))) <= usize::MAX,
        listed(request).len() <= usize::MAX,
        conf.remove_parts,
        0 <= bad < listed(request).len(),
        listed(request).take(bad).no_duplicates(),
        listed(request).take(bad).contains(listed(request)[bad]),
        turns >= 3 * listed(request).len() + 5,
    ensures
        ({
            let parts = records(stored, listed(request));
            let (after, answer) = creation(
                conf,
                request,
                id,
                storage,
                now,
                around,
                stored,
                turns,
            );
            let rest = without(stored, parts, bad);
            &&& sound(after)
            &&& after.infos == rest.infos
            &&& !after.infos.contains_key(id)
            &&& after.files == rest.files.insert(id, bytes_of(stored.files, parts))
            &&& answer == ActionModel::Abort
        }),
{
    let ids = listed(request);
    let parts = records(stored, ids);
    let n = ids.len();
    let size = total(parts) as usize;
    let info = Upload {
        path: Some(around.path),
        ..planned(conf, request.fields(), id, storage, now)
    };
    let bytes = bytes_of(stored.files, parts);
    let full = Stored { files: stored.files.insert(id, bytes), ..stored };
    let asked: nat = if conf.tells(Hook::PreCreate) {
        1
    } else {
        0
    };
    let left = (turns - asked - 2 - n) as nat;
    lemma_joining(conf, request, id, storage, now, around, stored, turns);
    assert forall|i: int| 0 <= i < n implies {
        &&& (#[trigger] parts[i]).id == ids[i]
        &&& parts[i].id != id
        &&& stored.infos.contains_key(parts[i].id)
        &&& full.files.contains_key(parts[i].id)
    } by {
        assert(stored.infos.contains_key(ids[i]));
    }
    let seen = ids.take(bad);
    assert forall|i: int, j: int| 0 <= i < j < bad implies (#[trigger] parts[i]).id != (
    #[trigger] parts[j]).id by {
        assert(seen[i] != seen[j]);
    }
    let m = choose|m: int| 0 <= m < seen.len() && seen[m] == ids[bad];
    assert(parts[m].id == parts[bad].id);
    assert(without(full, parts, 0) == full);
    lemma_dropping_fails(
        conf,
        request,
        id,
        storage,
        now,
        around,
        full,
        joined_upload(info, size),
        parts,
        0,
        bad,
        (left - 1) as nat,
    );
    reveal_with_fuel(run, 2);
    lemma_without_commutes(stored, parts, bad, id, bytes);
    lemma_without(stored, parts, bad, id);
}

/// After a creation that failed at a part listed again, a request for what is known of the final
/// upload is refused.
pub proof fn law_repeated_part_is_told(
    conf: RustusConf,
    request: Request,
    id: Seq<char>,
    storage: Seq<char>,
    now: i64,
    around: Around,
    stored: Stored,
    later: Around,
    turns: nat,
    bad: int,
)
    requires
        sound(stored),
        fresh(stored, id),
        joins(conf, request, around),
        known(stored, listed(request)),
        joinable(records(stored, listed(request))),
        total(records(stored, listed(request))) <= usize::MAX,
        listed(request).len() <= usize::MAX,
        conf.remove_parts,
        0 <= bad < listed(request).len(),
        listed(request).take(bad).no_duplicates(),
        listed(request).take(bad).contains(listed(request)[bad]),
        turns >= 3 * listed(request).len() + 5,
    ensures
        ({
            let (after, _) = creation(conf, request, id, storage, now, around, stored, turns);
            refuses(
                run(
                    telling(conf, id, storage),
                    later,
                    after,
                    LookupState::Start,
                    EventModel::Begin,
                    1,
                ).1,
            )
        }),
{
    law_repeated_part(conf, request, id, storage, now, around, stored, turns, bad);
    let (after, _) = creation(conf, request, id, storage, now, around, stored, turns);
    law_lookup(conf, id, storage, later, after, 1);
}

} // verus!
