//! What a request that creates an upload does.

use vstd::prelude::*;
use vstd::utf8::encode_utf8;

use crate::config::RustusConf;
use crate::fields::{
    field_text, header_key, is_field_value, law_insert_reads_back, lemma_decimal_is_visible,
    lemma_keys_differ, no_fields, with_value,
};
use crate::file_info::{new_upload, Pairs, Upload};
use crate::guarantees::requests::{brings_bytes, heard, number_told};
use crate::notifiers::Hook;
use crate::protocol::creation::routes::{
    create_turn, created_reply, pairs_of, parts_in, CreateModel,
};
use crate::protocol::exchange::{says, ActionModel, Counter, EffectModel, EventModel, Request};
use crate::protocol::extensions::Extensions;
use crate::protocol::storing::{creating, creation, perform, run, sound, Around, Stored};
use crate::text::{decimal, split};

verus! {

broadcast use vstd::string::group_string_axioms;

/// The request asks for a final upload, and the server offers them.
pub open spec fn wants_final(conf: RustusConf, request: Request) -> bool {
    &&& conf.tus_extensions@.contains(Extensions::Concatenation)
    &&& field_text(request.fields(), "Upload-Concat"@) matches Some(text) && "final;"@.is_prefix_of(
        text,
    )
}

/// The request will tell the length later, and the server lets it.
pub open spec fn may_defer(conf: RustusConf, request: Request) -> bool {
    &&& conf.tus_extensions@.contains(Extensions::CreationDeferLength)
    &&& field_text(request.fields(), "Upload-Defer-Length"@) == Some("1"@)
}

/// Why the request is refused, where it is.
pub open spec fn reason(conf: RustusConf, request: Request) -> Option<Seq<char>> {
    let length = number_told(request.fields(), "Upload-Length"@);
    if length == Some(0nat) && !conf.allow_empty {
        Some("Upload-Length should be greater than zero"@)
    } else if length is None && !may_defer(conf, request) && !wants_final(conf, request) {
        Some("Upload-Length header is required"@)
    } else {
        match (conf.max_file_size, length) {
            (Some(max), Some(n)) if n > max => Some(
                "Upload-Length should be less than or equal to "@ + decimal(max as nat),
            ),
            _ => if wants_final(conf, request) && parts_in(
                field_text(request.fields(), "Upload-Concat"@)->0,
            ).len() == 0 {
                Some("Upload-Concat header has no parts to create final upload."@)
            } else {
                None
            },
        }
    }
}

/// The listeners that are asked before a creation agree.
pub open spec fn is_welcome(conf: RustusConf, around: Around) -> bool {
    conf.hooks@.contains(Hook::PreCreate) ==> around.agrees
}

/// What is told and counted while a creation runs.
pub open spec fn heard_of_creation(
    conf: RustusConf,
    request: Request,
    id: Seq<char>,
    storage: Seq<char>,
    now: i64,
    around: Around,
    stored: Stored,
    turns: nat,
) -> Seq<EffectModel> {
    heard(
        creating(conf, request, id, storage, now),
        around,
        stored,
        CreateModel::Start,
        EventModel::Begin,
        turns,
    )
}

/// A request with a reason against it is answered with the reason, stores nothing, and nobody hears
/// of it.
pub proof fn law_refused_creations(
    conf: RustusConf,
    request: Request,
    id: Seq<char>,
    storage: Seq<char>,
    now: i64,
    around: Around,
    stored: Stored,
)
    requires
        reason(conf, request) is Some,
    ensures
        ({
            let (after, answer) = creation(conf, request, id, storage, now, around, stored, 4);
            &&& after == stored
            &&& answer == (ActionModel::Respond { reply: says(400, reason(conf, request)->0) })
            &&& heard_of_creation(conf, request, id, storage, now, around, stored, 4) == Seq::<
                EffectModel,
            >::empty()
        }),
{
    reveal_with_fuel(run, 2);
    reveal_with_fuel(heard, 2);
}

/// A creation to which the listeners do not agree stores nothing, and nobody but them hears of it.
pub proof fn law_unwelcome_creations(
    conf: RustusConf,
    request: Request,
    id: Seq<char>,
    storage: Seq<char>,
    now: i64,
    around: Around,
    stored: Stored,
)
    requires
        reason(conf, request) is None,
        !is_welcome(conf, around),
    ensures
        ({
            let (after, answer) = creation(conf, request, id, storage, now, around, stored, 4);
            let said = heard_of_creation(conf, request, id, storage, now, around, stored, 4);
            &&& after == stored
            &&& answer == ActionModel::Abort
            &&& said.len() == 1
            &&& said[0] matches EffectModel::Notify { hook, request: told, info }
            &&& hook == Hook::PreCreate && told == request.told(conf) && info.id == id
        }),
{
    reveal_with_fuel(run, 3);
    reveal_with_fuel(heard, 3);
}

/// The metadata that a request tells.
pub open spec fn metadata_told(request: Request) -> Pairs {
    match field_text(request.fields(), "Upload-Metadata"@) {
        Some(text) => pairs_of(split(text, ',')),
        None => Pairs::empty(),
    }
}

/// The bytes with which an upload begins: the whole body, where the server takes bytes at a
/// creation and the request brings some.
pub open spec fn bytes_at_creation(conf: RustusConf, request: Request, around: Around) -> Seq<u8> {
    if conf.tus_extensions@.contains(Extensions::CreationWithUpload) && brings_bytes(request) {
        around.body
    } else {
        seq![]
    }
}

/// An upload that is created and is no final one has the length, the metadata and the bytes that
/// came with the request, whatever their number. It belongs to the storage, and nothing else is
/// touched.
pub proof fn law_created_uploads(
    conf: RustusConf,
    request: Request,
    id: Seq<char>,
    storage: Seq<char>,
    now: i64,
    around: Around,
    stored: Stored,
)
    requires
        sound(stored),
        around.body.len() == request.body_len,
        reason(conf, request) is None,
        is_welcome(conf, around),
        !wants_final(conf, request),
    ensures
        ({
            let (after, _) = creation(conf, request, id, storage, now, around, stored, 4);
            let bytes = bytes_at_creation(conf, request, around);
            let upload = after.infos[id];
            &&& after.files == stored.files.insert(id, bytes)
            &&& after.infos == stored.infos.insert(id, upload)
            &&& upload.id == id
            &&& upload.offset == bytes.len()
            &&& match number_told(request.fields(), "Upload-Length"@) {
                Some(n) => upload.length matches Some(length) && length == n
                    && !upload.deferred_size,
                None => upload.length is None && upload.deferred_size,
            }
            &&& upload.path == Some(around.path)
            &&& upload.created_at == now
            &&& upload.storage == storage
            &&& upload.metadata == metadata_told(request)
            &&& !upload.is_final
            &&& upload.parts is None
            &&& upload.is_partial <==> conf.tus_extensions@.contains(Extensions::Concatenation)
                && field_text(request.fields(), "Upload-Concat"@) == Some("partial"@)
        }),
{
    reveal_with_fuel(run, 6);
    let (after, _) = creation(conf, request, id, storage, now, around, stored, 4);
    let bytes = bytes_at_creation(conf, request, around);
    assert(Seq::<u8>::empty() + around.body =~= around.body);
    if around.body.len() == 0 {
        assert(around.body =~= Seq::<u8>::empty());
    }
    assert(after.files =~= stored.files.insert(id, bytes));
    assert(after.infos =~= stored.infos.insert(id, after.infos[id]));
}

/// A creation is answered with where the upload is found and how many bytes have come, and nothing
/// more.
pub proof fn law_creations_are_answered(
    conf: RustusConf,
    request: Request,
    id: Seq<char>,
    storage: Seq<char>,
    now: i64,
    around: Around,
    stored: Stored,
)
    requires
        sound(stored),
        around.body.len() == request.body_len,
        reason(conf, request) is None,
        is_welcome(conf, around),
        !wants_final(conf, request),
    ensures
        ({
            let (after, answer) = creation(conf, request, id, storage, now, around, stored, 4);
            answers_creation(conf, after.infos[id], answer)
        }),
{
    reveal_with_fuel(run, 6);
    let (after, _) = creation(conf, request, id, storage, now, around, stored, 4);
    lemma_answers_creation(conf, after.infos[id]);
}

/// The answer tells where the upload is found, and how many bytes have come.
pub open spec fn answers_creation(conf: RustusConf, upload: Upload, answer: ActionModel) -> bool {
    let address = "/"@ + conf.base_url@ + "/"@ + upload.id;
    &&& answer matches ActionModel::Respond { reply }
    &&& reply.status == 201
    &&& is_field_value(address) ==> {
        &&& reply.body is None
        &&& reply.fields.contains_key(header_key("Location"@))
        &&& reply.fields[header_key("Location"@)] == seq![encode_utf8(address)]
        &&& field_text(reply.fields, "Upload-Offset"@) == Some(decimal(upload.offset as nat))
        &&& forall|key: Seq<char>| #[trigger]
            reply.fields.contains_key(key) ==> key == header_key("Upload-Offset"@) || key
                == header_key("Location"@)
    }
    &&& !is_field_value(address) ==> reply == says(201, "failed to parse header value"@)
}

/// The reply to a creation tells where the upload is found, and how many bytes have come.
pub proof fn lemma_answers_creation(conf: RustusConf, info: Upload)
    ensures
        answers_creation(
            conf,
            info,
            ActionModel::Respond {
                reply: created_reply(conf, info),
            },
        ),
{
    reveal_strlit("Location");
    reveal_strlit("Upload-Offset");
    lemma_keys_differ("Location"@, "Upload-Offset"@, 0);
    let n = info.offset as nat;
    lemma_decimal_is_visible(n);
    let address = "/"@ + conf.base_url@ + "/"@ + info.id;
    let first = with_value(no_fields(), "Location"@, address);
    law_insert_reads_back(first, "Upload-Offset"@, decimal(n), "Upload-Offset"@);
}

/// What is told once an upload is saved.
pub open spec fn told_when_saved(conf: RustusConf, request: Request, info: Upload) -> Seq<EffectModel> {
    let hook = if info.is_final || info.length == Some(info.offset) {
        Hook::PostFinish
    } else {
        Hook::PostCreate
    };
    if conf.hooks@.contains(hook) {
        seq![EffectModel::Notify { hook, request: request.told(conf), info }]
    } else {
        seq![]
    }
}

/// What is counted once there is room for an upload.
pub open spec fn counted_at_creation(info: Upload) -> Seq<EffectModel> {
    let counted = seq![
        EffectModel::Count { counter: Counter::ActiveMore },
        EffectModel::Count { counter: Counter::Started },
    ];
    match info.length {
        Some(size) => counted + seq![EffectModel::ObserveSize { size }],
        None => counted,
    }
}

/// Once an upload is saved, nothing but what is told then follows.
proof fn lemma_heard_when_saved(
    conf: RustusConf,
    request: Request,
    id: Seq<char>,
    storage: Seq<char>,
    now: i64,
    around: Around,
    stored: Stored,
    info: Upload,
    turns: nat,
)
    ensures
        heard(
            creating(conf, request, id, storage, now),
            around,
            stored,
            CreateModel::Saving { info },
            EventModel::Done,
            turns,
        ) == told_when_saved(conf, request, info),
{
    reveal_with_fuel(heard, 1);
    let said = told_when_saved(conf, request, info);
    assert(said + seq![] =~= said);
}

/// From where there is room for an upload that is no final one, to the end.
proof fn lemma_heard_when_created(
    conf: RustusConf,
    request: Request,
    id: Seq<char>,
    storage: Seq<char>,
    now: i64,
    around: Around,
    stored: Stored,
    info: Upload,
    turns: nat,
)
    requires
        turns >= 2,
        !info.is_final,
        info.offset + request.body_len <= usize::MAX,
        stored.files.contains_key(info.id),
    ensures
        ({
            let handler = creating(conf, request, id, storage, now);
            let event = EventModel::Created { info, path: around.path };
            let state = CreateModel::Creating;
            let kept = Upload { path: Some(around.path), ..info };
            let last = run(handler, around, stored, state, event, turns).0.infos[info.id];
            heard(handler, around, stored, state, event, turns) == counted_at_creation(info)
                + told_when_saved(conf, request, last)
        }),
{
    reveal_with_fuel(run, 4);
    let handler = creating(conf, request, id, storage, now);
    let event = EventModel::Created { info, path: around.path };
    let kept = Upload { path: Some(around.path), ..info };
    let taken = handler(CreateModel::Creating, event);
    assert(taken.effects =~= counted_at_creation(info));
    let (more, next) = perform(around, stored, taken.action);
    let rest = heard(handler, around, more, taken.state, next, (turns - 1) as nat);
    assert(heard(handler, around, stored, CreateModel::Creating, event, turns) == taken.effects
        + seq![] + rest);
    assert(taken.effects + seq![] =~= taken.effects);
    if let ActionModel::AddBytes { info: added } = taken.action {
        let grown = Upload { offset: (kept.offset + request.body_len) as usize, ..kept };
        let saving = handler(CreateModel::Appending, next);
        assert(saving.state == CreateModel::Saving { info: grown });
        let (saved, done) = perform(around, more, saving.action);
        lemma_heard_when_saved(
            conf,
            request,
            id,
            storage,
            now,
            around,
            saved,
            grown,
            (turns - 2) as nat,
        );
        let told = told_when_saved(conf, request, grown);
        assert(rest == saving.effects + seq![] + heard(
            handler,
            around,
            saved,
            saving.state,
            done,
            (turns - 2) as nat,
        ));
        assert(saving.effects + seq![] + told =~= told);
    } else {
        lemma_heard_when_saved(
            conf,
            request,
            id,
            storage,
            now,
            around,
            more,
            kept,
            (turns - 1) as nat,
        );
    }
}

/// Who hears of a creation: the listeners that are asked, those who count, and those who are told in
/// the end, which is of a finished upload where all of its bytes came with the request.
pub proof fn law_creations_are_heard_of(
    conf: RustusConf,
    request: Request,
    id: Seq<char>,
    storage: Seq<char>,
    now: i64,
    around: Around,
    stored: Stored,
)
    requires
        sound(stored),
        around.body.len() == request.body_len,
        reason(conf, request) is None,
        is_welcome(conf, around),
        !wants_final(conf, request),
    ensures
        ({
            let (after, _) = creation(conf, request, id, storage, now, around, stored, 4);
            let info = after.infos[id];
            let asked = if conf.hooks@.contains(Hook::PreCreate) {
                seq![
                    EffectModel::Notify {
                        hook: Hook::PreCreate,
                        request: request.told(conf),
                        info: Upload { path: None, offset: 0, ..info },
                    },
                ]
            } else {
                seq![]
            };
            heard_of_creation(conf, request, id, storage, now, around, stored, 4) == asked
                + counted_at_creation(info) + told_when_saved(conf, request, info)
        }),
{
    let handler = creating(conf, request, id, storage, now);
    let (after, _) = creation(conf, request, id, storage, now, around, stored, 4);
    law_created_uploads(conf, request, id, storage, now, around, stored);
    let begun = handler(CreateModel::Start, EventModel::Begin);
    let asks = conf.hooks@.contains(Hook::PreCreate);
    let info = match begun.action {
        ActionModel::SendHook { info, .. } => info,
        ActionModel::CreateFile { info } => info,
        _ => arbitrary(),
    };
    let room = Stored { files: stored.files.insert(id, seq![]), ..stored };
    let event = EventModel::Created { info, path: around.path };
    let turns: nat = if asks {
        2
    } else {
        3
    };
    let rest = heard(handler, around, room, CreateModel::Creating, event, turns);
    assert(info.id == id);
    lemma_heard_when_created(conf, request, id, storage, now, around, room, info, turns);
    let final_info = after.infos[id];
    assert(run(handler, around, room, CreateModel::Creating, event, turns) == creation(
        conf,
        request,
        id,
        storage,
        now,
        around,
        stored,
        4,
    )) by {
        reveal_with_fuel(run, 3);
    }
    let asked = if asks {
        seq![
            EffectModel::Notify { hook: Hook::PreCreate, request: request.told(conf), info },
        ]
    } else {
        seq![]
    };
    assert(heard_of_creation(conf, request, id, storage, now, around, stored, 4) =~= asked + rest)
        by {
        reveal_with_fuel(heard, 3);
        let none = Seq::<EffectModel>::empty();
        assert(none + asked =~= asked);
        assert(none + none + rest =~= rest);
    }
    assert(info =~= Upload { path: None, offset: 0, ..final_info });
    assert(counted_at_creation(info) == counted_at_creation(final_info));
    assert(asked + (counted_at_creation(info) + told_when_saved(conf, request, final_info))
        =~= asked + counted_at_creation(info) + told_when_saved(conf, request, final_info));
}

/// A creation saves a record that was not there before. Whatever record the data storage hands back
/// is the one that is saved, with the path and with as many bytes more as were added.
pub proof fn law_created_records(
    conf: RustusConf,
    request: Request,
    id: Seq<char>,
    storage: Seq<char>,
    now: i64,
    state: CreateModel,
    event: EventModel,
    info: Upload,
    path: Seq<char>,
)
    requires
        info.offset + request.body_len <= usize::MAX,
        !info.is_final,
    ensures
        create_turn(conf, request, id, storage, now, state, event).action matches ActionModel::SetInfo {
            create,
            ..
        } ==> create,
        ({
            let kept = Upload { path: Some(path), ..info };
            let action = create_turn(
                conf,
                request,
                id,
                storage,
                now,
                CreateModel::Creating,
                EventModel::Created { info, path },
            ).action;
            action == (ActionModel::AddBytes { info: kept }) || action == (ActionModel::SetInfo {
                info: kept,
                create: true,
            })
        }),
        create_turn(
            conf,
            request,
            id,
            storage,
            now,
            CreateModel::Appending,
            EventModel::Appended { info },
        ).action matches ActionModel::SetInfo { info: saved, .. } && saved.offset == info.offset
            + request.body_len && saved == (Upload { offset: saved.offset, ..info }),
{
}

/// The parts of a final upload are looked up one by one in their order, and the data storage is
/// handed the record of the upload and the records of all of them as they were found.
pub proof fn law_parts_are_handed_on(
    conf: RustusConf,
    request: Request,
    id: Seq<char>,
    storage: Seq<char>,
    now: i64,
    info: Upload,
    path: Seq<char>,
    ids: Seq<Seq<char>>,
    found: Seq<Upload>,
    size: usize,
    part: Upload,
    next: usize,
)
    requires
        info.is_final,
        info.parts == Some(ids),
        found.len() < ids.len(),
        part.length == Some(part.offset),
        part.is_partial,
        size + part.offset <= usize::MAX,
        next < usize::MAX,
    ensures
        ({
            let turn = create_turn(
                conf,
                request,
                id,
                storage,
                now,
                CreateModel::Creating,
                EventModel::Created { info, path },
            );
            &&& turn.action == (ActionModel::GetInfo { id: ids[0] })
            &&& turn.state == (CreateModel::Gathering {
                info: Upload { path: Some(path), ..info },
                parts: seq![],
                size: 0,
            })
        }),
        ({
            let turn = create_turn(
                conf,
                request,
                id,
                storage,
                now,
                CreateModel::Gathering { info, parts: found, size },
                EventModel::Info { info: part },
            );
            let more = found.push(part);
            let sum = (size + part.offset) as usize;
            if more.len() < ids.len() {
                &&& turn.action == (ActionModel::GetInfo { id: ids[more.len() as int] })
                &&& turn.state == (CreateModel::Gathering { info, parts: more, size: sum })
            } else {
                &&& turn.action == (ActionModel::ConcatFiles { info, parts: more })
                &&& turn.state == (CreateModel::Joining { info, parts: more, size: sum })
            }
        }),
        found.len() > 0 && conf.remove_parts ==> create_turn(
            conf,
            request,
            id,
            storage,
            now,
            CreateModel::Joining { info, parts: found, size },
            EventModel::Done,
        ).action == (ActionModel::RemoveFile { info: found[0] }),
        create_turn(
            conf,
            request,
            id,
            storage,
            now,
            CreateModel::DroppingFile { info, parts: found, next },
            EventModel::Done,
        ).action == (ActionModel::RemoveInfo { id: found[next as int].id }),
        next + 1 < found.len() ==> create_turn(
            conf,
            request,
            id,
            storage,
            now,
            CreateModel::DroppingInfo { info, parts: found, next },
            EventModel::Done,
        ).action == (ActionModel::RemoveFile { info: found[next + 1] }),
{
}

/// A new upload is what it is made of: no byte has come, and its length comes later if and only if
/// it is not known.
pub proof fn law_new_uploads(
    id: Seq<char>,
    length: Option<usize>,
    path: Option<Seq<char>>,
    storage: Seq<char>,
    metadata: Option<Pairs>,
    created_at: i64,
)
    ensures
        ({
            let upload = new_upload(id, length, path, storage, metadata, created_at);
            &&& upload.id == id && upload.length == length && upload.path == path
            &&& upload.storage == storage && upload.created_at == created_at && upload.offset == 0
            &&& upload.deferred_size <==> length is None
            &&& !upload.is_final && !upload.is_partial && upload.parts is None
            &&& metadata matches Some(pairs) ==> upload.metadata == pairs
            &&& metadata is None ==> upload.metadata.len() == 0
        }),
{
}

} // verus!
