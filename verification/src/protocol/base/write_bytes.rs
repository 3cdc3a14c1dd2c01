//! The request that adds bytes to an upload.

use vstd::prelude::*;
use vstd::slice::slice_to_vec;

use crate::config::RustusConf;
use crate::errors::RustusError;
use crate::fields::{
    field_bytes, header_bytes, insert_header, lemma_decimal_is_value, no_fields, no_headers,
    with_value,
};
use crate::file_info::{FileInfo, Upload};
use crate::notifiers::Hook;
use crate::protocol::exchange::{
    bare, effects_of, says, turn, Action, ActionModel, Counter, Effect, EffectModel, Event,
    EventModel, Reply, ReplyModel, Request, Turn, TurnModel,
};
use crate::protocol::extensions::Extensions;
use crate::protocol::reading::{
    header_sends_bytes, header_size, length_in, offset_in, sends_bytes,
};
use crate::text::{decimal, decimal_text, same};

verus! {

broadcast use vstd::string::group_string_axioms;

/// The model of how far a write has come.
#[verifier::ext_equal]
pub enum WriteModel {
    Start,
    Verifying,
    Loading,
    Appending,
    Saving { info: Upload },
    Finished,
}

/// How far a write has come.
#[derive(Debug)]
pub enum WriteState {
    /// Nothing is done.
    Start,
    /// The body is held against its checksum.
    Verifying,
    /// The upload is looked up.
    Loading,
    /// The data storage takes the bytes.
    Appending,
    /// The info storage takes the upload.
    Saving { info: FileInfo },
    /// The request is answered.
    Finished,
}

impl View for WriteState {
    type V = WriteModel;

    open spec fn view(&self) -> WriteModel {
        match *self {
            WriteState::Start => WriteModel::Start,
            WriteState::Verifying => WriteModel::Verifying,
            WriteState::Loading => WriteModel::Loading,
            WriteState::Appending => WriteModel::Appending,
            WriteState::Saving { info } => WriteModel::Saving { info: info@ },
            WriteState::Finished => WriteModel::Finished,
        }
    }
}

/// Whether the offset that an event leads to can be counted.
pub open spec fn write_fits(request: Request, state: WriteModel, event: EventModel) -> bool {
    match (state, event) {
        (WriteModel::Appending, EventModel::Appended { info }) => info.offset + request.body_len
            <= usize::MAX,
        _ => true,
    }
}

pub open spec fn write_answers(reply: ReplyModel) -> TurnModel<WriteModel> {
    turn(WriteModel::Finished, ActionModel::Respond { reply })
}

pub open spec fn write_fails(error: RustusError) -> TurnModel<WriteModel> {
    turn(WriteModel::Finished, ActionModel::Fail { error })
}

/// Look the upload up.
pub open spec fn look_up(file_id: Seq<char>) -> TurnModel<WriteModel> {
    turn(WriteModel::Loading, ActionModel::GetInfo { id: file_id })
}

/// The request has come.
pub open spec fn write_begun(conf: RustusConf, request: Request, file_id: Seq<char>) -> TurnModel<
    WriteModel,
> {
    let checksum = field_bytes(request.fields(), "Upload-Checksum"@);
    if !sends_bytes(request.fields()) {
        write_answers(says(415, "Unknown content-type."@))
    } else if offset_in(request.fields()) is None {
        write_answers(says(415, "No offset provided."@))
    } else if conf.offers(Extensions::Checksum) && checksum is Some {
        turn(WriteModel::Verifying, ActionModel::VerifyChecksum { checksum: checksum->0 })
    } else {
        look_up(file_id)
    }
}

/// The length that the request tells of an upload whose length was deferred.
pub open spec fn told_length(conf: RustusConf, request: Request) -> Option<usize> {
    if conf.offers(Extensions::CreationDeferLength) {
        length_in(request.fields())
    } else {
        None
    }
}

/// The upload with the length that the request tells.
pub open spec fn with_length(info: Upload, told: Option<usize>) -> Upload {
    match told {
        Some(length) => Upload { deferred_size: false, length: Some(length), ..info },
        None => info,
    }
}

/// The upload is looked up.
pub open spec fn write_loaded(
    conf: RustusConf,
    request: Request,
    storage: Seq<char>,
    info: Upload,
) -> TurnModel<WriteModel> {
    let told = told_length(conf, request);
    if info.is_final {
        write_answers(bare(403))
    } else if info.storage != storage {
        write_fails(RustusError::FileNotFound)
    } else if offset_in(request.fields()) != Some(info.offset) {
        write_answers(bare(409))
    } else if told is Some && told->0 < info.offset {
        write_fails(RustusError::WrongOffset)
    } else if told is Some && info.length is Some {
        write_fails(RustusError::SizeAlreadyKnown)
    } else if with_length(info, told).complete() {
        write_fails(RustusError::FrozenFile)
    } else {
        turn(WriteModel::Appending, ActionModel::AddBytes { info: with_length(info, told) })
    }
}

/// The upload with more bytes.
pub open spec fn grown(info: Upload, more: usize) -> Upload {
    Upload { offset: (info.offset + more) as usize, ..info }
}

/// The hook of which listeners are told once bytes are written.
pub open spec fn write_hook(info: Upload) -> Hook {
    if info.complete() {
        Hook::PostFinish
    } else {
        Hook::PostReceive
    }
}

/// The reply to a request that added bytes: how many have come by now.
pub open spec fn written_reply(info: Upload) -> ReplyModel {
    ReplyModel {
        status: 204,
        fields: with_value(
            with_value(no_fields(), "Upload-Offset"@, decimal(info.offset as nat)),
            "Cache-Control"@,
            "no-cache"@,
        ),
        body: None,
    }
}

/// What is told and counted once bytes are written.
pub open spec fn write_effects(conf: RustusConf, request: Request, info: Upload) -> Seq<EffectModel> {
    let hook = write_hook(info);
    let notices = if conf.tells(hook) {
        seq![EffectModel::Notify { hook, request: request.told(conf), info }]
    } else {
        seq![]
    };
    if hook == Hook::PostFinish {
        notices + seq![
            EffectModel::Count { counter: Counter::ActiveLess },
            EffectModel::Count { counter: Counter::Finished },
        ]
    } else {
        notices
    }
}

/// The turn of a write.
pub open spec fn write_turn(
    conf: RustusConf,
    request: Request,
    file_id: Seq<char>,
    storage: Seq<char>,
    state: WriteModel,
    event: EventModel,
) -> TurnModel<WriteModel> {
    match (state, event) {
        (WriteModel::Start, EventModel::Begin) => write_begun(conf, request, file_id),
        (WriteModel::Verifying, EventModel::Checksum { matches }) => if matches {
            look_up(file_id)
        } else {
            write_fails(RustusError::WrongChecksum)
        },
        (WriteModel::Loading, EventModel::Info { info }) => write_loaded(
            conf,
            request,
            storage,
            info,
        ),
        (WriteModel::Appending, EventModel::Appended { info }) => {
            let info = grown(info, request.body_len);
            turn(WriteModel::Saving { info }, ActionModel::SetInfo { info, create: false })
        },
        (WriteModel::Saving { info }, EventModel::Done) => TurnModel {
            state: WriteModel::Finished,
            effects: write_effects(conf, request, info),
            action: ActionModel::Respond { reply: written_reply(info) },
        },
        _ => turn(WriteModel::Finished, ActionModel::Abort),
    }
}

fn answer_turn(reply: Reply) -> (r: Turn<WriteState>)
    ensures
        r@ == write_answers(reply@),
{
    Turn::quiet(WriteState::Finished, Action::Respond { reply })
}

fn fail_turn(error: RustusError) -> (r: Turn<WriteState>)
    ensures
        r@ == write_fails(error),
{
    Turn::quiet(WriteState::Finished, Action::Fail { error })
}

fn look_up_turn(file_id: &str) -> (r: Turn<WriteState>)
    ensures
        r@ == look_up(file_id@),
{
    Turn::quiet(WriteState::Loading, Action::GetInfo { id: file_id.to_owned() })
}

fn begun_turn(conf: &RustusConf, request: &Request, file_id: &str) -> (r: Turn<WriteState>)
    ensures
        r@ == write_begun(*conf, *request, file_id@),
{
    // Checking if request has required headers.
    if !header_sends_bytes(&request.headers) {
        return answer_turn(Reply::text(415, "Unknown content-type.".to_owned()));
    }
    if header_size(&request.headers, "Upload-Offset").is_none() {
        return answer_turn(Reply::text(415, "No offset provided.".to_owned()));
    }
    if conf.extension_is_enabled(Extensions::Checksum) {
        if let Some(checksum) = header_bytes(&request.headers, "Upload-Checksum") {
            let checksum = slice_to_vec(checksum);
            return Turn::quiet(WriteState::Verifying, Action::VerifyChecksum { checksum });
        }
    }
    look_up_turn(file_id)
}

fn loaded_turn(conf: &RustusConf, request: &Request, storage: &str, info: FileInfo) -> (r: Turn<
    WriteState,
>)
    ensures
        r@ == write_loaded(*conf, *request, storage@, info@),
{
    let updated_len = if conf.extension_is_enabled(Extensions::CreationDeferLength) {
        header_size(&request.headers, "Upload-Length")
    } else {
        None
    };
    // According to TUS protocol you can't update final uploads.
    if info.is_final {
        return answer_turn(Reply::status(403));
    }
    // Checking if file was stored in the same storage.
    if !same(info.storage.as_str(), storage) {
        return fail_turn(RustusError::FileNotFound);
    }
    // Checking if offset from request is the same as the real offset.
    if header_size(&request.headers, "Upload-Offset") != Some(info.offset) {
        return answer_turn(Reply::status(409));
    }
    let ghost upload = with_length(info@, updated_len);
    let mut info = info;
    if let Some(new_len) = updated_len {
        // The total length is less than what has come already.
        if new_len < info.offset {
            return fail_turn(RustusError::WrongOffset);
        }
        // The exact size is known, and stays.
        if info.length.is_some() {
            return fail_turn(RustusError::SizeAlreadyKnown);
        }
        info.deferred_size = false;
        info.length = Some(new_len);
    }
    assert(info@ =~= upload);
    // All bytes were already written.
    if Some(info.offset) == info.length {
        return fail_turn(RustusError::FrozenFile);
    }
    Turn::quiet(WriteState::Appending, Action::AddBytes { info })
}

fn reply_written(info: &FileInfo) -> (r: Reply)
    ensures
        r@ == written_reply(info@),
{
    proof {
        reveal_strlit("Upload-Offset");
        reveal_strlit("Cache-Control");
        reveal_strlit("no-cache");
        lemma_decimal_is_value(info.offset as nat);
    }
    let mut headers = no_headers();
    insert_header(&mut headers, "Upload-Offset", decimal_text(info.offset as u64).as_str());
    insert_header(&mut headers, "Cache-Control", "no-cache");
    Reply { status: 204, headers, body: None }
}

fn saved_turn(conf: &RustusConf, request: &Request, info: FileInfo) -> (r: Turn<WriteState>)
    ensures
        r@ == (TurnModel {
            state: WriteModel::Finished,
            effects: write_effects(*conf, *request, info@),
            action: ActionModel::Respond { reply: written_reply(info@) },
        }),
{
    let hook = if info.length == Some(info.offset) {
        Hook::PostFinish
    } else {
        Hook::PostReceive
    };
    let reply = reply_written(&info);
    let ghost upload = info@;
    let ghost notice = EffectModel::Notify { hook, request: request.told(*conf), info: info@ };
    let mut effects: Vec<Effect> = Vec::new();
    if conf.hook_is_active(hook) {
        effects.push(Effect::Notify { hook, request: request.request_info(conf), info });
    }
    if hook == Hook::PostFinish {
        effects.push(Effect::Count { counter: Counter::ActiveLess });
        effects.push(Effect::Count { counter: Counter::Finished });
    }
    assert(effects_of(effects@) =~= write_effects(*conf, *request, upload));
    Turn { state: WriteState::Finished, effects, action: Action::Respond { reply } }
}

/// Adds the body of a request to the bytes of an upload.
///
/// The request tells the offset at which its bytes belong, which is where the upload has come to.
/// It may bring a checksum of the bytes, and the length of an upload that was created without it.
pub fn write_bytes(
    conf: &RustusConf,
    request: &Request,
    file_id: &str,
    storage: &str,
    state: WriteState,
    event: Event,
) -> (r: Turn<WriteState>)
    requires
        write_fits(*request, state@, event@),
    ensures
        r@ == write_turn(*conf, *request, file_id@, storage@, state@, event@),
{
    match (state, event) {
        (WriteState::Start, Event::Begin) => begun_turn(conf, request, file_id),
        (WriteState::Verifying, Event::Checksum { matches }) => {
            if matches {
                look_up_turn(file_id)
            } else {
                fail_turn(RustusError::WrongChecksum)
            }
        },
        (WriteState::Loading, Event::Info { info }) => loaded_turn(conf, request, storage, info),
        (WriteState::Appending, Event::Appended { info }) => {
            let mut info = info;
            let ghost upload = grown(info@, request.body_len);
            info.offset = info.offset + request.body_len;
            assert(info@ =~= upload);
            let action = Action::SetInfo { info: info.clone(), create: false };
            Turn::quiet(WriteState::Saving { info }, action)
        },
        (WriteState::Saving { info }, Event::Done) => saved_turn(conf, request, info),
        _ => Turn::quiet(WriteState::Finished, Action::Abort),
    }
}

} // verus!
