//! The request that removes an upload.

use vstd::prelude::*;

use crate::config::RustusConf;
use crate::errors::RustusError;
use crate::file_info::{FileInfo, Upload};
use crate::notifiers::Hook;
use crate::protocol::exchange::{
    bare, effects_of, turn, Action, ActionModel, Counter, Effect, EffectModel, Event, EventModel,
    Reply, Request, Turn, TurnModel,
};
use crate::text::same;

verus! {

broadcast use vstd::string::group_string_axioms;

/// The model of how far a removal has come.
#[verifier::ext_equal]
pub enum TerminateModel {
    Start,
    Loading,
    Announcing { info: Upload },
    RemovingInfo { info: Upload },
    RemovingFile { info: Upload },
    Finished,
}

/// How far a removal has come.
#[derive(Debug)]
pub enum TerminateState {
    /// Nothing is done.
    Start,
    /// The upload is looked up.
    Loading,
    /// The listeners are told that the upload will be removed.
    Announcing { info: FileInfo },
    /// The info storage removes the upload.
    RemovingInfo { info: FileInfo },
    /// The data storage removes the upload.
    RemovingFile { info: FileInfo },
    /// The request is answered.
    Finished,
}

impl View for TerminateState {
    type V = TerminateModel;

    open spec fn view(&self) -> TerminateModel {
        match *self {
            TerminateState::Start => TerminateModel::Start,
            TerminateState::Loading => TerminateModel::Loading,
            TerminateState::Announcing { info } => TerminateModel::Announcing { info: info@ },
            TerminateState::RemovingInfo { info } => TerminateModel::RemovingInfo { info: info@ },
            TerminateState::RemovingFile { info } => TerminateModel::RemovingFile { info: info@ },
            TerminateState::Finished => TerminateModel::Finished,
        }
    }
}

/// Remove what is known of the upload.
pub open spec fn remove_info(file_id: Seq<char>, info: Upload) -> TurnModel<TerminateModel> {
    turn(TerminateModel::RemovingInfo { info }, ActionModel::RemoveInfo { id: file_id })
}

/// The upload is looked up.
pub open spec fn terminate_loaded(
    conf: RustusConf,
    request: Request,
    file_id: Seq<char>,
    storage: Seq<char>,
    info: Upload,
) -> TurnModel<TerminateModel> {
    if info.storage != storage {
        turn(TerminateModel::Finished, ActionModel::Fail { error: RustusError::FileNotFound })
    } else if conf.tells(Hook::PreTerminate) {
        turn(
            TerminateModel::Announcing { info },
            ActionModel::SendHook { hook: Hook::PreTerminate, request: request.told(conf), info },
        )
    } else {
        remove_info(file_id, info)
    }
}

/// What is counted and told once an upload is removed.
pub open spec fn terminate_effects(conf: RustusConf, request: Request, info: Upload) -> Seq<
    EffectModel,
> {
    let counted = seq![EffectModel::Count { counter: Counter::Terminated }];
    if conf.tells(Hook::PostTerminate) {
        counted.push(
            EffectModel::Notify { hook: Hook::PostTerminate, request: request.told(conf), info },
        )
    } else {
        counted
    }
}

/// The turn of a removal.
pub open spec fn terminate_turn(
    conf: RustusConf,
    request: Request,
    file_id: Seq<char>,
    storage: Seq<char>,
    state: TerminateModel,
    event: EventModel,
) -> TurnModel<TerminateModel> {
    match (state, event) {
        (TerminateModel::Start, EventModel::Begin) => turn(
            TerminateModel::Loading,
            ActionModel::GetInfo { id: file_id },
        ),
        (TerminateModel::Loading, EventModel::Info { info }) => terminate_loaded(
            conf,
            request,
            file_id,
            storage,
            info,
        ),
        (TerminateModel::Announcing { info }, EventModel::Done) => remove_info(file_id, info),
        (TerminateModel::RemovingInfo { info }, EventModel::Done) => turn(
            TerminateModel::RemovingFile { info },
            ActionModel::RemoveFile { info },
        ),
        (TerminateModel::RemovingFile { info }, EventModel::Done) => TurnModel {
            state: TerminateModel::Finished,
            effects: terminate_effects(conf, request, info),
            action: ActionModel::Respond { reply: bare(204) },
        },
        _ => turn(TerminateModel::Finished, ActionModel::Abort),
    }
}

fn remove_turn(file_id: &str, info: FileInfo) -> (r: Turn<TerminateState>)
    ensures
        r@ == remove_info(file_id@, info@),
{
    Turn::quiet(
        TerminateState::RemovingInfo { info },
        Action::RemoveInfo { id: file_id.to_owned() },
    )
}

/// Terminate uploading.
///
/// This method will remove all data by id.
/// It removes info and actual data.
pub fn terminate(
    conf: &RustusConf,
    request: &Request,
    file_id: &str,
    storage: &str,
    state: TerminateState,
    event: Event,
) -> (r: Turn<TerminateState>)
    ensures
        r@ == terminate_turn(*conf, *request, file_id@, storage@, state@, event@),
{
    match (state, event) {
        (TerminateState::Start, Event::Begin) => Turn::quiet(
            TerminateState::Loading,
            Action::GetInfo { id: file_id.to_owned() },
        ),
        (TerminateState::Loading, Event::Info { info }) => {
            if !same(info.storage.as_str(), storage) {
                Turn::quiet(
                    TerminateState::Finished,
                    Action::Fail { error: RustusError::FileNotFound },
                )
            } else if conf.hook_is_active(Hook::PreTerminate) {
                let action = Action::SendHook {
                    hook: Hook::PreTerminate,
                    request: request.request_info(conf),
                    info: info.clone(),
                };
                Turn::quiet(TerminateState::Announcing { info }, action)
            } else {
                remove_turn(file_id, info)
            }
        },
        (TerminateState::Announcing { info }, Event::Done) => remove_turn(file_id, info),
        (TerminateState::RemovingInfo { info }, Event::Done) => {
            let action = Action::RemoveFile { info: info.clone() };
            Turn::quiet(TerminateState::RemovingFile { info }, action)
        },
        (TerminateState::RemovingFile { info }, Event::Done) => {
            let ghost upload = info@;
            let mut effects: Vec<Effect> = Vec::new();
            effects.push(Effect::Count { counter: Counter::Terminated });
            if conf.hook_is_active(Hook::PostTerminate) {
                effects.push(
                    Effect::Notify {
                        hook: Hook::PostTerminate,
                        request: request.request_info(conf),
                        info,
                    },
                );
            }
            assert(effects_of(effects@) =~= terminate_effects(*conf, *request, upload));
            Turn {
                state: TerminateState::Finished,
                effects,
                action: Action::Respond { reply: Reply::status(204) },
            }
        },
        _ => Turn::quiet(TerminateState::Finished, Action::Abort),
    }
}

} // verus!
