//! The request for the bytes of an upload.

use vstd::prelude::*;

use crate::errors::RustusError;
use crate::protocol::base::get_info::LookupState;
use crate::protocol::exchange::{
    turn, Action, ActionModel, Event, EventModel, Turn, TurnModel,
};
use crate::text::same;

verus! {

/// The turn of a request for the bytes of an upload.
pub open spec fn get_turn(
    file_id: Seq<char>,
    storage: Seq<char>,
    state: LookupState,
    event: EventModel,
) -> TurnModel<LookupState> {
    match (state, event) {
        (LookupState::Start, EventModel::Begin) => turn(
            LookupState::Loading,
            ActionModel::GetInfo { id: file_id },
        ),
        (LookupState::Loading, EventModel::Info { info }) => turn(
            LookupState::Finished,
            if info.storage != storage {
                ActionModel::Fail { error: RustusError::FileNotFound }
            } else {
                ActionModel::GetContents { info }
            },
        ),
        _ => turn(LookupState::Finished, ActionModel::Abort),
    }
}

/// Retrieve actual file.
///
/// This method allows you to download files directly from storage.
pub fn get_file(file_id: &str, storage: &str, state: LookupState, event: Event) -> (r: Turn<
    LookupState,
>)
    ensures
        r@ == get_turn(file_id@, storage@, state, event@),
{
    match (state, event) {
        (LookupState::Start, Event::Begin) => Turn::quiet(
            LookupState::Loading,
            Action::GetInfo { id: file_id.to_owned() },
        ),
        (LookupState::Loading, Event::Info { info }) => {
            let action = if !same(info.storage.as_str(), storage) {
                Action::Fail { error: RustusError::FileNotFound }
            } else {
                Action::GetContents { info }
            };
            Turn::quiet(LookupState::Finished, action)
        },
        _ => Turn::quiet(LookupState::Finished, Action::Abort),
    }
}

} // verus!
