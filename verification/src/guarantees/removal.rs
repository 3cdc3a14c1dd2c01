//! What a request that removes an upload does.

use vstd::prelude::*;

use crate::config::RustusConf;
use crate::errors::RustusError;
use crate::file_info::Upload;
use crate::guarantees::requests::heard;
use crate::notifiers::Hook;
use crate::protocol::exchange::{ActionModel, Counter, EffectModel, EventModel, Request};
use crate::protocol::storing::{removing, run, sound, Around, Stored};
use crate::protocol::termination::routes::{terminate_turn, TerminateModel};

verus! {

/// A removed upload leaves neither its record nor its bytes, and all others stay. One that is not
/// known, that belongs to another storage, or whose removal the listeners refuse, stays.
pub proof fn law_removals(
    conf: RustusConf,
    request: Request,
    id: Seq<char>,
    storage: Seq<char>,
    around: Around,
    stored: Stored,
)
    requires
        sound(stored),
    ensures
        ({
            let (after, answer) = run(
                removing(conf, request, id, storage),
                around,
                stored,
                TerminateModel::Start,
                EventModel::Begin,
                4,
            );
            if !stored.infos.contains_key(id) {
                after == stored && answer == ActionModel::Abort
            } else if stored.infos[id].storage != storage {
                after == stored && answer == (ActionModel::Fail {
                    error: RustusError::FileNotFound,
                })
            } else if conf.hooks@.contains(Hook::PreTerminate) && !around.agrees {
                after == stored && answer == ActionModel::Abort
            } else {
                &&& after.infos == stored.infos.remove(id)
                &&& after.files == stored.files.remove(id)
                &&& answer matches ActionModel::Respond { reply }
                &&& reply.status == 204
                &&& reply.body is None
                &&& forall|key: Seq<char>| !#[trigger] reply.fields.contains_key(key)
            }
        }),
{
    reveal_with_fuel(run, 6);
}

/// Who hears of a removal: the listeners that are asked, those who count, and those who are told in
/// the end.
pub proof fn law_removals_are_heard_of(
    conf: RustusConf,
    request: Request,
    id: Seq<char>,
    storage: Seq<char>,
    around: Around,
    stored: Stored,
)
    requires
        sound(stored),
    ensures
        ({
            let info = stored.infos[id];
            let asked = if conf.hooks@.contains(Hook::PreTerminate) {
                seq![
                    EffectModel::Notify {
                        hook: Hook::PreTerminate,
                        request: request.told(conf),
                        info,
                    },
                ]
            } else {
                seq![]
            };
            let counted = seq![EffectModel::Count { counter: Counter::Terminated }];
            let told = if conf.hooks@.contains(Hook::PostTerminate) {
                seq![
                    EffectModel::Notify {
                        hook: Hook::PostTerminate,
                        request: request.told(conf),
                        info,
                    },
                ]
            } else {
                seq![]
            };
            heard(
                removing(conf, request, id, storage),
                around,
                stored,
                TerminateModel::Start,
                EventModel::Begin,
                4,
            ) =~= if !stored.infos.contains_key(id) || info.storage != storage {
                seq![]
            } else if conf.hooks@.contains(Hook::PreTerminate) && !around.agrees {
                asked
            } else {
                asked + counted + told
            }
        }),
{
    reveal_with_fuel(heard, 6);
}

/// The data storage is handed the record of the upload as it was found.
pub proof fn law_removed_record(
    conf: RustusConf,
    request: Request,
    id: Seq<char>,
    storage: Seq<char>,
    info: Upload,
)
    requires
        info.storage == storage,
    ensures
        terminate_turn(
            conf,
            request,
            id,
            storage,
            TerminateModel::Loading,
            EventModel::Info { info },
        ).state == if conf.hooks@.contains(Hook::PreTerminate) {
            TerminateModel::Announcing { info }
        } else {
            TerminateModel::RemovingInfo { info }
        },
        terminate_turn(
            conf,
            request,
            id,
            storage,
            TerminateModel::Announcing { info },
            EventModel::Done,
        ).state == (TerminateModel::RemovingInfo { info }),
        terminate_turn(
            conf,
            request,
            id,
            storage,
            TerminateModel::RemovingInfo { info },
            EventModel::Done,
        ).action == (ActionModel::RemoveFile { info }),
{
}

} // verus!
