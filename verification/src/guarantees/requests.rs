//! How requests are read, and how a run of a handler is heard of.

use vstd::prelude::*;

use crate::config::RustusConf;
use crate::fields::{field_text, Fields};
use crate::protocol::exchange::{ActionModel, EffectModel, EventModel, Request, TurnModel};
use crate::protocol::storing::{perform, Around, Stored};
use crate::text::parse_unsigned;
use crate::utils::headers::client_address;

verus! {

/// The number that a field of a request tells.
pub open spec fn number_told(fields: Fields, name: Seq<char>) -> Option<nat> {
    match field_text(fields, name) {
        Some(text) => parse_unsigned(text, usize::MAX as nat),
        None => None,
    }
}

/// The body of the request is a run of upload bytes.
pub open spec fn brings_bytes(request: Request) -> bool {
    field_text(request.fields(), "Content-Type"@) == Some("application/offset+octet-stream"@)
}

/// What is told and counted while a handler runs, in order. Listeners that are asked are told too.
pub open spec fn heard<S>(
    handler: spec_fn(S, EventModel) -> TurnModel<S>,
    around: Around,
    stored: Stored,
    state: S,
    event: EventModel,
    turns: nat,
) -> Seq<EffectModel>
    decreases turns,
{
    let taken = handler(state, event);
    let asked = match taken.action {
        ActionModel::SendHook { hook, request, info } => seq![
            EffectModel::Notify { hook, request, info },
        ],
        _ => seq![],
    };
    if taken.action.ends() || turns == 0 {
        taken.effects + asked
    } else {
        let (stored, event) = perform(around, stored, taken.action);
        taken.effects + asked + heard(
            handler,
            around,
            stored,
            taken.state,
            event,
            (turns - 1) as nat,
        )
    }
}

/// Listeners are told the method, the address and the fields of the request, and where it came from:
/// from the other end of the connection where no proxy stands before the server.
pub proof fn law_told(conf: RustusConf, request: Request)
    ensures
        request.told(conf).uri == request.uri@,
        request.told(conf).method == request.method@,
        request.told(conf).fields == request.fields(),
        !conf.behind_proxy ==> request.told(conf).remote_addr == match request.peer {
            Some(peer) => Some(peer@),
            None => None,
        },
        conf.behind_proxy ==> request.told(conf).remote_addr == client_address(
            request.fields(),
            None,
            true,
        ),
{
}

} // verus!
