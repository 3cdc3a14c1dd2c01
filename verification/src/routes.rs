//! Replies beside the protocol.

use vstd::prelude::*;

verus! {

/// Default response to all unknown URLs.
/// All protocol urls can be found
/// at `crate::protocol::routing`.
pub fn not_found() -> (status: u16)
    ensures
        status == 404,
{
    404
}

/// Checks that application is accepting connections correctly.
pub fn health_check() -> (status: u16)
    ensures
        status == 200,
{
    200
}

} // verus!
