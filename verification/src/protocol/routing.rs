//! Which requests the server answers, and how.

use vstd::prelude::*;

use crate::config::RustusConf;
use crate::protocol::extensions::Extensions;

verus! {

/// Where a request goes to, below the base of the protocol.
#[derive(Clone, Copy, Debug, PartialEq, Eq, Structural)]
pub enum Place {
    /// All uploads.
    Root,
    /// One upload.
    File,
}

/// The methods of the protocol.
#[derive(Clone, Copy, Debug, PartialEq, Eq, Structural)]
pub enum Verb {
    Options,
    Post,
    Head,
    Patch,
    Get,
    Delete,
}

/// What answers a request.
#[derive(Clone, Copy, Debug, PartialEq, Eq, Structural)]
pub enum Handler {
    ServerInfo,
    CreateFile,
    GetFileInfo,
    WriteBytes,
    GetFile,
    Terminate,
}

/// What answers the requests with a method at a place.
#[derive(Clone, Copy, Debug, PartialEq, Eq, Structural)]
pub struct Route {
    pub place: Place,
    pub verb: Verb,
    pub handler: Handler,
}

/// The routes of every server.
pub open spec fn base_routes() -> Seq<Route> {
    seq![
        Route { place: Place::Root, verb: Verb::Options, handler: Handler::ServerInfo },
        Route { place: Place::File, verb: Verb::Patch, handler: Handler::WriteBytes },
        Route { place: Place::File, verb: Verb::Head, handler: Handler::GetFileInfo },
    ]
}

/// The route that an extension adds, where it adds one.
pub open spec fn extension_route(extension: Extensions) -> Option<Route> {
    match extension {
        Extensions::Creation => Some(
            Route { place: Place::Root, verb: Verb::Post, handler: Handler::CreateFile },
        ),
        Extensions::Getting => Some(
            Route { place: Place::File, verb: Verb::Get, handler: Handler::GetFile },
        ),
        Extensions::Termination => Some(
            Route { place: Place::File, verb: Verb::Delete, handler: Handler::Terminate },
        ),
        _ => None,
    }
}

/// The routes of a server with some extensions.
pub open spec fn routes(extensions: Seq<Extensions>) -> Seq<Route>
    decreases extensions.len(),
{
    if extensions.len() == 0 {
        base_routes()
    } else {
        let before = routes(extensions.drop_last());
        match extension_route(extensions.last()) {
            Some(route) => before.push(route),
            None => before,
        }
    }
}

/// No extension that adds a route is named twice.
pub open spec fn routable(extensions: Seq<Extensions>) -> bool {
    forall|i: int, j: int|
        0 <= i < j < extensions.len() && extension_route(extensions[i]) is Some ==> extensions[i]
            != extensions[j]
}

/// Whether no extension that adds a route is named twice.
pub fn is_routable(extensions: &Vec<Extensions>) -> (r: bool)
    ensures
        r == routable(extensions@),
{
    for i in 0..extensions.len()
        invariant
            forall|k: int, j: int|
                0 <= k < i && k < j < extensions@.len() && extension_route(extensions@[k]) is Some
                    ==> extensions@[k] != extensions@[j],
    {
        let adds = match extensions[i] {
            Extensions::Creation => true,
            Extensions::Getting => true,
            Extensions::Termination => true,
            _ => false,
        };
        assert(adds == (extension_route(extensions@[i as int]) is Some));
        if adds {
            for j in i + 1..extensions.len()
                invariant
                    i < extensions@.len(),
                    extension_route(extensions@[i as int]) is Some,
                    forall|k: int| i < k < j ==> extensions@[i as int] != extensions@[k],
            {
                if extensions[i] == extensions[j] {
                    return false;
                }
            }
        }
    }
    true
}

/// Configure TUS web application.
///
/// This function resolves all protocol extensions
/// provided by CLI into the routes of the application.
#[must_use]
pub fn setup(config: &RustusConf) -> (r: Vec<Route>)
    requires
        routable(config.tus_extensions@),
    ensures
        r@ == routes(config.tus_extensions@),
{
    // Core endpoints are always available.
    let mut table: Vec<Route> = Vec::new();
    // OPTIONS /    -> server info.
    table.push(Route { place: Place::Root, verb: Verb::Options, handler: Handler::ServerInfo });
    // PATCH /{file_id}/ -> add bytes.
    // HEAD  /{file_id}/ -> file info.
    table.push(Route { place: Place::File, verb: Verb::Patch, handler: Handler::WriteBytes });
    table.push(Route { place: Place::File, verb: Verb::Head, handler: Handler::GetFileInfo });
    let ghost all = config.tus_extensions@;
    assert(table@ =~= base_routes());
    for i in 0..config.tus_extensions.len()
        invariant
            all == config.tus_extensions@,
            table@ == routes(all.take(i as int)),
    {
        assert(all.take(i + 1).drop_last() =~= all.take(i as int));
        match config.tus_extensions[i] {
            Extensions::Creation => {
                table.push(
                    Route { place: Place::Root, verb: Verb::Post, handler: Handler::CreateFile },
                );
            },
            Extensions::Getting => {
                table.push(
                    Route { place: Place::File, verb: Verb::Get, handler: Handler::GetFile },
                );
            },
            Extensions::Termination => {
                table.push(
                    Route { place: Place::File, verb: Verb::Delete, handler: Handler::Terminate },
                );
            },
            _ => {},
        }
    }
    assert(all.take(all.len() as int) =~= all);
    table
}

/// The routes of every server are there, and a route of an extension is there if and only if the
/// extension is offered.
pub proof fn law_routes(extensions: Seq<Extensions>, route: Route)
    ensures
        routes(extensions).contains(route) <==> (base_routes().contains(route) || exists|e: Extensions|
            extensions.contains(e) && #[trigger] extension_route(e) == Some(route)),
    decreases extensions.len(),
{
    if extensions.len() > 0 {
        let front = extensions.drop_last();
        let last = extensions.last();
        law_routes(front, route);
        let before = routes(front);
        assert(extensions =~= front.push(last));
        assert forall|e: Extensions| extensions.contains(e) implies front.contains(e) || e == last by {
            let k = choose|k: int| 0 <= k < extensions.len() && extensions[k] == e;
            if k < front.len() {
                assert(front[k] == e);
            }
        }
        assert forall|e: Extensions| front.contains(e) implies extensions.contains(e) by {
            let k = choose|k: int| 0 <= k < front.len() && front[k] == e;
            assert(extensions[k] == e);
        }
        assert(extensions[extensions.len() - 1] == last);
        match extension_route(last) {
            Some(added) => {
                let after = before.push(added);
                assert(after[after.len() - 1] == added);
                assert forall|x: Route| before.contains(x) implies after.contains(x) by {
                    let k = choose|k: int| 0 <= k < before.len() && before[k] == x;
                    assert(after[k] == x);
                }
                assert forall|x: Route| after.contains(x) implies before.contains(x) || x == added by {
                    let k = choose|k: int| 0 <= k < after.len() && after[k] == x;
                    if k < before.len() {
                        assert(before[k] == x);
                    }
                }
            },
            None => {},
        }
    }
}

/// Every request has at most one handler.
pub proof fn law_one_handler(extensions: Seq<Extensions>, i: int, j: int)
    requires
        routable(extensions),
        0 <= i < j < routes(extensions).len(),
    ensures
        routes(extensions)[i].place != routes(extensions)[j].place || routes(extensions)[i].verb
            != routes(extensions)[j].verb,
    decreases extensions.len(),
{
    if extensions.len() > 0 {
        let front = extensions.drop_last();
        let last = extensions.last();
        let before = routes(front);
        assert(forall|k: int| 0 <= k < front.len() ==> #[trigger] front[k] == extensions[k]);
        if j < before.len() {
            law_one_handler(front, i, j);
        } else {
            assert(before.contains(before[i]));
            law_routes(front, before[i]);
            if !base_routes().contains(before[i]) {
                let e = choose|e: Extensions|
                    front.contains(e) && #[trigger] extension_route(e) == Some(before[i]);
                let k = choose|k: int| 0 <= k < front.len() && front[k] == e;
                assert(extensions[k] == e);
                assert(extensions[extensions.len() - 1] == last);
                assert(e != last);
            }
        }
    }
}

} // verus!
