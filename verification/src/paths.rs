//! Which path and method of a request meet what in an application.

use vstd::prelude::*;

use crate::config::RustusConf;
use crate::protocol::extensions::Extensions;
use crate::protocol::routing::{law_one_handler, routable, routes, Handler, Place, Route, Verb};
use crate::server::{all_pages, is_plan, pages_of, Application, Page};
use crate::text::{trim_back, trim_front};

verus! {

broadcast use vstd::string::group_string_axioms;

/// What a request meets.
#[verifier::ext_equal]
pub enum Target {
    /// A page beside the protocol.
    Page { page: Page },
    /// A handler of the protocol, and the segment of the path that tells the upload where one does.
    /// The segment stands here as it was sent. A handler takes it with its escapes undone, so that
    /// it is the id of the upload where it holds no percent sign.
    Protocol { handler: Handler, segment: Option<Seq<char>> },
    /// Something is there, but not for the method.
    NotAllowed,
    /// Nothing is there.
    NotFound,
}

/// The name of a method.
pub open spec fn verb_name(verb: Verb) -> Seq<char> {
    match verb {
        Verb::Options => "OPTIONS"@,
        Verb::Post => "POST"@,
        Verb::Head => "HEAD"@,
        Verb::Patch => "PATCH"@,
        Verb::Get => "GET"@,
        Verb::Delete => "DELETE"@,
    }
}

/// A path without slashes at its end, and with only one at its front.
pub open spec fn slashless(path: Seq<char>) -> Seq<char> {
    if path.len() > 0 && path[0] == '/' {
        let slash = |c: char| c == '/';
        "/"@ + trim_back(trim_front(path, slash), slash)
    } else {
        path
    }
}

/// The page at a path.
pub open spec fn page_at(pages: Seq<(Seq<char>, Page)>, path: Seq<char>) -> Option<Page>
    decreases pages.len(),
{
    if pages.len() == 0 {
        None
    } else if pages[0].0 == path {
        Some(pages[0].1)
    } else {
        page_at(pages.drop_first(), path)
    }
}

/// The address of the uploads below a base is the base itself, and that of one upload is a segment
/// behind it.
pub open spec fn place_at(base: Seq<char>, path: Seq<char>) -> Option<(Place, Option<Seq<char>>)> {
    let front = base + "/"@;
    let segment = path.skip(front.len() as int);
    if path == base {
        Some((Place::Root, None))
    } else if front.is_prefix_of(path) && is_segment(segment) {
        Some((Place::File, Some(segment)))
    } else {
        None
    }
}

/// The handler of the requests with a method at a place.
pub open spec fn handler_at(routes: Seq<Route>, place: Place, method: Seq<char>) -> Option<Handler>
    decreases routes.len(),
{
    if routes.len() == 0 {
        None
    } else if routes[0].place == place && verb_name(routes[0].verb) == method {
        Some(routes[0].handler)
    } else {
        handler_at(routes.drop_first(), place, method)
    }
}

/// What a request with a method and a path meets in an application. A page answers `GET`, and `HEAD`
/// with it. The base of the protocol stands for itself, segment by segment.
pub open spec fn met(app: Application, method: Seq<char>, path: Seq<char>) -> Target {
    let path = if app.trim_trailing_slash {
        slashless(path)
    } else {
        path
    };
    let page = page_at(pages_of(app.pages@), path);
    let place = place_at(app.service.base@, path);
    let handler = match place {
        Some((place, _)) => handler_at(app.service.routes@, place, method),
        None => None,
    };
    if page is Some && (method == "GET"@ || method == "HEAD"@) {
        Target::Page { page: page->0 }
    } else if handler is Some {
        Target::Protocol { handler: handler->0, segment: (place->0).1 }
    } else if page is Some || place is Some {
        Target::NotAllowed
    } else {
        Target::NotFound
    }
}

/// A base of the protocol without slashes at both ends and without captures.
pub open spec fn is_base(base: Seq<char>) -> bool {
    &&& base.len() > 0
    &&& base[0] != '/'
    &&& base.last() != '/'
    &&& !base.contains('{')
    &&& !base.contains('}')
}

/// A segment of a path.
pub open spec fn is_segment(text: Seq<char>) -> bool {
    text.len() > 0 && !text.contains('/')
}

/// The pages are met under their paths.
pub proof fn law_pages_are_met(app: Application, conf: RustusConf)
    requires
        is_plan(app, conf),
    ensures
        met(app, "GET"@, "/health"@) == (Target::Page { page: Page::Health }),
        met(app, "GET"@, "/metrics"@) == (Target::Page { page: Page::Metrics }),
{
    reveal_strlit("/health");
    reveal_strlit("/metrics");
    lemma_slashless_stays("/health"@);
    lemma_slashless_stays("/metrics"@);
    lemma_pages("/health"@);
    lemma_pages("/metrics"@);
}

/// The pages are at two paths, and nowhere else.
proof fn lemma_pages(path: Seq<char>)
    ensures
        page_at(all_pages(), path) == if path == "/health"@ {
            Some(Page::Health)
        } else if path == "/metrics"@ {
            Some(Page::Metrics)
        } else {
            None
        },
{
    reveal_with_fuel(page_at, 3);
    assert(all_pages().drop_first() =~= seq![("/metrics"@, Page::Metrics)]);
    assert(all_pages().drop_first().drop_first() =~= seq![]);
}

/// A path with one slash at its front and none at its end stays.
proof fn lemma_slashless_stays(path: Seq<char>)
    requires
        path.len() > 1,
        path[0] == '/',
        path[1] != '/',
        path.last() != '/',
    ensures
        slashless(path) == path,
{
    let slash = |c: char| c == '/';
    reveal_strlit("/");
    reveal_with_fuel(trim_front, 2);
    let rest = path.drop_first();
    assert(rest[0] == path[1]);
    assert(trim_front(path, slash) == rest);
    assert(rest.last() == path.last());
    assert(trim_back(rest, slash) == rest);
    assert("/"@ + rest =~= path);
}

proof fn lemma_front_with_more(s: Seq<char>, p: spec_fn(char) -> bool, c: char)
    requires
        p(c),
    ensures
        trim_front(s.push(c), p) == if trim_front(s, p).len() == 0 {
            seq![]
        } else {
            trim_front(s, p).push(c)
        },
    decreases s.len(),
{
    if s.len() == 0 {
        assert(s.push(c).drop_first() =~= seq![]);
        assert(trim_front(s.push(c).drop_first(), p) =~= seq![]);
        assert(s.push(c)[0] == c);
    } else if p(s[0]) {
        assert(s.push(c).drop_first() =~= s.drop_first().push(c));
        lemma_front_with_more(s.drop_first(), p, c);
    }
}

/// A slash at the end of a path makes no difference.
pub proof fn law_trailing_slash(
    app: Application,
    conf: RustusConf,
    method: Seq<char>,
    path: Seq<char>,
)
    requires
        is_plan(app, conf),
        path.len() > 0,
        path[0] == '/',
    ensures
        met(app, method, path + "/"@) == met(app, method, path),
{
    let slash = |c: char| c == '/';
    reveal_strlit("/");
    let longer = path + "/"@;
    assert(longer =~= path.push('/'));
    lemma_front_with_more(path, slash, '/');
    let front = trim_front(path, slash);
    if front.len() > 0 {
        assert(front.push('/').drop_last() =~= front);
    } else {
        assert(front =~= seq![]);
    }
    assert(slashless(longer) == slashless(path));
}

/// Nothing is met at a path that is neither that of a page nor one of the protocol, whatever the
/// method; at all others something is. A base with captures or with slashes at its ends would not
/// stand for itself, and is left out.
pub proof fn law_not_found(
    app: Application,
    conf: RustusConf,
    method: Seq<char>,
    path: Seq<char>,
)
    requires
        is_plan(app, conf),
        is_base(conf.base_url@),
    ensures
        met(app, method, path) == Target::NotFound <==> ({
            let path = slashless(path);
            &&& path != "/health"@
            &&& path != "/metrics"@
            &&& path != "/"@ + conf.base_url@
            &&& forall|segment: Seq<char>|
                is_segment(segment) ==> path != #[trigger] ("/"@ + conf.base_url@ + "/"@ + segment)
        }),
{
    let trimmed = slashless(path);
    let base = "/"@ + conf.base_url@;
    let front = base + "/"@;
    lemma_pages(trimmed);
    let last = trimmed.skip(front.len() as int);
    if front.is_prefix_of(trimmed) {
        assert(trimmed =~= front + last);
    }
    assert forall|segment: Seq<char>|
        is_segment(segment) && trimmed == #[trigger] (base + "/"@ + segment) implies place_at(
        base,
        trimmed,
    ) is Some by {
        assert(trimmed.skip(front.len() as int) =~= segment);
        assert(front =~= trimmed.take(front.len() as int));
    }
}

/// No two methods have one name.
proof fn lemma_verb_names(a: Verb, b: Verb)
    ensures
        verb_name(a) == verb_name(b) ==> a == b,
{
    reveal_strlit("OPTIONS");
    reveal_strlit("POST");
    reveal_strlit("HEAD");
    reveal_strlit("PATCH");
    reveal_strlit("GET");
    reveal_strlit("DELETE");
    assert("OPTIONS"@.len() == 7 && "DELETE"@.len() == 6 && "PATCH"@.len() == 5);
    assert("POST"@.len() == 4 && "HEAD"@.len() == 4 && "GET"@.len() == 3);
    assert("POST"@[0] != "HEAD"@[0]);
}

proof fn lemma_handler_at(table: Seq<Route>, i: int)
    requires
        0 <= i < table.len(),
        forall|j: int|
            0 <= j < i ==> (#[trigger] table[j]).place != table[i].place || table[j].verb
                != table[i].verb,
    ensures
        handler_at(table, table[i].place, verb_name(table[i].verb)) == Some(table[i].handler),
    decreases i,
{
    if i > 0 {
        lemma_verb_names(table[0].verb, table[i].verb);
        let rest = table.drop_first();
        assert(table[0].place != table[i].place || table[0].verb != table[i].verb);
        assert forall|j: int| 0 <= j < i - 1 implies (#[trigger] rest[j]).place != rest[i - 1].place
            || rest[j].verb != rest[i - 1].verb by {
            assert(rest[j] == table[j + 1]);
        }
        lemma_handler_at(rest, i - 1);
    }
}

/// Where the requests of a route go to.
pub open spec fn route_path(conf: RustusConf, place: Place, segment: Seq<char>) -> Seq<char> {
    match place {
        Place::Root => "/"@ + conf.base_url@,
        Place::File => "/"@ + conf.base_url@ + "/"@ + segment,
    }
}

/// Each route of the protocol is met under its path and its method, with the segment that tells the
/// upload.
pub proof fn law_routes_are_met(
    app: Application,
    conf: RustusConf,
    route: Route,
    segment: Seq<char>,
)
    requires
        is_plan(app, conf),
        is_base(conf.base_url@),
        routable(conf.tus_extensions@),
        routes(conf.tus_extensions@).contains(route),
        is_segment(segment),
    ensures
        met(app, verb_name(route.verb), route_path(conf, route.place, segment)) == (
        Target::Protocol {
            handler: route.handler,
            segment: match route.place {
                Place::Root => None,
                Place::File => Some(segment),
            },
        }),
{
    reveal_strlit("/");
    reveal_strlit("/health");
    reveal_strlit("/metrics");
    let table = routes(conf.tus_extensions@);
    let i = choose|i: int| 0 <= i < table.len() && table[i] == route;
    assert forall|j: int| 0 <= j < i implies (#[trigger] table[j]).place != table[i].place
        || table[j].verb != table[i].verb by {
        law_one_handler(conf.tus_extensions@, j, i);
    }
    lemma_handler_at(table, i);
    let base = "/"@ + conf.base_url@;
    let path = route_path(conf, route.place, segment);
    assert(path[1] == conf.base_url@[0]);
    match route.place {
        Place::Root => {
            assert(path.last() == conf.base_url@.last());
            lemma_root_verbs(conf.tus_extensions@, i);
        },
        Place::File => {
            assert(path.last() == segment.last());
            assert(segment.contains(segment.last()));
            assert(path.skip((base + "/"@).len() as int) =~= segment);
            assert(base + "/"@ =~= path.take((base + "/"@).len() as int));
            assert(path != base) by {
                assert(path.len() > base.len());
            }
            assert(path[base.len() as int] == '/');
            assert(path != "/health"@ && path != "/metrics"@);
        },
    }
    lemma_slashless_stays(path);
    lemma_pages(path);
}

/// All uploads together are not read.
proof fn lemma_root_verbs(extensions: Seq<Extensions>, i: int)
    requires
        0 <= i < routes(extensions).len(),
        routes(extensions)[i].place == Place::Root,
    ensures
        verb_name(routes(extensions)[i].verb) != "GET"@,
        verb_name(routes(extensions)[i].verb) != "HEAD"@,
    decreases extensions.len(),
{
    reveal_strlit("OPTIONS");
    reveal_strlit("POST");
    reveal_strlit("GET");
    reveal_strlit("HEAD");
    assert("OPTIONS"@.len() == 7 && "POST"@.len() == 4 && "GET"@.len() == 3 && "HEAD"@.len() == 4);
    assert("POST"@[0] != "HEAD"@[0]);
    if extensions.len() > 0 && i < routes(extensions.drop_last()).len() {
        lemma_root_verbs(extensions.drop_last(), i);
    }
}

} // verus!
