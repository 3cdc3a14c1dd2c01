//! How the protocol is served.

use vstd::prelude::*;

use crate::config::RustusConf;
use crate::cors::{allowed, create_cors, exposed, CorsConfig};
use crate::file_info::copy_strings;
use crate::protocol::routing::{routable, routes, setup, Route};
use crate::text::{joined, texts};

verus! {

broadcast use vstd::string::group_string_axioms;

/// How the protocol is served.
#[derive(Debug)]
pub struct Service {
    /// The path below which the routes are.
    pub base: String,
    pub routes: Vec<Route>,
    /// The fields that every reply has, where it does not have them already: names and values.
    pub default_headers: Vec<(String, String)>,
    /// The largest length of a request body.
    pub max_body_size: usize,
}

/// The fields that tell the version of the protocol.
pub open spec fn version_fields() -> Seq<(Seq<char>, Seq<char>)> {
    seq![("tus-resumable"@, "1.0.0"@), ("tus-version"@, "1.0.0"@)]
}

/// The texts of names and values.
pub open spec fn headers_of(headers: Seq<(String, String)>) -> Seq<(Seq<char>, Seq<char>)> {
    headers.map_values(|h: (String, String)| (h.0@, h.1@))
}

/// How the protocol is served: below its base, in its version, and with bodies of limited length.
pub fn rustus_service(conf: &RustusConf) -> (r: Service)
    requires
        routable(conf.tus_extensions@),
    ensures
        r.base@ == "/"@ + conf.base_url@,
        r.routes@ == routes(conf.tus_extensions@),
        headers_of(r.default_headers@) == version_fields(),
        r.max_body_size == conf.max_body_size,
{
    let mut default_headers: Vec<(String, String)> = Vec::new();
    default_headers.push(("tus-resumable".to_owned(), "1.0.0".to_owned()));
    default_headers.push(("tus-version".to_owned(), "1.0.0".to_owned()));
    assert(headers_of(default_headers@) =~= version_fields());
    Service {
        base: "/".to_owned().concat(conf.base_url()),
        routes: setup(conf),
        default_headers,
        max_body_size: conf.max_body_size,
    }
}

/// What answers beside the protocol.
#[derive(Clone, Copy, Debug, PartialEq, Eq, Structural)]
pub enum Page {
    Health,
    Metrics,
}

/// The application: the protocol, the pages beside it, and what is attached to replies.
#[derive(Debug)]
pub struct Application {
    /// The paths at which `GET` requests are answered beside the protocol.
    pub pages: Vec<(String, Page)>,
    pub service: Service,
    pub cors: CorsConfig,
    /// A slash at the end of a path is dropped.
    pub trim_trailing_slash: bool,
}

/// The pages beside the protocol.
pub open spec fn all_pages() -> Seq<(Seq<char>, Page)> {
    seq![("/health"@, Page::Health), ("/metrics"@, Page::Metrics)]
}

/// The pages of an application, by their paths.
pub open spec fn pages_of(pages: Seq<(String, Page)>) -> Seq<(Seq<char>, Page)> {
    pages.map_values(|p: (String, Page)| (p.0@, p.1))
}

/// The application that the settings ask for.
pub open spec fn is_plan(app: Application, conf: RustusConf) -> bool {
    &&& pages_of(app.pages@) == all_pages()
    &&& app.service.base@ == "/"@ + conf.base_url@
    &&& app.service.routes@ == routes(conf.tus_extensions@)
    &&& headers_of(app.service.default_headers@) == version_fields()
    &&& app.service.max_body_size == conf.max_body_size
    &&& texts(app.cors.matchers@) == texts(conf.cors@)
    &&& app.cors.allow_headers@ == joined(allowed(texts(conf.hooks_http_proxy_headers@)), ", "@)
    &&& app.cors.expose_headers@ == joined(exposed(), ", "@)
    &&& app.trim_trailing_slash
}

/// Builds the application.
///
/// It holds every route the server serves,
/// including the health check and metrics endpoints,
/// and how pages of other sites may use them.
pub fn build_router(conf: &RustusConf) -> (r: Application)
    requires
        routable(conf.tus_extensions@),
    ensures
        is_plan(r, *conf),
        r.cors.wf(),
{
    let cors_hosts = copy_strings(&conf.cors);
    let proxy_headers = copy_strings(&conf.hooks_http_proxy_headers);
    let cors = create_cors(cors_hosts, proxy_headers);
    let mut pages: Vec<(String, Page)> = Vec::new();
    pages.push(("/health".to_owned(), Page::Health));
    pages.push(("/metrics".to_owned(), Page::Metrics));
    assert(pages_of(pages@) =~= all_pages());
    Application { pages, service: rustus_service(conf), cors, trim_trailing_slash: true }
}

} // verus!
