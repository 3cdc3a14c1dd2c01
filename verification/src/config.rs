//! The settings that the server's decisions rest on.

use vstd::prelude::*;

use crate::notifiers::Hook;
use crate::protocol::extensions::Extensions;

verus! {

/// The settings that the server's decisions rest on.
#[derive(Debug)]
pub struct RustusConf {
    /// Where the protocol is served, without slashes at both ends.
    pub base_url: String,
    /// The extensions that are offered.
    pub tus_extensions: Vec<Extensions>,
    /// Uploads without any byte are welcome.
    pub allow_empty: bool,
    /// The largest length of an upload.
    pub max_file_size: Option<usize>,
    /// The largest length of a request body.
    pub max_body_size: usize,
    /// The parts of a final upload are removed once it is made.
    pub remove_parts: bool,
    /// The hooks that are told.
    pub hooks: Vec<Hook>,
    /// Header fields of requests that hooks pass on.
    pub hooks_http_proxy_headers: Vec<String>,
    /// A proxy stands before the server and tells the addresses of its clients.
    pub behind_proxy: bool,
    /// Patterns of the origins from which browsers may use the server.
    pub cors: Vec<String>,
}

impl RustusConf {
    /// Whether an extension is offered.
    pub open spec fn offers(self, extension: Extensions) -> bool {
        self.tus_extensions@.contains(extension)
    }

    /// Whether a hook is told.
    pub open spec fn tells(self, hook: Hook) -> bool {
        self.hooks@.contains(hook)
    }

    /// Whether an extension is offered.
    pub fn extension_is_enabled(&self, extension: Extensions) -> (r: bool)
        ensures
            r == self.offers(extension),
    {
        for i in 0..self.tus_extensions.len()
            invariant
                forall|j: int| 0 <= j < i ==> self.tus_extensions@[j] != extension,
        {
            if self.tus_extensions[i] == extension {
                return true;
            }
        }
        false
    }

    /// Whether a hook is told.
    pub fn hook_is_active(&self, hook: Hook) -> (r: bool)
        ensures
            r == self.tells(hook),
    {
        for i in 0..self.hooks.len()
            invariant
                forall|j: int| 0 <= j < i ==> self.hooks@[j] != hook,
        {
            if self.hooks[i] == hook {
                return true;
            }
        }
        false
    }

    /// Where the protocol is served, without slashes at both ends.
    pub fn base_url(&self) -> (r: &str)
        ensures
            r@ == self.base_url@,
    {
        self.base_url.as_str()
    }
}

} // verus!
