//! What the server says when it starts.

use vstd::prelude::*;

use crate::config::RustusConf;
use crate::notifiers::Hook;
use crate::protocol::base::server_info::{extension_names, list_extensions};
use crate::text::{join_text, joined, texts};

verus! {

broadcast use vstd::string::group_string_axioms;

/// The names of some hooks.
pub open spec fn hook_names(hooks: Seq<Hook>) -> Seq<Seq<char>> {
    hooks.map_values(|h: Hook| h.name())
}

/// What the server says when it starts: its logo, where it serves, what it offers and what it
/// tells.
pub open spec fn greeting_text(conf: RustusConf, logo: Seq<char>) -> Seq<char> {
    "\n\n"@ + logo + "\nWelcome to rustus!\nBase URL: /"@ + conf.base_url@
        + "\nAvailable extensions: "@ + joined(extension_names(conf.tus_extensions@), ", "@)
        + "\nEnabled hooks: "@ + joined(hook_names(conf.hooks@), ", "@) + "\n\n\n"@
}

/// The names of some hooks, with a text between each two of them.
fn list_hooks(hooks: &Vec<Hook>, sep: &str) -> (r: String)
    ensures
        r@ == joined(hook_names(hooks@), sep@),
{
    let mut names: Vec<String> = Vec::new();
    let ghost all = hook_names(hooks@);
    for i in 0..hooks.len()
        invariant
            all == hook_names(hooks@),
            texts(names@) =~= all.take(i as int),
    {
        let ghost before = texts(names@);
        let name = hooks[i].to_string();
        names.push(name);
        assert(texts(names@) =~= before.push(name@));
    }
    assert(texts(names@) =~= all);
    join_text(&names, sep)
}

/// What the server says when it starts.
pub fn greeting(conf: &RustusConf, logo: &str) -> (r: String)
    ensures
        r@ == greeting_text(*conf, logo@),
{
    let extensions = list_extensions(&conf.tus_extensions, ", ");
    let hooks = list_hooks(&conf.hooks, ", ");
    "\n\n".to_owned().concat(logo).concat("\nWelcome to rustus!\nBase URL: /").concat(
        conf.base_url(),
    ).concat("\nAvailable extensions: ").concat(extensions.as_str()).concat("\nEnabled hooks: ").concat(
        hooks.as_str(),
    ).concat("\n\n\n")
}

} // verus!
