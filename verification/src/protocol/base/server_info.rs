//! The request for what the server can do.

use vstd::prelude::*;

use crate::config::RustusConf;
use crate::fields::{
    insert_header, is_field_value, lemma_joined_is_value, no_fields, no_headers, valid_value,
    with_value, Fields,
};
use crate::protocol::exchange::{Reply, ReplyModel};
use crate::protocol::extensions::Extensions;
use crate::text::{join_text, joined, texts};

verus! {

broadcast use vstd::string::group_string_axioms;

/// The names of some extensions.
pub open spec fn extension_names(extensions: Seq<Extensions>) -> Seq<Seq<char>> {
    extensions.map_values(|e: Extensions| e.name())
}

/// The fields that tell what the server can do: its extensions, and the checksums that it knows
/// where it verifies any.
pub open spec fn info_fields(conf: RustusConf) -> Fields {
    let fields = with_value(
        no_fields(),
        "Tus-Extension"@,
        joined(extension_names(conf.tus_extensions@), ","@),
    );
    if conf.offers(Extensions::Checksum) {
        with_value(fields, "Tus-Checksum-Algorithm"@, "md5,sha1,sha256,sha512"@)
    } else {
        fields
    }
}

/// The names of some extensions, with a text between each two of them.
pub fn list_extensions(extensions: &Vec<Extensions>, sep: &str) -> (r: String)
    ensures
        r@ == joined(extension_names(extensions@), sep@),
{
    let mut names: Vec<String> = Vec::new();
    let ghost all = extension_names(extensions@);
    for i in 0..extensions.len()
        invariant
            all == extension_names(extensions@),
            texts(names@) =~= all.take(i as int),
    {
        let ghost before = texts(names@);
        let name = extensions[i].to_string();
        names.push(name);
        assert(texts(names@) =~= before.push(name@));
    }
    assert(texts(names@) =~= all);
    join_text(&names, sep)
}

proof fn lemma_name_is_value(e: Extensions)
    ensures
        is_field_value(e.name()),
{
    reveal_strlit("creation");
    reveal_strlit("creation-defer-length");
    reveal_strlit("creation-with-upload");
    reveal_strlit("termination");
    reveal_strlit("concatenation");
    reveal_strlit("getting");
    reveal_strlit("checksum");
}

/// Tells what the server can do.
pub fn server_info(conf: &RustusConf) -> (r: Reply)
    ensures
        r@ == (ReplyModel { status: 200, fields: info_fields(*conf), body: None }),
{
    let extensions = list_extensions(&conf.tus_extensions, ",");
    proof {
        reveal_strlit(",");
        reveal_strlit("Tus-Extension");
        reveal_strlit("Tus-Checksum-Algorithm");
        reveal_strlit("md5,sha1,sha256,sha512");
        let names = extension_names(conf.tus_extensions@);
        assert forall|i: int| 0 <= i < names.len() implies is_field_value(#[trigger] names[i]) by {
            lemma_name_is_value(conf.tus_extensions@[i]);
        }
        lemma_joined_is_value(names, ","@);
    }
    let mut headers = no_headers();
    if valid_value(extensions.as_str()) {
        insert_header(&mut headers, "Tus-Extension", extensions.as_str());
    }
    if conf.extension_is_enabled(Extensions::Checksum) {
        insert_header(&mut headers, "Tus-Checksum-Algorithm", "md5,sha1,sha256,sha512");
    }
    Reply { status: 200, headers, body: None }
}

} // verus!
