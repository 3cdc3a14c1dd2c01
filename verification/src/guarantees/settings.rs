//! What the settings make of the server: what it offers, answers and tells.

use vstd::prelude::*;
use vstd::utf8::{encode_utf8, encode_utf8_decode_utf8, encode_utf8_valid_utf8, valid_utf8};

use crate::codec::wildcard;
use crate::config::RustusConf;
use crate::cors::{
    allowed, allowed_origin, always_allowed, cors_fields, cors_pairs, crowded_out, exposed,
    with_pairs, CorsConfig,
};
use crate::errors::RustusError;
use crate::fields::{
    field_text, header_key, is_field_name, is_field_value, is_token, lemma_keys_differ, no_fields,
    with_value, Fields,
};
use crate::greeting::{greeting_text, hook_names};
use crate::middleware::{is_error, metrics_reply, overridden};
use crate::notifiers::Hook;
use crate::protocol::base::server_info::{extension_names, info_fields};
use crate::protocol::exchange::{bare, says};
use crate::protocol::extensions::Extensions;
use crate::protocol::routing::{
    base_routes, extension_route, law_routes, routable, routes, Handler, Place, Route, Verb,
};
use crate::server::{headers_of, is_plan, pages_of, version_fields, Application};
use crate::text::{joined, texts};

verus! {

broadcast use vstd::string::group_string_axioms;

/// Extensions and hooks go by the names that the protocol gives them.
pub proof fn law_names()
    ensures
        Extensions::Creation.name() == "creation"@,
        Extensions::CreationDeferLength.name() == "creation-defer-length"@,
        Extensions::CreationWithUpload.name() == "creation-with-upload"@,
        Extensions::Termination.name() == "termination"@,
        Extensions::Concatenation.name() == "concatenation"@,
        Extensions::Getting.name() == "getting"@,
        Extensions::Checksum.name() == "checksum"@,
        Hook::PreCreate.name() == "pre-create"@,
        Hook::PostCreate.name() == "post-create"@,
        Hook::PostReceive.name() == "post-receive"@,
        Hook::PreTerminate.name() == "pre-terminate"@,
        Hook::PostTerminate.name() == "post-terminate"@,
        Hook::PostFinish.name() == "post-finish"@,
{
}

/// Each error is answered with its status.
pub proof fn law_error_statuses()
    ensures
        RustusError::FileNotFound.status() == 404,
        RustusError::WrongOffset.status() == 409,
        RustusError::FrozenFile.status() == 400,
        RustusError::SizeAlreadyKnown.status() == 400,
        RustusError::WrongChecksum.status() == 417,
        RustusError::Unknown.status() == 500,
{
}

/// An extension is offered, and a hook is told, if and only if the settings name it.
pub proof fn law_offers(conf: RustusConf, extension: Extensions, hook: Hook)
    ensures
        conf.offers(extension) <==> exists|i: int|
            0 <= i < conf.tus_extensions@.len() && #[trigger] conf.tus_extensions@[i] == extension,
        conf.tells(hook) <==> exists|i: int|
            0 <= i < conf.hooks@.len() && #[trigger] conf.hooks@[i] == hook,
{
}

/// A reply with a text has that text and says that it is plain; a bare one has nothing.
pub proof fn law_plain_replies(status: u16, body: Seq<char>)
    ensures
        says(status, body).status == status,
        says(status, body).body == Some(body),
        says(status, body).fields == with_value(
            no_fields(),
            "Content-Type"@,
            "text/plain; charset=utf-8"@,
        ),
        bare(status).status == status,
        bare(status).body is None,
        forall|key: Seq<char>| !#[trigger] bare(status).fields.contains_key(key),
{
}

/// What the server can do is told by the names of all extensions, and the checksums it knows are
/// told where it verifies any.
pub proof fn law_server_info(conf: RustusConf)
    ensures
        ({
            let fields = info_fields(conf);
            let names = conf.tus_extensions@.map_values(|e: Extensions| e.name());
            let checksums = header_key("Tus-Checksum-Algorithm"@);
            &&& fields.contains_key(header_key("Tus-Extension"@))
            &&& fields[header_key("Tus-Extension"@)] == seq![encode_utf8(joined(names, ","@))]
            &&& fields.contains_key(checksums) <==> conf.tus_extensions@.contains(
                Extensions::Checksum,
            )
            &&& fields.contains_key(checksums) ==> fields[checksums] == seq![
                encode_utf8("md5,sha1,sha256,sha512"@),
            ]
            &&& forall|key: Seq<char>| #[trigger]
                fields.contains_key(key) ==> key == header_key("Tus-Extension"@) || key == checksums
        }),
{
    reveal_strlit("Tus-Extension");
    reveal_strlit("Tus-Checksum-Algorithm");
    lemma_keys_differ("Tus-Extension"@, "Tus-Checksum-Algorithm"@, 0);
    let names = conf.tus_extensions@.map_values(|e: Extensions| e.name());
    assert(extension_names(conf.tus_extensions@) =~= names);
}

/// The route of a place, a method and a handler.
pub open spec fn has_route(
    extensions: Seq<Extensions>,
    place: Place,
    verb: Verb,
    handler: Handler,
) -> bool {
    routes(extensions).contains(Route { place, verb, handler })
}

/// Every server tells what it can do, takes bytes and tells what it knows. It creates, sends and
/// removes uploads if and only if the extension for that is named, and answers nothing else.
pub proof fn law_answered_requests(extensions: Seq<Extensions>, route: Route)
    ensures
        has_route(extensions, Place::Root, Verb::Options, Handler::ServerInfo),
        has_route(extensions, Place::File, Verb::Patch, Handler::WriteBytes),
        has_route(extensions, Place::File, Verb::Head, Handler::GetFileInfo),
        has_route(extensions, Place::Root, Verb::Post, Handler::CreateFile) <==> extensions.contains(
            Extensions::Creation,
        ),
        has_route(extensions, Place::File, Verb::Get, Handler::GetFile) <==> extensions.contains(
            Extensions::Getting,
        ),
        has_route(extensions, Place::File, Verb::Delete, Handler::Terminate)
            <==> extensions.contains(Extensions::Termination),
        routes(extensions).contains(route) ==> match route.handler {
            Handler::ServerInfo => route.place == Place::Root && route.verb == Verb::Options,
            Handler::WriteBytes => route.place == Place::File && route.verb == Verb::Patch,
            Handler::GetFileInfo => route.place == Place::File && route.verb == Verb::Head,
            Handler::CreateFile => route.place == Place::Root && route.verb == Verb::Post,
            Handler::GetFile => route.place == Place::File && route.verb == Verb::Get,
            Handler::Terminate => route.place == Place::File && route.verb == Verb::Delete,
        },
{
    let info = Route { place: Place::Root, verb: Verb::Options, handler: Handler::ServerInfo };
    let write = Route { place: Place::File, verb: Verb::Patch, handler: Handler::WriteBytes };
    let known = Route { place: Place::File, verb: Verb::Head, handler: Handler::GetFileInfo };
    let create = Route { place: Place::Root, verb: Verb::Post, handler: Handler::CreateFile };
    let send = Route { place: Place::File, verb: Verb::Get, handler: Handler::GetFile };
    let remove = Route { place: Place::File, verb: Verb::Delete, handler: Handler::Terminate };
    assert(base_routes()[0] == info && base_routes()[1] == write && base_routes()[2] == known);
    law_routes(extensions, info);
    law_routes(extensions, write);
    law_routes(extensions, known);
    law_routes(extensions, create);
    law_routes(extensions, send);
    law_routes(extensions, remove);
    law_routes(extensions, route);
    assert(extension_route(Extensions::Creation) == Some(create));
    assert(extension_route(Extensions::Getting) == Some(send));
    assert(extension_route(Extensions::Termination) == Some(remove));
}

/// Only an extension that is answered at a place of its own must not be named twice.
pub proof fn law_routable(extensions: Seq<Extensions>)
    ensures
        routable(extensions) <==> forall|i: int, j: int|
            0 <= i < j < extensions.len() && #[trigger] extensions[i] == #[trigger] extensions[j]
                ==> extensions[i] != Extensions::Creation && extensions[i] != Extensions::Getting
                && extensions[i] != Extensions::Termination,
{
}

/// Every reply of the protocol tells its version, and the application answers at the base and at its
/// two pages.
pub proof fn law_applications(app: Application, conf: RustusConf)
    requires
        is_plan(app, conf),
    ensures
        app.service.base@ == "/"@ + conf.base_url@,
        app.service.max_body_size == conf.max_body_size,
        app.service.default_headers@.len() == 2,
        app.service.default_headers@[0].0@ == "tus-resumable"@,
        app.service.default_headers@[0].1@ == "1.0.0"@,
        app.service.default_headers@[1].0@ == "tus-version"@,
        app.service.default_headers@[1].1@ == "1.0.0"@,
        app.pages@.len() == 2,
        app.cors.matchers@.len() == conf.cors@.len(),
        forall|i: int|
            0 <= i < conf.cors@.len() ==> (#[trigger] app.cors.matchers@[i])@ == conf.cors@[i]@,
{
    let told = headers_of(app.service.default_headers@);
    assert(told.len() == version_fields().len());
    assert(told[0] == version_fields()[0]);
    assert(told[1] == version_fields()[1]);
    assert(pages_of(app.pages@).len() == 2);
    let a = texts(app.cors.matchers@);
    let b = texts(conf.cors@);
    assert(a.len() == b.len());
    assert forall|i: int| 0 <= i < conf.cors@.len() implies (#[trigger] app.cors.matchers@[i])@
        == conf.cors@[i]@ by {
        assert(a[i] == b[i]);
    }
}

/// A field of requests that pages may always send.
pub open spec fn is_standard(name: Seq<char>) -> bool {
    ||| name == "Content-Type"@ || name == "Upload-Offset"@ || name == "Upload-Checksum"@
    ||| name == "Upload-Length"@ || name == "Upload-Metadata"@ || name == "Upload-Concat"@
    ||| name == "Upload-Defer-Length"@ || name == "Tus-Resumable"@ || name == "Tus-Version"@
    ||| name == "X-HTTP-Method-Override"@ || name == "Authorization"@ || name == "Origin"@
    ||| name == "X-Requested-With"@ || name == "X-Request-ID"@
}

/// A field of replies that pages may read.
pub open spec fn is_readable(name: Seq<char>) -> bool {
    ||| name == "Location"@ || name == "Tus-Version"@ || name == "Tus-Resumable"@
    ||| name == "Tus-Max-Size"@ || name == "Tus-Extension"@ || name == "Tus-Checksum-Algorithm"@
    ||| name == "Content-Type"@ || name == "Content-Length"@ || name == "Upload-Length"@
    ||| name == "Upload-Metadata"@ || name == "Upload-Defer-Length"@ || name == "Upload-Concat"@
    ||| name == "Upload-Offset"@
}

/// Pages may send the standard fields and those that the settings name, as far as these are names,
/// and may read the fields of the protocol. More settings allow more fields, behind the others.
pub proof fn law_fields_of_pages(a: Seq<Seq<char>>, b: Seq<Seq<char>>, name: Seq<char>)
    ensures
        allowed(a).contains(name) <==> is_standard(name) || (a.contains(name) && is_field_name(
            name,
        )),
        allowed(a + b) == allowed(a) + b.filter(|n: Seq<char>| is_field_name(n)),
        exposed().contains(name) <==> is_readable(name),
{
    let named = |n: Seq<char>| is_field_name(n);
    let more = a.filter(named);
    if a.contains(name) && is_field_name(name) {
        let i = choose|i: int| 0 <= i < a.len() && a[i] == name;
        a.lemma_filter_contains(named, i);
    }
    if more.contains(name) {
        a.lemma_filter_contains_rev(named, name);
        let i = choose|i: int| 0 <= i < more.len() && more[i] == name;
        a.lemma_filter_pred(named, i);
    }
    let base = always_allowed();
    let all = allowed(a);
    assert(is_standard(name) ==> base.contains(name)) by {
        assert(base[0] == "Content-Type"@ && base[1] == "Upload-Offset"@ && base[2]
            == "Upload-Checksum"@ && base[3] == "Upload-Length"@ && base[4] == "Upload-Metadata"@
            && base[5] == "Upload-Concat"@ && base[6] == "Upload-Defer-Length"@ && base[7]
            == "Tus-Resumable"@ && base[8] == "Tus-Version"@ && base[9]
            == "X-HTTP-Method-Override"@ && base[10] == "Authorization"@ && base[11] == "Origin"@
            && base[12] == "X-Requested-With"@ && base[13] == "X-Request-ID"@);
    }
    if base.contains(name) {
        let i = choose|i: int| 0 <= i < base.len() && base[i] == name;
        assert(all[i] == name);
    }
    if more.contains(name) {
        let i = choose|i: int| 0 <= i < more.len() && more[i] == name;
        assert(all[base.len() + i] == name);
    }
    if all.contains(name) {
        let i = choose|i: int| 0 <= i < all.len() && all[i] == name;
        if i >= base.len() {
            assert(more[i - base.len()] == name);
        } else {
            assert(base[i] == name);
        }
    }
    Seq::filter_distributes_over_add(a, b, named);
    assert(allowed(a + b) =~= allowed(a) + b.filter(named));
    let shown = exposed();
    assert(shown[0] == "Location"@ && shown[1] == "Tus-Version"@ && shown[2] == "Tus-Resumable"@
        && shown[3] == "Tus-Max-Size"@ && shown[4] == "Tus-Extension"@ && shown[5]
        == "Tus-Checksum-Algorithm"@ && shown[6] == "Content-Type"@ && shown[7]
        == "Content-Length"@ && shown[8] == "Upload-Length"@ && shown[9] == "Upload-Metadata"@
        && shown[10] == "Upload-Defer-Length"@ && shown[11] == "Upload-Concat"@ && shown[12]
        == "Upload-Offset"@);
}

/// Without patterns any origin is allowed. With some, that of the request is if and only if one of
/// them matches it, and no other is.
pub proof fn law_origins(patterns: Seq<Seq<char>>, origin: Seq<char>)
    ensures
        patterns.len() == 0 ==> allowed_origin(patterns, Some(origin)) == Some("*"@)
            && allowed_origin(patterns, None) == Some("*"@),
        patterns.len() > 0 ==> allowed_origin(patterns, None) is None,
        patterns.len() > 0 && is_field_value(origin) ==> (allowed_origin(patterns, Some(origin))
            == Some(origin) <==> exists|i: int|
            0 <= i < patterns.len() && wildcard(#[trigger] patterns[i], origin)),
        patterns.len() > 0 ==> (allowed_origin(patterns, Some(origin)) matches Some(o) ==> o
            == origin),
{
}

/// What is attached to a reply to pages of an allowed origin, field by field.
pub proof fn law_attached_fields(config: CorsConfig, fields: Fields, origin: Seq<char>)
    ensures
        ({
            let after = cors_fields(config, fields, origin);
            &&& after[header_key("Access-Control-Allow-Origin"@)] == seq![encode_utf8(origin)]
            &&& after[header_key("Access-Control-Allow-Methods"@)] == seq![
                encode_utf8("OPTIONS, GET, HEAD, POST, PATCH, DELETE"@),
            ]
            &&& after[header_key("Access-Control-Allow-Headers"@)] == seq![
                encode_utf8(config.allow_headers@),
            ]
            &&& after[header_key("Access-Control-Expose-Headers"@)] == seq![
                encode_utf8(config.expose_headers@),
            ]
            &&& after[header_key("Access-Control-Max-Age"@)] == seq![encode_utf8("86400"@)]
            &&& after.dom() == fields.dom().insert(
                header_key("Access-Control-Allow-Origin"@),
            ).insert(header_key("Access-Control-Allow-Methods"@)).insert(
                header_key("Access-Control-Allow-Headers"@),
            ).insert(header_key("Access-Control-Expose-Headers"@)).insert(
                header_key("Access-Control-Max-Age"@),
            )
        }),
{
    reveal_strlit("Access-Control-Allow-Origin");
    reveal_strlit("Access-Control-Allow-Methods");
    reveal_strlit("Access-Control-Allow-Headers");
    reveal_strlit("Access-Control-Expose-Headers");
    reveal_strlit("Access-Control-Max-Age");
    lemma_keys_differ("Access-Control-Allow-Origin"@, "Access-Control-Allow-Methods"@, 0);
    lemma_keys_differ("Access-Control-Allow-Origin"@, "Access-Control-Allow-Headers"@, 0);
    lemma_keys_differ("Access-Control-Allow-Origin"@, "Access-Control-Expose-Headers"@, 0);
    lemma_keys_differ("Access-Control-Allow-Origin"@, "Access-Control-Max-Age"@, 0);
    lemma_keys_differ("Access-Control-Allow-Methods"@, "Access-Control-Allow-Headers"@, 21);
    lemma_keys_differ("Access-Control-Allow-Methods"@, "Access-Control-Expose-Headers"@, 0);
    lemma_keys_differ("Access-Control-Allow-Methods"@, "Access-Control-Max-Age"@, 0);
    lemma_keys_differ("Access-Control-Allow-Headers"@, "Access-Control-Expose-Headers"@, 0);
    lemma_keys_differ("Access-Control-Allow-Headers"@, "Access-Control-Max-Age"@, 0);
    lemma_keys_differ("Access-Control-Expose-Headers"@, "Access-Control-Max-Age"@, 0);
    let pairs = cors_pairs(config, origin);
    assert(pairs.drop_last() =~= pairs.take(4));
    assert(pairs.take(4).drop_last() =~= pairs.take(3));
    assert(pairs.take(3).drop_last() =~= pairs.take(2));
    assert(pairs.take(2).drop_last() =~= pairs.take(1));
    assert(pairs.take(1).drop_last() =~= pairs.take(0));
    reveal_with_fuel(with_pairs, 6);
    assert(cors_fields(config, fields, origin).dom() =~= fields.dom().insert(
        header_key("Access-Control-Allow-Origin"@),
    ).insert(header_key("Access-Control-Allow-Methods"@)).insert(
        header_key("Access-Control-Allow-Headers"@),
    ).insert(header_key("Access-Control-Expose-Headers"@)).insert(
        header_key("Access-Control-Max-Age"@),
    ));
}

/// Fields are left out only of a reply that has thousands already, and it keeps all that it has.
pub proof fn law_left_out_fields(
    config: CorsConfig,
    before: Fields,
    origin: Seq<char>,
    after: Fields,
)
    requires
        crowded_out(config, before, origin, after),
    ensures
        before.dom().finite(),
        before.dom().len() + 5 > 6554,
        forall|key: Seq<char>| #[trigger]
            before.contains_key(key) ==> after.contains_key(key),
{
    let pairs = cors_pairs(config, origin);
    let n = choose|n: int|
        0 <= n < pairs.len() && after == #[trigger] with_pairs(before, pairs.take(n));
    assert forall|key: Seq<char>| #[trigger] before.contains_key(key) implies after.contains_key(
        key,
    ) by {
        lemma_pairs_keep(before, pairs.take(n), key);
    }
}

proof fn lemma_pairs_keep(fields: Fields, pairs: Seq<(Seq<char>, Seq<char>)>, key: Seq<char>)
    requires
        fields.contains_key(key),
    ensures
        with_pairs(fields, pairs).contains_key(key),
    decreases pairs.len(),
{
    if pairs.len() > 0 {
        lemma_pairs_keep(fields, pairs.drop_last(), key);
    }
}

/// The method of a request is the one that its field tells where that is a method, and otherwise its
/// own.
pub proof fn law_methods(method: Seq<char>, other: Seq<char>, fields: Fields)
    ensures
        field_text(fields, "X-HTTP-Method-Override"@) == Some(other) && is_token(other)
            ==> overridden(method, fields) == other,
        field_text(fields, "X-HTTP-Method-Override"@) == Some(other) && !is_token(other)
            ==> overridden(method, fields) == method,
        field_text(fields, "X-HTTP-Method-Override"@) is None ==> overridden(method, fields)
            == method,
{
}

/// A reply counts as an error if and only if its status is of the client's or the server's errors.
pub proof fn law_errors(status: u16)
    ensures
        is_error(status) <==> status / 100 == 4 || status / 100 == 5,
{
}

/// Metrics are told as they are, in their format.
pub proof fn law_metrics(text: Seq<char>, format: Seq<char>, bytes: Seq<u8>, other: Seq<char>)
    requires
        is_field_value(format),
    ensures
        metrics_reply(encode_utf8(text), format).status == 200,
        metrics_reply(encode_utf8(text), format).body == Some(text),
        metrics_reply(encode_utf8(text), format).fields.contains_key(header_key("Content-Type"@)),
        metrics_reply(encode_utf8(text), format).fields[header_key("Content-Type"@)] == seq![
            encode_utf8(format),
        ],
        !valid_utf8(bytes) ==> metrics_reply(bytes, format).body == Some(Seq::<char>::empty()),
        !is_field_value(other) ==> {
            let reply = metrics_reply(bytes, other);
            &&& reply.status == 200
            &&& reply.body == Some(Seq::<char>::empty())
            &&& forall|key: Seq<char>| !#[trigger] reply.fields.contains_key(key)
        },
{
    encode_utf8_valid_utf8(text);
    encode_utf8_decode_utf8(text);
    let none = Seq::<Seq<u8>>::empty();
    assert(none.push(encode_utf8(format)) =~= seq![encode_utf8(format)]);
}

/// The server greets in lines: its logo, a welcome, where it serves, all that it offers and all that
/// it tells.
pub proof fn law_greeting(conf: RustusConf, logo: Seq<char>)
    ensures
        greeting_text(conf, logo) == "\n\n"@ + logo + "\nWelcome to rustus!\nBase URL: /"@
            + conf.base_url@ + "\nAvailable extensions: "@ + joined(
            conf.tus_extensions@.map_values(|e: Extensions| e.name()),
            ", "@,
        ) + "\nEnabled hooks: "@ + joined(conf.hooks@.map_values(|h: Hook| h.name()), ", "@)
            + "\n\n\n"@,
{
    assert(extension_names(conf.tus_extensions@) =~= conf.tus_extensions@.map_values(
        |e: Extensions| e.name(),
    ));
    assert(hook_names(conf.hooks@) =~= conf.hooks@.map_values(|h: Hook| h.name()));
}

} // verus!
