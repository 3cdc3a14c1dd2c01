//! Use of the server from the pages of other sites.

use http::HeaderMap;
use vstd::prelude::*;

use crate::codec::{wildcard, wildcard_matches};
use crate::fields::{
    field_text, header_key, header_text, header_values, is_field_name, is_field_value, is_visible,
    law_insert_reads_back, lemma_joined_is_value, lemma_keys_differ, try_insert_header, valid_name,
    valid_value, with_value, Fields, FIELD_NAME_LIMIT,
};
use crate::file_info::text_option;
use crate::text::{join_text, joined, texts};

verus! {

broadcast use vstd::string::group_string_axioms;

/// The fields of requests that pages may always send.
pub open spec fn always_allowed() -> Seq<Seq<char>> {
    seq![
        "Content-Type"@,
        "Upload-Offset"@,
        "Upload-Checksum"@,
        "Upload-Length"@,
        "Upload-Metadata"@,
        "Upload-Concat"@,
        "Upload-Defer-Length"@,
        "Tus-Resumable"@,
        "Tus-Version"@,
        "X-HTTP-Method-Override"@,
        "Authorization"@,
        "Origin"@,
        "X-Requested-With"@,
        "X-Request-ID"@,
    ]
}

/// The fields of replies that pages may read.
pub open spec fn exposed() -> Seq<Seq<char>> {
    seq![
        "Location"@,
        "Tus-Version"@,
        "Tus-Resumable"@,
        "Tus-Max-Size"@,
        "Tus-Extension"@,
        "Tus-Checksum-Algorithm"@,
        "Content-Type"@,
        "Content-Length"@,
        "Upload-Length"@,
        "Upload-Metadata"@,
        "Upload-Defer-Length"@,
        "Upload-Concat"@,
        "Upload-Offset"@,
    ]
}

/// The fields of requests that pages may send, with more that the settings name. A text that
/// cannot name a field is left out.
pub open spec fn allowed(additional: Seq<Seq<char>>) -> Seq<Seq<char>> {
    always_allowed() + additional.filter(|name: Seq<char>| is_field_name(name))
}

/// Configuration for the CORS middleware.
///
/// It holds the patterns of the origins and the
/// static header values that are attached to every
/// response.
#[derive(Debug)]
pub struct CorsConfig {
    pub matchers: Vec<String>,
    pub allow_headers: String,
    pub expose_headers: String,
}

impl CorsConfig {
    /// The texts of the configuration can be field values.
    pub open spec fn wf(self) -> bool {
        is_field_value(self.allow_headers@) && is_field_value(self.expose_headers@)
    }
}

fn always_allowed_names() -> (names: Vec<String>)
    ensures
        texts(names@) == always_allowed(),
{
    let mut names: Vec<String> = Vec::new();
    names.push("Content-Type".to_owned());
    names.push("Upload-Offset".to_owned());
    names.push("Upload-Checksum".to_owned());
    names.push("Upload-Length".to_owned());
    names.push("Upload-Metadata".to_owned());
    names.push("Upload-Concat".to_owned());
    names.push("Upload-Defer-Length".to_owned());
    names.push("Tus-Resumable".to_owned());
    names.push("Tus-Version".to_owned());
    names.push("X-HTTP-Method-Override".to_owned());
    names.push("Authorization".to_owned());
    names.push("Origin".to_owned());
    names.push("X-Requested-With".to_owned());
    names.push("X-Request-ID".to_owned());
    assert(texts(names@) =~= always_allowed());
    names
}

fn exposed_names() -> (names: Vec<String>)
    ensures
        texts(names@) == exposed(),
{
    let mut names: Vec<String> = Vec::new();
    names.push("Location".to_owned());
    names.push("Tus-Version".to_owned());
    names.push("Tus-Resumable".to_owned());
    names.push("Tus-Max-Size".to_owned());
    names.push("Tus-Extension".to_owned());
    names.push("Tus-Checksum-Algorithm".to_owned());
    names.push("Content-Type".to_owned());
    names.push("Content-Length".to_owned());
    names.push("Upload-Length".to_owned());
    names.push("Upload-Metadata".to_owned());
    names.push("Upload-Defer-Length".to_owned());
    names.push("Upload-Concat".to_owned());
    names.push("Upload-Offset".to_owned());
    assert(texts(names@) =~= exposed());
    names
}

proof fn lemma_allowed_are_values(i: int)
    requires
        0 <= i < always_allowed().len(),
    ensures
        is_field_value(always_allowed()[i]),
{
    reveal_strlit("Content-Type");
    reveal_strlit("Upload-Offset");
    reveal_strlit("Upload-Checksum");
    reveal_strlit("Upload-Length");
    reveal_strlit("Upload-Metadata");
    reveal_strlit("Upload-Concat");
    reveal_strlit("Upload-Defer-Length");
    reveal_strlit("Tus-Resumable");
    reveal_strlit("Tus-Version");
    reveal_strlit("X-HTTP-Method-Override");
    reveal_strlit("Authorization");
    reveal_strlit("Origin");
    reveal_strlit("X-Requested-With");
    reveal_strlit("X-Request-ID");
}

proof fn lemma_exposed_are_values(i: int)
    requires
        0 <= i < exposed().len(),
    ensures
        is_field_value(exposed()[i]),
{
    reveal_strlit("Location");
    reveal_strlit("Tus-Version");
    reveal_strlit("Tus-Resumable");
    reveal_strlit("Tus-Max-Size");
    reveal_strlit("Tus-Extension");
    reveal_strlit("Tus-Checksum-Algorithm");
    reveal_strlit("Content-Type");
    reveal_strlit("Content-Length");
    reveal_strlit("Upload-Length");
    reveal_strlit("Upload-Metadata");
    reveal_strlit("Upload-Defer-Length");
    reveal_strlit("Upload-Concat");
    reveal_strlit("Upload-Offset");
}

proof fn lemma_lists_are_values(additional: Seq<Seq<char>>)
    ensures
        is_field_value(joined(allowed(additional), ", "@)),
        is_field_value(joined(exposed(), ", "@)),
{
    reveal_strlit(", ");
    let named = |name: Seq<char>| is_field_name(name);
    let names = allowed(additional);
    let more = additional.filter(named);
    assert forall|i: int| 0 <= i < names.len() implies is_field_value(#[trigger] names[i]) by {
        if i < always_allowed().len() {
            lemma_allowed_are_values(i);
        } else {
            let k = i - always_allowed().len();
            assert(names[i] == more[k]);
            additional.lemma_filter_pred(named, k);
        }
    }
    lemma_joined_is_value(names, ", "@);
    assert forall|i: int| 0 <= i < exposed().len() implies is_field_value(
        #[trigger] exposed()[i],
    ) by {
        lemma_exposed_are_values(i);
    }
    lemma_joined_is_value(exposed(), ", "@);
}

/// Create CORS configuration for the server.
///
/// CORS rules are applied to every handler.
///
/// If the origins vector is empty all origins are
/// welcome, otherwise it will create a wildcard match for
/// every host.
pub fn create_cors(origins: Vec<String>, additional_headers: Vec<String>) -> (r: CorsConfig)
    ensures
        texts(r.matchers@) == texts(origins@),
        r.allow_headers@ == joined(allowed(texts(additional_headers@)), ", "@),
        r.expose_headers@ == joined(exposed(), ", "@),
        r.wf(),
{
    let mut names = always_allowed_names();
    let ghost more = texts(additional_headers@);
    let ghost named = |name: Seq<char>| is_field_name(name);
    proof {
        reveal(Seq::filter);
        assert(always_allowed() + more.take(0).filter(named) =~= always_allowed());
    }
    for i in 0..additional_headers.len()
        invariant
            more == texts(additional_headers@),
            named == (|name: Seq<char>| is_field_name(name)),
            texts(names@) == always_allowed() + more.take(i as int).filter(named),
    {
        let ghost before = texts(names@);
        let ghost name = additional_headers@[i as int]@;
        proof {
            reveal(Seq::filter);
            assert(more.take(i + 1).drop_last() =~= more.take(i as int));
            assert(more.take(i + 1).last() == name);
        }
        if valid_name(additional_headers[i].as_str()) {
            names.push(additional_headers[i].clone());
            assert(texts(names@) =~= before.push(name));
            assert(before.push(name) =~= always_allowed() + more.take(i as int).filter(named).push(
                name,
            ));
        }
    }
    proof {
        assert(more.take(more.len() as int) =~= more);
        lemma_lists_are_values(more);
    }
    let allow_headers = join_text(&names, ", ");
    let expose_headers = join_text(&exposed_names(), ", ");
    CorsConfig {
        matchers: origins,
        allow_headers: if valid_value(allow_headers.as_str()) {
            allow_headers
        } else {
            String::new()
        },
        expose_headers: if valid_value(expose_headers.as_str()) {
            expose_headers
        } else {
            String::new()
        },
    }
}

/// Some pattern matches the origin.
pub open spec fn matches_any(patterns: Seq<Seq<char>>, origin: Seq<char>) -> bool {
    exists|i: int| 0 <= i < patterns.len() && wildcard(#[trigger] patterns[i], origin)
}

/// The origin that a reply allows: any where there are no patterns, else that of the request where
/// it matches one.
pub open spec fn allowed_origin(patterns: Seq<Seq<char>>, origin: Option<Seq<char>>) -> Option<
    Seq<char>,
> {
    if patterns.len() == 0 {
        Some("*"@)
    } else {
        match origin {
            Some(o) => if matches_any(patterns, o) && is_field_value(o) {
                Some(o)
            } else {
                None
            },
            None => None,
        }
    }
}

/// What a reply tells pages of an allowed origin: names of fields and their values.
pub open spec fn cors_pairs(config: CorsConfig, origin: Seq<char>) -> Seq<(Seq<char>, Seq<char>)> {
    seq![
        ("Access-Control-Allow-Origin"@, origin),
        ("Access-Control-Allow-Methods"@, "OPTIONS, GET, HEAD, POST, PATCH, DELETE"@),
        ("Access-Control-Allow-Headers"@, config.allow_headers@),
        ("Access-Control-Expose-Headers"@, config.expose_headers@),
        ("Access-Control-Max-Age"@, "86400"@),
    ]
}

/// The fields with a value for each of the pairs, one behind the other.
pub open spec fn with_pairs(fields: Fields, pairs: Seq<(Seq<char>, Seq<char>)>) -> Fields
    decreases pairs.len(),
{
    if pairs.len() == 0 {
        fields
    } else {
        with_value(with_pairs(fields, pairs.drop_last()), pairs.last().0, pairs.last().1)
    }
}

/// The fields of a reply with what pages of an allowed origin may do.
pub open spec fn cors_fields(config: CorsConfig, fields: Fields, origin: Seq<char>) -> Fields {
    with_pairs(fields, cors_pairs(config, origin))
}

/// The origin of the page that sent a request.
pub fn request_origin(headers: &HeaderMap) -> (r: Option<String>)
    ensures
        text_option(r) == field_text(header_values(*headers), "Origin"@),
{
    header_text(headers, "Origin")
}

/// Whether some pattern matches the origin.
fn origin_matches(patterns: &Vec<String>, origin: &str) -> (r: bool)
    ensures
        r == matches_any(texts(patterns@), origin@),
{
    let ghost all = texts(patterns@);
    for i in 0..patterns.len()
        invariant
            all == texts(patterns@),
            forall|j: int| 0 <= j < i ==> !wildcard(#[trigger] all[j], origin@),
    {
        assert(all[i as int] == patterns@[i as int]@);
        if wildcard_matches(patterns[i].as_str(), origin) {
            return true;
        }
    }
    false
}

/// The origin that a reply allows.
fn choose_origin(config: &CorsConfig, origin: Option<String>) -> (r: Option<String>)
    ensures
        text_option(r) == allowed_origin(texts(config.matchers@), text_option(origin)),
{
    if config.matchers.is_empty() {
        return Some("*".to_owned());
    }
    match origin {
        Some(origin) => {
            if origin_matches(&config.matchers, origin.as_str()) && valid_value(origin.as_str()) {
                Some(origin)
            } else {
                None
            }
        },
        None => None,
    }
}

/// Each pair adds at most one field name.
proof fn lemma_with_pairs(fields: Fields, pairs: Seq<(Seq<char>, Seq<char>)>)
    requires
        with_pairs(fields, pairs).dom().finite(),
    ensures
        fields.dom().finite(),
        with_pairs(fields, pairs).dom().len() <= fields.dom().len() + pairs.len(),
    decreases pairs.len(),
{
    if pairs.len() > 0 {
        let before = with_pairs(fields, pairs.drop_last());
        let key = header_key(pairs.last().0);
        let after = with_pairs(fields, pairs);
        assert(after.dom() =~= before.dom().insert(key));
        if before.dom().contains(key) {
            assert(before.dom() =~= after.dom());
        } else {
            assert(before.dom() =~= after.dom().remove(key));
        }
        lemma_with_pairs(fields, pairs.drop_last());
    }
}

/// Attaches what a reply tells pages of an allowed origin, as far as there is room.
fn attach(config: &CorsConfig, origin: &str, headers: &mut HeaderMap) -> (r: bool)
    requires
        config.wf(),
        is_field_value(origin@),
    ensures
        r ==> header_values(*final(headers)) == cors_fields(
            *config,
            header_values(*old(headers)),
            origin@,
        ),
        !r ==> crowded_out(
            *config,
            header_values(*old(headers)),
            origin@,
            header_values(*final(headers)),
        ),
{
    proof {
        reveal_strlit("Access-Control-Allow-Origin");
        reveal_strlit("Access-Control-Allow-Methods");
        reveal_strlit("OPTIONS, GET, HEAD, POST, PATCH, DELETE");
        reveal_strlit("Access-Control-Allow-Headers");
        reveal_strlit("Access-Control-Expose-Headers");
        reveal_strlit("Access-Control-Max-Age");
        reveal_strlit("86400");
    }
    let ghost before = header_values(*headers);
    let ghost all = cors_pairs(*config, origin@);
    let mut pairs: Vec<(&'static str, &str)> = Vec::new();
    pairs.push(("Access-Control-Allow-Origin", origin));
    pairs.push(("Access-Control-Allow-Methods", "OPTIONS, GET, HEAD, POST, PATCH, DELETE"));
    pairs.push(("Access-Control-Allow-Headers", config.allow_headers.as_str()));
    pairs.push(("Access-Control-Expose-Headers", config.expose_headers.as_str()));
    pairs.push(("Access-Control-Max-Age", "86400"));
    let mut i: usize = 0;
    while i < pairs.len()
        invariant
            i <= pairs@.len(),
            all == cors_pairs(*config, origin@),
            pairs@.len() == all.len(),
            forall|k: int|
                0 <= k < pairs@.len() ==> (#[trigger] pairs@[k]).0@ == all[k].0 && pairs@[k].1@
                    == all[k].1 && is_field_name(all[k].0) && is_field_value(all[k].1),
            before == header_values(*old(headers)),
            header_values(*headers) == with_pairs(before, all.take(i as int)),
        decreases pairs@.len() - i,
    {
        assert(all.take(i + 1).drop_last() =~= all.take(i as int));
        assert(pairs@[i as int].0@ == all[i as int].0);
        if !try_insert_header(headers, pairs[i].0, pairs[i].1) {
            proof {
                lemma_with_pairs(before, all.take(i as int));
            }
            return false;
        }
        i = i + 1;
    }
    assert(all.take(all.len() as int) =~= all);
    true
}

/// A reply with so many fields that there is no room for all that it should tell: it tells the
/// first few.
pub open spec fn crowded_out(
    config: CorsConfig,
    before: Fields,
    origin: Seq<char>,
    after: Fields,
) -> bool {
    let pairs = cors_pairs(config, origin);
    &&& before.dom().finite()
    &&& before.dom().len() + pairs.len() > FIELD_NAME_LIMIT
    &&& exists|n: int|
        0 <= n < pairs.len() && after == #[trigger] with_pairs(before, pairs.take(n))
}

/// Middleware that attaches CORS headers to every response.
///
/// It takes the origin of the request, and adds to the fields of the reply what pages of that
/// origin may do, where they may do anything. Nothing stands against that but a header map at its
/// largest size, and then the result is `false`.
pub fn cors_middleware(
    config: &CorsConfig,
    request_origin: Option<String>,
    headers: &mut HeaderMap,
) -> (r: bool)
    requires
        config.wf(),
    ensures
        match allowed_origin(texts(config.matchers@), text_option(request_origin)) {
            Some(origin) => if r {
                header_values(*final(headers)) == cors_fields(
                    *config,
                    header_values(*old(headers)),
                    origin,
                )
            } else {
                crowded_out(
                    *config,
                    header_values(*old(headers)),
                    origin,
                    header_values(*final(headers)),
                )
            },
            None => r && header_values(*final(headers)) == header_values(*old(headers)),
        },
{
    proof {
        reveal_strlit("*");
    }
    match choose_origin(config, request_origin) {
        Some(origin) => attach(config, origin.as_str(), headers),
        None => true,
    }
}

/// Where there are patterns, a reply allows no origin but that of the request, and that only where
/// it matches one of them.
pub proof fn law_only_matching_origins(patterns: Seq<Seq<char>>, origin: Option<Seq<char>>)
    requires
        patterns.len() > 0,
    ensures
        allowed_origin(patterns, origin) matches Some(o) ==> origin == Some(o) && matches_any(
            patterns,
            o,
        ),
{
}

/// The pattern `*` matches every origin.
pub proof fn law_star_matches_all(text: Seq<char>)
    ensures
        wildcard("*"@, text),
    decreases text.len(),
{
    reveal_strlit("*");
    let rest = "*"@.drop_first();
    if text.len() == 0 {
        assert(wildcard(rest, text));
    } else {
        law_star_matches_all(text.drop_first());
    }
}

/// A pattern without wildcards matches itself and nothing else.
pub proof fn law_plain_pattern(pattern: Seq<char>, text: Seq<char>)
    requires
        !pattern.contains('*'),
        !pattern.contains('?'),
    ensures
        wildcard(pattern, text) == (pattern == text),
    decreases pattern.len(),
{
    if pattern.len() == 0 {
        assert(wildcard(pattern, text) == (pattern =~= text));
    } else {
        assert(pattern.contains(pattern[0]));
        let rest = pattern.drop_first();
        assert forall|c: char| rest.contains(c) implies pattern.contains(c) by {
            let i = choose|i: int| 0 <= i < rest.len() && rest[i] == c;
            assert(pattern[i + 1] == c);
        }
        if text.len() > 0 {
            law_plain_pattern(rest, text.drop_first());
            assert(pattern =~= seq![pattern[0]] + rest);
            assert(text =~= seq![text[0]] + text.drop_first());
            if pattern == text {
                assert(rest == text.drop_first());
            }
        }
    }
}

/// The fields that are attached, one by one.
proof fn lemma_cors_fields(config: CorsConfig, fields: Fields, origin: Seq<char>)
    ensures
        cors_fields(config, fields, origin) == {
            let pairs = cors_pairs(config, origin);
            let first = with_value(fields, pairs[0].0, pairs[0].1);
            let second = with_value(first, pairs[1].0, pairs[1].1);
            let third = with_value(second, pairs[2].0, pairs[2].1);
            let fourth = with_value(third, pairs[3].0, pairs[3].1);
            with_value(fourth, pairs[4].0, pairs[4].1)
        },
{
    let pairs = cors_pairs(config, origin);
    assert(pairs.drop_last() =~= pairs.take(4));
    assert(pairs.take(4).drop_last() =~= pairs.take(3));
    assert(pairs.take(3).drop_last() =~= pairs.take(2));
    assert(pairs.take(2).drop_last() =~= pairs.take(1));
    assert(pairs.take(1).drop_last() =~= pairs.take(0));
    reveal_with_fuel(with_pairs, 6);
}

/// The names of the fields that are attached.
pub open spec fn cors_names() -> Seq<Seq<char>> {
    seq![
        "Access-Control-Allow-Origin"@,
        "Access-Control-Allow-Methods"@,
        "Access-Control-Allow-Headers"@,
        "Access-Control-Expose-Headers"@,
        "Access-Control-Max-Age"@,
    ]
}

/// The reply tells the allowed origin, and all fields that are not attached stay.
pub proof fn law_cors_fields(config: CorsConfig, fields: Fields, origin: Seq<char>, other: Seq<char>)
    requires
        is_visible(origin),
    ensures
        field_text(cors_fields(config, fields, origin), "Access-Control-Allow-Origin"@) == Some(
            origin,
        ),
        (forall|i: int|
            0 <= i < cors_names().len() ==> header_key(#[trigger] cors_names()[i]) != header_key(other))
            ==> field_text(cors_fields(config, fields, origin), other) == field_text(fields, other),
{
    reveal_strlit("Access-Control-Allow-Origin");
    reveal_strlit("Access-Control-Allow-Methods");
    reveal_strlit("Access-Control-Allow-Headers");
    reveal_strlit("Access-Control-Expose-Headers");
    reveal_strlit("Access-Control-Max-Age");
    let name = "Access-Control-Allow-Origin"@;
    lemma_keys_differ(name, "Access-Control-Allow-Methods"@, 0);
    lemma_keys_differ(name, "Access-Control-Allow-Headers"@, 0);
    lemma_keys_differ(name, "Access-Control-Expose-Headers"@, 0);
    lemma_keys_differ(name, "Access-Control-Max-Age"@, 0);
    law_insert_reads_back(fields, name, origin, name);
    let after = cors_fields(config, fields, origin);
    lemma_cors_fields(config, fields, origin);
    assert(field_text(after, name) == field_text(with_value(fields, name, origin), name));
    if forall|i: int|
        0 <= i < cors_names().len() ==> header_key(#[trigger] cors_names()[i]) != header_key(other) {
        assert(header_key(cors_names()[0]) != header_key(other));
        assert(header_key(cors_names()[1]) != header_key(other));
        assert(header_key(cors_names()[2]) != header_key(other));
        assert(header_key(cors_names()[3]) != header_key(other));
        assert(header_key(cors_names()[4]) != header_key(other));
    }
}

} // verus!
