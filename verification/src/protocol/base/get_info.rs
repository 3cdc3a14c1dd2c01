//! The request for what is known of an upload.

use http::HeaderMap;
use vstd::prelude::*;

use crate::config::RustusConf;
use crate::errors::RustusError;
use crate::fields::{
    append_header, header_values, is_field_name, is_field_value, lemma_decimal_is_value,
    lemma_with_more, no_fields, no_headers, valid_value, with_more, Fields,
};
use crate::file_info::{pairs_text, FileInfo, Pairs, Upload};
use crate::laws::law_known_metadata_reads_back;
use crate::protocol::creation::metadata::{
    keys_are_values, lemma_pairs_are_value, lemma_pairs_are_visible, tellable, visible_keys,
};
use crate::protocol::creation::routes::{metadata_in, upload_url};
use crate::protocol::exchange::{
    turn, Action, ActionModel, Event, EventModel, Reply, ReplyModel, Turn, TurnModel,
};
use crate::text::{
    decimal, decimal_text, join_text, joined, same, signed_decimal, signed_decimal_text, texts,
};

verus! {

broadcast use vstd::string::group_string_axioms;

/// How far a lookup has come.
#[derive(Clone, Copy, Debug, PartialEq, Eq, Structural)]
pub enum LookupState {
    /// Nothing is done.
    Start,
    /// The upload is looked up.
    Loading,
    /// The request is answered.
    Finished,
}

impl View for LookupState {
    type V = LookupState;

    open spec fn view(&self) -> LookupState {
        *self
    }
}

/// Where some uploads are found.
pub open spec fn part_urls(conf: RustusConf, ids: Seq<Seq<char>>) -> Seq<Seq<char>> {
    ids.map_values(|id: Seq<char>| upload_url(conf, id))
}

/// The value of the `Upload-Concat` field of a final upload: where its parts are found.
pub open spec fn concat_value(conf: RustusConf, ids: Seq<Seq<char>>) -> Seq<char> {
    "final; "@ + joined(part_urls(conf, ids), " "@)
}

/// The fields with what they tell of the parts of an upload.
pub open spec fn concat_fields(conf: RustusConf, info: Upload) -> Fields {
    let fields = if info.is_partial {
        with_more(no_fields(), "Upload-Concat"@, "partial"@)
    } else {
        no_fields()
    };
    if info.is_final && info.parts is Some {
        with_more(fields, "Upload-Concat"@, concat_value(conf, info.parts->0))
    } else {
        fields
    }
}

/// The fields with what they tell of the sizes of an upload.
pub open spec fn size_fields(fields: Fields, info: Upload) -> Fields {
    let fields = with_more(fields, "Upload-Offset"@, decimal(info.offset as nat));
    match info.length {
        Some(length) => with_more(
            with_more(fields, "Content-Length"@, decimal(info.offset as nat)),
            "Upload-Length"@,
            decimal(length as nat),
        ),
        None => with_more(fields, "Upload-Defer-Length"@, "1"@),
    }
}

/// The fields with what they tell of the metadata of an upload.
pub open spec fn metadata_fields(fields: Fields, info: Upload) -> Fields {
    if info.metadata.len() > 0 {
        with_more(fields, "Upload-Metadata"@, pairs_text(info.metadata))
    } else {
        fields
    }
}

/// The fields with when the upload was created, and that nobody is to keep the reply.
pub open spec fn closing_fields(fields: Fields, info: Upload) -> Fields {
    with_more(
        with_more(
            with_more(fields, "Upload-Created"@, signed_decimal(info.created_at as int)),
            "Cache-Control"@,
            "no-cache"@,
        ),
        "Cache-Control"@,
        "no-store"@,
    )
}

/// The fields that tell what is known of an upload.
pub open spec fn known_fields(conf: RustusConf, info: Upload) -> Fields {
    closing_fields(metadata_fields(size_fields(concat_fields(conf, info), info), info), info)
}

/// Whether fields can tell what is known of an upload: where its parts are found, and the keys of
/// its metadata. Values are told as base64, which any field can hold.
pub open spec fn can_tell(conf: RustusConf, info: Upload) -> bool {
    &&& info.is_final && info.parts is Some ==> is_field_value(concat_value(conf, info.parts->0))
    &&& keys_are_values(info.metadata)
}

/// The fields tell the metadata as a request would, where metadata can be told.
pub open spec fn tells_metadata(fields: Fields, metadata: Pairs) -> bool {
    metadata.len() > 0 && tellable(metadata) && visible_keys(metadata) ==> metadata_in(fields)
        == Some(metadata)
}

/// The upload is looked up.
pub open spec fn info_loaded(conf: RustusConf, storage: Seq<char>, info: Upload) -> TurnModel<
    LookupState,
> {
    let action = if info.storage != storage {
        ActionModel::Fail { error: RustusError::FileNotFound }
    } else if !can_tell(conf, info) {
        ActionModel::Fail { error: RustusError::Unknown }
    } else {
        ActionModel::Respond {
            reply: ReplyModel { status: 200, fields: known_fields(conf, info), body: None },
        }
    };
    turn(LookupState::Finished, action)
}

/// The turn of a request for what is known of an upload.
pub open spec fn info_turn(
    conf: RustusConf,
    file_id: Seq<char>,
    storage: Seq<char>,
    state: LookupState,
    event: EventModel,
) -> TurnModel<LookupState> {
    match (state, event) {
        (LookupState::Start, EventModel::Begin) => turn(
            LookupState::Loading,
            ActionModel::GetInfo { id: file_id },
        ),
        (LookupState::Loading, EventModel::Info { info }) => info_loaded(conf, storage, info),
        _ => turn(LookupState::Finished, ActionModel::Abort),
    }
}

/// Where some uploads are found, with spaces between.
fn list_urls(conf: &RustusConf, ids: &Vec<String>) -> (r: String)
    ensures
        r@ == joined(part_urls(*conf, texts(ids@)), " "@),
{
    let mut urls: Vec<String> = Vec::new();
    let ghost all = part_urls(*conf, texts(ids@));
    for i in 0..ids.len()
        invariant
            all == part_urls(*conf, texts(ids@)),
            texts(urls@) =~= all.take(i as int),
    {
        let ghost before = texts(urls@);
        let url = "/".to_owned().concat(conf.base_url()).concat("/").concat(ids[i].as_str());
        urls.push(url);
        assert(texts(urls@) =~= before.push(url@));
        assert(url@ == all[i as int]);
    }
    assert(texts(urls@) =~= all);
    join_text(&urls, " ")
}

/// Adds a value to a small header map.
fn tell(headers: &mut HeaderMap, Ghost(n): Ghost<nat>, name: &'static str, value: &str)
    requires
        is_field_name(name@),
        is_field_value(value@),
        header_values(*old(headers)).dom().finite(),
        header_values(*old(headers)).dom().len() <= n < 100,
    ensures
        header_values(*final(headers)) == with_more(header_values(*old(headers)), name@, value@),
        header_values(*final(headers)).dom().finite(),
        header_values(*final(headers)).dom().len() <= n + 1,
{
    proof {
        lemma_with_more(header_values(*headers), name@, value@);
    }
    append_header(headers, name, value);
}

fn reply_known(conf: &RustusConf, info: &FileInfo) -> (r: Option<Reply>)
    ensures
        match r {
            Some(reply) => can_tell(*conf, info@) && reply@ == (ReplyModel {
                status: 200,
                fields: known_fields(*conf, info@),
                body: None,
            }) && tells_metadata(known_fields(*conf, info@), info@.metadata),
            None => !can_tell(*conf, info@),
        },
{
    proof {
        reveal_strlit("Upload-Concat");
        reveal_strlit("partial");
        reveal_strlit("Upload-Offset");
        reveal_strlit("Content-Length");
        reveal_strlit("Upload-Length");
        reveal_strlit("Upload-Defer-Length");
        reveal_strlit("1");
        reveal_strlit("Upload-Metadata");
        reveal_strlit("Upload-Created");
        reveal_strlit("Cache-Control");
        reveal_strlit("no-cache");
        reveal_strlit("no-store");
        lemma_decimal_is_value(info.offset as nat);
        lemma_created_is_value(info.created_at as int);
    }
    let mut headers = no_headers();
    if info.is_partial {
        tell(&mut headers, Ghost(0), "Upload-Concat", "partial");
    }
    if info.is_final {
        if let Some(parts) = &info.parts {
            let value = "final; ".to_owned().concat(list_urls(conf, parts).as_str());
            if !valid_value(value.as_str()) {
                return None;
            }
            tell(&mut headers, Ghost(1), "Upload-Concat", value.as_str());
        }
    }
    assert(header_values(headers) == concat_fields(*conf, info@));
    tell(&mut headers, Ghost(2), "Upload-Offset", decimal_text(info.offset as u64).as_str());
    match info.length {
        Some(length) => {
            proof {
                lemma_decimal_is_value(length as nat);
            }
            tell(&mut headers, Ghost(3), "Content-Length", decimal_text(info.offset as u64).as_str());
            tell(&mut headers, Ghost(4), "Upload-Length", decimal_text(length as u64).as_str());
        },
        None => {
            tell(&mut headers, Ghost(3), "Upload-Defer-Length", "1");
        },
    }
    assert(header_values(headers) == size_fields(concat_fields(*conf, info@), info@));
    if let Some(metadata) = info.get_metadata_string() {
        proof {
            lemma_pairs_are_value(info.metadata@);
        }
        if !valid_value(metadata.as_str()) {
            return None;
        }
        tell(&mut headers, Ghost(5), "Upload-Metadata", metadata.as_str());
        proof {
            if tellable(info.metadata@) && visible_keys(info.metadata@) {
                lemma_pairs_are_visible(info.metadata@);
                law_known_metadata_reads_back(*conf, info@);
            }
        }
    }
    tell(&mut headers, Ghost(6), "Upload-Created", signed_decimal_text(info.created_at).as_str());
    tell(&mut headers, Ghost(7), "Cache-Control", "no-cache");
    // Header to prevent the client and/or proxies from caching the response.
    tell(&mut headers, Ghost(8), "Cache-Control", "no-store");
    Some(Reply { status: 200, headers, body: None })
}

proof fn lemma_created_is_value(n: int)
    ensures
        is_field_value(signed_decimal(n)),
{
    if n < 0 {
        lemma_decimal_is_value((-n) as nat);
    } else {
        lemma_decimal_is_value(n as nat);
    }
}

/// Tells what is known of an upload.
pub fn get_file_info(
    conf: &RustusConf,
    file_id: &str,
    storage: &str,
    state: LookupState,
    event: Event,
) -> (r: Turn<LookupState>)
    ensures
        r@ == info_turn(*conf, file_id@, storage@, state, event@),
        r@.action matches ActionModel::Respond { reply } ==> (event@ matches EventModel::Info { info }
            ==> tells_metadata(reply.fields, info.metadata)),
{
    match (state, event) {
        (LookupState::Start, Event::Begin) => Turn::quiet(
            LookupState::Loading,
            Action::GetInfo { id: file_id.to_owned() },
        ),
        (LookupState::Loading, Event::Info { info }) => {
            let action = if !same(info.storage.as_str(), storage) {
                Action::Fail { error: RustusError::FileNotFound }
            } else {
                match reply_known(conf, &info) {
                    Some(reply) => Action::Respond { reply },
                    None => Action::Fail { error: RustusError::Unknown },
                }
            };
            Turn::quiet(LookupState::Finished, action)
        },
        _ => Turn::quiet(LookupState::Finished, Action::Abort),
    }
}

} // verus!
