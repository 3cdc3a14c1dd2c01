//! The request that creates an upload.

use http::HeaderMap;
use vstd::prelude::*;
use vstd::utf8::{decode_utf8, valid_utf8};

use crate::codec::{base64_bytes, decode_base64, is_random_id, random_id, utf8_text};
use crate::config::RustusConf;
use crate::fields::{
    field_text, header_text, header_values, insert_header, is_field_value, lemma_decimal_is_value,
    no_fields, no_headers, valid_value, with_value, Fields,
};
use crate::file_info::{new_upload, pairs_option, put, FileInfo, Metadata, Pairs, Upload};
use crate::notifiers::Hook;
use crate::protocol::exchange::{
    effects_of, says, turn, uploads, Action, ActionModel, Counter, Effect, EffectModel, Event,
    EventModel, Reply, ReplyModel, Request, Turn, TurnModel,
};
use crate::protocol::extensions::Extensions;
use crate::protocol::reading::{
    asks_final, asks_partial, defers_length, header_asks_final, header_is, header_sends_bytes,
    header_size, length_in, sends_bytes,
};
use crate::text::{
    decimal, decimal_text, split, split_text, strip_prefix, texts, trim_text, trimmed,
};

verus! {

broadcast use vstd::string::group_string_axioms;

/// The text of decoded bytes, where there are any and they are UTF-8.
pub open spec fn decoded_text(decoded: Option<Seq<u8>>) -> Option<Seq<char>> {
    match decoded {
        Some(bytes) => if valid_utf8(bytes) {
            Some(decode_utf8(bytes))
        } else {
            None
        },
        None => None,
    }
}

/// The pairs with one more, whose value came decoded; a value that is not text is left out.
pub open spec fn with_decoded(pairs: Pairs, key: Seq<char>, decoded: Option<Seq<u8>>) -> Pairs {
    match decoded_text(decoded) {
        Some(value) => put(pairs, key, value),
        None => pairs,
    }
}

/// The pairs with the one that a piece of an `Upload-Metadata` field tells: a key, a space, and a
/// value as base64.
pub open spec fn with_piece(pairs: Pairs, piece: Seq<char>) -> Pairs {
    let words = split(trimmed(piece), ' ');
    if words.len() < 2 {
        pairs
    } else {
        with_decoded(pairs, words[0], base64_bytes(words[1]))
    }
}

/// The pairs that the pieces of an `Upload-Metadata` field tell.
pub open spec fn pairs_of(pieces: Seq<Seq<char>>) -> Pairs
    decreases pieces.len(),
{
    if pieces.len() == 0 {
        seq![]
    } else {
        with_piece(pairs_of(pieces.drop_last()), pieces.last())
    }
}

/// The metadata that the fields of a request tell.
pub open spec fn metadata_in(fields: Fields) -> Option<Pairs> {
    match field_text(fields, "Upload-Metadata"@) {
        Some(text) => Some(pairs_of(split(text, ','))),
        None => None,
    }
}

/// The bytes of an optional vector.
pub open spec fn bytes_option(bytes: Option<Vec<u8>>) -> Option<Seq<u8>> {
    match bytes {
        Some(b) => Some(b@),
        None => None,
    }
}

/// Adds a pair whose value came decoded. A value that is not text is left out.
pub fn add_decoded(metadata: &mut Metadata, key: &str, decoded: Option<Vec<u8>>)
    ensures
        final(metadata)@ == with_decoded(old(metadata)@, key@, bytes_option(decoded)),
        old(metadata).wf() ==> final(metadata).wf(),
{
    if let Some(bytes) = decoded {
        if let Some(value) = utf8_text(bytes) {
            metadata.insert(key.to_owned(), value);
        }
    }
}

/// Adds the pair that a piece of an `Upload-Metadata` field tells.
fn add_piece(metadata: &mut Metadata, piece: &str)
    ensures
        final(metadata)@ == with_piece(old(metadata)@, piece@),
        old(metadata).wf() ==> final(metadata).wf(),
{
    let words = split_text(trim_text(piece), ' ');
    let ghost all = split(trimmed(piece@), ' ');
    assert(all == words@.map_values(|p: &str| p@));
    if words.len() >= 2 {
        assert(all[0] == words@[0]@);
        assert(all[1] == words@[1]@);
        add_decoded(metadata, words[0], decode_base64(words[1]));
    }
}

/// Get metadata info from request.
///
/// Metadata is located in Upload-Metadata header.
/// Key and values are separated by spaces and
/// pairs are delimited with commas.
///
/// E.G.
/// `Upload-Metadata: Video bWVtZXM=,Category bWVtZXM=`
///
/// All values are encoded as base64 strings.
pub fn get_metadata(headers: &HeaderMap) -> (r: Option<Metadata>)
    ensures
        pairs_option(r) == metadata_in(header_values(*headers)),
        r matches Some(metadata) ==> metadata.wf(),
{
    match header_text(headers, "Upload-Metadata") {
        Some(text) => {
            let pieces = split_text(text.as_str(), ',');
            let ghost all = split(text@, ',');
            let mut metadata = Metadata::new();
            for i in 0..pieces.len()
                invariant
                    all == pieces@.map_values(|p: &str| p@),
                    metadata@ == pairs_of(all.take(i as int)),
                    metadata.wf(),
            {
                assert(all.take(i + 1).drop_last() =~= all.take(i as int));
                assert(all.take(i + 1).last() == pieces@[i as int]@);
                add_piece(&mut metadata, pieces[i]);
            }
            assert(all.take(pieces@.len() as int) =~= all);
            Some(metadata)
        },
        None => None,
    }
}

/// The id of an upload at the end of its address.
pub open spec fn id_in(url: Seq<char>) -> Seq<char> {
    split(trimmed(url), '/').last()
}

/// The ids at the ends of addresses, without blank ones.
pub open spec fn ids_in(urls: Seq<Seq<char>>) -> Seq<Seq<char>>
    decreases urls.len(),
{
    if urls.len() == 0 {
        seq![]
    } else {
        let ids = ids_in(urls.drop_last());
        let id = id_in(urls.last());
        if trimmed(id).len() > 0 {
            ids.push(id)
        } else {
            ids
        }
    }
}

/// The ids of the parts that an `Upload-Concat` field lists behind `final;`.
pub open spec fn parts_in(concat: Seq<char>) -> Seq<Seq<char>> {
    ids_in(split(concat.skip("final;"@.len() as int), ' '))
}

/// The ids of the parts that the `Upload-Concat` field of a final upload lists.
pub fn get_upload_parts(headers: &HeaderMap) -> (parts: Vec<String>)
    requires
        asks_final(header_values(*headers)),
    ensures
        texts(parts@) == parts_in(field_text(header_values(*headers), "Upload-Concat"@)->0),
{
    let mut parts: Vec<String> = Vec::new();
    if let Some(concat) = header_text(headers, "Upload-Concat") {
        if let Some(listed) = strip_prefix(concat.as_str(), "final;") {
            let urls = split_text(listed, ' ');
            let ghost all = split(listed@, ' ');
            assert(texts(parts@) =~= seq![]);
            for i in 0..urls.len()
                invariant
                    all == urls@.map_values(|p: &str| p@),
                    texts(parts@) == ids_in(all.take(i as int)),
            {
                let ghost url = urls@[i as int]@;
                assert(all.take(i + 1).drop_last() =~= all.take(i as int));
                assert(all.take(i + 1).last() == url);
                let segments = split_text(trim_text(urls[i]), '/');
                assert(split(trimmed(url), '/').len() > 0);
                let id = segments[segments.len() - 1];
                assert(id@ == id_in(url));
                if !trim_text(id).is_empty() {
                    let ghost before = texts(parts@);
                    parts.push(id.to_owned());
                    assert(texts(parts@) =~= before.push(id@));
                }
            }
            assert(all.take(urls@.len() as int) =~= all);
        }
    }
    parts
}

/// Why a request to create an upload is refused, where it is.
pub open spec fn refusal(conf: RustusConf, fields: Fields) -> Option<ReplyModel> {
    let length = length_in(fields);
    let later = conf.offers(Extensions::CreationDeferLength) && defers_length(fields);
    let joins = conf.offers(Extensions::Concatenation) && asks_final(fields);
    if !conf.allow_empty && length == Some(0usize) {
        Some(says(400, "Upload-Length should be greater than zero"@))
    } else if length is None && !later && !joins {
        Some(says(400, "Upload-Length header is required"@))
    } else if conf.max_file_size is Some && length is Some && conf.max_file_size->0 < length->0 {
        Some(
            says(
                400,
                "Upload-Length should be less than or equal to "@ + decimal(
                    conf.max_file_size->0 as nat,
                ),
            ),
        )
    } else if joins && parts_in(field_text(fields, "Upload-Concat"@)->0).len() == 0 {
        Some(says(400, "Upload-Concat header has no parts to create final upload."@))
    } else {
        None
    }
}

/// The upload that a request creates.
pub open spec fn planned(
    conf: RustusConf,
    fields: Fields,
    id: Seq<char>,
    storage: Seq<char>,
    now: i64,
) -> Upload {
    let upload = new_upload(id, length_in(fields), None, storage, metadata_in(fields), now);
    if !conf.offers(Extensions::Concatenation) {
        upload
    } else if asks_final(fields) {
        Upload {
            is_final: true,
            parts: Some(parts_in(field_text(fields, "Upload-Concat"@)->0)),
            deferred_size: false,
            ..upload
        }
    } else {
        Upload { is_partial: asks_partial(fields), ..upload }
    }
}

/// The upload that a request creates under an id, or the reply that refuses it.
pub fn plan_upload(
    conf: &RustusConf,
    headers: &HeaderMap,
    id: &str,
    storage: &str,
    now: i64,
) -> (r: Result<FileInfo, Reply>)
    ensures
        match r {
            Ok(info) => refusal(*conf, header_values(*headers)) is None && info@ == planned(
                *conf,
                header_values(*headers),
                id@,
                storage@,
                now,
            ),
            Err(reply) => refusal(*conf, header_values(*headers)) == Some(reply@),
        },
{
    let length = header_size(headers, "Upload-Length");
    // Without this option, an upload has at least one byte.
    if !conf.allow_empty && length == Some(0) {
        return Err(Reply::text(400, "Upload-Length should be greater than zero".to_owned()));
    }
    let defer_size = header_is(headers, "Upload-Defer-Length", "1");
    let defer_ext = conf.extension_is_enabled(Extensions::CreationDeferLength);
    let is_final = header_asks_final(headers);
    let concat_ext = conf.extension_is_enabled(Extensions::Concatenation);
    // The length is told now, or later, or follows from the parts.
    if length.is_none() && !((defer_ext && defer_size) || (concat_ext && is_final)) {
        return Err(Reply::text(400, "Upload-Length header is required".to_owned()));
    }
    if let Some(max) = conf.max_file_size {
        if let Some(length) = length {
            if max < length {
                let message = "Upload-Length should be less than or equal to ".to_owned().concat(
                    decimal_text(max as u64).as_str(),
                );
                return Err(Reply::text(400, message));
            }
        }
    }
    let mut info = FileInfo::new(
        id,
        length,
        None,
        storage.to_owned(),
        get_metadata(headers),
        now,
    );
    let is_partial = header_is(headers, "Upload-Concat", "partial");
    if concat_ext {
        if is_final {
            info.is_final = true;
            let parts = get_upload_parts(headers);
            if parts.is_empty() {
                return Err(
                    Reply::text(
                        400,
                        "Upload-Concat header has no parts to create final upload.".to_owned(),
                    ),
                );
            }
            info.parts = Some(parts);
            info.deferred_size = false;
            proof {
                reveal_strlit("final;");
                reveal_strlit("partial");
                assert("final;"@[0] != "partial"@[0]);
                let text = field_text(header_values(*headers), "Upload-Concat"@)->0;
                assert(text.take("final;"@.len() as int)[0] == text[0]);
            }
        }
        if is_partial {
            info.is_partial = true;
        }
    }
    Ok(info)
}

/// The model of how far a creation has come.
#[verifier::ext_equal]
pub enum CreateModel {
    Start,
    Announcing { info: Upload },
    Creating,
    Gathering { info: Upload, parts: Seq<Upload>, size: usize },
    Joining { info: Upload, parts: Seq<Upload>, size: usize },
    DroppingFile { info: Upload, parts: Seq<Upload>, next: usize },
    DroppingInfo { info: Upload, parts: Seq<Upload>, next: usize },
    Appending,
    Saving { info: Upload },
    Finished,
}

/// How far a creation has come.
#[derive(Debug)]
pub enum CreateState {
    /// Nothing is done.
    Start,
    /// The listeners are told that the upload will be created.
    Announcing { info: FileInfo },
    /// The data storage makes room for the upload.
    Creating,
    /// The parts are looked up: so many are, and so many bytes they have.
    Gathering { info: FileInfo, parts: Vec<FileInfo>, size: usize },
    /// The data storage makes the upload of its parts.
    Joining { info: FileInfo, parts: Vec<FileInfo>, size: usize },
    /// The data storage removes a part.
    DroppingFile { info: FileInfo, parts: Vec<FileInfo>, next: usize },
    /// The info storage removes a part.
    DroppingInfo { info: FileInfo, parts: Vec<FileInfo>, next: usize },
    /// The data storage takes the first bytes.
    Appending,
    /// The info storage takes the upload.
    Saving { info: FileInfo },
    /// The request is answered.
    Finished,
}

impl View for CreateState {
    type V = CreateModel;

    open spec fn view(&self) -> CreateModel {
        match *self {
            CreateState::Start => CreateModel::Start,
            CreateState::Announcing { info } => CreateModel::Announcing { info: info@ },
            CreateState::Creating => CreateModel::Creating,
            CreateState::Gathering { info, parts, size } => CreateModel::Gathering {
                info: info@,
                parts: uploads(parts@),
                size,
            },
            CreateState::Joining { info, parts, size } => CreateModel::Joining {
                info: info@,
                parts: uploads(parts@),
                size,
            },
            CreateState::DroppingFile { info, parts, next } => CreateModel::DroppingFile {
                info: info@,
                parts: uploads(parts@),
                next,
            },
            CreateState::DroppingInfo { info, parts, next } => CreateModel::DroppingInfo {
                info: info@,
                parts: uploads(parts@),
                next,
            },
            CreateState::Appending => CreateModel::Appending,
            CreateState::Saving { info } => CreateModel::Saving { info: info@ },
            CreateState::Finished => CreateModel::Finished,
        }
    }
}

/// How many bytes some uploads have together.
pub open spec fn total(parts: Seq<Upload>) -> nat
    decreases parts.len(),
{
    if parts.len() == 0 {
        0
    } else {
        total(parts.drop_last()) + parts.last().offset as nat
    }
}

/// Parts that a final upload can be made of: all of their bytes have come, and they are partial.
pub open spec fn joinable(parts: Seq<Upload>) -> bool {
    forall|i: int| 0 <= i < parts.len() ==> (#[trigger] parts[i]).complete() && parts[i].is_partial
}

/// The upload with the bytes of its parts.
pub open spec fn joined_upload(info: Upload, size: usize) -> Upload {
    Upload { offset: size, length: Some(size), ..info }
}

impl CreateModel {
    /// What holds of every state that a creation comes to.
    pub open spec fn wf(self) -> bool {
        match self {
            CreateModel::Gathering { info, parts, size } => {
                &&& info.parts matches Some(ids) && parts.len() < ids.len()
                &&& joinable(parts)
                &&& size == total(parts)
            },
            CreateModel::Joining { info, parts, size } => {
                &&& info.parts matches Some(ids) && parts.len() == ids.len()
                &&& joinable(parts)
                &&& size == total(parts)
            },
            CreateModel::DroppingFile { info, parts, next } => {
                &&& next < parts.len()
                &&& info.offset == total(parts)
                &&& info.complete()
            },
            CreateModel::DroppingInfo { info, parts, next } => {
                &&& next < parts.len()
                &&& info.offset == total(parts)
                &&& info.complete()
            },
            _ => true,
        }
    }
}

/// Whether the sizes that an event brings can be counted, and a final upload comes with its parts.
pub open spec fn create_fits(request: Request, state: CreateModel, event: EventModel) -> bool {
    match (state, event) {
        (CreateModel::Creating, EventModel::Created { info, .. }) => info.is_final
            ==> info.parts is Some,
        (CreateModel::Gathering { size, .. }, EventModel::Info { info }) => info.complete()
            && info.is_partial ==> size + info.offset <= usize::MAX,
        (CreateModel::Appending, EventModel::Appended { info }) => info.offset + request.body_len
            <= usize::MAX,
        _ => true,
    }
}

/// The request is over without an answer of its own.
pub open spec fn create_aborts() -> TurnModel<CreateModel> {
    turn(CreateModel::Finished, ActionModel::Abort)
}

pub open spec fn create_answers(reply: ReplyModel) -> TurnModel<CreateModel> {
    turn(CreateModel::Finished, ActionModel::Respond { reply })
}

/// Look up the next part, or join the parts once all are looked up.
pub open spec fn gather(info: Upload, parts: Seq<Upload>, size: usize) -> TurnModel<CreateModel> {
    if parts.len() < info.parts->0.len() {
        turn(
            CreateModel::Gathering { info, parts, size },
            ActionModel::GetInfo { id: info.parts->0[parts.len() as int] },
        )
    } else {
        turn(CreateModel::Joining { info, parts, size }, ActionModel::ConcatFiles { info, parts })
    }
}

/// The request brings bytes, and the server takes them at creation.
pub open spec fn takes_bytes(conf: RustusConf, request: Request) -> bool {
    &&& conf.offers(Extensions::CreationWithUpload)
    &&& request.body_len > 0
    &&& !(conf.offers(Extensions::Concatenation) && asks_final(request.fields()))
    &&& sends_bytes(request.fields())
}

/// Take the first bytes, or save the upload where there are none.
pub open spec fn fill(conf: RustusConf, request: Request, info: Upload) -> TurnModel<CreateModel> {
    if takes_bytes(conf, request) {
        turn(CreateModel::Appending, ActionModel::AddBytes { info })
    } else {
        turn(CreateModel::Saving { info }, ActionModel::SetInfo { info, create: true })
    }
}

/// Remove the next part, or go on once all are removed.
pub open spec fn drop_part(
    conf: RustusConf,
    request: Request,
    info: Upload,
    parts: Seq<Upload>,
    next: usize,
) -> TurnModel<CreateModel> {
    if next < parts.len() {
        turn(
            CreateModel::DroppingFile { info, parts, next },
            ActionModel::RemoveFile { info: parts[next as int] },
        )
    } else {
        fill(conf, request, info)
    }
}

/// What is counted when room is made for an upload.
pub open spec fn started(info: Upload) -> Seq<EffectModel> {
    let counted = seq![
        EffectModel::Count { counter: Counter::ActiveMore },
        EffectModel::Count { counter: Counter::Started },
    ];
    match info.length {
        Some(size) => counted.push(EffectModel::ObserveSize { size }),
        None => counted,
    }
}

/// Room is made for the upload.
pub open spec fn created(
    conf: RustusConf,
    request: Request,
    info: Upload,
    path: Seq<char>,
) -> TurnModel<CreateModel> {
    let info = Upload { path: Some(path), ..info };
    let next = if info.is_final {
        gather(info, seq![], 0)
    } else {
        fill(conf, request, info)
    };
    TurnModel { effects: started(info), ..next }
}

/// A part is looked up.
pub open spec fn part_found(
    info: Upload,
    parts: Seq<Upload>,
    size: usize,
    part: Upload,
) -> TurnModel<CreateModel> {
    if !part.complete() {
        create_answers(says(400, part.id + " upload is not complete."@))
    } else if !part.is_partial {
        create_answers(says(400, part.id + " upload is not partial."@))
    } else {
        gather(info, parts.push(part), (size + part.offset) as usize)
    }
}

/// The hook of which listeners are told once an upload is created.
pub open spec fn creation_hook(info: Upload) -> Hook {
    if info.is_final || info.complete() {
        Hook::PostFinish
    } else {
        Hook::PostCreate
    }
}

/// Where an upload is found.
pub open spec fn upload_url(conf: RustusConf, id: Seq<char>) -> Seq<char> {
    "/"@ + conf.base_url@ + "/"@ + id
}

/// The reply to a request that created an upload: where it is, and how many bytes have come. An
/// address that a field cannot hold is not told.
pub open spec fn created_reply(conf: RustusConf, info: Upload) -> ReplyModel {
    let url = upload_url(conf, info.id);
    if is_field_value(url) {
        ReplyModel {
            status: 201,
            fields: with_value(
                with_value(no_fields(), "Location"@, url),
                "Upload-Offset"@,
                decimal(info.offset as nat),
            ),
            body: None,
        }
    } else {
        says(201, "failed to parse header value"@)
    }
}

/// The upload is saved.
pub open spec fn saved(conf: RustusConf, request: Request, info: Upload) -> TurnModel<CreateModel> {
    let hook = creation_hook(info);
    TurnModel {
        state: CreateModel::Finished,
        effects: if conf.tells(hook) {
            seq![EffectModel::Notify { hook, request: request.told(conf), info }]
        } else {
            seq![]
        },
        action: ActionModel::Respond { reply: created_reply(conf, info) },
    }
}

/// The request has come, and the upload would have the id.
pub open spec fn begun(
    conf: RustusConf,
    request: Request,
    id: Seq<char>,
    storage: Seq<char>,
    now: i64,
) -> TurnModel<CreateModel> {
    match refusal(conf, request.fields()) {
        Some(reply) => create_answers(reply),
        None => {
            let info = planned(conf, request.fields(), id, storage, now);
            if conf.tells(Hook::PreCreate) {
                turn(
                    CreateModel::Announcing { info },
                    ActionModel::SendHook {
                        hook: Hook::PreCreate,
                        request: request.told(conf),
                        info,
                    },
                )
            } else {
                turn(CreateModel::Creating, ActionModel::CreateFile { info })
            }
        },
    }
}

/// The turn of a creation.
pub open spec fn create_turn(
    conf: RustusConf,
    request: Request,
    id: Seq<char>,
    storage: Seq<char>,
    now: i64,
    state: CreateModel,
    event: EventModel,
) -> TurnModel<CreateModel> {
    match (state, event) {
        (CreateModel::Start, EventModel::Begin) => begun(conf, request, id, storage, now),
        (CreateModel::Announcing { info }, EventModel::Done) => turn(
            CreateModel::Creating,
            ActionModel::CreateFile { info },
        ),
        (CreateModel::Creating, EventModel::Created { info, path }) => created(
            conf,
            request,
            info,
            path,
        ),
        (CreateModel::Gathering { info, parts, size }, EventModel::Info { info: part }) =>
            part_found(info, parts, size, part),
        (CreateModel::Joining { info, parts, size }, EventModel::Done) => {
            let info = joined_upload(info, size);
            if conf.remove_parts {
                drop_part(conf, request, info, parts, 0)
            } else {
                fill(conf, request, info)
            }
        },
        (CreateModel::DroppingFile { info, parts, next }, EventModel::Done) => turn(
            CreateModel::DroppingInfo { info, parts, next },
            ActionModel::RemoveInfo { id: parts[next as int].id },
        ),
        (CreateModel::DroppingInfo { info, parts, next }, EventModel::Done) => drop_part(
            conf,
            request,
            info,
            parts,
            (next + 1) as usize,
        ),
        (CreateModel::Appending, EventModel::Appended { info }) => {
            let info = Upload { offset: (info.offset + request.body_len) as usize, ..info };
            turn(CreateModel::Saving { info }, ActionModel::SetInfo { info, create: true })
        },
        (CreateModel::Saving { info }, EventModel::Done) => saved(conf, request, info),
        _ => create_aborts(),
    }
}

fn gather_turn(info: FileInfo, parts: Vec<FileInfo>, size: usize) -> (r: Turn<CreateState>)
    requires
        info@.parts is Some,
    ensures
        r@ == gather(info@, uploads(parts@), size),
{
    let ids = match &info.parts {
        Some(ids) => ids,
        None => {
            return Turn::quiet(CreateState::Finished, Action::Abort);
        },
    };
    if parts.len() < ids.len() {
        let id = ids[parts.len()].clone();
        Turn::quiet(CreateState::Gathering { info, parts, size }, Action::GetInfo { id })
    } else {
        let action = Action::ConcatFiles { info: info.clone(), parts: copy_infos(&parts) };
        Turn::quiet(CreateState::Joining { info, parts, size }, action)
    }
}

/// Records of the same uploads.
fn copy_infos(infos: &Vec<FileInfo>) -> (r: Vec<FileInfo>)
    ensures
        uploads(r@) == uploads(infos@),
{
    let mut r: Vec<FileInfo> = Vec::new();
    for i in 0..infos.len()
        invariant
            uploads(r@) =~= uploads(infos@).take(i as int),
    {
        let ghost before = uploads(r@);
        r.push(infos[i].clone());
        assert(uploads(r@) =~= before.push(infos@[i as int]@));
    }
    assert(uploads(r@) =~= uploads(infos@));
    r
}

fn fill_turn(conf: &RustusConf, request: &Request, info: FileInfo) -> (r: Turn<CreateState>)
    ensures
        r@ == fill(*conf, *request, info@),
{
    let with_upload = conf.extension_is_enabled(Extensions::CreationWithUpload);
    let concat_ext = conf.extension_is_enabled(Extensions::Concatenation);
    let is_final = header_asks_final(&request.headers);
    if with_upload && request.body_len > 0 && !(concat_ext && is_final) && header_sends_bytes(
        &request.headers,
    ) {
        Turn::quiet(CreateState::Appending, Action::AddBytes { info })
    } else {
        save_turn(info)
    }
}

fn save_turn(info: FileInfo) -> (r: Turn<CreateState>)
    ensures
        r@ == turn(
            CreateModel::Saving { info: info@ },
            ActionModel::SetInfo { info: info@, create: true },
        ),
{
    let action = Action::SetInfo { info: info.clone(), create: true };
    Turn::quiet(CreateState::Saving { info }, action)
}

fn drop_turn(
    conf: &RustusConf,
    request: &Request,
    info: FileInfo,
    parts: Vec<FileInfo>,
    next: usize,
) -> (r: Turn<CreateState>)
    ensures
        r@ == drop_part(*conf, *request, info@, uploads(parts@), next),
{
    if next < parts.len() {
        let action = Action::RemoveFile { info: parts[next].clone() };
        Turn::quiet(CreateState::DroppingFile { info, parts, next }, action)
    } else {
        fill_turn(conf, request, info)
    }
}

fn created_turn(conf: &RustusConf, request: &Request, info: FileInfo, path: String) -> (r: Turn<
    CreateState,
>)
    requires
        info@.is_final ==> info@.parts is Some,
    ensures
        r@ == created(*conf, *request, info@, path@),
{
    let ghost upload = Upload { path: Some(path@), ..info@ };
    let mut info = info;
    info.path = Some(path);
    assert(info@ =~= upload);
    let mut effects: Vec<Effect> = Vec::new();
    effects.push(Effect::Count { counter: Counter::ActiveMore });
    effects.push(Effect::Count { counter: Counter::Started });
    if let Some(size) = info.length {
        effects.push(Effect::ObserveSize { size });
    }
    assert(effects_of(effects@) =~= started(upload));
    let next = if info.is_final {
        let parts: Vec<FileInfo> = Vec::new();
        assert(uploads(parts@) =~= seq![]);
        gather_turn(info, parts, 0)
    } else {
        fill_turn(conf, request, info)
    };
    Turn { state: next.state, effects, action: next.action }
}

fn answer_turn(reply: Reply) -> (r: Turn<CreateState>)
    ensures
        r@ == create_answers(reply@),
{
    Turn::quiet(CreateState::Finished, Action::Respond { reply })
}

fn part_turn(info: FileInfo, parts: Vec<FileInfo>, size: usize, part: FileInfo) -> (r: Turn<
    CreateState,
>)
    requires
        info@.parts is Some,
        part@.complete() && part@.is_partial ==> size + part@.offset <= usize::MAX,
    ensures
        r@ == part_found(info@, uploads(parts@), size, part@),
{
    if part.length != Some(part.offset) {
        return answer_turn(Reply::text(400, part.id.concat(" upload is not complete.")));
    }
    if !part.is_partial {
        return answer_turn(Reply::text(400, part.id.concat(" upload is not partial.")));
    }
    let size = size + part.offset;
    let ghost before = uploads(parts@);
    let ghost upload = part@;
    let mut parts = parts;
    parts.push(part);
    assert(uploads(parts@) =~= before.push(upload));
    gather_turn(info, parts, size)
}

fn reply_created(conf: &RustusConf, info: &FileInfo) -> (r: Reply)
    ensures
        r@ == created_reply(*conf, info@),
{
    let url = "/".to_owned().concat(conf.base_url()).concat("/").concat(info.id.as_str());
    if valid_value(url.as_str()) {
        proof {
            reveal_strlit("Location");
            reveal_strlit("Upload-Offset");
            lemma_decimal_is_value(info.offset as nat);
        }
        let mut headers = no_headers();
        insert_header(&mut headers, "Location", url.as_str());
        insert_header(&mut headers, "Upload-Offset", decimal_text(info.offset as u64).as_str());
        Reply { status: 201, headers, body: None }
    } else {
        Reply::text(201, "failed to parse header value".to_owned())
    }
}

fn saved_turn(conf: &RustusConf, request: &Request, info: FileInfo) -> (r: Turn<CreateState>)
    ensures
        r@ == saved(*conf, *request, info@),
{
    // A final upload is finished as soon as it is created.
    let hook = if info.is_final || Some(info.offset) == info.length {
        Hook::PostFinish
    } else {
        Hook::PostCreate
    };
    let reply = reply_created(conf, &info);
    let mut effects: Vec<Effect> = Vec::new();
    assert(effects_of(effects@) =~= seq![]);
    if conf.hook_is_active(hook) {
        let ghost notice = EffectModel::Notify { hook, request: request.told(*conf), info: info@ };
        effects.push(Effect::Notify { hook, request: request.request_info(conf), info });
        assert(effects_of(effects@) =~= seq![notice]);
    }
    Turn { state: CreateState::Finished, effects, action: Action::Respond { reply } }
}

fn begun_turn(conf: &RustusConf, request: &Request, id: &str, storage: &str, now: i64) -> (r: Turn<
    CreateState,
>)
    ensures
        r@ == begun(*conf, *request, id@, storage@, now),
{
    match plan_upload(conf, &request.headers, id, storage, now) {
        Err(reply) => answer_turn(reply),
        Ok(info) => {
            if conf.hook_is_active(Hook::PreCreate) {
                let action = Action::SendHook {
                    hook: Hook::PreCreate,
                    request: request.request_info(conf),
                    info: info.clone(),
                };
                Turn::quiet(CreateState::Announcing { info }, action)
            } else {
                Turn::quiet(CreateState::Creating, Action::CreateFile { info })
            }
        },
    }
}

/// The turn of a creation, in which the upload has the id.
pub fn create_file_as(
    conf: &RustusConf,
    request: &Request,
    id: &str,
    storage: &str,
    now: i64,
    state: CreateState,
    event: Event,
) -> (r: Turn<CreateState>)
    requires
        state@.wf(),
        create_fits(*request, state@, event@),
    ensures
        r@ == create_turn(*conf, *request, id@, storage@, now, state@, event@),
        r@.state.wf(),
{
    match (state, event) {
        (CreateState::Start, Event::Begin) => begun_turn(conf, request, id, storage, now),
        (CreateState::Announcing { info }, Event::Done) => Turn::quiet(
            CreateState::Creating,
            Action::CreateFile { info },
        ),
        (CreateState::Creating, Event::Created { info, path }) => created_turn(
            conf,
            request,
            info,
            path,
        ),
        (CreateState::Gathering { info, parts, size }, Event::Info { info: part }) => {
            proof {
                let before = uploads(parts@);
                assert(before.push(part@).drop_last() =~= before);
            }
            part_turn(info, parts, size, part)
        },
        (CreateState::Joining { info, parts, size }, Event::Done) => {
            let mut info = info;
            let ghost upload = joined_upload(info@, size);
            info.offset = size;
            info.length = Some(size);
            assert(info@ =~= upload);
            if conf.remove_parts {
                drop_turn(conf, request, info, parts, 0)
            } else {
                fill_turn(conf, request, info)
            }
        },
        (CreateState::DroppingFile { info, parts, next }, Event::Done) => {
            let action = Action::RemoveInfo { id: parts[next].id.clone() };
            Turn::quiet(CreateState::DroppingInfo { info, parts, next }, action)
        },
        (CreateState::DroppingInfo { info, parts, next }, Event::Done) => {
            assert(next < parts.len());
            drop_turn(conf, request, info, parts, next + 1)
        },
        (CreateState::Appending, Event::Appended { info }) => {
            let mut info = info;
            let ghost upload = Upload { offset: (info.offset + request.body_len) as usize, ..info@ };
            info.offset = info.offset + request.body_len;
            assert(info@ =~= upload);
            save_turn(info)
        },
        (CreateState::Saving { info }, Event::Done) => saved_turn(conf, request, info),
        _ => Turn::quiet(CreateState::Finished, Action::Abort),
    }
}

/// Create file.
///
/// This method allows you to create file to start uploading.
///
/// This method supports defer-length if
/// you don't know actual file length and
/// you can upload first bytes if creation-with-upload
/// extension is enabled.
///
/// The upload gets a random id.
pub fn create_file(
    conf: &RustusConf,
    request: &Request,
    storage: &str,
    now: i64,
    state: CreateState,
    event: Event,
) -> (r: Turn<CreateState>)
    requires
        state@.wf(),
        create_fits(*request, state@, event@),
    ensures
        exists|id: Seq<char>|
            (state@ is Start ==> is_random_id(id)) && r@ == #[trigger] create_turn(
                *conf,
                *request,
                id,
                storage@,
                now,
                state@,
                event@,
            ),
        r@.state.wf(),
{
    let id = match state {
        CreateState::Start => random_id(),
        _ => String::new(),
    };
    create_file_as(conf, request, id.as_str(), storage, now, state, event)
}

} // verus!
