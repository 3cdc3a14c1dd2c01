//! How a request is served: the server takes turns with the storages and listeners.
//!
//! A handler decides, from what it has reached and from the event that came, what to do next. Each
//! turn has effects that nobody waits for, and one action. The outcome of the action is the next
//! event, until an action answers the request.

use http::HeaderMap;
use vstd::prelude::*;

use crate::config::RustusConf;
use crate::errors::RustusError;
use crate::fields::{
    copy_headers, header_values, insert_header, no_fields, no_headers, with_value, Fields,
};
use crate::file_info::{text_option, FileInfo, Upload};
use crate::notifiers::{Hook, RequestInfo, RequestModel};
use crate::utils::headers::{client_address, remote_addr};

verus! {

broadcast use vstd::string::group_string_axioms;

/// A request, as far as handlers look at it.
#[derive(Debug)]
pub struct Request {
    pub method: String,
    pub uri: String,
    /// The address at the other end of the connection.
    pub peer: Option<String>,
    pub headers: HeaderMap,
    /// How many bytes the body has.
    pub body_len: usize,
}

impl Request {
    pub open spec fn fields(self) -> Fields {
        header_values(self.headers)
    }

    /// The request as listeners are told of it.
    pub open spec fn told(self, conf: RustusConf) -> RequestModel {
        RequestModel {
            uri: self.uri@,
            method: self.method@,
            remote_addr: client_address(self.fields(), text_option(self.peer), conf.behind_proxy),
            fields: self.fields(),
        }
    }

    /// The request as listeners are told of it.
    pub fn request_info(&self, conf: &RustusConf) -> (r: RequestInfo)
        ensures
            r@ == self.told(*conf),
    {
        let peer = match &self.peer {
            Some(peer) => Some(peer.clone()),
            None => None,
        };
        RequestInfo {
            uri: self.uri.clone(),
            method: self.method.clone(),
            remote_addr: remote_addr(&self.headers, peer, conf.behind_proxy),
            headers: copy_headers(&self.headers),
        }
    }
}

/// The model of a reply.
#[verifier::ext_equal]
pub struct ReplyModel {
    pub status: u16,
    pub fields: Fields,
    pub body: Option<Seq<char>>,
}

/// The answer to a request.
#[derive(Debug)]
pub struct Reply {
    pub status: u16,
    pub headers: HeaderMap,
    pub body: Option<String>,
}

impl View for Reply {
    type V = ReplyModel;

    open spec fn view(&self) -> ReplyModel {
        ReplyModel {
            status: self.status,
            fields: header_values(self.headers),
            body: text_option(self.body),
        }
    }
}

/// A reply with a text.
pub open spec fn says(status: u16, body: Seq<char>) -> ReplyModel {
    ReplyModel {
        status,
        fields: with_value(no_fields(), "Content-Type"@, "text/plain; charset=utf-8"@),
        body: Some(body),
    }
}

/// A reply with nothing but a status.
pub open spec fn bare(status: u16) -> ReplyModel {
    ReplyModel { status, fields: no_fields(), body: None }
}

impl Reply {
    /// A reply with a text.
    pub fn text(status: u16, body: String) -> (r: Reply)
        ensures
            r@ == says(status, body@),
    {
        proof {
            reveal_strlit("Content-Type");
            reveal_strlit("text/plain; charset=utf-8");
        }
        let mut headers = no_headers();
        insert_header(&mut headers, "Content-Type", "text/plain; charset=utf-8");
        Reply { status, headers, body: Some(body) }
    }

    /// A reply with nothing but a status.
    pub fn status(status: u16) -> (r: Reply)
        ensures
            r@ == bare(status),
    {
        Reply { status, headers: no_headers(), body: None }
    }
}

/// The numbers that the server keeps of its uploads.
#[derive(Clone, Copy, Debug, PartialEq, Eq, Structural)]
pub enum Counter {
    /// One more upload is active.
    ActiveMore,
    /// One upload less is active.
    ActiveLess,
    Started,
    Finished,
    Terminated,
}

/// The model of an effect.
#[verifier::ext_equal]
pub enum EffectModel {
    Count { counter: Counter },
    ObserveSize { size: usize },
    Notify { hook: Hook, request: RequestModel, info: Upload },
}

/// What happens beside an action, and is not waited for.
#[derive(Debug)]
pub enum Effect {
    /// Count something.
    Count { counter: Counter },
    /// Note the length of an upload.
    ObserveSize { size: usize },
    /// Tell the listeners of a hook, in the background.
    Notify { hook: Hook, request: RequestInfo, info: FileInfo },
}

impl View for Effect {
    type V = EffectModel;

    open spec fn view(&self) -> EffectModel {
        match *self {
            Effect::Count { counter } => EffectModel::Count { counter },
            Effect::ObserveSize { size } => EffectModel::ObserveSize { size },
            Effect::Notify { hook, request, info } => EffectModel::Notify {
                hook,
                request: request@,
                info: info@,
            },
        }
    }
}

/// The model of an action.
#[verifier::ext_equal]
pub enum ActionModel {
    SendHook { hook: Hook, request: RequestModel, info: Upload },
    GetInfo { id: Seq<char> },
    SetInfo { info: Upload, create: bool },
    RemoveInfo { id: Seq<char> },
    CreateFile { info: Upload },
    AddBytes { info: Upload },
    ConcatFiles { info: Upload, parts: Seq<Upload> },
    RemoveFile { info: Upload },
    GetContents { info: Upload },
    VerifyChecksum { checksum: Seq<u8> },
    Respond { reply: ReplyModel },
    Fail { error: RustusError },
    Abort,
}

/// What a handler asks for.
#[derive(Debug)]
pub enum Action {
    /// Tell the listeners of a hook, and wait for them.
    SendHook { hook: Hook, request: RequestInfo, info: FileInfo },
    /// Read what the info storage knows of an upload.
    GetInfo { id: String },
    /// Write to the info storage what is known of an upload.
    SetInfo { info: FileInfo, create: bool },
    /// Remove an upload from the info storage.
    RemoveInfo { id: String },
    /// Make room for an upload in the data storage.
    CreateFile { info: FileInfo },
    /// Add the body of the request to the bytes of an upload.
    AddBytes { info: FileInfo },
    /// Make the bytes of an upload of those of its parts.
    ConcatFiles { info: FileInfo, parts: Vec<FileInfo> },
    /// Remove the bytes of an upload from the data storage.
    RemoveFile { info: FileInfo },
    /// Answer the request with the bytes of an upload.
    GetContents { info: FileInfo },
    /// Hold the body of the request against a checksum.
    VerifyChecksum { checksum: Vec<u8> },
    /// Answer the request.
    Respond { reply: Reply },
    /// Answer the request with an error.
    Fail { error: RustusError },
    /// Answer the request with the error that the last action ended in.
    Abort,
}

/// The models of a sequence of uploads.
pub open spec fn uploads(infos: Seq<FileInfo>) -> Seq<Upload> {
    infos.map_values(|info: FileInfo| info@)
}

impl View for Action {
    type V = ActionModel;

    open spec fn view(&self) -> ActionModel {
        match *self {
            Action::SendHook { hook, request, info } => ActionModel::SendHook {
                hook,
                request: request@,
                info: info@,
            },
            Action::GetInfo { id } => ActionModel::GetInfo { id: id@ },
            Action::SetInfo { info, create } => ActionModel::SetInfo { info: info@, create },
            Action::RemoveInfo { id } => ActionModel::RemoveInfo { id: id@ },
            Action::CreateFile { info } => ActionModel::CreateFile { info: info@ },
            Action::AddBytes { info } => ActionModel::AddBytes { info: info@ },
            Action::ConcatFiles { info, parts } => ActionModel::ConcatFiles {
                info: info@,
                parts: uploads(parts@),
            },
            Action::RemoveFile { info } => ActionModel::RemoveFile { info: info@ },
            Action::GetContents { info } => ActionModel::GetContents { info: info@ },
            Action::VerifyChecksum { checksum } => ActionModel::VerifyChecksum {
                checksum: checksum@,
            },
            Action::Respond { reply } => ActionModel::Respond { reply: reply@ },
            Action::Fail { error } => ActionModel::Fail { error },
            Action::Abort => ActionModel::Abort,
        }
    }
}

impl ActionModel {
    /// The action answers the request, so nothing follows it.
    pub open spec fn ends(self) -> bool {
        self is Respond || self is Fail || self is Abort || self is GetContents
    }
}

/// The model of an event.
#[verifier::ext_equal]
pub enum EventModel {
    Begin,
    Done,
    Info { info: Upload },
    Created { info: Upload, path: Seq<char> },
    Appended { info: Upload },
    Checksum { matches: bool },
    Failed,
}

/// What came of the last action.
#[derive(Debug)]
pub enum Event {
    /// The request has come.
    Begin,
    /// The action is done.
    Done,
    /// The info storage knows this of the upload.
    Info { info: FileInfo },
    /// The data storage keeps the upload at a path, and left its record so.
    Created { info: FileInfo, path: String },
    /// The data storage took the bytes, and left the record of the upload so.
    Appended { info: FileInfo },
    /// Whether the body has the checksum.
    Checksum { matches: bool },
    /// The action ended in an error.
    Failed,
}

impl View for Event {
    type V = EventModel;

    open spec fn view(&self) -> EventModel {
        match *self {
            Event::Begin => EventModel::Begin,
            Event::Done => EventModel::Done,
            Event::Info { info } => EventModel::Info { info: info@ },
            Event::Created { info, path } => EventModel::Created { info: info@, path: path@ },
            Event::Appended { info } => EventModel::Appended { info: info@ },
            Event::Checksum { matches } => EventModel::Checksum { matches },
            Event::Failed => EventModel::Failed,
        }
    }
}

/// The model of a turn.
#[verifier::ext_equal]
pub struct TurnModel<S> {
    pub state: S,
    pub effects: Seq<EffectModel>,
    pub action: ActionModel,
}

/// A handler's turn: what it has reached, what happens beside, and what it asks for.
#[derive(Debug)]
pub struct Turn<S> {
    pub state: S,
    pub effects: Vec<Effect>,
    pub action: Action,
}

/// The models of a sequence of effects.
pub open spec fn effects_of(effects: Seq<Effect>) -> Seq<EffectModel> {
    effects.map_values(|e: Effect| e@)
}

impl<S: View> View for Turn<S> {
    type V = TurnModel<S::V>;

    open spec fn view(&self) -> TurnModel<S::V> {
        TurnModel {
            state: self.state@,
            effects: effects_of(self.effects@),
            action: self.action@,
        }
    }
}

/// A turn without effects.
pub open spec fn turn<S>(state: S, action: ActionModel) -> TurnModel<S> {
    TurnModel { state, effects: seq![], action }
}

impl<S: View> Turn<S> {
    /// A turn without effects.
    pub fn quiet(state: S, action: Action) -> (r: Self)
        ensures
            r@ == turn(state@, action@),
    {
        let r = Turn { state, effects: Vec::new(), action };
        assert(effects_of(r.effects@) =~= seq![]);
        r
    }
}

} // verus!
