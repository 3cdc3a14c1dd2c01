//! What is told to those who listen to uploads.

use http::HeaderMap;
use vstd::prelude::*;

use crate::fields::{header_values, Fields};
use crate::file_info::text_option;

verus! {

/// The moments of an upload at which listeners are told of it.
#[derive(Clone, Copy, Debug, PartialEq, Eq, Structural)]
pub enum Hook {
    PreCreate,
    PostCreate,
    PostReceive,
    PreTerminate,
    PostTerminate,
    PostFinish,
}

impl Hook {
    pub open spec fn name(self) -> Seq<char> {
        match self {
            Hook::PreCreate => "pre-create"@,
            Hook::PostCreate => "post-create"@,
            Hook::PostReceive => "post-receive"@,
            Hook::PreTerminate => "pre-terminate"@,
            Hook::PostTerminate => "post-terminate"@,
            Hook::PostFinish => "post-finish"@,
        }
    }

    pub fn to_string(&self) -> (r: String)
        ensures
            r@ == self.name(),
    {
        match self {
            Hook::PreCreate => "pre-create".to_owned(),
            Hook::PostCreate => "post-create".to_owned(),
            Hook::PostReceive => "post-receive".to_owned(),
            Hook::PreTerminate => "pre-terminate".to_owned(),
            Hook::PostTerminate => "post-terminate".to_owned(),
            Hook::PostFinish => "post-finish".to_owned(),
        }
    }
}

/// The model of a request as listeners are told of it.
#[verifier::ext_equal]
pub struct RequestModel {
    pub uri: Seq<char>,
    pub method: Seq<char>,
    pub remote_addr: Option<Seq<char>>,
    pub fields: Fields,
}

/// A request as listeners are told of it.
#[derive(Debug)]
pub struct RequestInfo {
    pub uri: String,
    pub method: String,
    pub remote_addr: Option<String>,
    pub headers: HeaderMap,
}

impl View for RequestInfo {
    type V = RequestModel;

    open spec fn view(&self) -> RequestModel {
        RequestModel {
            uri: self.uri@,
            method: self.method@,
            remote_addr: text_option(self.remote_addr),
            fields: header_values(self.headers),
        }
    }
}

} // verus!
