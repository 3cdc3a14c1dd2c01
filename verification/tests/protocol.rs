use std::collections::HashMap;

use base64::{engine::general_purpose, Engine};
use http::{HeaderMap, HeaderName, HeaderValue};
use rustus::config::RustusConf;
use rustus::errors::RustusError;
use rustus::file_info::FileInfo;
use rustus::notifiers::Hook;
use rustus::protocol::base::get_info::{get_file_info, LookupState};
use rustus::protocol::base::server_info::server_info;
use rustus::protocol::base::write_bytes::{write_bytes, WriteState};
use rustus::protocol::creation::routes::{create_file, CreateState};
use rustus::protocol::exchange::{Action, Counter, Effect, Event, Request, Turn};
use rustus::protocol::extensions::Extensions;
use rustus::protocol::getting::routes::get_file;
use rustus::protocol::termination::routes::{terminate, TerminateState};
use rustus::utils::hashes::verify_chunk_checksum;

const STORAGE: &str = "memory";
const NOW: i64 = 1_700_000_000;

/// A response, and the bytes with which it was answered where an upload was sent.
#[derive(Debug)]
struct Response {
    status: u16,
    headers: HeaderMap,
    body: Option<String>,
    contents: Option<Vec<u8>>,
}

impl Response {
    fn header(&self, name: &str) -> &str {
        self.headers.get(name).unwrap().to_str().unwrap()
    }

    /// The last segment of the address that was told.
    fn item_id(&self) -> &str {
        self.header("Location").split('/').last().unwrap()
    }
}

/// A server that keeps uploads in memory.
struct Server {
    config: RustusConf,
    infos: HashMap<String, FileInfo>,
    files: HashMap<String, Vec<u8>>,
    counted: Vec<Counter>,
    sizes: Vec<usize>,
    told: Vec<(Hook, Option<String>, usize)>,
    /// The listeners refuse.
    refuse: bool,
    next_id: usize,
}

impl Server {
    fn test_new() -> Server {
        Server {
            config: RustusConf {
                base_url: "files".to_string(),
                tus_extensions: vec![
                    Extensions::Getting,
                    Extensions::Creation,
                    Extensions::Termination,
                    Extensions::CreationWithUpload,
                    Extensions::CreationDeferLength,
                    Extensions::Concatenation,
                    Extensions::Checksum,
                ],
                allow_empty: false,
                max_file_size: None,
                max_body_size: 1_000_000,
                remove_parts: false,
                hooks: Vec::new(),
                hooks_http_proxy_headers: Vec::new(),
                behind_proxy: false,
                cors: Vec::new(),
            },
            infos: HashMap::new(),
            files: HashMap::new(),
            counted: Vec::new(),
            sizes: Vec::new(),
            told: Vec::new(),
            refuse: false,
            next_id: 0,
        }
    }

    fn file_url(&self, id: &str) -> String {
        format!("/{}/{}", self.config.base_url(), id)
    }

    fn create_test_file(&mut self) -> FileInfo {
        self.next_id += 1;
        let id = format!("upload{}", self.next_id);
        let mut info = FileInfo::new(
            id.as_str(),
            Some(10),
            None,
            STORAGE.to_string(),
            None,
            NOW,
        );
        info.path = Some(format!("/memory/{}", id));
        self.files.insert(id.clone(), Vec::new());
        self.infos.insert(id, info.clone());
        info
    }

    fn set_info(&mut self, info: &FileInfo) {
        self.infos.insert(info.id.clone(), info.clone());
    }

    fn get_info(&self, id: &str) -> Option<&FileInfo> {
        self.infos.get(id)
    }

    fn note(&mut self, effects: Vec<Effect>) {
        for effect in effects {
            match effect {
                Effect::Count { counter } => self.counted.push(counter),
                Effect::ObserveSize { size } => self.sizes.push(size),
                Effect::Notify { hook, request, info } => {
                    self.told.push((hook, request.remote_addr, info.offset))
                }
            }
        }
    }

    /// Takes turns until the request is answered.
    fn serve<S>(
        &mut self,
        body: &[u8],
        state: S,
        handler: &dyn Fn(&RustusConf, S, Event) -> Turn<S>,
    ) -> Response {
        let mut state = state;
        let mut event = Event::Begin;
        let mut error = RustusError::Unknown;
        loop {
            let turn = handler(&self.config, state, event);
            self.note(turn.effects);
            state = turn.state;
            event = match turn.action {
                Action::SendHook { hook, request, info } => {
                    self.told.push((hook, request.remote_addr, info.offset));
                    if self.refuse {
                        Event::Failed
                    } else {
                        Event::Done
                    }
                }
                Action::GetInfo { id } => match self.infos.get(&id) {
                    Some(info) => Event::Info { info: info.clone() },
                    None => {
                        error = RustusError::FileNotFound;
                        Event::Failed
                    }
                },
                Action::SetInfo { info, create } => {
                    assert_eq!(create, !self.infos.contains_key(&info.id));
                    self.infos.insert(info.id.clone(), info);
                    Event::Done
                }
                Action::RemoveInfo { id } => {
                    self.infos.remove(&id).unwrap();
                    Event::Done
                }
                Action::CreateFile { info } => {
                    self.files.insert(info.id.clone(), Vec::new());
                    let path = format!("/memory/{}", info.id);
                    Event::Created { info, path }
                }
                Action::AddBytes { info } => {
                    self.files.get_mut(&info.id).unwrap().extend_from_slice(body);
                    Event::Appended { info }
                }
                Action::ConcatFiles { info, parts } => {
                    let mut bytes = Vec::new();
                    for part in &parts {
                        bytes.extend_from_slice(&self.files[&part.id]);
                    }
                    self.files.insert(info.id, bytes);
                    Event::Done
                }
                Action::RemoveFile { info } => match self.files.remove(&info.id) {
                    Some(_) => Event::Done,
                    None => {
                        error = RustusError::FileNotFound;
                        Event::Failed
                    }
                },
                Action::GetContents { info } => {
                    return Response {
                        status: 200,
                        headers: HeaderMap::new(),
                        body: None,
                        contents: Some(self.files[&info.id].clone()),
                    };
                }
                Action::VerifyChecksum { checksum } => {
                    match verify_chunk_checksum(&checksum, body) {
                        Some(matches) => Event::Checksum { matches },
                        None => Event::Failed,
                    }
                }
                Action::Respond { reply } => {
                    return Response {
                        status: reply.status,
                        headers: reply.headers,
                        body: reply.body,
                        contents: None,
                    };
                }
                Action::Fail { error } => return failure(error),
                Action::Abort => return failure(error),
            };
        }
    }

    fn post(&mut self, pairs: &[(&str, &str)], body: &str) -> Response {
        let uri = format!("/{}/", self.config.base_url());
        let request = request("POST", uri.as_str(), pairs, body);
        self.serve(body.as_bytes(), CreateState::Start, &|conf, state, event| {
            create_file(conf, &request, STORAGE, NOW, state, event)
        })
    }

    fn patch(&mut self, id: &str, pairs: &[(&str, &str)], body: &str) -> Response {
        let request = request("PATCH", self.file_url(id).as_str(), pairs, body);
        self.serve(body.as_bytes(), WriteState::Start, &|conf, state, event| {
            write_bytes(conf, &request, id, STORAGE, state, event)
        })
    }

    fn head(&mut self, id: &str) -> Response {
        self.serve(&[], LookupState::Start, &|conf, state, event| {
            get_file_info(conf, id, STORAGE, state, event)
        })
    }

    fn get(&mut self, id: &str) -> Response {
        self.serve(&[], LookupState::Start, &|_, state, event| {
            get_file(id, STORAGE, state, event)
        })
    }

    fn delete(&mut self, id: &str) -> Response {
        let request = request("DELETE", self.file_url(id).as_str(), &[], "");
        self.serve(&[], TerminateState::Start, &|conf, state, event| {
            terminate(conf, &request, id, STORAGE, state, event)
        })
    }
}

fn failure(error: RustusError) -> Response {
    Response {
        status: error.status_code(),
        headers: HeaderMap::new(),
        body: None,
        contents: None,
    }
}

fn request(method: &str, uri: &str, pairs: &[(&str, &str)], body: &str) -> Request {
    let mut headers = HeaderMap::new();
    for (name, value) in pairs {
        headers.append(
            HeaderName::from_bytes(name.as_bytes()).unwrap(),
            HeaderValue::from_str(value).unwrap(),
        );
    }
    Request {
        method: method.to_string(),
        uri: uri.to_string(),
        peer: Some("127.0.0.1:40000".to_string()),
        headers,
        body_len: body.len(),
    }
}

const OCTETS: (&str, &str) = ("Content-Type", "application/offset+octet-stream");

// What is known of an upload.

#[test]
fn get_info_success() {
    let mut server = Server::test_new();
    let mut file_info = server.create_test_file();
    file_info.offset = 100;
    file_info.length = Some(100);
    server.set_info(&file_info);
    let response = server.head(file_info.id.as_str());
    let offset = response.header("Upload-Offset").parse::<usize>().unwrap();
    assert_eq!(file_info.offset, offset);
}

#[test]
fn success_metadata() {
    let mut server = Server::test_new();
    let mut file_info = server.create_test_file();
    file_info.offset = 100;
    file_info.length = Some(100);
    file_info.metadata.insert("test".into(), "value".into());
    server.set_info(&file_info);
    let response = server.head(file_info.id.as_str());
    let metadata = response.header("Upload-Metadata");
    assert_eq!(
        String::from(metadata),
        format!("{} {}", "test", general_purpose::STANDARD.encode("value"))
    );
}

#[test]
fn success_defer_len() {
    let mut server = Server::test_new();
    let mut file_info = server.create_test_file();
    file_info.deferred_size = true;
    file_info.length = None;
    server.set_info(&file_info);
    let response = server.head(file_info.id.as_str());
    assert_eq!(response.header("Upload-Defer-Length"), "1");
}

#[test]
fn test_get_file_info_partial() {
    let mut server = Server::test_new();
    let mut file_info = server.create_test_file();
    file_info.is_partial = true;
    server.set_info(&file_info);
    let response = server.head(file_info.id.as_str());
    assert_eq!(response.header("Upload-Concat"), "partial");
}

#[test]
fn success_final() {
    let mut server = Server::test_new();
    let mut file_info = server.create_test_file();
    file_info.is_partial = false;
    file_info.is_final = true;
    file_info.parts = Some(vec!["test1".into(), "test2".into()]);
    server.set_info(&file_info);
    let response = server.head(file_info.id.as_str());
    assert_eq!(
        response.header("Upload-Concat"),
        format!(
            "final; {} {}",
            server.file_url("test1"),
            server.file_url("test2")
        )
        .as_str()
    );
}

#[test]
fn no_file() {
    let mut server = Server::test_new();
    let response = server.head("unknknown");
    assert_eq!(response.status, 404);
}

#[test]
fn test_get_file_info_wrong_storage() {
    let mut server = Server::test_new();
    let mut file_info = server.create_test_file();
    file_info.storage = String::from("unknown");
    server.set_info(&file_info);
    let response = server.head(file_info.id.as_str());
    assert_eq!(response.status, 404);
}

#[test]
fn known_fields_are_complete() {
    let mut server = Server::test_new();
    let mut file_info = server.create_test_file();
    file_info.offset = 7;
    file_info.length = Some(11);
    server.set_info(&file_info);
    let response = server.head(file_info.id.as_str());
    assert_eq!(response.status, 200);
    assert_eq!(response.header("Upload-Offset"), "7");
    assert_eq!(response.header("Content-Length"), "7");
    assert_eq!(response.header("Upload-Length"), "11");
    assert_eq!(response.header("Upload-Created"), "1700000000");
    let caching: Vec<&str> = response
        .headers
        .get_all("Cache-Control")
        .iter()
        .map(|value| value.to_str().unwrap())
        .collect();
    assert_eq!(caching, vec!["no-cache", "no-store"]);
    assert!(response.headers.get("Upload-Concat").is_none());
    assert!(response.headers.get("Upload-Defer-Length").is_none());
    assert!(response.headers.get("Upload-Metadata").is_none());
}

#[test]
fn created_before_the_epoch() {
    let mut server = Server::test_new();
    let mut file_info = server.create_test_file();
    file_info.created_at = -5;
    server.set_info(&file_info);
    let response = server.head(file_info.id.as_str());
    assert_eq!(response.header("Upload-Created"), "-5");
}

#[test]
fn metadata_that_no_field_can_hold() {
    let mut server = Server::test_new();
    let mut file_info = server.create_test_file();
    file_info.metadata.insert("te\nst".into(), "value".into());
    server.set_info(&file_info);
    let response = server.head(file_info.id.as_str());
    assert_eq!(response.status, 500);
}

#[test]
fn parts_that_no_field_can_hold() {
    let mut server = Server::test_new();
    let mut file_info = server.create_test_file();
    file_info.is_final = true;
    file_info.parts = Some(vec!["a\u{7f}b".into()]);
    server.set_info(&file_info);
    let response = server.head(file_info.id.as_str());
    assert_eq!(response.status, 500);
}

// What the server can do.

#[test]
fn test_server_info() {
    let server = Server::test_new();
    let reply = server_info(&server.config);
    let extensions = reply.headers.get("Tus-Extension").unwrap().to_str().unwrap();
    assert!(extensions.contains(Extensions::Creation.to_string().as_str()));
    assert!(extensions.contains(Extensions::Concatenation.to_string().as_str()));
    assert!(extensions.contains(Extensions::Termination.to_string().as_str()));
}

#[test]
fn extensions_read_back() {
    let mut server = Server::test_new();
    server.config.tus_extensions = vec![
        Extensions::Creation,
        Extensions::CreationDeferLength,
        Extensions::Getting,
    ];
    let reply = server_info(&server.config);
    assert_eq!(reply.status, 200);
    let extensions = reply.headers.get("Tus-Extension").unwrap().to_str().unwrap();
    let names: Vec<&str> = extensions.split(',').collect();
    assert_eq!(names, vec!["creation", "creation-defer-length", "getting"]);
    assert!(reply.headers.get("Tus-Checksum-Algorithm").is_none());
}

#[test]
fn checksums_are_told_where_they_are_verified() {
    let server = Server::test_new();
    let reply = server_info(&server.config);
    let algorithms = reply.headers.get("Tus-Checksum-Algorithm").unwrap();
    assert_eq!(algorithms.to_str().unwrap(), "md5,sha1,sha256,sha512");
}

// Writing.

/// Success test for writing bytes.
///
/// This test creates file and writes bytes to it.
#[test]
fn write_bytes_success() {
    let mut server = Server::test_new();
    let mut file = server.create_test_file();
    file.length = Some(100);
    file.offset = 0;
    server.set_info(&file);
    let test_data = "memes";
    let offset = file.offset.to_string();
    let resp = server.patch(
        file.id.as_str(),
        &[
            OCTETS,
            ("Upload-Checksum", "md5 xIwpFX4rNYzBRAJ/Pi2MtA=="),
            ("Upload-Offset", offset.as_str()),
        ],
        test_data,
    );
    assert_eq!(resp.status, 204);
    assert_eq!(
        resp.header("Upload-Offset"),
        test_data.len().to_string().as_str()
    );
    let new_info = server.get_info(file.id.as_str()).unwrap();
    assert_eq!(new_info.offset, test_data.len());
}

/// Testing defer-length extension.
///
/// During this test we'll try to update
/// file's length while writing bytes to it.
#[test]
fn success_update_file_length() {
    let mut server = Server::test_new();
    let mut file = server.create_test_file();
    file.length = None;
    file.deferred_size = true;
    file.offset = 0;
    server.set_info(&file);
    let test_data = "memes";
    let offset = file.offset.to_string();
    let resp = server.patch(
        file.id.as_str(),
        &[
            OCTETS,
            ("Upload-Offset", offset.as_str()),
            ("Upload-Length", "20"),
        ],
        test_data,
    );
    assert_eq!(resp.status, 204);
    assert_eq!(
        resp.header("Upload-Offset"),
        test_data.len().to_string().as_str()
    );
    let new_info = server.get_info(file.id.as_str()).unwrap();
    assert_eq!(new_info.offset, test_data.len());
    assert!(!new_info.deferred_size);
    assert_eq!(new_info.length, Some(20));
}

/// Tests that if new file length
/// is less than current offset, error is thrown.
#[test]
fn new_file_length_lt_offset() {
    let mut server = Server::test_new();
    let mut file = server.create_test_file();
    file.length = None;
    file.deferred_size = true;
    file.offset = 30;
    server.set_info(&file);
    let test_data = "memes";
    let offset = file.offset.to_string();
    let resp = server.patch(
        file.id.as_str(),
        &[
            OCTETS,
            ("Upload-Offset", offset.as_str()),
            ("Upload-Length", "20"),
        ],
        test_data,
    );
    assert_eq!(resp.status, 409);
}

/// Tests if user tries to update
/// file length with known length,
/// error is thrown.
#[test]
fn new_file_length_size_already_known() {
    let mut server = Server::test_new();
    let mut file = server.create_test_file();
    file.length = Some(100);
    file.deferred_size = false;
    file.offset = 0;
    server.set_info(&file);
    let test_data = "memes";
    let offset = file.offset.to_string();
    let resp = server.patch(
        file.id.as_str(),
        &[
            OCTETS,
            ("Upload-Offset", offset.as_str()),
            ("Upload-Length", "120"),
        ],
        test_data,
    );
    assert_eq!(resp.status, 400);
    assert_eq!(server.get_info(file.id.as_str()).unwrap().length, Some(100));
}

/// Checks that if Content-Type header missing,
/// wrong status code is returned.
#[test]
fn no_content_header() {
    let mut server = Server::test_new();
    let mut file = server.create_test_file();
    file.length = Some(100);
    file.offset = 0;
    server.set_info(&file);
    let resp = server.patch(file.id.as_str(), &[("Upload-Offset", "0")], "memes");
    assert_eq!(resp.status, 415);
    assert_eq!(resp.body.as_deref(), Some("Unknown content-type."));
    assert_eq!(resp.header("Content-Type"), "text/plain; charset=utf-8");
}

/// Tests that method will return error if no offset header specified.
#[test]
fn no_offset_header() {
    let mut server = Server::test_new();
    let mut file = server.create_test_file();
    file.length = Some(100);
    file.offset = 0;
    server.set_info(&file);
    let resp = server.patch(file.id.as_str(), &[OCTETS], "memes");
    assert_eq!(resp.status, 415);
    assert_eq!(resp.body.as_deref(), Some("No offset provided."));
}

/// Tests that method will return error if wrong offset is passed.
#[test]
fn wrong_offset_header() {
    let mut server = Server::test_new();
    let mut file = server.create_test_file();
    file.length = Some(100);
    file.offset = 0;
    server.set_info(&file);
    let resp = server.patch(file.id.as_str(), &[("Upload-Offset", "1"), OCTETS], "memes");
    assert_eq!(resp.status, 409);
    assert_eq!(server.files[&file.id].len(), 0);
}

/// Tests that method would return error if file was already uploaded.
#[test]
fn final_upload() {
    let mut server = Server::test_new();
    let mut file = server.create_test_file();
    file.is_final = true;
    server.set_info(&file);
    let offset = file.offset.to_string();
    let resp = server.patch(
        file.id.as_str(),
        &[("Upload-Offset", offset.as_str()), OCTETS],
        "memes",
    );
    assert_eq!(resp.status, 403);
}

/// Tests that method would return 404 if file was saved in other storage.
#[test]
fn write_bytes_wrong_storage() {
    let mut server = Server::test_new();
    let mut file = server.create_test_file();
    file.storage = "unknown".into();
    server.set_info(&file);
    let offset = file.offset.to_string();
    let resp = server.patch(
        file.id.as_str(),
        &[("Upload-Offset", offset.as_str()), OCTETS],
        "memes",
    );
    assert_eq!(resp.status, 404);
}

/// Tests that method won't allow you to update
/// file if it's offset already equal to length.
#[test]
fn frozen_file() {
    let mut server = Server::test_new();
    let mut file = server.create_test_file();
    file.offset = 10;
    file.length = Some(10);
    server.set_info(&file);
    let offset = file.offset.to_string();
    let resp = server.patch(
        file.id.as_str(),
        &[("Upload-Offset", offset.as_str()), OCTETS],
        "memes",
    );
    assert_eq!(resp.status, 400);
}

/// Tests that method will return 404 if
/// unknown file_id is passed.
#[test]
fn write_bytes_unknown_file_id() {
    let mut server = Server::test_new();
    let resp = server.patch("unknown", &[("Upload-Offset", "0"), OCTETS], "memes");
    assert_eq!(resp.status, 404);
}

/// Tests checksum validation.
#[test]
fn wrong_checksum() {
    let mut server = Server::test_new();
    let mut file = server.create_test_file();
    file.offset = 0;
    file.length = Some(10);
    server.set_info(&file);
    let resp = server.patch(
        file.id.as_str(),
        &[
            ("Upload-Offset", "0"),
            ("Upload-Checksum", "md5 K9opmNmw7hl9oUKgRH9nJQ=="),
            OCTETS,
        ],
        "memes",
    );
    assert_eq!(resp.status, 417);
    assert_eq!(server.get_info(file.id.as_str()).unwrap().offset, 0);
}

#[test]
fn checksum_that_cannot_be_read() {
    let mut server = Server::test_new();
    let file = server.create_test_file();
    let resp = server.patch(
        file.id.as_str(),
        &[("Upload-Offset", "0"), ("Upload-Checksum", "crc32 AAAA"), OCTETS],
        "memes",
    );
    assert_eq!(resp.status, 500);
    assert_eq!(server.get_info(file.id.as_str()).unwrap().offset, 0);
}

#[test]
fn checksum_is_ignored_where_not_offered() {
    let mut server = Server::test_new();
    server.config.tus_extensions = vec![Extensions::Creation];
    let file = server.create_test_file();
    let resp = server.patch(
        file.id.as_str(),
        &[
            ("Upload-Offset", "0"),
            ("Upload-Checksum", "md5 K9opmNmw7hl9oUKgRH9nJQ=="),
            OCTETS,
        ],
        "memes",
    );
    assert_eq!(resp.status, 204);
}

#[test]
fn length_is_ignored_where_it_cannot_be_deferred() {
    let mut server = Server::test_new();
    server.config.tus_extensions = vec![Extensions::Creation];
    let mut file = server.create_test_file();
    file.length = None;
    server.set_info(&file);
    let resp = server.patch(
        file.id.as_str(),
        &[("Upload-Offset", "0"), ("Upload-Length", "20"), OCTETS],
        "memes",
    );
    assert_eq!(resp.status, 204);
    assert_eq!(server.get_info(file.id.as_str()).unwrap().length, None);
}

#[test]
fn upload_in_pieces() {
    let mut server = Server::test_new();
    server.config.hooks = vec![Hook::PostReceive, Hook::PostFinish];
    let created = server.post(&[("Upload-Length", "11")], "");
    let id = created.item_id().to_string();
    let other = server.create_test_file();
    for (offset, piece) in [("0", "hello"), ("5", " "), ("6", "world")] {
        let resp = server.patch(id.as_str(), &[("Upload-Offset", offset), OCTETS], piece);
        assert_eq!(resp.status, 204);
        assert_eq!(resp.header("Cache-Control"), "no-cache");
        let told = server.head(id.as_str());
        assert_eq!(told.header("Upload-Offset"), resp.header("Upload-Offset"));
        assert_eq!(told.header("Upload-Length"), "11");
    }
    assert_eq!(server.get(id.as_str()).contents.unwrap(), b"hello world");
    assert_eq!(server.files[&other.id].len(), 0);
    let hooks: Vec<(Hook, usize)> = server.told.iter().map(|t| (t.0, t.2)).collect();
    assert_eq!(
        hooks,
        vec![
            (Hook::PostReceive, 5),
            (Hook::PostReceive, 6),
            (Hook::PostFinish, 11)
        ]
    );
    assert_eq!(
        server.counted,
        vec![
            Counter::ActiveMore,
            Counter::Started,
            Counter::ActiveLess,
            Counter::Finished
        ]
    );
    let late = server.patch(id.as_str(), &[("Upload-Offset", "11"), OCTETS], "!");
    assert_eq!(late.status, 400);
    assert_eq!(server.told.len(), 3);
    assert_eq!(server.counted.len(), 4);
}

#[test]
fn length_is_told_by_a_later_piece() {
    let mut server = Server::test_new();
    let created = server.post(&[("Upload-Defer-Length", "1")], "");
    let id = created.item_id().to_string();
    let first = server.patch(id.as_str(), &[("Upload-Offset", "0"), OCTETS], "hello");
    assert_eq!(first.status, 204);
    assert_eq!(server.get_info(id.as_str()).unwrap().length, None);
    let second = server.patch(
        id.as_str(),
        &[("Upload-Offset", "5"), ("Upload-Length", "11"), OCTETS],
        " ",
    );
    assert_eq!(second.status, 204);
    let third = server.patch(id.as_str(), &[("Upload-Offset", "6"), OCTETS], "world");
    assert_eq!(third.status, 204);
    let info = server.get_info(id.as_str()).unwrap();
    assert_eq!(info.length, Some(11));
    assert_eq!(info.offset, 11);
    assert!(!info.deferred_size);
    assert_eq!(server.get(id.as_str()).contents.unwrap(), b"hello world");
}

// Creation.

#[test]
fn routes_success() {
    let mut server = Server::test_new();
    let resp = server.post(&[("Upload-Length", "100")], "");
    assert_eq!(resp.status, 201);
    // Getting file from location header.
    let item_id = resp.item_id();
    let file_info = server.get_info(item_id).unwrap();
    assert_eq!(file_info.length, Some(100));
    assert_eq!(file_info.offset, 0);
}

#[test]
fn wrong_length() {
    let mut server = Server::test_new();
    let resp = server.post(&[("Upload-Length", "0")], "");
    assert_eq!(resp.status, 400);
    assert_eq!(
        resp.body.as_deref(),
        Some("Upload-Length should be greater than zero")
    );
    assert!(server.infos.is_empty());
    assert!(server.files.is_empty());
}

#[test]
fn allow_empty() {
    let mut server = Server::test_new();
    server.config.allow_empty = true;
    let resp = server.post(&[("Upload-Length", "0")], "");
    assert_eq!(resp.status, 201);
}

#[test]
fn success_with_bytes() {
    let mut server = Server::test_new();
    let test_data = "memes";
    let resp = server.post(&[("Upload-Length", "100"), OCTETS], test_data);
    assert_eq!(resp.status, 201);
    // Getting file from location header.
    let item_id = resp.item_id();
    let file_info = server.get_info(item_id).unwrap();
    assert_eq!(file_info.length, Some(100));
    assert_eq!(file_info.offset, test_data.len());
    assert_eq!(resp.header("Upload-Offset"), "5");
    assert_eq!(server.files[item_id], b"memes");
}

#[test]
fn with_bytes_wrong_content_type() {
    let mut server = Server::test_new();
    let test_data = "memes";
    let resp = server.post(&[("Upload-Length", "100"), ("Content-Type", "random")], test_data);
    assert_eq!(resp.status, 201);
    // Getting file from location header.
    let item_id = resp.item_id();
    let file_info = server.get_info(item_id).unwrap();
    assert_eq!(file_info.length, Some(100));
    assert_eq!(file_info.offset, 0);
}

#[test]
fn bytes_are_ignored_where_not_offered() {
    let mut server = Server::test_new();
    server.config.tus_extensions = vec![Extensions::Creation];
    let resp = server.post(&[("Upload-Length", "100"), OCTETS], "memes");
    assert_eq!(resp.status, 201);
    assert_eq!(resp.header("Upload-Offset"), "0");
}

#[test]
fn success_defer_size() {
    let mut server = Server::test_new();
    let resp = server.post(&[("Upload-Defer-Length", "1")], "");
    assert_eq!(resp.status, 201);
    // Getting file from location header.
    let item_id = resp.item_id();
    let file_info = server.get_info(item_id).unwrap();
    assert_eq!(file_info.length, None);
    assert!(file_info.deferred_size);
}

#[test]
fn success_partial_upload() {
    let mut server = Server::test_new();
    let resp = server.post(&[("Upload-Length", "100"), ("Upload-Concat", "partial")], "");
    assert_eq!(resp.status, 201);
    // Getting file from location header.
    let item_id = resp.item_id();
    let file_info = server.get_info(item_id).unwrap();
    assert_eq!(file_info.length, Some(100));
    assert!(file_info.is_partial);
    assert!(!file_info.is_final);
}

#[test]
fn success_final_upload() {
    let mut server = Server::test_new();
    let mut part1 = server.create_test_file();
    let mut part2 = server.create_test_file();
    part1.is_partial = true;
    part1.length = Some(100);
    part1.offset = 100;

    part2.is_partial = true;
    part2.length = Some(100);
    part2.offset = 100;

    server.set_info(&part1);
    server.set_info(&part2);

    let concat = format!("final;/files/{} /files/{}", part1.id, part2.id);
    let resp = server.post(
        &[("Upload-Length", "100"), ("Upload-Concat", concat.as_str())],
        "",
    );
    assert_eq!(resp.status, 201);
    // Getting file from location header.
    let item_id = resp.item_id();
    let file_info = server.get_info(item_id).unwrap();
    assert_eq!(file_info.length, Some(200));
    assert!(file_info.is_final);
}

#[test]
fn invalid_final_upload_no_parts() {
    let mut server = Server::test_new();
    let resp = server.post(&[("Upload-Length", "100"), ("Upload-Concat", "final;")], "");
    assert_eq!(resp.status, 400);
    assert_eq!(
        resp.body.as_deref(),
        Some("Upload-Concat header has no parts to create final upload.")
    );
}

#[test]
fn success_with_metadata() {
    let mut server = Server::test_new();
    let metadata = format!(
        "test {}, pest {}",
        general_purpose::STANDARD.encode("data1"),
        general_purpose::STANDARD.encode("data2")
    );
    let resp = server.post(
        &[("Upload-Length", "100"), ("Upload-Metadata", metadata.as_str())],
        "",
    );
    assert_eq!(resp.status, 201);
    // Getting file from location header.
    let item_id = resp.item_id();
    let file_info = server.get_info(item_id).unwrap();
    assert_eq!(file_info.length, Some(100));
    assert_eq!(file_info.metadata.get("test").unwrap(), "data1");
    assert_eq!(file_info.metadata.get("pest").unwrap(), "data2");
    assert_eq!(file_info.offset, 0);
}

#[test]
fn success_with_metadata_wrong_encoding() {
    let mut server = Server::test_new();
    let metadata = format!(
        "test data1, pest {}",
        general_purpose::STANDARD.encode("data")
    );
    let resp = server.post(
        &[("Upload-Length", "100"), ("Upload-Metadata", metadata.as_str())],
        "",
    );
    assert_eq!(resp.status, 201);
    // Getting file from location header.
    let item_id = resp.item_id();
    let file_info = server.get_info(item_id).unwrap();
    assert_eq!(file_info.length, Some(100));
    assert!(file_info.metadata.get("test").is_none());
    assert_eq!(file_info.metadata.get("pest").unwrap(), "data");
    assert_eq!(file_info.offset, 0);
}

#[test]
fn no_length_header() {
    let mut server = Server::test_new();
    let resp = server.post(&[], "");
    assert_eq!(resp.status, 400);
    assert_eq!(resp.body.as_deref(), Some("Upload-Length header is required"));
}

#[test]
fn max_file_size_exceeded() {
    let mut server = Server::test_new();
    server.config.max_file_size = Some(1000);
    let resp = server.post(&[("Upload-Length", "1001")], "");
    assert_eq!(resp.status, 400);
    assert_eq!(
        resp.body.as_deref(),
        Some("Upload-Length should be less than or equal to 1000")
    );
}

#[test]
fn max_file_size_reached() {
    let mut server = Server::test_new();
    server.config.max_file_size = Some(1000);
    let resp = server.post(&[("Upload-Length", "1000")], "");
    assert_eq!(resp.status, 201);
    assert_eq!(server.sizes, vec![1000]);
}

#[test]
fn location_ends_in_a_random_id() {
    let mut server = Server::test_new();
    let first = server.post(&[("Upload-Length", "100")], "");
    let second = server.post(&[("Upload-Length", "100")], "");
    let id = first.item_id();
    assert_eq!(first.header("Location"), format!("/files/{}", id));
    assert_eq!(id.len(), 36);
    assert_eq!(id.as_bytes()[14], b'4');
    assert!(b"89ab".contains(&id.as_bytes()[19]));
    assert!(id.bytes().all(|b| b == b'-' || b.is_ascii_hexdigit()));
    assert_ne!(id, second.item_id());
}

#[test]
fn address_that_no_field_can_hold() {
    let mut server = Server::test_new();
    server.config.base_url = "fi\nles".to_string();
    let resp = server.post(&[("Upload-Length", "100")], "");
    assert_eq!(resp.status, 201);
    assert!(resp.headers.get("Location").is_none());
    assert_eq!(resp.body.as_deref(), Some("failed to parse header value"));
}

#[test]
fn listeners_are_asked_before_a_creation() {
    let mut server = Server::test_new();
    server.config.hooks = vec![Hook::PreCreate, Hook::PostCreate];
    let resp = server.post(&[("Upload-Length", "100")], "");
    assert_eq!(resp.status, 201);
    let hooks: Vec<Hook> = server.told.iter().map(|t| t.0).collect();
    assert_eq!(hooks, vec![Hook::PreCreate, Hook::PostCreate]);
    assert_eq!(server.told[0].1.as_deref(), Some("127.0.0.1:40000"));
    server.refuse = true;
    let stored = server.infos.len();
    let resp = server.post(&[("Upload-Length", "100")], "");
    assert_eq!(resp.status, 500);
    assert_eq!(server.infos.len(), stored);
    assert_eq!(server.files.len(), stored);
}

#[test]
fn listeners_are_told_the_address_behind_a_proxy() {
    let mut server = Server::test_new();
    server.config.hooks = vec![Hook::PostCreate];
    server.config.behind_proxy = true;
    server.post(
        &[
            ("Upload-Length", "100"),
            ("X-Forwarded-For", "10.0.0.7, 10.0.0.8"),
        ],
        "",
    );
    assert_eq!(server.told[0].1.as_deref(), Some("10.0.0.7"));
}

#[test]
fn listeners_are_told_of_the_whole_request() {
    let mut server = Server::test_new();
    server.config.hooks = vec![Hook::PreCreate];
    let pairs = [("Upload-Length", "100"), ("X-Token", "a"), ("X-Token", "b")];
    let post = request("POST", "/files/", &pairs, "");
    let turn = create_file(
        &server.config,
        &post,
        STORAGE,
        NOW,
        CreateState::Start,
        Event::Begin,
    );
    match turn.action {
        Action::SendHook { hook, request, info } => {
            assert_eq!(hook, Hook::PreCreate);
            assert_eq!(request.method, "POST");
            assert_eq!(request.uri, "/files/");
            assert_eq!(request.headers, post.headers);
            assert_eq!(request.headers.get_all("X-Token").iter().count(), 2);
            assert_eq!(info.length, Some(100));
        }
        other => panic!("unexpected action {:?}", other),
    }
}

#[test]
fn creation_with_all_bytes_is_finished() {
    let mut server = Server::test_new();
    server.config.hooks = vec![Hook::PostCreate, Hook::PostFinish];
    let resp = server.post(&[("Upload-Length", "5"), OCTETS], "memes");
    assert_eq!(resp.status, 201);
    let hooks: Vec<Hook> = server.told.iter().map(|t| t.0).collect();
    assert_eq!(hooks, vec![Hook::PostFinish]);
}

#[test]
fn metadata_is_told_as_it_was_created() {
    let mut server = Server::test_new();
    let metadata = "Video bWVtZXM=,Category bWVtZXM=,Video ZGFuaw==";
    let created = server.post(
        &[("Upload-Length", "100"), ("Upload-Metadata", metadata)],
        "",
    );
    let id = created.item_id().to_string();
    let told = server.head(id.as_str());
    assert_eq!(
        told.header("Upload-Metadata"),
        "Video ZGFuaw==,Category bWVtZXM="
    );
    let again = server.post(
        &[
            ("Upload-Length", "100"),
            ("Upload-Metadata", told.header("Upload-Metadata")),
        ],
        "",
    );
    let first = server.get_info(id.as_str()).unwrap();
    let second = server.get_info(again.item_id()).unwrap();
    assert_eq!(first.metadata.len(), 2);
    assert_eq!(second.metadata.len(), 2);
    for key in ["Video", "Category"] {
        assert_eq!(first.metadata.get(key), second.metadata.get(key));
    }
}

#[test]
fn metadata_that_is_not_text_is_left_out() {
    let mut server = Server::test_new();
    // The second value is no UTF-8, the third has no padding, and the fourth has no key.
    let created = server.post(
        &[
            ("Upload-Length", "100"),
            ("Upload-Metadata", "a YQ==,b gIA=,c YQ, ZA==,e"),
        ],
        "",
    );
    let info = server.get_info(created.item_id()).unwrap();
    assert_eq!(info.metadata.len(), 1);
    assert_eq!(info.metadata.get("a"), Some("a"));
}

#[test]
fn empty_value_is_not_told_again() {
    let mut server = Server::test_new();
    let created = server.post(
        &[("Upload-Length", "100"), ("Upload-Metadata", "key  x")],
        "",
    );
    let id = created.item_id().to_string();
    assert_eq!(
        server.get_info(id.as_str()).unwrap().metadata.get("key"),
        Some("")
    );
    let told = server.head(id.as_str()).header("Upload-Metadata").to_string();
    assert_eq!(told, "key ");
    let again = server.post(
        &[("Upload-Length", "100"), ("Upload-Metadata", told.as_str())],
        "",
    );
    assert_eq!(server.get_info(again.item_id()).unwrap().metadata.len(), 0);
}

fn finished_part(server: &mut Server, bytes: &str) -> String {
    let length = bytes.len().to_string();
    let created = server.post(
        &[("Upload-Length", length.as_str()), ("Upload-Concat", "partial")],
        "",
    );
    let id = created.item_id().to_string();
    let written = server.patch(id.as_str(), &[("Upload-Offset", "0"), OCTETS], bytes);
    assert_eq!(written.status, 204);
    id
}

#[test]
fn final_upload_has_the_bytes_of_its_parts() {
    let mut server = Server::test_new();
    let first = finished_part(&mut server, "hello ");
    let second = finished_part(&mut server, "world");
    let concat = format!("final;/files/{} /files/{}", first, second);
    let created = server.post(&[("Upload-Concat", concat.as_str())], "");
    assert_eq!(created.status, 201);
    assert_eq!(created.header("Upload-Offset"), "11");
    let id = created.item_id().to_string();
    assert_eq!(server.get(id.as_str()).contents.unwrap(), b"hello world");
    let told = server.head(id.as_str());
    assert_eq!(told.header("Upload-Length"), "11");
    assert_eq!(told.header("Upload-Offset"), "11");
    let again = server.post(&[("Upload-Concat", told.header("Upload-Concat"))], "");
    let parts = server.get_info(again.item_id()).unwrap().parts.clone();
    assert_eq!(parts, Some(vec![first.clone(), second]));
    assert!(server.files.contains_key(&first));
}

#[test]
fn parts_are_removed_where_that_is_wanted() {
    let mut server = Server::test_new();
    server.config.remove_parts = true;
    let first = finished_part(&mut server, "hello ");
    let second = finished_part(&mut server, "world");
    let other = finished_part(&mut server, "!");
    let concat = format!("final;/files/{} /files/{}", first, second);
    let created = server.post(&[("Upload-Concat", concat.as_str())], "");
    assert_eq!(created.status, 201);
    for id in [&first, &second] {
        assert!(!server.infos.contains_key(id));
        assert!(!server.files.contains_key(id));
    }
    assert_eq!(server.files[&other], b"!");
    assert_eq!(server.files[created.item_id()], b"hello world");
}

#[test]
fn part_that_is_listed_again_is_not_removed_again() {
    let mut server = Server::test_new();
    server.config.remove_parts = true;
    let first = finished_part(&mut server, "hello ");
    let second = finished_part(&mut server, "world");
    let concat = format!("final;/files/{} /files/{} /files/{}", first, first, second);
    let refused = server.post(&[("Upload-Concat", concat.as_str())], "");
    assert_eq!(refused.status, 404);
    assert_eq!(server.infos.len(), 1);
    assert!(server.infos.contains_key(&second));
    assert!(!server.files.contains_key(&first));
    server.config.remove_parts = false;
    let third = finished_part(&mut server, "!");
    let concat = format!("final;/files/{} /files/{}", third, third);
    let created = server.post(&[("Upload-Concat", concat.as_str())], "");
    assert_eq!(created.status, 201);
    assert_eq!(server.files[created.item_id()], b"!!");
}

#[test]
fn part_that_is_not_complete() {
    let mut server = Server::test_new();
    let created = server.post(
        &[("Upload-Length", "9"), ("Upload-Concat", "partial")],
        "",
    );
    let id = created.item_id();
    let concat = format!("final;/files/{}", id);
    let known = server.infos.len();
    let refused = server.post(&[("Upload-Concat", concat.as_str())], "");
    assert_eq!(refused.status, 400);
    assert_eq!(
        refused.body,
        Some(format!("{} upload is not complete.", id))
    );
    assert_eq!(server.infos.len(), known);
}

#[test]
fn part_that_is_not_partial() {
    let mut server = Server::test_new();
    let created = server.post(&[("Upload-Length", "5"), OCTETS], "memes");
    let id = created.item_id();
    let concat = format!("final;/files/{}", id);
    let refused = server.post(&[("Upload-Concat", concat.as_str())], "");
    assert_eq!(refused.status, 400);
    assert_eq!(refused.body, Some(format!("{} upload is not partial.", id)));
}

#[test]
fn part_that_is_not_known() {
    let mut server = Server::test_new();
    let refused = server.post(&[("Upload-Concat", "final;/files/nothing")], "");
    assert_eq!(refused.status, 404);
    assert!(server.infos.is_empty());
}

// Getting.

#[test]
fn getting_routes_success() {
    let mut server = Server::test_new();
    let file_info = server.create_test_file();
    server
        .files
        .get_mut(&file_info.id)
        .unwrap()
        .extend_from_slice(b"testing");
    let resp = server.get(file_info.id.as_str());
    assert!(resp.status >= 200 && resp.status < 300);
    assert_eq!(resp.contents.unwrap(), b"testing");
}

#[test]
fn routes_unknown_file_id() {
    let mut server = Server::test_new();
    let resp = server.get("random_str");
    assert_eq!(resp.status, 404);
}

#[test]
fn unknown_storage() {
    let mut server = Server::test_new();
    let mut file_info = server.create_test_file();
    file_info.storage = "unknown_storage".into();
    server.set_info(&file_info);
    let resp = server.get(file_info.id.as_str());
    assert_eq!(resp.status, 404);
}

// Termination.

#[test]
fn termination_routes_success() {
    let mut server = Server::test_new();
    let file_info = server.create_test_file();
    let response = server.delete(file_info.id.as_str());
    assert_eq!(response.status, 204);
    assert!(server.get_info(file_info.id.as_str()).is_none());
    assert!(!server.files.contains_key(&file_info.id));
    assert_eq!(server.counted, vec![Counter::Terminated]);
}

#[test]
fn termination_routes_unknown_file_id() {
    let mut server = Server::test_new();
    let result = server.delete("not_exists");
    assert_eq!(result.status, 404);
}

#[test]
fn routes_wrong_storage() {
    let mut server = Server::test_new();
    let mut file_info = server.create_test_file();
    file_info.storage = "unknown_storage".into();
    server.set_info(&file_info);
    let response = server.delete(file_info.id.as_str());
    assert_eq!(response.status, 404);
    assert!(server.files.contains_key(&file_info.id));
}

#[test]
fn listeners_are_asked_before_a_termination() {
    let mut server = Server::test_new();
    server.config.hooks = vec![Hook::PreTerminate, Hook::PostTerminate];
    let file_info = server.create_test_file();
    server.refuse = true;
    assert_eq!(server.delete(file_info.id.as_str()).status, 500);
    assert!(server.infos.contains_key(&file_info.id));
    assert!(server.files.contains_key(&file_info.id));
    server.refuse = false;
    assert_eq!(server.delete(file_info.id.as_str()).status, 204);
    assert!(!server.infos.contains_key(&file_info.id));
    let hooks: Vec<Hook> = server.told.iter().map(|t| t.0).collect();
    assert_eq!(
        hooks,
        vec![Hook::PreTerminate, Hook::PreTerminate, Hook::PostTerminate]
    );
}

#[test]
fn failed_actions_end_in_an_abort() {
    let server = Server::test_new();
    let conf = &server.config;
    let post = request("POST", "/files/", &[("Upload-Length", "100")], "");
    let turn = create_file(conf, &post, STORAGE, NOW, CreateState::Creating, Event::Failed);
    assert!(matches!(turn.action, Action::Abort));
    assert!(turn.effects.is_empty());
    let turn = write_bytes(conf, &post, "a", STORAGE, WriteState::Appending, Event::Failed);
    assert!(matches!(turn.action, Action::Abort));
    assert!(turn.effects.is_empty());
    let turn = terminate(conf, &post, "a", STORAGE, TerminateState::Loading, Event::Failed);
    assert!(matches!(turn.action, Action::Abort));
    assert!(turn.effects.is_empty());
    let turn = get_file_info(conf, "a", STORAGE, LookupState::Loading, Event::Failed);
    assert!(matches!(turn.action, Action::Abort));
    let turn = get_file("a", STORAGE, LookupState::Finished, Event::Done);
    assert!(matches!(turn.action, Action::Abort));
}

#[test]
fn errors_have_their_statuses() {
    assert_eq!(RustusError::FileNotFound.status_code(), 404);
    assert_eq!(RustusError::WrongOffset.status_code(), 409);
    assert_eq!(RustusError::FrozenFile.status_code(), 400);
    assert_eq!(RustusError::SizeAlreadyKnown.status_code(), 400);
    assert_eq!(RustusError::WrongChecksum.status_code(), 417);
    assert_eq!(RustusError::Unknown.status_code(), 500);
}
