use http::{HeaderMap, HeaderName, HeaderValue};
use rustus::config::RustusConf;
use rustus::cors::{cors_middleware, create_cors, request_origin};
use rustus::file_info::Metadata;
use rustus::greeting::greeting;
use rustus::middleware::{error_metrics, method_override, metrics_handler};
use rustus::notifiers::Hook;
use rustus::protocol::creation::routes::{add_decoded, get_metadata, get_upload_parts, plan_upload};
use rustus::protocol::extensions::Extensions;
use rustus::protocol::routing::{is_routable, setup, Handler, Place, Route, Verb};
use rustus::routes::{health_check, not_found};
use rustus::server::{build_router, rustus_service, Page};
use rustus::text::{
    decimal_text, join_text, signed_decimal_text, split_text, strip_prefix, trim_text,
};
use rustus::utils::headers::{disposition_for, generate_disposition, parse_header, remote_addr};

fn headers(pairs: &[(&str, &str)]) -> HeaderMap {
    let mut map = HeaderMap::new();
    for (name, value) in pairs {
        map.append(
            HeaderName::from_bytes(name.as_bytes()).unwrap(),
            HeaderValue::from_str(value).unwrap(),
        );
    }
    map
}

fn text<'a>(map: &'a HeaderMap, name: &str) -> &'a str {
    map.get(name).unwrap().to_str().unwrap()
}

fn config() -> RustusConf {
    RustusConf {
        base_url: "files".to_string(),
        tus_extensions: vec![Extensions::Creation, Extensions::Checksum, Extensions::Getting],
        allow_empty: false,
        max_file_size: None,
        max_body_size: 4096,
        remove_parts: false,
        hooks: vec![Hook::PreCreate, Hook::PostFinish],
        hooks_http_proxy_headers: vec!["X-Token".to_string(), "not a name".to_string()],
        behind_proxy: false,
        cors: vec!["*.example.com".to_string()],
    }
}

// Cross-origin requests.

#[test]
fn any_origin_is_welcome_without_patterns() {
    let cors = create_cors(Vec::new(), Vec::new());
    let mut reply = headers(&[("Upload-Offset", "5")]);
    assert!(cors_middleware(&cors, None, &mut reply));
    assert_eq!(text(&reply, "Access-Control-Allow-Origin"), "*");
    assert_eq!(
        text(&reply, "Access-Control-Allow-Methods"),
        "OPTIONS, GET, HEAD, POST, PATCH, DELETE"
    );
    assert_eq!(text(&reply, "Access-Control-Max-Age"), "86400");
    assert_eq!(
        text(&reply, "Access-Control-Allow-Headers"),
        "Content-Type, Upload-Offset, Upload-Checksum, Upload-Length, Upload-Metadata, \
         Upload-Concat, Upload-Defer-Length, Tus-Resumable, Tus-Version, X-HTTP-Method-Override, \
         Authorization, Origin, X-Requested-With, X-Request-ID"
    );
    assert_eq!(
        text(&reply, "Access-Control-Expose-Headers"),
        "Location, Tus-Version, Tus-Resumable, Tus-Max-Size, Tus-Extension, \
         Tus-Checksum-Algorithm, Content-Type, Content-Length, Upload-Length, Upload-Metadata, \
         Upload-Defer-Length, Upload-Concat, Upload-Offset"
    );
    assert_eq!(text(&reply, "Upload-Offset"), "5");
    assert_eq!(reply.len(), 6);
}

#[test]
fn only_matching_origins_are_allowed() {
    let cors = create_cors(
        vec!["https://*.example.com".to_string(), "http://host?".to_string()],
        Vec::new(),
    );
    for origin in ["https://a.example.com", "https://a.b.example.com", "http://host1"] {
        let mut reply = HeaderMap::new();
        let _ = cors_middleware(&cors, Some(origin.to_string()), &mut reply);
        assert_eq!(text(&reply, "Access-Control-Allow-Origin"), origin);
    }
    for origin in [
        "https://example.com",
        "https://a.example.com.org",
        "http://host",
        "http://host12",
        "",
    ] {
        let mut reply = HeaderMap::new();
        let _ = cors_middleware(&cors, Some(origin.to_string()), &mut reply);
        assert!(reply.is_empty());
    }
    let mut reply = HeaderMap::new();
    assert!(cors_middleware(&cors, None, &mut reply));
    assert!(reply.is_empty());
}

#[test]
fn star_matches_every_origin() {
    let cors = create_cors(vec!["*".to_string()], Vec::new());
    let mut reply = HeaderMap::new();
    let _ = cors_middleware(&cors, Some("https://anything".to_string()), &mut reply);
    assert_eq!(text(&reply, "Access-Control-Allow-Origin"), "https://anything");
}

#[test]
fn origin_replaces_what_a_reply_told() {
    let cors = create_cors(vec!["https://host".to_string()], Vec::new());
    let mut reply = headers(&[
        ("Access-Control-Allow-Origin", "a"),
        ("Access-Control-Allow-Origin", "b"),
    ]);
    let _ = cors_middleware(&cors, Some("https://host".to_string()), &mut reply);
    assert_eq!(reply.get_all("Access-Control-Allow-Origin").iter().count(), 1);
    assert_eq!(text(&reply, "Access-Control-Allow-Origin"), "https://host");
}

#[test]
fn additional_headers_are_allowed_where_they_are_names() {
    let cors = create_cors(
        Vec::new(),
        vec!["X-Token".to_string(), "not a name".to_string(), String::new()],
    );
    assert!(cors.allow_headers.ends_with("X-Request-ID, X-Token"));
}

#[test]
fn cors_is_attached_to_replies_with_many_fields() {
    let cors = create_cors(Vec::new(), Vec::new());
    let mut many = HeaderMap::new();
    for i in 0..10000 {
        let name = HeaderName::from_bytes(format!("x-{}", i).as_bytes()).unwrap();
        many.append(name, HeaderValue::from_static("1"));
    }
    assert!(cors_middleware(&cors, None, &mut many));
    assert_eq!(many.len(), 10005);
    assert_eq!(text(&many, "Access-Control-Max-Age"), "86400");
}

#[test]
fn cors_is_refused_by_a_full_reply() {
    let cors = create_cors(Vec::new(), Vec::new());
    let mut full = HeaderMap::new();
    for i in 0..100_000 {
        let name = HeaderName::from_bytes(format!("x-{}", i).as_bytes()).unwrap();
        if full.try_append(name, HeaderValue::from_static("1")).is_err() {
            break;
        }
    }
    let fields = full.len();
    assert!(fields < 100_000);
    assert!(!cors_middleware(&cors, None, &mut full));
    assert_eq!(full.len(), fields);
}

#[test]
fn origin_of_a_request() {
    let map = headers(&[("Origin", "https://host")]);
    assert_eq!(request_origin(&map), Some("https://host".to_string()));
    assert_eq!(request_origin(&HeaderMap::new()), None);
    let mut bytes = HeaderMap::new();
    bytes.insert("Origin", HeaderValue::from_bytes(b"caf\xc3\xa9").unwrap());
    assert_eq!(request_origin(&bytes), None);
}

// Middlewares.

#[test]
fn method_is_overridden() {
    let map = headers(&[("X-HTTP-Method-Override", "PATCH")]);
    assert_eq!(method_override("POST".to_string(), &map), "PATCH");
    let map = headers(&[("X-HTTP-Method-Override", "brew")]);
    assert_eq!(method_override("POST".to_string(), &map), "brew");
    let map = headers(&[("X-HTTP-Method-Override", "two words")]);
    assert_eq!(method_override("POST".to_string(), &map), "POST");
    let map = headers(&[("X-HTTP-Method-Override", "")]);
    assert_eq!(method_override("POST".to_string(), &map), "POST");
    assert_eq!(method_override("GET".to_string(), &HeaderMap::new()), "GET");
}

#[test]
fn errors_are_counted_under_path_and_status() {
    assert_eq!(
        error_metrics("/files/a", 404),
        Some(("/files/a".to_string(), "404".to_string()))
    );
    assert_eq!(
        error_metrics("/", 599),
        Some(("/".to_string(), "599".to_string()))
    );
    assert_eq!(error_metrics("/files/a", 399), None);
    assert_eq!(error_metrics("/files/a", 600), None);
}

#[test]
fn metrics_are_told_in_their_format() {
    let reply = metrics_handler(b"uploads 1\n".to_vec(), "text/plain; version=0.0.4");
    assert_eq!(reply.status, 200);
    assert_eq!(text(&reply.headers, "Content-Type"), "text/plain; version=0.0.4");
    assert_eq!(reply.body.as_deref(), Some("uploads 1\n"));
    let reply = metrics_handler(vec![0x80], "text/plain");
    assert_eq!(reply.body.as_deref(), Some(""));
    let reply = metrics_handler(b"uploads 1\n".to_vec(), "a\nb");
    assert!(reply.headers.is_empty());
    assert_eq!(reply.body.as_deref(), Some(""));
}

#[test]
fn replies_beside_the_protocol() {
    assert_eq!(not_found(), 404);
    assert_eq!(health_check(), 200);
}

// Addresses.

#[test]
fn peer_address_without_a_proxy() {
    let map = headers(&[("X-Forwarded-For", "10.0.0.1"), ("Forwarded", "for=10.0.0.2")]);
    let peer = Some("127.0.0.1:80".to_string());
    assert_eq!(remote_addr(&map, peer.clone(), false), peer);
    assert_eq!(remote_addr(&map, None, false), None);
}

#[test]
fn forwarded_address_behind_a_proxy() {
    let peer = Some("127.0.0.1:80".to_string());
    let cases = [
        ("for=10.0.0.2", Some("10.0.0.2")),
        ("proto=https; for=\"10.0.0.2\"; by=10.0.0.3", Some("10.0.0.2")),
        ("for=\"[2001:db8::1]\"", Some("2001:db8::1]")),
        ("for=; for=10.0.0.2", Some("10.0.0.2")),
        ("For=10.0.0.2", None),
        ("for=\"\"", None),
    ];
    for (value, expected) in cases {
        let map = headers(&[("Forwarded", value)]);
        assert_eq!(remote_addr(&map, peer.clone(), true).as_deref(), expected);
    }
}

#[test]
fn first_forwarded_for_behind_a_proxy() {
    let map = headers(&[("Forwarded", "by=10.0.0.9"), ("X-Forwarded-For", " 10.0.0.7 ,10.0.0.8")]);
    assert_eq!(remote_addr(&map, None, true), Some("10.0.0.7".to_string()));
    let map = headers(&[("X-Forwarded-For", ",10.0.0.8")]);
    assert_eq!(remote_addr(&map, Some("peer".to_string()), true), None);
    assert_eq!(
        remote_addr(&HeaderMap::new(), Some("peer".to_string()), true),
        None
    );
}

// Dispositions.

#[test]
fn disposition_of_known_media() {
    let cases = [
        ("photo.png", "inline; filename=\"photo.png\""),
        ("notes.txt", "inline; filename=\"notes.txt\""),
        ("song.mp3", "inline; filename=\"song.mp3\""),
        ("film.mp4", "inline; filename=\"film.mp4\""),
        ("data.json", "inline; filename=\"data.json\""),
        ("code.wasm", "inline; filename=\"code.wasm\""),
        ("book.pdf", "attachment; filename=\"book.pdf\""),
        ("archive.zip", "attachment; filename=\"archive.zip\""),
        ("nothing", "attachment; filename=\"nothing\""),
        ("12:30.png", "inline; filename=\"12:30.png\""),
        ("ab:c.zip", "attachment; filename=\"ab:c.zip\""),
        ("dir/photo.png", "inline; filename=\"dir/photo.png\""),
    ];
    for (name, expected) in cases {
        let field = generate_disposition(name);
        assert_eq!(field.0, "content-disposition");
        assert_eq!(field.1, expected);
    }
}

#[test]
fn disposition_of_a_name_that_no_field_can_hold() {
    assert_eq!(generate_disposition("a\nb.png").1, "attachment");
}

#[test]
fn disposition_for_media() {
    let cases = [
        ("application", "javascript", "inline; filename=\"f\""),
        ("application", "WASM", "inline; filename=\"f\""),
        ("application", "octet-stream", "attachment; filename=\"f\""),
        ("font", "ttf", "attachment; filename=\"f\""),
    ];
    for (kind, subtype, expected) in cases {
        let media = (kind.to_string(), subtype.to_string());
        assert_eq!(disposition_for(&media, "f").1, expected);
    }
}

// Routes.

#[test]
fn routes_of_the_extensions() {
    let mut conf = config();
    conf.tus_extensions = Vec::new();
    let base = vec![
        Route { place: Place::Root, verb: Verb::Options, handler: Handler::ServerInfo },
        Route { place: Place::File, verb: Verb::Patch, handler: Handler::WriteBytes },
        Route { place: Place::File, verb: Verb::Head, handler: Handler::GetFileInfo },
    ];
    assert_eq!(setup(&conf), base);
    conf.tus_extensions = vec![
        Extensions::Termination,
        Extensions::Checksum,
        Extensions::Creation,
        Extensions::Getting,
    ];
    let mut all = base;
    all.push(Route { place: Place::File, verb: Verb::Delete, handler: Handler::Terminate });
    all.push(Route { place: Place::Root, verb: Verb::Post, handler: Handler::CreateFile });
    all.push(Route { place: Place::File, verb: Verb::Get, handler: Handler::GetFile });
    assert_eq!(setup(&conf), all);
    for (i, one) in all.iter().enumerate() {
        for other in &all[i + 1..] {
            assert!(one.place != other.place || one.verb != other.verb);
        }
    }
}

#[test]
fn extensions_with_routes_are_named_once() {
    assert!(is_routable(&vec![]));
    assert!(is_routable(&vec![
        Extensions::Creation,
        Extensions::Checksum,
        Extensions::Checksum
    ]));
    assert!(!is_routable(&vec![
        Extensions::Creation,
        Extensions::Getting,
        Extensions::Creation
    ]));
}

#[test]
fn service_of_the_protocol() {
    let service = rustus_service(&config());
    assert_eq!(service.base, "/files");
    assert_eq!(service.routes.len(), 5);
    assert_eq!(service.max_body_size, 4096);
    assert_eq!(
        service.default_headers,
        vec![
            ("tus-resumable".to_string(), "1.0.0".to_string()),
            ("tus-version".to_string(), "1.0.0".to_string())
        ]
    );
}

#[test]
fn application_of_the_settings() {
    let application = build_router(&config());
    assert_eq!(
        application.pages,
        vec![
            ("/health".to_string(), Page::Health),
            ("/metrics".to_string(), Page::Metrics)
        ]
    );
    assert_eq!(application.service.base, "/files");
    assert_eq!(application.cors.matchers, vec!["*.example.com".to_string()]);
    assert!(application.cors.allow_headers.ends_with(", X-Token"));
    assert!(application.trim_trailing_slash);
}

#[test]
fn greeting_of_the_settings() {
    assert_eq!(
        greeting(&config(), "LOGO"),
        "\n\nLOGO\nWelcome to rustus!\nBase URL: /files\n\
         Available extensions: creation, checksum, getting\n\
         Enabled hooks: pre-create, post-finish\n\n\n"
    );
}

// Plans of uploads.

#[test]
fn planned_upload() {
    let map = headers(&[("Upload-Length", "12"), ("Upload-Metadata", "name Zm9v")]);
    let info = plan_upload(&config(), &map, "id", "disk", 77).unwrap();
    assert_eq!(info.id, "id");
    assert_eq!(info.length, Some(12));
    assert_eq!(info.offset, 0);
    assert_eq!(info.storage, "disk");
    assert_eq!(info.created_at, 77);
    assert_eq!(info.path, None);
    assert_eq!(info.metadata.get("name"), Some("foo"));
    assert_eq!(
        info.get_metadata_string(),
        Some("name Zm9v".to_string())
    );
}

#[test]
fn concatenation_is_ignored_where_not_offered() {
    let map = headers(&[("Upload-Length", "12"), ("Upload-Concat", "partial")]);
    let info = plan_upload(&config(), &map, "id", "disk", 77).unwrap();
    assert!(!info.is_partial);
    let map = headers(&[("Upload-Concat", "final;/files/a")]);
    let refused = plan_upload(&config(), &map, "id", "disk", 77).unwrap_err();
    assert_eq!(refused.status, 400);
}

#[test]
fn deferred_length_is_refused_where_not_offered() {
    let map = headers(&[("Upload-Defer-Length", "1")]);
    let refused = plan_upload(&config(), &map, "id", "disk", 77).unwrap_err();
    assert_eq!(refused.status, 400);
    let mut conf = config();
    conf.tus_extensions = vec![Extensions::CreationDeferLength];
    let info = plan_upload(&conf, &map, "id", "disk", 77).unwrap();
    assert!(info.deferred_size);
    let map = headers(&[("Upload-Defer-Length", "2")]);
    assert!(plan_upload(&conf, &map, "id", "disk", 77).is_err());
}

#[test]
fn parts_of_a_final_upload() {
    let map = headers(&[(
        "Upload-Concat",
        "final; /files/a  https://host/files/b /files/ c /",
    )]);
    assert_eq!(get_upload_parts(&map), vec!["a", "b", "c"]);
    let map = headers(&[("Upload-Concat", "final;")]);
    assert!(get_upload_parts(&map).is_empty());
}

#[test]
fn metadata_of_a_request() {
    let map = headers(&[("Upload-Metadata", "Video bWVtZXM=,Category bWVtZXM=")]);
    let metadata = get_metadata(&map).unwrap();
    assert_eq!(metadata.len(), 2);
    assert_eq!(metadata.entry(0), ("Video", "memes"));
    assert_eq!(metadata.entry(1), ("Category", "memes"));
    assert!(get_metadata(&HeaderMap::new()).is_none());
    let map = headers(&[("Upload-Metadata", "")]);
    assert_eq!(get_metadata(&map).unwrap().len(), 0);
}

#[test]
fn decoded_values() {
    let mut metadata = Metadata::new();
    add_decoded(&mut metadata, "a", Some("\u{e9}".as_bytes().to_vec()));
    add_decoded(&mut metadata, "b", Some(vec![0xff]));
    add_decoded(&mut metadata, "c", None);
    add_decoded(&mut metadata, "a", Some(b"again".to_vec()));
    assert_eq!(metadata.len(), 1);
    assert_eq!(metadata.get("a"), Some("again"));
}

// Texts.

#[test]
fn numbers_in_headers() {
    let cases = [
        ("0", Some(0)),
        ("+7", Some(7)),
        ("007", Some(7)),
        ("18446744073709551615", Some(usize::MAX)),
        ("18446744073709551616", None),
        ("-1", None),
        ("", None),
        ("+", None),
        (" 1", None),
        ("1a", None),
    ];
    for (value, expected) in cases {
        let map = headers(&[("upload-OFFSET", value)]);
        assert_eq!(parse_header::<usize>(&map, "Upload-Offset"), expected);
    }
    let cases = [
        ("-2147483648", Some(i32::MIN)),
        ("2147483647", Some(i32::MAX)),
        ("2147483648", None),
        ("-2147483649", None),
        ("-0", Some(0)),
        ("-", None),
    ];
    for (value, expected) in cases {
        let map = headers(&[("number", value)]);
        assert_eq!(parse_header::<i32>(&map, "number"), expected);
    }
    let map = headers(&[("text", "some text")]);
    assert_eq!(
        parse_header::<String>(&map, "text"),
        Some("some text".to_string())
    );
    assert_eq!(parse_header::<String>(&map, "no name"), None);
}

#[test]
fn numerals() {
    assert_eq!(decimal_text(0), "0");
    assert_eq!(decimal_text(907), "907");
    assert_eq!(decimal_text(u64::MAX), "18446744073709551615");
    assert_eq!(signed_decimal_text(-12), "-12");
    assert_eq!(signed_decimal_text(i64::MIN), "-9223372036854775808");
}

#[test]
fn pieces_of_texts() {
    assert_eq!(split_text("a,,b", ','), vec!["a", "", "b"]);
    assert_eq!(split_text("", ','), vec![""]);
    assert_eq!(split_text("\u{e9},x", ','), vec!["\u{e9}", "x"]);
    let parts = vec!["a".to_string(), "b".to_string(), "c".to_string()];
    let joined = join_text(&parts, ",");
    assert_eq!(joined, "a,b,c");
    assert_eq!(split_text(joined.as_str(), ','), parts);
    assert_eq!(trim_text(" \t\u{a0}x y\u{3000}\n"), "x y");
    assert_eq!(trim_text("  "), "");
    assert_eq!(strip_prefix("final;x", "final;"), Some("x"));
    assert_eq!(strip_prefix("fin", "final;"), None);
}
