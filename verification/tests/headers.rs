use http::HeaderMap;
use rustus::utils::headers::{check_header, parse_header};

fn header_map(pairs: &[(&str, &str)]) -> HeaderMap {
    let mut map = HeaderMap::new();
    for (name, value) in pairs {
        map.insert(
            http::HeaderName::from_bytes(name.as_bytes()).unwrap(),
            http::HeaderValue::from_str(value).unwrap(),
        );
    }
    map
}

#[test]
fn test_parse_header_unknown_header() {
    let headers = HeaderMap::new();
    let header = parse_header::<String>(&headers, "unknown");
    assert!(header.is_none());
}

#[test]
fn test_parse_header_wrong_type() {
    let headers = header_map(&[("test_header", "test")]);
    let header = parse_header::<i32>(&headers, "test_header");
    assert!(header.is_none());
}

#[test]
fn test_parse_header() {
    let headers = header_map(&[("test_header", "123")]);
    let header = parse_header::<usize>(&headers, "test_header");
    assert_eq!(header.unwrap(), 123);
}

#[test]
fn test_check_header_unknown_header() {
    let headers = HeaderMap::new();
    let check = check_header(&headers, "unknown", |value| value == "1");
    assert!(!check);
}

#[test]
fn test_check_header() {
    let headers = header_map(&[("test_header", "1")]);
    let check = check_header(&headers, "test_header", |value| value == "1");
    assert!(check);
    let check = check_header(&headers, "test_header", |value| value == "2");
    assert!(!check);
}
