use std::path::PathBuf;
use stream_http::options::Options;
use stream_http::request::{get_request, Version};
use stream_http::response::{get_parse_result_from_request, SEEDED_STATUS};

#[test]
fn seeded_response_is_a_bad_request_in_json() {
    let request = get_request(b"GET /x HTTP/1.0\r\nHost: a\r\n\r\nhello".to_vec()).unwrap();
    let mut options = Options::new(PathBuf::from("/srv"));
    options.read_imcomplete_size = 9;
    let (request, response) =
        get_parse_result_from_request(request, 7u32, &options, Some("203.0.113.7:4711".to_string()));
    assert_eq!(SEEDED_STATUS, 400);
    assert_eq!(response.status, 400);
    assert_eq!(response.version, Version::Http10);
    assert_eq!(
        response.headers,
        vec![("content-type".to_string(), "application/json".to_string())]
    );
    assert_eq!(response.writer.stream, 7);
    assert_eq!(response.writer.body, "");
    assert!(response.writer.bytes.is_empty());
    assert!(!response.writer.use_file);
    assert_eq!(response.writer.options.root_path, PathBuf::from("/srv"));
    assert_eq!(response.writer.options.read_imcomplete_size, 9);
    assert_eq!(response.writer.options.read_max_retry, 3);
    assert_eq!(request.body.ip, Some("203.0.113.7:4711".to_string()));
    assert_eq!(request.method, "GET");
    assert_eq!(request.uri, "/x");
    assert_eq!(request.version, Version::Http10);
    assert_eq!(request.headers.len(), 1);
    assert_eq!(request.body.bytes, b"hello");
    assert_eq!(request.body.len, 5);
}

#[test]
fn seeded_response_follows_the_version_of_the_request() {
    for (name, version) in [
        ("HTTP/0.9", Version::Http09),
        ("HTTP/1.1", Version::Http11),
        ("HTTP/2.0", Version::H2),
        ("HTTP/3.0", Version::H3),
    ] {
        let request = get_request(format!("GET / {}\r\n\r\n", name).into_bytes()).unwrap();
        let options = Options::new(PathBuf::from("/"));
        let (request, response) = get_parse_result_from_request(request, (), &options, None);
        assert_eq!(response.version, version);
        assert_eq!(request.version, version);
        assert_eq!(request.body.ip, None);
        assert_eq!(response.status, 400);
    }
}

#[test]
fn seeded_header_is_accepted_by_the_http_crate() {
    let name = http::header::HeaderName::from_bytes(b"content-type").unwrap();
    assert_eq!(name.as_str(), "content-type");
    assert!(http::header::HeaderValue::from_str("application/json").is_ok());
}
