use stream_http::scan::{find_headers_end, split_header_body};

#[test]
fn no_terminator_is_not_found() {
    assert_eq!(find_headers_end(b""), None);
    assert_eq!(find_headers_end(b"\r\n"), None);
    assert_eq!(find_headers_end(b"\r\n\r"), None);
    assert_eq!(find_headers_end(b"GET / HTTP/1.1\r\nHost: a\r\n"), None);
    assert_eq!(find_headers_end(b"a\n\nb\r\r\n\n"), None);
}

#[test]
fn terminator_alone_ends_at_four() {
    assert_eq!(find_headers_end(b"\r\n\r\n"), Some(4));
}

#[test]
fn first_of_two_terminators_is_found() {
    assert_eq!(find_headers_end(b"ab\r\n\r\ncd\r\n\r\nef"), Some(6));
}

#[test]
fn overlapping_line_ends_find_the_first_blank_line() {
    assert_eq!(find_headers_end(b"x\r\n\r\n\r\n"), Some(5));
    assert_eq!(find_headers_end(b"\r\r\n\r\n"), Some(5));
}

#[test]
fn terminator_at_the_very_end_is_found() {
    let data = b"GET / HTTP/1.1\r\nHost: a\r\n\r\n";
    assert_eq!(find_headers_end(data), Some(data.len()));
}

#[test]
fn split_takes_the_terminator_out() {
    let (head, body) = split_header_body(b"GET / HTTP/1.1\r\nHost: a\r\n\r\nhello");
    assert_eq!(head, b"GET / HTTP/1.1\r\nHost: a");
    assert_eq!(body, b"hello");
}

#[test]
fn split_without_terminator_is_all_body() {
    let (head, body) = split_header_body(b"just some bytes\r\n");
    assert_eq!(head, b"");
    assert_eq!(body, b"just some bytes\r\n");
}

#[test]
fn split_of_nothing_is_nothing() {
    let (head, body) = split_header_body(b"");
    assert_eq!(head, b"");
    assert_eq!(body, b"");
}

#[test]
fn split_keeps_later_terminators_in_the_body() {
    let (head, body) = split_header_body(b"a\r\n\r\nb\r\n\r\nc");
    assert_eq!(head, b"a");
    assert_eq!(body, b"b\r\n\r\nc");
}
