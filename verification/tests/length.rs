use stream_http::length::{content_length_of_text, parse_content_length};

#[test]
fn length_header_is_read() {
    assert_eq!(
        parse_content_length(b"POST /x HTTP/1.1\r\nHost: a\r\nContent-Length: 5\r\n\r\n"),
        Some(5)
    );
}

#[test]
fn length_header_name_is_matched_in_any_case() {
    assert_eq!(parse_content_length(b"content-length: 12"), Some(12));
    assert_eq!(parse_content_length(b"CONTENT-LENGTH: 12"), Some(12));
    assert_eq!(parse_content_length(b"cOnTeNt-LeNgTh:12"), Some(12));
}

#[test]
fn no_length_header_is_absent() {
    assert_eq!(parse_content_length(b""), None);
    assert_eq!(parse_content_length(b"GET / HTTP/1.1\r\nHost: a\r\n\r\n"), None);
    assert_eq!(parse_content_length(b"X-Content-Length: 5\r\n"), None);
    assert_eq!(parse_content_length(b" Content-Length: 5\r\n"), None);
    assert_eq!(parse_content_length(b"Content-Length 5\r\n"), None);
}

#[test]
fn value_that_is_no_number_is_absent() {
    assert_eq!(parse_content_length(b"Content-Length: abc\r\n"), None);
    assert_eq!(parse_content_length(b"Content-Length: -1\r\n"), None);
    assert_eq!(parse_content_length(b"Content-Length: 1 2\r\n"), None);
    assert_eq!(parse_content_length(b"Content-Length: 5x\r\n"), None);
    assert_eq!(parse_content_length(b"Content-Length:\r\n"), None);
    assert_eq!(parse_content_length(b"Content-Length: +\r\n"), None);
    assert_eq!(parse_content_length(b"Content-Length: 1.0\r\n"), None);
}

#[test]
fn value_is_trimmed_and_may_carry_a_plus() {
    assert_eq!(parse_content_length(b"Content-Length:   42  \r\n"), Some(42));
    assert_eq!(parse_content_length(b"Content-Length:\t7\r\n"), Some(7));
    assert_eq!(parse_content_length(b"Content-Length: +9\r\n"), Some(9));
    assert_eq!(parse_content_length(b"Content-Length: 007\r\n"), Some(7));
    assert_eq!(parse_content_length(b"Content-Length: 0\r\n"), Some(0));
}

#[test]
fn value_ends_at_the_next_colon() {
    assert_eq!(parse_content_length(b"Content-Length: 5:9\r\n"), Some(5));
    assert_eq!(parse_content_length(b"Content-Length::9\r\n"), None);
}

#[test]
fn value_beyond_the_machine_word_is_absent() {
    let max = format!("Content-Length: {}\r\n", usize::MAX);
    assert_eq!(parse_content_length(max.as_bytes()), Some(usize::MAX));
    let over = format!("Content-Length: {}0\r\n", usize::MAX);
    assert_eq!(parse_content_length(over.as_bytes()), None);
    assert_eq!(
        parse_content_length(b"Content-Length: 340282366920938463463374607431768211456\r\n"),
        None
    );
}

#[test]
fn first_length_header_decides() {
    assert_eq!(
        parse_content_length(b"Content-Length: 3\r\nContent-Length: 4\r\n"),
        Some(3)
    );
    assert_eq!(
        parse_content_length(b"Content-Length: x\r\nContent-Length: 4\r\n"),
        None
    );
}

#[test]
fn lines_end_with_cr_lf_only() {
    assert_eq!(parse_content_length(b"Host: a\nContent-Length: 4\r\n"), None);
    assert_eq!(parse_content_length(b"Host: a\r\nContent-Length: 4\n"), Some(4));
    assert_eq!(parse_content_length(b"Host: a\rContent-Length: 4"), None);
}

#[test]
fn malformed_bytes_do_not_hide_the_length_header() {
    assert_eq!(
        parse_content_length(b"X-Junk: \xff\xfe\r\nContent-Length: 11\r\n\r\n"),
        Some(11)
    );
    assert_eq!(parse_content_length(b"\xffContent-Length: 11\r\n"), None);
}

#[test]
fn value_is_trimmed_of_unicode_white_space() {
    assert_eq!(
        parse_content_length("Content-Length:\u{a0}\u{2003}8\u{3000}\r\n".as_bytes()),
        Some(8)
    );
}

#[test]
fn text_entry_point_reads_the_same() {
    assert_eq!(content_length_of_text("a: b\r\ncontent-length: 77\r\n\r\n"), Some(77));
    assert_eq!(content_length_of_text("a: b\r\n\r\n"), None);
}
