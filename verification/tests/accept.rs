use std::io::ErrorKind;
use stream_http::accept::{accept_backoff_seconds, is_connection_error};

#[test]
fn connection_errors_are_recognised() {
    assert!(is_connection_error(ErrorKind::ConnectionRefused));
    assert!(is_connection_error(ErrorKind::ConnectionAborted));
    assert!(is_connection_error(ErrorKind::ConnectionReset));
}

#[test]
fn other_errors_are_not_connection_errors() {
    assert!(!is_connection_error(ErrorKind::WouldBlock));
    assert!(!is_connection_error(ErrorKind::TimedOut));
    assert!(!is_connection_error(ErrorKind::NotConnected));
    assert!(!is_connection_error(ErrorKind::BrokenPipe));
    assert!(!is_connection_error(ErrorKind::Other));
    assert!(!is_connection_error(ErrorKind::OutOfMemory));
}

#[test]
fn only_other_errors_are_waited_out() {
    assert_eq!(accept_backoff_seconds(ErrorKind::ConnectionReset), 0);
    assert_eq!(accept_backoff_seconds(ErrorKind::ConnectionRefused), 0);
    assert_eq!(accept_backoff_seconds(ErrorKind::ConnectionAborted), 0);
    assert_eq!(accept_backoff_seconds(ErrorKind::Other), 1);
    assert_eq!(accept_backoff_seconds(ErrorKind::Interrupted), 1);
}
