//! What to do when a connection could not be accepted.

use std::io::ErrorKind;
use vstd::prelude::*;

verus! {

/// `std::io::ErrorKind`, with its variants.
#[verifier::external_type_specification]
pub struct ExErrorKind(ErrorKind);

/// The error belongs to the connection that was being accepted: it was
/// refused, aborted or reset.
pub open spec fn connection_error(kind: ErrorKind) -> bool {
    kind is ConnectionRefused || kind is ConnectionAborted || kind is ConnectionReset
}

/// Whether a failure to accept is the fault of the one connection, so that
/// it is reported at once.
pub fn is_connection_error(kind: ErrorKind) -> (b: bool)
    ensures
        b == connection_error(kind),
{
    matches!(
        kind,
        ErrorKind::ConnectionRefused | ErrorKind::ConnectionAborted | ErrorKind::ConnectionReset
    )
}

/// How many seconds to wait before a failure to accept is reported: none
/// for an error of the one connection, one for anything else.
pub fn accept_backoff_seconds(kind: ErrorKind) -> (seconds: u64)
    ensures
        seconds == if connection_error(kind) {
            0u64
        } else {
            1u64
        },
{
    if is_connection_error(kind) {
        0
    } else {
        1
    }
}

} // verus!
