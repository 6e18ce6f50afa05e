//! Receiving and decoding HTTP/1.x requests from a raw byte stream.
//!
//! The crate holds the decisions of the read loop, the scanner for the header
//! terminator, the extractor of the declared body length, the request decoder
//! and the default failure response that accompanies every decoded request.
//! Socket work is left to the caller, which feeds the outcome of each read to
//! the accumulator.

pub mod accept;
pub mod accumulator;
pub mod http_syntax;
pub mod length;
pub mod number;
pub mod options;
pub mod pattern;
pub mod request;
pub mod response;
pub mod scan;
pub mod text;
pub mod unicode;

pub use accept::is_connection_error;
pub use accumulator::{Accumulator, ReadAction, ReadError, ReadEvent};
pub use length::parse_content_length;
pub use options::{Options, Overrides};
pub use request::{get_request, Body, DecodeError, Form, Part, Request, Version};
pub use response::{get_parse_result_from_request, Response, Writer};
pub use scan::find_headers_end;
