//! The failure response that accompanies every decoded request.

use vstd::prelude::*;
use crate::http_syntax::{header_name_text, is_header_value};
use crate::options::Options;
use crate::request::{pairs_view, BodyView, Request, RequestView, Version};
use crate::text::ascii_lowered;

verus! {

/// The status of a response that nobody has filled in yet.
pub const SEEDED_STATUS: u16 = 400;

/// What will write the reply. It owns the stream from the moment the
/// request is decoded.
pub struct Writer<S> {
    /// The stream to the client.
    pub stream: S,
    /// The reply as text, empty at first.
    pub body: String,
    /// The reply as bytes, empty at first.
    pub bytes: Vec<u8>,
    /// Whether the reply is to be streamed from a file.
    pub use_file: bool,
    /// The settings of the connection.
    pub options: Options,
}

/// A response in the making.
pub struct Response<S> {
    /// The protocol version.
    pub version: Version,
    /// The status code.
    pub status: u16,
    /// The headers, in order.
    pub headers: Vec<(String, String)>,
    /// What will write the reply.
    pub writer: Writer<S>,
}

/// The one header of a seeded response.
pub open spec fn seeded_headers() -> Seq<(Seq<char>, Seq<char>)> {
    seq![("content-type"@, "application/json"@)]
}

/// The client address as the body keeps it.
pub open spec fn address_view(address: Option<String>) -> Option<Seq<char>> {
    match address {
        Some(a) => Some(a@),
        None => None,
    }
}

/// The header of a seeded response is accepted as a header, name and value,
/// and its name is in canonical form already. So a seeded response can
/// always be built.
pub proof fn lemma_seeded_header_is_valid()
    ensures
        header_name_text(seeded_headers()[0].0) == Some(seeded_headers()[0].0),
        is_header_value(seeded_headers()[0].1),
{
    reveal_strlit("content-type");
    reveal_strlit("application/json");
    let name = "content-type"@;
    let value = "application/json"@;
    assert(seeded_headers()[0] == (name, value));
    assert(name.len() == 12);
    assert(value.len() == 16);
    assert(ascii_lowered(name) =~= name);
}

/// Pairs a decoded request with its default response: the client address
/// is attached to the body of the request, and the response has the version
/// of the request, status 400, a JSON content type, and a writer that owns
/// the stream, with nothing to send yet and a copy of the settings.
pub fn get_parse_result_from_request<S>(
    request: Request,
    stream: S,
    options: &Options,
    client: Option<String>,
) -> (pair: (Request, Response<S>))
    ensures
        pair.0@ == (RequestView {
            body: BodyView { ip: address_view(client), ..request@.body },
            ..request@
        }),
        pair.1.version == request.version,
        pair.1.status == SEEDED_STATUS,
        pairs_view(pair.1.headers@) == seeded_headers(),
        pair.1.writer.stream == stream,
        pair.1.writer.body@ == Seq::<char>::empty(),
        pair.1.writer.bytes@ == Seq::<u8>::empty(),
        !pair.1.writer.use_file,
        pair.1.writer.options == *options,
{
    let mut request = request;
    let version = request.version;
    request.body.ip = client;
    let mut headers: Vec<(String, String)> = Vec::new();
    headers.push((String::from_str("content-type"), String::from_str("application/json")));
    assert(pairs_view(headers@) =~= seeded_headers());
    let response = Response {
        version,
        status: SEEDED_STATUS,
        headers,
        writer: Writer {
            stream,
            body: String::new(),
            bytes: Vec::new(),
            use_file: false,
            options: options.clone(),
        },
    };
    (request, response)
}

} // verus!
