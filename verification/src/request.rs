//! The structured request and its decoder.

use vstd::prelude::*;
use vstd::slice::{slice_subrange, slice_to_vec};
use crate::http_syntax::{
    header_name, header_name_text, header_value_accepted, http_uri_text, is_header_value,
    is_token, lemma_canonical_name_is_stable, method_text, uri_text,
};
use crate::pattern::{first_occurrence, split_on};
use crate::scan::{body_part, header_part, split_header_body};
use crate::text::{
    chars_of, crlf, find_first, pieces, ranges_within, split_ranges, text_of, trim, trim_range,
};
use crate::unicode::{decode_lossy, lowercase, unicode_lowercase, utf8_lossy};

verus! {

/// The protocol version of a request or response.
#[derive(Clone, Copy, Debug, PartialEq, Eq, Structural)]
pub enum Version {
    /// HTTP/0.9
    Http09,
    /// HTTP/1.0
    Http10,
    /// HTTP/1.1
    Http11,
    /// HTTP/2.0
    H2,
    /// HTTP/3.0
    H3,
}

/// The body of a request.
#[derive(Debug)]
pub struct Body {
    /// The payload.
    pub bytes: Vec<u8>,
    /// The payload as text. It is empty until a later layer fills it.
    pub body: String,
    /// The number of payload bytes.
    pub len: usize,
    /// The address of the client, in text. The decoder leaves it out; the
    /// caller attaches it.
    pub ip: Option<String>,
}

/// A decoded request.
#[derive(Debug)]
pub struct Request {
    /// The method, `GET` where the request line gave none that is valid.
    pub method: String,
    /// The URI, `/` where the request line gave none that is valid.
    pub uri: String,
    /// The protocol version, HTTP/1.1 where the request line named no other.
    pub version: Version,
    /// The headers in the order of their lines, names in lowercase. A name
    /// that occurs twice stands twice.
    pub headers: Vec<(String, String)>,
    /// The body.
    pub body: Body,
}

/// One part of a multipart form. Nothing in this crate fills it.
pub struct Part {
    /// The name of the form field.
    pub name: String,
    /// The name of the file sent.
    pub file_name: String,
    /// The headers of the part.
    pub headers: Vec<(String, String)>,
    /// The content of the part.
    pub body: Vec<u8>,
}

/// A multipart form. Nothing in this crate fills it.
pub struct Form {
    /// The text field: its name and its value.
    pub text: (String, String),
    /// The parts, in order.
    pub parts: Vec<Part>,
}

/// Why a request could not be built from its header block.
#[derive(Clone, Copy, Debug, PartialEq, Eq, Structural)]
pub enum DecodeError {
    /// A header line has a name that is no header name.
    InvalidHeaderName,
    /// A header line has a value that holds a control character.
    InvalidHeaderValue,
}

/// What a body holds.
pub struct BodyView {
    /// The payload.
    pub bytes: Seq<u8>,
    /// The payload as text.
    pub body: Seq<char>,
    /// The number of payload bytes.
    pub len: nat,
    /// The address of the client.
    pub ip: Option<Seq<char>>,
}

/// What a request holds.
pub struct RequestView {
    /// The method.
    pub method: Seq<char>,
    /// The URI.
    pub uri: Seq<char>,
    /// The protocol version.
    pub version: Version,
    /// The headers, each a name and a value, in order.
    pub headers: Seq<(Seq<char>, Seq<char>)>,
    /// The body.
    pub body: BodyView,
}

/// The texts of a list of string pairs.
pub open spec fn pairs_view(pairs: Seq<(String, String)>) -> Seq<(Seq<char>, Seq<char>)> {
    pairs.map_values(|p: (String, String)| (p.0@, p.1@))
}

impl View for Body {
    type V = BodyView;

    open spec fn view(&self) -> BodyView {
        BodyView {
            bytes: self.bytes@,
            body: self.body@,
            len: self.len as nat,
            ip: match self.ip {
                Some(ip) => Some(ip@),
                None => None,
            },
        }
    }
}

impl View for Request {
    type V = RequestView;

    open spec fn view(&self) -> RequestView {
        RequestView {
            method: self.method@,
            uri: self.uri@,
            version: self.version,
            headers: pairs_view(self.headers@),
            body: self.body@,
        }
    }
}

/// The separator between the tokens of the request line: one space.
pub open spec fn space() -> Seq<char> {
    seq![' ']
}

/// The separator between the name and the value of a header: a colon and a
/// space.
pub open spec fn colon_space() -> Seq<char> {
    seq![':', ' ']
}

/// The lines of the header text.
pub open spec fn lines_of(text: Seq<char>) -> Seq<Seq<char>> {
    split_on(text, crlf())
}

/// The request line: the first line of the header text, unless it is empty.
pub open spec fn request_line(text: Seq<char>) -> Option<Seq<char>> {
    let first = lines_of(text)[0];
    if first.len() > 0 {
        Some(first)
    } else {
        None
    }
}

/// The `n`-th token of the request line, counted from zero, if the line has
/// that many.
pub open spec fn request_token(text: Seq<char>, n: int) -> Option<Seq<char>> {
    match request_line(text) {
        Some(line) => if 0 <= n < split_on(line, space()).len() {
            Some(split_on(line, space())[n])
        } else {
            None
        },
        None => None,
    }
}

/// The version that `token` names; HTTP/1.1 where it names none.
pub open spec fn version_named(token: Seq<char>) -> Version {
    if token == "HTTP/0.9"@ {
        Version::Http09
    } else if token == "HTTP/1.0"@ {
        Version::Http10
    } else if token == "HTTP/2.0"@ {
        Version::H2
    } else if token == "HTTP/3.0"@ {
        Version::H3
    } else {
        Version::Http11
    }
}

/// The method of the request: the first token of the request line where it
/// is a valid method, else `GET`.
pub open spec fn method_of(text: Seq<char>) -> Seq<char> {
    match request_token(text, 0) {
        Some(token) => if is_token(token) {
            token
        } else {
            "GET"@
        },
        None => "GET"@,
    }
}

/// The URI of the request: what the second token of the request line reads
/// as, else `/`.
pub open spec fn uri_of(text: Seq<char>) -> Seq<char> {
    match request_token(text, 1) {
        Some(token) => match http_uri_text(token) {
            Some(uri) => uri,
            None => "/"@,
        },
        None => "/"@,
    }
}

/// The version of the request: what the third token of the request line
/// names, else HTTP/1.1.
pub open spec fn version_of(text: Seq<char>) -> Version {
    match request_token(text, 2) {
        Some(token) => version_named(token),
        None => Version::Http11,
    }
}

/// The header that a line gives: the line is trimmed and split at its first
/// colon and space; the name is put in lowercase. An empty line and a line
/// without the separator give none.
pub open spec fn header_entry(line: Seq<char>) -> Option<(Seq<char>, Seq<char>)> {
    if line.len() == 0 {
        None
    } else {
        let trimmed = trim(line);
        match first_occurrence(trimmed, colon_space()) {
            Some(i) => Some((unicode_lowercase(trimmed.take(i)), trimmed.skip(i + 2))),
            None => None,
        }
    }
}

/// `header_entry` as a function value.
pub open spec fn header_entry_fn() -> spec_fn(Seq<char>) -> Option<(Seq<char>, Seq<char>)> {
    |line: Seq<char>| header_entry(line)
}

/// The headers that the lines behind the first give, in order.
pub open spec fn header_entries(text: Seq<char>) -> Seq<(Seq<char>, Seq<char>)> {
    lines_of(text).skip(1).filter_map(header_entry_fn())
}

/// The headers as the request keeps them, each name in its canonical form;
/// or the failure of the first header whose name or, the name being valid,
/// whose value is not accepted.
pub open spec fn checked_headers(entries: Seq<(Seq<char>, Seq<char>)>) -> Result<
    Seq<(Seq<char>, Seq<char>)>,
    DecodeError,
>
    decreases entries.len(),
{
    if entries.len() == 0 {
        Ok(Seq::empty())
    } else {
        match checked_headers(entries.drop_last()) {
            Err(e) => Err(e),
            Ok(headers) => match header_name_text(entries.last().0) {
                None => Err(DecodeError::InvalidHeaderName),
                Some(name) => if is_header_value(entries.last().1) {
                    Ok(headers.push((name, entries.last().1)))
                } else {
                    Err(DecodeError::InvalidHeaderValue)
                },
            },
        }
    }
}

/// The request that the header text and the body bytes make.
pub open spec fn request_of_text(text: Seq<char>, body: Seq<u8>) -> Result<
    RequestView,
    DecodeError,
> {
    match checked_headers(header_entries(text)) {
        Ok(headers) => Ok(
            RequestView {
                method: method_of(text),
                uri: uri_of(text),
                version: version_of(text),
                headers,
                body: BodyView { bytes: body, body: Seq::empty(), len: body.len(), ip: None },
            },
        ),
        Err(e) => Err(e),
    }
}

/// The request that a buffer decodes to: the bytes before the first header
/// terminator are decoded lossily as UTF-8 and read as header text, the
/// bytes behind it are the body.
pub open spec fn decoded(bytes: Seq<u8>) -> Result<RequestView, DecodeError> {
    request_of_text(utf8_lossy(header_part(bytes)), body_part(bytes))
}

/// `result` is what decoding of `bytes` gives.
pub open spec fn decodes_to(bytes: Seq<u8>, result: Result<Request, DecodeError>) -> bool {
    match result {
        Ok(request) => decoded(bytes) == Ok::<RequestView, DecodeError>(request@),
        Err(e) => decoded(bytes) == Err::<RequestView, DecodeError>(e),
    }
}

/// A sequence always splits into at least one piece.
pub proof fn lemma_split_has_piece<T>(s: Seq<T>, pat: Seq<T>)
    ensures
        split_on(s, pat).len() >= 1,
{
}

/// The headers of two runs of lines are the headers of the first run and
/// then those of the second.
pub proof fn lemma_entries_of_runs(first: Seq<Seq<char>>, second: Seq<Seq<char>>)
    ensures
        (first + second).filter_map(header_entry_fn()) == first.filter_map(header_entry_fn())
            + second.filter_map(header_entry_fn()),
    decreases second.len(),
{
    let f = header_entry_fn();
    if second.len() == 0 {
        assert(first + second =~= first);
        assert(first.filter_map(f) + second.filter_map(f) =~= first.filter_map(f));
    } else {
        assert((first + second).drop_last() =~= first + second.drop_last());
        assert((first + second).last() == second.last());
        lemma_entries_of_runs(first, second.drop_last());
        match f(second.last()) {
            Some(e) => {
                assert(first.filter_map(f) + (second.drop_last().filter_map(f) + seq![e])
                    =~= first.filter_map(f) + second.drop_last().filter_map(f) + seq![e]);
            },
            None => {},
        }
    }
}

/// A line that, trimmed, holds no colon followed by a space is dropped: the
/// lines around it give the headers that they give without it.
pub proof fn lemma_line_without_separator_is_dropped(
    before: Seq<Seq<char>>,
    line: Seq<char>,
    after: Seq<Seq<char>>,
)
    requires
        first_occurrence(trim(line), colon_space()) is None,
    ensures
        header_entry(line) is None,
        (before + seq![line] + after).filter_map(header_entry_fn()) == (before + after).filter_map(
            header_entry_fn(),
        ),
{
    let f = header_entry_fn();
    lemma_entries_of_runs(before + seq![line], after);
    lemma_entries_of_runs(before, seq![line]);
    lemma_entries_of_runs(before, after);
    Seq::lemma_filter_map_singleton(line, f);
    assert(before.filter_map(f) + seq![line].filter_map(f) =~= before.filter_map(f));
}

/// Headers that passed stand one for one for the headers that were read:
/// each has its value unchanged and its name in canonical form, and each is
/// accepted as a header again as it stands.
pub proof fn lemma_checked_headers_are_valid(
    entries: Seq<(Seq<char>, Seq<char>)>,
    headers: Seq<(Seq<char>, Seq<char>)>,
    i: int,
)
    requires
        checked_headers(entries) == Ok::<Seq<(Seq<char>, Seq<char>)>, DecodeError>(headers),
        0 <= i < headers.len(),
    ensures
        headers.len() == entries.len(),
        header_name_text(entries[i].0) == Some(headers[i].0),
        headers[i].1 == entries[i].1,
        header_name_text(headers[i].0) == Some(headers[i].0),
        is_header_value(headers[i].1),
    decreases entries.len(),
{
    if entries.len() > 0 {
        let rest = checked_headers(entries.drop_last())->Ok_0;
        if rest.len() > 0 {
            lemma_checked_headers_are_valid(entries.drop_last(), rest, 0);
        }
        if i < rest.len() {
            lemma_checked_headers_are_valid(entries.drop_last(), rest, i);
        } else {
            lemma_canonical_name_is_stable(entries.last().0);
        }
    }
}

/// The method of a decoded request is a valid method.
pub proof fn lemma_method_is_valid(text: Seq<char>)
    ensures
        is_token(method_of(text)),
{
    reveal_strlit("GET");
    assert("GET"@.len() == 3);
}

/// Whatever the request line holds, decoding fails on headers alone: it
/// succeeds exactly when every header that was read is accepted, and always
/// when no header was read. A request line with fewer than three tokens
/// leaves the version at HTTP/1.1, one with fewer than two the URI at `/`.
pub proof fn lemma_decoding_fails_on_headers_only(text: Seq<char>, body: Seq<u8>)
    ensures
        request_of_text(text, body) is Ok <==> checked_headers(header_entries(text)) is Ok,
        header_entries(text).len() == 0 ==> request_of_text(text, body) is Ok,
        request_token(text, 2) is None ==> version_of(text) == Version::Http11,
        request_token(text, 1) is None ==> uri_of(text) == "/"@,
{
}

/// Decoding is a function of the buffer: two results of decoding the same
/// bytes hold the same.
pub proof fn lemma_decoding_is_deterministic(
    bytes: Seq<u8>,
    first: Result<Request, DecodeError>,
    second: Result<Request, DecodeError>,
)
    requires
        decodes_to(bytes, first),
        decodes_to(bytes, second),
    ensures
        match (first, second) {
            (Ok(a), Ok(b)) => a@ == b@,
            (Err(a), Err(b)) => a == b,
            _ => false,
        },
{
}


impl DecodeError {
    /// The failure in words.
    pub fn message(&self) -> (text: String)
        ensures
            text@ == match *self {
                DecodeError::InvalidHeaderName => "invalid HTTP header name"@,
                DecodeError::InvalidHeaderValue => "failed to parse header value"@,
            },
    {
        match self {
            DecodeError::InvalidHeaderName => String::from_str("invalid HTTP header name"),
            DecodeError::InvalidHeaderValue => String::from_str("failed to parse header value"),
        }
    }
}

/// The version that `token` names; HTTP/1.1 where it names none.
pub fn version_of_token(token: &str) -> (version: Version)
    ensures
        version == version_named(token@),
{
    let token = String::from_str(token);
    if token == String::from_str("HTTP/0.9") {
        Version::Http09
    } else if token == String::from_str("HTTP/1.0") {
        Version::Http10
    } else if token == String::from_str("HTTP/2.0") {
        Version::H2
    } else if token == String::from_str("HTTP/3.0") {
        Version::H3
    } else {
        Version::Http11
    }
}

fn parse_header_line(line: &[char]) -> (entry: Option<(String, String)>)
    ensures
        match entry {
            Some(e) => header_entry(line@) == Some((e.0@, e.1@)),
            None => header_entry(line@) is None,
        },
{
    if line.len() == 0 {
        return None;
    }
    let (lo, hi) = trim_range(line);
    let trimmed = slice_subrange(line, lo, hi);
    let sep: Vec<char> = vec![':', ' '];
    assert(sep@ =~= colon_space());
    match find_first(trimmed, sep.as_slice()) {
        Some(i) => {
            let name = text_of(slice_subrange(trimmed, 0, i));
            let value = text_of(slice_subrange(trimmed, i + 2, trimmed.len()));
            let name = lowercase(name.as_str());
            assert(trimmed@.subrange(0, i as int) =~= trimmed@.take(i as int));
            assert(trimmed@.subrange(i + 2, trimmed@.len() as int) =~= trimmed@.skip(i + 2));
            Some((name, value))
        },
        None => None,
    }
}

fn parse_header_lines(chars: &[char], ranges: &Vec<(usize, usize)>) -> (entries: Vec<
    (String, String),
>)
    requires
        ranges.len() >= 1,
        ranges_within(ranges@, chars@.len()),
    ensures
        pairs_view(entries@) == pieces(chars@, ranges@).skip(1).filter_map(header_entry_fn()),
{
    let ghost rest = pieces(chars@, ranges@).skip(1);
    let mut entries: Vec<(String, String)> = Vec::new();
    let mut k: usize = 1;
    proof {
        assert(rest.take(0) =~= Seq::empty());
        assert(pairs_view(entries@) =~= rest.take(0).filter_map(header_entry_fn()));
    }
    while k < ranges.len()
        invariant
            1 <= k <= ranges.len(),
            ranges_within(ranges@, chars@.len()),
            rest == pieces(chars@, ranges@).skip(1),
            pairs_view(entries@) == rest.take(k - 1).filter_map(header_entry_fn()),
        decreases ranges.len() - k,
    {
        let (lo, hi) = ranges[k];
        let line = slice_subrange(chars, lo, hi);
        let ghost before = entries@;
        proof {
            assert(line@ == rest[k - 1]);
            rest.lemma_filter_map_take_succ(header_entry_fn(), k - 1);
        }
        match parse_header_line(line) {
            Some(entry) => {
                let ghost e = (entry.0@, entry.1@);
                entries.push(entry);
                proof {
                    assert(pairs_view(entries@) =~= pairs_view(before).push(e));
                    assert(pairs_view(before).push(e) =~= pairs_view(before) + seq![e]);
                }
            },
            None => {
                proof {
                    assert(pairs_view(before) + Seq::empty() =~= pairs_view(before));
                }
            },
        }
        k += 1;
    }
    proof {
        assert(rest.take(ranges.len() - 1) =~= rest);
    }
    entries
}

/// Has each header checked, and returns them with their names in canonical
/// form. The first header that is not accepted decides the failure.
pub fn check_headers(entries: &Vec<(String, String)>) -> (result: Result<
    Vec<(String, String)>,
    DecodeError,
>)
    ensures
        match result {
            Ok(headers) => checked_headers(pairs_view(entries@)) == Ok::<
                Seq<(Seq<char>, Seq<char>)>,
                DecodeError,
            >(pairs_view(headers@)),
            Err(e) => checked_headers(pairs_view(entries@)) == Err::<
                Seq<(Seq<char>, Seq<char>)>,
                DecodeError,
            >(e),
        },
{
    let ghost all = pairs_view(entries@);
    let mut headers: Vec<(String, String)> = Vec::new();
    let mut k: usize = 0;
    proof {
        assert(all.take(0) =~= Seq::empty());
        assert(pairs_view(headers@) =~= Seq::empty());
    }
    while k < entries.len()
        invariant
            k <= entries.len(),
            all == pairs_view(entries@),
            checked_headers(all.take(k as int)) == Ok::<Seq<(Seq<char>, Seq<char>)>, DecodeError>(
                pairs_view(headers@),
            ),
        decreases entries.len() - k,
    {
        let ghost upto = all.take(k + 1);
        let ghost before = headers@;
        proof {
            assert(upto.drop_last() =~= all.take(k as int));
            assert(upto.last() == (entries@[k as int].0@, entries@[k as int].1@));
        }
        match header_name(entries[k].0.as_str()) {
            None => {
                proof {
                    lemma_checked_failure_stays(all, k + 1);
                }
                return Err(DecodeError::InvalidHeaderName);
            },
            Some(name) => {
                if !header_value_accepted(entries[k].1.as_str()) {
                    proof {
                        lemma_checked_failure_stays(all, k + 1);
                    }
                    return Err(DecodeError::InvalidHeaderValue);
                }
                let value = entries[k].1.clone();
                let ghost h = (name@, value@);
                headers.push((name, value));
                proof {
                    assert(pairs_view(headers@) =~= pairs_view(before).push(h));
                }
            },
        }
        k += 1;
    }
    proof {
        assert(all.take(entries.len() as int) =~= all);
    }
    Ok(headers)
}

/// A failure among the first headers is the failure of the whole list.
pub proof fn lemma_checked_failure_stays(entries: Seq<(Seq<char>, Seq<char>)>, k: int)
    requires
        0 <= k <= entries.len(),
        checked_headers(entries.take(k)) is Err,
    ensures
        checked_headers(entries) == checked_headers(entries.take(k)),
    decreases entries.len() - k,
{
    if k == entries.len() {
        assert(entries.take(k) =~= entries);
    } else {
        assert(entries.take(k + 1).drop_last() =~= entries.take(k));
        lemma_checked_failure_stays(entries, k + 1);
    }
}

/// Builds the request from decoded header text and the body bytes.
pub fn request_from_text(text: &str, body: Vec<u8>) -> (result: Result<Request, DecodeError>)
    ensures
        match result {
            Ok(request) => request_of_text(text@, body@) == Ok::<RequestView, DecodeError>(
                request@,
            ),
            Err(e) => request_of_text(text@, body@) == Err::<RequestView, DecodeError>(e),
        },
{
    let chars = chars_of(text);
    let crlf_sep: Vec<char> = vec!['\r', '\n'];
    assert(crlf_sep@ =~= crlf());
    let space_sep: Vec<char> = vec![' '];
    assert(space_sep@ =~= space());
    let ranges = split_ranges(chars.as_slice(), crlf_sep.as_slice());
    proof {
        lemma_split_has_piece(text@, crlf());
    }
    let mut method = String::from_str("GET");
    let mut uri = String::from_str("/");
    let mut version = Version::Http11;
    let (lo, hi) = ranges[0];
    let first = slice_subrange(chars.as_slice(), lo, hi);
    assert(first@ == lines_of(text@)[0]);
    if first.len() > 0 {
        let tokens = split_ranges(first, space_sep.as_slice());
        proof {
            lemma_split_has_piece(first@, space());
        }
        let ghost parts = split_on(first@, space());
        let (a, b) = tokens[0];
        let token = text_of(slice_subrange(first, a, b));
        assert(token@ == parts[0]);
        match method_text(token.as_str()) {
            Some(m) => {
                method = m;
            },
            None => {},
        }
        if tokens.len() > 1 {
            let (a, b) = tokens[1];
            let token = text_of(slice_subrange(first, a, b));
            assert(token@ == parts[1]);
            match uri_text(token.as_str()) {
                Some(u) => {
                    uri = u;
                },
                None => {},
            }
        }
        if tokens.len() > 2 {
            let (a, b) = tokens[2];
            let token = text_of(slice_subrange(first, a, b));
            assert(token@ == parts[2]);
            version = version_of_token(token.as_str());
        }
    }
    let entries = parse_header_lines(chars.as_slice(), &ranges);
    match check_headers(&entries) {
        Ok(headers) => {
            let len = body.len();
            Ok(
                Request {
                    method,
                    uri,
                    version,
                    headers,
                    body: Body { bytes: body, body: String::new(), len, ip: None },
                },
            )
        },
        Err(e) => Err(e),
    }
}

/// Decodes a buffer into a request. The request line and the header lines
/// are read with tolerance: what cannot be read is defaulted or dropped.
/// Decoding fails only where a header that was read is not accepted as one.
pub fn get_request(bytes: Vec<u8>) -> (result: Result<Request, DecodeError>)
    ensures
        decodes_to(bytes@, result),
{
    let (head, body) = split_header_body(bytes.as_slice());
    let text = decode_lossy(head);
    let body = slice_to_vec(body);
    request_from_text(text.as_str(), body)
}

} // verus!
