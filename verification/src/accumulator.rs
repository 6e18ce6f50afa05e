//! The decisions of the read loop.
//!
//! The caller owns the stream. It asks the accumulator what to do, performs
//! a read under the configured timeout where a read is asked for, and hands
//! back what happened. When the accumulator asks to finish, the buffer is
//! either handed out or a failure is reported.

use std::io::ErrorKind;
use vstd::prelude::*;
use vstd::slice::slice_subrange;
use crate::length::{content_length, parse_content_length};
use crate::number::{decimal, decimal_string};
use crate::options::Options;
use crate::pattern::{lemma_first_occurrence, lemma_first_occurrence_none, lemma_first_occurrence_stays};
use crate::scan::{find_headers_end, headers_end, terminator};
use crate::unicode::{decode_lossy, utf8_lossy};

verus! {

/// What one read attempt came to.
pub enum ReadEvent {
    /// The read succeeded with these bytes. No bytes at all mean that the
    /// peer has closed the connection.
    Data(Vec<u8>),
    /// The stream had nothing ready; nothing was read and no time was lost.
    WouldBlock,
    /// The read did not complete within the timeout.
    TimedOut,
    /// The read failed for any other reason.
    Failed,
}

/// What the caller is to do next.
#[derive(Clone, Copy, Debug, PartialEq, Eq, Structural)]
pub enum ReadAction {
    /// Read once more.
    Read,
    /// Stop reading and ask for the outcome.
    Finish,
    /// Give up and report the failure of the last read as it is.
    Abort,
}

/// Why no complete message came.
#[derive(Debug)]
pub enum ReadError {
    /// Not a single byte was received.
    NoData,
    /// The header block declared more bytes than were received.
    Incomplete {
        /// The retry budget of the connection.
        retries: u8,
        /// The number of bytes received.
        received: usize,
        /// The number of bytes that the header block asked for: its own
        /// length and the declared body length.
        expected: u128,
        /// The quoted part of the data, where one was asked for.
        preview: Option<String>,
    },
}

/// What the accumulator has seen so far.
pub struct Progress {
    /// All bytes received, in order.
    pub bytes: Seq<u8>,
    /// The retries used up.
    pub retries: nat,
    /// The retry budget.
    pub max_retry: nat,
    /// Up to which offset a failure message quotes the bytes; zero for no
    /// quote.
    pub preview_limit: nat,
}

/// The state of the read loop of one connection.
pub struct Accumulator {
    bytes: Vec<u8>,
    retries: u8,
    max_retry: u8,
    preview_limit: usize,
    headers_end: Option<usize>,
    length: Option<usize>,
}

/// The number of bytes that the message in `bytes` consists of, once its
/// header block is complete and declares a body length: the offset behind
/// the header terminator and the declared length.
pub open spec fn expected_total(bytes: Seq<u8>) -> Option<nat> {
    match headers_end(bytes) {
        Some(end) => match content_length(bytes.take(end)) {
            Some(n) => Some((end + n) as nat),
            None => None,
        },
        None => None,
    }
}

/// The header block in `bytes` declares more bytes than `bytes` holds.
pub open spec fn is_short(bytes: Seq<u8>) -> bool {
    expected_total(bytes) matches Some(total) && bytes.len() < total
}

/// One retry is used up; reading goes on while the budget lasts.
pub open spec fn after_retry(p: Progress) -> (Progress, ReadAction) {
    let q = Progress { retries: p.retries + 1, ..p };
    (
        q,
        if q.retries < q.max_retry {
            ReadAction::Read
        } else {
            ReadAction::Finish
        },
    )
}

/// The state and the action that follow from `event` in state `p`.
///
/// With the budget used up nothing is read any more. Else bytes are
/// appended, and reading stops as soon as the header block is complete and
/// either declares no length or has all its bytes. A close with bytes
/// missing and a timeout cost one retry each; a close with nothing missing
/// ends the message. A stream that is not ready costs nothing, and any other
/// failure ends the reading at once.
pub open spec fn step_spec(p: Progress, event: ReadEvent) -> (Progress, ReadAction) {
    if p.retries >= p.max_retry {
        (p, ReadAction::Finish)
    } else {
        match event {
            ReadEvent::Data(chunk) => if chunk@.len() == 0 {
                if is_short(p.bytes) {
                    after_retry(p)
                } else {
                    (p, ReadAction::Finish)
                }
            } else {
                let bytes = p.bytes + chunk@;
                (
                    Progress { bytes, ..p },
                    if headers_end(bytes) is None || is_short(bytes) {
                        ReadAction::Read
                    } else {
                        ReadAction::Finish
                    },
                )
            },
            ReadEvent::WouldBlock => (p, ReadAction::Read),
            ReadEvent::TimedOut => after_retry(p),
            ReadEvent::Failed => (p, ReadAction::Abort),
        }
    }
}

/// The part of `bytes` that a failure message quotes: from behind the header
/// terminator, or from the start where there is none, up to the offset
/// `limit`, and never beyond the end.
pub open spec fn preview_bytes(bytes: Seq<u8>, limit: nat) -> Seq<u8> {
    let start = match headers_end(bytes) {
        Some(end) => end,
        None => 0,
    };
    let end = if limit <= bytes.len() {
        limit as int
    } else {
        bytes.len() as int
    };
    if start <= end {
        bytes.subrange(start, end)
    } else {
        Seq::empty()
    }
}

/// The quote in a failure message: none for a limit of zero, else the
/// quoted bytes decoded lossily as UTF-8.
pub open spec fn preview_text(bytes: Seq<u8>, limit: nat) -> Option<Seq<char>> {
    if limit == 0 {
        None
    } else {
        Some(utf8_lossy(preview_bytes(bytes, limit)))
    }
}

/// The text of a failure message.
pub open spec fn message_text(error: ReadError) -> Seq<char> {
    match error {
        ReadError::NoData => "no data"@,
        ReadError::Incomplete { retries, received, expected, preview } => {
            "Incomplete data after "@ + decimal(retries as nat) + " retries: got "@ + decimal(
                received as nat,
            ) + "/"@ + decimal(expected as nat) + " bytes"@ + match preview {
                Some(quote) => ", Data:"@ + quote@,
                None => Seq::empty(),
            }
        },
    }
}

/// Once the header block is complete, more bytes change neither where it
/// ends nor the number of bytes that the message asks for.
pub proof fn lemma_expected_total_stays(bytes: Seq<u8>, more: Seq<u8>)
    requires
        headers_end(bytes) is Some,
    ensures
        headers_end(bytes + more) == headers_end(bytes),
        expected_total(bytes + more) == expected_total(bytes),
{
    lemma_first_occurrence_stays(bytes, more, terminator());
    lemma_first_occurrence(bytes, terminator());
    let end = headers_end(bytes)->0;
    assert((bytes + more).take(end) =~= bytes.take(end));
}

/// A step never takes bytes away: what was received stays at the start of
/// the buffer, and the buffer grows by exactly the bytes of a read that is
/// taken in. A step uses up at most one retry and never more than the
/// budget holds, and leaves the budget and the quote limit alone.
pub proof fn lemma_step_keeps_what_was_read(p: Progress, event: ReadEvent)
    requires
        p.retries <= p.max_retry,
    ensures
        ({
            let q = step_spec(p, event).0;
            &&& p.bytes.is_prefix_of(q.bytes)
            &&& q.bytes == p.bytes || (event matches ReadEvent::Data(chunk) && q.bytes == p.bytes
                + chunk@)
            &&& p.retries <= q.retries <= p.retries + 1
            &&& q.retries <= q.max_retry
            &&& q.max_retry == p.max_retry
            &&& q.preview_limit == p.preview_limit
        }),
{
    let q = step_spec(p, event).0;
    assert(p.bytes.is_prefix_of(q.bytes)) by {
        if q.bytes != p.bytes {
            assert(q.bytes.subrange(0, p.bytes.len() as int) =~= p.bytes);
        } else {
            assert(p.bytes.subrange(0, p.bytes.len() as int) =~= p.bytes);
        }
    }
}

/// A read that completes a header block without a declared length ends the
/// reading at once, and costs no retry.
pub proof fn lemma_header_only_message_stops(p: Progress, chunk: Vec<u8>)
    requires
        p.retries < p.max_retry,
        chunk@.len() > 0,
        headers_end(p.bytes + chunk@) matches Some(end) && content_length(
            (p.bytes + chunk@).take(end),
        ) is None,
    ensures
        step_spec(p, ReadEvent::Data(chunk)) == (
            Progress { bytes: p.bytes + chunk@, ..p },
            ReadAction::Finish,
        ),
{
}

/// While bytes are missing, a close of the connection costs one retry, as a
/// timeout does; reading goes on until the last retry is used up and ends
/// then with the bytes still missing.
pub proof fn lemma_short_close_costs_retry(p: Progress, chunk: Vec<u8>)
    requires
        p.retries < p.max_retry,
        chunk@.len() == 0,
        is_short(p.bytes),
    ensures
        step_spec(p, ReadEvent::Data(chunk)) == step_spec(p, ReadEvent::TimedOut),
        step_spec(p, ReadEvent::Data(chunk)) == (
            Progress { retries: p.retries + 1, ..p },
            if p.retries + 1 < p.max_retry {
                ReadAction::Read
            } else {
                ReadAction::Finish
            },
        ),
        is_short(step_spec(p, ReadEvent::Data(chunk)).0.bytes),
{
}

/// A stream that is not ready costs nothing and changes nothing.
pub proof fn lemma_would_block_is_free(p: Progress)
    requires
        p.retries < p.max_retry,
    ensures
        step_spec(p, ReadEvent::WouldBlock) == (p, ReadAction::Read),
{
}


/// The event that a failed read with this kind of error stands for.
pub fn classify_read_error(kind: ErrorKind) -> (event: ReadEvent)
    ensures
        event == if kind is WouldBlock {
            ReadEvent::WouldBlock
        } else {
            ReadEvent::Failed
        },
{
    match kind {
        ErrorKind::WouldBlock => ReadEvent::WouldBlock,
        _ => ReadEvent::Failed,
    }
}

/// The part of `bytes` that a failure message quotes.
pub fn preview_slice(bytes: &[u8], limit: usize) -> (quoted: &[u8])
    ensures
        quoted@ == preview_bytes(bytes@, limit as nat),
{
    let start = match find_headers_end(bytes) {
        Some(end) => end,
        None => 0,
    };
    let end = if limit <= bytes.len() {
        limit
    } else {
        bytes.len()
    };
    if start <= end {
        slice_subrange(bytes, start, end)
    } else {
        slice_subrange(bytes, 0, 0)
    }
}

impl ReadError {
    /// The failure in words.
    pub fn message(&self) -> (text: String)
        ensures
            text@ == message_text(*self),
    {
        match self {
            ReadError::NoData => String::from_str("no data"),
            ReadError::Incomplete { retries, received, expected, preview } => {
                let mut text = String::from_str("Incomplete data after ");
                text.append(decimal_string(*retries as u128).as_str());
                text.append(" retries: got ");
                text.append(decimal_string(*received as u128).as_str());
                text.append("/");
                text.append(decimal_string(*expected).as_str());
                text.append(" bytes");
                match preview {
                    Some(quote) => {
                        text.append(", Data:");
                        text.append(quote.as_str());
                        proof {
                            let head = "Incomplete data after "@ + decimal(*retries as nat)
                                + " retries: got "@ + decimal(*received as nat) + "/"@ + decimal(
                                *expected as nat,
                            ) + " bytes"@;
                            assert(head + ", Data:"@ + quote@ =~= head + (", Data:"@ + quote@));
                        }
                    },
                    None => {
                        proof {
                            let head = "Incomplete data after "@ + decimal(*retries as nat)
                                + " retries: got "@ + decimal(*received as nat) + "/"@ + decimal(
                                *expected as nat,
                            ) + " bytes"@;
                            assert(head + Seq::<char>::empty() =~= head);
                        }
                    },
                }
                text
            },
        }
    }
}

impl View for Accumulator {
    type V = Progress;

    closed spec fn view(&self) -> Progress {
        Progress {
            bytes: self.bytes@,
            retries: self.retries as nat,
            max_retry: self.max_retry as nat,
            preview_limit: self.preview_limit as nat,
        }
    }
}

impl Accumulator {
    /// What the accumulator keeps beside its progress agrees with it.
    pub closed spec fn wf(&self) -> bool {
        &&& self.retries <= self.max_retry
        &&& match self.headers_end {
            Some(end) => headers_end(self.bytes@) == Some(end as int),
            None => headers_end(self.bytes@) is None,
        }
        &&& match self.headers_end {
            Some(end) => self.length == content_length(self.bytes@.take(end as int)),
            None => self.length is None,
        }
    }

    /// An accumulator that has read nothing yet, with the retry budget and
    /// the quote limit of `options`.
    pub fn new(options: &Options) -> (acc: Accumulator)
        ensures
            acc.wf(),
            acc@ == (Progress {
                bytes: Seq::empty(),
                retries: 0,
                max_retry: options.read_max_retry as nat,
                preview_limit: options.read_imcomplete_size as nat,
            }),
    {
        let bytes: Vec<u8> = Vec::new();
        proof {
            lemma_first_occurrence_none(bytes@, terminator());
        }
        Accumulator {
            bytes,
            retries: 0,
            max_retry: options.read_max_retry,
            preview_limit: options.read_imcomplete_size,
            headers_end: None,
            length: None,
        }
    }

    /// What to do first: read, unless the budget allows for no attempt.
    pub fn start(&self) -> (action: ReadAction)
        requires
            self.wf(),
        ensures
            action == if self@.retries < self@.max_retry {
                ReadAction::Read
            } else {
                ReadAction::Finish
            },
    {
        if self.retries < self.max_retry {
            ReadAction::Read
        } else {
            ReadAction::Finish
        }
    }

    /// The bytes received so far.
    pub fn bytes(&self) -> (bytes: &[u8])
        ensures
            bytes@ == self@.bytes,
    {
        self.bytes.as_slice()
    }

    /// The retries used up so far.
    pub fn retries(&self) -> (retries: u8)
        ensures
            retries == self@.retries,
    {
        self.retries
    }

    fn short(&self) -> (b: bool)
        requires
            self.wf(),
        ensures
            b == is_short(self.bytes@),
    {
        match (self.headers_end, self.length) {
            (Some(end), Some(n)) => self.bytes.len() - end < n,
            _ => false,
        }
    }

    fn retry(&mut self) -> (action: ReadAction)
        requires
            old(self).wf(),
            old(self).retries < old(self).max_retry,
        ensures
            final(self).wf(),
            (final(self)@, action) == after_retry(old(self)@),
    {
        self.retries = self.retries + 1;
        if self.retries < self.max_retry {
            ReadAction::Read
        } else {
            ReadAction::Finish
        }
    }

    /// Takes in what one read attempt came to, and says what to do next.
    pub fn step(&mut self, event: ReadEvent) -> (action: ReadAction)
        requires
            old(self).wf(),
        ensures
            final(self).wf(),
            (final(self)@, action) == step_spec(old(self)@, event),
    {
        if self.retries >= self.max_retry {
            return ReadAction::Finish;
        }
        match event {
            ReadEvent::Data(chunk) => {
                if chunk.len() == 0 {
                    if self.short() {
                        self.retry()
                    } else {
                        ReadAction::Finish
                    }
                } else {
                    let ghost before = self.bytes@;
                    let mut chunk = chunk;
                    self.bytes.append(&mut chunk);
                    match self.headers_end {
                        Some(end) => {
                            proof {
                                lemma_first_occurrence_stays(
                                    before,
                                    self.bytes@.skip(before.len() as int),
                                    terminator(),
                                );
                                assert(before + self.bytes@.skip(before.len() as int)
                                    =~= self.bytes@);
                                assert(self.bytes@.take(end as int) =~= before.take(end as int));
                            }
                        },
                        None => {
                            match find_headers_end(self.bytes.as_slice()) {
                                Some(end) => {
                                    let head = slice_subrange(self.bytes.as_slice(), 0, end);
                                    assert(head@ =~= self.bytes@.take(end as int));
                                    self.length = parse_content_length(head);
                                    self.headers_end = Some(end);
                                },
                                None => {},
                            }
                        },
                    }
                    if self.headers_end.is_none() || self.short() {
                        ReadAction::Read
                    } else {
                        ReadAction::Finish
                    }
                }
            },
            ReadEvent::WouldBlock => ReadAction::Read,
            ReadEvent::TimedOut => self.retry(),
            ReadEvent::Failed => ReadAction::Abort,
        }
    }

    /// The outcome of the reading: the buffer, unless nothing was received
    /// or the header block declared more bytes than were received.
    pub fn finish(self) -> (outcome: Result<Vec<u8>, ReadError>)
        requires
            self.wf(),
        ensures
            match outcome {
                Ok(bytes) => bytes@ == self@.bytes && bytes@.len() > 0 && !is_short(bytes@),
                Err(ReadError::NoData) => self@.bytes.len() == 0,
                Err(ReadError::Incomplete { retries, received, expected, preview }) => {
                    &&& self@.bytes.len() > 0
                    &&& is_short(self@.bytes)
                    &&& retries == self@.max_retry
                    &&& received == self@.bytes.len()
                    &&& Some(expected as nat) == expected_total(self@.bytes)
                    &&& match preview {
                        Some(quote) => preview_text(self@.bytes, self@.preview_limit) == Some(
                            quote@,
                        ),
                        None => preview_text(self@.bytes, self@.preview_limit) is None,
                    }
                },
            },
    {
        if self.bytes.len() == 0 {
            return Err(ReadError::NoData);
        }
        match (self.headers_end, self.length) {
            (Some(end), Some(n)) => {
                if self.bytes.len() - end < n {
                    let preview = if self.preview_limit == 0 {
                        None
                    } else {
                        Some(decode_lossy(preview_slice(self.bytes.as_slice(), self.preview_limit)))
                    };
                    return Err(
                        ReadError::Incomplete {
                            retries: self.max_retry,
                            received: self.bytes.len(),
                            expected: end as u128 + n as u128,
                            preview,
                        },
                    );
                }
            },
            _ => {},
        }
        Ok(self.bytes)
    }
}

} // verus!
