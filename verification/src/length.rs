//! The body length that a header block declares.

use vstd::prelude::*;
use vstd::slice::slice_subrange;
use crate::number::{decimal_value, parse_decimal};
use crate::pattern::{first_occurrence, split_on};
use crate::text::{
    chars_of, crlf, find_first, pieces, ranges_within, split_ranges, starts_with_ignore_case,
    starts_with_ignoring_case, trim, trim_range,
};
use crate::unicode::{decode_lossy, utf8_lossy};

verus! {

/// The name of the length header with its colon, in lowercase.
pub open spec fn content_length_key() -> Seq<char> {
    seq!['c', 'o', 'n', 't', 'e', 'n', 't', '-', 'l', 'e', 'n', 'g', 't', 'h', ':']
}

/// `line` is a length header: it begins with `content-length:`, in any mix
/// of upper and lower case.
pub open spec fn names_content_length(line: Seq<char>) -> bool {
    starts_with_ignoring_case(line, content_length_key())
}

/// The value field of a length header: what stands between the colon behind
/// the name and the next colon, or the end of the line.
pub open spec fn length_field(line: Seq<char>) -> Seq<char> {
    let rest = line.skip(content_length_key().len() as int);
    match first_occurrence(rest, seq![':']) {
        Some(j) => rest.take(j),
        None => rest,
    }
}

/// The length that a length header declares: its value field, trimmed, read
/// as an unsigned decimal that fits the machine word.
pub open spec fn declared_length(line: Seq<char>) -> Option<usize> {
    match decimal_value(trim(length_field(line)), usize::MAX as nat) {
        Some(v) => Some(v as usize),
        None => None,
    }
}

/// What the first length header among `lines` declares. Later length
/// headers are not looked at, whether the first one can be read or not.
pub open spec fn first_declared_length(lines: Seq<Seq<char>>) -> Option<usize>
    decreases lines.len(),
{
    if lines.len() == 0 {
        None
    } else if names_content_length(lines[0]) {
        declared_length(lines[0])
    } else {
        first_declared_length(lines.skip(1))
    }
}

/// The body length that the header text declares.
pub open spec fn text_content_length(text: Seq<char>) -> Option<usize> {
    first_declared_length(split_on(text, crlf()))
}

/// The body length that the header bytes declare, once they are decoded
/// lossily as UTF-8.
pub open spec fn content_length(headers: Seq<u8>) -> Option<usize> {
    text_content_length(utf8_lossy(headers))
}

/// Lines among which none is a length header declare no length.
pub proof fn lemma_no_length_header(lines: Seq<Seq<char>>)
    requires
        forall|k: int| 0 <= k < lines.len() ==> !names_content_length(#[trigger] lines[k]),
    ensures
        first_declared_length(lines) is None,
    decreases lines.len(),
{
    if lines.len() > 0 {
        assert(!names_content_length(lines[0]));
        assert forall|k: int| 0 <= k < lines.skip(1).len() implies !names_content_length(
            #[trigger] lines.skip(1)[k],
        ) by {
            assert(lines.skip(1)[k] == lines[k + 1]);
        }
        lemma_no_length_header(lines.skip(1));
    }
}

/// The first length header decides: the lines declare what it declares, its
/// number where its value is one, and nothing where it is not.
pub proof fn lemma_first_length_header(lines: Seq<Seq<char>>, k: int)
    requires
        0 <= k < lines.len(),
        names_content_length(lines[k]),
        forall|j: int| 0 <= j < k ==> !names_content_length(#[trigger] lines[j]),
    ensures
        first_declared_length(lines) == declared_length(lines[k]),
    decreases k,
{
    if k > 0 {
        assert(!names_content_length(lines[0]));
        assert forall|j: int| 0 <= j < k - 1 implies !names_content_length(
            #[trigger] lines.skip(1)[j],
        ) by {
            assert(lines.skip(1)[j] == lines[j + 1]);
        }
        assert(lines.skip(1)[k - 1] == lines[k]);
        lemma_first_length_header(lines.skip(1), k - 1);
    }
}

fn length_of_line(line: &[char]) -> (length: Option<usize>)
    requires
        names_content_length(line@),
    ensures
        length == declared_length(line@),
{
    let rest = slice_subrange(line, 15, line.len());
    let colon: Vec<char> = vec![':'];
    assert(colon@ =~= seq![':']);
    assert(rest@ =~= line@.skip(15));
    let field = match find_first(rest, colon.as_slice()) {
        Some(j) => slice_subrange(rest, 0, j),
        None => rest,
    };
    assert(field@ =~= length_field(line@));
    let (lo, hi) = trim_range(field);
    let value = slice_subrange(field, lo, hi);
    match parse_decimal(value, usize::MAX as u64) {
        Some(v) => Some(v as usize),
        None => None,
    }
}

/// Reads the declared body length out of decoded header text.
pub fn content_length_of_text(text: &str) -> (length: Option<usize>)
    ensures
        length == text_content_length(text@),
{
    let chars = chars_of(text);
    let sep: Vec<char> = vec!['\r', '\n'];
    assert(sep@ =~= crlf());
    let key: Vec<char> = vec![
        'c',
        'o',
        'n',
        't',
        'e',
        'n',
        't',
        '-',
        'l',
        'e',
        'n',
        'g',
        't',
        'h',
        ':',
    ];
    assert(key@ =~= content_length_key());
    let ranges = split_ranges(chars.as_slice(), sep.as_slice());
    let ghost lines = split_on(text@, crlf());
    let mut k: usize = 0;
    assert(lines.skip(0) =~= lines);
    while k < ranges.len()
        invariant
            k <= ranges.len(),
            chars@ == text@,
            key@ == content_length_key(),
            lines == split_on(text@, crlf()),
            lines == pieces(chars@, ranges@),
            ranges_within(ranges@, chars@.len()),
            first_declared_length(lines) == first_declared_length(lines.skip(k as int)),
        decreases ranges.len() - k,
    {
        let (lo, hi) = ranges[k];
        let line = slice_subrange(chars.as_slice(), lo, hi);
        proof {
            assert(line@ == lines[k as int]);
            assert(lines.skip(k as int)[0] == lines[k as int]);
            assert(lines.skip(k as int).skip(1) =~= lines.skip(k + 1));
        }
        if starts_with_ignore_case(line, key.as_slice()) {
            return length_of_line(line);
        }
        k += 1;
    }
    None
}

/// Reads the declared body length out of the raw header bytes: the first
/// line that begins with `content-length:`, in any case, decides. Its value
/// is returned where it is an unsigned decimal, and nothing where it is not
/// or where no such line exists.
pub fn parse_content_length(headers: &[u8]) -> (length: Option<usize>)
    ensures
        length == content_length(headers@),
{
    let text = decode_lossy(headers);
    content_length_of_text(text.as_str())
}

} // verus!
