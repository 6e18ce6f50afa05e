//! The boundary between the header block and the body.

use vstd::prelude::*;
use crate::pattern::{first_occurrence, is_first_occurrence, lemma_first_occurrence_is, lemma_first_occurrence_none, occurs_at};

verus! {

/// The blank line that ends the header block: CR LF CR LF.
pub open spec fn terminator() -> Seq<u8> {
    seq![13u8, 10u8, 13u8, 10u8]
}

/// The offset just behind the first header terminator in `data`, if it holds
/// one.
pub open spec fn headers_end(data: Seq<u8>) -> Option<int> {
    match first_occurrence(data, terminator()) {
        Some(i) => Some(i + 4),
        None => None,
    }
}

/// The bytes of the header block: what precedes the first terminator.
/// Without a terminator there is no header block.
pub open spec fn header_part(data: Seq<u8>) -> Seq<u8> {
    match headers_end(data) {
        Some(end) => data.take(end - 4),
        None => Seq::empty(),
    }
}

/// The bytes of the body: what follows the first terminator. Without a
/// terminator everything is body.
pub open spec fn body_part(data: Seq<u8>) -> Seq<u8> {
    match headers_end(data) {
        Some(end) => data.skip(end),
        None => data,
    }
}

fn terminator_at(data: &[u8], i: usize) -> (b: bool)
    requires
        i + 4 <= data.len(),
    ensures
        b == occurs_at(data@, terminator(), i as int),
{
    let b = data[i] == 13u8 && data[i + 1] == 10u8 && data[i + 2] == 13u8 && data[i + 3] == 10u8;
    proof {
        let w = data@.subrange(i as int, i + 4);
        if b {
            assert(w =~= terminator());
        } else {
            assert(w[0] == data@[i as int]);
            assert(w[1] == data@[i + 1]);
            assert(w[2] == data@[i + 2]);
            assert(w[3] == data@[i + 3]);
        }
    }
    b
}

/// Scans `data` for the first CR LF CR LF and returns the offset just behind
/// it.
pub fn find_headers_end(data: &[u8]) -> (end: Option<usize>)
    ensures
        end is None <==> forall|i: int| !occurs_at(data@, terminator(), i),
        end matches Some(e) ==> 4 <= e <= data.len() && is_first_occurrence(
            data@,
            terminator(),
            e - 4,
        ),
        match end {
            Some(e) => headers_end(data@) == Some(e as int),
            None => headers_end(data@) is None,
        },
{
    let n = data.len();
    let mut i: usize = 0;
    while n >= 4 && i <= n - 4
        invariant
            n == data.len(),
            forall|j: int| 0 <= j < i ==> !occurs_at(data@, terminator(), j),
        decreases n - i,
    {
        if terminator_at(data, i) {
            proof {
                lemma_first_occurrence_is(data@, terminator(), i as int);
            }
            return Some(i + 4);
        }
        i += 1;
    }
    proof {
        assert forall|j: int| !occurs_at(data@, terminator(), j) by {}
        lemma_first_occurrence_none(data@, terminator());
    }
    None
}

/// Splits `data` at the first header terminator into header bytes and body
/// bytes. The terminator itself belongs to neither.
pub fn split_header_body(data: &[u8]) -> (parts: (&[u8], &[u8]))
    ensures
        parts.0@ == header_part(data@),
        parts.1@ == body_part(data@),
{
    match find_headers_end(data) {
        Some(end) => {
            let head = vstd::slice::slice_subrange(data, 0, end - 4);
            let body = vstd::slice::slice_subrange(data, end, data.len());
            (head, body)
        },
        None => {
            let head = vstd::slice::slice_subrange(data, 0, 0);
            (head, data)
        },
    }
}

} // verus!
