//! Characters of a text: finding and splitting on patterns, trimming.

use vstd::prelude::*;
use vstd::slice::slice_subrange;
use crate::pattern::{
    first_occurrence, lemma_first_occurrence, lemma_first_occurrence_is,
    lemma_first_occurrence_none, occurs_at, split_on,
};
use crate::unicode::{char_is_whitespace, is_whitespace};

verus! {

/// The line separator: CR LF.
pub open spec fn crlf() -> Seq<char> {
    seq!['\r', '\n']
}

/// `text` without the white space at its start.
pub open spec fn trim_start(text: Seq<char>) -> Seq<char>
    decreases text.len(),
{
    if text.len() > 0 && char_is_whitespace(text[0]) {
        trim_start(text.skip(1))
    } else {
        text
    }
}

/// `text` without the white space at its end.
pub open spec fn trim_end(text: Seq<char>) -> Seq<char>
    decreases text.len(),
{
    if text.len() > 0 && char_is_whitespace(text.last()) {
        trim_end(text.drop_last())
    } else {
        text
    }
}

/// `text` without the white space at its start and at its end.
pub open spec fn trim(text: Seq<char>) -> Seq<char> {
    trim_end(trim_start(text))
}

/// The lowercase form of an ASCII capital letter; any other character as it
/// is.
pub open spec fn ascii_lower(c: char) -> char {
    if 'A' <= c && c <= 'Z' {
        (c as u32 + 32) as char
    } else {
        c
    }
}

/// `text` with its ASCII capital letters in lowercase.
pub open spec fn ascii_lowered(text: Seq<char>) -> Seq<char> {
    text.map_values(|c: char| ascii_lower(c))
}

/// `text` begins with `key` when ASCII letters are compared without regard
/// to case. `key` is meant to hold no capital letters.
pub open spec fn starts_with_ignoring_case(text: Seq<char>, key: Seq<char>) -> bool {
    text.len() >= key.len() && ascii_lowered(text.take(key.len() as int)) == key
}

/// The pieces of `text` that the index pairs in `ranges` cut out.
pub open spec fn pieces(text: Seq<char>, ranges: Seq<(usize, usize)>) -> Seq<Seq<char>> {
    Seq::new(ranges.len(), |k: int| text.subrange(ranges[k].0 as int, ranges[k].1 as int))
}

/// Every pair in `ranges` is a range within a text of length `len`.
pub open spec fn ranges_within(ranges: Seq<(usize, usize)>, len: nat) -> bool {
    forall|k: int| 0 <= k < ranges.len() ==> (#[trigger] ranges[k]).0 <= ranges[k].1 <= len
}

/// The characters of `text`, one by one.
pub fn chars_of(text: &str) -> (chars: Vec<char>)
    ensures
        chars@ == text@,
{
    let mut chars: Vec<char> = Vec::new();
    for c in it: text.chars()
        invariant
            chars@ == it.seq().take(it.index() as int),
            it.seq() == text@,
    {
        chars.push(c);
    }
    chars
}

/// The string made of `chars`.
pub fn text_of(chars: &[char]) -> (text: String)
    ensures
        text@ == chars@,
{
    let mut text = String::new();
    let mut i: usize = 0;
    while i < chars.len()
        invariant
            i <= chars.len(),
            text@ == chars@.take(i as int),
        decreases chars.len() - i,
    {
        text.push(chars[i]);
        i += 1;
    }
    text
}

/// The lowercase form of an ASCII capital letter; any other character as it
/// is.
pub fn to_ascii_lower(c: char) -> (lower: char)
    ensures
        lower == ascii_lower(c),
{
    if 'A' <= c && c <= 'Z' {
        ((c as u8) + 32u8) as char
    } else {
        c
    }
}

/// Whether `text` begins with `key`, ASCII letters compared without regard
/// to case.
pub fn starts_with_ignore_case(text: &[char], key: &[char]) -> (b: bool)
    ensures
        b == starts_with_ignoring_case(text@, key@),
{
    if text.len() < key.len() {
        return false;
    }
    let ghost head = ascii_lowered(text@.take(key.len() as int));
    let mut k: usize = 0;
    while k < key.len()
        invariant
            k <= key.len() <= text.len(),
            head == ascii_lowered(text@.take(key.len() as int)),
            forall|j: int| 0 <= j < k ==> head[j] == key@[j],
        decreases key.len() - k,
    {
        if to_ascii_lower(text[k]) != key[k] {
            assert(head[k as int] != key@[k as int]);
            return false;
        }
        k += 1;
    }
    assert(head =~= key@);
    true
}

fn pattern_at(text: &[char], pat: &[char], i: usize) -> (b: bool)
    requires
        i + pat.len() <= text.len(),
    ensures
        b == occurs_at(text@, pat@, i as int),
{
    let mut k: usize = 0;
    while k < pat.len()
        invariant
            k <= pat.len(),
            i + pat.len() <= text.len(),
            forall|j: int| 0 <= j < k ==> text@[i + j] == pat@[j],
        decreases pat.len() - k,
    {
        if text[i + k] != pat[k] {
            proof {
                let w = text@.subrange(i as int, i + pat.len());
                assert(w[k as int] == text@[i + k]);
            }
            return false;
        }
        k += 1;
    }
    proof {
        assert(text@.subrange(i as int, i + pat.len()) =~= pat@);
    }
    true
}

/// The first offset at which `pat` stands in `text`.
pub fn find_first(text: &[char], pat: &[char]) -> (found: Option<usize>)
    ensures
        match found {
            Some(i) => first_occurrence(text@, pat@) == Some(i as int) && i + pat.len()
                <= text.len(),
            None => first_occurrence(text@, pat@) is None,
        },
{
    let n = text.len();
    let m = pat.len();
    if m > n {
        proof {
            lemma_first_occurrence_none(text@, pat@);
        }
        return None;
    }
    let last = n - m;
    let mut i: usize = 0;
    loop
        invariant
            n == text.len(),
            m == pat.len(),
            m <= n,
            last == n - m,
            i <= last,
            forall|j: int| 0 <= j < i ==> !occurs_at(text@, pat@, j),
        decreases last - i,
    {
        if pattern_at(text, pat, i) {
            proof {
                lemma_first_occurrence_is(text@, pat@, i as int);
            }
            return Some(i);
        }
        if i == last {
            proof {
                assert forall|j: int| !occurs_at(text@, pat@, j) by {}
                lemma_first_occurrence_none(text@, pat@);
            }
            return None;
        }
        i += 1;
    }
}

/// Splits `text` on `pat` and returns the index range of each piece.
pub fn split_ranges(text: &[char], pat: &[char]) -> (ranges: Vec<(usize, usize)>)
    requires
        pat.len() > 0,
    ensures
        ranges_within(ranges@, text@.len()),
        pieces(text@, ranges@) == split_on(text@, pat@),
{
    let mut ranges: Vec<(usize, usize)> = Vec::new();
    let mut pos: usize = 0;
    proof {
        assert(text@.skip(0) =~= text@);
        assert(pieces(text@, ranges@) + split_on(text@, pat@) =~= split_on(text@, pat@));
    }
    loop
        invariant
            pos <= text.len(),
            pat.len() > 0,
            ranges_within(ranges@, text@.len()),
            split_on(text@, pat@) == pieces(text@, ranges@) + split_on(
                text@.skip(pos as int),
                pat@,
            ),
        decreases text.len() - pos,
    {
        let rest = slice_subrange(text, pos, text.len());
        let ghost before = ranges@;
        proof {
            assert(rest@ =~= text@.skip(pos as int));
            lemma_first_occurrence(rest@, pat@);
        }
        match find_first(rest, pat) {
            Some(i) => {
                ranges.push((pos, pos + i));
                proof {
                    assert(rest@.take(i as int) =~= text@.subrange(pos as int, pos + i));
                    assert(rest@.skip(i + pat.len()) =~= text@.skip(pos + i + pat.len()));
                    assert(pieces(text@, ranges@) =~= pieces(text@, before).push(
                        rest@.take(i as int),
                    ));
                    assert(pieces(text@, before) + (seq![rest@.take(i as int)] + split_on(
                        rest@.skip(i + pat.len()),
                        pat@,
                    )) =~= pieces(text@, ranges@) + split_on(rest@.skip(i + pat.len()), pat@));
                }
                pos = pos + i + pat.len();
            },
            None => {
                ranges.push((pos, text.len()));
                proof {
                    assert(rest@ =~= text@.subrange(pos as int, text@.len() as int));
                    assert(pieces(text@, ranges@) =~= pieces(text@, before).push(rest@));
                    assert(pieces(text@, before) + seq![rest@] =~= pieces(text@, ranges@));
                }
                return ranges;
            },
        }
    }
}

/// The index range of `text` that is left when the white space at both ends
/// is taken away.
pub fn trim_range(text: &[char]) -> (range: (usize, usize))
    ensures
        range.0 <= range.1 <= text.len(),
        text@.subrange(range.0 as int, range.1 as int) == trim(text@),
{
    let n = text.len();
    let mut lo: usize = 0;
    proof {
        assert(text@.skip(0) =~= text@);
    }
    while lo < n && is_whitespace(text[lo])
        invariant
            lo <= n,
            n == text.len(),
            trim_start(text@) == trim_start(text@.skip(lo as int)),
        decreases n - lo,
    {
        proof {
            assert(text@.skip(lo as int).skip(1) =~= text@.skip(lo + 1));
        }
        lo += 1;
    }
    proof {
        assert(text@.skip(lo as int) =~= text@.subrange(lo as int, n as int));
    }
    let mut hi: usize = n;
    while lo < hi && is_whitespace(text[hi - 1])
        invariant
            lo <= hi <= n,
            n == text.len(),
            trim(text@) == trim_end(text@.subrange(lo as int, hi as int)),
        decreases hi - lo,
    {
        proof {
            assert(text@.subrange(lo as int, hi as int).drop_last() =~= text@.subrange(
                lo as int,
                hi - 1,
            ));
        }
        hi -= 1;
    }
    (lo, hi)
}

} // verus!
