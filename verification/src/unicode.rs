//! What the standard library knows about Unicode text. The results of these
//! calls are taken on trust; everything built on them is verified.

use vstd::prelude::*;

verus! {

/// The text that lossy UTF-8 decoding gives for `bytes`: well-formed
/// sequences decode to their characters, and each malformed stretch becomes
/// U+FFFD.
pub uninterp spec fn utf8_lossy(bytes: Seq<u8>) -> Seq<char>;

/// The lowercase form of `text` under the Unicode rules.
pub uninterp spec fn unicode_lowercase(text: Seq<char>) -> Seq<char>;

/// Whether `c` has the Unicode property White_Space.
pub uninterp spec fn char_is_whitespace(c: char) -> bool;

/// `String::from_utf8_lossy`, with the result owned. The result is a
/// function of the bytes alone; it is known here only by its name.
#[verifier::external_body]
pub(crate) fn decode_lossy(bytes: &[u8]) -> (text: String)
    ensures
        text@ == utf8_lossy(bytes@),
{
    String::from_utf8_lossy(bytes).into_owned()
}

/// `str::to_lowercase`. The result is a function of the text alone; it is
/// known here only by its name.
#[verifier::external_body]
pub(crate) fn lowercase(text: &str) -> (lower: String)
    ensures
        lower@ == unicode_lowercase(text@),
{
    text.to_lowercase()
}

/// `char::is_whitespace`. The answer is a function of the character alone;
/// it is known here only by its name.
#[verifier::external_body]
pub(crate) fn is_whitespace(c: char) -> (b: bool)
    ensures
        b == char_is_whitespace(c),
{
    c.is_whitespace()
}

/// `String::push` appends one character to the end of the string.
pub assume_specification[ String::push ](s: &mut String, c: char)
    ensures
        final(s)@ == old(s)@.push(c),
;

} // verus!
