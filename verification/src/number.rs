//! Decimal numbers as text: reading them and writing them.

use vstd::prelude::*;

verus! {

/// The value of a decimal digit.
pub open spec fn digit_value(c: char) -> Option<nat> {
    if '0' <= c && c <= '9' {
        Some((c as u32 - 48) as nat)
    } else {
        None
    }
}

/// The character of the digit `d`, for `d` below ten.
pub open spec fn digit_char(d: nat) -> char {
    ((d + 48) as u8) as char
}

/// The number that a non-empty run of decimal digits denotes. Anything else
/// denotes none.
pub open spec fn digits_value(digits: Seq<char>) -> Option<nat>
    decreases digits.len(),
{
    if digits.len() == 0 {
        None
    } else {
        match digit_value(digits.last()) {
            None => None,
            Some(d) => if digits.len() == 1 {
                Some(d)
            } else {
                match digits_value(digits.drop_last()) {
                    Some(high) => Some(high * 10 + d),
                    None => None,
                }
            },
        }
    }
}

/// The number that `text` denotes as an unsigned decimal of at most `max`:
/// an optional `+`, then one or more digits and nothing else.
pub open spec fn decimal_value(text: Seq<char>, max: nat) -> Option<nat> {
    let digits = if text.len() > 0 && text[0] == '+' {
        text.skip(1)
    } else {
        text
    };
    match digits_value(digits) {
        Some(v) => if v <= max {
            Some(v)
        } else {
            None
        },
        None => None,
    }
}

/// The decimal digits of `n`, without leading zeros.
pub open spec fn decimal(n: nat) -> Seq<char>
    decreases n,
{
    if n < 10 {
        seq![digit_char(n)]
    } else {
        decimal(n / 10).push(digit_char(n % 10))
    }
}

/// A run that denotes a number consists of digits only.
pub proof fn lemma_digits_are_digits(digits: Seq<char>, k: int)
    requires
        digits_value(digits) is Some,
        0 <= k < digits.len(),
    ensures
        digit_value(digits[k]) is Some,
    decreases digits.len(),
{
    if k < digits.len() - 1 {
        lemma_digits_are_digits(digits.drop_last(), k);
    }
}

/// A non-empty start of a run that denotes a number denotes a number too,
/// and no greater one.
pub proof fn lemma_digits_prefix(digits: Seq<char>, k: int)
    requires
        digits_value(digits) is Some,
        0 < k <= digits.len(),
    ensures
        digits_value(digits.take(k)) is Some,
        digits_value(digits.take(k))->0 <= digits_value(digits)->0,
    decreases digits.len(),
{
    if k == digits.len() {
        assert(digits.take(k) =~= digits);
    } else {
        assert(digits.drop_last().take(k) =~= digits.take(k));
        lemma_digits_prefix(digits.drop_last(), k);
    }
}

/// Reads `text` as an unsigned decimal of at most `max`.
pub fn parse_decimal(text: &[char], max: u64) -> (value: Option<u64>)
    ensures
        match value {
            Some(v) => decimal_value(text@, max as nat) == Some(v as nat),
            None => decimal_value(text@, max as nat) is None,
        },
{
    let n = text.len();
    let start: usize = if n > 0 && text[0] == '+' {
        1
    } else {
        0
    };
    let ghost digits = if start == 1 {
        text@.skip(1)
    } else {
        text@
    };
    assert(digits =~= text@.subrange(start as int, n as int));
    if start == n {
        return None;
    }
    let mut acc: u64 = 0;
    let mut i: usize = start;
    while i < n
        invariant
            start <= i <= n,
            start < n,
            n == text.len(),
            digits == text@.subrange(start as int, n as int),
            digits == if text@.len() > 0 && text@[0] == '+' {
                text@.skip(1)
            } else {
                text@
            },
            acc <= max,
            i > start ==> digits_value(digits.take(i - start)) == Some(acc as nat),
            i == start ==> acc == 0,
        decreases n - i,
    {
        let c = text[i];
        let ghost upto = digits.take(i + 1 - start);
        proof {
            assert(upto.last() == c);
            assert(upto.drop_last() =~= digits.take(i - start));
        }
        if !('0' <= c && c <= '9') {
            proof {
                if digits_value(digits) is Some {
                    lemma_digits_are_digits(digits, i - start);
                }
            }
            return None;
        }
        let d: u64 = (c as u32 - 48) as u64;
        let next: u128 = acc as u128 * 10 + d as u128;
        assert(digits_value(upto) == Some(next as nat));
        if next > max as u128 {
            proof {
                if digits_value(digits) is Some {
                    lemma_digits_prefix(digits, i + 1 - start);
                }
            }
            return None;
        }
        acc = next as u64;
        i += 1;
    }
    proof {
        assert(digits.take(n - start) =~= digits);
    }
    Some(acc)
}

/// Writes `n` in decimal digits.
pub fn decimal_string(n: u128) -> (text: String)
    ensures
        text@ == decimal(n as nat),
{
    let mut low: Vec<char> = Vec::new();
    let mut m: u128 = n;
    proof {
        assert(decimal(m as nat) + low@.reverse() =~= decimal(n as nat));
    }
    while m >= 10
        invariant
            decimal(n as nat) == decimal(m as nat) + low@.reverse(),
        decreases m,
    {
        let d: u8 = (m % 10) as u8;
        let ghost before = low@;
        low.push((d + 48u8) as char);
        proof {
            assert(low@.reverse() =~= seq![digit_char((m % 10) as nat)] + before.reverse());
            assert(decimal((m / 10) as nat) + low@.reverse() =~= decimal(m as nat)
                + before.reverse());
        }
        m = m / 10;
    }
    let mut text = String::new();
    text.push(((m as u8) + 48u8) as char);
    let mut k: usize = low.len();
    while k > 0
        invariant
            k <= low.len(),
            m < 10,
            text@ == decimal(m as nat) + low@.reverse().take(low.len() - k),
        decreases k,
    {
        proof {
            let r = low@.reverse();
            assert(r.take(low.len() - k + 1) =~= r.take(low.len() - k).push(low@[k - 1]));
        }
        k -= 1;
        text.push(low[k]);
    }
    proof {
        assert(low@.reverse().take(low.len() as int) =~= low@.reverse());
    }
    text
}

} // verus!
