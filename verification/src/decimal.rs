//! Unsigned decimal numerals, as the engine's settings are written.

use vstd::prelude::*;
use vstd::string::*;
use vstd::utf8::is_ascii_chars;

verus! {

/// The plus sign, as a byte.
const PLUS: u8 = 43;

/// The digit zero, as a byte.
const ZERO: u8 = 48;

/// The digit nine, as a byte.
const NINE: u8 = 57;

/// Whether `c` is one of the ten ASCII digits.
pub open spec fn is_digit(c: char) -> bool {
    '0' <= c && c <= '9'
}

/// The number that an ASCII digit stands for.
pub open spec fn digit_value(c: char) -> nat
    recommends
        is_digit(c),
{
    (c as int - '0' as int) as nat
}

/// Whether every character of `s` is an ASCII digit.
pub open spec fn all_digits(s: Seq<char>) -> bool {
    forall|i: int| 0 <= i < s.len() ==> is_digit(#[trigger] s[i])
}

/// The number that a string of digits denotes in base ten. Leading zeros
/// count for nothing; the empty string denotes zero.
pub open spec fn digits_value(s: Seq<char>) -> nat
    decreases s.len(),
{
    if s.len() == 0 {
        0
    } else {
        10 * digits_value(s.drop_last()) + digit_value(s.last())
    }
}

/// A numeral without its optional leading plus sign.
pub open spec fn unsigned_part(s: Seq<char>) -> Seq<char> {
    if s.len() > 0 && s[0] == '+' {
        s.skip(1)
    } else {
        s
    }
}

/// Whether `s` is a numeral: an optional plus sign, then one digit or more
/// and nothing else. No white space, no minus sign, no underscore.
pub open spec fn is_numeral(s: Seq<char>) -> bool {
    unsigned_part(s).len() > 0 && all_digits(unsigned_part(s))
}

/// The number a numeral denotes.
pub open spec fn numeral_value(s: Seq<char>) -> nat
    recommends
        is_numeral(s),
{
    digits_value(unsigned_part(s))
}

/// What parsing `s` as a `usize` gives: the number it denotes, if it is a
/// numeral and the number fits.
pub open spec fn parsed_usize(s: Seq<char>) -> Option<usize> {
    if is_numeral(s) && numeral_value(s) <= usize::MAX {
        Some(numeral_value(s) as usize)
    } else {
        None
    }
}

/// A string of digits denotes at least what any of its prefixes denotes.
pub proof fn lemma_prefix_value_le(s: Seq<char>, k: int)
    requires
        0 <= k <= s.len(),
    ensures
        digits_value(s.take(k)) <= digits_value(s),
    decreases s.len(),
{
    if k == s.len() {
        assert(s.take(k) =~= s);
    } else {
        lemma_prefix_value_le(s.drop_last(), k);
        assert(s.drop_last().take(k) =~= s.take(k));
    }
}

/// Reads `s` as a `usize`: the number that `s` denotes if `s` is a numeral
/// and the number fits, and `None` otherwise. This is how the standard
/// library reads a `usize` from a string.
pub fn parse_usize(s: &str) -> (r: Option<usize>)
    ensures
        r == parsed_usize(s@),
{
    if !s.is_ascii() {
        proof {
            let i = choose|i: int| 0 <= i < s@.len() && !('\0' <= #[trigger] s@[i] <= '\u{7f}');
            if s@[0] == '+' {
                assert(unsigned_part(s@)[i - 1] == s@[i]);
            }
        }
        return None;
    }
    let bytes = s.as_bytes();
    proof {
        is_ascii_spec_bytes(s);
    }
    let n = bytes.len();
    let mut i: usize = 0;
    if n > 0 && bytes[0] == PLUS {
        i = 1;
    }
    if i == n {
        return None;
    }
    let ghost start = i as int;
    let ghost digits = unsigned_part(s@);
    assert(digits =~= s@.skip(start));
    let mut acc: usize = 0;
    while i < n
        invariant
            0 <= start <= i <= n,
            n == s@.len(),
            n == bytes@.len(),
            forall|j: int| 0 <= j < n ==> bytes@[j] == s@[j] as u8,
            is_ascii_chars(s@),
            digits == s@.skip(start),
            digits == unsigned_part(s@),
            all_digits(digits.take(i - start)),
            acc == digits_value(digits.take(i - start)),
        decreases n - i,
    {
        let b = bytes[i];
        let ghost c = s@[i as int];
        assert(c == digits[i - start]);
        assert('\0' <= c <= '\u{7f}');
        if b < ZERO || b > NINE {
            assert(!is_digit(digits[i - start]));
            return None;
        }
        let d: usize = (b - ZERO) as usize;
        assert(is_digit(c) && d == digit_value(c));
        proof {
            let next = digits.take(i + 1 - start);
            assert(next.drop_last() =~= digits.take(i - start));
            assert(next.last() == c);
            assert(all_digits(next));
            lemma_prefix_value_le(digits, i + 1 - start);
        }
        if acc > (usize::MAX - d) / 10 {
            proof {
                if all_digits(digits) {
                    assert(digits_value(digits) > usize::MAX);
                }
            }
            return None;
        }
        acc = acc * 10 + d;
        i = i + 1;
    }
    assert(digits.take(i - start) =~= digits);
    Some(acc)
}

} // verus!
