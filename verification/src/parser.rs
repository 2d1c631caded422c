//! Parsing: for now, the lexer and the numeric-literal helpers. The
//! grammar-level parser is a placeholder.
use vstd::prelude::*;
use vstd::string::StrSliceExecFns;

use crate::parser::scan::{
    char_digit_val, char_is_digit_of, digit_val, digits_val, is_digit_of, scan_digits,
};

pub mod error;
pub mod lexer;
pub mod scan;
pub mod token;

verus! {

/// Strips a recognized radix prefix (`0x`/`0X`, `0o`/`0O`, `0b`/`0B`) off
/// integer literal text, giving the radix and the remaining digits; text
/// without a prefix is decimal.
pub open spec fn strip_radix_prefix(s: Seq<char>) -> (u32, Seq<char>) {
    if s.len() >= 2 && s[0] == '0' && (s[1] == 'x' || s[1] == 'X') {
        (16u32, s.skip(2))
    } else if s.len() >= 2 && s[0] == '0' && (s[1] == 'o' || s[1] == 'O') {
        (8u32, s.skip(2))
    } else if s.len() >= 2 && s[0] == '0' && (s[1] == 'b' || s[1] == 'B') {
        (2u32, s.skip(2))
    } else {
        (10u32, s)
    }
}

/// The unbounded integer value of literal text: the radix selected by the
/// prefix, applied to the digits after it. `None` exactly when the remainder
/// is empty or holds a character that is not a digit of that radix.
pub open spec fn int_value_of(s: Seq<char>) -> Option<int> {
    let (radix, digits) = strip_radix_prefix(s);
    if digits.len() > 0 && (forall|j: int| 0 <= j < digits.len() ==> is_digit_of(digits[j], radix)) {
        Some(digits_val(digits, radix))
    } else {
        None
    }
}

/// A digit run never has a negative value.
pub proof fn lemma_digits_val_nonneg(digits: Seq<char>, radix: u32)
    ensures
        digits_val(digits, radix) >= 0,
    decreases digits.len(),
{
    if digits.len() > 0 {
        lemma_digits_val_nonneg(digits.drop_last(), radix);
        assert(digits_val(digits.drop_last(), radix) * radix >= 0) by (nonlinear_arith)
            requires
                digits_val(digits.drop_last(), radix) >= 0,
                radix >= 0,
        ;
    }
}

/// Appending a digit never shrinks the value of a digit run.
proof fn lemma_digits_val_grows(digits: Seq<char>, radix: u32, k: int)
    requires
        radix >= 2,
        0 <= k < digits.len(),
    ensures
        digits_val(digits.take(k + 1), radix) >= digits_val(digits.take(k), radix),
{
    let prefix = digits.take(k);
    let extended = digits.take(k + 1);
    assert(extended.drop_last() =~= prefix);
    assert(extended.last() == digits[k]);
    lemma_digits_val_nonneg(prefix, radix);
    assert(digits_val(prefix, radix) * radix >= digits_val(prefix, radix)) by (nonlinear_arith)
        requires
            digits_val(prefix, radix) >= 0,
            radix >= 2,
    ;
}

/// Integer literal text composed of a radix prefix and a non-empty run of
/// digits valid in that radix parses back to the digits' value.
pub proof fn lemma_int_value_of_prefixed(digits: Seq<char>, radix: u32, prefix: Seq<char>)
    requires
        digits.len() > 0,
        forall|j: int| 0 <= j < digits.len() ==> is_digit_of(digits[j], radix),
        (radix == 16 && prefix == "0x"@) || (radix == 8 && prefix == "0o"@) || (radix == 2
            && prefix == "0b"@),
    ensures
        int_value_of(prefix + digits) == Some(digits_val(digits, radix)),
{
    reveal_strlit("0x");
    reveal_strlit("0o");
    reveal_strlit("0b");
    let s = prefix + digits;
    assert(s.skip(2) =~= digits);
}

/// Integer literal text that is a non-empty run of decimal digits parses to
/// their base-10 value: a decimal digit can never open a radix prefix.
pub proof fn lemma_int_value_of_decimal(digits: Seq<char>)
    requires
        digits.len() > 0,
        forall|j: int| 0 <= j < digits.len() ==> is_digit_of(digits[j], 10),
    ensures
        int_value_of(digits) == Some(digits_val(digits, 10)),
{
    if digits.len() >= 2 {
        assert(is_digit_of(digits[1], 10));
        assert(digits.skip(0) =~= digits);
    }
}

/// Strips a recognized prefix and parses the remainder in that radix.
/// Returns `None` when the remainder is not a non-empty run of digits of
/// that radix — which never happens for text the scanner itself produced —
/// or when the value does not fit in an `i32`.
pub fn parse_int_value(value: &str) -> (result: Option<i32>)
    ensures
        match int_value_of(value@) {
            Some(v) => if v <= i32::MAX {
                result == Some(v as i32)
            } else {
                result is None
            },
            None => result is None,
        },
{
    let ghost s = value@;
    let n = value.unicode_len();
    let (radix, start): (u32, usize) = if n >= 2 && value.get_char(0) == '0' {
        let marker = value.get_char(1);
        if marker == 'x' || marker == 'X' {
            (16u32, 2usize)
        } else if marker == 'o' || marker == 'O' {
            (8u32, 2usize)
        } else if marker == 'b' || marker == 'B' {
            (2u32, 2usize)
        } else {
            (10u32, 0usize)
        }
    } else {
        (10u32, 0usize)
    };
    let ghost digits = strip_radix_prefix(s).1;
    proof {
        assert(strip_radix_prefix(s).0 == radix);
        assert(digits =~= s.skip(start as int));
    }
    if n == start {
        return None;
    }
    let mut i: usize = start;
    let mut acc: u64 = 0;
    let mut over: bool = false;
    while i < n
        invariant
            start <= i <= n,
            n == s.len(),
            s == value@,
            radix == 2 || radix == 8 || radix == 10 || radix == 16,
            digits == s.skip(start as int),
            strip_radix_prefix(s) == (radix, digits),
            forall|j: int| 0 <= j < i - start ==> is_digit_of(digits[j], radix),
            !over ==> acc == digits_val(digits.take(i - start), radix) && acc <= i32::MAX as u64,
            over ==> digits_val(digits.take(i - start), radix) > i32::MAX,
        decreases n - i,
    {
        let c = value.get_char(i);
        let ghost k = i - start;
        proof {
            assert(digits[k] == s[i as int]);
        }
        if !char_is_digit_of(c, radix) {
            return None;
        }
        let d = char_digit_val(c);
        proof {
            assert(digits.take(k + 1).drop_last() =~= digits.take(k));
            assert(digits.take(k + 1).last() == digits[k]);
        }
        if !over {
            proof {
                assert(acc <= 0x7fff_ffffu64);
                assert(radix <= 16);
                assert(d <= 15);
            }
            let grown: u64 = acc * (radix as u64) + (d as u64);
            proof {
                assert(digits_val(digits.take(k + 1), radix) == digits_val(
                    digits.take(k),
                    radix,
                ) * radix + digit_val(digits[k]));
            }
            if grown > i32::MAX as u64 {
                over = true;
            } else {
                acc = grown;
            }
        } else {
            proof {
                lemma_digits_val_grows(digits, radix, k);
                lemma_digits_val_nonneg(digits.take(k), radix);
            }
        }
        i += 1;
    }
    proof {
        assert(digits.take(n - start) =~= digits);
    }
    if over {
        None
    } else {
        Some(acc as i32)
    }
}

} // verus!
