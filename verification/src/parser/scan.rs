//! The mathematical model of the scanner.
//!
//! Everything here is specification-level: pure functions over a `Seq<char>`
//! of source text that say, position by position, what the executable lexer
//! must produce. [`spec_step`] gives the outcome of one scan step,
//! [`spec_next`] the next token from a position, and [`spec_tokens`] the
//! whole token stream. The executable code in [`crate::parser::lexer`] is
//! proved to agree with these functions exactly.
use vstd::prelude::*;

use crate::parser::error::{LexerErrorKind, LexerErrorView};
use crate::parser::token::{keyword_of, TokenView};

verus! {

/// A token at spec level: start position, kind, end position.
pub type SpannedTokenView = (int, TokenView, int);

/// The outcome of one scan step: a token was produced, input was consumed
/// silently (whitespace), or the scan failed.
pub enum StepResult {
    Token { next: int, token: SpannedTokenView },
    Skip { next: int },
    Fail { err: LexerErrorView },
}

// ---------------------------------------------------------------------------
// Character classes
// ---------------------------------------------------------------------------
/// Characters that may start a name: `_` or an ASCII lowercase letter.
pub open spec fn is_name_start(c: char) -> bool {
    c == '_' || ('a' as u32 <= c as u32 && c as u32 <= 'z' as u32)
}

/// Characters that may continue a name: `_`, ASCII letters, ASCII digits.
pub open spec fn is_name_cont(c: char) -> bool {
    c == '_' || ('a' as u32 <= c as u32 && c as u32 <= 'z' as u32) || ('A' as u32 <= c as u32
        && c as u32 <= 'Z' as u32) || ('0' as u32 <= c as u32 && c as u32 <= '9' as u32)
}

/// Digits of the given radix (2, 8, 10 or 16); radix 16 accepts letters of
/// either case.
pub open spec fn is_digit_of(c: char, radix: u32) -> bool {
    if radix == 16 {
        ('0' as u32 <= c as u32 && c as u32 <= '9' as u32) || ('a' as u32 <= c as u32 && c as u32
            <= 'f' as u32) || ('A' as u32 <= c as u32 && c as u32 <= 'F' as u32)
    } else {
        '0' as u32 <= c as u32 && (c as u32) < ('0' as u32 + radix)
    }
}

/// The numeric value of a digit character.
pub open spec fn digit_val(c: char) -> int {
    if '0' as u32 <= c as u32 && c as u32 <= '9' as u32 {
        c as u32 - '0' as u32
    } else if 'a' as u32 <= c as u32 && c as u32 <= 'f' as u32 {
        c as u32 - 'a' as u32 + 10
    } else if 'A' as u32 <= c as u32 && c as u32 <= 'F' as u32 {
        c as u32 - 'A' as u32 + 10
    } else {
        0
    }
}

/// Blank characters the scanner consumes without producing a token.
pub open spec fn is_blank(c: char) -> bool {
    c == ' ' || c == '\t' || c == '\x0C'
}

// ---------------------------------------------------------------------------
// Digit runs and numeric values
// ---------------------------------------------------------------------------
/// Scans a maximal run of digits of `radix` starting at `p`, allowing `_` as
/// a separator only when the character after it is another digit of that
/// radix. Returns the position after the run and the digit characters kept
/// (separators dropped).
pub open spec fn scan_digits(s: Seq<char>, p: int, radix: u32) -> (int, Seq<char>)
    decreases s.len() - p,
{
    if p < 0 || p >= s.len() {
        (p, Seq::<char>::empty())
    } else if is_digit_of(s[p], radix) {
        let (end, digits) = scan_digits(s, p + 1, radix);
        (end, seq![s[p]] + digits)
    } else if s[p] == '_' && p + 1 < s.len() && is_digit_of(s[p + 1], radix) {
        scan_digits(s, p + 1, radix)
    } else {
        (p, Seq::<char>::empty())
    }
}

/// The value of a digit run read in the given radix.
pub open spec fn digits_val(digits: Seq<char>, radix: u32) -> int
    decreases digits.len(),
{
    if digits.len() == 0 {
        0
    } else {
        digits_val(digits.drop_last(), radix) * radix + digit_val(digits.last())
    }
}

/// Saturates an unbounded integer literal value at the largest `i32`.
pub open spec fn clamp_to_i32(v: int) -> int {
    if v > i32::MAX {
        i32::MAX as int
    } else {
        v
    }
}

// ---------------------------------------------------------------------------
// Names
// ---------------------------------------------------------------------------
/// The end of the name that starts at `p`: the first position at or after
/// `p` that does not continue a name.
pub open spec fn scan_name_end(s: Seq<char>, p: int) -> int
    decreases s.len() - p,
{
    if 0 <= p < s.len() && is_name_cont(s[p]) {
        scan_name_end(s, p + 1)
    } else {
        p
    }
}

/// Classifies scanned name text: a keyword if the whole text matches one,
/// otherwise a discard name when it starts with `_`, otherwise a plain name.
pub open spec fn name_token(text: Seq<char>) -> TokenView {
    match keyword_of(text) {
        Some(token) => token,
        None => if text.len() > 0 && text[0] == '_' {
            TokenView::DiscardName { name: text }
        } else {
            TokenView::Name { name: text }
        },
    }
}

// ---------------------------------------------------------------------------
// String literals
// ---------------------------------------------------------------------------
/// What an escaped character decodes to: the recognized escapes map to their
/// control or literal character, anything else is kept as the two-character
/// sequence.
pub open spec fn escape_seq(c: char) -> Seq<char> {
    if c == 'n' {
        seq!['\n']
    } else if c == 'r' {
        seq!['\r']
    } else if c == 't' {
        seq!['\t']
    } else if c == 'f' {
        seq!['\x0C']
    } else if c == '\\' {
        seq!['\\']
    } else if c == '"' {
        seq!['"']
    } else {
        seq!['\\', c]
    }
}

/// Scans the interior of a string literal from `q` (just after the opening
/// quote) to the closing quote. Returns the position after the closing quote
/// and the decoded contents, or fails when the input ends first.
pub open spec fn scan_string_body(s: Seq<char>, q: int) -> Result<(int, Seq<char>), ()>
    decreases s.len() - q,
{
    if q < 0 || q >= s.len() {
        Err(())
    } else if s[q] == '"' {
        Ok((q + 1, Seq::<char>::empty()))
    } else if s[q] == '\\' {
        if q + 1 >= s.len() {
            Err(())
        } else {
            match scan_string_body(s, q + 2) {
                Ok((end, value)) => Ok((end, escape_seq(s[q + 1]) + value)),
                Err(()) => Err(()),
            }
        }
    } else {
        match scan_string_body(s, q + 1) {
            Ok((end, value)) => Ok((end, seq![s[q]] + value)),
            Err(()) => Err(()),
        }
    }
}

// ---------------------------------------------------------------------------
// Comments
// ---------------------------------------------------------------------------
/// The position just after a line comment whose text starts at `q`: past the
/// terminating newline, or the end of input.
pub open spec fn scan_line_comment_end(s: Seq<char>, q: int) -> int
    decreases s.len() - q,
{
    if q < 0 || q >= s.len() {
        s.len() as int
    } else if s[q] == '\n' {
        q + 1
    } else {
        scan_line_comment_end(s, q + 1)
    }
}

/// Scans the interior of a block comment from `q` to the closing `*/`.
/// Returns the position just after the closing marker and the interior text;
/// input that ends inside the comment closes it at the end.
pub open spec fn scan_block_end(s: Seq<char>, q: int) -> (int, Seq<char>)
    decreases s.len() - q,
{
    if q < 0 || q >= s.len() {
        (s.len() as int, Seq::<char>::empty())
    } else if s[q] == '*' && q + 1 < s.len() && s[q + 1] == '/' {
        (q + 2, Seq::<char>::empty())
    } else {
        let (end, text) = scan_block_end(s, q + 1);
        (end, seq![s[q]] + text)
    }
}

// ---------------------------------------------------------------------------
// Numbers
// ---------------------------------------------------------------------------
/// Scans the exponent part of a float, starting just after the `e`/`E`
/// marker: an optional sign, then a mandatory digit run. Fails with
/// `MissingExponentValue` when no digits follow.
pub open spec fn scan_exponent(s: Seq<char>, q: int) -> Result<(int, Seq<char>), LexerErrorView> {
    let has_sign = q < s.len() && (s[q] == '+' || s[q] == '-');
    let digits_from: int = if has_sign {
        q + 1
    } else {
        q
    };
    let (end, digits) = scan_digits(s, digits_from, 10);
    if digits.len() == 0 {
        Err(LexerErrorView { kind: LexerErrorKind::MissingExponentValue, start: q, end: end })
    } else if has_sign {
        Ok((end, seq![s[q]] + digits))
    } else {
        Ok((end, digits))
    }
}

/// Scans a radix literal: the digit run after the prefix, composed into
/// token text `prefix + digits`. An empty digit run is `EmptyRadix`.
pub open spec fn scan_radix_number(
    s: Seq<char>,
    start: int,
    digits_from: int,
    radix: u32,
    prefix: Seq<char>,
) -> Result<(int, SpannedTokenView), LexerErrorView> {
    let (end, digits) = scan_digits(s, digits_from, radix);
    if digits.len() == 0 {
        Err(LexerErrorView { kind: LexerErrorKind::EmptyRadix, start: end, end: end })
    } else {
        Ok(
            (
                end,
                (
                    start,
                    TokenView::Int {
                        value: prefix + digits,
                        int_value: clamp_to_i32(digits_val(digits, radix)),
                    },
                    end,
                ),
            ),
        )
    }
}

/// Scans a decimal literal starting at `p`. After the integer digit run, a
/// `.` that does not start a `..`-style range token makes the literal
/// floating-point (an optional fractional run, then an exponent only when
/// fractional digits were present), as does a direct `e`/`E` exponent
/// marker. A `.` followed by a name-start character still ends up here: the
/// fractional run is then empty and the following name is left unconsumed.
pub open spec fn scan_decimal_number(s: Seq<char>, p: int) -> Result<
    (int, SpannedTokenView),
    LexerErrorView,
> {
    let (int_end, int_digits) = scan_digits(s, p, 10);
    if int_end < s.len() && s[int_end] == '.' && !(int_end + 1 < s.len() && s[int_end + 1]
        == '.') {
        let (frac_end, frac_digits) = scan_digits(s, int_end + 1, 10);
        if frac_digits.len() > 0 && frac_end < s.len() && (s[frac_end] == 'e' || s[frac_end]
            == 'E') {
            match scan_exponent(s, frac_end + 1) {
                Ok((end, exp_text)) => Ok(
                    (
                        end,
                        (
                            p,
                            TokenView::Float {
                                value: int_digits + seq!['.'] + frac_digits + seq![s[frac_end]]
                                    + exp_text,
                            },
                            end,
                        ),
                    ),
                ),
                Err(err) => Err(err),
            }
        } else {
            Ok(
                (
                    frac_end,
                    (p, TokenView::Float { value: int_digits + seq!['.'] + frac_digits }, frac_end),
                ),
            )
        }
    } else if int_end < s.len() && (s[int_end] == 'e' || s[int_end] == 'E') {
        match scan_exponent(s, int_end + 1) {
            Ok((end, exp_text)) => Ok(
                (
                    end,
                    (
                        p,
                        TokenView::Float { value: int_digits + seq![s[int_end]] + exp_text },
                        end,
                    ),
                ),
            ),
            Err(err) => Err(err),
        }
    } else {
        Ok(
            (
                int_end,
                (
                    p,
                    TokenView::Int {
                        value: int_digits,
                        int_value: clamp_to_i32(digits_val(int_digits, 10)),
                    },
                    int_end,
                ),
            ),
        )
    }
}

/// Scans a number literal starting at the digit at `p`: a radix literal when
/// `0` is followed by a radix marker, a decimal literal otherwise. A bare
/// `_` immediately after the literal is `NumberTrailingUnderScore`, located
/// at that character.
pub open spec fn scan_number(s: Seq<char>, p: int) -> Result<
    (int, SpannedTokenView),
    LexerErrorView,
> {
    let body = if p < s.len() && s[p] == '0' && p + 1 < s.len() && (s[p + 1] == 'x' || s[p + 1]
        == 'X') {
        scan_radix_number(s, p, p + 2, 16, "0x"@)
    } else if p < s.len() && s[p] == '0' && p + 1 < s.len() && (s[p + 1] == 'o' || s[p + 1]
        == 'O') {
        scan_radix_number(s, p, p + 2, 8, "0o"@)
    } else if p < s.len() && s[p] == '0' && p + 1 < s.len() && (s[p + 1] == 'b' || s[p + 1]
        == 'B') {
        scan_radix_number(s, p, p + 2, 2, "0b"@)
    } else {
        scan_decimal_number(s, p)
    };
    match body {
        Ok((end, token)) => if end < s.len() && s[end] == '_' {
            Err(
                LexerErrorView {
                    kind: LexerErrorKind::NumberTrailingUnderScore,
                    start: end,
                    end: end,
                },
            )
        } else {
            Ok((end, token))
        },
        Err(err) => Err(err),
    }
}

// ---------------------------------------------------------------------------
// One scan step
// ---------------------------------------------------------------------------
/// A single-character token at `p`.
pub open spec fn single_token(p: int, token: TokenView) -> StepResult {
    StepResult::Token { next: p + 1, token: (p, token, p + 1) }
}

/// An operator that is `compound` when followed by `=`, else `single`.
pub open spec fn eq_suffixed(s: Seq<char>, p: int, single: TokenView, compound: TokenView)
    -> StepResult {
    if p + 1 < s.len() && s[p + 1] == '=' {
        StepResult::Token { next: p + 2, token: (p, compound, p + 2) }
    } else {
        single_token(p, single)
    }
}

/// The dot family: `.`, `..`, `...`, and `=`-suffixed `..=` (the `=` suffix
/// is taken after one dot as well as after two).
pub open spec fn scan_dots(s: Seq<char>, p: int) -> StepResult {
    let q: int = if p + 1 < s.len() && s[p + 1] == '.' {
        p + 2
    } else {
        p + 1
    };
    if q < s.len() && s[q] == '=' {
        StepResult::Token { next: q + 1, token: (p, TokenView::DotDotEq, q + 1) }
    } else if q == p + 2 && q < s.len() && s[q] == '.' {
        StepResult::Token { next: q + 1, token: (p, TokenView::DotDotDot, q + 1) }
    } else if q == p + 2 {
        StepResult::Token { next: q, token: (p, TokenView::DotDot, q) }
    } else {
        StepResult::Token { next: q, token: (p, TokenView::Dot, q) }
    }
}

/// One scan step at position `p` of `s` (with `0 <= p < s.len()`): the
/// dispatch over the character class at `p`, exactly as the executable
/// scanner performs it.
pub open spec fn spec_step(s: Seq<char>, p: int) -> StepResult
    recommends
        0 <= p < s.len(),
{
    let c = s[p];
    if is_name_start(c) {
        let end = scan_name_end(s, p);
        StepResult::Token { next: end, token: (p, name_token(s.subrange(p, end)), end) }
    } else if is_digit_of(c, 10) {
        match scan_number(s, p) {
            Ok((end, token)) => StepResult::Token { next: end, token },
            Err(err) => StepResult::Fail { err },
        }
    } else if c == '\r' {
        if p + 1 < s.len() && s[p + 1] == '\n' {
            StepResult::Token { next: p + 2, token: (p, TokenView::NewLine, p + 2) }
        } else {
            single_token(p, TokenView::NewLine)
        }
    } else if c == '\n' {
        single_token(p, TokenView::NewLine)
    } else if is_blank(c) {
        StepResult::Skip { next: p + 1 }
    } else if c == '(' {
        single_token(p, TokenView::LParen)
    } else if c == ')' {
        single_token(p, TokenView::RParen)
    } else if c == '[' {
        single_token(p, TokenView::LBracket)
    } else if c == ']' {
        single_token(p, TokenView::RBracket)
    } else if c == '{' {
        single_token(p, TokenView::LCurly)
    } else if c == '}' {
        single_token(p, TokenView::RCurly)
    } else if c == '/' {
        if p + 1 < s.len() && s[p + 1] == '/' {
            let end = scan_line_comment_end(s, p + 2);
            StepResult::Token { next: end, token: (p, TokenView::Comment, end) }
        } else if p + 1 < s.len() && s[p + 1] == '*' {
            if p + 2 < s.len() && s[p + 2] == '*' {
                let (end, text) = scan_block_end(s, p + 3);
                StepResult::Token {
                    next: end,
                    token: (p, TokenView::DocComment { comment: text }, end),
                }
            } else {
                let (end, text) = scan_block_end(s, p + 2);
                StepResult::Token { next: end, token: (p, TokenView::Comment, end) }
            }
        } else if p + 1 < s.len() && s[p + 1] == '=' {
            StepResult::Token { next: p + 2, token: (p, TokenView::DivEq, p + 2) }
        } else {
            single_token(p, TokenView::Slash)
        }
    } else if c == '-' {
        if p + 1 < s.len() && s[p + 1] == '=' {
            StepResult::Token { next: p + 2, token: (p, TokenView::MinusEq, p + 2) }
        } else if p + 1 < s.len() && s[p + 1] == '>' {
            StepResult::Token { next: p + 2, token: (p, TokenView::ArrowRight, p + 2) }
        } else {
            single_token(p, TokenView::Minus)
        }
    } else if c == '+' {
        eq_suffixed(s, p, TokenView::Plus, TokenView::PlusEq)
    } else if c == '*' {
        eq_suffixed(s, p, TokenView::Star, TokenView::MulEq)
    } else if c == '!' {
        eq_suffixed(s, p, TokenView::Bang, TokenView::NotEq)
    } else if c == '=' {
        eq_suffixed(s, p, TokenView::Eq, TokenView::EqEq)
    } else if c == '>' {
        eq_suffixed(s, p, TokenView::Gt, TokenView::GtEq)
    } else if c == '<' {
        eq_suffixed(s, p, TokenView::Lt, TokenView::LtEq)
    } else if c == '.' {
        scan_dots(s, p)
    } else if c == ';' {
        single_token(p, TokenView::SemiColon)
    } else if c == ':' {
        single_token(p, TokenView::Colon)
    } else if c == '"' {
        match scan_string_body(s, p + 1) {
            Ok((end, value)) => StepResult::Token {
                next: end,
                token: (p, TokenView::String { value }, end),
            },
            Err(()) => StepResult::Fail {
                err: LexerErrorView {
                    kind: LexerErrorKind::NonTerminatedStringLiteral,
                    start: p,
                    end: s.len() as int,
                },
            },
        }
    } else {
        single_token(p, TokenView::Unknown)
    }
}

// ---------------------------------------------------------------------------
// Bounds of the sub-scanners
// ---------------------------------------------------------------------------
/// A digit run stays inside the input, moves forward exactly when it kept at
/// least one digit, and moves at least one position past a leading digit.
pub proof fn lemma_scan_digits_bounds(s: Seq<char>, p: int, radix: u32)
    requires
        0 <= p <= s.len(),
    ensures
        p <= scan_digits(s, p, radix).0 <= s.len(),
        (scan_digits(s, p, radix).1.len() == 0) == (scan_digits(s, p, radix).0 == p),
    decreases s.len() - p,
{
    if p < s.len() {
        if is_digit_of(s[p], radix) {
            lemma_scan_digits_bounds(s, p + 1, radix);
        } else if s[p] == '_' && p + 1 < s.len() && is_digit_of(s[p + 1], radix) {
            lemma_scan_digits_bounds(s, p + 1, radix);
        }
    }
}

/// Every character a digit run keeps is a digit of its radix.
pub proof fn lemma_scan_digits_valid(s: Seq<char>, p: int, radix: u32)
    requires
        0 <= p <= s.len(),
    ensures
        forall|j: int|
            0 <= j < scan_digits(s, p, radix).1.len() ==> is_digit_of(
                scan_digits(s, p, radix).1[j],
                radix,
            ),
    decreases s.len() - p,
{
    if p < s.len() {
        if is_digit_of(s[p], radix) {
            lemma_scan_digits_valid(s, p + 1, radix);
            let rest = scan_digits(s, p + 1, radix).1;
            let digits = scan_digits(s, p, radix).1;
            assert forall|j: int| 0 <= j < digits.len() implies is_digit_of(
                digits[j],
                radix,
            ) by {
                if j == 0 {
                    assert(digits[0] == s[p]);
                } else {
                    assert(digits[j] == rest[j - 1]);
                }
            }
        } else if s[p] == '_' && p + 1 < s.len() && is_digit_of(s[p + 1], radix) {
            lemma_scan_digits_valid(s, p + 1, radix);
        }
    }
}

/// The end of a name scan stays inside the input and moves past a leading
/// name character.
pub proof fn lemma_scan_name_end_bounds(s: Seq<char>, p: int)
    requires
        0 <= p <= s.len(),
    ensures
        p <= scan_name_end(s, p) <= s.len(),
        0 <= p < s.len() && is_name_cont(s[p]) ==> p < scan_name_end(s, p),
    decreases s.len() - p,
{
    if 0 <= p < s.len() && is_name_cont(s[p]) {
        lemma_scan_name_end_bounds(s, p + 1);
    }
}

/// A successfully scanned string interior ends inside the input, past at
/// least the closing quote.
pub proof fn lemma_scan_string_bounds(s: Seq<char>, q: int)
    requires
        0 <= q <= s.len(),
    ensures
        match scan_string_body(s, q) {
            Ok(scanned) => q + 1 <= scanned.0 <= s.len(),
            Err(()) => true,
        },
    decreases s.len() - q,
{
    if q < s.len() {
        if s[q] == '"' {
        } else if s[q] == '\\' {
            if q + 1 < s.len() {
                lemma_scan_string_bounds(s, q + 2);
            }
        } else {
            lemma_scan_string_bounds(s, q + 1);
        }
    }
}

/// A line comment ends inside the input, at or after where it started.
pub proof fn lemma_scan_line_comment_end_bounds(s: Seq<char>, q: int)
    requires
        0 <= q <= s.len(),
    ensures
        q <= scan_line_comment_end(s, q) <= s.len(),
    decreases s.len() - q,
{
    if q < s.len() && s[q] != '\n' {
        lemma_scan_line_comment_end_bounds(s, q + 1);
    }
}

/// A block comment interior ends inside the input, at or after where it
/// started.
pub proof fn lemma_scan_block_end_bounds(s: Seq<char>, q: int)
    requires
        0 <= q <= s.len(),
    ensures
        q <= scan_block_end(s, q).0 <= s.len(),
    decreases s.len() - q,
{
    if q < s.len() {
        if s[q] == '*' && q + 1 < s.len() && s[q + 1] == '/' {
        } else {
            lemma_scan_block_end_bounds(s, q + 1);
        }
    }
}

/// A successfully scanned exponent ends inside the input and consumes at
/// least one character.
pub proof fn lemma_scan_exponent_bounds(s: Seq<char>, q: int)
    requires
        0 <= q <= s.len(),
    ensures
        match scan_exponent(s, q) {
            Ok(scanned) => q < scanned.0 <= s.len(),
            Err(_) => true,
        },
{
    let has_sign = q < s.len() && (s[q] == '+' || s[q] == '-');
    let digits_from: int = if has_sign {
        q + 1
    } else {
        q
    };
    lemma_scan_digits_bounds(s, digits_from, 10);
}

/// A successfully scanned number ends inside the input, after its starting
/// digit, and its token is tagged with exactly the consumed interval.
pub proof fn lemma_scan_number_bounds(s: Seq<char>, p: int)
    requires
        0 <= p < s.len(),
        is_digit_of(s[p], 10),
    ensures
        match scan_number(s, p) {
            Ok(scanned) => p < scanned.0 <= s.len() && scanned.1.0 == p && scanned.1.2
                == scanned.0,
            Err(_) => true,
        },
{
    if s[p] == '0' && p + 1 < s.len() && (s[p + 1] == 'x' || s[p + 1] == 'X' || s[p + 1] == 'o'
        || s[p + 1] == 'O' || s[p + 1] == 'b' || s[p + 1] == 'B') {
        lemma_scan_digits_bounds(s, p + 2, 16);
        lemma_scan_digits_bounds(s, p + 2, 8);
        lemma_scan_digits_bounds(s, p + 2, 2);
    } else {
        lemma_scan_digits_bounds(s, p, 10);
        let (int_end, int_digits) = scan_digits(s, p, 10);
        if int_end < s.len() && s[int_end] == '.' && !(int_end + 1 < s.len() && s[int_end + 1]
            == '.') {
            lemma_scan_digits_bounds(s, int_end + 1, 10);
            let (frac_end, frac_digits) = scan_digits(s, int_end + 1, 10);
            if frac_digits.len() > 0 && frac_end < s.len() && (s[frac_end] == 'e' || s[frac_end]
                == 'E') {
                lemma_scan_exponent_bounds(s, frac_end + 1);
            }
        } else if int_end < s.len() && (s[int_end] == 'e' || s[int_end] == 'E') {
            lemma_scan_exponent_bounds(s, int_end + 1);
        }
    }
}

/// Every scan step makes progress: a produced token covers exactly the
/// consumed interval, and silent consumption moves one character forward.
pub proof fn lemma_step_progress(s: Seq<char>, p: int)
    requires
        0 <= p < s.len(),
    ensures
        match spec_step(s, p) {
            StepResult::Token { next, token } => p < next <= s.len() && token.0 == p && token.2
                == next,
            StepResult::Skip { next } => next == p + 1,
            StepResult::Fail { err } => true,
        },
{
    let c = s[p];
    if is_name_start(c) {
        lemma_scan_name_end_bounds(s, p);
    } else if is_digit_of(c, 10) {
        lemma_scan_number_bounds(s, p);
    } else if c == '/' {
        if p + 1 < s.len() && s[p + 1] == '/' {
            lemma_scan_line_comment_end_bounds(s, p + 2);
        } else if p + 1 < s.len() && s[p + 1] == '*' {
            if p + 2 < s.len() && s[p + 2] == '*' {
                lemma_scan_block_end_bounds(s, p + 3);
            } else {
                lemma_scan_block_end_bounds(s, p + 2);
            }
        }
    } else if c == '"' {
        lemma_scan_string_bounds(s, p + 1);
    }
}

// ---------------------------------------------------------------------------
// The token stream
// ---------------------------------------------------------------------------
/// The next token the lexer delivers from position `p`, with the position
/// after it: the first scan step that produces a token, skipping silent
/// steps; the `Eof` token once the input is exhausted.
pub open spec fn spec_next(s: Seq<char>, p: int) -> Result<
    (SpannedTokenView, int),
    LexerErrorView,
>
    decreases s.len() - p,
        when 0 <= p
        via spec_next_decreases
{
    if p >= s.len() {
        Ok(((s.len() as int, TokenView::Eof, s.len() as int), p))
    } else {
        match spec_step(s, p) {
            StepResult::Token { next, token } => Ok((token, next)),
            StepResult::Skip { next } => spec_next(s, next),
            StepResult::Fail { err } => Err(err),
        }
    }
}

#[via_fn]
proof fn spec_next_decreases(s: Seq<char>, p: int) {
    if 0 <= p < s.len() {
        lemma_step_progress(s, p);
    }
}

/// The whole token stream from position `p`: every token each scan step
/// produces, ending with the `Eof` token, or the first scan failure.
pub open spec fn spec_tokens(s: Seq<char>, p: int) -> Result<
    Seq<SpannedTokenView>,
    LexerErrorView,
>
    decreases s.len() - p,
        when 0 <= p
        via spec_tokens_decreases
{
    if p >= s.len() {
        Ok(seq![(s.len() as int, TokenView::Eof, s.len() as int)])
    } else {
        match spec_step(s, p) {
            StepResult::Token { next, token } => match spec_tokens(s, next) {
                Ok(rest) => Ok(seq![token] + rest),
                Err(err) => Err(err),
            },
            StepResult::Skip { next } => spec_tokens(s, next),
            StepResult::Fail { err } => Err(err),
        }
    }
}

#[via_fn]
proof fn spec_tokens_decreases(s: Seq<char>, p: int) {
    if 0 <= p < s.len() {
        lemma_step_progress(s, p);
    }
}

/// The token stream from `p` starts with the next token from `p`, and
/// continues, when that token is not `Eof`, with the stream after it.
pub proof fn lemma_next_then_tokens(s: Seq<char>, p: int)
    requires
        0 <= p <= s.len(),
    ensures
        match spec_next(s, p) {
            Ok(next_token) => if next_token.0.1 is Eof {
                spec_tokens(s, p) == Ok::<Seq<SpannedTokenView>, LexerErrorView>(
                    seq![next_token.0],
                ) && next_token.0 == (s.len() as int, TokenView::Eof, s.len() as int)
            } else {
                p < next_token.1 <= s.len() && spec_tokens(s, p) == (match spec_tokens(
                    s,
                    next_token.1,
                ) {
                    Ok(rest) => Ok(seq![next_token.0] + rest),
                    Err(err) => Err(err),
                })
            },
            Err(err) => spec_tokens(s, p) == Err::<Seq<SpannedTokenView>, LexerErrorView>(err),
        },
    decreases s.len() - p,
{
    if p < s.len() {
        lemma_step_progress(s, p);
        match spec_step(s, p) {
            StepResult::Token { next, token } => {
                if token.1 is Eof {
                    // A produced token is never `Eof`: `Eof` only arises past
                    // the end of input. Nothing to show here because no scan
                    // step produces it.
                    lemma_step_token_not_eof(s, p);
                }
            },
            StepResult::Skip { next } => {
                lemma_next_then_tokens(s, next);
            },
            StepResult::Fail { err } => {},
        }
    }
}

/// No scan step inside the input produces the `Eof` token.
pub proof fn lemma_step_token_not_eof(s: Seq<char>, p: int)
    requires
        0 <= p < s.len(),
    ensures
        match spec_step(s, p) {
            StepResult::Token { next, token } => !(token.1 is Eof),
            StepResult::Skip { next } => true,
            StepResult::Fail { err } => true,
        },
{
}

// ---------------------------------------------------------------------------
// Laws of the scanner
// ---------------------------------------------------------------------------
/// A digit run that skipped no separator keeps exactly the source substring
/// it consumed.
proof fn lemma_scan_digits_no_separator(s: Seq<char>, p: int, radix: u32)
    requires
        0 <= p <= s.len(),
        forall|j: int| p <= j < scan_digits(s, p, radix).0 ==> s[j] != '_',
    ensures
        scan_digits(s, p, radix).1 == s.subrange(p, scan_digits(s, p, radix).0),
    decreases s.len() - p,
{
    if p < s.len() {
        if is_digit_of(s[p], radix) {
            let (end, _digits) = scan_digits(s, p + 1, radix);
            lemma_scan_digits_bounds(s, p + 1, radix);
            lemma_scan_digits_no_separator(s, p + 1, radix);
            assert(seq![s[p]] + s.subrange(p + 1, end) =~= s.subrange(p, end));
        } else if s[p] == '_' && p + 1 < s.len() && is_digit_of(s[p + 1], radix) {
            lemma_scan_digits_bounds(s, p + 1, radix);
        } else {
            assert(Seq::<char>::empty() =~= s.subrange(p, p));
        }
    } else {
        assert(Seq::<char>::empty() =~= s.subrange(p, p));
    }
}

/// For a decimal-digit run without a radix prefix or separators, scanned as
/// an integer literal whose value fits an `i32`, the `Int` token's text is
/// the exact source substring of the run and its value is the base-10
/// reading of that text.
pub proof fn lemma_decimal_int_exact(s: Seq<char>, p: int)
    requires
        0 <= p < s.len(),
        is_digit_of(s[p], 10),
        !(s[p] == '0' && p + 1 < s.len() && (s[p + 1] == 'x' || s[p + 1] == 'X' || s[p + 1] == 'o'
            || s[p + 1] == 'O' || s[p + 1] == 'b' || s[p + 1] == 'B')),
        forall|j: int| p <= j < scan_digits(s, p, 10).0 ==> s[j] != '_',
        ({
            let end = scan_digits(s, p, 10).0;
            !(end < s.len() && (s[end] == '.' || s[end] == 'e' || s[end] == 'E' || s[end] == '_'))
        }),
        digits_val(s.subrange(p, scan_digits(s, p, 10).0), 10) <= i32::MAX,
    ensures
        ({
            let end = scan_digits(s, p, 10).0;
            let text = s.subrange(p, end);
            scan_number(s, p) == Ok::<(int, SpannedTokenView), LexerErrorView>(
                (end, (p, TokenView::Int { value: text, int_value: digits_val(text, 10) }, end)),
            )
        }),
{
    lemma_scan_digits_bounds(s, p, 10);
    lemma_scan_digits_no_separator(s, p, 10);
}

/// A decimal point directly followed by a letter ends the float literal at
/// the point: the following name is scanned as its own token, never absorbed
/// into the number.
pub proof fn lemma_dot_never_absorbs_name(s: Seq<char>, p: int)
    requires
        0 <= p < s.len(),
        is_digit_of(s[p], 10),
        !(s[p] == '0' && p + 1 < s.len() && (s[p + 1] == 'x' || s[p + 1] == 'X' || s[p + 1] == 'o'
            || s[p + 1] == 'O' || s[p + 1] == 'b' || s[p + 1] == 'B')),
        ({
            let end = scan_digits(s, p, 10).0;
            end < s.len() && s[end] == '.' && end + 1 < s.len() && is_name_start(s[end + 1])
                && s[end + 1] != '_'
        }),
    ensures
        ({
            let end = scan_digits(s, p, 10).0;
            let digits = scan_digits(s, p, 10).1;
            scan_number(s, p) == Ok::<(int, SpannedTokenView), LexerErrorView>(
                (
                    end + 1,
                    (p, TokenView::Float { value: digits + seq!['.'] }, end + 1),
                ),
            )
        }),
        ({
            let name_from = scan_digits(s, p, 10).0 + 1;
            let name_end = scan_name_end(s, name_from);
            spec_step(s, name_from) == (StepResult::Token {
                next: name_end,
                token: (name_from, name_token(s.subrange(name_from, name_end)), name_end),
            })
        }),
{
    let end = scan_digits(s, p, 10).0;
    let digits = scan_digits(s, p, 10).1;
    lemma_scan_digits_bounds(s, p, 10);
    assert(scan_digits(s, end + 1, 10) == (end + 1, Seq::<char>::empty()));
    assert(digits + seq!['.'] + Seq::<char>::empty() =~= digits + seq!['.']);
}

/// Blank characters are consumed without producing any token.
pub proof fn lemma_whitespace_no_token(s: Seq<char>, p: int)
    requires
        0 <= p < s.len(),
        is_blank(s[p]),
    ensures
        spec_step(s, p) == (StepResult::Skip { next: p + 1 }),
{
}

/// A carriage return followed by a line feed is consumed as one unit: the
/// scan step yields exactly one `NewLine` token spanning both characters.
pub proof fn lemma_crlf_single_newline(s: Seq<char>, p: int)
    requires
        0 <= p,
        p + 1 < s.len(),
        s[p] == '\r',
        s[p + 1] == '\n',
    ensures
        spec_step(s, p) == (StepResult::Token {
            next: p + 2,
            token: (p, TokenView::NewLine, p + 2),
        }),
{
}

/// The source slices of a token stream, concatenated in order; the `Eof`
/// token contributes nothing.
pub open spec fn slices_of(s: Seq<char>, stream: Seq<SpannedTokenView>) -> Seq<char>
    decreases stream.len(),
{
    if stream.len() == 0 {
        Seq::<char>::empty()
    } else if stream[0].1 is Eof {
        slices_of(s, stream.drop_first())
    } else {
        s.subrange(stream[0].0, stream[0].2) + slices_of(s, stream.drop_first())
    }
}

/// Lossless partition: on input that scans successfully and holds no blank
/// characters (blanks are consumed without a token), concatenating each
/// non-`Eof` token's source slice, taken via its span over the input,
/// reproduces the input exactly — whitespace that yields `NewLine` and
/// comment text included.
pub proof fn lemma_lossless_partition(s: Seq<char>, p: int)
    requires
        0 <= p <= s.len(),
        forall|j: int| p <= j < s.len() ==> !is_blank(s[j]),
        spec_tokens(s, p) is Ok,
    ensures
        slices_of(s, spec_tokens(s, p)->Ok_0) == s.subrange(p, s.len() as int),
    decreases s.len() - p,
{
    if p >= s.len() {
        let stream = spec_tokens(s, p)->Ok_0;
        assert(stream.drop_first() =~= Seq::<SpannedTokenView>::empty());
        assert(slices_of(s, stream) == slices_of(s, Seq::<SpannedTokenView>::empty()));
        assert(Seq::<char>::empty() =~= s.subrange(p, s.len() as int));
    } else {
        lemma_step_progress(s, p);
        lemma_step_token_not_eof(s, p);
        match spec_step(s, p) {
            StepResult::Token { next, token } => {
                lemma_lossless_partition(s, next);
                let rest = spec_tokens(s, next)->Ok_0;
                let stream = spec_tokens(s, p)->Ok_0;
                assert(stream == seq![token] + rest);
                assert(stream.drop_first() =~= rest);
                assert(s.subrange(p, next) + s.subrange(next, s.len() as int) =~= s.subrange(
                    p,
                    s.len() as int,
                ));
            },
            StepResult::Skip { next } => {
                assert(is_blank(s[p]));
            },
            StepResult::Fail { err } => {},
        }
    }
}

// ---------------------------------------------------------------------------
// Executable character tests
// ---------------------------------------------------------------------------
/// Executable test for [`is_name_start`].
pub fn char_is_name_start(c: char) -> (result: bool)
    ensures
        result == is_name_start(c),
{
    c == '_' || ('a' <= c && c <= 'z')
}

/// Executable test for [`is_name_cont`].
pub fn char_is_name_cont(c: char) -> (result: bool)
    ensures
        result == is_name_cont(c),
{
    c == '_' || ('a' <= c && c <= 'z') || ('A' <= c && c <= 'Z') || ('0' <= c && c <= '9')
}

/// Executable test for [`is_digit_of`], for the radixes the scanner uses.
pub fn char_is_digit_of(c: char, radix: u32) -> (result: bool)
    requires
        radix == 2 || radix == 8 || radix == 10 || radix == 16,
    ensures
        result == is_digit_of(c, radix),
{
    let u = c as u32;
    if radix == 16 {
        ('0' as u32 <= u && u <= '9' as u32) || ('a' as u32 <= u && u <= 'f' as u32) || ('A' as u32
            <= u && u <= 'F' as u32)
    } else {
        '0' as u32 <= u && u < ('0' as u32 + radix)
    }
}

/// Executable form of [`digit_val`].
pub fn char_digit_val(c: char) -> (result: u32)
    ensures
        result == digit_val(c),
{
    let u = c as u32;
    if '0' as u32 <= u && u <= '9' as u32 {
        u - '0' as u32
    } else if 'a' as u32 <= u && u <= 'f' as u32 {
        u - 'a' as u32 + 10
    } else if 'A' as u32 <= u && u <= 'F' as u32 {
        u - 'A' as u32 + 10
    } else {
        0
    }
}

} // verus!

