//! The executable scanner: a cursor over the source characters, a FIFO of
//! tokens produced but not yet delivered, and one sub-scanner per lexeme
//! category. Every operation is proved to agree with the mathematical model
//! in [`crate::parser::scan`].
use vstd::prelude::*;

use crate::ast::span::Span;
use crate::parser::error::{LexerError, LexerErrorKind, LexerErrorView};
use crate::parser::lemma_digits_val_nonneg;
use crate::parser::lemma_int_value_of_decimal;
use crate::parser::lemma_int_value_of_prefixed;
use crate::parser::scan::{
    char_is_digit_of, char_is_name_cont, char_is_name_start, escape_seq, is_digit_of,
    is_name_cont, is_name_start, lemma_next_then_tokens, lemma_scan_digits_bounds,
    lemma_scan_digits_valid, lemma_scan_name_end_bounds, lemma_step_progress, name_token,
    scan_block_end, scan_decimal_number, scan_digits, scan_exponent, scan_line_comment_end,
    scan_name_end, scan_number, scan_radix_number, scan_string_body, spec_next, spec_step,
    spec_tokens, SpannedTokenView, StepResult,
};
use vstd::string::StrSliceExecFns;
use crate::parser::token::{get_keyword_from_str, TokenKind, TokenView};

verus! {

/// A scanned token: start position, kind, end position.
pub type Token = (usize, TokenKind, usize);

/// What one pull from the lexer yields.
pub type LexerResult = Result<Token, LexerError>;

/// The mathematical view of a scanned token.
pub open spec fn spanned_view(token: Token) -> SpannedTokenView {
    (token.0 as int, token.1@, token.2 as int)
}

/// The stateful scanner. `pos` is the cursor: the index of the next
/// character to inspect, which is also the number of characters consumed so
/// far. `token_queue` holds tokens produced by a scan step but not yet
/// delivered.
pub struct Lexer {
    chars: Vec<char>,
    pos: usize,
    token_queue: Vec<Token>,
}

impl Lexer {
    /// The source text being scanned.
    pub closed spec fn src(&self) -> Seq<char> {
        self.chars@
    }

    /// The cursor: how many characters have been consumed.
    pub closed spec fn position(&self) -> int {
        self.pos as int
    }

    /// The pending-token queue, in delivery order.
    pub closed spec fn queue_view(&self) -> Seq<SpannedTokenView> {
        self.token_queue@.map_values(|t: Token| spanned_view(t))
    }

    /// The cursor never leaves the input.
    pub closed spec fn wf(&self) -> bool {
        self.pos <= self.chars.len()
    }

    /// Builds a lexer over the given source characters, cursor at the start.
    pub fn new(items: Vec<char>) -> (lexer: Lexer)
        ensures
            lexer.wf(),
            lexer.src() == items@,
            lexer.position() == 0,
            lexer.queue_view() =~= Seq::<SpannedTokenView>::empty(),
    {
        Lexer { chars: items, pos: 0, token_queue: Vec::new() }
    }

    /// The current cursor position.
    fn cursor(&self) -> (result: usize)
        ensures
            result as int == self.position(),
    {
        self.pos
    }

    /// Appends a produced token to the pending queue.
    fn queue(&mut self, value: Token)
        requires
            old(self).wf(),
        ensures
            final(self).wf(),
            final(self).src() == old(self).src(),
            final(self).position() == old(self).position(),
            final(self).queue_view() =~= old(self).queue_view().push(spanned_view(value)),
    {
        self.token_queue.push(value)
    }

    /// The character under the cursor, if any.
    fn ch0(&self) -> (result: Option<char>)
        requires
            self.wf(),
        ensures
            result == char_at(self.src(), self.position()),
    {
        if self.pos < self.chars.len() {
            Some(self.chars[self.pos])
        } else {
            None
        }
    }

    /// The character after the one under the cursor, if any.
    fn ch1(&self) -> (result: Option<char>)
        requires
            self.wf(),
        ensures
            result == char_at(self.src(), self.position() + 1),
    {
        if self.chars.len() > 0 && self.pos < self.chars.len() - 1 {
            Some(self.chars[self.pos + 1])
        } else {
            None
        }
    }

    /// Consumes one character and returns it; at the end of the input it
    /// returns `None` and the cursor stays put.
    fn next_char(&mut self) -> (result: Option<char>)
        requires
            old(self).wf(),
        ensures
            final(self).wf(),
            final(self).src() == old(self).src(),
            final(self).queue_view() == old(self).queue_view(),
            result == char_at(old(self).src(), old(self).position()),
            old(self).position() < old(self).src().len() ==> final(self).position() == old(
                self,
            ).position() + 1,
            old(self).position() == old(self).src().len() ==> final(self).position() == old(
                self,
            ).position(),
    {
        if self.pos < self.chars.len() {
            let c = self.chars[self.pos];
            self.pos = self.pos + 1;
            Some(c)
        } else {
            None
        }
    }

    /// Consumes one character and yields the given token kind for it.
    #[inline]
    fn eat_single_token(&mut self, tk: TokenKind) -> (result: TokenKind)
        requires
            old(self).wf(),
            old(self).position() < old(self).src().len(),
        ensures
            final(self).wf(),
            final(self).src() == old(self).src(),
            final(self).queue_view() == old(self).queue_view(),
            final(self).position() == old(self).position() + 1,
            result == tk,
    {
        self.next_char();
        tk
    }

    /// Whether `c` can start a name.
    fn is_name_start(&self, c: char) -> (result: bool)
        ensures
            result == is_name_start(c),
    {
        char_is_name_start(c)
    }

    /// Whether `c` can start a number.
    fn is_number_start(&self, c: char) -> (result: bool)
        ensures
            result == is_digit_of(c, 10),
    {
        char_is_digit_of(c, 10)
    }

    /// Whether the character under the cursor continues a name.
    fn is_name_continuation(&self) -> (result: bool)
        requires
            self.wf(),
        ensures
            result == (self.position() < self.src().len() && is_name_cont(
                self.src()[self.position()],
            )),
    {
        match self.ch0() {
            Some(c) => char_is_name_cont(c),
            None => false,
        }
    }

    /// Whether `c` holds a digit of `radix`.
    fn match_radix(c: Option<char>, radix: u32) -> (result: bool)
        requires
            radix == 2 || radix == 8 || radix == 10 || radix == 16,
        ensures
            result == match c {
                Some(inner) => is_digit_of(inner, radix),
                None => false,
            },
    {
        match c {
            Some(inner) => char_is_digit_of(inner, radix),
            None => false,
        }
    }

    /// Consumes the character under the cursor when it is a digit of
    /// `radix`, and returns it.
    fn eat_digit(&mut self, radix: u32) -> (result: Option<char>)
        requires
            old(self).wf(),
            radix == 2 || radix == 8 || radix == 10 || radix == 16,
        ensures
            final(self).wf(),
            final(self).src() == old(self).src(),
            final(self).queue_view() == old(self).queue_view(),
            if old(self).position() < old(self).src().len() && is_digit_of(
                old(self).src()[old(self).position()],
                radix,
            ) {
                result == Some(old(self).src()[old(self).position()]) && final(self).position()
                    == old(self).position() + 1
            } else {
                result is None && final(self).position() == old(self).position()
            },
    {
        if Self::match_radix(self.ch0(), radix) {
            self.next_char()
        } else {
            None
        }
    }

    /// Consumes a maximal digit run of `radix` with `_` separators, and
    /// returns the digits kept.
    fn parse_number_with_radix(&mut self, radix: u32) -> (digits: Vec<char>)
        requires
            old(self).wf(),
            radix == 2 || radix == 8 || radix == 10 || radix == 16,
        ensures
            final(self).wf(),
            final(self).src() == old(self).src(),
            final(self).queue_view() == old(self).queue_view(),
            final(self).position() == scan_digits(old(self).src(), old(self).position(), radix).0,
            digits@ == scan_digits(old(self).src(), old(self).position(), radix).1,
    {
        let ghost s = old(self).src();
        let ghost p0 = old(self).position();
        let mut number: Vec<char> = Vec::new();
        loop
            invariant
                self.wf(),
                s == old(self).src(),
                p0 == old(self).position(),
                self.src() == s,
                self.queue_view() == old(self).queue_view(),
                radix == 2 || radix == 8 || radix == 10 || radix == 16,
                p0 <= self.position(),
                scan_digits(s, p0, radix).0 == scan_digits(s, self.position(), radix).0,
                scan_digits(s, p0, radix).1 == number@ + scan_digits(s, self.position(), radix).1,
            ensures
                scan_digits(s, self.position(), radix) == (self.position(), Seq::<char>::empty()),
            decreases s.len() - self.position(),
        {
            let ghost p = self.position();
            if let Some(ch) = self.eat_digit(radix) {
                number.push(ch);
                proof {
                    let (end, rest) = scan_digits(s, p + 1, radix);
                    assert(scan_digits(s, p, radix).1 == seq![s[p]] + rest);
                    assert(number@ + rest =~= (number@.drop_last() + (seq![s[p]] + rest)));
                }
            } else if self.ch0() == Some('_') && Self::match_radix(self.ch1(), radix) {
                self.next_char();
            } else {
                proof {
                    assert(scan_digits(s, p, radix) == (p, Seq::<char>::empty()));
                }
                break ;
            }
        }
        proof {
            assert(number@ + Seq::<char>::empty() =~= number@);
        }
        number
    }

    /// Scans a name: the maximal run of name characters from the cursor,
    /// classified through the keyword table.
    fn eat_name(&mut self) -> (result: LexerResult)
        requires
            old(self).wf(),
            old(self).position() < old(self).src().len(),
            is_name_start(old(self).src()[old(self).position()]),
        ensures
            final(self).wf(),
            final(self).src() == old(self).src(),
            final(self).queue_view() == old(self).queue_view(),
            final(self).position() == scan_name_end(old(self).src(), old(self).position()),
            result is Ok,
            spanned_view(result->Ok_0) == (
                old(self).position(),
                name_token(
                    old(self).src().subrange(
                        old(self).position(),
                        scan_name_end(old(self).src(), old(self).position()),
                    ),
                ),
                scan_name_end(old(self).src(), old(self).position()),
            ),
    {
        let ghost s = old(self).src();
        let ghost p0 = old(self).position();
        let mut name: Vec<char> = Vec::new();
        let name_start = self.cursor();
        loop
            invariant
                self.wf(),
                s == old(self).src(),
                p0 == old(self).position(),
                self.src() == s,
                self.queue_view() == old(self).queue_view(),
                p0 <= self.position() <= s.len(),
                name@ == s.subrange(p0, self.position()),
                scan_name_end(s, p0) == scan_name_end(s, self.position()),
            ensures
                self.wf(),
                self.src() == s,
                self.queue_view() == old(self).queue_view(),
                p0 <= self.position() <= s.len(),
                name@ == s.subrange(p0, self.position()),
                self.position() == scan_name_end(s, p0),
            decreases s.len() - self.position(),
        {
            let ghost p = self.position();
            if self.is_name_continuation() {
                let c = self.next_char().unwrap();
                name.push(c);
                proof {
                    assert(s.subrange(p0, p + 1) =~= s.subrange(p0, p).push(s[p]));
                }
            } else {
                break ;
            }
        }
        let name_end = self.cursor();
        proof {
            lemma_scan_name_end_bounds(s, p0);
        }
        let text = chars_to_string(&name);
        let token: TokenKind = match get_keyword_from_str(&text) {
            Some(token) => token,
            None => {
                if name[0] == '_' {
                    TokenKind::DiscardName { name: text }
                } else {
                    TokenKind::Name { name: text }
                }
            },
        };
        Ok((name_start, token, name_end))
    }

    /// Scans a `//` comment: everything through the end of the line (the
    /// newline included) or the end of the input.
    fn eat_comment(&mut self) -> (result: Token)
        requires
            old(self).wf(),
            old(self).position() + 1 < old(self).src().len(),
            old(self).src()[old(self).position()] == '/',
            old(self).src()[old(self).position() + 1] == '/',
        ensures
            final(self).wf(),
            final(self).src() == old(self).src(),
            final(self).queue_view() == old(self).queue_view(),
            final(self).position() == scan_line_comment_end(
                old(self).src(),
                old(self).position() + 2,
            ),
            spanned_view(result) == (
                old(self).position(),
                TokenView::Comment,
                scan_line_comment_end(old(self).src(), old(self).position() + 2),
            ),
    {
        let ghost s = old(self).src();
        let ghost p0 = old(self).position();
        let start = self.cursor();
        self.next_char();
        self.next_char();
        loop
            invariant_except_break
                scan_line_comment_end(s, p0 + 2) == scan_line_comment_end(s, self.position()),
            invariant
                self.wf(),
                s == old(self).src(),
                p0 == old(self).position(),
                self.src() == s,
                self.queue_view() == old(self).queue_view(),
                p0 + 2 <= self.position() <= s.len(),
            ensures
                self.wf(),
                self.src() == s,
                self.queue_view() == old(self).queue_view(),
                self.position() == scan_line_comment_end(s, p0 + 2),
            decreases s.len() - self.position(),
        {
            match self.ch0() {
                Some('\n') => {
                    self.next_char();
                    break ;
                },
                None => {
                    self.next_char();
                    break ;
                },
                _ => {
                    self.next_char();
                },
            }
        }
        let end = self.cursor();
        (start, TokenKind::Comment, end)
    }

    /// Scans a `/*` block comment through its closing `*/` (or the end of
    /// the input); a comment opening with `/**` keeps its interior text and
    /// becomes a doc comment.
    fn eat_block_comment(&mut self) -> (result: LexerResult)
        requires
            old(self).wf(),
            old(self).position() + 1 < old(self).src().len(),
            old(self).src()[old(self).position()] == '/',
            old(self).src()[old(self).position() + 1] == '*',
        ensures
            final(self).wf(),
            final(self).src() == old(self).src(),
            final(self).queue_view() == old(self).queue_view(),
            result is Ok,
            ({
                let s = old(self).src();
                let p0 = old(self).position();
                let doc = p0 + 2 < s.len() && s[p0 + 2] == '*';
                let from: int = if doc {
                    p0 + 3
                } else {
                    p0 + 2
                };
                let scanned = scan_block_end(s, from);
                final(self).position() == scanned.0 && spanned_view(result->Ok_0) == (
                    p0,
                    if doc {
                        TokenView::DocComment { comment: scanned.1 }
                    } else {
                        TokenView::Comment
                    },
                    scanned.0,
                )
            }),
    {
        let ghost s = old(self).src();
        let ghost p0 = old(self).position();
        let start = self.cursor();
        self.next_char();
        self.next_char();
        let is_doc = match self.ch0() {
            Some(c) => c == '*',
            None => false,
        };
        if is_doc {
            self.next_char();
        }
        let ghost from = self.position();
        let mut text: Vec<char> = Vec::new();
        loop
            invariant_except_break
                scan_block_end(s, from).0 == scan_block_end(s, self.position()).0,
                scan_block_end(s, from).1 == text@ + scan_block_end(s, self.position()).1,
            invariant
                self.wf(),
                s == old(self).src(),
                0 <= from,
                self.src() == s,
                self.queue_view() == old(self).queue_view(),
                from <= self.position() <= s.len(),
            ensures
                self.wf(),
                self.src() == s,
                self.queue_view() == old(self).queue_view(),
                self.position() == scan_block_end(s, from).0,
                text@ == scan_block_end(s, from).1,
            decreases s.len() - self.position(),
        {
            let ghost p = self.position();
            match (self.ch0(), self.ch1()) {
                (Some('*'), Some('/')) => {
                    self.next_char();
                    self.next_char();
                    proof {
                        assert(text@ + Seq::<char>::empty() =~= text@);
                    }
                    break ;
                },
                _ => {
                    match self.next_char() {
                        Some(c) => {
                            text.push(c);
                            proof {
                                let rest = scan_block_end(s, p + 1).1;
                                assert(text@.drop_last() + (seq![s[p]] + rest) =~= text@ + rest);
                            }
                        },
                        None => {
                            proof {
                                assert(text@ + Seq::<char>::empty() =~= text@);
                            }
                            break ;
                        },
                    }
                },
            }
        }
        let end = self.cursor();
        let spanned: Token = if is_doc {
            (start, TokenKind::DocComment { comment: chars_to_string(&text) }, end)
        } else {
            (start, TokenKind::Comment, end)
        };
        Ok(spanned)
    }

    /// Scans a string literal from its opening quote: escape sequences are
    /// decoded, and input that ends before the closing quote is a
    /// `NonTerminatedStringLiteral` spanning from the opening quote to the
    /// end.
    fn eat_double_quoted_string(&mut self) -> (result: LexerResult)
        requires
            old(self).wf(),
            old(self).position() < old(self).src().len(),
            old(self).src()[old(self).position()] == '"',
        ensures
            final(self).wf(),
            final(self).src() == old(self).src(),
            final(self).queue_view() == old(self).queue_view(),
            match scan_string_body(old(self).src(), old(self).position() + 1) {
                Ok(scanned) => result is Ok && final(self).position() == scanned.0 && spanned_view(
                    result->Ok_0,
                ) == (
                    old(self).position(),
                    TokenView::String { value: scanned.1 },
                    scanned.0,
                ),
                Err(()) => result is Err && result->Err_0@ == (LexerErrorView {
                    kind: LexerErrorKind::NonTerminatedStringLiteral,
                    start: old(self).position(),
                    end: old(self).src().len() as int,
                }),
            },
    {
        let ghost s = old(self).src();
        let ghost p0 = old(self).position();
        let start = self.cursor();
        self.next_char();
        let mut string: Vec<char> = Vec::new();
        loop
            invariant_except_break
                match scan_string_body(s, self.position()) {
                    Ok(scanned) => scan_string_body(s, p0 + 1) == Ok::<(int, Seq<char>), ()>(
                        (scanned.0, string@ + scanned.1),
                    ),
                    Err(()) => scan_string_body(s, p0 + 1) is Err,
                },
            invariant
                self.wf(),
                s == old(self).src(),
                p0 == old(self).position(),
                start as int == p0,
                self.src() == s,
                self.queue_view() == old(self).queue_view(),
                p0 + 1 <= self.position() <= s.len(),
            ensures
                self.wf(),
                self.src() == s,
                self.queue_view() == old(self).queue_view(),
                scan_string_body(s, p0 + 1) == Ok::<(int, Seq<char>), ()>(
                    (self.position(), string@),
                ),
            decreases s.len() - self.position(),
        {
            let ghost p = self.position();
            let ghost before = string@;
            match self.next_char() {
                Some(c) => {
                    if c == '\\' {
                        if let Some(escape_char) = self.next_char() {
                            if escape_char == 'n' {
                                string.push('\n');
                            } else if escape_char == 'r' {
                                string.push('\r');
                            } else if escape_char == 't' {
                                string.push('\t');
                            } else if escape_char == 'f' {
                                string.push('\x0C');
                            } else if escape_char == '\\' {
                                string.push('\\');
                            } else if escape_char == '"' {
                                string.push('"');
                            } else {
                                string.push('\\');
                                string.push(escape_char);
                            }
                            proof {
                                assert(string@ =~= before + escape_seq(s[p + 1]));
                                if scan_string_body(s, p + 2) is Ok {
                                    let inner = scan_string_body(s, p + 2)->Ok_0;
                                    assert((before + escape_seq(s[p + 1])) + inner.1 =~= before + (
                                    escape_seq(s[p + 1]) + inner.1));
                                }
                            }
                        }
                    } else if c == '"' {
                        proof {
                            assert(string@ + Seq::<char>::empty() =~= string@);
                        }
                        break ;
                    } else {
                        string.push(c);
                        proof {
                            if scan_string_body(s, p + 1) is Ok {
                                let inner = scan_string_body(s, p + 1)->Ok_0;
                                assert((before + seq![s[p]]) + inner.1 =~= before + (seq![s[p]]
                                    + inner.1));
                                assert(string@ =~= before + seq![s[p]]);
                            }
                        }
                    }
                },
                None => {
                    return Err(
                        LexerError {
                            kind: LexerErrorKind::NonTerminatedStringLiteral,
                            location: Span { start, end: self.cursor() },
                        },
                    );
                },
            }
        }
        Ok((start, TokenKind::String { value: chars_to_string(&string) }, self.cursor()))
    }

    /// Scans the exponent of a float, the `e`/`E` marker already consumed:
    /// an optional sign, then a mandatory digit run.
    fn parse_exponent(&mut self) -> (result: Result<Vec<char>, LexerError>)
        requires
            old(self).wf(),
        ensures
            final(self).wf(),
            final(self).src() == old(self).src(),
            final(self).queue_view() == old(self).queue_view(),
            match scan_exponent(old(self).src(), old(self).position()) {
                Ok(scanned) => result is Ok && result->Ok_0@ == scanned.1 && final(self).position()
                    == scanned.0,
                Err(err) => result is Err && result->Err_0@ == err,
            },
    {
        let ghost s = old(self).src();
        let ghost p0 = old(self).position();
        let mut value: Vec<char> = Vec::new();
        let start = self.cursor();
        match self.ch0() {
            Some('-') | Some('+') => {
                let sign = self.next_char().unwrap();
                value.push(sign);
            },
            _ => {},
        }
        let mut exp_val = self.parse_number_with_radix(10);
        if exp_val.is_empty() {
            proof {
                lemma_scan_digits_bounds(s, self.position(), 10);
            }
            Err(
                LexerError {
                    kind: LexerErrorKind::MissingExponentValue,
                    location: Span { start, end: self.cursor() },
                },
            )
        } else {
            let ghost exp_digits = exp_val@;
            value.append(&mut exp_val);
            proof {
                if p0 < s.len() && (s[p0] == '+' || s[p0] == '-') {
                    assert(value@ =~= seq![s[p0]] + exp_digits);
                }
            }
            Ok(value)
        }
    }

    /// Scans the digit run of a radix literal, its two prefix characters
    /// already consumed, and composes the token text as `prefix + digits`.
    fn eat_radix_number(&mut self, start: usize, radix: u32, prefix: &str) -> (result: LexerResult)
        requires
            old(self).wf(),
            (radix == 16 && prefix@ == "0x"@) || (radix == 8 && prefix@ == "0o"@) || (radix == 2
                && prefix@ == "0b"@),
        ensures
            final(self).wf(),
            final(self).src() == old(self).src(),
            final(self).queue_view() == old(self).queue_view(),
            match scan_radix_number(
                old(self).src(),
                start as int,
                old(self).position(),
                radix,
                prefix@,
            ) {
                Ok(scanned) => result is Ok && spanned_view(result->Ok_0) == scanned.1 && final(self).position() == scanned.0,
                Err(err) => result is Err && result->Err_0@ == err,
            },
    {
        let ghost s = old(self).src();
        let ghost p0 = old(self).position();
        proof {
            reveal_strlit("0x");
            reveal_strlit("0o");
            reveal_strlit("0b");
        }
        let mut num = self.parse_number_with_radix(radix);
        if num.is_empty() {
            let location = self.cursor();
            Err(
                LexerError {
                    kind: LexerErrorKind::EmptyRadix,
                    location: Span { start: location, end: location },
                },
            )
        } else {
            let ghost digits = num@;
            let mut text: Vec<char> = Vec::new();
            text.push(prefix.get_char(0));
            text.push(prefix.get_char(1));
            text.append(&mut num);
            proof {
                assert(text@ =~= prefix@ + digits);
                lemma_scan_digits_valid(s, p0, radix);
                lemma_int_value_of_prefixed(digits, radix, prefix@);
                lemma_digits_val_nonneg(digits, radix);
            }
            let string = chars_to_string(&text);
            let int_value: i32 = match crate::parser::parse_int_value(string.as_str()) {
                Some(v) => v,
                None => i32::MAX,
            };
            Ok((start, TokenKind::Int { value: string, int_value }, self.cursor()))
        }
    }

    /// Scans a decimal literal from the digit under the cursor: the integer
    /// run, then a fraction after a `.` that does not open a range token,
    /// then an exponent.
    fn eat_decimal_number(&mut self) -> (result: LexerResult)
        requires
            old(self).wf(),
            old(self).position() < old(self).src().len(),
            is_digit_of(old(self).src()[old(self).position()], 10),
        ensures
            final(self).wf(),
            final(self).src() == old(self).src(),
            final(self).queue_view() == old(self).queue_view(),
            match scan_decimal_number(old(self).src(), old(self).position()) {
                Ok(scanned) => result is Ok && spanned_view(result->Ok_0) == scanned.1 && final(self).position() == scanned.0,
                Err(err) => result is Err && result->Err_0@ == err,
            },
    {
        let ghost s = old(self).src();
        let ghost p0 = old(self).position();
        let start = self.cursor();
        let mut value = self.parse_number_with_radix(10);
        let ghost int_digits = value@;
        proof {
            lemma_scan_digits_bounds(s, p0, 10);
            lemma_scan_digits_valid(s, p0, 10);
        }
        let mut is_decimal = false;
        let dot_float = match (self.ch0(), self.ch1()) {
            (Some('.'), Some('.')) => false,
            (Some('.'), _) => true,
            _ => false,
        };
        let exp_marker = match self.ch0() {
            Some('e') | Some('E') => true,
            _ => false,
        };
        if dot_float {
            is_decimal = true;
            let dot = self.next_char().unwrap();
            value.push(dot);
            let mut after = self.parse_number_with_radix(10);
            let ghost frac_digits = after@;
            let has_frac = !after.is_empty();
            value.append(&mut after);
            proof {
                assert(value@ =~= int_digits + seq!['.'] + frac_digits);
            }
            if has_frac {
                let exp_after_frac = match self.ch0() {
                    Some('e') | Some('E') => true,
                    _ => false,
                };
                if exp_after_frac {
                    let marker = self.next_char().unwrap();
                    value.push(marker);
                    let ghost with_marker = value@;
                    match self.parse_exponent() {
                        Ok(mut exp) => {
                            let ghost exp_text = exp@;
                            value.append(&mut exp);
                            proof {
                                assert(value@ =~= int_digits + seq!['.'] + frac_digits + seq![
                                    with_marker.last(),
                                ] + exp_text);
                            }
                        },
                        Err(e) => {
                            return Err(e);
                        },
                    }
                }
            }
        } else if exp_marker {
            is_decimal = true;
            let marker = self.next_char().unwrap();
            value.push(marker);
            let ghost with_marker = value@;
            match self.parse_exponent() {
                Ok(mut exp) => {
                    let ghost exp_text = exp@;
                    value.append(&mut exp);
                    proof {
                        assert(value@ =~= int_digits + seq![with_marker.last()] + exp_text);
                    }
                },
                Err(e) => {
                    return Err(e);
                },
            }
        }
        let end = self.cursor();
        let token: TokenKind = if is_decimal {
            TokenKind::Float { value: chars_to_string(&value) }
        } else {
            proof {
                lemma_int_value_of_decimal(int_digits);
                lemma_digits_val_nonneg(int_digits, 10);
            }
            let string = chars_to_string(&value);
            let int_value: i32 = match crate::parser::parse_int_value(string.as_str()) {
                Some(v) => v,
                None => i32::MAX,
            };
            TokenKind::Int { value: string, int_value }
        };
        Ok((start, token, end))
    }

    /// Scans a number literal: a radix literal when `0` is followed by a
    /// radix marker, else a decimal literal; a bare `_` immediately after
    /// the literal is an error.
    fn eat_number(&mut self) -> (result: LexerResult)
        requires
            old(self).wf(),
            old(self).position() < old(self).src().len(),
            is_digit_of(old(self).src()[old(self).position()], 10),
        ensures
            final(self).wf(),
            final(self).src() == old(self).src(),
            final(self).queue_view() == old(self).queue_view(),
            match scan_number(old(self).src(), old(self).position()) {
                Ok(scanned) => result is Ok && spanned_view(result->Ok_0) == scanned.1 && final(self).position() == scanned.0,
                Err(err) => result is Err && result->Err_0@ == err,
            },
    {
        let number: Token = match (self.ch0(), self.ch1()) {
            (Some('0'), Some('x')) | (Some('0'), Some('X')) => {
                let start = self.cursor();
                self.next_char();
                self.next_char();
                match self.eat_radix_number(start, 16, "0x") {
                    Ok(token) => token,
                    Err(e) => {
                        return Err(e);
                    },
                }
            },
            (Some('0'), Some('o')) | (Some('0'), Some('O')) => {
                let start = self.cursor();
                self.next_char();
                self.next_char();
                match self.eat_radix_number(start, 8, "0o") {
                    Ok(token) => token,
                    Err(e) => {
                        return Err(e);
                    },
                }
            },
            (Some('0'), Some('b')) | (Some('0'), Some('B')) => {
                let start = self.cursor();
                self.next_char();
                self.next_char();
                match self.eat_radix_number(start, 2, "0b") {
                    Ok(token) => token,
                    Err(e) => {
                        return Err(e);
                    },
                }
            },
            _ => {
                match self.eat_decimal_number() {
                    Ok(token) => token,
                    Err(e) => {
                        return Err(e);
                    },
                }
            },
        };
        match self.ch0() {
            Some('_') => {
                let location = self.cursor();
                Err(
                    LexerError {
                        kind: LexerErrorKind::NumberTrailingUnderScore,
                        location: Span { start: location, end: location },
                    },
                )
            },
            _ => Ok(number),
        }
    }

    /// Consumes an operator that is `compound` when followed by `=`, else
    /// `single`.
    fn eat_eq_suffixed(&mut self, single: TokenKind, compound: TokenKind) -> (result: TokenKind)
        requires
            old(self).wf(),
            old(self).position() < old(self).src().len(),
        ensures
            final(self).wf(),
            final(self).src() == old(self).src(),
            final(self).queue_view() == old(self).queue_view(),
            if old(self).position() + 1 < old(self).src().len() && old(self).src()[old(
                self,
            ).position() + 1] == '=' {
                result == compound && final(self).position() == old(self).position() + 2
            } else {
                result == single && final(self).position() == old(self).position() + 1
            },
    {
        let has_eq = match self.ch1() {
            Some('=') => true,
            _ => false,
        };
        if has_eq {
            self.next_char();
            self.eat_single_token(compound)
        } else {
            self.eat_single_token(single)
        }
    }

    /// One scan step over anything that is neither a name nor a number:
    /// whitespace and newlines, punctuation and operators, comments, string
    /// literals, and the single-character `Unknown` recovery.
    fn eat_single_character(&mut self) -> (result: Result<(), LexerError>)
        requires
            old(self).wf(),
            old(self).position() < old(self).src().len(),
            !is_name_start(old(self).src()[old(self).position()]),
            !is_digit_of(old(self).src()[old(self).position()], 10),
        ensures
            final(self).wf(),
            final(self).src() == old(self).src(),
            match spec_step(old(self).src(), old(self).position()) {
                StepResult::Token { next, token } => result is Ok && final(self).position() == next
                    && final(self).queue_view() == old(self).queue_view().push(token),
                StepResult::Skip { next } => result is Ok && final(self).position() == next && final(self).queue_view() == old(self).queue_view(),
                StepResult::Fail { err } => result is Err && result->Err_0@ == err && final(self).queue_view() == old(self).queue_view(),
            },
    {
        let c = self.ch0().unwrap();
        let start = self.cursor();
        let token: Option<TokenKind> = match c {
            '\r' => {
                self.next_char();
                match self.ch0() {
                    Some('\n') => {
                        self.next_char();
                    },
                    _ => {},
                }
                Some(TokenKind::NewLine)
            },
            '\n' => Some(self.eat_single_token(TokenKind::NewLine)),
            ' ' | '\t' | '\x0C' => {
                self.next_char();
                None
            },
            '(' => Some(self.eat_single_token(TokenKind::LParen)),
            ')' => Some(self.eat_single_token(TokenKind::RParen)),
            '[' => Some(self.eat_single_token(TokenKind::LBracket)),
            ']' => Some(self.eat_single_token(TokenKind::RBracket)),
            '{' => Some(self.eat_single_token(TokenKind::LCurly)),
            '}' => Some(self.eat_single_token(TokenKind::RCurly)),
            '/' => match self.ch1() {
                Some('/') => {
                    let comment = self.eat_comment();
                    self.queue(comment);
                    None
                },
                Some('*') => {
                    match self.eat_block_comment() {
                        Ok(comment) => {
                            self.queue(comment);
                            None
                        },
                        Err(e) => {
                            return Err(e);
                        },
                    }
                },
                Some('=') => {
                    self.next_char();
                    Some(self.eat_single_token(TokenKind::DivEq))
                },
                _ => Some(self.eat_single_token(TokenKind::Slash)),
            },
            '-' => match self.ch1() {
                Some('=') => {
                    self.next_char();
                    self.next_char();
                    Some(TokenKind::MinusEq)
                },
                Some('>') => {
                    self.next_char();
                    self.next_char();
                    Some(TokenKind::ArrowRight)
                },
                _ => Some(self.eat_single_token(TokenKind::Minus)),
            },
            '+' => Some(self.eat_eq_suffixed(TokenKind::Plus, TokenKind::PlusEq)),
            '*' => Some(self.eat_eq_suffixed(TokenKind::Star, TokenKind::MulEq)),
            '!' => Some(self.eat_eq_suffixed(TokenKind::Bang, TokenKind::NotEq)),
            '=' => Some(self.eat_eq_suffixed(TokenKind::Eq, TokenKind::EqEq)),
            '>' => Some(self.eat_eq_suffixed(TokenKind::Gt, TokenKind::GtEq)),
            '<' => Some(self.eat_eq_suffixed(TokenKind::Lt, TokenKind::LtEq)),
            '.' => {
                self.next_char();
                let mut n_dots: usize = 1;
                let second_dot = match self.ch0() {
                    Some('.') => true,
                    _ => false,
                };
                if second_dot {
                    n_dots += 1;
                    self.next_char();
                }
                let eq_next = match self.ch0() {
                    Some('=') => true,
                    _ => false,
                };
                if eq_next {
                    self.next_char();
                    Some(TokenKind::DotDotEq)
                } else {
                    let third_dot = match self.ch0() {
                        Some('.') => true,
                        _ => false,
                    };
                    if third_dot {
                        n_dots += 1;
                        self.next_char();
                    }
                    let token = if n_dots == 1 {
                        TokenKind::Dot
                    } else if n_dots == 2 {
                        TokenKind::DotDot
                    } else {
                        TokenKind::DotDotDot
                    };
                    Some(token)
                }
            },
            ';' => Some(self.eat_single_token(TokenKind::SemiColon)),
            ':' => Some(self.eat_single_token(TokenKind::Colon)),
            '"' => {
                match self.eat_double_quoted_string() {
                    Ok(spanned) => {
                        self.queue(spanned);
                        None
                    },
                    Err(e) => {
                        return Err(e);
                    },
                }
            },
            _ => {
                self.next_char();
                Some(TokenKind::Unknown)
            },
        };
        if let Some(token) = token {
            let end = self.cursor();
            self.queue((start, token, end));
        }
        Ok(())
    }

    /// One scan step: dispatch on the class of the character under the
    /// cursor; at the end of the input, enqueue the `Eof` token.
    fn consume(&mut self) -> (result: Result<(), LexerError>)
        requires
            old(self).wf(),
        ensures
            final(self).wf(),
            final(self).src() == old(self).src(),
            if old(self).position() < old(self).src().len() {
                match spec_step(old(self).src(), old(self).position()) {
                    StepResult::Token { next, token } => result is Ok && final(self).position()
                        == next && final(self).queue_view() == old(self).queue_view().push(token),
                    StepResult::Skip { next } => result is Ok && final(self).position() == next
                        && final(self).queue_view() == old(self).queue_view(),
                    StepResult::Fail { err } => result is Err && result->Err_0@ == err && final(self).queue_view() == old(self).queue_view(),
                }
            } else {
                result is Ok && final(self).position() == old(self).position() && final(self).queue_view() == old(self).queue_view().push(
                    (
                        old(self).src().len() as int,
                        TokenView::Eof,
                        old(self).src().len() as int,
                    ),
                )
            },
    {
        match self.ch0() {
            Some(c) => {
                if self.is_name_start(c) {
                    let name = match self.eat_name() {
                        Ok(token) => token,
                        Err(e) => {
                            return Err(e);
                        },
                    };
                    self.queue(name);
                } else if self.is_number_start(c) {
                    let number = match self.eat_number() {
                        Ok(token) => token,
                        Err(e) => {
                            return Err(e);
                        },
                    };
                    self.queue(number);
                } else {
                    match self.eat_single_character() {
                        Ok(()) => {},
                        Err(e) => {
                            return Err(e);
                        },
                    }
                }
            },
            None => {
                let pos = self.cursor();
                self.queue((pos, TokenKind::Eof, pos));
            },
        }
        Ok(())
    }

    /// Delivers the front of the pending queue, running scan steps until the
    /// queue is non-empty: the next token of the stream, or the first scan
    /// failure.
    pub fn advance(&mut self) -> (result: LexerResult)
        requires
            old(self).wf(),
        ensures
            final(self).wf(),
            final(self).src() == old(self).src(),
            advance_result(*old(self), *final(self), result),
    {
        let ghost s = old(self).src();
        while self.token_queue.is_empty()
            invariant
                self.wf(),
                self.src() == s,
                s == old(self).src(),
                if old(self).queue_view().len() > 0 {
                    self == old(self)
                } else {
                    if self.queue_view().len() == 0 {
                        0 <= self.position() && spec_next(s, self.position()) == spec_next(
                            s,
                            old(self).position(),
                        )
                    } else {
                        self.queue_view().len() == 1 && spec_next(s, old(self).position())
                            == Ok::<(SpannedTokenView, int), LexerErrorView>(
                            (self.queue_view()[0], self.position()),
                        )
                    }
                },
            decreases s.len() - self.position() + (if self.token_queue.len() == 0 {
                1int
            } else {
                0int
            }),
        {
            let ghost pre = *self;
            match self.consume() {
                Ok(()) => {
                    proof {
                        if pre.position() < s.len() {
                            lemma_step_progress(s, pre.position());
                        }
                    }
                },
                Err(e) => {
                    return Err(e);
                },
            }
        }
        let front = self.token_queue.remove(0);
        proof {
            if old(self).queue_view().len() > 0 {
                assert(self.queue_view() =~= old(self).queue_view().drop_first());
            } else {
                assert(self.queue_view() =~= Seq::<SpannedTokenView>::empty());
            }
        }
        Ok(front)
    }

    /// Like [`Lexer::advance`], but reports the end of the stream as `None`
    /// instead of the `Eof` token.
    pub fn next(&mut self) -> (result: Option<LexerResult>)
        requires
            old(self).wf(),
        ensures
            final(self).wf(),
            final(self).src() == old(self).src(),
            match result {
                None => exists|t: Token|
                    advance_result(*old(self), *final(self), Ok(t)) && spanned_view(t).1 is Eof,
                Some(delivered) => advance_result(*old(self), *final(self), delivered) && match delivered {
                    Ok(token) => !(spanned_view(token).1 is Eof),
                    Err(_) => true,
                },
            },
    {
        match self.advance() {
            Ok((start, TokenKind::Eof, end)) => {
                proof {
                    let t = ((start, TokenKind::Eof, end));
                    assert(advance_result(*old(self), *final(self), Ok(t)) && spanned_view(
                        t,
                    ).1 is Eof);
                }
                None
            },
            t => Some(t),
        }
    }
}

/// How one [`Lexer::advance`] call relates the lexer states it moves
/// between to what it returns: the front of the pending queue when one is
/// waiting, else the next token of the stream from the cursor, or the first
/// scan failure.
pub open spec fn advance_result(pre: Lexer, post: Lexer, result: LexerResult) -> bool {
    if pre.queue_view().len() > 0 {
        result is Ok && spanned_view(result->Ok_0) == pre.queue_view()[0] && post.queue_view()
            == pre.queue_view().drop_first() && post.position() == pre.position()
    } else {
        match spec_next(pre.src(), pre.position()) {
            Ok(next_token) => result is Ok && spanned_view(result->Ok_0) == next_token.0
                && post.position() == next_token.1 && post.queue_view().len() == 0,
            Err(err) => result is Err && result->Err_0@ == err,
        }
    }
}

/// Scans a whole input: every token through the final `Eof`, or the first
/// scan failure.
pub fn tokenize(input: Vec<char>) -> (result: Result<Vec<Token>, LexerError>)
    ensures
        match spec_tokens(input@, 0) {
            Ok(stream) => result is Ok && result->Ok_0@.map_values(|t: Token| spanned_view(t))
                == stream,
            Err(err) => result is Err && result->Err_0@ == err,
        },
{
    let ghost src = input@;
    let mut lexer = Lexer::new(input);
    let mut tokens: Vec<Token> = Vec::new();
    loop
        invariant
            src == input@,
            lexer.wf(),
            lexer.src() == src,
            lexer.queue_view().len() == 0,
            0 <= lexer.position() <= src.len(),
            match spec_tokens(src, lexer.position()) {
                Ok(rest) => spec_tokens(src, 0) == Ok::<Seq<SpannedTokenView>, LexerErrorView>(
                    tokens@.map_values(|t: Token| spanned_view(t)) + rest,
                ),
                Err(err) => spec_tokens(src, 0) == Err::<Seq<SpannedTokenView>, LexerErrorView>(
                    err,
                ),
            },
        decreases src.len() - lexer.position(),
    {
        proof {
            lemma_next_then_tokens(src, lexer.position());
        }
        let ghost before = tokens@.map_values(|t: Token| spanned_view(t));
        match lexer.advance() {
            Err(e) => {
                return Err(e);
            },
            Ok(token) => {
                let is_eof = matches!(token.1, TokenKind::Eof);
                tokens.push(token);
                proof {
                    assert(tokens@.map_values(|t: Token| spanned_view(t)) =~= before.push(
                        spanned_view(token),
                    ));
                }
                if is_eof {
                    proof {
                        if spec_tokens(src, 0) is Ok {
                            assert(before + seq![spanned_view(token)] =~= before.push(
                                spanned_view(token),
                            ));
                        }
                    }
                    return Ok(tokens);
                }
                proof {
                    if spec_tokens(src, 0) is Ok {
                        let rest = spec_tokens(src, lexer.position())->Ok_0;
                        assert(before + (seq![spanned_view(token)] + rest) =~= (before.push(
                            spanned_view(token),
                        ) + rest));
                    }
                }
            },
        }
    }
}

impl core::convert::From<Token> for Span {
    /// The span a scanned token covers.
    fn from(value: Token) -> (result: Span) {
        Span { start: value.0, end: value.2 }
    }
}

impl vstd::std_specs::convert::FromSpecImpl<Token> for Span {
    open spec fn obeys_from_spec() -> bool {
        true
    }

    open spec fn from_spec(value: Token) -> Span {
        Span { start: value.0, end: value.2 }
    }
}

/// The character of `s` at `p`, if `p` is inside `s`.
pub open spec fn char_at(s: Seq<char>, p: int) -> Option<char> {
    if 0 <= p < s.len() {
        Some(s[p])
    } else {
        None
    }
}

/// Relies on std's `FromIterator<char>` for `String`: collecting characters
/// yields the string of exactly those characters, in order.
#[verifier::external_body]
fn chars_to_string(chars: &Vec<char>) -> (result: String)
    ensures
        result@ == chars@,
{
    chars.iter().collect()
}

} // verus!
