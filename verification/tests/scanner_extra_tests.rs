use kai_core::ast::span::Span;
use kai_core::parser::error::{LexerError, LexerErrorKind};
use kai_core::parser::lexer::{tokenize, Lexer, Token};
use kai_core::parser::parse_int_value;
use kai_core::parser::token::TokenKind;

fn lex_all(input: &str) -> Vec<Token> {
    tokenize(input.chars().collect()).expect("scanning should succeed")
}

#[test]
fn radix_literals_resolve_correctly() {
    let tokens = lex_all("0xff 0o10 0b101");
    assert_eq!(
        tokens[0].1,
        TokenKind::Int {
            value: "0xff".into(),
            int_value: 255
        }
    );
    assert_eq!(
        tokens[1].1,
        TokenKind::Int {
            value: "0o10".into(),
            int_value: 8
        }
    );
    assert_eq!(
        tokens[2].1,
        TokenKind::Int {
            value: "0b101".into(),
            int_value: 5
        }
    );
}

#[test]
fn exponent_case_is_preserved_and_value_agrees() {
    let lower = lex_all("1e-100");
    let upper = lex_all("1E-100");
    let lower_text = match &lower[0].1 {
        TokenKind::Float { value } => value.clone(),
        other => panic!("expected a float, got {:?}", other),
    };
    let upper_text = match &upper[0].1 {
        TokenKind::Float { value } => value.clone(),
        other => panic!("expected a float, got {:?}", other),
    };
    assert_eq!(lower_text, "1e-100");
    assert_eq!(upper_text, "1E-100");
    assert_eq!(lower_text.parse::<f64>().unwrap(), 1e-100);
    assert_eq!(upper_text.parse::<f64>().unwrap(), 1e-100);
}

#[test]
fn float_and_dot_access_scan_differently() {
    let tokens = lex_all("10.0");
    assert_eq!(
        tokens[0],
        (
            0,
            TokenKind::Float {
                value: "10.0".into()
            },
            4
        )
    );

    let tokens = lex_all("10.radians()");
    assert_eq!(
        tokens[0],
        (0, TokenKind::Float { value: "10.".into() }, 3)
    );
    assert_eq!(
        tokens[1],
        (
            3,
            TokenKind::Name {
                name: "radians".into()
            },
            10
        )
    );
    assert_eq!(tokens[2], (10, TokenKind::LParen, 11));
    assert_eq!(tokens[3], (11, TokenKind::RParen, 12));
}

#[test]
fn range_after_integer_is_not_a_float() {
    let tokens = lex_all("10..20");
    assert_eq!(
        tokens[0],
        (
            0,
            TokenKind::Int {
                value: "10".into(),
                int_value: 10
            },
            2
        )
    );
    assert_eq!(tokens[1], (2, TokenKind::DotDot, 4));
    assert_eq!(
        tokens[2],
        (
            4,
            TokenKind::Int {
                value: "20".into(),
                int_value: 20
            },
            6
        )
    );
}

#[test]
fn inclusive_range_after_integer_scans_as_dot_dot_eq() {
    let tokens = lex_all("1..=3");
    assert_eq!(
        tokens[0],
        (
            0,
            TokenKind::Int {
                value: "1".into(),
                int_value: 1
            },
            1
        )
    );
    assert_eq!(tokens[1], (1, TokenKind::DotDotEq, 4));
    assert_eq!(
        tokens[2],
        (
            4,
            TokenKind::Int {
                value: "3".into(),
                int_value: 3
            },
            5
        )
    );
}

#[test]
fn crlf_is_one_newline_spanning_both_characters() {
    let tokens = lex_all("\r\n");
    assert_eq!(
        tokens,
        vec![(0, TokenKind::NewLine, 2), (2, TokenKind::Eof, 2)]
    );
}

#[test]
fn let_statement_scans_to_expected_stream() {
    let tokens = lex_all("let a = 10;");
    assert_eq!(
        tokens,
        vec![
            (0, TokenKind::Let, 3),
            (4, TokenKind::Name { name: "a".into() }, 5),
            (6, TokenKind::Eq, 7),
            (
                8,
                TokenKind::Int {
                    value: "10".into(),
                    int_value: 10
                },
                10
            ),
            (10, TokenKind::SemiColon, 11),
            (11, TokenKind::Eof, 11),
        ]
    );
}

#[test]
fn radix_sum_scans_to_expected_stream() {
    let tokens = lex_all("0xff + 0b101");
    assert_eq!(
        tokens,
        vec![
            (
                0,
                TokenKind::Int {
                    value: "0xff".into(),
                    int_value: 255
                },
                4
            ),
            (5, TokenKind::Plus, 6),
            (
                7,
                TokenKind::Int {
                    value: "0b101".into(),
                    int_value: 5
                },
                12
            ),
            (12, TokenKind::Eof, 12),
        ]
    );
}

#[test]
fn token_spans_partition_blankless_input() {
    let input = "let\na=10;//c\n\"s\"";
    let tokens = lex_all(input);
    let mut rebuilt = String::new();
    for token in tokens.iter() {
        if !matches!(token.1, TokenKind::Eof) {
            rebuilt.push_str(&input[token.0..token.2]);
        }
    }
    assert_eq!(rebuilt, input);
}

#[test]
fn empty_radix_is_reported_after_the_prefix() {
    let mut lexer = Lexer::new("0x".chars().collect());
    assert_eq!(
        lexer.advance(),
        Err(LexerError {
            kind: LexerErrorKind::EmptyRadix,
            location: Span { start: 2, end: 2 },
        })
    );
}

#[test]
fn missing_exponent_value_is_reported_after_the_sign() {
    let mut lexer = Lexer::new("1e-".chars().collect());
    assert_eq!(
        lexer.advance(),
        Err(LexerError {
            kind: LexerErrorKind::MissingExponentValue,
            location: Span { start: 2, end: 3 },
        })
    );
}

#[test]
fn underscores_separate_digits_and_leave_the_text() {
    let tokens = lex_all("1_000");
    assert_eq!(
        tokens[0],
        (
            0,
            TokenKind::Int {
                value: "1000".into(),
                int_value: 1000
            },
            5
        )
    );
}

#[test]
fn unterminated_block_comment_runs_to_the_end() {
    let tokens = lex_all("/* open");
    assert_eq!(tokens[0], (0, TokenKind::Comment, 7));
}

#[test]
fn doc_comment_keeps_interior_text() {
    let tokens = lex_all("/** doc */x");
    assert_eq!(
        tokens[0],
        (
            0,
            TokenKind::DocComment {
                comment: " doc ".into()
            },
            10
        )
    );
    assert_eq!(tokens[1], (10, TokenKind::Name { name: "x".into() }, 11));
}

#[test]
fn string_escapes_decode() {
    let tokens = lex_all(r#""a\tb\\c\"d\qe""#);
    assert_eq!(
        tokens[0].1,
        TokenKind::String {
            value: "a\tb\\c\"d\\qe".into()
        }
    );
}

#[test]
fn uppercase_radix_marker_scans_with_canonical_prefix() {
    let tokens = lex_all("0X1A 0O7 0B11");
    assert_eq!(
        tokens[0].1,
        TokenKind::Int {
            value: "0x1A".into(),
            int_value: 26
        }
    );
    assert_eq!(
        tokens[1].1,
        TokenKind::Int {
            value: "0o7".into(),
            int_value: 7
        }
    );
    assert_eq!(
        tokens[2].1,
        TokenKind::Int {
            value: "0b11".into(),
            int_value: 3
        }
    );
}

#[test]
fn parse_int_value_handles_prefixes_and_rejects_bad_digits() {
    assert_eq!(parse_int_value("123"), Some(123));
    assert_eq!(parse_int_value("0xff"), Some(255));
    assert_eq!(parse_int_value("0X1A"), Some(26));
    assert_eq!(parse_int_value("0o10"), Some(8));
    assert_eq!(parse_int_value("0b101"), Some(5));
    assert_eq!(parse_int_value("0x"), None);
    assert_eq!(parse_int_value(""), None);
    assert_eq!(parse_int_value("12a"), None);
    assert_eq!(parse_int_value("0b2"), None);
    assert_eq!(parse_int_value("2147483647"), Some(i32::MAX));
    assert_eq!(parse_int_value("2147483648"), None);
}

#[test]
fn oversized_literal_saturates() {
    let tokens = lex_all("99999999999");
    assert_eq!(
        tokens[0].1,
        TokenKind::Int {
            value: "99999999999".into(),
            int_value: i32::MAX
        }
    );
}

#[test]
fn keywords_match_whole_names_only() {
    let tokens = lex_all("let letter");
    assert_eq!(tokens[0].1, TokenKind::Let);
    assert_eq!(
        tokens[1].1,
        TokenKind::Name {
            name: "letter".into()
        }
    );
}

#[test]
fn display_text_renders_tokens() {
    assert_eq!(TokenKind::Let.display_text(), "let");
    assert_eq!(TokenKind::ArrowRight.display_text(), "->");
    assert_eq!(
        TokenKind::Name {
            name: "radians".into()
        }
        .display_text(),
        "radians"
    );
    assert_eq!(
        TokenKind::Int {
            value: "0xff".into(),
            int_value: 255
        }
        .display_text(),
        "0xff"
    );
}

#[test]
fn span_from_token_covers_it() {
    let token: Token = (3, TokenKind::Colon, 4);
    let span = Span::from(token);
    assert_eq!(span, Span { start: 3, end: 4 });
}
