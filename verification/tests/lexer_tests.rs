use kai_core::ast::span::Span;
use kai_core::parser::error::{LexerError, LexerErrorKind};
use kai_core::parser::lexer::{Lexer, Token};
use kai_core::parser::token::TokenKind;

/// Pulls every token before `Eof`, as iterating the lexer would.
fn collect_tokens(code: &str) -> Vec<Token> {
    let mut lexer = Lexer::new(code.chars().collect());
    let mut tokens: Vec<Token> = Vec::new();
    while let Some(res) = lexer.next() {
        tokens.push(res.unwrap());
    }
    tokens
}

fn create_test_case() -> Vec<Token> {
    // the + and - should not affect the parsing
    let code = r#"
            100e10
            1e110
            1.112e100
            1e-100
            1E-100
            1_00e100
            -1e10
            -1e-100
            1e+100
            1_100.1e-100
            0e0
            0.0e0
            0e-1
            0e+1
            1e+10
            2.5e+3
            -3.14e+2
            10
            20
            +20
            -30
            -40
        "#
    .trim()
    .to_owned();

    let tokens: Vec<Token> = collect_tokens(&code)
        .into_iter()
        .filter(|res| matches!(res.1, TokenKind::Int { .. } | TokenKind::Float { .. }))
        .collect();

    tokens
}

fn float(value: &str, start: usize, end: usize) -> Token {
    let token = TokenKind::Float {
        value: value.into(),
    };

    (start, token, end)
}

fn int_token(value: &str, start: usize, end: usize) -> Token {
    let int_value =
        kai_core::parser::parse_int_value(value).expect("should have parsed to an int value");
    let token = TokenKind::Int {
        value: value.into(),
        int_value,
    };

    (start, token, end)
}

#[test]
fn should_parse_numbers_correcty_with_spans() {
    let tokens = create_test_case();

    let expected: Vec<Token> = vec![
        float("100e10", 0, 6),
        float("1e110", 19, 24),
        float("1.112e100", 37, 46),
        float("1e-100", 59, 65),
        float("1E-100", 78, 84),
        float("100e100", 97, 105),
        float("1e10", 119, 123),
        float("1e-100", 137, 143),
        float("1e+100", 156, 162),
        float("1100.1e-100", 175, 187),
        float("0e0", 200, 203),
        float("0.0e0", 216, 221),
        float("0e-1", 234, 238),
        float("0e+1", 251, 255),
        float("1e+10", 268, 273),
        float("2.5e+3", 286, 292),
        float("3.14e+2", 306, 313),
        int_token("10", 326, 328),
        int_token("20", 341, 343),
        int_token("20", 357, 359),
        int_token("30", 373, 375),
        int_token("40", 389, 391),
    ];

    assert_eq!(tokens, expected, "There is some problems parsing numbers");
}

#[test]
fn should_parse_to_actual_datatype() {
    let expected_floats: Vec<f64> = vec![
        100e10,
        1e110,
        1.112e100,
        1e-100,
        1E-100,
        100e100,
        1e10,
        1e-100,
        1e+100,
        1100.1e-100,
        0e0,
        0.0e0,
        0e-1,
        0e+1,
        1e+10,
        2.5e+3,
        3.14e+2,
    ];

    let expected_ints: Vec<i32> = vec![10, 20, 20, 30, 40];

    let tokens = create_test_case();

    let mut floats: Vec<f64> = vec![];
    let mut ints: Vec<i32> = vec![];

    for item in tokens.iter() {
        let token = &item.1;
        match token {
            TokenKind::Float { value } => {
                let float_val: f64 = value.parse().unwrap();
                floats.push(float_val);
            }
            TokenKind::Int { value, .. } => {
                let int_val: i32 = value.parse().unwrap();
                ints.push(int_val);
            }
            _ => {}
        }
    }

    assert_eq!(expected_floats, floats);
    assert_eq!(expected_ints, ints);
}

#[test]
fn should_parse_numbers_with_radix_correctly() {
    let expected = [
        int_token("10", 0, 2),
        int_token("0xa", 19, 22),
        int_token("0xff", 39, 43),
        int_token("0o10", 60, 64),
    ];

    let code = r#"
                10
                0xa
                0xff
                0o10
            "#
    .trim();

    let tokens: Vec<Token> = collect_tokens(code)
        .into_iter()
        .filter(|res| matches!(res.1, TokenKind::Int { .. } | TokenKind::Float { .. }))
        .collect();

    assert_eq!(tokens, expected)
}

#[test]
fn number_parsing_should_not_be_greedy_with_dot_access() {
    let code = "
            10.0
            10.radians()
            10.degreees()
        ";

    let expected = [
        (0, TokenKind::NewLine, 1),
        (
            13,
            TokenKind::Float {
                value: "10.0".into(),
            },
            17,
        ),
        (17, TokenKind::NewLine, 18),
        (
            30,
            TokenKind::Float {
                value: "10.".into(),
            },
            33,
        ),
        (
            33,
            TokenKind::Name {
                name: "radians".into(),
            },
            40,
        ),
        (40, TokenKind::LParen, 41),
        (41, TokenKind::RParen, 42),
        (42, TokenKind::NewLine, 43),
        (
            55,
            TokenKind::Float {
                value: "10.".into(),
            },
            58,
        ),
        (
            58,
            TokenKind::Name {
                name: "degreees".into(),
            },
            66,
        ),
        (66, TokenKind::LParen, 67),
        (67, TokenKind::RParen, 68),
        (68, TokenKind::NewLine, 69),
    ];

    let tokens = collect_tokens(code);

    assert_eq!(tokens, expected)
}

fn lex_input(input: &str) -> Vec<Token> {
    let mut lexer = Lexer::new(input.chars().collect());
    let mut tokens = Vec::new();

    while let Ok(token) = lexer.advance() {
        if matches!(token.1, TokenKind::Eof) {
            tokens.push(token);
            break;
        }
        tokens.push(token);
    }

    tokens
}

#[test]
fn test_single_characters() {
    let input = "( ) [ ] { } + - ; :";
    let tokens = lex_input(input);
    assert_eq!(
        tokens,
        vec![
            (0, TokenKind::LParen, 1),
            (2, TokenKind::RParen, 3),
            (4, TokenKind::LBracket, 5),
            (6, TokenKind::RBracket, 7),
            (8, TokenKind::LCurly, 9),
            (10, TokenKind::RCurly, 11),
            (12, TokenKind::Plus, 13),
            (14, TokenKind::Minus, 15),
            (16, TokenKind::SemiColon, 17),
            (18, TokenKind::Colon, 19),
            (19, TokenKind::Eof, 19)
        ]
    );
}

#[test]
fn test_identifiers() {
    let input = "abc _abc _123";
    let tokens = lex_input(input);
    assert_eq!(
        tokens,
        vec![
            (0, TokenKind::Name { name: "abc".into() }, 3),
            (
                4,
                TokenKind::DiscardName {
                    name: "_abc".into()
                },
                8
            ),
            (
                9,
                TokenKind::DiscardName {
                    name: "_123".into()
                },
                13
            ),
            (13, TokenKind::Eof, 13)
        ]
    );
}

#[test]
fn test_numbers() {
    let input = "123 0x1A 0o77 0b101";
    let tokens = lex_input(input);
    assert_eq!(
        tokens,
        vec![
            (
                0,
                TokenKind::Int {
                    value: "123".into(),
                    int_value: 123
                },
                3
            ),
            (
                4,
                TokenKind::Int {
                    value: "0x1A".into(),
                    int_value: 26
                },
                8
            ),
            (
                9,
                TokenKind::Int {
                    value: "0o77".into(),
                    int_value: 63
                },
                13
            ),
            (
                14,
                TokenKind::Int {
                    value: "0b101".into(),
                    int_value: 5
                },
                19
            ),
            (19, TokenKind::Eof, 19)
        ]
    );
}

#[test]
fn test_strings() {
    let input = r#""hello" "escaped\nstring""#;
    let tokens = lex_input(input);
    assert_eq!(
        tokens,
        vec![
            (
                0,
                TokenKind::String {
                    value: "hello".into()
                },
                7
            ),
            (
                8,
                TokenKind::String {
                    value: "escaped\nstring".into()
                },
                25
            ),
            (25, TokenKind::Eof, 25)
        ]
    );
}

#[test]
fn test_eof() {
    let input = "";
    let tokens = lex_input(input);
    assert_eq!(tokens, vec![(0, TokenKind::Eof, 0),]);
}

#[test]
fn test_operators_and_symbols() {
    let input = "== . .. ... -> + * - / += -= *= /= = ! != ..= > < >= <=";
    let tokens = lex_input(input);
    assert_eq!(
        tokens,
        vec![
            (0, TokenKind::EqEq, 2),
            (3, TokenKind::Dot, 4),
            (5, TokenKind::DotDot, 7),
            (8, TokenKind::DotDotDot, 11),
            (12, TokenKind::ArrowRight, 14),
            (15, TokenKind::Plus, 16),
            (17, TokenKind::Star, 18),
            (19, TokenKind::Minus, 20),
            (21, TokenKind::Slash, 22),
            (23, TokenKind::PlusEq, 25),
            (26, TokenKind::MinusEq, 28),
            (29, TokenKind::MulEq, 31),
            (32, TokenKind::DivEq, 34),
            (35, TokenKind::Eq, 36),
            (37, TokenKind::Bang, 38),
            (39, TokenKind::NotEq, 41),
            (42, TokenKind::DotDotEq, 45),
            (46, TokenKind::Gt, 47),
            (48, TokenKind::Lt, 49),
            (50, TokenKind::GtEq, 52),
            (53, TokenKind::LtEq, 55),
            (55, TokenKind::Eof, 55),
        ]
    );
}

#[test]
fn test_newlines_and_whitespace() {
    let input = " \t\n\r\n";
    let tokens = lex_input(input);
    assert_eq!(
        tokens,
        vec![
            (2, TokenKind::NewLine, 3), // LF
            (3, TokenKind::NewLine, 5), // CRLF
            (5, TokenKind::Eof, 5)
        ]
    );
}

#[test]
fn test_invalid_tokens() {
    let input = "#$%";
    let tokens = lex_input(input);
    assert_eq!(
        tokens,
        vec![
            (0, TokenKind::Unknown, 1),
            (1, TokenKind::Unknown, 2),
            (2, TokenKind::Unknown, 3),
            (3, TokenKind::Eof, 3)
        ]
    );
}

#[test]
fn test_error_non_terminated_string() {
    let input = r#""hello"#;
    let mut lexer = Lexer::new(input.chars().collect());
    assert!(matches!(
        lexer.advance(),
        Err(LexerError {
            kind: LexerErrorKind::NonTerminatedStringLiteral,
            location: Span { start: 0, end: 6 }
        })
    ));
}

#[test]
fn test_error_trailing_underscore() {
    let input = "123_";
    let mut lexer = Lexer::new(input.chars().collect());
    assert!(matches!(
        lexer.advance(),
        Err(LexerError {
            kind: LexerErrorKind::NumberTrailingUnderScore,
            location: Span { start: 3, end: 3 }
        })
    ));
}

#[test]
fn test_comments() {
    let input = "
            // hello code
            /*
                Thing
            */

            /**
             * Welcome to Kai lang
             * thing is a thing
            */
            
        ";

    let tokens = lex_input(input)
        .into_iter()
        .filter(|t| !matches!(t.1, TokenKind::NewLine))
        .collect::<Vec<Token>>();

    assert_eq!(tokens,
        [
            ( 13, TokenKind::Comment, 27, ),
            ( 39, TokenKind::Comment, 78, ),
            (
                92,
                TokenKind::DocComment {
                    comment: "\n             * Welcome to Kai lang\n             * thing is a thing\n            ".into(),
                },
                177,
            ),
            ( 199, TokenKind::Eof, 199, ),
        ]
    );
}
