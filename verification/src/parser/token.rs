//! The closed set of token kinds, their mathematical view, and the keyword
//! table.
use vstd::prelude::*;
use vstd::string::StringExecFns;

verus! {

/// A lexeme kind. `Int` and `Float` keep the scanned text (radix prefix and
/// exponent included, underscore separators dropped) so diagnostics can quote
/// the source; `String` keeps the decoded (escape-resolved) contents.
#[derive(Debug, Clone, PartialOrd, PartialEq)]
pub enum TokenKind {
    // keywords
    As,
    Class,
    ClassSelf,
    Let,
    Mut,
    Panic,
    Pub,
    If,
    Fn,
    For,
    In,
    Loop,
    Else,
    Return,
    Using,
    Todo,
    /// An identifier.
    Name { name: String },
    /// An identifier starting with `_`.
    DiscardName { name: String },
    /// An integer literal together with its radix-resolved value.
    Int { value: String, int_value: i32 },
    /// A floating-point literal; only the text is kept.
    Float { value: String },
    /// A string literal; the decoded contents, quotes not included.
    String { value: String },
    Plus,
    Minus,
    Star,
    Slash,
    PlusEq,
    MinusEq,
    MulEq,
    DivEq,
    Comment,
    /// A `/** ... */` comment; the interior text is kept verbatim.
    DocComment { comment: String },
    LParen,
    RParen,
    LBracket,
    RBracket,
    LCurly,
    RCurly,
    ArrowRight,
    Gt,
    Lt,
    LtEq,
    GtEq,
    At,
    Dot,
    DotDot,
    DotDotEq,
    DotDotDot,
    Eq,
    EqEq,
    Bang,
    NotEq,
    SemiColon,
    Colon,
    /// A single unrecognized character. Not an error: scanning never halts
    /// on unexpected input.
    Unknown,
    NewLine,
    Eof,
}

/// The mathematical view of a [`TokenKind`]: the same tagged union with text
/// as a sequence of characters and the integer value unbounded.
pub enum TokenView {
    As,
    Class,
    ClassSelf,
    Let,
    Mut,
    Panic,
    Pub,
    If,
    Fn,
    For,
    In,
    Loop,
    Else,
    Return,
    Using,
    Todo,
    Name { name: Seq<char> },
    DiscardName { name: Seq<char> },
    Int { value: Seq<char>, int_value: int },
    Float { value: Seq<char> },
    String { value: Seq<char> },
    Plus,
    Minus,
    Star,
    Slash,
    PlusEq,
    MinusEq,
    MulEq,
    DivEq,
    Comment,
    DocComment { comment: Seq<char> },
    LParen,
    RParen,
    LBracket,
    RBracket,
    LCurly,
    RCurly,
    ArrowRight,
    Gt,
    Lt,
    LtEq,
    GtEq,
    At,
    Dot,
    DotDot,
    DotDotEq,
    DotDotDot,
    Eq,
    EqEq,
    Bang,
    NotEq,
    SemiColon,
    Colon,
    Unknown,
    NewLine,
    Eof,
}

impl View for TokenKind {
    type V = TokenView;

    open spec fn view(&self) -> TokenView {
        match self {
            TokenKind::As => TokenView::As,
            TokenKind::Class => TokenView::Class,
            TokenKind::ClassSelf => TokenView::ClassSelf,
            TokenKind::Let => TokenView::Let,
            TokenKind::Mut => TokenView::Mut,
            TokenKind::Panic => TokenView::Panic,
            TokenKind::Pub => TokenView::Pub,
            TokenKind::If => TokenView::If,
            TokenKind::Fn => TokenView::Fn,
            TokenKind::For => TokenView::For,
            TokenKind::In => TokenView::In,
            TokenKind::Loop => TokenView::Loop,
            TokenKind::Else => TokenView::Else,
            TokenKind::Return => TokenView::Return,
            TokenKind::Using => TokenView::Using,
            TokenKind::Todo => TokenView::Todo,
            TokenKind::Name { name } => TokenView::Name { name: name@ },
            TokenKind::DiscardName { name } => TokenView::DiscardName { name: name@ },
            TokenKind::Int { value, int_value } => TokenView::Int {
                value: value@,
                int_value: *int_value as int,
            },
            TokenKind::Float { value } => TokenView::Float { value: value@ },
            TokenKind::String { value } => TokenView::String { value: value@ },
            TokenKind::Plus => TokenView::Plus,
            TokenKind::Minus => TokenView::Minus,
            TokenKind::Star => TokenView::Star,
            TokenKind::Slash => TokenView::Slash,
            TokenKind::PlusEq => TokenView::PlusEq,
            TokenKind::MinusEq => TokenView::MinusEq,
            TokenKind::MulEq => TokenView::MulEq,
            TokenKind::DivEq => TokenView::DivEq,
            TokenKind::Comment => TokenView::Comment,
            TokenKind::DocComment { comment } => TokenView::DocComment { comment: comment@ },
            TokenKind::LParen => TokenView::LParen,
            TokenKind::RParen => TokenView::RParen,
            TokenKind::LBracket => TokenView::LBracket,
            TokenKind::RBracket => TokenView::RBracket,
            TokenKind::LCurly => TokenView::LCurly,
            TokenKind::RCurly => TokenView::RCurly,
            TokenKind::ArrowRight => TokenView::ArrowRight,
            TokenKind::Gt => TokenView::Gt,
            TokenKind::Lt => TokenView::Lt,
            TokenKind::LtEq => TokenView::LtEq,
            TokenKind::GtEq => TokenView::GtEq,
            TokenKind::At => TokenView::At,
            TokenKind::Dot => TokenView::Dot,
            TokenKind::DotDot => TokenView::DotDot,
            TokenKind::DotDotEq => TokenView::DotDotEq,
            TokenKind::DotDotDot => TokenView::DotDotDot,
            TokenKind::Eq => TokenView::Eq,
            TokenKind::EqEq => TokenView::EqEq,
            TokenKind::Bang => TokenView::Bang,
            TokenKind::NotEq => TokenView::NotEq,
            TokenKind::SemiColon => TokenView::SemiColon,
            TokenKind::Colon => TokenView::Colon,
            TokenKind::Unknown => TokenView::Unknown,
            TokenKind::NewLine => TokenView::NewLine,
            TokenKind::Eof => TokenView::Eof,
        }
    }
}

/// The keyword table: the token a piece of name text stands for, if any.
/// Keywords only ever match the entire scanned identifier, never a prefix,
/// because the scanner consumes the longest identifier first.
pub open spec fn keyword_of(text: Seq<char>) -> Option<TokenView> {
    if text == "as"@ {
        Some(TokenView::As)
    } else if text == "class"@ {
        Some(TokenView::Class)
    } else if text == "let"@ {
        Some(TokenView::Let)
    } else if text == "mut"@ {
        Some(TokenView::Mut)
    } else if text == "panic"@ {
        Some(TokenView::Panic)
    } else if text == "pub"@ {
        Some(TokenView::Pub)
    } else if text == "return"@ {
        Some(TokenView::Return)
    } else if text == "self"@ {
        Some(TokenView::ClassSelf)
    } else if text == "using"@ {
        Some(TokenView::Using)
    } else if text == "if"@ {
        Some(TokenView::If)
    } else if text == "else"@ {
        Some(TokenView::Else)
    } else if text == "todo"@ {
        Some(TokenView::Todo)
    } else if text == "fn"@ {
        Some(TokenView::Fn)
    } else if text == "for"@ {
        Some(TokenView::For)
    } else if text == "in"@ {
        Some(TokenView::In)
    } else if text == "loop"@ {
        Some(TokenView::Loop)
    } else {
        None
    }
}

/// Whether a piece of name text equals the given literal.
fn text_is(name: &String, lit: &str) -> (result: bool)
    ensures
        result == (name@ == lit@),
{
    let other = String::from_str(lit);
    name.eq(&other)
}

/// Looks the exact name text up in the keyword table.
pub fn get_keyword_from_str(name: &String) -> (result: Option<TokenKind>)
    ensures
        match result {
            Some(token) => keyword_of(name@) == Some(token@),
            None => keyword_of(name@) is None,
        },
{
    if text_is(name, "as") {
        Some(TokenKind::As)
    } else if text_is(name, "class") {
        Some(TokenKind::Class)
    } else if text_is(name, "let") {
        Some(TokenKind::Let)
    } else if text_is(name, "mut") {
        Some(TokenKind::Mut)
    } else if text_is(name, "panic") {
        Some(TokenKind::Panic)
    } else if text_is(name, "pub") {
        Some(TokenKind::Pub)
    } else if text_is(name, "return") {
        Some(TokenKind::Return)
    } else if text_is(name, "self") {
        Some(TokenKind::ClassSelf)
    } else if text_is(name, "using") {
        Some(TokenKind::Using)
    } else if text_is(name, "if") {
        Some(TokenKind::If)
    } else if text_is(name, "else") {
        Some(TokenKind::Else)
    } else if text_is(name, "todo") {
        Some(TokenKind::Todo)
    } else if text_is(name, "fn") {
        Some(TokenKind::Fn)
    } else if text_is(name, "for") {
        Some(TokenKind::For)
    } else if text_is(name, "in") {
        Some(TokenKind::In)
    } else if text_is(name, "loop") {
        Some(TokenKind::Loop)
    } else {
        None
    }
}

/// The canonical rendering of a token: fixed text for keywords and
/// punctuation, the scanned or decoded text for names and literals.
pub open spec fn display_of(token: TokenView) -> Seq<char> {
    match token {
        TokenView::As => "as"@,
        TokenView::Class => "class"@,
        TokenView::ClassSelf => "self"@,
        TokenView::Let => "let"@,
        TokenView::Mut => "mut"@,
        TokenView::Panic => "panic"@,
        TokenView::Pub => "pub"@,
        TokenView::If => "if"@,
        TokenView::Fn => "fn"@,
        TokenView::For => "for"@,
        TokenView::In => "in"@,
        TokenView::Loop => "loop"@,
        TokenView::Else => "else"@,
        TokenView::Return => "return"@,
        TokenView::Using => "using"@,
        TokenView::Todo => "todo"@,
        TokenView::Name { name } => name,
        TokenView::DiscardName { name } => name,
        TokenView::Int { value, .. } => value,
        TokenView::Float { value } => value,
        TokenView::String { value } => value,
        TokenView::Plus => "+"@,
        TokenView::Minus => "-"@,
        TokenView::Star => "*"@,
        TokenView::Slash => "/"@,
        TokenView::PlusEq => "+="@,
        TokenView::MinusEq => "-="@,
        TokenView::MulEq => "*="@,
        TokenView::DivEq => "/="@,
        TokenView::Comment => "// ... comment"@,
        TokenView::DocComment { .. } => "Doc comment"@,
        TokenView::LParen => "("@,
        TokenView::RParen => ")"@,
        TokenView::LBracket => "["@,
        TokenView::RBracket => "]"@,
        TokenView::LCurly => "{"@,
        TokenView::RCurly => "}"@,
        TokenView::ArrowRight => "->"@,
        TokenView::Gt => ">"@,
        TokenView::Lt => "<"@,
        TokenView::LtEq => "<="@,
        TokenView::GtEq => ">="@,
        TokenView::At => "@"@,
        TokenView::Dot => "."@,
        TokenView::DotDot => ".."@,
        TokenView::DotDotEq => "..="@,
        TokenView::DotDotDot => "..."@,
        TokenView::Eq => "="@,
        TokenView::EqEq => "=="@,
        TokenView::Bang => "!"@,
        TokenView::NotEq => "!="@,
        TokenView::SemiColon => ";"@,
        TokenView::Colon => ":"@,
        TokenView::Unknown => "Unknown"@,
        TokenView::NewLine => "NewLine"@,
        TokenView::Eof => "EOF"@,
    }
}

impl TokenKind {
    /// The canonical rendering of this token as an owned string.
    pub fn display_text(&self) -> (result: String)
        ensures
            result@ == display_of(self@),
    {
        match self {
            TokenKind::As => String::from_str("as"),
            TokenKind::Class => String::from_str("class"),
            TokenKind::ClassSelf => String::from_str("self"),
            TokenKind::Let => String::from_str("let"),
            TokenKind::Mut => String::from_str("mut"),
            TokenKind::Panic => String::from_str("panic"),
            TokenKind::Pub => String::from_str("pub"),
            TokenKind::If => String::from_str("if"),
            TokenKind::Fn => String::from_str("fn"),
            TokenKind::For => String::from_str("for"),
            TokenKind::In => String::from_str("in"),
            TokenKind::Loop => String::from_str("loop"),
            TokenKind::Else => String::from_str("else"),
            TokenKind::Return => String::from_str("return"),
            TokenKind::Using => String::from_str("using"),
            TokenKind::Todo => String::from_str("todo"),
            TokenKind::Name { name } => name.clone(),
            TokenKind::DiscardName { name } => name.clone(),
            TokenKind::Int { value, .. } => value.clone(),
            TokenKind::Float { value } => value.clone(),
            TokenKind::String { value } => value.clone(),
            TokenKind::Plus => String::from_str("+"),
            TokenKind::Minus => String::from_str("-"),
            TokenKind::Star => String::from_str("*"),
            TokenKind::Slash => String::from_str("/"),
            TokenKind::PlusEq => String::from_str("+="),
            TokenKind::MinusEq => String::from_str("-="),
            TokenKind::MulEq => String::from_str("*="),
            TokenKind::DivEq => String::from_str("/="),
            TokenKind::Comment => String::from_str("// ... comment"),
            TokenKind::DocComment { .. } => String::from_str("Doc comment"),
            TokenKind::LParen => String::from_str("("),
            TokenKind::RParen => String::from_str(")"),
            TokenKind::LBracket => String::from_str("["),
            TokenKind::RBracket => String::from_str("]"),
            TokenKind::LCurly => String::from_str("{"),
            TokenKind::RCurly => String::from_str("}"),
            TokenKind::ArrowRight => String::from_str("->"),
            TokenKind::Gt => String::from_str(">"),
            TokenKind::Lt => String::from_str("<"),
            TokenKind::LtEq => String::from_str("<="),
            TokenKind::GtEq => String::from_str(">="),
            TokenKind::At => String::from_str("@"),
            TokenKind::Dot => String::from_str("."),
            TokenKind::DotDot => String::from_str(".."),
            TokenKind::DotDotEq => String::from_str("..="),
            TokenKind::DotDotDot => String::from_str("..."),
            TokenKind::Eq => String::from_str("="),
            TokenKind::EqEq => String::from_str("=="),
            TokenKind::Bang => String::from_str("!"),
            TokenKind::NotEq => String::from_str("!="),
            TokenKind::SemiColon => String::from_str(";"),
            TokenKind::Colon => String::from_str(":"),
            TokenKind::Unknown => String::from_str("Unknown"),
            TokenKind::NewLine => String::from_str("NewLine"),
            TokenKind::Eof => String::from_str("EOF"),
        }
    }
}

} // verus!
