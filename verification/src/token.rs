//! Tokens of the math input language and their printed form.
use vstd::prelude::*;
use vstd::std_specs::cmp::PartialEqSpecImpl;

verus! {

/// A token of the input language.
///
/// `Eof` is never read from the input: the lexer hands it out once the
/// input is exhausted.
#[derive(Debug, Clone)]
pub enum Token {
    Identifier(String),
    Number(String),
    Plus,
    Minus,
    Asterisk,
    Slash,
    Equal,
    NotEqual,
    Less,
    Greater,
    LessEqual,
    GreaterEqual,
    LeftParen,
    RightParen,
    LeftBracket,
    RightBracket,
    LeftBrace,
    RightBrace,
    VerticalBar,
    Caret,
    Underscore,
    Frac,
    Sqrt,
    Sum,
    Integral,
    Limit,
    Alpha,
    Beta,
    Gamma,
    CapitalGamma,
    Comma,
    Semicolon,
    Colon,
    Eof,
}

/// The model of a [`Token`]: the same token with its text as characters.
pub enum TokenV {
    Identifier(Seq<char>),
    Number(Seq<char>),
    Plus,
    Minus,
    Asterisk,
    Slash,
    Equal,
    NotEqual,
    Less,
    Greater,
    LessEqual,
    GreaterEqual,
    LeftParen,
    RightParen,
    LeftBracket,
    RightBracket,
    LeftBrace,
    RightBrace,
    VerticalBar,
    Caret,
    Underscore,
    Frac,
    Sqrt,
    Sum,
    Integral,
    Limit,
    Alpha,
    Beta,
    Gamma,
    CapitalGamma,
    Comma,
    Semicolon,
    Colon,
    Eof,
}

impl View for Token {
    type V = TokenV;

    open spec fn view(&self) -> TokenV {
        match self {
            Token::Identifier(s) => TokenV::Identifier(s@),
            Token::Number(s) => TokenV::Number(s@),
            Token::Plus => TokenV::Plus,
            Token::Minus => TokenV::Minus,
            Token::Asterisk => TokenV::Asterisk,
            Token::Slash => TokenV::Slash,
            Token::Equal => TokenV::Equal,
            Token::NotEqual => TokenV::NotEqual,
            Token::Less => TokenV::Less,
            Token::Greater => TokenV::Greater,
            Token::LessEqual => TokenV::LessEqual,
            Token::GreaterEqual => TokenV::GreaterEqual,
            Token::LeftParen => TokenV::LeftParen,
            Token::RightParen => TokenV::RightParen,
            Token::LeftBracket => TokenV::LeftBracket,
            Token::RightBracket => TokenV::RightBracket,
            Token::LeftBrace => TokenV::LeftBrace,
            Token::RightBrace => TokenV::RightBrace,
            Token::VerticalBar => TokenV::VerticalBar,
            Token::Caret => TokenV::Caret,
            Token::Underscore => TokenV::Underscore,
            Token::Frac => TokenV::Frac,
            Token::Sqrt => TokenV::Sqrt,
            Token::Sum => TokenV::Sum,
            Token::Integral => TokenV::Integral,
            Token::Limit => TokenV::Limit,
            Token::Alpha => TokenV::Alpha,
            Token::Beta => TokenV::Beta,
            Token::Gamma => TokenV::Gamma,
            Token::CapitalGamma => TokenV::CapitalGamma,
            Token::Comma => TokenV::Comma,
            Token::Semicolon => TokenV::Semicolon,
            Token::Colon => TokenV::Colon,
            Token::Eof => TokenV::Eof,
        }
    }
}

/// The name of a token's variant.
pub open spec fn variant_name(t: TokenV) -> Seq<char> {
    match t {
        TokenV::Identifier(_) => "Identifier"@,
        TokenV::Number(_) => "Number"@,
        TokenV::Plus => "Plus"@,
        TokenV::Minus => "Minus"@,
        TokenV::Asterisk => "Asterisk"@,
        TokenV::Slash => "Slash"@,
        TokenV::Equal => "Equal"@,
        TokenV::NotEqual => "NotEqual"@,
        TokenV::Less => "Less"@,
        TokenV::Greater => "Greater"@,
        TokenV::LessEqual => "LessEqual"@,
        TokenV::GreaterEqual => "GreaterEqual"@,
        TokenV::LeftParen => "LeftParen"@,
        TokenV::RightParen => "RightParen"@,
        TokenV::LeftBracket => "LeftBracket"@,
        TokenV::RightBracket => "RightBracket"@,
        TokenV::LeftBrace => "LeftBrace"@,
        TokenV::RightBrace => "RightBrace"@,
        TokenV::VerticalBar => "VerticalBar"@,
        TokenV::Caret => "Caret"@,
        TokenV::Underscore => "Underscore"@,
        TokenV::Frac => "Frac"@,
        TokenV::Sqrt => "Sqrt"@,
        TokenV::Sum => "Sum"@,
        TokenV::Integral => "Integral"@,
        TokenV::Limit => "Limit"@,
        TokenV::Alpha => "Alpha"@,
        TokenV::Beta => "Beta"@,
        TokenV::Gamma => "Gamma"@,
        TokenV::CapitalGamma => "CapitalGamma"@,
        TokenV::Comma => "Comma"@,
        TokenV::Semicolon => "Semicolon"@,
        TokenV::Colon => "Colon"@,
        TokenV::Eof => "Eof"@,
    }
}

/// How a token is printed in diagnostics: its variant's name, followed by
/// its text in quotes for the two tokens that carry text
/// (`Identifier("x")`, `Plus`).
pub open spec fn token_text(t: TokenV) -> Seq<char> {
    match t {
        TokenV::Identifier(s) => "Identifier(\""@ + s + "\")"@,
        TokenV::Number(s) => "Number(\""@ + s + "\")"@,
        _ => variant_name(t),
    }
}

impl Token {
    /// The name of this token's variant.
    fn variant_name(&self) -> (s: &'static str)
        ensures
            s@ == variant_name(self@),
    {
        match self {
            Token::Identifier(_) => "Identifier",
            Token::Number(_) => "Number",
            Token::Plus => "Plus",
            Token::Minus => "Minus",
            Token::Asterisk => "Asterisk",
            Token::Slash => "Slash",
            Token::Equal => "Equal",
            Token::NotEqual => "NotEqual",
            Token::Less => "Less",
            Token::Greater => "Greater",
            Token::LessEqual => "LessEqual",
            Token::GreaterEqual => "GreaterEqual",
            Token::LeftParen => "LeftParen",
            Token::RightParen => "RightParen",
            Token::LeftBracket => "LeftBracket",
            Token::RightBracket => "RightBracket",
            Token::LeftBrace => "LeftBrace",
            Token::RightBrace => "RightBrace",
            Token::VerticalBar => "VerticalBar",
            Token::Caret => "Caret",
            Token::Underscore => "Underscore",
            Token::Frac => "Frac",
            Token::Sqrt => "Sqrt",
            Token::Sum => "Sum",
            Token::Integral => "Integral",
            Token::Limit => "Limit",
            Token::Alpha => "Alpha",
            Token::Beta => "Beta",
            Token::Gamma => "Gamma",
            Token::CapitalGamma => "CapitalGamma",
            Token::Comma => "Comma",
            Token::Semicolon => "Semicolon",
            Token::Colon => "Colon",
            Token::Eof => "Eof",
        }
    }

    /// The printed form of this token (the form `{:?}` gives).
    pub fn to_text(&self) -> (s: String)
        ensures
            s@ == token_text(self@),
    {
        match self {
            Token::Identifier(name) => {
                let mut s = String::from_str("Identifier(\"");
                s.append(name.as_str());
                s.append("\")");
                s
            },
            Token::Number(text) => {
                let mut s = String::from_str("Number(\"");
                s.append(text.as_str());
                s.append("\")");
                s
            },
            _ => String::from_str(self.variant_name()),
        }
    }

    /// Whether two tokens are the same token (same variant, same text).
    pub fn same_as(&self, other: &Token) -> (r: bool)
        ensures
            r == (self@ == other@),
    {
        match self {
            Token::Identifier(a) => match other {
                Token::Identifier(b) => crate::text::str_eq(a.as_str(), b.as_str()),
                _ => false,
            },
            Token::Number(a) => match other {
                Token::Number(b) => crate::text::str_eq(a.as_str(), b.as_str()),
                _ => false,
            },
            Token::Plus => matches!(other, Token::Plus),
            Token::Minus => matches!(other, Token::Minus),
            Token::Asterisk => matches!(other, Token::Asterisk),
            Token::Slash => matches!(other, Token::Slash),
            Token::Equal => matches!(other, Token::Equal),
            Token::NotEqual => matches!(other, Token::NotEqual),
            Token::Less => matches!(other, Token::Less),
            Token::Greater => matches!(other, Token::Greater),
            Token::LessEqual => matches!(other, Token::LessEqual),
            Token::GreaterEqual => matches!(other, Token::GreaterEqual),
            Token::LeftParen => matches!(other, Token::LeftParen),
            Token::RightParen => matches!(other, Token::RightParen),
            Token::LeftBracket => matches!(other, Token::LeftBracket),
            Token::RightBracket => matches!(other, Token::RightBracket),
            Token::LeftBrace => matches!(other, Token::LeftBrace),
            Token::RightBrace => matches!(other, Token::RightBrace),
            Token::VerticalBar => matches!(other, Token::VerticalBar),
            Token::Caret => matches!(other, Token::Caret),
            Token::Underscore => matches!(other, Token::Underscore),
            Token::Frac => matches!(other, Token::Frac),
            Token::Sqrt => matches!(other, Token::Sqrt),
            Token::Sum => matches!(other, Token::Sum),
            Token::Integral => matches!(other, Token::Integral),
            Token::Limit => matches!(other, Token::Limit),
            Token::Alpha => matches!(other, Token::Alpha),
            Token::Beta => matches!(other, Token::Beta),
            Token::Gamma => matches!(other, Token::Gamma),
            Token::CapitalGamma => matches!(other, Token::CapitalGamma),
            Token::Comma => matches!(other, Token::Comma),
            Token::Semicolon => matches!(other, Token::Semicolon),
            Token::Colon => matches!(other, Token::Colon),
            Token::Eof => matches!(other, Token::Eof),
        }
    }
}

impl PartialEq for Token {
    fn eq(&self, other: &Token) -> (r: bool) {
        self.same_as(other)
    }
}

impl PartialEqSpecImpl for Token {
    open spec fn obeys_eq_spec() -> bool {
        true
    }

    open spec fn eq_spec(&self, other: &Token) -> bool {
        self@ == other@
    }
}

} // verus!
