//! The errors of lexing, parsing and layout.
use vstd::prelude::*;
use crate::text::{decimal, push_decimal};

verus! {

/// Everything that can go wrong while turning source text into a laid-out
/// expression.
#[derive(Debug)]
pub enum MathError {
    Lexer { position: usize, message: String },
    Parser { message: String },
    Layout { message: String },
    Font { message: String },
    UnknownSymbol { symbol: String },
    InvalidExpression { reason: String },
}

/// The result of the library's fallible operations.
pub type Result<T> = core::result::Result<T, MathError>;

/// The model of a [`MathError`].
pub enum ErrorV {
    Lexer { position: nat, message: Seq<char> },
    Parser { message: Seq<char> },
    Layout { message: Seq<char> },
    Font { message: Seq<char> },
    UnknownSymbol { symbol: Seq<char> },
    InvalidExpression { reason: Seq<char> },
}

impl View for MathError {
    type V = ErrorV;

    open spec fn view(&self) -> ErrorV {
        match self {
            MathError::Lexer { position, message } => ErrorV::Lexer {
                position: *position as nat,
                message: message@,
            },
            MathError::Parser { message } => ErrorV::Parser { message: message@ },
            MathError::Layout { message } => ErrorV::Layout { message: message@ },
            MathError::Font { message } => ErrorV::Font { message: message@ },
            MathError::UnknownSymbol { symbol } => ErrorV::UnknownSymbol { symbol: symbol@ },
            MathError::InvalidExpression { reason } => ErrorV::InvalidExpression {
                reason: reason@,
            },
        }
    }
}

/// The one-line description of an error, as users read it.
pub open spec fn error_text(e: ErrorV) -> Seq<char> {
    match e {
        ErrorV::Lexer { position, message } => "Lexer error at position "@ + decimal(position)
            + ": "@ + message,
        ErrorV::Parser { message } => "Parser error: "@ + message,
        ErrorV::Layout { message } => "Layout error: "@ + message,
        ErrorV::Font { message } => "Font error: "@ + message,
        ErrorV::UnknownSymbol { symbol } => "Unknown symbol: "@ + symbol,
        ErrorV::InvalidExpression { reason } => "Invalid math expression: "@ + reason,
    }
}

impl MathError {
    /// The one-line description of this error.
    pub fn message(&self) -> (s: String)
        ensures
            s@ == error_text(self@),
    {
        match self {
            MathError::Lexer { position, message } => {
                let mut s = String::from_str("Lexer error at position ");
                push_decimal(&mut s, *position);
                s.append(": ");
                s.append(message.as_str());
                s
            },
            MathError::Parser { message } => String::from_str("Parser error: ").concat(
                message.as_str(),
            ),
            MathError::Layout { message } => String::from_str("Layout error: ").concat(
                message.as_str(),
            ),
            MathError::Font { message } => String::from_str("Font error: ").concat(
                message.as_str(),
            ),
            MathError::UnknownSymbol { symbol } => String::from_str("Unknown symbol: ").concat(
                symbol.as_str(),
            ),
            MathError::InvalidExpression { reason } => String::from_str(
                "Invalid math expression: ",
            ).concat(reason.as_str()),
        }
    }
}

} // verus!
