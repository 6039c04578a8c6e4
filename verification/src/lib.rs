//! Typesetting of mathematical formulas written in a TeX-like notation:
//! a lexer and a recursive-descent parser produce an expression tree, and
//! the layout rules decide how its parts are set.
pub mod ast;
pub mod error;
pub mod grammar;
pub mod grammar_laws;
pub mod grammar_progress;
pub mod layout;
pub mod layout_laws;
pub mod lexer;
pub mod parser;
pub mod precedence;
pub mod render;
pub mod symbols;
pub mod text;
pub mod token;

pub use error::{MathError, Result};
