//! The grammar of math expressions, as functions from a parser state to a
//! result and the state after.
//!
//! A state is the current token and the lexer's position just after it.
//! Every function returns its result together with the state it leaves,
//! also when it fails.
//!
//! ```text
//! expression := unary (binop expression')*      -- precedence climbing
//! unary      := ('+' | '-') unary | primary
//! primary    := atom (('^' | '_') primary)*
//! atom       := identifier | number | '(' expression ')'
//!             | \frac braced braced | \sqrt ('[' expression ']')? braced
//!             | \sum limits braced
//! braced     := '{' expression '}'
//! limits     := ('_' limit)? ('^' limit)?
//! limit      := '{' expression '}' | primary
//! ```
//!
//! The operators `=`, `!=`, `<`, `>`, `<=`, `>=` bind weakest, then `+` and
//! `-`, then `*` and `/`; operators of one level group to the left.
//!
//! Each recursive step checks that the state it recurses on is smaller than
//! the one it started from; `grammar_progress` proves that it always is, so
//! the `stalled` result never comes out.
use vstd::prelude::*;
use crate::ast::{BinaryOperator, NodeV, UnaryOperator};
use crate::error::ErrorV;
use crate::lexer::{LexStep, lemma_lex_step_bounds, lex_step, lexer_error};
use crate::token::{TokenV, token_text};

verus! {

/// The current token and the lexer's position just after it.
pub struct PState {
    pub cur: TokenV,
    pub pos: int,
}

/// A result of the grammar with the state it leaves.
pub type Step<T> = (Result<T, ErrorV>, PState);

pub open spec fn parser_error(message: Seq<char>) -> ErrorV {
    ErrorV::Parser { message }
}

/// Two units of measure per byte left to read, one more while the current
/// token is not `Eof`: every token consumed makes it smaller.
pub open spec fn measure(s: Seq<u8>, st: PState) -> int {
    2 * (s.len() - st.pos) + if st.cur is Eof {
        0int
    } else {
        1int
    }
}

/// `a` is a strictly smaller state than `b`.
pub open spec fn below(s: Seq<u8>, a: PState, b: PState) -> bool {
    0 <= measure(s, a) < measure(s, b)
}

/// `a` is no larger a state than `b`.
pub open spec fn not_above(s: Seq<u8>, a: PState, b: PState) -> bool {
    measure(s, a) == measure(s, b) || below(s, a, b)
}

/// The result given where a state failed to shrink (never: see
/// `law_expression_never_stalls`).
pub open spec fn stalled<T>(st: PState) -> Step<T> {
    (Err(ErrorV::InvalidExpression { reason: Seq::empty() }), st)
}

/// The state of a parser that has just been created on `s`, or the error
/// of reading the first token.
pub open spec fn initial_state(s: Seq<u8>) -> Result<PState, ErrorV> {
    match lex_step(s, 0) {
        LexStep::Token { token, start, end } => Ok(PState { cur: token, pos: end }),
        LexStep::Invalid { start, end } => Err(lexer_error(start as nat, "Invalid token"@)),
        LexStep::End { at } => Ok(PState { cur: TokenV::Eof, pos: at }),
    }
}

/// Reading the next token. When the lexer rejects a character, the current
/// token stays and the position moves past the character.
pub open spec fn advance(s: Seq<u8>, st: PState) -> Step<()> {
    match lex_step(s, st.pos) {
        LexStep::Token { token, start, end } => (Ok(()), PState { cur: token, pos: end }),
        LexStep::Invalid { start, end } => (
            Err(lexer_error(start as nat, "Invalid token"@)),
            PState { cur: st.cur, pos: end },
        ),
        LexStep::End { at } => (Ok(()), PState { cur: TokenV::Eof, pos: at }),
    }
}

/// The position lies within the input.
pub open spec fn in_bounds(s: Seq<u8>, st: PState) -> bool {
    0 <= st.pos <= s.len()
}

/// Reading a token never makes the state larger, and makes it strictly
/// smaller unless the current token is `Eof`.
pub proof fn lemma_advance_shrinks(s: Seq<u8>, st: PState)
    requires
        in_bounds(s, st),
    ensures
        in_bounds(s, advance(s, st).1),
        measure(s, advance(s, st).1) <= measure(s, st),
        !(st.cur is Eof) ==> below(s, advance(s, st).1, st),
{
    lemma_lex_step_bounds(s, st.pos);
}

/// The message for a token other than the one the grammar requires.
pub open spec fn expected_message(expected: TokenV, found: TokenV) -> Seq<char> {
    "Expected "@ + token_text(expected) + ", found "@ + token_text(found)
}

/// Consuming the token `k`, which must be the current one.
pub open spec fn expect(s: Seq<u8>, st: PState, k: TokenV) -> Step<()> {
    if st.cur == k {
        advance(s, st)
    } else {
        (Err(parser_error(expected_message(k, st.cur))), st)
    }
}

/// The binary operator a token stands for.
pub open spec fn binary_operator_of(t: TokenV) -> Option<BinaryOperator> {
    match t {
        TokenV::Plus => Some(BinaryOperator::Plus),
        TokenV::Minus => Some(BinaryOperator::Minus),
        TokenV::Asterisk => Some(BinaryOperator::Multiply),
        TokenV::Slash => Some(BinaryOperator::Divide),
        TokenV::Equal => Some(BinaryOperator::Equal),
        TokenV::NotEqual => Some(BinaryOperator::NotEqual),
        TokenV::Less => Some(BinaryOperator::Less),
        TokenV::Greater => Some(BinaryOperator::Greater),
        TokenV::LessEqual => Some(BinaryOperator::LessEqual),
        TokenV::GreaterEqual => Some(BinaryOperator::GreaterEqual),
        _ => None,
    }
}

/// How tightly an operator binds: relations 0, `+ -` 1, `* /` 2.
pub open spec fn precedence(op: BinaryOperator) -> nat {
    match op {
        BinaryOperator::Plus | BinaryOperator::Minus => 1,
        BinaryOperator::Multiply | BinaryOperator::Divide => 2,
        _ => 0,
    }
}

pub open spec fn bin(op: BinaryOperator, left: NodeV, right: NodeV) -> NodeV {
    NodeV::BinaryOp { op, left: Box::new(left), right: Box::new(right) }
}

/// An expression whose operators all bind at least as tightly as `min`.
pub open spec fn parse_binary(s: Seq<u8>, min: nat, st: PState) -> Step<NodeV>
    decreases measure(s, st), 6int,
{
    let (r, st1) = parse_unary(s, st);
    match r {
        Err(e) => (Err(e), st1),
        Ok(left) => if not_above(s, st1, st) {
            binary_rest(s, left, min, st1)
        } else {
            stalled(st1)
        },
    }
}

/// The operators (of precedence at least `min`) and operands that follow
/// the operand `left`, grouped to the left.
pub open spec fn binary_rest(s: Seq<u8>, left: NodeV, min: nat, st: PState) -> Step<NodeV>
    decreases measure(s, st), 5int,
{
    match binary_operator_of(st.cur) {
        None => (Ok(left), st),
        Some(op) => if precedence(op) < min {
            (Ok(left), st)
        } else {
            let (r, st2) = advance(s, st);
            match r {
                Err(e) => (Err(e), st2),
                Ok(_) => if below(s, st2, st) {
                    let (r3, st3) = parse_binary(s, precedence(op) + 1, st2);
                    match r3 {
                        Err(e) => (Err(e), st3),
                        Ok(right) => if below(s, st3, st) {
                            binary_rest(s, bin(op, left, right), min, st3)
                        } else {
                            stalled(st3)
                        },
                    }
                } else {
                    stalled(st2)
                },
            }
        },
    }
}

/// A unary `+` or `-` applied to an operand, or a primary expression.
pub open spec fn parse_unary(s: Seq<u8>, st: PState) -> Step<NodeV>
    decreases measure(s, st), 4int,
{
    let op = if st.cur is Plus {
        Some(UnaryOperator::Plus)
    } else if st.cur is Minus {
        Some(UnaryOperator::Minus)
    } else {
        None
    };
    match op {
        None => parse_primary(s, st),
        Some(op) => {
            let (r, st1) = advance(s, st);
            match r {
                Err(e) => (Err(e), st1),
                Ok(_) => if below(s, st1, st) {
                    let (r2, st2) = parse_unary(s, st1);
                    match r2 {
                        Err(e) => (Err(e), st2),
                        Ok(operand) => (Ok(NodeV::UnaryOp { op, operand: Box::new(operand) }), st2),
                    }
                } else {
                    stalled(st1)
                },
            }
        },
    }
}

/// An atom with its superscripts and subscripts.
pub open spec fn parse_primary(s: Seq<u8>, st: PState) -> Step<NodeV>
    decreases measure(s, st), 3int,
{
    let (r, st1) = parse_atom(s, st);
    match r {
        Err(e) => (Err(e), st1),
        Ok(e) => if not_above(s, st1, st) {
            parse_scripts(s, e, st1)
        } else {
            stalled(st1)
        },
    }
}

/// The scripts that follow `base`: each `^` or `_` is followed by a primary
/// expression, and the scripts nest to the left.
pub open spec fn parse_scripts(s: Seq<u8>, base: NodeV, st: PState) -> Step<NodeV>
    decreases measure(s, st), 2int,
{
    if st.cur is Caret || st.cur is Underscore {
        let (r, st2) = advance(s, st);
        match r {
            Err(e) => (Err(e), st2),
            Ok(_) => if below(s, st2, st) {
                let (r3, st3) = parse_primary(s, st2);
                match r3 {
                    Err(e) => (Err(e), st3),
                    Ok(script) => if below(s, st3, st) {
                        let next = if st.cur is Caret {
                            NodeV::Superscript { base: Box::new(base), superscript: Box::new(script) }
                        } else {
                            NodeV::Subscript { base: Box::new(base), subscript: Box::new(script) }
                        };
                        parse_scripts(s, next, st3)
                    } else {
                        stalled(st3)
                    },
                }
            } else {
                stalled(st2)
            },
        }
    } else {
        (Ok(base), st)
    }
}

/// `{ expression }`.
pub open spec fn parse_braced(s: Seq<u8>, st: PState) -> Step<NodeV>
    decreases measure(s, st), 0int,
{
    let (r, st1) = expect(s, st, TokenV::LeftBrace);
    match r {
        Err(e) => (Err(e), st1),
        Ok(_) => if below(s, st1, st) {
            let (r2, st2) = parse_binary(s, 0, st1);
            match r2 {
                Err(e) => (Err(e), st2),
                Ok(e) => {
                    let (r3, st3) = expect(s, st2, TokenV::RightBrace);
                    match r3 {
                        Err(err) => (Err(err), st3),
                        Ok(_) => (Ok(e), st3),
                    }
                },
            }
        } else {
            stalled(st1)
        },
    }
}

/// The optional degree of a root, `[ expression ]`.
pub open spec fn parse_degree(s: Seq<u8>, st: PState) -> Step<Option<NodeV>>
    decreases measure(s, st), 0int,
{
    if st.cur is LeftBracket {
        let (r, st1) = advance(s, st);
        match r {
            Err(e) => (Err(e), st1),
            Ok(_) => if below(s, st1, st) {
                let (r2, st2) = parse_binary(s, 0, st1);
                match r2 {
                    Err(e) => (Err(e), st2),
                    Ok(e) => {
                        let (r3, st3) = expect(s, st2, TokenV::RightBracket);
                        match r3 {
                            Err(err) => (Err(err), st3),
                            Ok(_) => (Ok(Some(e)), st3),
                        }
                    },
                }
            } else {
                stalled(st1)
            },
        }
    } else {
        (Ok(None), st)
    }
}

/// One limit of a large operator, introduced by `marker` (`_` or `^`):
/// either a braced expression or a primary expression.
pub open spec fn parse_limit(s: Seq<u8>, st: PState, marker: TokenV) -> Step<Option<NodeV>>
    decreases measure(s, st), 0int,
{
    if st.cur == marker {
        let (r, st1) = advance(s, st);
        match r {
            Err(e) => (Err(e), st1),
            Ok(_) => if below(s, st1, st) {
                if st1.cur is LeftBrace {
                    let (r2, st2) = advance(s, st1);
                    match r2 {
                        Err(e) => (Err(e), st2),
                        Ok(_) => if below(s, st2, st) {
                            let (r3, st3) = parse_binary(s, 0, st2);
                            match r3 {
                                Err(e) => (Err(e), st3),
                                Ok(e) => {
                                    let (r4, st4) = expect(s, st3, TokenV::RightBrace);
                                    match r4 {
                                        Err(err) => (Err(err), st4),
                                        Ok(_) => (Ok(Some(e)), st4),
                                    }
                                },
                            }
                        } else {
                            stalled(st2)
                        },
                    }
                } else {
                    let (r2, st2) = parse_primary(s, st1);
                    match r2 {
                        Err(e) => (Err(e), st2),
                        Ok(e) => (Ok(Some(e)), st2),
                    }
                }
            } else {
                stalled(st1)
            },
        }
    } else {
        (Ok(None), st)
    }
}

/// The lower limit (after `_`) and then the upper limit (after `^`) of a
/// large operator, each optional.
pub open spec fn parse_limits(s: Seq<u8>, st: PState) -> Step<(Option<NodeV>, Option<NodeV>)>
    decreases measure(s, st), 1int,
{
    let (r, st1) = parse_limit(s, st, TokenV::Underscore);
    match r {
        Err(e) => (Err(e), st1),
        Ok(lower) => if not_above(s, st1, st) {
            let (r2, st2) = parse_limit(s, st1, TokenV::Caret);
            match r2 {
                Err(e) => (Err(e), st2),
                Ok(upper) => (Ok((lower, upper)), st2),
            }
        } else {
            stalled(st1)
        },
    }
}

pub open spec fn boxed(n: Option<NodeV>) -> Option<Box<NodeV>> {
    match n {
        Some(x) => Some(Box::new(x)),
        None => None,
    }
}

/// The message for a token that cannot start an atom.
pub open spec fn unexpected_message(t: TokenV) -> Seq<char> {
    "Unexpected token: "@ + token_text(t)
}

/// `( expression )`, from the opening parenthesis.
pub open spec fn parse_group(s: Seq<u8>, st: PState) -> Step<NodeV>
    decreases measure(s, st), 0int,
{
    let (r, st1) = advance(s, st);
    match r {
        Err(e) => (Err(e), st1),
        Ok(_) => if below(s, st1, st) {
            let (r2, st2) = parse_binary(s, 0, st1);
            match r2 {
                Err(e) => (Err(e), st2),
                Ok(e) => {
                    let (r3, st3) = expect(s, st2, TokenV::RightParen);
                    match r3 {
                        Err(err) => (Err(err), st3),
                        Ok(_) => (Ok(NodeV::Group(Box::new(e))), st3),
                    }
                },
            }
        } else {
            stalled(st1)
        },
    }
}

/// `\frac braced braced`, from the command.
pub open spec fn parse_fraction(s: Seq<u8>, st: PState) -> Step<NodeV>
    decreases measure(s, st), 0int,
{
    let (r, st1) = advance(s, st);
    match r {
        Err(e) => (Err(e), st1),
        Ok(_) => if below(s, st1, st) {
            let (r2, st2) = parse_braced(s, st1);
            match r2 {
                Err(e) => (Err(e), st2),
                Ok(num) => if below(s, st2, st) {
                    let (r3, st3) = parse_braced(s, st2);
                    match r3 {
                        Err(e) => (Err(e), st3),
                        Ok(den) => (
                            Ok(
                                NodeV::Fraction {
                                    numerator: Box::new(num),
                                    denominator: Box::new(den),
                                },
                            ),
                            st3,
                        ),
                    }
                } else {
                    stalled(st2)
                },
            }
        } else {
            stalled(st1)
        },
    }
}

/// `\sqrt [degree]? braced`, from the command.
pub open spec fn parse_root(s: Seq<u8>, st: PState) -> Step<NodeV>
    decreases measure(s, st), 0int,
{
    let (r, st1) = advance(s, st);
    match r {
        Err(e) => (Err(e), st1),
        Ok(_) => if below(s, st1, st) {
            let (r2, st2) = parse_degree(s, st1);
            match r2 {
                Err(e) => (Err(e), st2),
                Ok(degree) => if below(s, st2, st) {
                    let (r3, st3) = parse_braced(s, st2);
                    match r3 {
                        Err(e) => (Err(e), st3),
                        Ok(radicand) => (
                            Ok(NodeV::Root { degree: boxed(degree), radicand: Box::new(radicand) }),
                            st3,
                        ),
                    }
                } else {
                    stalled(st2)
                },
            }
        } else {
            stalled(st1)
        },
    }
}

/// `\sum limits braced`, from the command.
pub open spec fn parse_sum(s: Seq<u8>, st: PState) -> Step<NodeV>
    decreases measure(s, st), 0int,
{
    let (r, st1) = advance(s, st);
    match r {
        Err(e) => (Err(e), st1),
        Ok(_) => if below(s, st1, st) {
            let (r2, st2) = parse_limits(s, st1);
            match r2 {
                Err(e) => (Err(e), st2),
                Ok((lower, upper)) => if below(s, st2, st) {
                    let (r3, st3) = parse_braced(s, st2);
                    match r3 {
                        Err(e) => (Err(e), st3),
                        Ok(body) => (
                            Ok(
                                NodeV::Sum {
                                    lower_limit: boxed(lower),
                                    upper_limit: boxed(upper),
                                    body: Box::new(body),
                                },
                            ),
                            st3,
                        ),
                    }
                } else {
                    stalled(st2)
                },
            }
        } else {
            stalled(st1)
        },
    }
}

/// An identifier, a number, a parenthesized expression, a fraction, a root
/// or a sum.
pub open spec fn parse_atom(s: Seq<u8>, st: PState) -> Step<NodeV>
    decreases measure(s, st), 1int,
{
    match st.cur {
        TokenV::Identifier(name) => {
            let (r, st1) = advance(s, st);
            match r {
                Err(e) => (Err(e), st1),
                Ok(_) => (Ok(NodeV::Identifier(name)), st1),
            }
        },
        TokenV::Number(text) => {
            let (r, st1) = advance(s, st);
            match r {
                Err(e) => (Err(e), st1),
                Ok(_) => (Ok(NodeV::Number(text)), st1),
            }
        },
        TokenV::LeftParen => parse_group(s, st),
        TokenV::Frac => parse_fraction(s, st),
        TokenV::Sqrt => parse_root(s, st),
        TokenV::Sum => parse_sum(s, st),
        _ => (Err(parser_error(unexpected_message(st.cur))), st),
    }
}

/// The expression that a parser in state `st` reads.
pub open spec fn parse_expression(s: Seq<u8>, st: PState) -> Step<NodeV> {
    parse_binary(s, 0, st)
}

/// The expression in the whole input `s`, as a parser created on `s` and
/// asked for one expression gives it.
pub open spec fn parse_source(s: Seq<u8>) -> Result<NodeV, ErrorV> {
    match initial_state(s) {
        Err(e) => Err(e),
        Ok(st) => parse_expression(s, st).0,
    }
}

} // verus!
