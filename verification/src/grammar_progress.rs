//! Every step of the grammar stays within the input and never makes the
//! state larger. So each check the grammar makes before it recurses (that
//! the state is smaller than where the step started, after a token has been
//! consumed) always passes, and the `stalled` result never comes out.
use vstd::prelude::*;
use crate::grammar::{
    PState, advance, below, binary_operator_of, binary_rest, expect, in_bounds,
    lemma_advance_shrinks, measure, not_above, parse_atom, parse_binary, parse_braced,
    parse_degree, parse_fraction, parse_group, parse_limit, parse_limits, parse_primary,
    parse_root, parse_scripts, parse_sum, parse_unary, precedence, bin,
};
use crate::lexer::{ByteClass, LexStep, lex_step, run_end, token_at};
use crate::token::TokenV;
use crate::ast::NodeV;

verus! {

/// A failure, if any, is an error of the parser, or an error of the lexer
/// that points at a byte of the input where no token starts.
pub open spec fn fails_cleanly<T>(s: Seq<u8>, r: Result<T, crate::error::ErrorV>) -> bool {
    r matches Err(e) ==> match e {
        crate::error::ErrorV::Lexer { position, message } => position < s.len() && token_at(
            s,
            position as int,
        ) is None && message == "Invalid token"@,
        crate::error::ErrorV::Parser { .. } => true,
        _ => false,
    }
}

/// `lemma_advance_shrinks`, and reading fails only on a byte where no
/// token starts.
proof fn lemma_advance(s: Seq<u8>, st: PState)
    requires
        in_bounds(s, st),
    ensures
        kept(s, st, advance(s, st).1),
        !(st.cur is Eof) ==> below(s, advance(s, st).1, st),
        fails_cleanly(s, advance(s, st).0),
{
    lemma_advance_shrinks(s, st);
    crate::lexer::lemma_lex_step_bounds(s, st.pos);
    let q = run_end(s, st.pos, ByteClass::Blank);
    if let LexStep::Invalid { start, end } = lex_step(s, st.pos) {
        assert(start == q && q < s.len());
        assert(token_at(s, q) is None);
        assert((start as nat) as int == start);
    }
}

/// `b` lies within the input and is no larger a state than `a`.
pub open spec fn kept(s: Seq<u8>, a: PState, b: PState) -> bool {
    in_bounds(s, b) && measure(s, b) <= measure(s, a)
}

proof fn lemma_expect_shrinks(s: Seq<u8>, st: PState, k: TokenV)
    requires
        in_bounds(s, st),
        !(k is Eof),
    ensures
        kept(s, st, expect(s, st, k).1),
        fails_cleanly(s, expect(s, st, k).0),
        expect(s, st, k).0 is Ok ==> below(s, expect(s, st, k).1, st),
{
    lemma_advance(s, st);
}

proof fn lemma_binary(s: Seq<u8>, min: nat, st: PState)
    requires
        in_bounds(s, st),
    ensures
        kept(s, st, parse_binary(s, min, st).1),
        fails_cleanly(s, parse_binary(s, min, st).0),
    decreases measure(s, st), 6int,
{
    let (r, st1) = parse_unary(s, st);
    lemma_unary(s, st);
    if let Ok(left) = r {
        lemma_binary_rest(s, left, min, st1);
    }
}

proof fn lemma_binary_rest(s: Seq<u8>, left: NodeV, min: nat, st: PState)
    requires
        in_bounds(s, st),
    ensures
        kept(s, st, binary_rest(s, left, min, st).1),
        fails_cleanly(s, binary_rest(s, left, min, st).0),
    decreases measure(s, st), 5int,
{
    if let Some(op) = binary_operator_of(st.cur) {
        if precedence(op) >= min {
            lemma_advance(s, st);
            let (r, st2) = advance(s, st);
            if r is Ok {
                let (r3, st3) = parse_binary(s, precedence(op) + 1, st2);
                lemma_binary(s, precedence(op) + 1, st2);
                if let Ok(right) = r3 {
                    lemma_binary_rest(s, bin(op, left, right), min, st3);
                }
            }
        }
    }
}

proof fn lemma_unary(s: Seq<u8>, st: PState)
    requires
        in_bounds(s, st),
    ensures
        kept(s, st, parse_unary(s, st).1),
        fails_cleanly(s, parse_unary(s, st).0),
    decreases measure(s, st), 4int,
{
    if st.cur is Plus || st.cur is Minus {
        lemma_advance(s, st);
        let (r, st1) = advance(s, st);
        if r is Ok {
            lemma_unary(s, st1);
        }
    } else {
        lemma_primary(s, st);
    }
}

#[verifier::rlimit(30)]
proof fn lemma_primary(s: Seq<u8>, st: PState)
    requires
        in_bounds(s, st),
    ensures
        kept(s, st, parse_primary(s, st).1),
        fails_cleanly(s, parse_primary(s, st).0),
    decreases measure(s, st), 3int,
{
    let (r, st1) = parse_atom(s, st);
    lemma_atom(s, st);
    if let Ok(e) = r {
        lemma_scripts(s, e, st1);
    }
}

proof fn lemma_scripts(s: Seq<u8>, base: NodeV, st: PState)
    requires
        in_bounds(s, st),
    ensures
        kept(s, st, parse_scripts(s, base, st).1),
        fails_cleanly(s, parse_scripts(s, base, st).0),
    decreases measure(s, st), 2int,
{
    if st.cur is Caret || st.cur is Underscore {
        lemma_advance(s, st);
        let (r, st2) = advance(s, st);
        if r is Ok {
            let (r3, st3) = parse_primary(s, st2);
            lemma_primary(s, st2);
            if let Ok(script) = r3 {
                let next = if st.cur is Caret {
                    NodeV::Superscript { base: Box::new(base), superscript: Box::new(script) }
                } else {
                    NodeV::Subscript { base: Box::new(base), subscript: Box::new(script) }
                };
                lemma_scripts(s, next, st3);
            }
        }
    }
}

proof fn lemma_braced(s: Seq<u8>, st: PState)
    requires
        in_bounds(s, st),
    ensures
        kept(s, st, parse_braced(s, st).1),
        fails_cleanly(s, parse_braced(s, st).0),
    decreases measure(s, st), 0int,
{
    lemma_expect_shrinks(s, st, TokenV::LeftBrace);
    let (r, st1) = expect(s, st, TokenV::LeftBrace);
    if r is Ok {
        let (r2, st2) = parse_binary(s, 0, st1);
        lemma_binary(s, 0, st1);
        if r2 is Ok {
            lemma_expect_shrinks(s, st2, TokenV::RightBrace);
        }
    }
}

proof fn lemma_degree(s: Seq<u8>, st: PState)
    requires
        in_bounds(s, st),
    ensures
        kept(s, st, parse_degree(s, st).1),
        fails_cleanly(s, parse_degree(s, st).0),
    decreases measure(s, st), 0int,
{
    if st.cur is LeftBracket {
        lemma_advance(s, st);
        let (r, st1) = advance(s, st);
        if r is Ok {
            let (r2, st2) = parse_binary(s, 0, st1);
            lemma_binary(s, 0, st1);
            if r2 is Ok {
                lemma_expect_shrinks(s, st2, TokenV::RightBracket);
            }
        }
    }
}

proof fn lemma_limit(s: Seq<u8>, st: PState, marker: TokenV)
    requires
        in_bounds(s, st),
        marker is Underscore || marker is Caret,
    ensures
        kept(s, st, parse_limit(s, st, marker).1),
        fails_cleanly(s, parse_limit(s, st, marker).0),
    decreases measure(s, st), 0int,
{
    if st.cur == marker {
        lemma_advance(s, st);
        let (r, st1) = advance(s, st);
        if r is Ok {
            if st1.cur is LeftBrace {
                lemma_advance(s, st1);
                let (r2, st2) = advance(s, st1);
                if r2 is Ok {
                    let (r3, st3) = parse_binary(s, 0, st2);
                    lemma_binary(s, 0, st2);
                    if r3 is Ok {
                        lemma_expect_shrinks(s, st3, TokenV::RightBrace);
                    }
                }
            } else {
                lemma_primary(s, st1);
            }
        }
    }
}

proof fn lemma_limits(s: Seq<u8>, st: PState)
    requires
        in_bounds(s, st),
    ensures
        kept(s, st, parse_limits(s, st).1),
        fails_cleanly(s, parse_limits(s, st).0),
    decreases measure(s, st), 1int,
{
    let (r, st1) = parse_limit(s, st, TokenV::Underscore);
    lemma_limit(s, st, TokenV::Underscore);
    if r is Ok {
        lemma_limit(s, st1, TokenV::Caret);
    }
}

proof fn lemma_group(s: Seq<u8>, st: PState)
    requires
        in_bounds(s, st),
        !(st.cur is Eof),
    ensures
        kept(s, st, parse_group(s, st).1),
        fails_cleanly(s, parse_group(s, st).0),
    decreases measure(s, st), 0int,
{
    lemma_advance(s, st);
    let (r, st1) = advance(s, st);
    if r is Ok {
        let (r2, st2) = parse_binary(s, 0, st1);
        lemma_binary(s, 0, st1);
        if r2 is Ok {
            lemma_expect_shrinks(s, st2, TokenV::RightParen);
        }
    }
}

proof fn lemma_fraction(s: Seq<u8>, st: PState)
    requires
        in_bounds(s, st),
        !(st.cur is Eof),
    ensures
        kept(s, st, parse_fraction(s, st).1),
        fails_cleanly(s, parse_fraction(s, st).0),
    decreases measure(s, st), 0int,
{
    lemma_advance(s, st);
    let (r, st1) = advance(s, st);
    if r is Ok {
        let (r2, st2) = parse_braced(s, st1);
        lemma_braced(s, st1);
        if r2 is Ok {
            lemma_braced(s, st2);
        }
    }
}

proof fn lemma_root(s: Seq<u8>, st: PState)
    requires
        in_bounds(s, st),
        !(st.cur is Eof),
    ensures
        kept(s, st, parse_root(s, st).1),
        fails_cleanly(s, parse_root(s, st).0),
    decreases measure(s, st), 0int,
{
    lemma_advance(s, st);
    let (r, st1) = advance(s, st);
    if r is Ok {
        let (r2, st2) = parse_degree(s, st1);
        lemma_degree(s, st1);
        if r2 is Ok {
            lemma_braced(s, st2);
        }
    }
}

proof fn lemma_sum(s: Seq<u8>, st: PState)
    requires
        in_bounds(s, st),
        !(st.cur is Eof),
    ensures
        kept(s, st, parse_sum(s, st).1),
        fails_cleanly(s, parse_sum(s, st).0),
    decreases measure(s, st), 0int,
{
    lemma_advance(s, st);
    let (r, st1) = advance(s, st);
    if r is Ok {
        let (r2, st2) = parse_limits(s, st1);
        lemma_limits(s, st1);
        if r2 is Ok {
            lemma_braced(s, st2);
        }
    }
}

proof fn lemma_atom(s: Seq<u8>, st: PState)
    requires
        in_bounds(s, st),
    ensures
        kept(s, st, parse_atom(s, st).1),
        fails_cleanly(s, parse_atom(s, st).0),
    decreases measure(s, st), 1int,
{
    lemma_advance(s, st);
    match st.cur {
        TokenV::LeftParen => lemma_group(s, st),
        TokenV::Frac => lemma_fraction(s, st),
        TokenV::Sqrt => lemma_root(s, st),
        TokenV::Sum => lemma_sum(s, st),
        _ => {},
    }
}

/// Reading an expression from a state within the input leaves a state
/// within the input that is no larger, and fails, if at all, only with an
/// error of the parser or with an error of the lexer that points at a byte
/// where no token starts: the grammar's checks before recursing always
/// pass, so it never stalls.
pub proof fn law_expression_never_stalls(s: Seq<u8>, st: PState)
    requires
        in_bounds(s, st),
    ensures
        kept(s, st, crate::grammar::parse_expression(s, st).1),
        fails_cleanly(s, crate::grammar::parse_expression(s, st).0),
{
    lemma_binary(s, 0, st);
}

/// Parsing a whole input fails, if at all, with an error of the parser or
/// with an error of the lexer at a byte of the input where no token starts.
pub proof fn law_parse_errors_point_at_bad_bytes(s: Seq<u8>)
    ensures
        fails_cleanly(s, crate::grammar::parse_source(s)),
{
    crate::lexer::lemma_lex_step_bounds(s, 0);
    if let Ok(st) = crate::grammar::initial_state(s) {
        lemma_binary(s, 0, st);
    }
}

} // verus!
