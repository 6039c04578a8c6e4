//! What every expression the grammar produces looks like, and what that
//! means for layout.
use vstd::prelude::*;
use crate::ast::NodeV;
use crate::grammar::{
    PState, below, not_above, parse_atom, parse_binary, parse_braced, parse_degree,
    parse_expression, parse_fraction, parse_group, parse_limit, parse_limits, parse_primary,
    parse_root, parse_scripts, parse_source, parse_sum, parse_unary, binary_rest, measure,
};
use crate::layout::layout_supported;

verus! {

/// The node kinds the parser builds: identifiers, numbers, binary and unary
/// operations, groups, fractions, roots, superscripts, subscripts and sums.
pub open spec fn parser_shaped(n: NodeV) -> bool
    decreases n,
{
    match n {
        NodeV::Identifier(_) => true,
        NodeV::Number(_) => true,
        NodeV::BinaryOp { left, right, .. } => parser_shaped(*left) && parser_shaped(*right),
        NodeV::UnaryOp { operand, .. } => parser_shaped(*operand),
        NodeV::Group(c) => parser_shaped(*c),
        NodeV::Fraction { numerator, denominator } => parser_shaped(*numerator) && parser_shaped(
            *denominator,
        ),
        NodeV::Root { degree, radicand } => opt_shaped(degree) && parser_shaped(*radicand),
        NodeV::Superscript { base, superscript } => parser_shaped(*base) && parser_shaped(
            *superscript,
        ),
        NodeV::Subscript { base, subscript } => parser_shaped(*base) && parser_shaped(*subscript),
        NodeV::Sum { lower_limit, upper_limit, body } => opt_shaped(lower_limit) && opt_shaped(
            upper_limit,
        ) && parser_shaped(*body),
        _ => false,
    }
}

pub open spec fn opt_shaped(n: Option<Box<NodeV>>) -> bool
    decreases n,
{
    match n {
        Some(b) => parser_shaped(*b),
        None => true,
    }
}

/// Whether a tree holds a unary operation or a sum anywhere.
pub open spec fn has_unary_or_sum(n: NodeV) -> bool
    decreases n,
{
    match n {
        NodeV::UnaryOp { .. } => true,
        NodeV::Sum { .. } => true,
        NodeV::BinaryOp { left, right, .. } => has_unary_or_sum(*left) || has_unary_or_sum(*right),
        NodeV::Group(c) => has_unary_or_sum(*c),
        NodeV::Fraction { numerator, denominator } => has_unary_or_sum(*numerator)
            || has_unary_or_sum(*denominator),
        NodeV::Root { degree, radicand } => (match degree {
            Some(d) => has_unary_or_sum(*d),
            None => false,
        }) || has_unary_or_sum(*radicand),
        NodeV::Superscript { base, superscript } => has_unary_or_sum(*base) || has_unary_or_sum(
            *superscript,
        ),
        NodeV::Subscript { base, subscript } => has_unary_or_sum(*base) || has_unary_or_sum(
            *subscript,
        ),
        _ => false,
    }
}

pub open spec fn ok_shaped(r: Result<NodeV, crate::error::ErrorV>) -> bool {
    r matches Ok(n) ==> parser_shaped(n)
}

pub open spec fn ok_opt_shaped(r: Result<Option<NodeV>, crate::error::ErrorV>) -> bool {
    r matches Ok(Some(n)) ==> parser_shaped(n)
}

proof fn lemma_boxed_shaped(o: Option<NodeV>)
    requires
        o matches Some(n) ==> parser_shaped(n),
    ensures
        opt_shaped(crate::grammar::boxed(o)),
{
    if let Some(n) = o {
        assert(opt_shaped(Some(Box::new(n))) == parser_shaped(n));
    }
}

proof fn lemma_binary(s: Seq<u8>, min: nat, st: PState)
    ensures
        ok_shaped(parse_binary(s, min, st).0),
    decreases measure(s, st), 6int,
{
    let (r, st1) = parse_unary(s, st);
    lemma_unary(s, st);
    if let Ok(left) = r {
        if not_above(s, st1, st) {
            lemma_binary_rest(s, left, min, st1);
        }
    }
}

proof fn lemma_binary_rest(s: Seq<u8>, left: NodeV, min: nat, st: PState)
    requires
        parser_shaped(left),
    ensures
        ok_shaped(binary_rest(s, left, min, st).0),
    decreases measure(s, st), 5int,
{
    if let Some(op) = crate::grammar::binary_operator_of(st.cur) {
        if crate::grammar::precedence(op) >= min {
            let (r, st2) = crate::grammar::advance(s, st);
            if r is Ok && below(s, st2, st) {
                let (r3, st3) = parse_binary(s, crate::grammar::precedence(op) + 1, st2);
                lemma_binary(s, crate::grammar::precedence(op) + 1, st2);
                if let Ok(right) = r3 {
                    if below(s, st3, st) {
                        lemma_binary_rest(s, crate::grammar::bin(op, left, right), min, st3);
                    }
                }
            }
        }
    }
}

proof fn lemma_unary(s: Seq<u8>, st: PState)
    ensures
        ok_shaped(parse_unary(s, st).0),
    decreases measure(s, st), 4int,
{
    if st.cur is Plus || st.cur is Minus {
        let (r, st1) = crate::grammar::advance(s, st);
        if r is Ok && below(s, st1, st) {
            lemma_unary(s, st1);
        }
    } else {
        lemma_primary(s, st);
    }
}

proof fn lemma_primary(s: Seq<u8>, st: PState)
    ensures
        ok_shaped(parse_primary(s, st).0),
    decreases measure(s, st), 3int,
{
    let (r, st1) = parse_atom(s, st);
    lemma_atom(s, st);
    if let Ok(e) = r {
        if not_above(s, st1, st) {
            lemma_scripts(s, e, st1);
        }
    }
}

proof fn lemma_scripts(s: Seq<u8>, base: NodeV, st: PState)
    requires
        parser_shaped(base),
    ensures
        ok_shaped(parse_scripts(s, base, st).0),
    decreases measure(s, st), 2int,
{
    if st.cur is Caret || st.cur is Underscore {
        let (r, st2) = crate::grammar::advance(s, st);
        if r is Ok && below(s, st2, st) {
            let (r3, st3) = parse_primary(s, st2);
            lemma_primary(s, st2);
            if let Ok(script) = r3 {
                if below(s, st3, st) {
                    let next = if st.cur is Caret {
                        NodeV::Superscript { base: Box::new(base), superscript: Box::new(script) }
                    } else {
                        NodeV::Subscript { base: Box::new(base), subscript: Box::new(script) }
                    };
                    lemma_scripts(s, next, st3);
                }
            }
        }
    }
}

proof fn lemma_braced(s: Seq<u8>, st: PState)
    ensures
        ok_shaped(parse_braced(s, st).0),
    decreases measure(s, st), 0int,
{
    let (r, st1) = crate::grammar::expect(s, st, crate::token::TokenV::LeftBrace);
    if r is Ok && below(s, st1, st) {
        lemma_binary(s, 0, st1);
    }
}

proof fn lemma_degree(s: Seq<u8>, st: PState)
    ensures
        ok_opt_shaped(parse_degree(s, st).0),
    decreases measure(s, st), 0int,
{
    if st.cur is LeftBracket {
        let (r, st1) = crate::grammar::advance(s, st);
        if r is Ok && below(s, st1, st) {
            lemma_binary(s, 0, st1);
        }
    }
}

proof fn lemma_limit(s: Seq<u8>, st: PState, marker: crate::token::TokenV)
    ensures
        ok_opt_shaped(parse_limit(s, st, marker).0),
    decreases measure(s, st), 0int,
{
    if st.cur == marker {
        let (r, st1) = crate::grammar::advance(s, st);
        if r is Ok && below(s, st1, st) {
            if st1.cur is LeftBrace {
                let (r2, st2) = crate::grammar::advance(s, st1);
                if r2 is Ok && below(s, st2, st) {
                    lemma_binary(s, 0, st2);
                }
            } else {
                lemma_primary(s, st1);
            }
        }
    }
}

proof fn lemma_limits(s: Seq<u8>, st: PState)
    ensures
        parse_limits(s, st).0 matches Ok((lower, upper)) ==> (lower matches Some(n)
            ==> parser_shaped(n)) && (upper matches Some(n) ==> parser_shaped(n)),
    decreases measure(s, st), 1int,
{
    let (r, st1) = parse_limit(s, st, crate::token::TokenV::Underscore);
    lemma_limit(s, st, crate::token::TokenV::Underscore);
    if r is Ok && not_above(s, st1, st) {
        lemma_limit(s, st1, crate::token::TokenV::Caret);
    }
}

proof fn lemma_group(s: Seq<u8>, st: PState)
    ensures
        ok_shaped(parse_group(s, st).0),
    decreases measure(s, st), 0int,
{
    let (r, st1) = crate::grammar::advance(s, st);
    if r is Ok && below(s, st1, st) {
        lemma_binary(s, 0, st1);
    }
}

proof fn lemma_fraction(s: Seq<u8>, st: PState)
    ensures
        ok_shaped(parse_fraction(s, st).0),
    decreases measure(s, st), 0int,
{
    let (r, st1) = crate::grammar::advance(s, st);
    if r is Ok && below(s, st1, st) {
        let (r2, st2) = parse_braced(s, st1);
        lemma_braced(s, st1);
        if r2 is Ok && below(s, st2, st) {
            lemma_braced(s, st2);
        }
    }
}

proof fn lemma_root(s: Seq<u8>, st: PState)
    ensures
        ok_shaped(parse_root(s, st).0),
    decreases measure(s, st), 0int,
{
    let (r, st1) = crate::grammar::advance(s, st);
    if r is Ok && below(s, st1, st) {
        let (r2, st2) = parse_degree(s, st1);
        lemma_degree(s, st1);
        if let Ok(degree) = r2 {
            lemma_boxed_shaped(degree);
            if below(s, st2, st) {
                lemma_braced(s, st2);
            }
        }
    }
}

proof fn lemma_sum(s: Seq<u8>, st: PState)
    ensures
        ok_shaped(parse_sum(s, st).0),
    decreases measure(s, st), 0int,
{
    let (r, st1) = crate::grammar::advance(s, st);
    if r is Ok && below(s, st1, st) {
        let (r2, st2) = parse_limits(s, st1);
        lemma_limits(s, st1);
        if let Ok((lower, upper)) = r2 {
            lemma_boxed_shaped(lower);
            lemma_boxed_shaped(upper);
            if below(s, st2, st) {
                lemma_braced(s, st2);
            }
        }
    }
}

proof fn lemma_atom(s: Seq<u8>, st: PState)
    ensures
        ok_shaped(parse_atom(s, st).0),
    decreases measure(s, st), 1int,
{
    match st.cur {
        crate::token::TokenV::LeftParen => lemma_group(s, st),
        crate::token::TokenV::Frac => lemma_fraction(s, st),
        crate::token::TokenV::Sqrt => lemma_root(s, st),
        crate::token::TokenV::Sum => lemma_sum(s, st),
        _ => {},
    }
}

/// The parser only ever builds identifiers, numbers, binary and unary
/// operations, groups, fractions, roots, superscripts, subscripts and sums:
/// never a symbol, bracket, integral, matrix, function, accent or combined
/// sub-and-superscript node.
pub proof fn law_parser_node_kinds(s: Seq<u8>, st: PState)
    ensures
        parse_expression(s, st).0 matches Ok(n) ==> parser_shaped(n),
        parse_source(s) matches Ok(n) ==> parser_shaped(n),
{
    lemma_binary(s, 0, st);
    if let Ok(st0) = crate::grammar::initial_state(s) {
        lemma_binary(s, 0, st0);
    }
}

proof fn lemma_layout_of_shaped(n: NodeV)
    requires
        parser_shaped(n),
    ensures
        layout_supported(n) <==> !has_unary_or_sum(n),
    decreases n,
{
    match n {
        NodeV::BinaryOp { left, right, .. } => {
            lemma_layout_of_shaped(*left);
            lemma_layout_of_shaped(*right);
        },
        NodeV::UnaryOp { operand, .. } => {},
        NodeV::Group(c) => lemma_layout_of_shaped(*c),
        NodeV::Fraction { numerator, denominator } => {
            lemma_layout_of_shaped(*numerator);
            lemma_layout_of_shaped(*denominator);
        },
        NodeV::Root { degree, radicand } => {
            assert(opt_shaped(degree));
            if let Some(d) = degree {
                lemma_layout_of_shaped(*d);
            }
            lemma_layout_of_shaped(*radicand);
        },
        NodeV::Superscript { base, superscript } => {
            lemma_layout_of_shaped(*base);
            lemma_layout_of_shaped(*superscript);
        },
        NodeV::Subscript { base, subscript } => {
            lemma_layout_of_shaped(*base);
            lemma_layout_of_shaped(*subscript);
        },
        _ => {},
    }
}

/// An expression read from the input can be laid out exactly when it holds
/// no unary `+`/`-` and no sum: those are the only kinds the parser builds
/// that layout rejects.
pub proof fn law_parsed_layout(s: Seq<u8>)
    ensures
        parse_source(s) matches Ok(n) ==> (layout_supported(n) <==> !has_unary_or_sum(n)),
{
    law_parser_node_kinds(s, PState { cur: crate::token::TokenV::Eof, pos: 0 });
    if let Ok(n) = parse_source(s) {
        lemma_layout_of_shaped(n);
    }
}

} // verus!
