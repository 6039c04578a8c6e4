//! How the parser groups two operators: a tighter operator groups first,
//! operators that bind equally group to the left, and a script takes the
//! scripts that follow it.
use vstd::prelude::*;
use crate::ast::{BinaryOperator, NodeV};
use crate::layout::operator_char;
use crate::grammar::{
    PState, advance, bin, binary_operator_of, binary_rest, initial_state, parse_atom,
    parse_binary, parse_primary, parse_scripts, parse_source, parse_unary, precedence,
};
use crate::lexer::{ByteClass, LexStep, is_digit, is_letter, lex_step, run_end, text_of};
use crate::token::TokenV;

verus! {

/// The bytes of the binary operators `+ - * / = < >`.
pub open spec fn operator_byte(b: u8) -> bool {
    b == 43 || b == 45 || b == 42 || b == 47 || b == 61 || b == 60 || b == 62
}

/// The token of an operator byte.
pub open spec fn operator_token(b: u8) -> TokenV {
    if b == 43 {
        TokenV::Plus
    } else if b == 45 {
        TokenV::Minus
    } else if b == 42 {
        TokenV::Asterisk
    } else if b == 47 {
        TokenV::Slash
    } else if b == 61 {
        TokenV::Equal
    } else if b == 60 {
        TokenV::Less
    } else {
        TokenV::Greater
    }
}

/// The binary operator of an operator byte.
pub open spec fn operator_of(b: u8) -> BinaryOperator {
    binary_operator_of(operator_token(b)).unwrap()
}

pub open spec fn letter_node(b: u8) -> NodeV {
    NodeV::Identifier(seq![b as char])
}

proof fn lemma_letter_step(s: Seq<u8>, p: int)
    requires
        0 <= p < s.len(),
        is_letter(s[p]),
        p + 1 == s.len() || !(is_letter(s[p + 1]) || is_digit(s[p + 1])),
    ensures
        lex_step(s, p) == (LexStep::Token {
            token: TokenV::Identifier(seq![s[p] as char]),
            start: p,
            end: p + 1,
        }),
{
    assert(run_end(s, p, ByteClass::Blank) == p);
    assert(run_end(s, p + 1, ByteClass::Alphanumeric) == p + 1);
    assert(text_of(s, p, p + 1) =~= seq![s[p] as char]);
}

proof fn lemma_operator_step(s: Seq<u8>, p: int)
    requires
        0 <= p,
        p + 1 < s.len(),
        operator_byte(s[p]),
        is_letter(s[p + 1]),
    ensures
        lex_step(s, p) == (LexStep::Token { token: operator_token(s[p]), start: p, end: p + 1 }),
{
    assert(run_end(s, p, ByteClass::Blank) == p);
}

proof fn lemma_end_step(s: Seq<u8>)
    ensures
        lex_step(s, s.len() as int) == (LexStep::End { at: s.len() as int }),
{
}

/// Reading a one-letter operand at state `st` (its token current, the next
/// token read from `st.pos`) gives the letter and the state after it, at
/// any minimum precedence above the next operator's, and in the unary and
/// primary rules.
proof fn lemma_operand(s: Seq<u8>, c: u8, st: PState, next: PState)
    requires
        st.cur == TokenV::Identifier(seq![c as char]),
        0 <= st.pos <= s.len(),
        lex_step(s, st.pos) == (LexStep::Token { token: next.cur, start: st.pos, end: next.pos })
            || (lex_step(s, st.pos) == (LexStep::End { at: st.pos }) && next == PState {
            cur: TokenV::Eof,
            pos: st.pos,
        }),
        st.pos <= next.pos <= s.len(),
        !(next.cur is Caret) && !(next.cur is Underscore),
    ensures
        parse_atom(s, st) == (Ok::<NodeV, crate::error::ErrorV>(letter_node(c)), next),
        parse_primary(s, st) == (Ok::<NodeV, crate::error::ErrorV>(letter_node(c)), next),
        parse_unary(s, st) == (Ok::<NodeV, crate::error::ErrorV>(letter_node(c)), next),
{
    assert(advance(s, st) == (Ok::<(), crate::error::ErrorV>(()), next));
    assert(parse_scripts(s, letter_node(c), next) == (
        Ok::<NodeV, crate::error::ErrorV>(letter_node(c)),
        next,
    ));
}

/// `x o1 y o2 z`, for letters `x`, `y`, `z` and operators `o1`, `o2`, reads
/// as `(x o1 y) o2 z` when `o1` binds at least as tightly as `o2`, and as
/// `x o1 (y o2 z)` when `o2` binds more tightly: products before sums,
/// sums before relations, and left to right among equals.
pub proof fn law_two_operators(x: u8, o1: u8, y: u8, o2: u8, z: u8)
    requires
        is_letter(x),
        is_letter(y),
        is_letter(z),
        operator_byte(o1),
        operator_byte(o2),
    ensures
        parse_source(seq![x, o1, y, o2, z]) == if precedence(operator_of(o1)) >= precedence(
            operator_of(o2),
        ) {
            Ok::<NodeV, crate::error::ErrorV>(
                bin(
                    operator_of(o2),
                    bin(operator_of(o1), letter_node(x), letter_node(y)),
                    letter_node(z),
                ),
            )
        } else {
            Ok::<NodeV, crate::error::ErrorV>(
                bin(
                    operator_of(o1),
                    letter_node(x),
                    bin(operator_of(o2), letter_node(y), letter_node(z)),
                ),
            )
        },
{
    let s = seq![x, o1, y, o2, z];
    let op1 = operator_of(o1);
    let op2 = operator_of(o2);
    let p1 = precedence(op1);
    let p2 = precedence(op2);
    lemma_letter_step(s, 0);
    lemma_operator_step(s, 1);
    lemma_letter_step(s, 2);
    lemma_operator_step(s, 3);
    lemma_letter_step(s, 4);
    lemma_end_step(s);
    let st0 = PState { cur: TokenV::Identifier(seq![x as char]), pos: 1 };
    let st1 = PState { cur: operator_token(o1), pos: 2 };
    let st2 = PState { cur: TokenV::Identifier(seq![y as char]), pos: 3 };
    let st3 = PState { cur: operator_token(o2), pos: 4 };
    let st4 = PState { cur: TokenV::Identifier(seq![z as char]), pos: 5 };
    let st5 = PState { cur: TokenV::Eof, pos: 5 };
    assert(initial_state(s) == Ok::<PState, crate::error::ErrorV>(st0));
    lemma_operand(s, x, st0, st1);
    lemma_operand(s, y, st2, st3);
    lemma_operand(s, z, st4, st5);
    assert(binary_operator_of(st1.cur) == Some(op1));
    assert(binary_operator_of(st3.cur) == Some(op2));
    assert(advance(s, st1) == (Ok::<(), crate::error::ErrorV>(()), st2));
    assert(advance(s, st3) == (Ok::<(), crate::error::ErrorV>(()), st4));
    let zn = letter_node(z);
    // z, read at any level, ends the input.
    assert(forall|m: nat| #[trigger] binary_rest(s, zn, m, st5) == (
        Ok::<NodeV, crate::error::ErrorV>(zn),
        st5,
    ));
    assert(parse_binary(s, p2 + 1, st4) == (Ok::<NodeV, crate::error::ErrorV>(zn), st5));
    if p1 >= p2 {
        let yn = letter_node(y);
        assert(binary_rest(s, yn, p1 + 1, st3) == (Ok::<NodeV, crate::error::ErrorV>(yn), st3));
        assert(parse_binary(s, p1 + 1, st2) == (Ok::<NodeV, crate::error::ErrorV>(yn), st3));
        let left = bin(op1, letter_node(x), yn);
        let whole = bin(op2, left, zn);
        assert(binary_rest(s, whole, 0, st5) == (Ok::<NodeV, crate::error::ErrorV>(whole), st5));
        assert(binary_rest(s, left, 0, st3) == (Ok::<NodeV, crate::error::ErrorV>(whole), st5));
        assert(binary_rest(s, letter_node(x), 0, st1) == (
            Ok::<NodeV, crate::error::ErrorV>(whole),
            st5,
        ));
        assert(parse_binary(s, 0, st0) == (Ok::<NodeV, crate::error::ErrorV>(whole), st5));
    } else {
        let right = bin(op2, letter_node(y), zn);
        assert(binary_rest(s, right, p1 + 1, st5) == (
            Ok::<NodeV, crate::error::ErrorV>(right),
            st5,
        ));
        assert(binary_rest(s, letter_node(y), p1 + 1, st3) == (
            Ok::<NodeV, crate::error::ErrorV>(right),
            st5,
        ));
        assert(parse_binary(s, p1 + 1, st2) == (Ok::<NodeV, crate::error::ErrorV>(right), st5));
        let whole = bin(op1, letter_node(x), right);
        assert(binary_rest(s, whole, 0, st5) == (Ok::<NodeV, crate::error::ErrorV>(whole), st5));
        assert(binary_rest(s, letter_node(x), 0, st1) == (
            Ok::<NodeV, crate::error::ErrorV>(whole),
            st5,
        ));
        assert(parse_binary(s, 0, st0) == (Ok::<NodeV, crate::error::ErrorV>(whole), st5));
    }
}

/// The texts of the binary operators: `+ - * / = < >` and the two-byte
/// relations `!= <= >=`.
pub open spec fn operator_text(t: Seq<u8>) -> bool {
    t == seq![43u8] || t == seq![45u8] || t == seq![42u8] || t == seq![47u8] || t == seq![61u8]
        || t == seq![60u8] || t == seq![62u8] || t == seq![33u8, 61u8] || t == seq![60u8, 61u8]
        || t == seq![62u8, 61u8]
}

/// The operator each operator text stands for.
pub open spec fn operator_named(t: Seq<u8>) -> BinaryOperator {
    if t == seq![43u8] {
        BinaryOperator::Plus
    } else if t == seq![45u8] {
        BinaryOperator::Minus
    } else if t == seq![42u8] {
        BinaryOperator::Multiply
    } else if t == seq![47u8] {
        BinaryOperator::Divide
    } else if t == seq![61u8] {
        BinaryOperator::Equal
    } else if t == seq![33u8, 61u8] {
        BinaryOperator::NotEqual
    } else if t == seq![60u8] {
        BinaryOperator::Less
    } else if t == seq![62u8] {
        BinaryOperator::Greater
    } else if t == seq![60u8, 61u8] {
        BinaryOperator::LessEqual
    } else {
        BinaryOperator::GreaterEqual
    }
}

/// How tightly the operator written `t` binds: the relations
/// `= != < > <= >=` at 0, `+ -` at 1, `* /` at 2.
pub open spec fn binding_level(t: Seq<u8>) -> nat {
    if t == seq![43u8] || t == seq![45u8] {
        1
    } else if t == seq![42u8] || t == seq![47u8] {
        2
    } else {
        0
    }
}

/// The token of an operator text.
pub open spec fn text_token(t: Seq<u8>) -> TokenV {
    if t == seq![43u8] {
        TokenV::Plus
    } else if t == seq![45u8] {
        TokenV::Minus
    } else if t == seq![42u8] {
        TokenV::Asterisk
    } else if t == seq![47u8] {
        TokenV::Slash
    } else if t == seq![61u8] {
        TokenV::Equal
    } else if t == seq![33u8, 61u8] {
        TokenV::NotEqual
    } else if t == seq![60u8] {
        TokenV::Less
    } else if t == seq![62u8] {
        TokenV::Greater
    } else if t == seq![60u8, 61u8] {
        TokenV::LessEqual
    } else {
        TokenV::GreaterEqual
    }
}

proof fn lemma_text_distinct()
    ensures
        seq![43u8] != seq![45u8] && seq![43u8] != seq![42u8] && seq![43u8] != seq![47u8]
            && seq![43u8] != seq![61u8] && seq![43u8] != seq![60u8] && seq![43u8] != seq![62u8],
        seq![45u8] != seq![42u8] && seq![45u8] != seq![47u8] && seq![45u8] != seq![61u8]
            && seq![45u8] != seq![60u8] && seq![45u8] != seq![62u8],
        seq![42u8] != seq![47u8] && seq![42u8] != seq![61u8] && seq![42u8] != seq![60u8]
            && seq![42u8] != seq![62u8],
        seq![47u8] != seq![61u8] && seq![47u8] != seq![60u8] && seq![47u8] != seq![62u8],
        seq![61u8] != seq![60u8] && seq![61u8] != seq![62u8] && seq![60u8] != seq![62u8],
        seq![33u8, 61u8] != seq![60u8, 61u8] && seq![33u8, 61u8] != seq![62u8, 61u8]
            && seq![60u8, 61u8] != seq![62u8, 61u8],
        forall|b: u8, c: u8, d: u8| seq![b] != seq![c, d],
{
    assert(seq![43u8][0] != seq![45u8][0]);
    assert(seq![43u8][0] != seq![42u8][0]);
    assert(seq![43u8][0] != seq![47u8][0]);
    assert(seq![43u8][0] != seq![61u8][0]);
    assert(seq![43u8][0] != seq![60u8][0]);
    assert(seq![43u8][0] != seq![62u8][0]);
    assert(seq![45u8][0] != seq![42u8][0]);
    assert(seq![45u8][0] != seq![47u8][0]);
    assert(seq![45u8][0] != seq![61u8][0]);
    assert(seq![45u8][0] != seq![60u8][0]);
    assert(seq![45u8][0] != seq![62u8][0]);
    assert(seq![42u8][0] != seq![47u8][0]);
    assert(seq![42u8][0] != seq![61u8][0]);
    assert(seq![42u8][0] != seq![60u8][0]);
    assert(seq![42u8][0] != seq![62u8][0]);
    assert(seq![47u8][0] != seq![61u8][0]);
    assert(seq![47u8][0] != seq![60u8][0]);
    assert(seq![47u8][0] != seq![62u8][0]);
    assert(seq![61u8][0] != seq![60u8][0]);
    assert(seq![61u8][0] != seq![62u8][0]);
    assert(seq![60u8][0] != seq![62u8][0]);
    assert(seq![33u8, 61u8][0] != seq![60u8, 61u8][0]);
    assert(seq![33u8, 61u8][0] != seq![62u8, 61u8][0]);
    assert(seq![60u8, 61u8][0] != seq![62u8, 61u8][0]);
    assert forall|b: u8, c: u8, d: u8| seq![b] != seq![c, d] by {
        assert(seq![b].len() != seq![c, d].len());
    }
}

/// Each operator text reads as its operator, at its binding level.
proof fn lemma_text_operator(t: Seq<u8>)
    requires
        operator_text(t),
    ensures
        binary_operator_of(text_token(t)) == Some(operator_named(t)),
        precedence(operator_named(t)) == binding_level(t),
        1 <= t.len() <= 2,
        !is_letter(t[0]) && !is_digit(t[0]),
{
    lemma_text_distinct();
}

/// An operator text followed by a letter is read as one token.
proof fn lemma_text_step(s: Seq<u8>, p: int, t: Seq<u8>)
    requires
        operator_text(t),
        0 <= p,
        p + t.len() < s.len(),
        s.subrange(p, p + t.len()) == t,
        is_letter(s[p + t.len()]),
    ensures
        lex_step(s, p) == (LexStep::Token { token: text_token(t), start: p, end: p + t.len() }),
{
    lemma_text_distinct();
    lemma_text_operator(t);
    assert(s[p] == t[0]);
    if t.len() == 2 {
        assert(s[p + 1] == t[1]);
    }
    assert(run_end(s, p, ByteClass::Blank) == p);
}

/// `x o1 y o2 z`, for letters `x`, `y`, `z` and any binary operators `o1`,
/// `o2` (the two-byte relations `!=`, `<=`, `>=` among them), reads as
/// `(x o1 y) o2 z` when `o1` binds at least as tightly as `o2`, and as
/// `x o1 (y o2 z)` otherwise, where the relations bind weakest, then `+ -`,
/// then `* /`.
pub proof fn law_operator_grouping(x: u8, o1: Seq<u8>, y: u8, o2: Seq<u8>, z: u8)
    requires
        is_letter(x),
        is_letter(y),
        is_letter(z),
        operator_text(o1),
        operator_text(o2),
    ensures
        parse_source(seq![x] + o1 + seq![y] + o2 + seq![z]) == if binding_level(o1)
            >= binding_level(o2) {
            Ok::<NodeV, crate::error::ErrorV>(
                bin(
                    operator_named(o2),
                    bin(operator_named(o1), letter_node(x), letter_node(y)),
                    letter_node(z),
                ),
            )
        } else {
            Ok::<NodeV, crate::error::ErrorV>(
                bin(
                    operator_named(o1),
                    letter_node(x),
                    bin(operator_named(o2), letter_node(y), letter_node(z)),
                ),
            )
        },
{
    let s = seq![x] + o1 + seq![y] + o2 + seq![z];
    lemma_text_operator(o1);
    lemma_text_operator(o2);
    let a: int = 1 + o1.len() as int;
    let b: int = a + 1 + o2.len() as int;
    assert(s.len() == b + 1);
    assert(s[0] == x);
    assert(s.subrange(1, a) =~= o1);
    assert(s[a] == y);
    assert(s.subrange(a + 1, b) =~= o2);
    assert(s[b] == z);
    assert(s[1] == o1[0]);
    assert(s[a + 1] == o2[0]);
    let op1 = operator_named(o1);
    let op2 = operator_named(o2);
    let p1 = precedence(op1);
    let p2 = precedence(op2);
    lemma_letter_step(s, 0);
    lemma_text_step(s, 1, o1);
    lemma_letter_step(s, a);
    lemma_text_step(s, a + 1, o2);
    lemma_letter_step(s, b);
    lemma_end_step(s);
    let st0 = PState { cur: TokenV::Identifier(seq![x as char]), pos: 1 };
    let st1 = PState { cur: text_token(o1), pos: a };
    let st2 = PState { cur: TokenV::Identifier(seq![y as char]), pos: a + 1 };
    let st3 = PState { cur: text_token(o2), pos: b };
    let st4 = PState { cur: TokenV::Identifier(seq![z as char]), pos: b + 1 };
    let st5 = PState { cur: TokenV::Eof, pos: b + 1 };
    assert(initial_state(s) == Ok::<PState, crate::error::ErrorV>(st0));
    lemma_operand(s, x, st0, st1);
    lemma_operand(s, y, st2, st3);
    lemma_operand(s, z, st4, st5);
    assert(advance(s, st1) == (Ok::<(), crate::error::ErrorV>(()), st2));
    assert(advance(s, st3) == (Ok::<(), crate::error::ErrorV>(()), st4));
    let zn = letter_node(z);
    assert(forall|m: nat| #[trigger] binary_rest(s, zn, m, st5) == (
        Ok::<NodeV, crate::error::ErrorV>(zn),
        st5,
    ));
    assert(parse_binary(s, p2 + 1, st4) == (Ok::<NodeV, crate::error::ErrorV>(zn), st5));
    if p1 >= p2 {
        let yn = letter_node(y);
        assert(binary_rest(s, yn, p1 + 1, st3) == (Ok::<NodeV, crate::error::ErrorV>(yn), st3));
        assert(parse_binary(s, p1 + 1, st2) == (Ok::<NodeV, crate::error::ErrorV>(yn), st3));
        let left = bin(op1, letter_node(x), yn);
        let whole = bin(op2, left, zn);
        assert(binary_rest(s, whole, 0, st5) == (Ok::<NodeV, crate::error::ErrorV>(whole), st5));
        assert(binary_rest(s, left, 0, st3) == (Ok::<NodeV, crate::error::ErrorV>(whole), st5));
        assert(binary_rest(s, letter_node(x), 0, st1) == (
            Ok::<NodeV, crate::error::ErrorV>(whole),
            st5,
        ));
        assert(parse_binary(s, 0, st0) == (Ok::<NodeV, crate::error::ErrorV>(whole), st5));
    } else {
        let right = bin(op2, letter_node(y), zn);
        assert(binary_rest(s, right, p1 + 1, st5) == (
            Ok::<NodeV, crate::error::ErrorV>(right),
            st5,
        ));
        assert(binary_rest(s, letter_node(y), p1 + 1, st3) == (
            Ok::<NodeV, crate::error::ErrorV>(right),
            st5,
        ));
        assert(parse_binary(s, p1 + 1, st2) == (Ok::<NodeV, crate::error::ErrorV>(right), st5));
        let whole = bin(op1, letter_node(x), right);
        assert(binary_rest(s, whole, 0, st5) == (Ok::<NodeV, crate::error::ErrorV>(whole), st5));
        assert(binary_rest(s, letter_node(x), 0, st1) == (
            Ok::<NodeV, crate::error::ErrorV>(whole),
            st5,
        ));
        assert(parse_binary(s, 0, st0) == (Ok::<NodeV, crate::error::ErrorV>(whole), st5));
    }
}

/// `x o y`, for letters `x`, `y` and any binary operator `o`, reads as the
/// operation `o` on `x` and `y`.
pub proof fn law_one_operator(x: u8, o: Seq<u8>, y: u8)
    requires
        is_letter(x),
        is_letter(y),
        operator_text(o),
    ensures
        parse_source(seq![x] + o + seq![y]) == Ok::<NodeV, crate::error::ErrorV>(
            bin(operator_named(o), letter_node(x), letter_node(y)),
        ),
{
    let s = seq![x] + o + seq![y];
    lemma_text_operator(o);
    let a: int = 1 + o.len() as int;
    assert(s.len() == a + 1);
    assert(s[0] == x);
    assert(s.subrange(1, a) =~= o);
    assert(s[a] == y);
    assert(s[1] == o[0]);
    let op = operator_named(o);
    lemma_letter_step(s, 0);
    lemma_text_step(s, 1, o);
    lemma_letter_step(s, a);
    lemma_end_step(s);
    let st0 = PState { cur: TokenV::Identifier(seq![x as char]), pos: 1 };
    let st1 = PState { cur: text_token(o), pos: a };
    let st2 = PState { cur: TokenV::Identifier(seq![y as char]), pos: a + 1 };
    let st3 = PState { cur: TokenV::Eof, pos: a + 1 };
    assert(initial_state(s) == Ok::<PState, crate::error::ErrorV>(st0));
    lemma_operand(s, x, st0, st1);
    lemma_operand(s, y, st2, st3);
    assert(advance(s, st1) == (Ok::<(), crate::error::ErrorV>(()), st2));
    let yn = letter_node(y);
    assert(forall|m: nat| #[trigger] binary_rest(s, yn, m, st3) == (
        Ok::<NodeV, crate::error::ErrorV>(yn),
        st3,
    ));
    let whole = bin(op, letter_node(x), yn);
    assert(parse_binary(s, precedence(op) + 1, st2) == (Ok::<NodeV, crate::error::ErrorV>(yn), st3));
    assert(binary_rest(s, whole, 0, st3) == (Ok::<NodeV, crate::error::ErrorV>(whole), st3));
    assert(binary_rest(s, letter_node(x), 0, st1) == (Ok::<NodeV, crate::error::ErrorV>(whole), st3));
    assert(parse_binary(s, 0, st0) == (Ok::<NodeV, crate::error::ErrorV>(whole), st3));
}

/// For the operators written with one of the bytes `+ = < >`, the glyph
/// drawn for the operator read from `x b y` is that byte's own character.
pub proof fn law_parsed_operator_glyph(x: u8, b: u8, y: u8)
    requires
        is_letter(x),
        is_letter(y),
        b == 43 || b == 61 || b == 60 || b == 62,
    ensures
        parse_source(seq![x, b, y]) matches Ok(NodeV::BinaryOp { op, .. }) && operator_char(op)
            == (b as char),
{
    assert(seq![x] + seq![b] + seq![y] =~= seq![x, b, y]);
    law_one_operator(x, seq![b], y);
    lemma_text_distinct();
}

/// The bytes `^` and `_`, which attach a superscript and a subscript.
pub open spec fn script_byte(b: u8) -> bool {
    b == 94 || b == 95
}

/// `base` with the script `script` attached by the marker byte `m`.
pub open spec fn attach(m: u8, base: NodeV, script: NodeV) -> NodeV {
    if m == 94 {
        NodeV::Superscript { base: Box::new(base), superscript: Box::new(script) }
    } else {
        NodeV::Subscript { base: Box::new(base), subscript: Box::new(script) }
    }
}

proof fn lemma_marker_step(s: Seq<u8>, p: int)
    requires
        0 <= p,
        p + 1 < s.len(),
        script_byte(s[p]),
    ensures
        lex_step(s, p) == (LexStep::Token {
            token: if s[p] == 94 { TokenV::Caret } else { TokenV::Underscore },
            start: p,
            end: p + 1,
        }),
{
    assert(run_end(s, p, ByteClass::Blank) == p);
}

/// `x m1 y m2 z`, for letters `x`, `y`, `z` and script markers `m1`, `m2`
/// (`^` or `_`), reads as `x` with the script `y m2 z`: a script is itself a
/// primary expression, so it takes the scripts that follow it
/// (`x^2_i` is `x^(2_i)`).
pub proof fn law_scripts_nest_to_the_right(x: u8, m1: u8, y: u8, m2: u8, z: u8)
    requires
        is_letter(x),
        is_letter(y),
        is_letter(z),
        script_byte(m1),
        script_byte(m2),
    ensures
        parse_source(seq![x, m1, y, m2, z]) == Ok::<NodeV, crate::error::ErrorV>(
            attach(m1, letter_node(x), attach(m2, letter_node(y), letter_node(z))),
        ),
{
    let s = seq![x, m1, y, m2, z];
    lemma_letter_step(s, 0);
    lemma_marker_step(s, 1);
    lemma_letter_step(s, 2);
    lemma_marker_step(s, 3);
    lemma_letter_step(s, 4);
    lemma_end_step(s);
    let t1 = if m1 == 94 { TokenV::Caret } else { TokenV::Underscore };
    let t2 = if m2 == 94 { TokenV::Caret } else { TokenV::Underscore };
    let st0 = PState { cur: TokenV::Identifier(seq![x as char]), pos: 1 };
    let st1 = PState { cur: t1, pos: 2 };
    let st2 = PState { cur: TokenV::Identifier(seq![y as char]), pos: 3 };
    let st3 = PState { cur: t2, pos: 4 };
    let st4 = PState { cur: TokenV::Identifier(seq![z as char]), pos: 5 };
    let st5 = PState { cur: TokenV::Eof, pos: 5 };
    assert(initial_state(s) == Ok::<PState, crate::error::ErrorV>(st0));
    lemma_operand(s, z, st4, st5);
    let inner = attach(m2, letter_node(y), letter_node(z));
    let whole = attach(m1, letter_node(x), inner);
    assert(advance(s, st2) == (Ok::<(), crate::error::ErrorV>(()), st3));
    assert(parse_atom(s, st2) == (Ok::<NodeV, crate::error::ErrorV>(letter_node(y)), st3));
    assert(advance(s, st3) == (Ok::<(), crate::error::ErrorV>(()), st4));
    assert(parse_scripts(s, inner, st5) == (Ok::<NodeV, crate::error::ErrorV>(inner), st5));
    assert(parse_scripts(s, letter_node(y), st3) == (
        Ok::<NodeV, crate::error::ErrorV>(inner),
        st5,
    ));
    assert(parse_primary(s, st2) == (Ok::<NodeV, crate::error::ErrorV>(inner), st5));
    assert(advance(s, st0) == (Ok::<(), crate::error::ErrorV>(()), st1));
    assert(parse_atom(s, st0) == (Ok::<NodeV, crate::error::ErrorV>(letter_node(x)), st1));
    assert(advance(s, st1) == (Ok::<(), crate::error::ErrorV>(()), st2));
    assert(parse_scripts(s, whole, st5) == (Ok::<NodeV, crate::error::ErrorV>(whole), st5));
    assert(parse_scripts(s, letter_node(x), st1) == (
        Ok::<NodeV, crate::error::ErrorV>(whole),
        st5,
    ));
    assert(parse_primary(s, st0) == (Ok::<NodeV, crate::error::ErrorV>(whole), st5));
    assert(parse_unary(s, st0) == (Ok::<NodeV, crate::error::ErrorV>(whole), st5));
    assert(binary_rest(s, whole, 0, st5) == (Ok::<NodeV, crate::error::ErrorV>(whole), st5));
    assert(parse_binary(s, 0, st0) == (Ok::<NodeV, crate::error::ErrorV>(whole), st5));
}

} // verus!
