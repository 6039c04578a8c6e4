//! The lexer: turns the bytes of the input into tokens, one at a time.
//!
//! At each step the lexer skips blanks (space, tab, line feed, form feed)
//! and then takes the longest token that starts there:
//! identifiers `[a-zA-Z][a-zA-Z0-9]*`, numbers
//! `[0-9]+(\.[0-9]+)?([eE][+-]?[0-9]+)?`, the operators and brackets, and the
//! backslash commands. A character that starts no token is rejected on its
//! own (all the bytes of its UTF-8 encoding), and lexing goes on after it.
use vstd::prelude::*;
use vstd::string::StringSliceAdditionalSpecFns;
use crate::error::{ErrorV, MathError};
use crate::text::string_push;
use crate::token::TokenV;
pub use crate::token::Token;

verus! {

/// The classes of bytes that the lexer reads runs of.
pub enum ByteClass {
    Blank,
    Alphanumeric,
    Digit,
    Continuation,
}

pub open spec fn is_letter(b: u8) -> bool {
    (65 <= b <= 90) || (97 <= b <= 122)
}

pub open spec fn is_digit(b: u8) -> bool {
    48 <= b <= 57
}

pub open spec fn in_class(c: ByteClass, b: u8) -> bool {
    match c {
        ByteClass::Blank => b == 32 || b == 9 || b == 10 || b == 12,
        ByteClass::Alphanumeric => is_letter(b) || is_digit(b),
        ByteClass::Digit => is_digit(b),
        ByteClass::Continuation => 128 <= b < 192,
    }
}

/// The end of the run of bytes of class `c` that starts at `p`.
pub open spec fn run_end(s: Seq<u8>, p: int, c: ByteClass) -> int
    decreases s.len() - p,
{
    if 0 <= p < s.len() && in_class(c, s[p]) {
        run_end(s, p + 1, c)
    } else {
        p
    }
}

pub open spec fn byte_is(s: Seq<u8>, i: int, b: u8) -> bool {
    0 <= i < s.len() && s[i] == b
}

/// The characters of the bytes in `[a, e)` (only ever used on ASCII).
pub open spec fn text_of(s: Seq<u8>, a: int, e: int) -> Seq<char> {
    s.subrange(a, e).map_values(|b: u8| b as char)
}

/// Where the exponent of a number that so far ends at `f` ends.
pub open spec fn exponent_end(s: Seq<u8>, f: int) -> int {
    if byte_is(s, f, 101) || byte_is(s, f, 69) {
        let k = if byte_is(s, f + 1, 43) || byte_is(s, f + 1, 45) {
            f + 2
        } else {
            f + 1
        };
        if 0 <= k < s.len() && is_digit(s[k]) {
            run_end(s, k, ByteClass::Digit)
        } else {
            f
        }
    } else {
        f
    }
}

/// Where the number that starts with a digit at `q` ends.
pub open spec fn number_end(s: Seq<u8>, q: int) -> int {
    let d = run_end(s, q, ByteClass::Digit);
    let f = if byte_is(s, d, 46) && 0 <= d + 1 < s.len() && is_digit(s[d + 1]) {
        run_end(s, d + 1, ByteClass::Digit)
    } else {
        d
    };
    exponent_end(s, f)
}

/// The backslash command at `q` (where `s[q]` is a backslash) and its end.
pub open spec fn command_at(s: Seq<u8>, q: int) -> Option<(TokenV, int)> {
    // frac
    if byte_is(s, q + 1, 102) && byte_is(s, q + 2, 114) && byte_is(s, q + 3, 97) && byte_is(
        s,
        q + 4,
        99,
    ) {
        Some((TokenV::Frac, q + 5))
    // sqrt
    } else if byte_is(s, q + 1, 115) && byte_is(s, q + 2, 113) && byte_is(s, q + 3, 114)
        && byte_is(s, q + 4, 116) {
        Some((TokenV::Sqrt, q + 5))
    // sum
    } else if byte_is(s, q + 1, 115) && byte_is(s, q + 2, 117) && byte_is(s, q + 3, 109) {
        Some((TokenV::Sum, q + 4))
    // int
    } else if byte_is(s, q + 1, 105) && byte_is(s, q + 2, 110) && byte_is(s, q + 3, 116) {
        Some((TokenV::Integral, q + 4))
    // lim
    } else if byte_is(s, q + 1, 108) && byte_is(s, q + 2, 105) && byte_is(s, q + 3, 109) {
        Some((TokenV::Limit, q + 4))
    // alpha
    } else if byte_is(s, q + 1, 97) && byte_is(s, q + 2, 108) && byte_is(s, q + 3, 112)
        && byte_is(s, q + 4, 104) && byte_is(s, q + 5, 97) {
        Some((TokenV::Alpha, q + 6))
    // beta
    } else if byte_is(s, q + 1, 98) && byte_is(s, q + 2, 101) && byte_is(s, q + 3, 116)
        && byte_is(s, q + 4, 97) {
        Some((TokenV::Beta, q + 5))
    // gamma
    } else if byte_is(s, q + 1, 103) && byte_is(s, q + 2, 97) && byte_is(s, q + 3, 109)
        && byte_is(s, q + 4, 109) && byte_is(s, q + 5, 97) {
        Some((TokenV::Gamma, q + 6))
    // Gamma
    } else if byte_is(s, q + 1, 71) && byte_is(s, q + 2, 97) && byte_is(s, q + 3, 109)
        && byte_is(s, q + 4, 109) && byte_is(s, q + 5, 97) {
        Some((TokenV::CapitalGamma, q + 6))
    } else {
        None
    }
}

/// The token made of the single byte `b`, if there is one.
pub open spec fn single_byte_token(b: u8) -> Option<TokenV> {
    if b == 43 {
        Some(TokenV::Plus)
    } else if b == 45 {
        Some(TokenV::Minus)
    } else if b == 42 {
        Some(TokenV::Asterisk)
    } else if b == 47 {
        Some(TokenV::Slash)
    } else if b == 61 {
        Some(TokenV::Equal)
    } else if b == 40 {
        Some(TokenV::LeftParen)
    } else if b == 41 {
        Some(TokenV::RightParen)
    } else if b == 91 {
        Some(TokenV::LeftBracket)
    } else if b == 93 {
        Some(TokenV::RightBracket)
    } else if b == 123 {
        Some(TokenV::LeftBrace)
    } else if b == 125 {
        Some(TokenV::RightBrace)
    } else if b == 124 {
        Some(TokenV::VerticalBar)
    } else if b == 94 {
        Some(TokenV::Caret)
    } else if b == 95 {
        Some(TokenV::Underscore)
    } else if b == 44 {
        Some(TokenV::Comma)
    } else if b == 59 {
        Some(TokenV::Semicolon)
    } else if b == 58 {
        Some(TokenV::Colon)
    } else {
        None
    }
}

/// The longest token that starts at `q` and where it ends, or `None` when
/// no token starts there.
pub open spec fn token_at(s: Seq<u8>, q: int) -> Option<(TokenV, int)>
    recommends
        0 <= q < s.len(),
{
    let b = s[q];
    if is_letter(b) {
        let e = run_end(s, q + 1, ByteClass::Alphanumeric);
        Some((TokenV::Identifier(text_of(s, q, e)), e))
    } else if is_digit(b) {
        let e = number_end(s, q);
        Some((TokenV::Number(text_of(s, q, e)), e))
    } else if b == 92 {
        command_at(s, q)
    } else if b == 60 {
        if byte_is(s, q + 1, 61) {
            Some((TokenV::LessEqual, q + 2))
        } else {
            Some((TokenV::Less, q + 1))
        }
    } else if b == 62 {
        if byte_is(s, q + 1, 61) {
            Some((TokenV::GreaterEqual, q + 2))
        } else {
            Some((TokenV::Greater, q + 1))
        }
    } else if b == 33 {
        if byte_is(s, q + 1, 61) {
            Some((TokenV::NotEqual, q + 2))
        } else {
            None
        }
    } else {
        match single_byte_token(b) {
            Some(t) => Some((t, q + 1)),
            None => None,
        }
    }
}

/// One step of the lexer from position `p`.
pub enum LexStep {
    /// A token that covers the bytes `[start, end)`.
    Token { token: TokenV, start: int, end: int },
    /// A character at `start` that starts no token; it covers `[start, end)`.
    Invalid { start: int, end: int },
    /// Only blanks are left; `at` is the end of the input.
    End { at: int },
}

pub open spec fn lex_step(s: Seq<u8>, p: int) -> LexStep {
    let q = run_end(s, p, ByteClass::Blank);
    if q >= s.len() {
        LexStep::End { at: q }
    } else {
        match token_at(s, q) {
            Some((t, e)) => LexStep::Token { token: t, start: q, end: e },
            None => LexStep::Invalid { start: q, end: run_end(s, q + 1, ByteClass::Continuation) },
        }
    }
}

/// The model of a [`Lexer`]: the input's bytes, the span of the last token
/// read, and the token put back by `peek_token`, if any.
pub struct LexerV {
    pub source: Seq<u8>,
    pub start: nat,
    pub end: nat,
    pub peeked: Option<Option<TokenV>>,
}

pub open spec fn lexer_error(position: nat, message: Seq<char>) -> ErrorV {
    ErrorV::Lexer { position, message }
}

/// The result of `next_token` on a lexer in state `l`, and the state after.
pub open spec fn next_token_result(l: LexerV) -> (Result<TokenV, ErrorV>, LexerV) {
    match l.peeked {
        Some(p) => {
            let after = LexerV { peeked: None, ..l };
            match p {
                Some(t) => (Ok(t), after),
                None => (Err(lexer_error(l.start, "Unexpected end of input"@)), after),
            }
        },
        None => match lex_step(l.source, l.end as int) {
            LexStep::Token { token, start, end } => (
                Ok(token),
                LexerV { start: start as nat, end: end as nat, ..l },
            ),
            LexStep::Invalid { start, end } => (
                Err(lexer_error(start as nat, "Invalid token"@)),
                LexerV { start: start as nat, end: end as nat, ..l },
            ),
            LexStep::End { at } => (
                Ok(TokenV::Eof),
                LexerV { start: at as nat, end: at as nat, ..l },
            ),
        },
    }
}

/// The result of `peek_token` on a lexer in state `l`, and the state after.
pub open spec fn peek_token_result(l: LexerV) -> (Result<TokenV, ErrorV>, LexerV) {
    let (r, l1) = if l.peeked is None {
        match next_token_result(l) {
            (Ok(t), l1) => (Ok(()), LexerV { peeked: Some(Some(t)), ..l1 }),
            (Err(e), l1) => (Err(e), l1),
        }
    } else {
        (Ok(()), l)
    };
    match r {
        Err(e) => (Err(e), l1),
        Ok(_) => match l1.peeked {
            Some(Some(t)) => (Ok(t), l1),
            _ => (Err(lexer_error(l1.start, "Unexpected end of input"@)), l1),
        },
    }
}

pub open spec fn result_view(r: Result<Token, MathError>) -> Result<TokenV, ErrorV> {
    match r {
        Ok(t) => Ok(t@),
        Err(e) => Err(e@),
    }
}

/// A lexer over one input string.
pub struct Lexer<'a> {
    input: &'a str,
    bytes: &'a [u8],
    start: usize,
    end: usize,
    peeked: Option<Option<Token>>,
}

pub open spec fn peeked_view(p: Option<Option<Token>>) -> Option<Option<TokenV>> {
    match p {
        Some(Some(t)) => Some(Some(t@)),
        Some(None) => Some(None),
        None => None,
    }
}

impl<'a> View for Lexer<'a> {
    type V = LexerV;

    closed spec fn view(&self) -> LexerV {
        LexerV {
            source: self.bytes@,
            start: self.start as nat,
            end: self.end as nat,
            peeked: peeked_view(self.peeked),
        }
    }
}

/// The end of the run of class `c` from `p` is at or after `p` and within
/// the input, and every byte it covers is of class `c`.
pub proof fn lemma_run_end(s: Seq<u8>, p: int, c: ByteClass)
    requires
        0 <= p <= s.len(),
    ensures
        p <= run_end(s, p, c) <= s.len(),
        forall|i: int| p <= i < run_end(s, p, c) ==> in_class(c, #[trigger] s[i]),
        run_end(s, p, c) < s.len() ==> !in_class(c, s[run_end(s, p, c)]),
    decreases s.len() - p,
{
    if p < s.len() && in_class(c, s[p]) {
        lemma_run_end(s, p + 1, c);
    }
}

/// Every step of the lexer covers a stretch of the input at or after the
/// position it starts from: a token or a rejected character is never
/// empty, and the end of the input is reported at the end of the input.
pub proof fn lemma_lex_step_bounds(s: Seq<u8>, p: int)
    requires
        0 <= p <= s.len(),
    ensures
        match lex_step(s, p) {
            LexStep::Token { token, start, end } => p <= start < end <= s.len() && !(token is Eof),
            LexStep::Invalid { start, end } => p <= start < end <= s.len(),
            LexStep::End { at } => at == s.len(),
        },
{
    let q = run_end(s, p, ByteClass::Blank);
    lemma_run_end(s, p, ByteClass::Blank);
    if q < s.len() {
        lemma_run_end(s, q + 1, ByteClass::Continuation);
        let b = s[q];
        if is_letter(b) {
            lemma_run_end(s, q + 1, ByteClass::Alphanumeric);
        } else if is_digit(b) {
            lemma_run_end(s, q, ByteClass::Digit);
            let d = run_end(s, q, ByteClass::Digit);
            if byte_is(s, d, 46) && 0 <= d + 1 < s.len() && is_digit(s[d + 1]) {
                lemma_run_end(s, d + 1, ByteClass::Digit);
            }
            let f = if byte_is(s, d, 46) && 0 <= d + 1 < s.len() && is_digit(s[d + 1]) {
                run_end(s, d + 1, ByteClass::Digit)
            } else {
                d
            };
            let k = if byte_is(s, f + 1, 43) || byte_is(s, f + 1, 45) {
                f + 2
            } else {
                f + 1
            };
            if 0 <= k < s.len() {
                lemma_run_end(s, k, ByteClass::Digit);
            }
        }
    }
}

/// Peeking does not consume: once `peek_token` has given a token, the next
/// `next_token` gives the same token and leaves the lexer where peeking
/// left it, with nothing put back.
pub proof fn law_peek_then_next(l: LexerV)
    ensures
        ({
            let (r, l1) = peek_token_result(l);
            r is Ok ==> next_token_result(l1) == (r, LexerV { peeked: None, ..l1 })
        }),
{
}

/// Peeking twice gives the same token and moves nothing.
pub proof fn law_peek_is_stable(l: LexerV)
    ensures
        ({
            let (r, l1) = peek_token_result(l);
            r is Ok ==> peek_token_result(l1) == (r, l1)
        }),
{
}

/// Once only blanks are left, every later `next_token` gives `Eof` and
/// leaves the lexer as it is.
pub proof fn law_eof_repeats(l: LexerV)
    requires
        l.peeked is None,
        l.end <= l.source.len(),
    ensures
        ({
            let (r, l1) = next_token_result(l);
            r == Ok::<TokenV, ErrorV>(TokenV::Eof) ==> next_token_result(l1) == (r, l1)
        }),
{
    lemma_lex_step_bounds(l.source, l.end as int);
    let (r, l1) = next_token_result(l);
    if r == Ok::<TokenV, ErrorV>(TokenV::Eof) {
        if let LexStep::Token { token, start, end } = lex_step(l.source, l.end as int) {
        } else {
            lemma_lex_step_bounds(l.source, l1.end as int);
        }
    }
}

/// Reading moves forward: each token read (and each rejected character)
/// covers a non-empty stretch of the input at or after the end of the
/// previous one; `Eof` comes with an empty span at the end of the input.
pub proof fn law_next_token_advances(l: LexerV)
    requires
        l.peeked is None,
        l.end <= l.source.len(),
    ensures
        ({
            let (r, l1) = next_token_result(l);
            &&& l1.source == l.source
            &&& l1.peeked is None
            &&& (r == Ok::<TokenV, ErrorV>(TokenV::Eof) ==> l1.start == l1.end == l.source.len())
            &&& (r != Ok::<TokenV, ErrorV>(TokenV::Eof) ==> l.end <= l1.start < l1.end
                <= l.source.len())
        }),
{
    lemma_lex_step_bounds(l.source, l.end as int);
}

/// An identifier is the longest run of letters and digits that starts with
/// a letter, after the blanks: its text is the input between the ends of
/// its span, and the byte after it is neither a letter nor a digit.
pub proof fn law_identifier_is_longest(s: Seq<u8>, p: int)
    requires
        0 <= p <= s.len(),
    ensures
        lex_step(s, p) matches LexStep::Token { token: TokenV::Identifier(text), start, end } ==> {
            &&& start == run_end(s, p, ByteClass::Blank)
            &&& text == text_of(s, start, end)
            &&& is_letter(s[start])
            &&& forall|i: int| start < i < end ==> is_letter(#[trigger] s[i]) || is_digit(s[i])
            &&& (end < s.len() ==> !(is_letter(s[end]) || is_digit(s[end])))
        },
{
    lemma_run_end(s, p, ByteClass::Blank);
    let q = run_end(s, p, ByteClass::Blank);
    if q < s.len() {
        lemma_run_end(s, q + 1, ByteClass::Alphanumeric);
    }
}

/// The bytes in `[a, e)` are one or more decimal digits.
pub open spec fn digits_between(s: Seq<u8>, a: int, e: int) -> bool {
    &&& 0 <= a < e <= s.len()
    &&& forall|i: int| a <= i < e ==> is_digit(#[trigger] s[i])
}

/// The bytes in `[b, e)` are an exponent: `e` or `E`, an optional sign,
/// and one or more digits.
pub open spec fn exponent_between(s: Seq<u8>, b: int, e: int) -> bool {
    &&& 0 <= b < s.len()
    &&& (s[b] == 101 || s[b] == 69)
    &&& (digits_between(s, b + 1, e) || (b + 1 < s.len() && (s[b + 1] == 43 || s[b + 1] == 45)
        && digits_between(s, b + 2, e)))
}

/// The bytes in `[q, e)` split as `[0-9]+` up to `a`, then `\.[0-9]+` up to
/// `b` (or nothing, when `a == b`), then `[eE][+-]?[0-9]+` up to `e` (or
/// nothing, when `b == e`).
pub open spec fn number_split(s: Seq<u8>, q: int, a: int, b: int, e: int) -> bool {
    &&& digits_between(s, q, a)
    &&& a <= b <= e <= s.len()
    &&& (b == a || (s[a] == 46 && digits_between(s, a + 1, b)))
    &&& (e == b || exponent_between(s, b, e))
}

/// The bytes in `[q, e)` spell a number: they match
/// `[0-9]+(\.[0-9]+)?([eE][+-]?[0-9]+)?`.
pub open spec fn spells_number(s: Seq<u8>, q: int, e: int) -> bool {
    exists|a: int, b: int| #[trigger] number_split(s, q, a, b, e)
}

/// A number is the longest stretch after the blanks that spells a number:
/// when the first byte after the blanks is a digit, the lexer reads a
/// `Number` whose text is the input between the ends of its span, that
/// stretch matches `[0-9]+(\.[0-9]+)?([eE][+-]?[0-9]+)?`, and no longer
/// stretch from the same start does.
pub proof fn law_number_is_longest(s: Seq<u8>, p: int)
    requires
        0 <= p <= s.len(),
        run_end(s, p, ByteClass::Blank) < s.len(),
        is_digit(s[run_end(s, p, ByteClass::Blank)]),
    ensures
        lex_step(s, p) matches LexStep::Token { token: TokenV::Number(text), start, end } && {
            &&& start == run_end(s, p, ByteClass::Blank)
            &&& text == text_of(s, start, end)
            &&& spells_number(s, start, end)
            &&& forall|e2: int| end < e2 <= s.len() ==> !spells_number(s, start, e2)
        },
{
    lemma_run_end(s, p, ByteClass::Blank);
    let q = run_end(s, p, ByteClass::Blank);
    lemma_run_end(s, q, ByteClass::Digit);
    let d = run_end(s, q, ByteClass::Digit);
    let frac = byte_is(s, d, 46) && 0 <= d + 1 < s.len() && is_digit(s[d + 1]);
    if frac {
        lemma_run_end(s, d + 1, ByteClass::Digit);
    }
    let f = if frac {
        run_end(s, d + 1, ByteClass::Digit)
    } else {
        d
    };
    let k = if byte_is(s, f + 1, 43) || byte_is(s, f + 1, 45) {
        f + 2
    } else {
        f + 1
    };
    let expo = (byte_is(s, f, 101) || byte_is(s, f, 69)) && 0 <= k < s.len() && is_digit(s[k]);
    if expo {
        lemma_run_end(s, k, ByteClass::Digit);
    }
    let e = number_end(s, q);
    assert(e == if expo {
        run_end(s, k, ByteClass::Digit)
    } else {
        f
    });
    // The stretch the lexer takes spells a number.
    assert(number_split(s, q, d, f, e));
    // No longer stretch does.
    assert forall|e2: int| e < e2 <= s.len() implies !spells_number(s, q, e2) by {
        if spells_number(s, q, e2) {
            let (a2, b2) = choose|a2: int, b2: int| number_split(s, q, a2, b2, e2);
            // The leading digits end at or before the end of the digit run.
            if a2 > d {
                assert(is_digit(s[d]));
            }
            if b2 > a2 {
                // A fraction follows the leading digits: they are all of them.
                if a2 < d {
                    assert(is_digit(s[a2]));
                }
                assert(is_digit(s[a2 + 1]));
                if b2 > f {
                    assert(is_digit(s[f]));
                }
            }
            assert(b2 <= f);
            // So an exponent starts at `b2`, and it starts no earlier than `f`.
            assert(exponent_between(s, b2, e2));
            if b2 < f {
                if b2 < d {
                    assert(is_digit(s[b2]));
                } else if b2 > d {
                    assert(is_digit(s[b2]));
                }
            }
            assert(b2 == f);
            if digits_between(s, f + 1, e2) {
                assert(is_digit(s[f + 1]));
                if e2 > run_end(s, k, ByteClass::Digit) {
                    assert(is_digit(s[run_end(s, k, ByteClass::Digit)]));
                }
            } else {
                assert(is_digit(s[f + 2]));
                if e2 > run_end(s, k, ByteClass::Digit) {
                    assert(is_digit(s[run_end(s, k, ByteClass::Digit)]));
                }
            }
        }
    }
}

/// The blanks are exactly space, tab, line feed and form feed: a blank
/// before the next token changes nothing of what is read, and at any other
/// byte the next token (or the rejected character) starts right there.
pub proof fn law_blanks_are_skipped(s: Seq<u8>, p: int)
    requires
        0 <= p < s.len(),
    ensures
        s[p] == 32 || s[p] == 9 || s[p] == 10 || s[p] == 12 ==> lex_step(s, p) == lex_step(
            s,
            p + 1,
        ),
        !(s[p] == 32 || s[p] == 9 || s[p] == 10 || s[p] == 12) ==> match lex_step(s, p) {
            LexStep::Token { start, .. } => start == p,
            LexStep::Invalid { start, .. } => start == p,
            LexStep::End { .. } => false,
        },
{
}

/// The word that follows the backslash of each command.
pub open spec fn command_word(t: TokenV) -> Option<Seq<u8>> {
    match t {
        TokenV::Frac => Some(seq![102u8, 114u8, 97u8, 99u8]),
        TokenV::Sqrt => Some(seq![115u8, 113u8, 114u8, 116u8]),
        TokenV::Sum => Some(seq![115u8, 117u8, 109u8]),
        TokenV::Integral => Some(seq![105u8, 110u8, 116u8]),
        TokenV::Limit => Some(seq![108u8, 105u8, 109u8]),
        TokenV::Alpha => Some(seq![97u8, 108u8, 112u8, 104u8, 97u8]),
        TokenV::Beta => Some(seq![98u8, 101u8, 116u8, 97u8]),
        TokenV::Gamma => Some(seq![103u8, 97u8, 109u8, 109u8, 97u8]),
        TokenV::CapitalGamma => Some(seq![71u8, 97u8, 109u8, 109u8, 97u8]),
        _ => None,
    }
}

/// A backslash followed by a command's word is read as that command,
/// covering the backslash and the word (`\frac`, `\sqrt`, `\sum`, `\int`,
/// `\lim`, `\alpha`, `\beta`, `\gamma`, `\Gamma`), whatever follows.
pub proof fn law_commands(s: Seq<u8>, p: int, t: TokenV)
    requires
        0 <= p <= s.len(),
        command_word(t) matches Some(w) && {
            let q = run_end(s, p, ByteClass::Blank);
            &&& q + 1 + w.len() <= s.len()
            &&& s[q] == 92
            &&& s.subrange(q + 1, q + 1 + w.len()) == w
        },
    ensures
        lex_step(s, p) == (LexStep::Token {
            token: t,
            start: run_end(s, p, ByteClass::Blank),
            end: run_end(s, p, ByteClass::Blank) + 1 + command_word(t).unwrap().len(),
        }),
{
    lemma_run_end(s, p, ByteClass::Blank);
    let q = run_end(s, p, ByteClass::Blank);
    let w = command_word(t).unwrap();
    assert forall|i: int| 0 <= i < w.len() implies s[q + 1 + i] == w[i] by {
        assert(s.subrange(q + 1, q + 1 + w.len())[i] == w[i]);
    }
    assert(s[q + 1] == w[0] && s[q + 2] == w[1] && s[q + 3] == w[2]);
    if w.len() > 3 {
        assert(s[q + 4] == w[3]);
    }
    if w.len() > 4 {
        assert(s[q + 5] == w[4]);
    }
}

/// The token of each byte that is a token on its own: `+ - * / = ( ) [ ] {
/// } | ^ _ , ; :`.
pub open spec fn byte_token(b: u8) -> Option<TokenV> {
    if b == 43 {
        Some(TokenV::Plus)
    } else if b == 45 {
        Some(TokenV::Minus)
    } else if b == 42 {
        Some(TokenV::Asterisk)
    } else if b == 47 {
        Some(TokenV::Slash)
    } else if b == 61 {
        Some(TokenV::Equal)
    } else if b == 40 {
        Some(TokenV::LeftParen)
    } else if b == 41 {
        Some(TokenV::RightParen)
    } else if b == 91 {
        Some(TokenV::LeftBracket)
    } else if b == 93 {
        Some(TokenV::RightBracket)
    } else if b == 123 {
        Some(TokenV::LeftBrace)
    } else if b == 125 {
        Some(TokenV::RightBrace)
    } else if b == 124 {
        Some(TokenV::VerticalBar)
    } else if b == 94 {
        Some(TokenV::Caret)
    } else if b == 95 {
        Some(TokenV::Underscore)
    } else if b == 44 {
        Some(TokenV::Comma)
    } else if b == 59 {
        Some(TokenV::Semicolon)
    } else if b == 58 {
        Some(TokenV::Colon)
    } else {
        None
    }
}

/// After the blanks, each of the bytes `+ - * / = ( ) [ ] { } | ^ _ , ; :`
/// is read as its own one-byte token; `<` and `>` are read as `<=` and `>=`
/// when `=` follows and as `<` and `>` otherwise, and `!` is a token only
/// as the first byte of `!=`.
pub proof fn law_punctuation(s: Seq<u8>, p: int)
    requires
        0 <= p <= s.len(),
        run_end(s, p, ByteClass::Blank) < s.len(),
    ensures
        ({
            let q = run_end(s, p, ByteClass::Blank);
            let b = s[q];
            let eq_next = q + 1 < s.len() && s[q + 1] == 61;
            &&& (byte_token(b) matches Some(t) ==> lex_step(s, p) == (LexStep::Token {
                token: t,
                start: q,
                end: q + 1,
            }))
            &&& (b == 60 ==> lex_step(s, p) == (LexStep::Token {
                token: if eq_next { TokenV::LessEqual } else { TokenV::Less },
                start: q,
                end: if eq_next { q + 2 } else { q + 1 },
            }))
            &&& (b == 62 ==> lex_step(s, p) == (LexStep::Token {
                token: if eq_next { TokenV::GreaterEqual } else { TokenV::Greater },
                start: q,
                end: if eq_next { q + 2 } else { q + 1 },
            }))
            &&& (b == 33 && eq_next ==> lex_step(s, p) == (LexStep::Token {
                token: TokenV::NotEqual,
                start: q,
                end: q + 2,
            }))
            &&& (b == 33 && !eq_next ==> lex_step(s, p) is Invalid)
        }),
{
    lemma_run_end(s, p, ByteClass::Blank);
}

/// The end of the run of bytes of class `c` that starts at `p`.
fn scan_run(bytes: &[u8], p: usize, c: ByteClass) -> (e: usize)
    requires
        p <= bytes@.len(),
    ensures
        e == run_end(bytes@, p as int, c),
        p <= e <= bytes@.len(),
{
    let mut i = p;
    proof {
        lemma_run_end(bytes@, p as int, c);
    }
    while i < bytes.len() && byte_in_class(&c, bytes[i])
        invariant
            p <= i <= bytes@.len(),
            run_end(bytes@, i as int, c) == run_end(bytes@, p as int, c),
        decreases bytes@.len() - i,
    {
        i = i + 1;
    }
    i
}

fn byte_in_class(c: &ByteClass, b: u8) -> (r: bool)
    ensures
        r == in_class(*c, b),
{
    match c {
        ByteClass::Blank => b == 32 || b == 9 || b == 10 || b == 12,
        ByteClass::Alphanumeric => (65 <= b && b <= 90) || (97 <= b && b <= 122) || (48 <= b
            && b <= 57),
        ByteClass::Digit => 48 <= b && b <= 57,
        ByteClass::Continuation => 128 <= b && b < 192,
    }
}

/// Whether the byte `k` places after `q` is `b`.
fn byte_at_is(bytes: &[u8], q: usize, k: usize, b: u8) -> (r: bool)
    requires
        q <= bytes@.len(),
    ensures
        r == byte_is(bytes@, q + k, b),
        bytes@.len() <= usize::MAX,
{
    k < bytes.len() - q && bytes[q + k] == b
}

/// The characters of the bytes in `[a, e)`, as a string.
fn text_between(bytes: &[u8], a: usize, e: usize) -> (s: String)
    requires
        a <= e <= bytes@.len(),
    ensures
        s@ == text_of(bytes@, a as int, e as int),
{
    let mut s = String::new();
    let mut i = a;
    while i < e
        invariant
            a <= i <= e <= bytes@.len(),
            s@ == text_of(bytes@, a as int, i as int),
        decreases e - i,
    {
        let b = bytes[i];
        string_push(&mut s, b as char);
        proof {
            assert(text_of(bytes@, a as int, i + 1) =~= text_of(bytes@, a as int, i as int).push(
                b as char,
            ));
        }
        i = i + 1;
    }
    s
}

fn number_end_exec(bytes: &[u8], q: usize) -> (e: usize)
    requires
        q < bytes@.len(),
    ensures
        e == number_end(bytes@, q as int),
        q <= e <= bytes@.len(),
{
    let ghost s = bytes@;
    let d = scan_run(bytes, q, ByteClass::Digit);
    let f = if byte_at_is(bytes, d, 0, 46) && bytes.len() - d > 1 && 48 <= bytes[d + 1]
        && bytes[d + 1] <= 57 {
        scan_run(bytes, d + 1, ByteClass::Digit)
    } else {
        d
    };
    if byte_at_is(bytes, f, 0, 101) || byte_at_is(bytes, f, 0, 69) {
        let k = if byte_at_is(bytes, f, 1, 43) || byte_at_is(bytes, f, 1, 45) {
            f + 2
        } else {
            f + 1
        };
        if k < bytes.len() && 48 <= bytes[k] && bytes[k] <= 57 {
            scan_run(bytes, k, ByteClass::Digit)
        } else {
            f
        }
    } else {
        f
    }
}

fn command_exec(bytes: &[u8], q: usize) -> (r: Option<(Token, usize)>)
    requires
        q < bytes@.len(),
    ensures
        match r {
            Some((t, e)) => command_at(bytes@, q as int) == Some((t@, e as int)),
            None => command_at(bytes@, q as int) is None,
        },
{
    if byte_at_is(bytes, q, 1, 102) && byte_at_is(bytes, q, 2, 114) && byte_at_is(bytes, q, 3, 97)
        && byte_at_is(bytes, q, 4, 99) {
        Some((Token::Frac, q + 5))
    } else if byte_at_is(bytes, q, 1, 115) && byte_at_is(bytes, q, 2, 113) && byte_at_is(bytes, q, 3, 114) && byte_at_is(bytes, q, 4, 116) {
        Some((Token::Sqrt, q + 5))
    } else if byte_at_is(bytes, q, 1, 115) && byte_at_is(bytes, q, 2, 117) && byte_at_is(bytes, q, 3, 109) {
        Some((Token::Sum, q + 4))
    } else if byte_at_is(bytes, q, 1, 105) && byte_at_is(bytes, q, 2, 110) && byte_at_is(bytes, q, 3, 116) {
        Some((Token::Integral, q + 4))
    } else if byte_at_is(bytes, q, 1, 108) && byte_at_is(bytes, q, 2, 105) && byte_at_is(bytes, q, 3, 109) {
        Some((Token::Limit, q + 4))
    } else if byte_at_is(bytes, q, 1, 97) && byte_at_is(bytes, q, 2, 108) && byte_at_is(bytes, q, 3, 112) && byte_at_is(bytes, q, 4, 104) && byte_at_is(bytes, q, 5, 97) {
        Some((Token::Alpha, q + 6))
    } else if byte_at_is(bytes, q, 1, 98) && byte_at_is(bytes, q, 2, 101) && byte_at_is(bytes, q, 3, 116) && byte_at_is(bytes, q, 4, 97) {
        Some((Token::Beta, q + 5))
    } else if byte_at_is(bytes, q, 1, 103) && byte_at_is(bytes, q, 2, 97) && byte_at_is(bytes, q, 3, 109) && byte_at_is(bytes, q, 4, 109) && byte_at_is(bytes, q, 5, 97) {
        Some((Token::Gamma, q + 6))
    } else if byte_at_is(bytes, q, 1, 71) && byte_at_is(bytes, q, 2, 97) && byte_at_is(bytes, q, 3, 109) && byte_at_is(bytes, q, 4, 109) && byte_at_is(bytes, q, 5, 97) {
        Some((Token::CapitalGamma, q + 6))
    } else {
        None
    }
}

fn single_byte_exec(b: u8) -> (r: Option<Token>)
    ensures
        match r {
            Some(t) => single_byte_token(b) == Some(t@),
            None => single_byte_token(b) is None,
        },
{
    if b == 43 {
        Some(Token::Plus)
    } else if b == 45 {
        Some(Token::Minus)
    } else if b == 42 {
        Some(Token::Asterisk)
    } else if b == 47 {
        Some(Token::Slash)
    } else if b == 61 {
        Some(Token::Equal)
    } else if b == 40 {
        Some(Token::LeftParen)
    } else if b == 41 {
        Some(Token::RightParen)
    } else if b == 91 {
        Some(Token::LeftBracket)
    } else if b == 93 {
        Some(Token::RightBracket)
    } else if b == 123 {
        Some(Token::LeftBrace)
    } else if b == 125 {
        Some(Token::RightBrace)
    } else if b == 124 {
        Some(Token::VerticalBar)
    } else if b == 94 {
        Some(Token::Caret)
    } else if b == 95 {
        Some(Token::Underscore)
    } else if b == 44 {
        Some(Token::Comma)
    } else if b == 59 {
        Some(Token::Semicolon)
    } else if b == 58 {
        Some(Token::Colon)
    } else {
        None
    }
}

/// The longest token at `q`, as `token_at` describes it.
fn token_at_exec(bytes: &[u8], q: usize) -> (r: Option<(Token, usize)>)
    requires
        q < bytes@.len(),
    ensures
        match r {
            Some((t, e)) => token_at(bytes@, q as int) == Some((t@, e as int)),
            None => token_at(bytes@, q as int) is None,
        },
{
    let b = bytes[q];
    if (65 <= b && b <= 90) || (97 <= b && b <= 122) {
        let e = scan_run(bytes, q + 1, ByteClass::Alphanumeric);
        Some((Token::Identifier(text_between(bytes, q, e)), e))
    } else if 48 <= b && b <= 57 {
        let e = number_end_exec(bytes, q);
        Some((Token::Number(text_between(bytes, q, e)), e))
    } else if b == 92 {
        command_exec(bytes, q)
    } else if b == 60 {
        if byte_at_is(bytes, q, 1, 61) {
            Some((Token::LessEqual, q + 2))
        } else {
            Some((Token::Less, q + 1))
        }
    } else if b == 62 {
        if byte_at_is(bytes, q, 1, 61) {
            Some((Token::GreaterEqual, q + 2))
        } else {
            Some((Token::Greater, q + 1))
        }
    } else if b == 33 {
        if byte_at_is(bytes, q, 1, 61) {
            Some((Token::NotEqual, q + 2))
        } else {
            None
        }
    } else {
        match single_byte_exec(b) {
            Some(t) => Some((t, q + 1)),
            None => None,
        }
    }
}

impl<'a> Lexer<'a> {
    /// The lexer's bytes are those of its input, and its span lies within them.
    pub closed spec fn wf(&self) -> bool {
        &&& self.bytes@ == self.input.spec_bytes()
        &&& self.start <= self.end <= self.bytes@.len()
    }

    /// A well-formed lexer's span lies within its input.
    pub proof fn lemma_bounds(&self)
        requires
            self.wf(),
        ensures
            self@.start <= self@.end <= self@.source.len(),
    {
    }

    /// A lexer at the start of `input`.
    pub fn new(input: &'a str) -> (r: Self)
        ensures
            r@ == (LexerV { source: input.spec_bytes(), start: 0, end: 0, peeked: None }),
            r.wf(),
    {
        let bytes = input.as_bytes();
        Lexer { input, bytes, start: 0, end: 0, peeked: None }
    }

    /// The next token of the input: `Eof` once only blanks are left, an
    /// error for a character that starts no token.
    pub fn next_token(&mut self) -> (r: Result<Token, MathError>)
        requires
            old(self).wf(),
        ensures
            final(self).wf(),
            (result_view(r), final(self)@) == next_token_result(old(self)@),
    {
        if self.peeked.is_some() {
            let peeked = self.peeked.take();
            match peeked {
                Some(Some(t)) => return Ok(t),
                _ => {
                    return Err(
                        MathError::Lexer {
                            position: self.start,
                            message: String::from_str("Unexpected end of input"),
                        },
                    )
                },
            }
        }
        let bytes = self.bytes;
        let q = scan_run(bytes, self.end, ByteClass::Blank);
        if q >= bytes.len() {
            self.start = q;
            self.end = q;
            return Ok(Token::Eof);
        }
        match token_at_exec(bytes, q) {
            Some((t, e)) => {
                proof {
                    lemma_lex_step_bounds(bytes@, old(self)@.end as int);
                }
                self.start = q;
                self.end = e;
                Ok(t)
            },
            None => {
                let e = scan_run(bytes, q + 1, ByteClass::Continuation);
                self.start = q;
                self.end = e;
                Err(MathError::Lexer { position: q, message: String::from_str("Invalid token") })
            },
        }
    }

    /// The next token, left in place for the following `next_token`.
    pub fn peek_token(&mut self) -> (r: Result<&Token, MathError>)
        requires
            old(self).wf(),
        ensures
            final(self).wf(),
            match r {
                Ok(t) => peek_token_result(old(self)@) == (Ok::<TokenV, ErrorV>(t@), final(self)@),
                Err(e) => peek_token_result(old(self)@) == (Err::<TokenV, ErrorV>(e@), final(self)@),
            },
    {
        if self.peeked.is_none() {
            let t = self.next_token()?;
            self.peeked = Some(Some(t));
        }
        match &self.peeked {
            Some(Some(t)) => Ok(t),
            _ => Err(
                MathError::Lexer {
                    position: self.start,
                    message: String::from_str("Unexpected end of input"),
                },
            ),
        }
    }

    /// The byte range of the last token read (or of the rejected character).
    pub fn span(&self) -> (r: std::ops::Range<usize>)
        ensures
            r.start == self@.start,
            r.end == self@.end,
    {
        self.start..self.end
    }
}

} // verus!
