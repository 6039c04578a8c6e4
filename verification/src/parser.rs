//! The parser: reads one expression from the lexer's tokens, as the
//! grammar in [`crate::grammar`] describes.
use vstd::prelude::*;
use vstd::string::StringSliceAdditionalSpecFns;
use crate::ast::{
    BinaryOperator, MathExpr, MathNode, MathStyle, NodeV, UnaryOperator, default_math_style,
    opt_node_view,
};
use crate::error::{ErrorV, MathError};
use crate::grammar::{
    PState, advance, binary_operator_of, binary_rest, boxed, expect, in_bounds, initial_state,
    lemma_advance_shrinks, measure, parse_atom, parse_binary, parse_braced, parse_degree,
    parse_expression, parse_fraction, parse_group, parse_limit, parse_limits, parse_primary,
    parse_root, parse_scripts, parse_sum, parse_unary, precedence,
};
use crate::lexer::{Lexer, lemma_lex_step_bounds};
use crate::token::Token;

verus! {

/// The model of a [`Parser`]: the input's bytes and the parser's state.
pub struct ParserV {
    pub source: Seq<u8>,
    pub state: PState,
}

/// A parser over one input string.
pub struct Parser<'a> {
    lexer: Lexer<'a>,
    current_token: Token,
}

pub open spec fn node_result(r: Result<MathNode, MathError>) -> Result<NodeV, ErrorV> {
    match r {
        Ok(n) => Ok(n@),
        Err(e) => Err(e@),
    }
}

pub open spec fn unit_result(r: Result<(), MathError>) -> Result<(), ErrorV> {
    match r {
        Ok(_) => Ok(()),
        Err(e) => Err(e@),
    }
}

pub open spec fn opt_node(n: Option<MathNode>) -> Option<NodeV> {
    match n {
        Some(x) => Some(x@),
        None => None,
    }
}

pub open spec fn opt_result(r: Result<Option<MathNode>, MathError>) -> Result<Option<NodeV>, ErrorV> {
    match r {
        Ok(n) => Ok(opt_node(n)),
        Err(e) => Err(e@),
    }
}

pub open spec fn limits_result(r: Result<(Option<MathNode>, Option<MathNode>), MathError>) -> Result<
    (Option<NodeV>, Option<NodeV>),
    ErrorV,
> {
    match r {
        Ok((a, b)) => Ok((opt_node(a), opt_node(b))),
        Err(e) => Err(e@),
    }
}

pub open spec fn expr_result(r: Result<MathExpr, MathError>) -> Result<NodeV, ErrorV> {
    match r {
        Ok(e) => Ok(e.root@),
        Err(e) => Err(e@),
    }
}

/// From `a` to `b` the input stayed the same and the state did not grow.
pub open spec fn no_growth(a: ParserV, b: ParserV) -> bool {
    &&& b.source == a.source
    &&& in_bounds(b.source, b.state)
    &&& measure(b.source, b.state) <= measure(a.source, a.state)
}

fn box_opt(o: Option<MathNode>) -> (r: Option<Box<MathNode>>)
    ensures
        opt_node_view(r) == boxed(opt_node(o)),
{
    match o {
        Some(n) => Some(Box::new(n)),
        None => None,
    }
}

impl<'a> View for Parser<'a> {
    type V = ParserV;

    closed spec fn view(&self) -> ParserV {
        ParserV {
            source: self.lexer@.source,
            state: PState { cur: self.current_token@, pos: self.lexer@.end as int },
        }
    }
}

impl<'a> Parser<'a> {
    /// The parser's lexer is well formed and has no token put back.
    pub closed spec fn wf(&self) -> bool {
        &&& self.lexer.wf()
        &&& self.lexer@.peeked is None
    }

    /// A well-formed parser's position lies within its input.
    pub proof fn lemma_in_bounds(&self)
        requires
            self.wf(),
        ensures
            in_bounds(self@.source, self@.state),
    {
        self.lexer.lemma_bounds();
    }

    /// A parser at the start of `input`, with its first token read.
    pub fn new(input: &'a str) -> (r: Result<Self, MathError>)
        ensures
            match r {
                Ok(p) => p.wf() && p@.source == input.spec_bytes() && initial_state(p@.source)
                    == Ok::<PState, ErrorV>(p@.state),
                Err(e) => initial_state(input.spec_bytes()) == Err::<PState, ErrorV>(e@),
            },
    {
        let mut lexer = Lexer::new(input);
        let current_token = lexer.next_token()?;
        proof {
            lemma_lex_step_bounds(input.spec_bytes(), 0);
        }
        Ok(Parser { lexer, current_token })
    }

    /// Reads one expression.
    ///
    /// The expression carries the default style; the parser is left on the
    /// first token after the expression.
    pub fn parse_math_expression(&mut self) -> (r: Result<MathExpr, MathError>)
        requires
            old(self).wf(),
        ensures
            final(self).wf(),
            no_growth(old(self)@, final(self)@),
            (expr_result(r), final(self)@.state) == parse_expression(
                old(self)@.source,
                old(self)@.state,
            ),
            r matches Ok(e) ==> e.style == default_math_style(),
    {
        let root = self.parse_expression()?;
        Ok(MathExpr { root, style: MathStyle::default() })
    }

    fn parse_expression(&mut self) -> (r: Result<MathNode, MathError>)
        requires
            old(self).wf(),
        ensures
            final(self).wf(),
            no_growth(old(self)@, final(self)@),
            (node_result(r), final(self)@.state) == parse_binary(
                old(self)@.source,
                0,
                old(self)@.state,
            ),
        decreases measure(old(self)@.source, old(self)@.state), 7int,
    {
        proof {
            self.lemma_in_bounds();
        }
        self.parse_binary_expression(0)
    }

    fn parse_binary_expression(&mut self, min_precedence: u8) -> (r: Result<MathNode, MathError>)
        requires
            old(self).wf(),
            min_precedence <= 3,
        ensures
            final(self).wf(),
            no_growth(old(self)@, final(self)@),
            (node_result(r), final(self)@.state) == parse_binary(
                old(self)@.source,
                min_precedence as nat,
                old(self)@.state,
            ),
        decreases measure(old(self)@.source, old(self)@.state), 6int,
    {
        let ghost s = self@.source;
        let ghost st0 = self@.state;
        let ghost goal = parse_binary(s, min_precedence as nat, st0);
        proof {
            self.lemma_in_bounds();
        }
        let mut left = self.parse_unary_expression()?;
        loop
            invariant
                self.wf(),
                self@.source == s,
                s == old(self)@.source,
                st0 == old(self)@.state,
                goal == parse_binary(s, min_precedence as nat, st0),
                min_precedence <= 3,
                in_bounds(s, self@.state),
                in_bounds(s, st0),
                measure(s, self@.state) <= measure(s, st0),
                binary_rest(s, left@, min_precedence as nat, self@.state) == goal,
            ensures
                self.wf(),
                self@.source == s,
                in_bounds(s, self@.state),
                measure(s, self@.state) <= measure(s, st0),
                goal == (Ok::<NodeV, ErrorV>(left@), self@.state),
            decreases measure(s, self@.state),
        {
            let ghost st = self@.state;
            let op = match self.get_binary_operator() {
                Some(op) => op,
                None => break,
            };
            let precedence = Self::get_operator_precedence(&op);
            if precedence < min_precedence {
                break;
            }
            proof {
                lemma_advance_shrinks(s, st);
            }
            self.advance()?;
            let right = self.parse_binary_expression(precedence + 1)?;
            left = MathNode::BinaryOp { op, left: Box::new(left), right: Box::new(right) };
        }
        Ok(left)
    }

    fn parse_unary_expression(&mut self) -> (r: Result<MathNode, MathError>)
        requires
            old(self).wf(),
        ensures
            final(self).wf(),
            no_growth(old(self)@, final(self)@),
            (node_result(r), final(self)@.state) == parse_unary(
                old(self)@.source,
                old(self)@.state,
            ),
        decreases measure(old(self)@.source, old(self)@.state), 4int,
    {
        let ghost s = self@.source;
        let ghost st0 = self@.state;
        proof {
            self.lemma_in_bounds();
        }
        let op = match &self.current_token {
            Token::Plus => UnaryOperator::Plus,
            Token::Minus => UnaryOperator::Minus,
            _ => {
                return self.parse_primary_expression();
            },
        };
        proof {
            lemma_advance_shrinks(s, st0);
        }
        self.advance()?;
        let operand = self.parse_unary_expression()?;
        Ok(MathNode::UnaryOp { op, operand: Box::new(operand) })
    }

    fn parse_primary_expression(&mut self) -> (r: Result<MathNode, MathError>)
        requires
            old(self).wf(),
        ensures
            final(self).wf(),
            no_growth(old(self)@, final(self)@),
            (node_result(r), final(self)@.state) == parse_primary(
                old(self)@.source,
                old(self)@.state,
            ),
        decreases measure(old(self)@.source, old(self)@.state), 3int,
    {
        let ghost s = self@.source;
        let ghost st0 = self@.state;
        let ghost goal = parse_primary(s, st0);
        proof {
            self.lemma_in_bounds();
        }
        let mut expr = self.parse_atom()?;
        loop
            invariant
                self.wf(),
                self@.source == s,
                s == old(self)@.source,
                st0 == old(self)@.state,
                goal == parse_primary(s, st0),
                in_bounds(s, self@.state),
                in_bounds(s, st0),
                measure(s, self@.state) <= measure(s, st0),
                parse_scripts(s, expr@, self@.state) == goal,
            ensures
                self.wf(),
                self@.source == s,
                in_bounds(s, self@.state),
                measure(s, self@.state) <= measure(s, st0),
                goal == (Ok::<NodeV, ErrorV>(expr@), self@.state),
            decreases measure(s, self@.state),
        {
            let ghost st = self@.state;
            let superscript = match &self.current_token {
                Token::Caret => true,
                Token::Underscore => false,
                _ => break,
            };
            proof {
                lemma_advance_shrinks(s, st);
            }
            self.advance()?;
            let script = self.parse_primary_expression()?;
            expr = if superscript {
                MathNode::Superscript { base: Box::new(expr), superscript: Box::new(script) }
            } else {
                MathNode::Subscript { base: Box::new(expr), subscript: Box::new(script) }
            };
        }
        Ok(expr)
    }

    /// `{ expression }`.
    fn parse_braced(&mut self) -> (r: Result<MathNode, MathError>)
        requires
            old(self).wf(),
        ensures
            final(self).wf(),
            no_growth(old(self)@, final(self)@),
            (node_result(r), final(self)@.state) == parse_braced(
                old(self)@.source,
                old(self)@.state,
            ),
        decreases measure(old(self)@.source, old(self)@.state), 0int,
    {
        proof {
            self.lemma_in_bounds();
            lemma_advance_shrinks(self@.source, self@.state);
        }
        self.expect(Token::LeftBrace)?;
        let e = self.parse_expression()?;
        self.expect(Token::RightBrace)?;
        Ok(e)
    }

    /// The optional `[ expression ]` degree of a root.
    fn parse_degree(&mut self) -> (r: Result<Option<MathNode>, MathError>)
        requires
            old(self).wf(),
        ensures
            final(self).wf(),
            no_growth(old(self)@, final(self)@),
            (opt_result(r), final(self)@.state) == parse_degree(
                old(self)@.source,
                old(self)@.state,
            ),
        decreases measure(old(self)@.source, old(self)@.state), 0int,
    {
        proof {
            self.lemma_in_bounds();
            lemma_advance_shrinks(self@.source, self@.state);
        }
        if matches!(self.current_token, Token::LeftBracket) {
            self.advance()?;
            let degree = self.parse_expression()?;
            self.expect(Token::RightBracket)?;
            Ok(Some(degree))
        } else {
            Ok(None)
        }
    }

    /// One limit of a large operator, introduced by `marker`.
    fn parse_limit(&mut self, marker: Token) -> (r: Result<Option<MathNode>, MathError>)
        requires
            old(self).wf(),
            marker@ is Underscore || marker@ is Caret,
        ensures
            final(self).wf(),
            no_growth(old(self)@, final(self)@),
            (opt_result(r), final(self)@.state) == parse_limit(
                old(self)@.source,
                old(self)@.state,
                marker@,
            ),
        decreases measure(old(self)@.source, old(self)@.state), 0int,
    {
        let ghost s = self@.source;
        let ghost st0 = self@.state;
        proof {
            self.lemma_in_bounds();
            lemma_advance_shrinks(s, st0);
        }
        if self.current_token == marker {
            self.advance()?;
            proof {
                self.lemma_in_bounds();
                lemma_advance_shrinks(s, self@.state);
            }
            if matches!(self.current_token, Token::LeftBrace) {
                self.advance()?;
                let e = self.parse_expression()?;
                self.expect(Token::RightBrace)?;
                Ok(Some(e))
            } else {
                let e = self.parse_primary_expression()?;
                Ok(Some(e))
            }
        } else {
            Ok(None)
        }
    }

    fn parse_limits(&mut self) -> (r: Result<(Option<MathNode>, Option<MathNode>), MathError>)
        requires
            old(self).wf(),
        ensures
            final(self).wf(),
            no_growth(old(self)@, final(self)@),
            (limits_result(r), final(self)@.state) == parse_limits(
                old(self)@.source,
                old(self)@.state,
            ),
        decreases measure(old(self)@.source, old(self)@.state), 1int,
    {
        proof {
            self.lemma_in_bounds();
        }
        let lower = self.parse_limit(Token::Underscore)?;
        let upper = self.parse_limit(Token::Caret)?;
        Ok((lower, upper))
    }

    /// `( expression )`, from the opening parenthesis (the current token).
    fn parse_group(&mut self) -> (r: Result<MathNode, MathError>)
        requires
            old(self).wf(),
            old(self)@.state.cur is LeftParen,
        ensures
            final(self).wf(),
            no_growth(old(self)@, final(self)@),
            (node_result(r), final(self)@.state) == parse_group(
                old(self)@.source,
                old(self)@.state,
            ),
        decreases measure(old(self)@.source, old(self)@.state), 1int,
    {
        proof {
            self.lemma_in_bounds();
            lemma_advance_shrinks(self@.source, self@.state);
        }
        self.advance()?;
        let e = self.parse_expression()?;
        self.expect(Token::RightParen)?;
        Ok(MathNode::Group(Box::new(e)))
    }

    /// A fraction, from the `\\frac` command (the current token).
    fn parse_fraction(&mut self) -> (r: Result<MathNode, MathError>)
        requires
            old(self).wf(),
            old(self)@.state.cur is Frac,
        ensures
            final(self).wf(),
            no_growth(old(self)@, final(self)@),
            (node_result(r), final(self)@.state) == parse_fraction(
                old(self)@.source,
                old(self)@.state,
            ),
        decreases measure(old(self)@.source, old(self)@.state), 1int,
    {
        proof {
            self.lemma_in_bounds();
            lemma_advance_shrinks(self@.source, self@.state);
        }
        self.advance()?;
        let numerator = self.parse_braced()?;
        let denominator = self.parse_braced()?;
        Ok(MathNode::Fraction { numerator: Box::new(numerator), denominator: Box::new(denominator) })
    }

    /// A root, from the `\\sqrt` command (the current token).
    #[verifier::rlimit(30)]
    fn parse_root(&mut self) -> (r: Result<MathNode, MathError>)
        requires
            old(self).wf(),
            old(self)@.state.cur is Sqrt,
        ensures
            final(self).wf(),
            no_growth(old(self)@, final(self)@),
            (node_result(r), final(self)@.state) == parse_root(
                old(self)@.source,
                old(self)@.state,
            ),
        decreases measure(old(self)@.source, old(self)@.state), 1int,
    {
        proof {
            self.lemma_in_bounds();
            lemma_advance_shrinks(self@.source, self@.state);
        }
        self.advance()?;
        let degree = self.parse_degree()?;
        let radicand = self.parse_braced()?;
        let degree = box_opt(degree);
        Ok(MathNode::Root { degree, radicand: Box::new(radicand) })
    }

    /// A sum, from the `\\sum` command (the current token).
    #[verifier::rlimit(30)]
    fn parse_sum(&mut self) -> (r: Result<MathNode, MathError>)
        requires
            old(self).wf(),
            old(self)@.state.cur is Sum,
        ensures
            final(self).wf(),
            no_growth(old(self)@, final(self)@),
            (node_result(r), final(self)@.state) == parse_sum(
                old(self)@.source,
                old(self)@.state,
            ),
        decreases measure(old(self)@.source, old(self)@.state), 1int,
    {
        proof {
            self.lemma_in_bounds();
            lemma_advance_shrinks(self@.source, self@.state);
        }
        self.advance()?;
        let (lower, upper) = self.parse_limits()?;
        let body = self.parse_braced()?;
        let lower_limit = box_opt(lower);
        let upper_limit = box_opt(upper);
        Ok(MathNode::Sum { lower_limit, upper_limit, body: Box::new(body) })
    }

    fn parse_atom(&mut self) -> (r: Result<MathNode, MathError>)
        requires
            old(self).wf(),
        ensures
            final(self).wf(),
            no_growth(old(self)@, final(self)@),
            (node_result(r), final(self)@.state) == parse_atom(
                old(self)@.source,
                old(self)@.state,
            ),
        decreases measure(old(self)@.source, old(self)@.state), 2int,
    {
        proof {
            self.lemma_in_bounds();
            lemma_advance_shrinks(self@.source, self@.state);
        }
        match &self.current_token {
            Token::Identifier(name) => {
                let name = name.clone();
                self.advance()?;
                Ok(MathNode::Identifier(name))
            },
            Token::Number(text) => {
                let text = text.clone();
                self.advance()?;
                Ok(MathNode::Number(text))
            },
            Token::LeftParen => self.parse_group(),
            Token::Frac => self.parse_fraction(),
            Token::Sqrt => self.parse_root(),
            Token::Sum => self.parse_sum(),
            _ => {
                let mut message = String::from_str("Unexpected token: ");
                message.append(self.current_token.to_text().as_str());
                Err(MathError::Parser { message })
            },
        }
    }

    /// The binary operator the current token stands for.
    fn get_binary_operator(&self) -> (r: Option<BinaryOperator>)
        ensures
            r == binary_operator_of(self@.state.cur),
    {
        match &self.current_token {
            Token::Plus => Some(BinaryOperator::Plus),
            Token::Minus => Some(BinaryOperator::Minus),
            Token::Asterisk => Some(BinaryOperator::Multiply),
            Token::Slash => Some(BinaryOperator::Divide),
            Token::Equal => Some(BinaryOperator::Equal),
            Token::NotEqual => Some(BinaryOperator::NotEqual),
            Token::Less => Some(BinaryOperator::Less),
            Token::Greater => Some(BinaryOperator::Greater),
            Token::LessEqual => Some(BinaryOperator::LessEqual),
            Token::GreaterEqual => Some(BinaryOperator::GreaterEqual),
            _ => None,
        }
    }

    fn get_operator_precedence(op: &BinaryOperator) -> (r: u8)
        ensures
            r as nat == precedence(*op),
            r <= 2,
    {
        match op {
            BinaryOperator::Plus | BinaryOperator::Minus => 1,
            BinaryOperator::Multiply | BinaryOperator::Divide => 2,
            _ => 0,
        }
    }

    fn advance(&mut self) -> (r: Result<(), MathError>)
        requires
            old(self).wf(),
        ensures
            final(self).wf(),
            no_growth(old(self)@, final(self)@),
            (unit_result(r), final(self)@.state) == advance(old(self)@.source, old(self)@.state),
    {
        proof {
            self.lemma_in_bounds();
            lemma_advance_shrinks(self@.source, self@.state);
        }
        let t = self.lexer.next_token()?;
        self.current_token = t;
        Ok(())
    }

    fn expect(&mut self, expected: Token) -> (r: Result<(), MathError>)
        requires
            old(self).wf(),
        ensures
            final(self).wf(),
            no_growth(old(self)@, final(self)@),
            (unit_result(r), final(self)@.state) == expect(
                old(self)@.source,
                old(self)@.state,
                expected@,
            ),
    {
        if self.current_token == expected {
            self.advance()
        } else {
            proof {
                self.lemma_in_bounds();
            }
            let mut message = String::from_str("Expected ");
            message.append(expected.to_text().as_str());
            message.append(", found ");
            message.append(self.current_token.to_text().as_str());
            Err(MathError::Parser { message })
        }
    }
}

} // verus!
