use typst_math::ast::{BinaryOperator, MathExpr, MathNode, MathStyle, UnaryOperator};
use typst_math::parser::Parser;
use typst_math::MathError;

fn parse(input: &str) -> Result<MathExpr, MathError> {
    let mut parser = Parser::new(input)?;
    parser.parse_math_expression()
}

fn id(s: &str) -> MathNode {
    MathNode::Identifier(s.to_string())
}

fn num(s: &str) -> MathNode {
    MathNode::Number(s.to_string())
}

fn bin(op: BinaryOperator, l: MathNode, r: MathNode) -> MathNode {
    MathNode::BinaryOp { op, left: Box::new(l), right: Box::new(r) }
}

fn same(a: &MathNode, b: &MathNode) -> bool {
    format!("{:?}", a) == format!("{:?}", b)
}

fn parses_to(input: &str, expected: MathNode) {
    let e = parse(input).unwrap_or_else(|err| panic!("{:?} failed: {:?}", input, err));
    assert!(same(&e.root, &expected), "{:?} gave {:?}", input, e.root);
}

fn parser_error(input: &str) -> String {
    match parse(input) {
        Err(MathError::Parser { message }) => message,
        other => panic!("{:?} gave {:?}", input, other),
    }
}

#[test]
fn simple_equation_groups_relation_last() {
    parses_to(
        "a + b = c",
        bin(BinaryOperator::Equal, bin(BinaryOperator::Plus, id("a"), id("b")), id("c")),
    );
}

#[test]
fn products_bind_tighter_than_sums() {
    parses_to(
        "a + b * c",
        bin(BinaryOperator::Plus, id("a"), bin(BinaryOperator::Multiply, id("b"), id("c"))),
    );
    parses_to(
        "a * b + c",
        bin(BinaryOperator::Plus, bin(BinaryOperator::Multiply, id("a"), id("b")), id("c")),
    );
}

#[test]
fn same_level_operators_group_to_the_left() {
    parses_to(
        "a - b - c",
        bin(BinaryOperator::Minus, bin(BinaryOperator::Minus, id("a"), id("b")), id("c")),
    );
    parses_to(
        "a / b / c",
        bin(BinaryOperator::Divide, bin(BinaryOperator::Divide, id("a"), id("b")), id("c")),
    );
    parses_to(
        "a < b <= c",
        bin(BinaryOperator::LessEqual, bin(BinaryOperator::Less, id("a"), id("b")), id("c")),
    );
}

#[test]
fn unary_signs_and_scripts() {
    parses_to(
        "-x^2",
        MathNode::UnaryOp {
            op: UnaryOperator::Minus,
            operand: Box::new(MathNode::Superscript { base: Box::new(id("x")), superscript: Box::new(num("2")) }),
        },
    );
    parses_to("+a", MathNode::UnaryOp { op: UnaryOperator::Plus, operand: Box::new(id("a")) });
    // A script is itself a primary expression, so it takes the scripts after it.
    parses_to(
        "x^2_i",
        MathNode::Superscript {
            base: Box::new(id("x")),
            superscript: Box::new(MathNode::Subscript { base: Box::new(num("2")), subscript: Box::new(id("i")) }),
        },
    );
    parses_to(
        "(x)^2_i",
        MathNode::Superscript {
            base: Box::new(MathNode::Group(Box::new(id("x")))),
            superscript: Box::new(MathNode::Subscript { base: Box::new(num("2")), subscript: Box::new(id("i")) }),
        },
    );
    parses_to(
        "x^y^z",
        MathNode::Superscript {
            base: Box::new(id("x")),
            superscript: Box::new(MathNode::Superscript { base: Box::new(id("y")), superscript: Box::new(id("z")) }),
        },
    );
}

#[test]
fn fraction_of_numbers() {
    let e = parse("\\frac{1}{2}").unwrap();
    assert!(same(&e.root, &MathNode::Fraction { numerator: Box::new(num("1")), denominator: Box::new(num("2")) }));
    assert_eq!(e.style, MathStyle::default());
    assert_eq!(e.style.font_size_bits, 12.0f32.to_bits());
}

#[test]
fn roots_groups_and_sums() {
    parses_to(
        "\\sqrt[3]{x}",
        MathNode::Root { degree: Some(Box::new(num("3"))), radicand: Box::new(id("x")) },
    );
    parses_to("\\sqrt{x}", MathNode::Root { degree: None, radicand: Box::new(id("x")) });
    parses_to("(a + b)", MathNode::Group(Box::new(bin(BinaryOperator::Plus, id("a"), id("b")))));
    parses_to(
        "\\sum_{n=1}^{N}{n}",
        MathNode::Sum {
            lower_limit: Some(Box::new(bin(BinaryOperator::Equal, id("n"), num("1")))),
            upper_limit: Some(Box::new(id("N"))),
            body: Box::new(id("n")),
        },
    );
    // An unbraced lower limit is a primary expression and takes the `^` after it.
    parses_to(
        "\\sum_i^n{x}",
        MathNode::Sum {
            lower_limit: Some(Box::new(MathNode::Superscript { base: Box::new(id("i")), superscript: Box::new(id("n")) })),
            upper_limit: None,
            body: Box::new(id("x")),
        },
    );
    parses_to(
        "\\sum_{i}^n{x}",
        MathNode::Sum {
            lower_limit: Some(Box::new(id("i"))),
            upper_limit: Some(Box::new(id("n"))),
            body: Box::new(id("x")),
        },
    );
    parses_to("\\sum{x}", MathNode::Sum { lower_limit: None, upper_limit: None, body: Box::new(id("x")) });
}

#[test]
fn parse_stops_after_one_expression() {
    let mut parser = Parser::new("a ) b").unwrap();
    let e = parser.parse_math_expression().unwrap();
    assert!(same(&e.root, &id("a")));
    match parser.parse_math_expression() {
        Err(MathError::Parser { message }) => assert_eq!(message, "Unexpected token: RightParen"),
        other => panic!("{:?}", other),
    }
}

#[test]
fn parser_errors_name_the_tokens() {
    assert_eq!(parser_error("a +"), "Unexpected token: Eof");
    assert_eq!(parser_error("(a"), "Expected RightParen, found Eof");
    assert_eq!(parser_error("\\frac{1}"), "Expected LeftBrace, found Eof");
    assert_eq!(parser_error("\\frac{1}{2 x}"), "Expected RightBrace, found Identifier(\"x\")");
    assert_eq!(parser_error("\\int"), "Unexpected token: Integral");
    assert_eq!(parser_error(""), "Unexpected token: Eof");
}

#[test]
fn lexer_errors_reach_the_caller() {
    match Parser::new("#") {
        Err(MathError::Lexer { position, message }) => {
            assert_eq!(position, 0);
            assert_eq!(message, "Invalid token");
        }
        _ => panic!("expected a lexer error"),
    }
    match parse("a + # b") {
        Err(MathError::Lexer { position, .. }) => assert_eq!(position, 4),
        other => panic!("{:?}", other),
    }
}

#[test]
fn example_inputs_of_the_demo_program() {
    // `\pm` and `\infty` are not commands of the lexer.
    match parse("x = \\frac{-b \\pm \\sqrt{b^2 - 4ac}}{2a}") {
        Err(MathError::Lexer { position, message }) => {
            assert_eq!(position, 13);
            assert_eq!(message, "Invalid token");
        }
        other => panic!("{:?}", other),
    }
    match parse("\\sum_{n=1}^\\infty \\frac{1}{n^2} = \\frac{\\pi^2}{6}") {
        Err(MathError::Lexer { position, .. }) => assert_eq!(position, 11),
        other => panic!("{:?}", other),
    }
}

#[test]
fn simple_equation_parses_like_the_demo_test() {
    let e = parse("a + b = c").unwrap();
    assert!(matches!(e.root, MathNode::BinaryOp { op: BinaryOperator::Equal, .. }));
}

#[test]
fn cloned_nodes_are_equal() {
    let e = parse("\\sqrt[2]{x_1 + \\frac{a}{b}}").unwrap();
    let c = e.root.clone();
    assert!(same(&c, &e.root));
}

#[test]
fn letters_with_two_scripts_nest_to_the_right() {
    parses_to(
        "x_i^n",
        MathNode::Subscript {
            base: Box::new(id("x")),
            subscript: Box::new(MathNode::Superscript { base: Box::new(id("i")), superscript: Box::new(id("n")) }),
        },
    );
}

#[test]
fn letters_with_two_operators_group_by_precedence() {
    parses_to(
        "a=b+c",
        bin(BinaryOperator::Equal, id("a"), bin(BinaryOperator::Plus, id("b"), id("c"))),
    );
    parses_to(
        "a*b>c",
        bin(BinaryOperator::Greater, bin(BinaryOperator::Multiply, id("a"), id("b")), id("c")),
    );
    parses_to(
        "a=b<c",
        bin(BinaryOperator::Less, bin(BinaryOperator::Equal, id("a"), id("b")), id("c")),
    );
}
