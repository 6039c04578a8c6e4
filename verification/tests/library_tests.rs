use typst_math::ast::{BinaryOperator, Color, MathNode, MathStyle, MathFont, ScriptLevel};
use typst_math::layout::{fraction_part_level, glyph_shape, operator_glyph, plan_expression, plan_node, script_part_level, GlyphShape, LayoutPlan, PlanStyle, Scale};
use typst_math::ast::MathExpr;
use typst_math::parser::Parser;
use typst_math::render::svg::SvgRenderer;
use typst_math::symbols::{get_symbol, resolve_latex_command};
use typst_math::ast::SymbolCategory;
use typst_math::MathError;

#[test]
fn symbol_table_entries() {
    let a = get_symbol("alpha").unwrap();
    assert_eq!(a.unicode, '\u{3b1}');
    assert_eq!(a.name, "alpha");
    assert_eq!(a.category, SymbolCategory::Letter);
    let i = get_symbol("int").unwrap();
    assert_eq!(i.name, "integral");
    assert_eq!(i.unicode, '\u{222b}');
    let l = get_symbol("leq").unwrap();
    assert_eq!(l.category, SymbolCategory::Relation);
    assert_eq!(l.name, "less-than-or-equal");
    assert!(get_symbol("gamma").is_none());
    assert!(get_symbol("").is_none());
    assert!(get_symbol("alphax").is_none());
}

#[test]
fn resolving_commands_gives_the_symbol_character() {
    assert_eq!(resolve_latex_command("sum"), Some('\u{2211}'));
    assert_eq!(resolve_latex_command("beta"), Some('\u{3b2}'));
    assert_eq!(resolve_latex_command("leq"), Some('\u{2264}'));
    assert_eq!(resolve_latex_command("pm"), None);
    for name in ["alpha", "beta", "sum", "int", "leq", "x"] {
        assert_eq!(resolve_latex_command(name), get_symbol(name).map(|s| s.unicode));
    }
}

#[test]
fn defaults() {
    assert_eq!(Color::default(), Color { r: 0, g: 0, b: 0, a: 255 });
    let s = MathStyle::default();
    assert_eq!(f32::from_bits(s.font_size_bits), 12.0);
    assert_eq!(s.font_family, MathFont::Roman);
    assert!(s.italic);
    assert!(!s.bold);
    assert_eq!(s.script_level, ScriptLevel::Text);
}

#[test]
fn error_messages() {
    let e = MathError::Lexer { position: 13, message: "Invalid token".to_string() };
    assert_eq!(e.message(), "Lexer error at position 13: Invalid token");
    let e = MathError::Lexer { position: 0, message: "x".to_string() };
    assert_eq!(e.message(), "Lexer error at position 0: x");
    let e = MathError::Parser { message: "Unexpected token: Eof".to_string() };
    assert_eq!(e.message(), "Parser error: Unexpected token: Eof");
    assert_eq!(MathError::Layout { message: "m".to_string() }.message(), "Layout error: m");
    assert_eq!(MathError::Font { message: "m".to_string() }.message(), "Font error: m");
    assert_eq!(MathError::UnknownSymbol { symbol: "s".to_string() }.message(), "Unknown symbol: s");
    assert_eq!(
        MathError::InvalidExpression { reason: "r".to_string() }.message(),
        "Invalid math expression: r"
    );
}

fn parse_expr(input: &str) -> MathExpr {
    Parser::new(input).unwrap().parse_math_expression().unwrap()
}

fn plan(input: &str) -> Result<LayoutPlan, MathError> {
    plan_expression(&parse_expr(input))
}

#[test]
fn layout_fails_exactly_on_unsupported_nodes() {
    assert!(plan("a + b = c").is_ok());
    assert!(plan("\\frac{1}{2}").is_ok());
    assert!(plan("\\sqrt[3]{x^2_i}").is_ok());
    assert!(plan("(x)").is_ok());
    match plan("a + -b") {
        Err(MathError::Layout { message }) => assert_eq!(message, "Unsupported node type"),
        other => panic!("{:?}", other),
    }
    assert!(plan("\\frac{1}{\\sum{n}}").is_err());
    let matrix = MathNode::Matrix {
        rows: vec![vec![MathNode::Identifier("a".to_string())]],
        bracket_type: typst_math::ast::MatrixBracket::Square,
    };
    let style = PlanStyle { script_level: ScriptLevel::Text, scales: vec![] };
    assert!(plan_node(&matrix, &style).is_err());
}

#[test]
fn fraction_parts_are_one_level_smaller() {
    match plan("\\frac{1}{2}").unwrap() {
        LayoutPlan::Fraction { numerator, denominator, style } => {
            assert_eq!(style.script_level, ScriptLevel::Text);
            assert!(style.scales.is_empty());
            for part in [numerator, denominator] {
                match *part {
                    LayoutPlan::Number { literal, style } => {
                        assert!(literal == "1" || literal == "2");
                        assert_eq!(style.script_level, ScriptLevel::Script);
                        assert_eq!(style.scales, vec![Scale::Script]);
                    }
                    other => panic!("{:?}", other),
                }
            }
        }
        other => panic!("{:?}", other),
    }
}

#[test]
fn scripts_and_degrees_get_their_styles() {
    match plan("\\sqrt[3]{x^2}").unwrap() {
        LayoutPlan::Radical { radicand, degree, .. } => {
            match *degree.unwrap() {
                LayoutPlan::Number { style, .. } => {
                    assert_eq!(style.script_level, ScriptLevel::Text);
                    assert_eq!(style.scales, vec![Scale::ScriptScript]);
                }
                other => panic!("{:?}", other),
            }
            match *radicand {
                LayoutPlan::Script { base, superscript, subscript, style } => {
                    assert!(subscript.is_none());
                    assert!(style.scales.is_empty());
                    assert!(matches!(*base, LayoutPlan::Identifier { .. }));
                    match *superscript.unwrap() {
                        LayoutPlan::Number { style, .. } => {
                            assert_eq!(style.script_level, ScriptLevel::Script);
                            assert_eq!(style.scales, vec![Scale::Script]);
                        }
                        other => panic!("{:?}", other),
                    }
                }
                other => panic!("{:?}", other),
            }
        }
        other => panic!("{:?}", other),
    }
}

#[test]
fn operations_carry_their_glyph_and_groups_vanish() {
    match plan("(a) - b").unwrap() {
        LayoutPlan::Operation { left, symbol, right, .. } => {
            assert_eq!(symbol, '\u{2212}');
            assert!(matches!(*left, LayoutPlan::Identifier { ref name, .. } if name == "a"));
            assert!(matches!(*right, LayoutPlan::Identifier { ref name, .. } if name == "b"));
        }
        other => panic!("{:?}", other),
    }
}

#[test]
fn script_levels() {
    assert_eq!(fraction_part_level(ScriptLevel::Display), ScriptLevel::Text);
    assert_eq!(fraction_part_level(ScriptLevel::Text), ScriptLevel::Script);
    assert_eq!(fraction_part_level(ScriptLevel::Script), ScriptLevel::ScriptScript);
    assert_eq!(fraction_part_level(ScriptLevel::ScriptScript), ScriptLevel::ScriptScript);
    assert_eq!(script_part_level(ScriptLevel::Display), ScriptLevel::Script);
    assert_eq!(script_part_level(ScriptLevel::Text), ScriptLevel::Script);
    assert_eq!(script_part_level(ScriptLevel::Script), ScriptLevel::ScriptScript);
    assert_eq!(script_part_level(ScriptLevel::ScriptScript), ScriptLevel::ScriptScript);
}

#[test]
fn operator_glyphs() {
    assert_eq!(operator_glyph(&BinaryOperator::Plus), '+');
    assert_eq!(operator_glyph(&BinaryOperator::Minus), '\u{2212}');
    assert_eq!(operator_glyph(&BinaryOperator::Multiply), '\u{d7}');
    assert_eq!(operator_glyph(&BinaryOperator::Divide), '\u{f7}');
    assert_eq!(operator_glyph(&BinaryOperator::NotEqual), '\u{2260}');
    assert_eq!(operator_glyph(&BinaryOperator::GreaterEqual), '\u{2265}');
    assert_eq!(operator_glyph(&BinaryOperator::Dot), '?');
    assert_eq!(operator_glyph(&BinaryOperator::Cross), '?');
}

#[test]
fn glyph_shapes() {
    assert_eq!(glyph_shape('q'), GlyphShape::Lowercase);
    assert_eq!(glyph_shape('Q'), GlyphShape::Uppercase);
    assert_eq!(glyph_shape('7'), GlyphShape::Other);
    assert_eq!(glyph_shape('\u{2212}'), GlyphShape::Other);
}

#[test]
fn renderer_indents_two_spaces_per_level() {
    let mut r = SvgRenderer::new();
    assert_eq!(r.indent(), "");
    assert_eq!(r.output(), "");
    r.enter();
    r.enter();
    assert_eq!(r.indent_level(), 2);
    let indent = r.indent();
    assert_eq!(indent, "    ");
    r.write_line(&indent, "<g>");
    r.leave();
    let indent = r.indent();
    r.write_line(&indent, "</g>");
    assert_eq!(r.output(), "    <g>\n  </g>\n");
    r.clear();
    assert_eq!(r.output(), "");
    assert_eq!(r.indent_level(), 1);
}

#[test]
fn decimal_numerals() {
    for n in [0usize, 7, 10, 99, 100, 12345, usize::MAX] {
        let mut s = String::from("n=");
        typst_math::text::push_decimal(&mut s, n);
        assert_eq!(s, format!("n={}", n));
    }
}

#[test]
fn string_equality() {
    assert!(typst_math::text::str_eq("abc", "abc"));
    assert!(!typst_math::text::str_eq("abc", "abd"));
    assert!(!typst_math::text::str_eq("ab", "abc"));
    assert!(typst_math::text::str_eq("", ""));
    assert!(typst_math::text::str_eq("\u{3b1}", "\u{3b1}"));
}
