//! The decisions of layout that do not depend on measurements: which nodes
//! can be laid out, the script level of the parts of fractions and scripts,
//! the character drawn for each operator, and the shape class of a glyph.
//! The measuring itself works in floating point and is done by the caller.
use vstd::prelude::*;
use crate::ast::{
    BinaryOperator, MathExpr, MathNode, MathStyle, NodeV, ScriptLevel, node_view, opt_node_view,
};
use crate::error::{ErrorV, MathError};

verus! {

/// Whether every node of the tree is of a kind the layout engine handles:
/// identifiers, numbers, binary operations, fractions, scripts, roots and
/// groups.
pub open spec fn layout_supported(n: NodeV) -> bool
    decreases n,
{
    match n {
        NodeV::Identifier(_) => true,
        NodeV::Number(_) => true,
        NodeV::BinaryOp { left, right, .. } => layout_supported(*left) && layout_supported(*right),
        NodeV::Fraction { numerator, denominator } => layout_supported(*numerator)
            && layout_supported(*denominator),
        NodeV::Superscript { base, superscript } => layout_supported(*base) && layout_supported(
            *superscript,
        ),
        NodeV::Subscript { base, subscript } => layout_supported(*base) && layout_supported(
            *subscript,
        ),
        NodeV::Subsuperscript { base, subscript, superscript } => layout_supported(*base)
            && layout_supported(*subscript) && layout_supported(*superscript),
        NodeV::Root { degree, radicand } => (match degree {
            Some(d) => layout_supported(*d),
            None => true,
        }) && layout_supported(*radicand),
        NodeV::Group(c) => layout_supported(*c),
        _ => false,
    }
}

/// The error of laying out a node of another kind.
pub open spec fn unsupported_error() -> ErrorV {
    ErrorV::Layout { message: "Unsupported node type"@ }
}

/// A factor of the font metrics that multiplies the font size: the script
/// scale (fractions, scripts) or the script-script scale (root degrees).
#[derive(Debug, Clone, Copy, PartialEq, Eq, Structural)]
pub enum Scale {
    Script,
    ScriptScript,
}

/// The style a box is set in, relative to the style of the whole
/// expression: its script level, and the factors that multiply the
/// expression's font size, outermost first.
#[derive(Debug)]
pub struct PlanStyle {
    pub script_level: ScriptLevel,
    pub scales: Vec<Scale>,
}

/// The model of a [`PlanStyle`].
pub struct PlanStyleV {
    pub script_level: ScriptLevel,
    pub scales: Seq<Scale>,
}

impl View for PlanStyle {
    type V = PlanStyleV;

    open spec fn view(&self) -> PlanStyleV {
        PlanStyleV { script_level: self.script_level, scales: self.scales@ }
    }
}

/// The boxes that lay out an expression, before anything is measured.
/// Each box carries the style it is set in.
#[derive(Debug)]
pub enum LayoutPlan {
    /// An identifier, set glyph by glyph in a row.
    Identifier { name: String, style: PlanStyle },
    /// A number, set glyph by glyph in a row from its printed value.
    Number { literal: String, style: PlanStyle },
    /// Left operand, operator glyph, right operand, in a row.
    Operation { left: Box<LayoutPlan>, symbol: char, right: Box<LayoutPlan>, style: PlanStyle },
    /// A numerator over a denominator.
    Fraction { numerator: Box<LayoutPlan>, denominator: Box<LayoutPlan>, style: PlanStyle },
    /// A base with an optional superscript and an optional subscript.
    Script {
        base: Box<LayoutPlan>,
        superscript: Option<Box<LayoutPlan>>,
        subscript: Option<Box<LayoutPlan>>,
        style: PlanStyle,
    },
    /// A radicand under a radical sign, with an optional degree.
    Radical { radicand: Box<LayoutPlan>, degree: Option<Box<LayoutPlan>>, style: PlanStyle },
}

/// The model of a [`LayoutPlan`].
pub enum PlanV {
    Identifier { name: Seq<char>, style: PlanStyleV },
    Number { literal: Seq<char>, style: PlanStyleV },
    Operation { left: Box<PlanV>, symbol: char, right: Box<PlanV>, style: PlanStyleV },
    Fraction { numerator: Box<PlanV>, denominator: Box<PlanV>, style: PlanStyleV },
    Script {
        base: Box<PlanV>,
        superscript: Option<Box<PlanV>>,
        subscript: Option<Box<PlanV>>,
        style: PlanStyleV,
    },
    Radical { radicand: Box<PlanV>, degree: Option<Box<PlanV>>, style: PlanStyleV },
}

pub open spec fn opt_plan_view(p: Option<Box<LayoutPlan>>) -> Option<Box<PlanV>>
    decreases p,
{
    match p {
        Some(b) => Some(Box::new(plan_view(*b))),
        None => None,
    }
}

pub open spec fn plan_view(p: LayoutPlan) -> PlanV
    decreases p,
{
    match p {
        LayoutPlan::Identifier { name, style } => PlanV::Identifier { name: name@, style: style@ },
        LayoutPlan::Number { literal, style } => PlanV::Number { literal: literal@, style: style@ },
        LayoutPlan::Operation { left, symbol, right, style } => PlanV::Operation {
            left: Box::new(plan_view(*left)),
            symbol,
            right: Box::new(plan_view(*right)),
            style: style@,
        },
        LayoutPlan::Fraction { numerator, denominator, style } => PlanV::Fraction {
            numerator: Box::new(plan_view(*numerator)),
            denominator: Box::new(plan_view(*denominator)),
            style: style@,
        },
        LayoutPlan::Script { base, superscript, subscript, style } => PlanV::Script {
            base: Box::new(plan_view(*base)),
            superscript: opt_plan_view(superscript),
            subscript: opt_plan_view(subscript),
            style: style@,
        },
        LayoutPlan::Radical { radicand, degree, style } => PlanV::Radical {
            radicand: Box::new(plan_view(*radicand)),
            degree: opt_plan_view(degree),
            style: style@,
        },
    }
}

impl View for LayoutPlan {
    type V = PlanV;

    open spec fn view(&self) -> PlanV {
        plan_view(*self)
    }
}

/// The style of the numerator and denominator of a fraction set in `st`.
pub open spec fn fraction_style(st: PlanStyleV) -> PlanStyleV {
    PlanStyleV { script_level: fraction_level(st.script_level), scales: st.scales.push(Scale::Script) }
}

/// The style of the scripts of a base set in `st`.
pub open spec fn script_style(st: PlanStyleV) -> PlanStyleV {
    PlanStyleV {
        script_level: attached_script_level(st.script_level),
        scales: st.scales.push(Scale::Script),
    }
}

/// The style of the degree of a root set in `st`: same level, script-script
/// size.
pub open spec fn degree_style(st: PlanStyleV) -> PlanStyleV {
    PlanStyleV { script_level: st.script_level, scales: st.scales.push(Scale::ScriptScript) }
}

/// How the tree `n` is laid out in style `st`, or `None` where it holds a
/// node that layout does not handle. A group is laid out as its content;
/// a base is laid out before its superscript, and that before its
/// subscript; a radicand before the degree.
pub open spec fn plan_of(n: NodeV, st: PlanStyleV) -> Option<PlanV>
    decreases n,
{
    match n {
        NodeV::Identifier(name) => Some(PlanV::Identifier { name, style: st }),
        NodeV::Number(literal) => Some(PlanV::Number { literal, style: st }),
        NodeV::BinaryOp { op, left, right } => match (plan_of(*left, st), plan_of(*right, st)) {
            (Some(l), Some(r)) => Some(
                PlanV::Operation {
                    left: Box::new(l),
                    symbol: operator_char(op),
                    right: Box::new(r),
                    style: st,
                },
            ),
            _ => None,
        },
        NodeV::Fraction { numerator, denominator } => match (
            plan_of(*numerator, fraction_style(st)),
            plan_of(*denominator, fraction_style(st)),
        ) {
            (Some(a), Some(b)) => Some(
                PlanV::Fraction { numerator: Box::new(a), denominator: Box::new(b), style: st },
            ),
            _ => None,
        },
        NodeV::Superscript { base, superscript } => match (
            plan_of(*base, st),
            plan_of(*superscript, script_style(st)),
        ) {
            (Some(b), Some(p)) => Some(
                PlanV::Script {
                    base: Box::new(b),
                    superscript: Some(Box::new(p)),
                    subscript: None,
                    style: st,
                },
            ),
            _ => None,
        },
        NodeV::Subscript { base, subscript } => match (
            plan_of(*base, st),
            plan_of(*subscript, script_style(st)),
        ) {
            (Some(b), Some(q)) => Some(
                PlanV::Script {
                    base: Box::new(b),
                    superscript: None,
                    subscript: Some(Box::new(q)),
                    style: st,
                },
            ),
            _ => None,
        },
        NodeV::Subsuperscript { base, subscript, superscript } => match (
            plan_of(*base, st),
            plan_of(*superscript, script_style(st)),
            plan_of(*subscript, script_style(st)),
        ) {
            (Some(b), Some(p), Some(q)) => Some(
                PlanV::Script {
                    base: Box::new(b),
                    superscript: Some(Box::new(p)),
                    subscript: Some(Box::new(q)),
                    style: st,
                },
            ),
            _ => None,
        },
        NodeV::Root { degree, radicand } => match plan_of(*radicand, st) {
            Some(r) => match degree {
                None => Some(PlanV::Radical { radicand: Box::new(r), degree: None, style: st }),
                Some(d) => match plan_of(*d, degree_style(st)) {
                    Some(dp) => Some(
                        PlanV::Radical {
                            radicand: Box::new(r),
                            degree: Some(Box::new(dp)),
                            style: st,
                        },
                    ),
                    None => None,
                },
            },
            None => None,
        },
        NodeV::Group(c) => plan_of(*c, st),
        _ => None,
    }
}

pub open spec fn plan_result(r: Result<LayoutPlan, MathError>) -> Option<PlanV> {
    match r {
        Ok(p) => Some(p@),
        Err(_) => None,
    }
}

fn copy_style(st: &PlanStyle) -> (r: PlanStyle)
    ensures
        r@ == st@,
{
    let mut scales: Vec<Scale> = Vec::new();
    let mut i: usize = 0;
    while i < st.scales.len()
        invariant
            i <= st.scales@.len(),
            scales@ == st.scales@.subrange(0, i as int),
        decreases st.scales@.len() - i,
    {
        scales.push(st.scales[i]);
        i = i + 1;
        assert(scales@ =~= st.scales@.subrange(0, i as int));
    }
    assert(scales@ =~= st.scales@);
    PlanStyle { script_level: st.script_level, scales }
}

fn derived_style(st: &PlanStyle, level: ScriptLevel, scale: Scale) -> (r: PlanStyle)
    ensures
        r@ == (PlanStyleV { script_level: level, scales: st@.scales.push(scale) }),
{
    let mut c = copy_style(st);
    c.scales.push(scale);
    PlanStyle { script_level: level, scales: c.scales }
}

proof fn lemma_opt_plan(p: Option<Box<LayoutPlan>>)
    ensures
        opt_plan_view(p) == match p {
            Some(b) => Some(Box::new(plan_view(*b))),
            None => None::<Box<PlanV>>,
        },
{
}

fn unsupported() -> (e: MathError)
    ensures
        e@ == unsupported_error(),
{
    MathError::Layout { message: String::from_str("Unsupported node type") }
}

/// Lays out the tree `node` in style `style`, without measuring; fails on
/// the first node that layout does not handle.
pub fn plan_node(node: &MathNode, style: &PlanStyle) -> (r: Result<LayoutPlan, MathError>)
    ensures
        plan_result(r) == plan_of(node@, style@),
        r matches Err(e) ==> e@ == unsupported_error(),
    decreases node,
{
    match node {
        MathNode::Identifier(name) => Ok(
            LayoutPlan::Identifier { name: name.clone(), style: copy_style(style) },
        ),
        MathNode::Number(literal) => Ok(
            LayoutPlan::Number { literal: literal.clone(), style: copy_style(style) },
        ),
        MathNode::BinaryOp { op, left, right } => {
            let l = plan_node(left, style)?;
            let symbol = operator_glyph(op);
            let r = plan_node(right, style)?;
            Ok(
                LayoutPlan::Operation {
                    left: Box::new(l),
                    symbol,
                    right: Box::new(r),
                    style: copy_style(style),
                },
            )
        },
        MathNode::Fraction { numerator, denominator } => {
            let part = derived_style(style, fraction_part_level(style.script_level), Scale::Script);
            let a = plan_node(numerator, &part)?;
            let b = plan_node(denominator, &part)?;
            Ok(
                LayoutPlan::Fraction {
                    numerator: Box::new(a),
                    denominator: Box::new(b),
                    style: copy_style(style),
                },
            )
        },
        MathNode::Superscript { base, superscript } => {
            let b = plan_node(base, style)?;
            let ss = derived_style(style, script_part_level(style.script_level), Scale::Script);
            let p = plan_node(superscript, &ss)?;
            let sup = Some(Box::new(p));
            proof {
                lemma_opt_plan(sup);
                lemma_opt_plan(None);
            }
            Ok(LayoutPlan::Script { base: Box::new(b), superscript: sup, subscript: None, style: copy_style(style) })
        },
        MathNode::Subscript { base, subscript } => {
            let b = plan_node(base, style)?;
            let ss = derived_style(style, script_part_level(style.script_level), Scale::Script);
            let q = plan_node(subscript, &ss)?;
            let sub = Some(Box::new(q));
            proof {
                lemma_opt_plan(sub);
                lemma_opt_plan(None);
            }
            Ok(LayoutPlan::Script { base: Box::new(b), superscript: None, subscript: sub, style: copy_style(style) })
        },
        MathNode::Subsuperscript { base, subscript, superscript } => {
            let b = plan_node(base, style)?;
            let ss = derived_style(style, script_part_level(style.script_level), Scale::Script);
            let p = plan_node(superscript, &ss)?;
            let q = plan_node(subscript, &ss)?;
            let sup = Some(Box::new(p));
            let sub = Some(Box::new(q));
            proof {
                lemma_opt_plan(sup);
                lemma_opt_plan(sub);
            }
            Ok(LayoutPlan::Script { base: Box::new(b), superscript: sup, subscript: sub, style: copy_style(style) })
        },
        MathNode::Root { degree, radicand } => {
            let r = plan_node(radicand, style)?;
            proof {
                assert(opt_node_view(*degree) == match *degree {
                    Some(b) => Some(Box::new(node_view(*b))),
                    None => None::<Box<NodeV>>,
                });
            }
            let d = match degree {
                Some(d) => {
                    let ds = derived_style(style, style.script_level, Scale::ScriptScript);
                    Some(Box::new(plan_node(d, &ds)?))
                },
                None => None,
            };
            proof {
                lemma_opt_plan(d);
            }
            Ok(LayoutPlan::Radical { radicand: Box::new(r), degree: d, style: copy_style(style) })
        },
        MathNode::Group(c) => plan_node(c, style),
        _ => Err(unsupported()),
    }
}

/// The style an expression's root is laid out in: the expression's own
/// script level, at its own font size.
pub open spec fn root_style(expr_style: MathStyle) -> PlanStyleV {
    PlanStyleV { script_level: expr_style.script_level, scales: Seq::empty() }
}

/// Lays out an expression, without measuring.
pub fn plan_expression(expr: &MathExpr) -> (r: Result<LayoutPlan, MathError>)
    ensures
        plan_result(r) == plan_of(expr.root@, root_style(expr.style)),
        r matches Err(e) ==> e@ == unsupported_error(),
{
    let style = PlanStyle { script_level: expr.style.script_level, scales: Vec::new() };
    plan_node(&expr.root, &style)
}

/// Layout fails exactly on the trees that hold a node of a kind it does not
/// handle, whatever style it starts from.
pub proof fn law_plan_exists_iff_supported(n: NodeV, st: PlanStyleV)
    ensures
        plan_of(n, st) is Some <==> layout_supported(n),
    decreases n,
{
    match n {
        NodeV::BinaryOp { left, right, .. } => {
            law_plan_exists_iff_supported(*left, st);
            law_plan_exists_iff_supported(*right, st);
        },
        NodeV::Fraction { numerator, denominator } => {
            law_plan_exists_iff_supported(*numerator, fraction_style(st));
            law_plan_exists_iff_supported(*denominator, fraction_style(st));
        },
        NodeV::Superscript { base, superscript } => {
            law_plan_exists_iff_supported(*base, st);
            law_plan_exists_iff_supported(*superscript, script_style(st));
        },
        NodeV::Subscript { base, subscript } => {
            law_plan_exists_iff_supported(*base, st);
            law_plan_exists_iff_supported(*subscript, script_style(st));
        },
        NodeV::Subsuperscript { base, subscript, superscript } => {
            law_plan_exists_iff_supported(*base, st);
            law_plan_exists_iff_supported(*superscript, script_style(st));
            law_plan_exists_iff_supported(*subscript, script_style(st));
        },
        NodeV::Root { degree, radicand } => {
            law_plan_exists_iff_supported(*radicand, st);
            if let Some(d) = degree {
                law_plan_exists_iff_supported(*d, degree_style(st));
            }
        },
        NodeV::Group(c) => law_plan_exists_iff_supported(*c, st),
        _ => {},
    }
}

/// The script level of the numerator and denominator of a fraction set at
/// level `l`: one level smaller, down to script-script.
pub open spec fn fraction_level(l: ScriptLevel) -> ScriptLevel {
    match l {
        ScriptLevel::Display => ScriptLevel::Text,
        ScriptLevel::Text => ScriptLevel::Script,
        ScriptLevel::Script => ScriptLevel::ScriptScript,
        ScriptLevel::ScriptScript => ScriptLevel::ScriptScript,
    }
}

/// The script level of the superscript and subscript of a base set at
/// level `l`: script size for display and text, then script-script.
pub open spec fn attached_script_level(l: ScriptLevel) -> ScriptLevel {
    match l {
        ScriptLevel::Display => ScriptLevel::Script,
        ScriptLevel::Text => ScriptLevel::Script,
        ScriptLevel::Script => ScriptLevel::ScriptScript,
        ScriptLevel::ScriptScript => ScriptLevel::ScriptScript,
    }
}

/// How deep a level is: display 0, text 1, script 2, script-script 3.
pub open spec fn level_depth(l: ScriptLevel) -> nat {
    match l {
        ScriptLevel::Display => 0,
        ScriptLevel::Text => 1,
        ScriptLevel::Script => 2,
        ScriptLevel::ScriptScript => 3,
    }
}

/// Parts are never set larger than what holds them: the parts of a
/// fraction are one level deeper (script-script stays script-script),
/// scripts are at least as deep as the parts of a fraction at the same
/// level, and script-script is the deepest level.
pub proof fn law_levels_go_deeper(l: ScriptLevel)
    ensures
        l != ScriptLevel::ScriptScript ==> level_depth(fraction_level(l)) == level_depth(l) + 1,
        fraction_level(ScriptLevel::ScriptScript) == ScriptLevel::ScriptScript,
        attached_script_level(ScriptLevel::ScriptScript) == ScriptLevel::ScriptScript,
        level_depth(l) <= level_depth(fraction_level(l)) <= level_depth(attached_script_level(l)),
        level_depth(attached_script_level(l)) >= 2,
        level_depth(l) <= 3,
{
}

/// The level of the parts of a fraction set at `level`.
pub fn fraction_part_level(level: ScriptLevel) -> (r: ScriptLevel)
    ensures
        r == fraction_level(level),
{
    match level {
        ScriptLevel::Display => ScriptLevel::Text,
        ScriptLevel::Text => ScriptLevel::Script,
        ScriptLevel::Script => ScriptLevel::ScriptScript,
        ScriptLevel::ScriptScript => ScriptLevel::ScriptScript,
    }
}

/// The level of the scripts attached to a base set at `level`.
pub fn script_part_level(level: ScriptLevel) -> (r: ScriptLevel)
    ensures
        r == attached_script_level(level),
{
    match level {
        ScriptLevel::Display => ScriptLevel::Script,
        ScriptLevel::Text => ScriptLevel::Script,
        ScriptLevel::Script => ScriptLevel::ScriptScript,
        ScriptLevel::ScriptScript => ScriptLevel::ScriptScript,
    }
}

/// The character drawn for a binary operator (`?` where there is none).
pub open spec fn operator_char(op: BinaryOperator) -> char {
    match op {
        BinaryOperator::Plus => '+',
        BinaryOperator::Minus => '\u{2212}',
        BinaryOperator::Multiply => '\u{d7}',
        BinaryOperator::Divide => '\u{f7}',
        BinaryOperator::Equal => '=',
        BinaryOperator::NotEqual => '\u{2260}',
        BinaryOperator::Less => '<',
        BinaryOperator::Greater => '>',
        BinaryOperator::LessEqual => '\u{2264}',
        BinaryOperator::GreaterEqual => '\u{2265}',
        _ => '?',
    }
}

/// The character drawn for `op`.
pub fn operator_glyph(op: &BinaryOperator) -> (c: char)
    ensures
        c == operator_char(*op),
{
    match op {
        BinaryOperator::Plus => '+',
        BinaryOperator::Minus => '\u{2212}',
        BinaryOperator::Multiply => '\u{d7}',
        BinaryOperator::Divide => '\u{f7}',
        BinaryOperator::Equal => '=',
        BinaryOperator::NotEqual => '\u{2260}',
        BinaryOperator::Less => '<',
        BinaryOperator::Greater => '>',
        BinaryOperator::LessEqual => '\u{2264}',
        BinaryOperator::GreaterEqual => '\u{2265}',
        _ => '?',
    }
}

/// The shape classes that glyph metrics are given for.
#[derive(Debug, Clone, Copy, PartialEq, Eq, Structural)]
pub enum GlyphShape {
    /// `a` to `z`.
    Lowercase,
    /// `A` to `Z`.
    Uppercase,
    /// Any other character.
    Other,
}

pub open spec fn glyph_shape_of(c: char) -> GlyphShape {
    if 'a' <= c <= 'z' {
        GlyphShape::Lowercase
    } else if 'A' <= c <= 'Z' {
        GlyphShape::Uppercase
    } else {
        GlyphShape::Other
    }
}

/// The shape class of the glyph for `c`.
pub fn glyph_shape(c: char) -> (r: GlyphShape)
    ensures
        r == glyph_shape_of(c),
{
    if 'a' <= c && c <= 'z' {
        GlyphShape::Lowercase
    } else if 'A' <= c && c <= 'Z' {
        GlyphShape::Uppercase
    } else {
        GlyphShape::Other
    }
}

/// Each operator is drawn as its own mathematical sign: `+`, minus sign
/// U+2212, times U+00D7, division U+00F7, `=`, U+2260, `<`, `>`, U+2264 and
/// U+2265; an operator without a sign of its own is drawn as `?`.
pub proof fn law_operator_signs(op: BinaryOperator)
    ensures
        operator_char(BinaryOperator::Plus) == '+',
        operator_char(BinaryOperator::Minus) == '\u{2212}',
        operator_char(BinaryOperator::Multiply) == '\u{d7}',
        operator_char(BinaryOperator::Divide) == '\u{f7}',
        operator_char(BinaryOperator::Equal) == '=',
        operator_char(BinaryOperator::NotEqual) == '\u{2260}',
        operator_char(BinaryOperator::Less) == '<',
        operator_char(BinaryOperator::Greater) == '>',
        operator_char(BinaryOperator::LessEqual) == '\u{2264}',
        operator_char(BinaryOperator::GreaterEqual) == '\u{2265}',
        op is Dot || op is Cross ==> operator_char(op) == '?',
{
}

} // verus!
