//! What a layout plan keeps of the tree it lays out: its shape, and its
//! names and numbers in reading order, each in the style it is set in.
use vstd::prelude::*;
use crate::ast::{NodeV, ScriptLevel};
use crate::layout::{
    GlyphShape, PlanStyleV, PlanV, Scale, degree_style, fraction_style, operator_char, plan_of, script_style,
};

verus! {

/// The level the numerator and denominator of a fraction at level `l` are
/// set in: display gives text, text gives script, and everything smaller
/// gives script-script.
pub open spec fn smaller_level(l: ScriptLevel) -> ScriptLevel {
    match l {
        ScriptLevel::Display => ScriptLevel::Text,
        ScriptLevel::Text => ScriptLevel::Script,
        _ => ScriptLevel::ScriptScript,
    }
}

/// The level the scripts of a base at level `l` are set in: script for
/// display and text, script-script below that.
pub open spec fn script_size_level(l: ScriptLevel) -> ScriptLevel {
    match l {
        ScriptLevel::Display | ScriptLevel::Text => ScriptLevel::Script,
        _ => ScriptLevel::ScriptScript,
    }
}

/// The names and numbers of the tree `n`, read left to right (a fraction's
/// numerator before its denominator, a base before its superscript and that
/// before its subscript, a root's degree before the radicand), each with
/// the level and the font-size factors it is set in when the tree is set at
/// level `l` with the factors `sc`: the parts of a fraction and the scripts
/// add the script scale, a root's degree the script-script scale.
pub open spec fn node_words(n: NodeV, l: ScriptLevel, sc: Seq<Scale>) -> Seq<(Seq<char>, ScriptLevel, Seq<Scale>)>
    decreases n,
{
    match n {
        NodeV::Identifier(name) => seq![(name, l, sc)],
        NodeV::Number(literal) => seq![(literal, l, sc)],
        NodeV::BinaryOp { left, right, .. } => node_words(*left, l, sc) + node_words(*right, l, sc),
        NodeV::Fraction { numerator, denominator } => node_words(*numerator, smaller_level(l), sc.push(Scale::Script))
            + node_words(*denominator, smaller_level(l), sc.push(Scale::Script)),
        NodeV::Superscript { base, superscript } => node_words(*base, l, sc) + node_words(
            *superscript,
            script_size_level(l),
            sc.push(Scale::Script),
        ),
        NodeV::Subscript { base, subscript } => node_words(*base, l, sc) + node_words(
            *subscript,
            script_size_level(l),
            sc.push(Scale::Script),
        ),
        NodeV::Subsuperscript { base, subscript, superscript } => node_words(*base, l, sc)
            + node_words(*superscript, script_size_level(l), sc.push(Scale::Script)) + node_words(
            *subscript,
            script_size_level(l),
            sc.push(Scale::Script),
        ),
        NodeV::Root { degree, radicand } => (match degree {
            Some(d) => node_words(*d, l, sc.push(Scale::ScriptScript)),
            None => Seq::empty(),
        }) + node_words(*radicand, l, sc),
        NodeV::Group(c) => node_words(*c, l, sc),
        _ => Seq::empty(),
    }
}

pub open spec fn opt_plan_words(p: Option<Box<PlanV>>) -> Seq<(Seq<char>, ScriptLevel, Seq<Scale>)>
    decreases p,
{
    match p {
        Some(b) => plan_words(*b),
        None => Seq::empty(),
    }
}

/// The names and numbers of the plan `p` in the same reading order, each
/// with the style (level and factors) of the box that sets it.
pub open spec fn plan_words(p: PlanV) -> Seq<(Seq<char>, ScriptLevel, Seq<Scale>)>
    decreases p,
{
    match p {
        PlanV::Identifier { name, style } => seq![(name, style.script_level, style.scales)],
        PlanV::Number { literal, style } => seq![(literal, style.script_level, style.scales)],
        PlanV::Operation { left, right, .. } => plan_words(*left) + plan_words(*right),
        PlanV::Fraction { numerator, denominator, .. } => plan_words(*numerator) + plan_words(
            *denominator,
        ),
        PlanV::Script { base, superscript, subscript, .. } => plan_words(*base) + opt_plan_words(
            superscript,
        ) + opt_plan_words(subscript),
        PlanV::Radical { radicand, degree, .. } => opt_plan_words(degree) + plan_words(*radicand),
    }
}

/// The plan `p` has the shape of the tree `n`: an identifier or number
/// becomes the box of the same text, an operation the row of its two
/// operands around the operator's sign, a fraction the fraction of its
/// numerator over its denominator, scripts a script box with the same
/// scripts on the same base, a root a radical of the same radicand and
/// degree, and a group the box of its content.
pub open spec fn same_shape(n: NodeV, p: PlanV) -> bool
    decreases n,
{
    match n {
        NodeV::Identifier(name) => p matches PlanV::Identifier { name: m, .. } && m == name,
        NodeV::Number(literal) => p matches PlanV::Number { literal: m, .. } && m == literal,
        NodeV::BinaryOp { op, left, right } => p matches PlanV::Operation {
            left: pl,
            symbol,
            right: pr,
            ..
        } && symbol == operator_char(op) && same_shape(*left, *pl) && same_shape(*right, *pr),
        NodeV::Fraction { numerator, denominator } => p matches PlanV::Fraction {
            numerator: a,
            denominator: b,
            ..
        } && same_shape(*numerator, *a) && same_shape(*denominator, *b),
        NodeV::Superscript { base, superscript } => p matches PlanV::Script {
            base: pb,
            superscript: Some(ps),
            subscript: None,
            ..
        } && same_shape(*base, *pb) && same_shape(*superscript, *ps),
        NodeV::Subscript { base, subscript } => p matches PlanV::Script {
            base: pb,
            superscript: None,
            subscript: Some(pq),
            ..
        } && same_shape(*base, *pb) && same_shape(*subscript, *pq),
        NodeV::Subsuperscript { base, subscript, superscript } => p matches PlanV::Script {
            base: pb,
            superscript: Some(ps),
            subscript: Some(pq),
            ..
        } && same_shape(*base, *pb) && same_shape(*superscript, *ps) && same_shape(
            *subscript,
            *pq,
        ),
        NodeV::Root { degree, radicand } => p matches PlanV::Radical {
            radicand: r,
            degree: pd,
            ..
        } && same_shape(*radicand, *r) && match degree {
            Some(d) => pd matches Some(e) && same_shape(*d, *e),
            None => pd is None,
        },
        NodeV::Group(c) => same_shape(*c, p),
        _ => false,
    }
}

/// A plan keeps the tree it lays out: it has the tree's shape, and it sets
/// the tree's names and numbers in reading order, the parts of a fraction
/// one level smaller and scaled by the script scale, scripts at script size
/// and scaled by the script scale, and a root's degree at the root's own
/// level and scaled by the script-script scale.
pub proof fn law_plan_keeps_the_tree(n: NodeV, st: PlanStyleV)
    ensures
        plan_of(n, st) matches Some(p) ==> same_shape(n, p) && plan_words(p) == node_words(
            n,
            st.script_level,
            st.scales,
        ),
    decreases n,
{
    match n {
        NodeV::BinaryOp { op, left, right } => {
            law_plan_keeps_the_tree(*left, st);
            law_plan_keeps_the_tree(*right, st);
            if let (Some(l), Some(r)) = (plan_of(*left, st), plan_of(*right, st)) {
                let p = PlanV::Operation {
                    left: Box::new(l),
                    symbol: operator_char(op),
                    right: Box::new(r),
                    style: st,
                };
                assert(plan_of(n, st) == Some(p));
                assert(same_shape(n, p));
                assert(plan_words(p) == plan_words(l) + plan_words(r));
                assert(node_words(n, st.script_level, st.scales) == node_words(*left, st.script_level, st.scales)
                    + node_words(*right, st.script_level, st.scales));
                assert(plan_words(p) == node_words(n, st.script_level, st.scales));
            }
        },
        NodeV::Fraction { numerator, denominator } => {
            law_plan_keeps_the_tree(*numerator, fraction_style(st));
            law_plan_keeps_the_tree(*denominator, fraction_style(st));
        },
        NodeV::Superscript { base, superscript } => {
            law_plan_keeps_the_tree(*base, st);
            law_plan_keeps_the_tree(*superscript, script_style(st));
            assert(script_style(st).script_level == script_size_level(st.script_level));
            if let (Some(b), Some(p)) = (plan_of(*base, st), plan_of(*superscript, script_style(st))) {
                assert(opt_plan_words(Some(Box::new(p))) == plan_words(p));
                assert(opt_plan_words(None) == Seq::<(Seq<char>, ScriptLevel, Seq<Scale>)>::empty());
                assert(plan_words(b) + plan_words(p) + Seq::<(Seq<char>, ScriptLevel, Seq<Scale>)>::empty() =~= plan_words(b) + plan_words(p));
            }
        },
        NodeV::Subscript { base, subscript } => {
            law_plan_keeps_the_tree(*base, st);
            law_plan_keeps_the_tree(*subscript, script_style(st));
            assert(script_style(st).script_level == script_size_level(st.script_level));
            if let (Some(b), Some(q)) = (plan_of(*base, st), plan_of(*subscript, script_style(st))) {
                assert(opt_plan_words(Some(Box::new(q))) == plan_words(q));
                assert(opt_plan_words(None) == Seq::<(Seq<char>, ScriptLevel, Seq<Scale>)>::empty());
                assert(plan_words(b) + Seq::<(Seq<char>, ScriptLevel, Seq<Scale>)>::empty() + plan_words(q) =~= plan_words(b) + plan_words(q));
            }
        },
        NodeV::Subsuperscript { base, subscript, superscript } => {
            law_plan_keeps_the_tree(*base, st);
            law_plan_keeps_the_tree(*superscript, script_style(st));
            law_plan_keeps_the_tree(*subscript, script_style(st));
            assert(script_style(st).script_level == script_size_level(st.script_level));
            if let (Some(b), Some(p), Some(q)) = (
                plan_of(*base, st),
                plan_of(*superscript, script_style(st)),
                plan_of(*subscript, script_style(st)),
            ) {
                assert(opt_plan_words(Some(Box::new(p))) == plan_words(p));
                assert(opt_plan_words(Some(Box::new(q))) == plan_words(q));
            }
        },
        NodeV::Root { degree, radicand } => {
            law_plan_keeps_the_tree(*radicand, st);
            if let Some(d) = degree {
                law_plan_keeps_the_tree(*d, degree_style(st));
            }
            assert(degree_style(st).script_level == st.script_level);
            if let Some(r) = plan_of(*radicand, st) {
                match degree {
                    Some(d) => {
                        if let Some(dp) = plan_of(*d, degree_style(st)) {
                            assert(opt_plan_words(Some(Box::new(dp))) == plan_words(dp));
                        }
                    },
                    None => {
                        assert(opt_plan_words(None) == Seq::<(Seq<char>, ScriptLevel, Seq<Scale>)>::empty());
                        assert(Seq::<(Seq<char>, ScriptLevel, Seq<Scale>)>::empty() + plan_words(r) =~= plan_words(r));
                        assert(Seq::<(Seq<char>, ScriptLevel, Seq<Scale>)>::empty() + node_words(*radicand, st.script_level, st.scales) =~= node_words(*radicand, st.script_level, st.scales));
                    },
                }
            }
        },
        NodeV::Group(c) => law_plan_keeps_the_tree(*c, st),
        _ => {},
    }
}

/// The level tables of layout: a fraction's parts are one level smaller
/// (display to text to script to script-script, which stays), and scripts
/// are at script size below display and text, script-script below that.
pub proof fn law_level_tables(l: ScriptLevel)
    ensures
        crate::layout::fraction_level(l) == smaller_level(l),
        crate::layout::attached_script_level(l) == script_size_level(l),
{
}

/// Glyphs are classed by their character alone: `a` to `z` (code points 97
/// to 122) are lowercase, `A` to `Z` (65 to 90) uppercase, everything else
/// other.
pub proof fn law_glyph_classes(c: char)
    ensures
        (crate::layout::glyph_shape_of(c) == GlyphShape::Lowercase) <==> (97 <= (c as u32) <= 122),
        (crate::layout::glyph_shape_of(c) == GlyphShape::Uppercase) <==> (65 <= (c as u32) <= 90),
{
}

} // verus!
