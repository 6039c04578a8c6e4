//! The syntax tree of mathematical documents and expressions.
//!
//! Sizes that the renderer measures in points are kept as the IEEE-754
//! single-precision bit pattern of the value (`*_bits` fields), so that the
//! tree stays a plain value; the layout front end turns them back into numbers.
use vstd::prelude::*;

verus! {

/// A whole document: a list of elements and the page metadata.
#[derive(Debug, Clone)]
pub struct MathDocument {
    pub elements: Vec<MathElement>,
    pub metadata: DocumentMetadata,
}

/// Page metadata; every size is the bit pattern of an `f32` number of points.
#[derive(Debug, Clone, Copy, PartialEq, Eq, Structural)]
pub struct DocumentMetadata {
    pub font_size_bits: u32,
    pub line_height_bits: u32,
    pub page_width_bits: u32,
    pub page_height_bits: u32,
}

#[derive(Debug, Clone)]
pub enum MathElement {
    Equation(Equation),
    DisplayMath(DisplayMath),
    InlineMath(InlineMath),
    Text(TextElement),
}

#[derive(Debug, Clone)]
pub struct Equation {
    pub content: MathExpr,
    pub label: Option<String>,
    pub number: Option<usize>,
}

#[derive(Debug, Clone)]
pub struct DisplayMath {
    pub content: MathExpr,
}

#[derive(Debug, Clone)]
pub struct InlineMath {
    pub content: MathExpr,
}

#[derive(Debug, Clone)]
pub struct TextElement {
    pub content: String,
    pub style: TextStyle,
}

/// An expression: its tree and the style it is typeset in.
#[derive(Debug, Clone)]
pub struct MathExpr {
    pub root: MathNode,
    pub style: MathStyle,
}

/// A node of an expression tree. A number is kept as the decimal literal
/// it was written as (digits, an optional fraction, an optional exponent).
#[derive(Debug)]
pub enum MathNode {
    Identifier(String),
    Number(String),
    Symbol(MathSymbol),
    BinaryOp { op: BinaryOperator, left: Box<MathNode>, right: Box<MathNode> },
    UnaryOp { op: UnaryOperator, operand: Box<MathNode> },
    Group(Box<MathNode>),
    Bracket { left: BracketType, content: Box<MathNode>, right: BracketType },
    Fraction { numerator: Box<MathNode>, denominator: Box<MathNode> },
    Root { degree: Option<Box<MathNode>>, radicand: Box<MathNode> },
    Superscript { base: Box<MathNode>, superscript: Box<MathNode> },
    Subscript { base: Box<MathNode>, subscript: Box<MathNode> },
    Subsuperscript { base: Box<MathNode>, subscript: Box<MathNode>, superscript: Box<MathNode> },
    Sum { lower_limit: Option<Box<MathNode>>, upper_limit: Option<Box<MathNode>>, body: Box<MathNode> },
    Integral {
        lower_limit: Option<Box<MathNode>>,
        upper_limit: Option<Box<MathNode>>,
        body: Box<MathNode>,
        variant: IntegralVariant,
    },
    Matrix { rows: Vec<Vec<MathNode>>, bracket_type: MatrixBracket },
    Function { name: String, argument: Box<MathNode> },
    Accent { base: Box<MathNode>, accent: AccentType },
}

#[derive(Debug, Clone, Copy, PartialEq, Eq, Structural)]
pub enum BinaryOperator {
    Plus,
    Minus,
    Multiply,
    Divide,
    Equal,
    NotEqual,
    Less,
    Greater,
    LessEqual,
    GreaterEqual,
    Dot,
    Cross,
}

#[derive(Debug, Clone, Copy, PartialEq, Eq, Structural)]
pub enum UnaryOperator {
    Plus,
    Minus,
    Factorial,
}

/// A named symbol with its Unicode character.
#[derive(Debug, Clone)]
pub struct MathSymbol {
    pub unicode: char,
    pub name: String,
    pub category: SymbolCategory,
}

#[derive(Debug, Clone, Copy, PartialEq, Eq, Structural)]
pub enum SymbolCategory {
    Letter,
    Operator,
    Relation,
    Punctuation,
    Arrow,
    Miscellaneous,
}

#[derive(Debug, Clone, Copy, PartialEq, Eq, Structural)]
pub enum BracketType {
    Parenthesis,
    Square,
    Curly,
    Angle,
    Vertical,
    DoubleVertical,
}

#[derive(Debug, Clone, Copy, PartialEq, Eq, Structural)]
pub enum IntegralVariant {
    Single,
    Double,
    Triple,
    Contour,
}

#[derive(Debug, Clone, Copy, PartialEq, Eq, Structural)]
pub enum MatrixBracket {
    /// No delimiters.
    NoBracket,
    Parenthesis,
    Square,
    Curly,
    Vertical,
    DoubleVertical,
}

#[derive(Debug, Clone, Copy, PartialEq, Eq, Structural)]
pub enum AccentType {
    Hat,
    Tilde,
    Dot,
    DoubleDot,
    Bar,
    Vector,
}

/// The style an expression is set in; `font_size_bits` is the bit pattern
/// of an `f32` number of points.
#[derive(Debug, Clone, Copy, PartialEq, Eq, Structural)]
pub struct MathStyle {
    pub font_size_bits: u32,
    pub font_family: MathFont,
    pub color: Color,
    pub bold: bool,
    pub italic: bool,
    pub script_level: ScriptLevel,
}

#[derive(Debug, Clone, Copy, PartialEq, Eq, Structural)]
pub enum MathFont {
    Roman,
    Bold,
    Italic,
    BoldItalic,
    Script,
    Fraktur,
    DoubleStruck,
    SansSerif,
}

#[derive(Debug, Clone, Copy, PartialEq, Eq, Structural)]
pub enum ScriptLevel {
    Display,
    Text,
    Script,
    ScriptScript,
}

/// The style of running text; `font_size_bits` is the bit pattern of an
/// `f32` number of points.
#[derive(Debug, Clone)]
pub struct TextStyle {
    pub font_family: String,
    pub font_size_bits: u32,
    pub bold: bool,
    pub italic: bool,
    pub color: Color,
}

#[derive(Debug, Clone, Copy, PartialEq, Eq, Structural)]
pub struct Color {
    pub r: u8,
    pub g: u8,
    pub b: u8,
    pub a: u8,
}

/// The bit pattern of the `f32` value 12.0, the default font size in points.
pub const DEFAULT_FONT_SIZE_BITS: u32 = 0x4140_0000u32;

/// Opaque black.
pub open spec fn default_color() -> Color {
    Color { r: 0, g: 0, b: 0, a: 255 }
}

/// Roman 12pt italic black text-level style: the style every parsed
/// expression carries.
pub open spec fn default_math_style() -> MathStyle {
    MathStyle {
        font_size_bits: DEFAULT_FONT_SIZE_BITS,
        font_family: MathFont::Roman,
        color: default_color(),
        bold: false,
        italic: true,
        script_level: ScriptLevel::Text,
    }
}

impl Default for Color {
    fn default() -> (c: Self)
        ensures
            c == default_color(),
    {
        Color { r: 0, g: 0, b: 0, a: 255 }
    }
}

impl Default for MathStyle {
    fn default() -> (s: Self)
        ensures
            s == default_math_style(),
    {
        MathStyle {
            font_size_bits: DEFAULT_FONT_SIZE_BITS,
            font_family: MathFont::Roman,
            color: Color::default(),
            bold: false,
            italic: true,
            script_level: ScriptLevel::Text,
        }
    }
}

/// The mathematical model of a [`MathSymbol`].
pub struct SymbolV {
    pub unicode: char,
    pub name: Seq<char>,
    pub category: SymbolCategory,
}

impl View for MathSymbol {
    type V = SymbolV;

    open spec fn view(&self) -> SymbolV {
        SymbolV { unicode: self.unicode, name: self.name@, category: self.category }
    }
}

/// The mathematical model of a [`MathNode`]: the same tree with text as
/// sequences of characters.
pub enum NodeV {
    Identifier(Seq<char>),
    Number(Seq<char>),
    Symbol(SymbolV),
    BinaryOp { op: BinaryOperator, left: Box<NodeV>, right: Box<NodeV> },
    UnaryOp { op: UnaryOperator, operand: Box<NodeV> },
    Group(Box<NodeV>),
    Bracket { left: BracketType, content: Box<NodeV>, right: BracketType },
    Fraction { numerator: Box<NodeV>, denominator: Box<NodeV> },
    Root { degree: Option<Box<NodeV>>, radicand: Box<NodeV> },
    Superscript { base: Box<NodeV>, superscript: Box<NodeV> },
    Subscript { base: Box<NodeV>, subscript: Box<NodeV> },
    Subsuperscript { base: Box<NodeV>, subscript: Box<NodeV>, superscript: Box<NodeV> },
    Sum { lower_limit: Option<Box<NodeV>>, upper_limit: Option<Box<NodeV>>, body: Box<NodeV> },
    Integral {
        lower_limit: Option<Box<NodeV>>,
        upper_limit: Option<Box<NodeV>>,
        body: Box<NodeV>,
        variant: IntegralVariant,
    },
    Matrix { rows: Seq<Seq<NodeV>>, bracket_type: MatrixBracket },
    Function { name: Seq<char>, argument: Box<NodeV> },
    Accent { base: Box<NodeV>, accent: AccentType },
}

pub open spec fn opt_node_view(n: Option<Box<MathNode>>) -> Option<Box<NodeV>>
    decreases n,
{
    match n {
        Some(b) => Some(Box::new(node_view(*b))),
        None => None,
    }
}

pub open spec fn row_view(row: Seq<MathNode>) -> Seq<NodeV>
    decreases row,
{
    if row.len() == 0 {
        Seq::empty()
    } else {
        seq![node_view(row[0])] + row_view(row.drop_first())
    }
}

pub open spec fn rows_view(rows: Seq<Vec<MathNode>>) -> Seq<Seq<NodeV>>
    decreases rows,
{
    if rows.len() == 0 {
        Seq::empty()
    } else {
        proof {
            assert(decreases_to!(rows => rows[0]));
            vstd::std_specs::vec::axiom_vec_decreases_to_view(rows[0]);
        }
        seq![row_view(rows[0]@)] + rows_view(rows.drop_first())
    }
}

pub open spec fn node_view(n: MathNode) -> NodeV
    decreases n,
{
    match n {
        MathNode::Identifier(s) => NodeV::Identifier(s@),
        MathNode::Number(s) => NodeV::Number(s@),
        MathNode::Symbol(sym) => NodeV::Symbol(sym@),
        MathNode::BinaryOp { op, left, right } => NodeV::BinaryOp {
            op,
            left: Box::new(node_view(*left)),
            right: Box::new(node_view(*right)),
        },
        MathNode::UnaryOp { op, operand } => NodeV::UnaryOp {
            op,
            operand: Box::new(node_view(*operand)),
        },
        MathNode::Group(c) => NodeV::Group(Box::new(node_view(*c))),
        MathNode::Bracket { left, content, right } => NodeV::Bracket {
            left,
            content: Box::new(node_view(*content)),
            right,
        },
        MathNode::Fraction { numerator, denominator } => NodeV::Fraction {
            numerator: Box::new(node_view(*numerator)),
            denominator: Box::new(node_view(*denominator)),
        },
        MathNode::Root { degree, radicand } => NodeV::Root {
            degree: opt_node_view(degree),
            radicand: Box::new(node_view(*radicand)),
        },
        MathNode::Superscript { base, superscript } => NodeV::Superscript {
            base: Box::new(node_view(*base)),
            superscript: Box::new(node_view(*superscript)),
        },
        MathNode::Subscript { base, subscript } => NodeV::Subscript {
            base: Box::new(node_view(*base)),
            subscript: Box::new(node_view(*subscript)),
        },
        MathNode::Subsuperscript { base, subscript, superscript } => NodeV::Subsuperscript {
            base: Box::new(node_view(*base)),
            subscript: Box::new(node_view(*subscript)),
            superscript: Box::new(node_view(*superscript)),
        },
        MathNode::Sum { lower_limit, upper_limit, body } => NodeV::Sum {
            lower_limit: opt_node_view(lower_limit),
            upper_limit: opt_node_view(upper_limit),
            body: Box::new(node_view(*body)),
        },
        MathNode::Integral { lower_limit, upper_limit, body, variant } => NodeV::Integral {
            lower_limit: opt_node_view(lower_limit),
            upper_limit: opt_node_view(upper_limit),
            body: Box::new(node_view(*body)),
            variant,
        },
        MathNode::Matrix { rows, bracket_type } => {
            proof {
                vstd::std_specs::vec::axiom_vec_decreases_to_view(rows);
            }
            NodeV::Matrix { rows: rows_view(rows@), bracket_type }
        },
        MathNode::Function { name, argument } => NodeV::Function {
            name: name@,
            argument: Box::new(node_view(*argument)),
        },
        MathNode::Accent { base, accent } => NodeV::Accent {
            base: Box::new(node_view(*base)),
            accent,
        },
    }
}

fn clone_opt_node(n: &Option<Box<MathNode>>) -> (r: Option<Box<MathNode>>)
    ensures
        opt_node_view(r) == opt_node_view(*n),
    decreases n,
{
    match n {
        Some(b) => Some(Box::new(clone_node(b))),
        None => None,
    }
}

fn clone_row(row: &Vec<MathNode>) -> (r: Vec<MathNode>)
    ensures
        row_view(r@) == row_view(row@),
    decreases row,
{
    let mut out: Vec<MathNode> = Vec::new();
    let mut i: usize = 0;
    while i < row.len()
        invariant
            i <= row.len(),
            out@.len() == i,
            forall|k: int| 0 <= k < i ==> node_view(#[trigger] out@[k]) == node_view(row@[k]),
        decreases row.len() - i,
    {
        proof {
            assert(decreases_to!(row => row@));
        }
        let c = clone_node(&row[i]);
        out.push(c);
        i = i + 1;
    }
    proof {
        lemma_row_view_pointwise(out@, row@);
    }
    out
}

proof fn lemma_row_view_pointwise(a: Seq<MathNode>, b: Seq<MathNode>)
    requires
        a.len() == b.len(),
        forall|k: int| 0 <= k < a.len() ==> node_view(#[trigger] a[k]) == node_view(b[k]),
    ensures
        row_view(a) == row_view(b),
    decreases a.len(),
{
    if a.len() > 0 {
        assert forall|k: int| 0 <= k < a.drop_first().len() implies node_view(
            #[trigger] a.drop_first()[k],
        ) == node_view(b.drop_first()[k]) by {
            assert(a.drop_first()[k] == a[k + 1]);
            assert(b.drop_first()[k] == b[k + 1]);
        }
        lemma_row_view_pointwise(a.drop_first(), b.drop_first());
    }
}

proof fn lemma_rows_view_pointwise(a: Seq<Vec<MathNode>>, b: Seq<Vec<MathNode>>)
    requires
        a.len() == b.len(),
        forall|k: int| 0 <= k < a.len() ==> row_view(#[trigger] a[k]@) == row_view(b[k]@),
    ensures
        rows_view(a) == rows_view(b),
    decreases a.len(),
{
    if a.len() > 0 {
        assert forall|k: int| 0 <= k < a.drop_first().len() implies row_view(
            #[trigger] a.drop_first()[k]@,
        ) == row_view(b.drop_first()[k]@) by {
            assert(a.drop_first()[k] == a[k + 1]);
            assert(b.drop_first()[k] == b[k + 1]);
        }
        lemma_rows_view_pointwise(a.drop_first(), b.drop_first());
    }
}

fn clone_rows(rows: &Vec<Vec<MathNode>>) -> (r: Vec<Vec<MathNode>>)
    ensures
        rows_view(r@) == rows_view(rows@),
    decreases rows,
{
    let mut out: Vec<Vec<MathNode>> = Vec::new();
    let mut i: usize = 0;
    while i < rows.len()
        invariant
            i <= rows.len(),
            out@.len() == i,
            forall|k: int| 0 <= k < i ==> row_view((#[trigger] out@[k])@) == row_view(rows@[k]@),
        decreases rows.len() - i,
    {
        proof {
            assert(decreases_to!(rows => rows@));
        }
        let c = clone_row(&rows[i]);
        out.push(c);
        i = i + 1;
    }
    proof {
        lemma_rows_view_pointwise(out@, rows@);
    }
    out
}

/// A deep copy of a node: the copy has the same model.
pub fn clone_node(n: &MathNode) -> (r: MathNode)
    ensures
        r@ == n@,
    decreases n,
{
    match n {
        MathNode::Identifier(s) => MathNode::Identifier(s.clone()),
        MathNode::Number(s) => MathNode::Number(s.clone()),
        MathNode::Symbol(sym) => MathNode::Symbol(MathSymbol {
            unicode: sym.unicode,
            name: sym.name.clone(),
            category: sym.category,
        }),
        MathNode::BinaryOp { op, left, right } => MathNode::BinaryOp {
            op: *op,
            left: Box::new(clone_node(left)),
            right: Box::new(clone_node(right)),
        },
        MathNode::UnaryOp { op, operand } => MathNode::UnaryOp {
            op: *op,
            operand: Box::new(clone_node(operand)),
        },
        MathNode::Group(c) => MathNode::Group(Box::new(clone_node(c))),
        MathNode::Bracket { left, content, right } => MathNode::Bracket {
            left: *left,
            content: Box::new(clone_node(content)),
            right: *right,
        },
        MathNode::Fraction { numerator, denominator } => MathNode::Fraction {
            numerator: Box::new(clone_node(numerator)),
            denominator: Box::new(clone_node(denominator)),
        },
        MathNode::Root { degree, radicand } => MathNode::Root {
            degree: clone_opt_node(degree),
            radicand: Box::new(clone_node(radicand)),
        },
        MathNode::Superscript { base, superscript } => MathNode::Superscript {
            base: Box::new(clone_node(base)),
            superscript: Box::new(clone_node(superscript)),
        },
        MathNode::Subscript { base, subscript } => MathNode::Subscript {
            base: Box::new(clone_node(base)),
            subscript: Box::new(clone_node(subscript)),
        },
        MathNode::Subsuperscript { base, subscript, superscript } => MathNode::Subsuperscript {
            base: Box::new(clone_node(base)),
            subscript: Box::new(clone_node(subscript)),
            superscript: Box::new(clone_node(superscript)),
        },
        MathNode::Sum { lower_limit, upper_limit, body } => MathNode::Sum {
            lower_limit: clone_opt_node(lower_limit),
            upper_limit: clone_opt_node(upper_limit),
            body: Box::new(clone_node(body)),
        },
        MathNode::Integral { lower_limit, upper_limit, body, variant } => MathNode::Integral {
            lower_limit: clone_opt_node(lower_limit),
            upper_limit: clone_opt_node(upper_limit),
            body: Box::new(clone_node(body)),
            variant: *variant,
        },
        MathNode::Matrix { rows, bracket_type } => MathNode::Matrix {
            rows: clone_rows(rows),
            bracket_type: *bracket_type,
        },
        MathNode::Function { name, argument } => MathNode::Function {
            name: name.clone(),
            argument: Box::new(clone_node(argument)),
        },
        MathNode::Accent { base, accent } => MathNode::Accent {
            base: Box::new(clone_node(base)),
            accent: *accent,
        },
    }
}

impl Clone for MathNode {
    fn clone(&self) -> (r: Self)
        ensures
            r@ == self@,
    {
        clone_node(self)
    }
}

impl View for MathNode {
    type V = NodeV;

    open spec fn view(&self) -> NodeV {
        node_view(*self)
    }
}

} // verus!
