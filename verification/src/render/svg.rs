//! The state of the SVG writer: the text written so far and the current
//! indentation depth. Lines are written at the depth of the box being
//! drawn, two spaces per level; the numbers inside the lines are formatted
//! by the caller.
use vstd::prelude::*;
use crate::text::string_push;

verus! {

/// `n` spaces.
pub open spec fn spaces(n: nat) -> Seq<char> {
    Seq::new(n, |i: int| ' ')
}

/// The model of an [`SvgRenderer`]: its output and indentation depth.
pub struct RendererV {
    pub output: Seq<char>,
    pub indent_level: nat,
}

/// Writes SVG text line by line, indented by depth.
pub struct SvgRenderer {
    output: String,
    indent_level: usize,
}

impl View for SvgRenderer {
    type V = RendererV;

    closed spec fn view(&self) -> RendererV {
        RendererV { output: self.output@, indent_level: self.indent_level as nat }
    }
}

impl SvgRenderer {
    /// A renderer with nothing written, at depth 0.
    pub fn new() -> (r: Self)
        ensures
            r@ == (RendererV { output: Seq::empty(), indent_level: 0 }),
    {
        SvgRenderer { output: String::new(), indent_level: 0 }
    }

    /// Drops what was written; the depth stays.
    pub fn clear(&mut self)
        ensures
            final(self)@ == (RendererV { output: Seq::empty(), ..old(self)@ }),
    {
        self.output = String::new();
    }

    /// The indentation of the current depth: two spaces per level.
    pub fn indent(&self) -> (r: String)
        requires
            2 * self@.indent_level <= usize::MAX,
        ensures
            r@ == spaces(2 * self@.indent_level),
    {
        let n = 2 * self.indent_level;
        let mut r = String::new();
        let mut i: usize = 0;
        while i < n
            invariant
                i <= n,
                r@ == spaces(i as nat),
            decreases n - i,
        {
            string_push(&mut r, ' ');
            i = i + 1;
            assert(r@ =~= spaces(i as nat));
        }
        r
    }

    /// Writes `indent`, then `text`, then a line feed.
    pub fn write_line(&mut self, indent: &str, text: &str)
        ensures
            final(self)@ == (RendererV {
                output: old(self)@.output + indent@ + text@ + seq!['\n'],
                ..old(self)@
            }),
    {
        self.output.append(indent);
        self.output.append(text);
        string_push(&mut self.output, '\n');
        assert(self.output@ =~= old(self)@.output + indent@ + text@ + seq!['\n']);
    }

    /// One level deeper.
    pub fn enter(&mut self)
        requires
            old(self)@.indent_level < usize::MAX,
        ensures
            final(self)@ == (RendererV {
                indent_level: old(self)@.indent_level + 1,
                ..old(self)@
            }),
    {
        self.indent_level = self.indent_level + 1;
    }

    /// One level shallower.
    pub fn leave(&mut self)
        requires
            old(self)@.indent_level > 0,
        ensures
            final(self)@ == (RendererV {
                indent_level: (old(self)@.indent_level - 1) as nat,
                ..old(self)@
            }),
    {
        self.indent_level = self.indent_level - 1;
    }

    /// The current depth.
    pub fn indent_level(&self) -> (r: usize)
        ensures
            r == self@.indent_level,
    {
        self.indent_level
    }

    /// A copy of everything written so far.
    pub fn output(&self) -> (r: String)
        ensures
            r@ == self@.output,
    {
        self.output.clone()
    }
}

} // verus!
