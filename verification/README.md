# typst_math

Typesetting of formulas written in a TeX-like notation (`\frac{1}{2}`,
`x^2_i`, `\sqrt[3]{x}`, `\sum_{n=1}^{N}{n}`).

`src/` is the verified library:

- `lexer`, `token`: the lexer, specified byte by byte (longest match, blanks
  skipped, one rejected character at a time);
- `grammar`: the grammar as spec functions over parser states, with
  `grammar_progress` (the grammar never stalls) and `grammar_laws` (the node
  kinds the parser builds);
- `parser`: the recursive-descent parser, proved equal to the grammar;
- `layout`: the layout plan (which boxes, in which script level and scale),
  the operator glyphs and the glyph shape classes;
- `symbols`, `error`, `render::svg`, `ast`, `text`.

`app/` measures the plan in floating point (with `euclid` rectangles),
writes SVG and holds the command-line program.
