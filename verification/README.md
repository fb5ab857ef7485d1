# minizinc_model

A verified library that reads MiniZinc programs into an abstract model and
renders models back as MiniZinc text.

- Source text is parsed with tree-sitter (for a MiniZinc grammar supplied by the
  caller) into a concrete syntax tree of plain values (`cst::SyntaxNode`).
- `visit::visit_source_file` reads that tree into a `model::Model`: declarations,
  constraints and the goal (minimising `e` is stated as maximising `-e`).
- `Model::fmt` and the `fmt` methods of the other types render the text.
- `check` decides beforehand whether a tree can be read and a model rendered.
- `warning::source_warnings` lists, in reading order, what reading a tree
  passes over (unknown items, types and expressions, conditionals without
  three parts); `app/` prints them.

Reading the tree, rendering, merging generators and the checks state their
results over a mathematical model of the data (`model::ExprV` and the other
`...V` types, the `spec` functions of `visit` and `display`), and Verus proves
the code against it. Parsing (`source`) states what tree-sitter's own code
shows: which grammar versions it accepts, and that the text of every node of
the tree read is the UTF-8 text of the source between the node's byte offsets;
the shape of the tree that a grammar gives is tree-sitter's and is not stated.

Laws that tie the parts together are proof functions: merging generators
(`generator`), reading back a rendered integer (`text::lemma_decimal_roundtrip`),
the text of a generator (`display::lemma_gen_str_clauses`), top-level comments
and output items leaving a model unchanged
(`visit::lemma_comment_or_output_ignored`), and rendering a model read from a
tree (`visit_display::lemma_visited_model_printable`).

`app/main.rs` reads `test.mzn`, prints what reading it passes over, reads it
into a model and prints it.
