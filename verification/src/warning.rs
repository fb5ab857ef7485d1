//! What reading a concrete syntax tree into a model passes over and reports:
//! unknown items, types and expressions, and conditionals without three
//! parts. Each reading step reports in the order in which it reads the tree.
use vstd::prelude::*;
use crate::cst::{SyntaxNode, has_field, named_count, named_pos, field_pos};
use crate::text::text_eq;

verus! {

/// Something that reading a tree passes over, with what identifies it.
#[derive(PartialEq, Eq, Debug)]
pub enum Warning {
    /// A top-level named item of a kind that a model has no place for.
    UnsolvedItem { kind: String },
    /// A type node of an unknown kind, read as `var int`.
    UnknownType { kind: String },
    /// A primitive type other than `int` and `bool`, read as `int`.
    UnknownBasicType { text: String },
    /// A base type node of an unknown kind, read as `int`.
    UnknownBaseType { kind: String },
    /// A conditional without exactly three named parts, read as `0`.
    IfThenElseArity,
    /// An expression node of an unknown kind, read as `0`, with the rows and
    /// columns where it starts and ends.
    UnknownExpr { kind: String, start: (usize, usize), end: (usize, usize) },
}

pub enum WarningV {
    UnsolvedItem(Seq<char>),
    UnknownType(Seq<char>),
    UnknownBasicType(Seq<char>),
    UnknownBaseType(Seq<char>),
    IfThenElseArity,
    UnknownExpr(Seq<char>, (usize, usize), (usize, usize)),
}

impl View for Warning {
    type V = WarningV;

    open spec fn view(&self) -> WarningV {
        match self {
            Warning::UnsolvedItem { kind } => WarningV::UnsolvedItem(kind@),
            Warning::UnknownType { kind } => WarningV::UnknownType(kind@),
            Warning::UnknownBasicType { text } => WarningV::UnknownBasicType(text@),
            Warning::UnknownBaseType { kind } => WarningV::UnknownBaseType(kind@),
            Warning::IfThenElseArity => WarningV::IfThenElseArity,
            Warning::UnknownExpr { kind, start, end } => WarningV::UnknownExpr(kind@, *start, *end),
        }
    }
}

/// The views of a sequence of warnings.
pub open spec fn warnings_view(ws: Seq<Warning>) -> Seq<WarningV> {
    ws.map_values(|w: Warning| w@)
}

// ---------------------------------------------------------------------------
// What reading expressions and generators reports
// ---------------------------------------------------------------------------

/// What reading an expression node reports, in reading order.
pub open spec fn expr_warnings(n: SyntaxNode) -> Seq<WarningV>
    decreases n,
{
    let cs = n.children@;
    if n.kind@ == "integer_literal"@ || n.kind@ == "true"@ || n.kind@ == "false"@ || n.kind@
        == "identifier"@ {
        Seq::empty()
    } else if n.kind@ == "if_then_else"@ {
        if named_count(cs) != 3 {
            seq![WarningV::IfThenElseArity]
        } else {
            expr_warnings_at(cs, named_pos(cs, 0)) + expr_warnings_at(cs, named_pos(cs, 1))
                + expr_warnings_at(cs, named_pos(cs, 2))
        }
    } else if n.kind@ == "call"@ {
        args_warnings(cs, "arguments"@)
    } else if n.kind@ == "generator_call"@ {
        gens_warnings(cs, "generators"@) + expr_warnings_at(cs, field_pos(cs, "template"@))
    } else if n.kind@ == "infix_operator"@ {
        expr_warnings_at(cs, field_pos(cs, "left"@)) + expr_warnings_at(
            cs,
            field_pos(cs, "right"@),
        )
    } else if n.kind@ == "prefix_operator"@ {
        expr_warnings_at(cs, 1)
    } else if n.kind@ == "array_comprehension"@ {
        expr_warnings_at(cs, named_pos(cs, 0)) + comp_gens_warnings(cs)
    } else if n.kind@ == "indexed_access"@ {
        expr_warnings_at(cs, field_pos(cs, "collection"@)) + args_warnings(cs, "indices"@)
    } else if n.kind@ == "parenthesised_expression"@ {
        expr_warnings_at(cs, named_pos(cs, 0))
    } else {
        seq![WarningV::UnknownExpr(n.kind@, n.start_point, n.end_point)]
    }
}

/// What reading `cs[j]` as an expression reports (nothing when there is no
/// such node).
pub open spec fn expr_warnings_at(cs: Seq<SyntaxNode>, j: int) -> Seq<WarningV>
    decreases cs,
{
    if 0 <= j < cs.len() {
        expr_warnings(cs[j])
    } else {
        Seq::empty()
    }
}

/// What reading the nodes of `cs` held under the field `f`, but `,` tokens,
/// reports.
pub open spec fn args_warnings(cs: Seq<SyntaxNode>, f: Seq<char>) -> Seq<WarningV>
    decreases cs,
{
    if cs.len() == 0 {
        Seq::empty()
    } else {
        let c = cs.last();
        if has_field(c, f) && c.kind@ != ","@ {
            args_warnings(cs.drop_last(), f) + expr_warnings(c)
        } else {
            args_warnings(cs.drop_last(), f)
        }
    }
}

/// What reading the generators of the nodes of `cs` held under the field
/// `f`, but `,` tokens, reports.
pub open spec fn gens_warnings(cs: Seq<SyntaxNode>, f: Seq<char>) -> Seq<WarningV>
    decreases cs,
{
    if cs.len() == 0 {
        Seq::empty()
    } else {
        let c = cs.last();
        if has_field(c, f) && c.kind@ != ","@ {
            gens_warnings(cs.drop_last(), f) + gen_warnings(c)
        } else {
            gens_warnings(cs.drop_last(), f)
        }
    }
}

/// What reading the generators of the named nodes of `cs` after the first
/// one reports.
pub open spec fn comp_gens_warnings(cs: Seq<SyntaxNode>) -> Seq<WarningV>
    decreases cs,
{
    if cs.len() == 0 {
        Seq::empty()
    } else {
        let c = cs.last();
        if c.named && named_count(cs.drop_last()) >= 1 {
            comp_gens_warnings(cs.drop_last()) + gen_warnings(c)
        } else {
            comp_gens_warnings(cs.drop_last())
        }
    }
}

/// What reading a generator node reports: what its expressions report, in
/// order (an identifier, `in` and `where` are no expressions).
pub open spec fn gen_warnings(n: SyntaxNode) -> Seq<WarningV>
    decreases n,
{
    gen_walk_warnings(n.children@)
}

pub open spec fn gen_walk_warnings(cs: Seq<SyntaxNode>) -> Seq<WarningV>
    decreases cs,
{
    if cs.len() == 0 {
        Seq::empty()
    } else {
        let c = cs.last();
        if c.kind@ == "identifier"@ || c.kind@ == "in"@ || c.kind@ == "where"@ {
            gen_walk_warnings(cs.drop_last())
        } else {
            gen_walk_warnings(cs.drop_last()) + expr_warnings(c)
        }
    }
}

/// Adds one warning at the end.
fn push_warning(out: &mut Vec<Warning>, w: Warning)
    ensures
        warnings_view(final(out)@) == warnings_view(old(out)@) + seq![w@],
{
    let ghost wv = w@;
    out.push(w);
    assert(warnings_view(out@) =~= warnings_view(old(out)@) + seq![wv]);
}

/// Adds what reading an expression node reports.
fn expr_warnings_into(node: &SyntaxNode, out: &mut Vec<Warning>)
    ensures
        warnings_view(final(out)@) == warnings_view(old(out)@) + expr_warnings(*node),
    decreases node,
{
    let ghost cs = node.children@;
    let ghost start = warnings_view(out@);
    if node.is_kind("integer_literal") || node.is_kind("true") || node.is_kind("false")
        || node.is_kind("identifier") {
        assert(start + expr_warnings(*node) =~= start);
    } else if node.is_kind("if_then_else") {
        if node.named_child_count() != 3 {
            push_warning(out, Warning::IfThenElseArity);
        } else {
            proof {
                crate::cst::lemma_named_pos(cs, 0);
                crate::cst::lemma_named_pos(cs, 1);
                crate::cst::lemma_named_pos(cs, 2);
            }
            expr_warnings_into(node.named_child(0).unwrap(), out);
            expr_warnings_into(node.named_child(1).unwrap(), out);
            expr_warnings_into(node.named_child(2).unwrap(), out);
            assert(warnings_view(out@) =~= start + expr_warnings(*node));
        }
    } else if node.is_kind("call") {
        args_warnings_into(&node.children, "arguments", out);
    } else if node.is_kind("generator_call") {
        gens_warnings_into(&node.children, "generators", out);
        match node.child_by_field_name("template") {
            Some(c) => expr_warnings_into(c, out),
            None => {},
        }
        assert(warnings_view(out@) =~= start + expr_warnings(*node));
    } else if node.is_kind("infix_operator") {
        match node.child_by_field_name("left") {
            Some(c) => expr_warnings_into(c, out),
            None => {},
        }
        match node.child_by_field_name("right") {
            Some(c) => expr_warnings_into(c, out),
            None => {},
        }
        assert(warnings_view(out@) =~= start + expr_warnings(*node));
    } else if node.is_kind("prefix_operator") {
        match node.child(1) {
            Some(c) => expr_warnings_into(c, out),
            None => {},
        }
    } else if node.is_kind("array_comprehension") {
        match node.named_child(0) {
            Some(c) => expr_warnings_into(c, out),
            None => {},
        }
        comp_gens_warnings_into(&node.children, out);
        assert(warnings_view(out@) =~= start + expr_warnings(*node));
    } else if node.is_kind("indexed_access") {
        match node.child_by_field_name("collection") {
            Some(c) => expr_warnings_into(c, out),
            None => {},
        }
        args_warnings_into(&node.children, "indices", out);
        assert(warnings_view(out@) =~= start + expr_warnings(*node));
    } else if node.is_kind("parenthesised_expression") {
        match node.named_child(0) {
            Some(c) => expr_warnings_into(c, out),
            None => {},
        }
    } else {
        let w = Warning::UnknownExpr {
            kind: node.kind.clone(),
            start: node.start_point,
            end: node.end_point,
        };
        push_warning(out, w);
    }
}


/// Adds what reading the children held under the field `f`, but `,` tokens,
/// reports.
fn args_warnings_into(cs: &Vec<SyntaxNode>, f: &str, out: &mut Vec<Warning>)
    ensures
        warnings_view(final(out)@) == warnings_view(old(out)@) + args_warnings(cs@, f@),
    decreases cs,
{
    let ghost start = warnings_view(out@);
    let mut i: usize = 0;
    while i < cs.len()
        invariant
            0 <= i <= cs@.len(),
            warnings_view(out@) == start + args_warnings(cs@.take(i as int), f@),
        decreases cs@.len() - i,
    {
        assert(cs@.take(i + 1).drop_last() =~= cs@.take(i as int));
        assert(cs@.take(i + 1).last() == cs@[i as int]);
        let child = &cs[i];
        if child.has_field(f) && !child.is_kind(",") {
            expr_warnings_into(child, out);
            assert(warnings_view(out@) =~= start + args_warnings(cs@.take(i + 1), f@));
        }
        i = i + 1;
    }
    assert(cs@.take(cs@.len() as int) =~= cs@);
}

/// Adds what reading the generators of the children held under the field
/// `f`, but `,` tokens, reports.
fn gens_warnings_into(cs: &Vec<SyntaxNode>, f: &str, out: &mut Vec<Warning>)
    ensures
        warnings_view(final(out)@) == warnings_view(old(out)@) + gens_warnings(cs@, f@),
    decreases cs,
{
    let ghost start = warnings_view(out@);
    let mut i: usize = 0;
    while i < cs.len()
        invariant
            0 <= i <= cs@.len(),
            warnings_view(out@) == start + gens_warnings(cs@.take(i as int), f@),
        decreases cs@.len() - i,
    {
        assert(cs@.take(i + 1).drop_last() =~= cs@.take(i as int));
        assert(cs@.take(i + 1).last() == cs@[i as int]);
        let child = &cs[i];
        if child.has_field(f) && !child.is_kind(",") {
            gen_warnings_into(child, out);
            assert(warnings_view(out@) =~= start + gens_warnings(cs@.take(i + 1), f@));
        }
        i = i + 1;
    }
    assert(cs@.take(cs@.len() as int) =~= cs@);
}

/// Adds what reading the generators of the named children after the first
/// one reports.
fn comp_gens_warnings_into(cs: &Vec<SyntaxNode>, out: &mut Vec<Warning>)
    ensures
        warnings_view(final(out)@) == warnings_view(old(out)@) + comp_gens_warnings(cs@),
    decreases cs,
{
    let ghost start = warnings_view(out@);
    let mut seen: usize = 0;
    let mut i: usize = 0;
    while i < cs.len()
        invariant
            0 <= i <= cs@.len(),
            seen == named_count(cs@.take(i as int)),
            seen <= i,
            warnings_view(out@) == start + comp_gens_warnings(cs@.take(i as int)),
        decreases cs@.len() - i,
    {
        assert(cs@.take(i + 1).drop_last() =~= cs@.take(i as int));
        assert(cs@.take(i + 1).last() == cs@[i as int]);
        let child = &cs[i];
        if child.named {
            if seen >= 1 {
                gen_warnings_into(child, out);
                assert(warnings_view(out@) =~= start + comp_gens_warnings(cs@.take(i + 1)));
            }
            seen = seen + 1;
        }
        i = i + 1;
    }
    assert(cs@.take(cs@.len() as int) =~= cs@);
}

/// Adds what reading a generator node reports.
fn gen_warnings_into(node: &SyntaxNode, out: &mut Vec<Warning>)
    ensures
        warnings_view(final(out)@) == warnings_view(old(out)@) + gen_warnings(*node),
    decreases node,
{
    let cs = &node.children;
    let ghost start = warnings_view(out@);
    let mut i: usize = 0;
    while i < cs.len()
        invariant
            0 <= i <= cs@.len(),
            cs == &node.children,
            warnings_view(out@) == start + gen_walk_warnings(cs@.take(i as int)),
        decreases cs@.len() - i,
    {
        assert(cs@.take(i + 1).drop_last() =~= cs@.take(i as int));
        assert(cs@.take(i + 1).last() == cs@[i as int]);
        let child = &cs[i];
        if !(child.is_kind("identifier") || child.is_kind("in") || child.is_kind("where")) {
            expr_warnings_into(child, out);
            assert(warnings_view(out@) =~= start + gen_walk_warnings(cs@.take(i + 1)));
        }
        i = i + 1;
    }
    assert(cs@.take(cs@.len() as int) =~= cs@);
}

// ---------------------------------------------------------------------------
// What reading types, declarations, goals and whole programs reports
// ---------------------------------------------------------------------------

/// What reading a base type node reports: a primitive type other than `int`
/// and `bool` by its text, what the bounds of a range report, and any other
/// kind of node by its kind.
pub open spec fn base_warnings(n: SyntaxNode) -> Seq<WarningV> {
    let cs = n.children@;
    if n.kind@ == "primitive_type"@ {
        if n.text@ == "int"@ || n.text@ == "bool"@ {
            Seq::empty()
        } else {
            seq![WarningV::UnknownBasicType(n.text@)]
        }
    } else if n.kind@ == "infix_operator"@ {
        expr_warnings_at(cs, field_pos(cs, "left"@)) + expr_warnings_at(
            cs,
            field_pos(cs, "right"@),
        )
    } else {
        seq![WarningV::UnknownBaseType(n.kind@)]
    }
}

/// What reading a type node reports: a base type what its first named child
/// reports, an array type what its named children report in order, and any
/// other kind of node its kind.
pub open spec fn type_warnings(n: SyntaxNode) -> Seq<WarningV>
    decreases n,
{
    let cs = n.children@;
    if n.kind@ == "type_base"@ {
        if 0 <= named_pos(cs, 0) < cs.len() {
            base_warnings(cs[named_pos(cs, 0)])
        } else {
            Seq::empty()
        }
    } else if n.kind@ == "array_type"@ {
        named_types_warnings(cs)
    } else {
        seq![WarningV::UnknownType(n.kind@)]
    }
}

/// What reading the named nodes of `cs` as types reports, in order.
pub open spec fn named_types_warnings(cs: Seq<SyntaxNode>) -> Seq<WarningV>
    decreases cs,
{
    if cs.len() == 0 {
        Seq::empty()
    } else {
        let c = cs.last();
        if c.named {
            named_types_warnings(cs.drop_last()) + type_warnings(c)
        } else {
            named_types_warnings(cs.drop_last())
        }
    }
}

/// What reading a declaration node reports: what its type reports.
pub open spec fn decl_warnings(n: SyntaxNode) -> Seq<WarningV> {
    let cs = n.children@;
    let j = field_pos(cs, "type"@);
    if 0 <= j < cs.len() {
        type_warnings(cs[j])
    } else {
        Seq::empty()
    }
}

/// What reading the children of a goal node reports: what its objective
/// reports, the first node other than `solve`, `maximize` and `minimize`,
/// unless that is `satisfy`.
pub open spec fn task_walk_warnings(cs: Seq<SyntaxNode>) -> Seq<WarningV>
    decreases cs.len(),
{
    if cs.len() == 0 {
        Seq::empty()
    } else {
        let c = cs[0];
        if c.kind@ == "solve"@ || c.kind@ == "maximize"@ || c.kind@ == "minimize"@ {
            task_walk_warnings(cs.drop_first())
        } else if c.kind@ == "satisfy"@ {
            Seq::empty()
        } else {
            expr_warnings(c)
        }
    }
}

/// What reading the top-level items `cs` of a source file reports, in order:
/// what declarations, constraints and goals report, nothing for comments and
/// output items, and the kind of any other named item.
pub open spec fn source_walk_warnings(cs: Seq<SyntaxNode>) -> Seq<WarningV>
    decreases cs.len(),
{
    if cs.len() == 0 {
        Seq::empty()
    } else {
        let c = cs.last();
        source_walk_warnings(cs.drop_last()) + if c.kind@ == "declaration"@ {
            decl_warnings(c)
        } else if c.kind@ == "constraint"@ {
            expr_warnings_at(c.children@, 1)
        } else if c.kind@ == "goal"@ {
            task_walk_warnings(c.children@)
        } else if c.kind@ == "line_comment"@ || c.kind@ == "output"@ {
            Seq::empty()
        } else if c.named {
            seq![WarningV::UnsolvedItem(c.kind@)]
        } else {
            Seq::empty()
        }
    }
}

/// What reading a source file node reports.
pub open spec fn source_file_warnings(n: SyntaxNode) -> Seq<WarningV> {
    source_walk_warnings(n.children@)
}

/// Adds what reading a base type node reports.
fn base_warnings_into(node: &SyntaxNode, out: &mut Vec<Warning>)
    ensures
        warnings_view(final(out)@) == warnings_view(old(out)@) + base_warnings(*node),
{
    let ghost start = warnings_view(out@);
    if node.is_kind("primitive_type") {
        if text_eq(&node.text, "int") || text_eq(&node.text, "bool") {
            assert(start + base_warnings(*node) =~= start);
        } else {
            push_warning(out, Warning::UnknownBasicType { text: node.text.clone() });
        }
    } else if node.is_kind("infix_operator") {
        match node.child_by_field_name("left") {
            Some(c) => expr_warnings_into(c, out),
            None => {},
        }
        match node.child_by_field_name("right") {
            Some(c) => expr_warnings_into(c, out),
            None => {},
        }
        assert(warnings_view(out@) =~= start + base_warnings(*node));
    } else {
        push_warning(out, Warning::UnknownBaseType { kind: node.kind.clone() });
    }
}

/// Adds what reading a type node reports.
fn type_warnings_into(node: &SyntaxNode, out: &mut Vec<Warning>)
    ensures
        warnings_view(final(out)@) == warnings_view(old(out)@) + type_warnings(*node),
    decreases node,
{
    let ghost start = warnings_view(out@);
    if node.is_kind("type_base") {
        match node.named_child(0) {
            Some(c) => base_warnings_into(c, out),
            None => {
                assert(start + type_warnings(*node) =~= start);
            },
        }
    } else if node.is_kind("array_type") {
        named_types_warnings_into(&node.children, out);
    } else {
        push_warning(out, Warning::UnknownType { kind: node.kind.clone() });
    }
}

/// Adds what reading the named children as types reports.
fn named_types_warnings_into(cs: &Vec<SyntaxNode>, out: &mut Vec<Warning>)
    ensures
        warnings_view(final(out)@) == warnings_view(old(out)@) + named_types_warnings(cs@),
    decreases cs,
{
    let ghost start = warnings_view(out@);
    let mut i: usize = 0;
    while i < cs.len()
        invariant
            0 <= i <= cs@.len(),
            warnings_view(out@) == start + named_types_warnings(cs@.take(i as int)),
        decreases cs@.len() - i,
    {
        assert(cs@.take(i + 1).drop_last() =~= cs@.take(i as int));
        assert(cs@.take(i + 1).last() == cs@[i as int]);
        let child = &cs[i];
        if child.named {
            type_warnings_into(child, out);
            assert(warnings_view(out@) =~= start + named_types_warnings(cs@.take(i + 1)));
        }
        i = i + 1;
    }
    assert(cs@.take(cs@.len() as int) =~= cs@);
}

/// Adds what reading a goal node reports.
fn task_warnings_into(node: &SyntaxNode, out: &mut Vec<Warning>)
    ensures
        warnings_view(final(out)@) == warnings_view(old(out)@) + task_walk_warnings(
            node.children@,
        ),
{
    let ghost cs = node.children@;
    let ghost start = warnings_view(out@);
    let mut i: usize = 0;
    assert(cs.skip(0) =~= cs);
    while i < node.children.len()
        invariant
            0 <= i <= cs.len(),
            cs == node.children@,
            warnings_view(out@) == start,
            start == warnings_view(old(out)@),
            task_walk_warnings(cs) == task_walk_warnings(cs.skip(i as int)),
        decreases cs.len() - i,
    {
        assert(cs.skip(i as int).drop_first() =~= cs.skip(i + 1));
        assert(cs.skip(i as int)[0] == cs[i as int]);
        let child = &node.children[i];
        if child.is_kind("solve") || child.is_kind("maximize") || child.is_kind("minimize") {
        } else if child.is_kind("satisfy") {
            assert(start + task_walk_warnings(cs) =~= start);
            return;
        } else {
            expr_warnings_into(child, out);
            return;
        }
        i = i + 1;
    }
    assert(cs.skip(cs.len() as int).len() == 0);
    assert(start + task_walk_warnings(cs) =~= start);
}

/// What reading a source file node into a model reports, in the order in
/// which reading comes upon it.
pub fn source_warnings(node: &SyntaxNode) -> (r: Vec<Warning>)
    ensures
        warnings_view(r@) == source_file_warnings(*node),
{
    let ghost cs = node.children@;
    let mut out: Vec<Warning> = Vec::new();
    assert(warnings_view(out@) =~= source_walk_warnings(cs.take(0)));
    let mut i: usize = 0;
    while i < node.children.len()
        invariant
            0 <= i <= cs.len(),
            cs == node.children@,
            warnings_view(out@) == source_walk_warnings(cs.take(i as int)),
        decreases cs.len() - i,
    {
        assert(cs.take(i + 1).drop_last() =~= cs.take(i as int));
        assert(cs.take(i + 1).last() == cs[i as int]);
        let ghost before = warnings_view(out@);
        let child = &node.children[i];
        if child.is_kind("declaration") {
            match child.child_by_field_name("type") {
                Some(t) => type_warnings_into(t, &mut out),
                None => {},
            }
        } else if child.is_kind("constraint") {
            match child.child(1) {
                Some(e) => expr_warnings_into(e, &mut out),
                None => {},
            }
        } else if child.is_kind("goal") {
            task_warnings_into(child, &mut out);
        } else if child.is_kind("line_comment") || child.is_kind("output") {
        } else if child.named {
            push_warning(&mut out, Warning::UnsolvedItem { kind: child.kind.clone() });
        }
        assert(warnings_view(out@) =~= source_walk_warnings(cs.take(i + 1)));
        i = i + 1;
    }
    assert(cs.take(cs.len() as int) =~= cs);
    out
}

} // verus!
