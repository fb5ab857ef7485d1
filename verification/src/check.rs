//! Deciding, before reading a tree, whether it stays clear of every failing
//! step (`visit`'s `requires`), and, before a rendering, whether the model is
//! printable (`display`'s `requires`).
use vstd::prelude::*;
use crate::cst::{SyntaxNode, has_field, named_count, lemma_named_pos};
use crate::display::{
    all_printable, basic_printable, gen_printable, int_type_printable, lemma_all_printable,
    lemma_types_printable, model_printable, printable, type_printable, types_printable,
};
use crate::model::{
    BasicType, Expr, GenExpr, IntType, Model, Task, Type, decl_view, expr_view, exprs_view,
    lemma_exprs_view, lemma_types_view, type_view, types_view,
};
use crate::text::parse_i32;
use crate::visit::{
    args_ok, base_ok, comp_gens_ok, decl_ok, dims_ok, expr_ok, gen_ok, gen_walk_ok, gens_ok,
    source_ok, source_walk_ok, task_ok, task_walk_ok, type_ok,
};

verus! {

// ---------------------------------------------------------------------------
// Syntax trees
// ---------------------------------------------------------------------------

fn args_check(cs: &Vec<SyntaxNode>, f: &str) -> (b: bool)
    ensures
        b == args_ok(cs@, f@),
    decreases cs,
{
    let mut ok = true;
    let mut i: usize = 0;
    while i < cs.len()
        invariant
            0 <= i <= cs@.len(),
            ok == args_ok(cs@.take(i as int), f@),
        decreases cs@.len() - i,
    {
        assert(cs@.take(i + 1).drop_last() =~= cs@.take(i as int));
        assert(cs@.take(i + 1).last() == cs@[i as int]);
        let child = &cs[i];
        if ok && child.has_field(f) && !child.is_kind(",") {
            ok = expr_check(child);
        }
        i = i + 1;
    }
    assert(cs@.take(cs@.len() as int) =~= cs@);
    ok
}

fn gens_check(cs: &Vec<SyntaxNode>, f: &str) -> (b: bool)
    ensures
        b == gens_ok(cs@, f@),
    decreases cs,
{
    let mut ok = true;
    let mut i: usize = 0;
    while i < cs.len()
        invariant
            0 <= i <= cs@.len(),
            ok == gens_ok(cs@.take(i as int), f@),
        decreases cs@.len() - i,
    {
        assert(cs@.take(i + 1).drop_last() =~= cs@.take(i as int));
        assert(cs@.take(i + 1).last() == cs@[i as int]);
        let child = &cs[i];
        if ok && child.has_field(f) && !child.is_kind(",") {
            ok = gen_check(child);
        }
        i = i + 1;
    }
    assert(cs@.take(cs@.len() as int) =~= cs@);
    ok
}

fn comp_gens_check(cs: &Vec<SyntaxNode>) -> (b: bool)
    ensures
        b == comp_gens_ok(cs@),
    decreases cs,
{
    let mut ok = true;
    let mut seen: usize = 0;
    let mut i: usize = 0;
    while i < cs.len()
        invariant
            0 <= i <= cs@.len(),
            seen == named_count(cs@.take(i as int)),
            seen <= i,
            ok == comp_gens_ok(cs@.take(i as int)),
        decreases cs@.len() - i,
    {
        assert(cs@.take(i + 1).drop_last() =~= cs@.take(i as int));
        assert(cs@.take(i + 1).last() == cs@[i as int]);
        let child = &cs[i];
        if child.named {
            if ok && seen >= 1 {
                ok = gen_check(child);
            }
            seen = seen + 1;
        }
        i = i + 1;
    }
    assert(cs@.take(cs@.len() as int) =~= cs@);
    ok
}

/// Whether `gen_ok` holds of a generator node.
pub fn gen_check(node: &SyntaxNode) -> (b: bool)
    ensures
        b == gen_ok(*node),
    decreases node,
{
    let cs = &node.children;
    let mut ok = true;
    let mut i: usize = 0;
    while i < cs.len()
        invariant
            0 <= i <= cs@.len(),
            cs == &node.children,
            ok == gen_walk_ok(cs@.take(i as int)),
        decreases cs@.len() - i,
    {
        assert(cs@.take(i + 1).drop_last() =~= cs@.take(i as int));
        assert(cs@.take(i + 1).last() == cs@[i as int]);
        let child = &cs[i];
        if ok && !child.is_kind("identifier") && !child.is_kind("in") && !child.is_kind("where") {
            ok = expr_check(child);
        }
        i = i + 1;
    }
    assert(cs@.take(cs@.len() as int) =~= cs@);
    ok
}

/// Whether `expr_ok` holds of an expression node.
pub fn expr_check(node: &SyntaxNode) -> (b: bool)
    ensures
        b == expr_ok(*node),
    decreases node,
{
    let ghost cs = node.children@;
    proof {
        lemma_named_pos(cs, 0);
        lemma_named_pos(cs, 1);
        lemma_named_pos(cs, 2);
    }
    if node.is_kind("integer_literal") {
        parse_i32(node.text.as_str()).is_some()
    } else if node.is_kind("true") || node.is_kind("false") || node.is_kind("identifier") {
        true
    } else if node.is_kind("if_then_else") {
        if node.named_child_count() != 3 {
            true
        } else {
            (match node.named_child(0) { Some(c) => expr_check(c), None => false }) && (match node.named_child(1) { Some(c) => expr_check(c), None => false })
                && (match node.named_child(2) { Some(c) => expr_check(c), None => false })
        }
    } else if node.is_kind("call") {
        node.child_by_field_name("name").is_some() && args_check(&node.children, "arguments")
    } else if node.is_kind("generator_call") {
        node.child_by_field_name("name").is_some() && (match node.child_by_field_name("template") { Some(c) => expr_check(c), None => false }) && gens_check(&node.children, "generators")
    } else if node.is_kind("infix_operator") {
        node.child_by_field_name("operator").is_some() && (match node.child_by_field_name("left") { Some(c) => expr_check(c), None => false }) && (match node.child_by_field_name("right") { Some(c) => expr_check(c), None => false })
    } else if node.is_kind("prefix_operator") {
        node.child_by_field_name("operator").is_some() && (match node.child(1) { Some(c) => expr_check(c), None => false })
    } else if node.is_kind("array_comprehension") {
        (match node.named_child(0) { Some(c) => expr_check(c), None => false }) && comp_gens_check(&node.children)
    } else if node.is_kind("indexed_access") {
        (match node.child_by_field_name("collection") { Some(c) => expr_check(c), None => false }) && args_check(
            &node.children,
            "indices",
        )
    } else if node.is_kind("parenthesised_expression") {
        (match node.named_child(0) { Some(c) => expr_check(c), None => false })
    } else {
        true
    }
}

/// Whether `base_ok` holds of a base type node.
pub fn base_check(node: &SyntaxNode) -> (b: bool)
    ensures
        b == base_ok(*node),
{
    if !node.is_kind("primitive_type") && node.is_kind("infix_operator") {
        (match node.child_by_field_name("left") {
            Some(c) => expr_check(c),
            None => false,
        }) && (match node.child_by_field_name("right") {
            Some(c) => expr_check(c),
            None => false,
        })
    } else {
        true
    }
}

fn dims_check(cs: &Vec<SyntaxNode>, total: usize) -> (b: bool)
    ensures
        b == dims_ok(cs@, total as int),
    decreases cs,
{
    let mut ok = true;
    let mut seen: usize = 0;
    let mut i: usize = 0;
    while i < cs.len()
        invariant
            0 <= i <= cs@.len(),
            seen == named_count(cs@.take(i as int)),
            seen <= i,
            ok == dims_ok(cs@.take(i as int), total as int),
        decreases cs@.len() - i,
    {
        assert(cs@.take(i + 1).drop_last() =~= cs@.take(i as int));
        assert(cs@.take(i + 1).last() == cs@[i as int]);
        let child = &cs[i];
        if child.named {
            if ok && seen + 1 < total {
                ok = type_check(child);
            }
            seen = seen + 1;
        }
        i = i + 1;
    }
    assert(cs@.take(cs@.len() as int) =~= cs@);
    ok
}

/// Whether `type_ok` holds of a type node.
pub fn type_check(node: &SyntaxNode) -> (b: bool)
    ensures
        b == type_ok(*node),
    decreases node,
{
    let ghost cs = node.children@;
    proof {
        lemma_named_pos(cs, 0);
    }
    if node.is_kind("type_base") {
        match node.named_child(0) {
            Some(c) => base_check(c),
            None => false,
        }
    } else if node.is_kind("array_type") {
        let total = node.named_child_count();
        if total == 0 {
            return false;
        }
        proof {
            lemma_named_pos(cs, total - 1);
        }
        dims_check(&node.children, total) && (match node.named_child(total - 1) {
            Some(c) => type_check(c),
            None => false,
        })
    } else {
        true
    }
}

/// Whether `decl_ok` holds of a declaration node.
pub fn decl_check(node: &SyntaxNode) -> (b: bool)
    ensures
        b == decl_ok(*node),
{
    (match node.child_by_field_name("type") {
        Some(c) => type_check(c),
        None => false,
    }) && node.child_by_field_name("name").is_some()
}

/// Whether `task_ok` holds of a goal node.
pub fn task_check(node: &SyntaxNode) -> (b: bool)
    ensures
        b == task_ok(*node),
{
    let ghost cs = node.children@;
    let mut find_min = false;
    let mut i: usize = 0;
    assert(cs.skip(0) =~= cs);
    while i < node.children.len()
        invariant
            0 <= i <= cs.len(),
            cs == node.children@,
            task_walk_ok(cs, false) == task_walk_ok(cs.skip(i as int), find_min),
        decreases cs.len() - i,
    {
        assert(cs.skip(i as int).drop_first() =~= cs.skip(i + 1));
        assert(cs.skip(i as int)[0] == cs[i as int]);
        let child = &node.children[i];
        if child.is_kind("solve") {
        } else if child.is_kind("maximize") {
            find_min = false;
        } else if child.is_kind("minimize") {
            find_min = true;
        } else if child.is_kind("satisfy") {
            return true;
        } else {
            return expr_check(child);
        }
        i = i + 1;
    }
    assert(cs.skip(cs.len() as int).len() == 0);
    true
}

/// Whether `visit_source_file` may be called on the node: every constraint
/// has an expression, every declaration a type and a name, and every
/// expression, type and goal can be read.
pub fn source_check(node: &SyntaxNode) -> (b: bool)
    ensures
        b == source_ok(*node),
{
    let ghost cs = node.children@;
    let mut ok = true;
    let mut i: usize = 0;
    while i < node.children.len()
        invariant
            0 <= i <= cs.len(),
            cs == node.children@,
            ok == source_walk_ok(cs.take(i as int)),
        decreases cs.len() - i,
    {
        assert(cs.take(i + 1).drop_last() =~= cs.take(i as int));
        assert(cs.take(i + 1).last() == cs[i as int]);
        let child = &node.children[i];
        if ok {
            if child.is_kind("declaration") {
                ok = decl_check(child);
            } else if child.is_kind("constraint") {
                ok = match child.child(1) {
                    Some(c) => expr_check(c),
                    None => false,
                };
            } else if child.is_kind("goal") {
                ok = task_check(child);
            }
        }
        i = i + 1;
    }
    assert(cs.take(cs.len() as int) =~= cs);
    ok
}

// ---------------------------------------------------------------------------
// Models
// ---------------------------------------------------------------------------

impl Expr {
    /// Whether every call in the expression has an argument.
    pub fn is_printable(&self) -> (b: bool)
        ensures
            b == printable(self@),
        decreases self,
    {
        match self {
            Expr::If(a, b, c) => a.is_printable() && b.is_printable() && c.is_printable(),
            Expr::Call(_, es) => es.len() >= 1 && list_printable(es),
            Expr::Comprehension(g, b) => g.is_printable() && b.is_printable(),
            Expr::ArrayAccess(a, es) => a.is_printable() && list_printable(es),
            _ => true,
        }
    }
}

fn list_printable(es: &Vec<Box<Expr>>) -> (b: bool)
    ensures
        b == all_printable(exprs_view(es@)),
    decreases es,
{
    proof {
        lemma_exprs_view(es@);
        lemma_all_printable(exprs_view(es@));
    }
    let mut i: usize = 0;
    while i < es.len()
        invariant
            0 <= i <= es@.len(),
            exprs_view(es@).len() == es@.len(),
            forall|k: int| 0 <= k < es@.len() ==> #[trigger] exprs_view(es@)[k] == expr_view(
                *es@[k],
            ),
            all_printable(exprs_view(es@)) <==> forall|k: int|
                0 <= k < es@.len() ==> printable(#[trigger] exprs_view(es@)[k]),
            forall|k: int| 0 <= k < i ==> printable(#[trigger] exprs_view(es@)[k]),
        decreases es@.len() - i,
    {
        if !es[i].is_printable() {
            assert(!printable(exprs_view(es@)[i as int]));
            return false;
        }
        i = i + 1;
    }
    true
}

impl GenExpr {
    /// Whether every call in the generator has an argument.
    pub fn is_printable(&self) -> (b: bool)
        ensures
            b == gen_printable(self@),
        decreases self,
    {
        match self {
            GenExpr::Empty => true,
            GenExpr::Enum(h, _, e) => h.is_printable() && e.is_printable(),
            GenExpr::Guard(h, e) => h.is_printable() && e.is_printable(),
        }
    }
}

impl IntType {
    /// Whether every call in the bounds has an argument.
    pub fn is_printable(&self) -> (b: bool)
        ensures
            b == int_type_printable(self@),
    {
        match self {
            IntType::Base => true,
            IntType::Range(lo, hi) => lo.is_printable() && hi.is_printable(),
        }
    }
}

impl BasicType {
    /// Whether every call in the type has an argument.
    pub fn is_printable(&self) -> (b: bool)
        ensures
            b == basic_printable(self@),
    {
        match self {
            BasicType::Int(i) => i.is_printable(),
            BasicType::Bool => true,
        }
    }
}

fn types_list_printable(ts: &Vec<Box<Type>>) -> (b: bool)
    ensures
        b == types_printable(types_view(ts@)),
    decreases ts,
{
    proof {
        lemma_types_view(ts@);
        lemma_types_printable(types_view(ts@));
    }
    let mut i: usize = 0;
    while i < ts.len()
        invariant
            0 <= i <= ts@.len(),
            types_view(ts@).len() == ts@.len(),
            forall|k: int| 0 <= k < ts@.len() ==> #[trigger] types_view(ts@)[k] == type_view(
                *ts@[k],
            ),
            types_printable(types_view(ts@)) <==> forall|k: int|
                0 <= k < ts@.len() ==> type_printable(#[trigger] types_view(ts@)[k]),
            forall|k: int| 0 <= k < i ==> type_printable(#[trigger] types_view(ts@)[k]),
        decreases ts@.len() - i,
    {
        if !ts[i].is_printable() {
            assert(!type_printable(types_view(ts@)[i as int]));
            return false;
        }
        i = i + 1;
    }
    true
}

impl Type {
    /// Whether every call in the type has an argument.
    pub fn is_printable(&self) -> (b: bool)
        ensures
            b == type_printable(self@),
        decreases self,
    {
        match self {
            Type::Var(b) => b.is_printable(),
            Type::Par(b) => b.is_printable(),
            Type::Array(ts, e) => types_list_printable(ts) && e.is_printable(),
        }
    }
}

impl Model {
    /// Whether `fmt` may be called on the model: every call in it has an
    /// argument.
    pub fn is_printable(&self) -> (b: bool)
        ensures
            b == model_printable(self@),
    {
        let ghost m = self@;
        let mut i: usize = 0;
        while i < self.vars.len()
            invariant
                0 <= i <= self.vars@.len(),
                m == self@,
                forall|k: int| 0 <= k < i ==> type_printable(#[trigger] m.vars[k].0),
            decreases self.vars@.len() - i,
        {
            assert(m.vars[i as int] == decl_view(self.vars@[i as int]));
            if !self.vars[i].0.is_printable() {
                assert(!type_printable(m.vars[i as int].0));
                return false;
            }
            i = i + 1;
        }
        let mut j: usize = 0;
        while j < self.constraints.len()
            invariant
                0 <= j <= self.constraints@.len(),
                m == self@,
                forall|k: int| 0 <= k < j ==> printable(#[trigger] m.constraints[k]),
            decreases self.constraints@.len() - j,
        {
            assert(m.constraints[j as int] == self.constraints@[j as int]@);
            if !self.constraints[j].is_printable() {
                assert(!printable(m.constraints[j as int]));
                return false;
            }
            j = j + 1;
        }
        match &self.task {
            Task::Opt(e) => e.is_printable(),
            Task::Sat => true,
        }
    }
}

} // verus!
