//! Reading a concrete syntax tree of a MiniZinc program into its model.
use vstd::prelude::*;
use crate::cst::{SyntaxNode, has_field, named_count, named_pos, field_pos};
use crate::generator::{merge_gen, merge_gen_expr};
use crate::model::{
    BasicType, BasicTypeV, Expr, ExprV, GenExpr, GenExprV, IntType, IntTypeV, Model, ModelV, Task,
    TaskV, Type, TypeV, exprs_view, lemma_exprs_view_small, types_view,
};
use crate::text::{parse_i32, parse_i32_spec, text_eq};

verus! {

// ---------------------------------------------------------------------------
// Expressions
// ---------------------------------------------------------------------------

/// The source text of `cs[j]` (empty when there is no such node).
pub open spec fn text_at(cs: Seq<SyntaxNode>, j: int) -> Seq<char> {
    if 0 <= j < cs.len() {
        cs[j].text@
    } else {
        Seq::empty()
    }
}

/// The expression of an expression node.
pub open spec fn expr_of(n: SyntaxNode) -> ExprV
    decreases n,
{
    let cs = n.children@;
    if n.kind@ == "integer_literal"@ {
        ExprV::Int(parse_i32_spec(n.text@).unwrap())
    } else if n.kind@ == "true"@ {
        ExprV::True
    } else if n.kind@ == "false"@ {
        ExprV::False
    } else if n.kind@ == "identifier"@ {
        ExprV::Var(n.text@)
    } else if n.kind@ == "if_then_else"@ {
        if named_count(cs) != 3 {
            ExprV::Int(0)
        } else {
            ExprV::If(
                Box::new(expr_at(cs, named_pos(cs, 0))),
                Box::new(expr_at(cs, named_pos(cs, 1))),
                Box::new(expr_at(cs, named_pos(cs, 2))),
            )
        }
    } else if n.kind@ == "call"@ {
        ExprV::Call(text_at(cs, field_pos(cs, "name"@)), args_of(cs, "arguments"@))
    } else if n.kind@ == "generator_call"@ {
        ExprV::Call(
            text_at(cs, field_pos(cs, "name"@)),
            seq![
                ExprV::Comprehension(
                    gens_of(cs, "generators"@),
                    Box::new(expr_at(cs, field_pos(cs, "template"@))),
                ),
            ],
        )
    } else if n.kind@ == "infix_operator"@ {
        ExprV::Call(
            text_at(cs, field_pos(cs, "operator"@)),
            seq![expr_at(cs, field_pos(cs, "left"@)), expr_at(cs, field_pos(cs, "right"@))],
        )
    } else if n.kind@ == "prefix_operator"@ {
        ExprV::Call(text_at(cs, field_pos(cs, "operator"@)), seq![expr_at(cs, 1)])
    } else if n.kind@ == "array_comprehension"@ {
        ExprV::Comprehension(comp_gens_of(cs), Box::new(expr_at(cs, named_pos(cs, 0))))
    } else if n.kind@ == "indexed_access"@ {
        ExprV::ArrayAccess(
            Box::new(expr_at(cs, field_pos(cs, "collection"@))),
            args_of(cs, "indices"@),
        )
    } else if n.kind@ == "parenthesised_expression"@ {
        expr_at(cs, named_pos(cs, 0))
    } else {
        ExprV::Int(0)
    }
}

/// The expression of `cs[j]` (a placeholder when there is no such node).
pub open spec fn expr_at(cs: Seq<SyntaxNode>, j: int) -> ExprV
    decreases cs,
{
    if 0 <= j < cs.len() {
        expr_of(cs[j])
    } else {
        ExprV::Int(0)
    }
}

/// The expressions of the nodes of `cs` held under the field `f`, in order,
/// leaving out `,` tokens.
pub open spec fn args_of(cs: Seq<SyntaxNode>, f: Seq<char>) -> Seq<ExprV>
    decreases cs,
{
    if cs.len() == 0 {
        Seq::empty()
    } else {
        let c = cs.last();
        if has_field(c, f) && c.kind@ != ","@ {
            args_of(cs.drop_last(), f).push(expr_of(c))
        } else {
            args_of(cs.drop_last(), f)
        }
    }
}

/// The generators of the nodes of `cs` held under the field `f`, leaving out
/// `,` tokens, merged one after the other into the empty generator.
pub open spec fn gens_of(cs: Seq<SyntaxNode>, f: Seq<char>) -> GenExprV
    decreases cs,
{
    if cs.len() == 0 {
        GenExprV::Empty
    } else {
        let c = cs.last();
        if has_field(c, f) && c.kind@ != ","@ {
            merge_gen(gens_of(cs.drop_last(), f), gen_of(c))
        } else {
            gens_of(cs.drop_last(), f)
        }
    }
}

/// The generators of the named nodes of `cs` after the first one, merged one
/// after the other into the empty generator.
pub open spec fn comp_gens_of(cs: Seq<SyntaxNode>) -> GenExprV
    decreases cs,
{
    if cs.len() == 0 {
        GenExprV::Empty
    } else {
        let c = cs.last();
        if c.named && named_count(cs.drop_last()) >= 1 {
            merge_gen(comp_gens_of(cs.drop_last()), gen_of(c))
        } else {
            comp_gens_of(cs.drop_last())
        }
    }
}

/// The generator of a generator node.
pub open spec fn gen_of(n: SyntaxNode) -> GenExprV
    decreases n,
{
    gen_walk(n.children@).0
}

/// Reading the children of a generator node in order, with the generator
/// built so far, the name that the last identifier gave, and whether a
/// `where` came after the last `in`: an identifier names the variable, `in`
/// and `where` switch between enumerations and guards, and any other node
/// adds an enumeration of the current name over it, or a guard on it.
pub open spec fn gen_walk(cs: Seq<SyntaxNode>) -> (GenExprV, Seq<char>, bool)
    decreases cs,
{
    if cs.len() == 0 {
        (GenExprV::Empty, Seq::empty(), false)
    } else {
        let (g, v, guard) = gen_walk(cs.drop_last());
        let c = cs.last();
        if c.kind@ == "identifier"@ {
            (g, c.text@, guard)
        } else if c.kind@ == "in"@ {
            (g, v, false)
        } else if c.kind@ == "where"@ {
            (g, v, true)
        } else if guard {
            (GenExprV::Guard(Box::new(g), Box::new(expr_of(c))), v, guard)
        } else {
            (GenExprV::Enum(Box::new(g), v, Box::new(expr_of(c))), v, guard)
        }
    }
}

/// Whether reading an expression node stays clear of a failing step:
/// every integer literal reads as an `i32`, and every node that the
/// reading looks up (a field, a child at a position, the first named
/// child) exists, down the whole expression.
pub open spec fn expr_ok(n: SyntaxNode) -> bool
    decreases n,
{
    let cs = n.children@;
    if n.kind@ == "integer_literal"@ {
        parse_i32_spec(n.text@) is Some
    } else if n.kind@ == "true"@ || n.kind@ == "false"@ || n.kind@ == "identifier"@ {
        true
    } else if n.kind@ == "if_then_else"@ {
        named_count(cs) != 3 || (expr_ok_at(cs, named_pos(cs, 0)) && expr_ok_at(
            cs,
            named_pos(cs, 1),
        ) && expr_ok_at(cs, named_pos(cs, 2)))
    } else if n.kind@ == "call"@ {
        field_pos(cs, "name"@) < cs.len() && args_ok(cs, "arguments"@)
    } else if n.kind@ == "generator_call"@ {
        &&& field_pos(cs, "name"@) < cs.len()
        &&& expr_ok_at(cs, field_pos(cs, "template"@))
        &&& gens_ok(cs, "generators"@)
    } else if n.kind@ == "infix_operator"@ {
        &&& field_pos(cs, "operator"@) < cs.len()
        &&& expr_ok_at(cs, field_pos(cs, "left"@))
        &&& expr_ok_at(cs, field_pos(cs, "right"@))
    } else if n.kind@ == "prefix_operator"@ {
        field_pos(cs, "operator"@) < cs.len() && expr_ok_at(cs, 1)
    } else if n.kind@ == "array_comprehension"@ {
        expr_ok_at(cs, named_pos(cs, 0)) && comp_gens_ok(cs)
    } else if n.kind@ == "indexed_access"@ {
        expr_ok_at(cs, field_pos(cs, "collection"@)) && args_ok(cs, "indices"@)
    } else if n.kind@ == "parenthesised_expression"@ {
        expr_ok_at(cs, named_pos(cs, 0))
    } else {
        true
    }
}

/// `cs[j]` exists and is an expression node that can be read.
pub open spec fn expr_ok_at(cs: Seq<SyntaxNode>, j: int) -> bool
    decreases cs,
{
    0 <= j < cs.len() && expr_ok(cs[j])
}

pub open spec fn args_ok(cs: Seq<SyntaxNode>, f: Seq<char>) -> bool
    decreases cs,
{
    if cs.len() == 0 {
        true
    } else {
        let c = cs.last();
        args_ok(cs.drop_last(), f) && (has_field(c, f) && c.kind@ != ","@ ==> expr_ok(c))
    }
}

pub open spec fn gens_ok(cs: Seq<SyntaxNode>, f: Seq<char>) -> bool
    decreases cs,
{
    if cs.len() == 0 {
        true
    } else {
        let c = cs.last();
        gens_ok(cs.drop_last(), f) && (has_field(c, f) && c.kind@ != ","@ ==> gen_ok(c))
    }
}

pub open spec fn comp_gens_ok(cs: Seq<SyntaxNode>) -> bool
    decreases cs,
{
    if cs.len() == 0 {
        true
    } else {
        let c = cs.last();
        comp_gens_ok(cs.drop_last()) && (c.named && named_count(cs.drop_last()) >= 1 ==> gen_ok(
            c,
        ))
    }
}

/// Whether reading a generator node stays clear of a failing step.
pub open spec fn gen_ok(n: SyntaxNode) -> bool
    decreases n,
{
    gen_walk_ok(n.children@)
}

pub open spec fn gen_walk_ok(cs: Seq<SyntaxNode>) -> bool
    decreases cs,
{
    if cs.len() == 0 {
        true
    } else {
        let c = cs.last();
        gen_walk_ok(cs.drop_last()) && (c.kind@ != "identifier"@ && c.kind@ != "in"@ && c.kind@
            != "where"@ ==> expr_ok(c))
    }
}

// ---------------------------------------------------------------------------
// Prefixes of the children
// ---------------------------------------------------------------------------

proof fn lemma_args_ok_prefix(cs: Seq<SyntaxNode>, f: Seq<char>, i: int)
    requires
        args_ok(cs, f),
        0 <= i <= cs.len(),
    ensures
        args_ok(cs.take(i), f),
    decreases cs.len() - i,
{
    if i < cs.len() {
        lemma_args_ok_prefix(cs, f, i + 1);
        assert(cs.take(i + 1).drop_last() =~= cs.take(i));
    } else {
        assert(cs.take(i) =~= cs);
    }
}

proof fn lemma_gens_ok_prefix(cs: Seq<SyntaxNode>, f: Seq<char>, i: int)
    requires
        gens_ok(cs, f),
        0 <= i <= cs.len(),
    ensures
        gens_ok(cs.take(i), f),
    decreases cs.len() - i,
{
    if i < cs.len() {
        lemma_gens_ok_prefix(cs, f, i + 1);
        assert(cs.take(i + 1).drop_last() =~= cs.take(i));
    } else {
        assert(cs.take(i) =~= cs);
    }
}

proof fn lemma_comp_gens_ok_prefix(cs: Seq<SyntaxNode>, i: int)
    requires
        comp_gens_ok(cs),
        0 <= i <= cs.len(),
    ensures
        comp_gens_ok(cs.take(i)),
    decreases cs.len() - i,
{
    if i < cs.len() {
        lemma_comp_gens_ok_prefix(cs, i + 1);
        assert(cs.take(i + 1).drop_last() =~= cs.take(i));
    } else {
        assert(cs.take(i) =~= cs);
    }
}

proof fn lemma_gen_walk_ok_prefix(cs: Seq<SyntaxNode>, i: int)
    requires
        gen_walk_ok(cs),
        0 <= i <= cs.len(),
    ensures
        gen_walk_ok(cs.take(i)),
    decreases cs.len() - i,
{
    if i < cs.len() {
        lemma_gen_walk_ok_prefix(cs, i + 1);
        assert(cs.take(i + 1).drop_last() =~= cs.take(i));
    } else {
        assert(cs.take(i) =~= cs);
    }
}

// ---------------------------------------------------------------------------
// Reading expressions
// ---------------------------------------------------------------------------

/// The source text of a node.
pub fn visit_id(node: &SyntaxNode) -> (r: String)
    ensures
        r@ == node.text@,
{
    node.text.clone()
}

/// The expressions of the children held under the field `f`, leaving out
/// `,` tokens.
fn visit_args(cs: &Vec<SyntaxNode>, f: &str) -> (r: Vec<Box<Expr>>)
    requires
        args_ok(cs@, f@),
    ensures
        exprs_view(r@) == args_of(cs@, f@),
    decreases cs,
{
    let mut args: Vec<Box<Expr>> = Vec::new();
    let mut i: usize = 0;
    while i < cs.len()
        invariant
            0 <= i <= cs@.len(),
            args_ok(cs@, f@),
            exprs_view(args@) == args_of(cs@.take(i as int), f@),
        decreases cs@.len() - i,
    {
        proof {
            lemma_args_ok_prefix(cs@, f@, i + 1);
            assert(cs@.take(i + 1).drop_last() =~= cs@.take(i as int));
            assert(cs@.take(i + 1).last() == cs@[i as int]);
        }
        let child = &cs[i];
        if child.has_field(f) && !child.is_kind(",") {
            let e = visit_expr(child);
            let ghost before = args@;
            args.push(Box::new(e));
            assert(args@.drop_last() =~= before);
        }
        i = i + 1;
    }
    assert(cs@.take(cs@.len() as int) =~= cs@);
    args
}

/// The generators of the children held under the field `f`, leaving out `,`
/// tokens, merged one after the other into the empty generator.
fn visit_generators(cs: &Vec<SyntaxNode>, f: &str) -> (r: GenExpr)
    requires
        gens_ok(cs@, f@),
    ensures
        r@ == gens_of(cs@, f@),
    decreases cs,
{
    let mut generators = GenExpr::Empty;
    let mut i: usize = 0;
    while i < cs.len()
        invariant
            0 <= i <= cs@.len(),
            gens_ok(cs@, f@),
            generators@ == gens_of(cs@.take(i as int), f@),
        decreases cs@.len() - i,
    {
        proof {
            lemma_gens_ok_prefix(cs@, f@, i + 1);
            assert(cs@.take(i + 1).drop_last() =~= cs@.take(i as int));
            assert(cs@.take(i + 1).last() == cs@[i as int]);
        }
        let child = &cs[i];
        if child.has_field(f) && !child.is_kind(",") {
            let gen_expr = visit_gen_expr(child);
            generators = merge_gen_expr(generators, gen_expr);
        }
        i = i + 1;
    }
    assert(cs@.take(cs@.len() as int) =~= cs@);
    generators
}

/// The generators of the named children after the first one, merged one
/// after the other into the empty generator.
fn visit_comp_generators(cs: &Vec<SyntaxNode>) -> (r: GenExpr)
    requires
        comp_gens_ok(cs@),
    ensures
        r@ == comp_gens_of(cs@),
    decreases cs,
{
    let mut gen_expr = GenExpr::Empty;
    let mut seen: usize = 0;
    let mut i: usize = 0;
    while i < cs.len()
        invariant
            0 <= i <= cs@.len(),
            comp_gens_ok(cs@),
            seen == named_count(cs@.take(i as int)),
            seen <= i,
            gen_expr@ == comp_gens_of(cs@.take(i as int)),
        decreases cs@.len() - i,
    {
        proof {
            lemma_comp_gens_ok_prefix(cs@, i + 1);
            assert(cs@.take(i + 1).drop_last() =~= cs@.take(i as int));
            assert(cs@.take(i + 1).last() == cs@[i as int]);
        }
        let child = &cs[i];
        if child.named {
            if seen >= 1 {
                let tmp = visit_gen_expr(child);
                gen_expr = merge_gen_expr(gen_expr, tmp);
            }
            seen = seen + 1;
        }
        i = i + 1;
    }
    assert(cs@.take(cs@.len() as int) =~= cs@);
    gen_expr
}

/// The generator of a generator node: `name in e` clauses and `where e`
/// guards, in the order in which they are written.
pub fn visit_gen_expr(node: &SyntaxNode) -> (r: GenExpr)
    requires
        gen_ok(*node),
    ensures
        r@ == gen_of(*node),
    decreases node,
{
    let cs = &node.children;
    let mut gen_expr = GenExpr::Empty;
    let mut var = String::new();
    let mut is_guard = false;
    let mut i: usize = 0;
    while i < cs.len()
        invariant
            0 <= i <= cs@.len(),
            cs == &node.children,
            gen_walk_ok(cs@),
            (gen_expr@, var@, is_guard) == gen_walk(cs@.take(i as int)),
        decreases cs@.len() - i,
    {
        proof {
            lemma_gen_walk_ok_prefix(cs@, i + 1);
            assert(cs@.take(i + 1).drop_last() =~= cs@.take(i as int));
            assert(cs@.take(i + 1).last() == cs@[i as int]);
        }
        let child = &cs[i];
        if child.is_kind("identifier") {
            var = visit_id(child);
        } else if child.is_kind("in") {
            is_guard = false;
        } else if child.is_kind("where") {
            is_guard = true;
        } else {
            if is_guard {
                gen_expr = GenExpr::Guard(Box::new(gen_expr), Box::new(visit_expr(child)));
            } else {
                gen_expr = GenExpr::Enum(Box::new(gen_expr), var.clone(), Box::new(visit_expr(child)));
            }
        }
        i = i + 1;
    }
    assert(cs@.take(cs@.len() as int) =~= cs@);
    gen_expr
}

/// The expression of an expression node.
pub fn visit_expr(node: &SyntaxNode) -> (r: Expr)
    requires
        expr_ok(*node),
    ensures
        r@ == expr_of(*node),
    decreases node,
{
    let ghost cs = node.children@;
    if node.is_kind("integer_literal") {
        let r = Expr::Int(parse_i32(node.text.as_str()).unwrap());
        assert(r@ == expr_of(*node));
        r
    } else if node.is_kind("true") {
        Expr::True
    } else if node.is_kind("false") {
        Expr::False
    } else if node.is_kind("identifier") {
        Expr::Var(visit_id(node))
    } else if node.is_kind("if_then_else") {
        if node.named_child_count() != 3 {
            return Expr::Int(0);
        }
        let cond = Box::new(visit_expr(node.named_child(0).unwrap()));
        let then_expr = Box::new(visit_expr(node.named_child(1).unwrap()));
        let else_expr = Box::new(visit_expr(node.named_child(2).unwrap()));
        let r = Expr::If(cond, then_expr, else_expr);
        assert(r@ == expr_of(*node));
        r
    } else if node.is_kind("call") {
        let name = visit_id(node.child_by_field_name("name").unwrap());
        let args = visit_args(&node.children, "arguments");
        let r = Expr::Call(name, args);
        assert(r@ == expr_of(*node));
        r
    } else if node.is_kind("generator_call") {
        let gen_name = visit_id(node.child_by_field_name("name").unwrap());
        let generators = visit_generators(&node.children, "generators");
        let expr = visit_expr(node.child_by_field_name("template").unwrap());
        let comp = Expr::Comprehension(generators, Box::new(expr));
        let b = Box::new(comp);
        proof {
            lemma_exprs_view_small(b, b);
        }
        let mut args: Vec<Box<Expr>> = Vec::new();
        args.push(b);
        assert(args@ =~= seq![b]);
        let r = Expr::Call(gen_name, args);
        assert(r@ == expr_of(*node));
        r
    } else if node.is_kind("infix_operator") {
        let left = Box::new(visit_expr(node.child_by_field_name("left").unwrap()));
        let right = Box::new(visit_expr(node.child_by_field_name("right").unwrap()));
        let op = visit_id(node.child_by_field_name("operator").unwrap());
        proof {
            lemma_exprs_view_small(left, right);
        }
        let args = vec![left, right];
        let r = Expr::Call(op, args);
        assert(r@ == expr_of(*node));
        r
    } else if node.is_kind("prefix_operator") {
        let expr = Box::new(visit_expr(node.child(1).unwrap()));
        let op = visit_id(node.child_by_field_name("operator").unwrap());
        proof {
            lemma_exprs_view_small(expr, expr);
        }
        let mut args: Vec<Box<Expr>> = Vec::new();
        args.push(expr);
        assert(args@ =~= seq![expr]);
        let r = Expr::Call(op, args);
        assert(r@ == expr_of(*node));
        r
    } else if node.is_kind("array_comprehension") {
        let expr = visit_expr(node.named_child(0).unwrap());
        let gen_expr = visit_comp_generators(&node.children);
        Expr::Comprehension(gen_expr, Box::new(expr))
    } else if node.is_kind("indexed_access") {
        let array = Box::new(visit_expr(node.child_by_field_name("collection").unwrap()));
        let indices = visit_args(&node.children, "indices");
        Expr::ArrayAccess(array, indices)
    } else if node.is_kind("parenthesised_expression") {
        visit_expr(node.named_child(0).unwrap())
    } else {
        Expr::Int(0)
    }
}

// ---------------------------------------------------------------------------
// Types
// ---------------------------------------------------------------------------

/// The element type of a base type node: `int`, `bool`, or a range `lo..hi`.
/// Any other primitive type, and any other kind of node, is read as `int`.
pub open spec fn base_of(n: SyntaxNode) -> BasicTypeV {
    let cs = n.children@;
    if n.kind@ == "primitive_type"@ {
        if n.text@ == "int"@ {
            BasicTypeV::Int(IntTypeV::Base)
        } else if n.text@ == "bool"@ {
            BasicTypeV::Bool
        } else {
            BasicTypeV::Int(IntTypeV::Base)
        }
    } else if n.kind@ == "infix_operator"@ {
        BasicTypeV::Int(
            IntTypeV::Range(
                expr_at(cs, field_pos(cs, "left"@)),
                expr_at(cs, field_pos(cs, "right"@)),
            ),
        )
    } else {
        BasicTypeV::Int(IntTypeV::Base)
    }
}

pub open spec fn base_ok(n: SyntaxNode) -> bool {
    let cs = n.children@;
    n.kind@ != "primitive_type"@ && n.kind@ == "infix_operator"@ ==> expr_ok_at(
        cs,
        field_pos(cs, "left"@),
    ) && expr_ok_at(cs, field_pos(cs, "right"@))
}

/// Whether the first of the nodes `var` and `par` in `cs` is `var`
/// (`Some(true)`), `par` (`Some(false)`), or neither occurs (`None`).
pub open spec fn var_par(cs: Seq<SyntaxNode>) -> Option<bool>
    decreases cs.len(),
{
    if cs.len() == 0 {
        None
    } else if cs[0].kind@ == "var"@ {
        Some(true)
    } else if cs[0].kind@ == "par"@ {
        Some(false)
    } else {
        var_par(cs.drop_first())
    }
}

/// The type of a type node: a base type is `var` or a parameter (the default);
/// an array type takes every named child but the last as an index type and
/// the last one as its element type; any other node is read as `var int`.
pub open spec fn type_of(n: SyntaxNode) -> TypeV
    decreases n,
{
    let cs = n.children@;
    if n.kind@ == "type_base"@ {
        let b = if 0 <= named_pos(cs, 0) < cs.len() {
            base_of(cs[named_pos(cs, 0)])
        } else {
            BasicTypeV::Int(IntTypeV::Base)
        };
        if var_par(cs) == Some(true) {
            TypeV::Var(b)
        } else {
            TypeV::Par(b)
        }
    } else if n.kind@ == "array_type"@ {
        let k = named_count(cs);
        TypeV::Array(array_dims(cs, k as int), Box::new(type_at(cs, named_pos(cs, k - 1))))
    } else {
        TypeV::Var(BasicTypeV::Int(IntTypeV::Base))
    }
}

/// The type of `cs[j]` (a placeholder when there is no such node).
pub open spec fn type_at(cs: Seq<SyntaxNode>, j: int) -> TypeV
    decreases cs,
{
    if 0 <= j < cs.len() {
        type_of(cs[j])
    } else {
        TypeV::Var(BasicTypeV::Int(IntTypeV::Base))
    }
}

/// The types of the named nodes of `cs` that have fewer than `total - 1`
/// named nodes before them.
pub open spec fn array_dims(cs: Seq<SyntaxNode>, total: int) -> Seq<TypeV>
    decreases cs,
{
    if cs.len() == 0 {
        Seq::empty()
    } else {
        let c = cs.last();
        if c.named && named_count(cs.drop_last()) < total - 1 {
            array_dims(cs.drop_last(), total).push(type_of(c))
        } else {
            array_dims(cs.drop_last(), total)
        }
    }
}

/// Whether reading a type node stays clear of a failing step.
pub open spec fn type_ok(n: SyntaxNode) -> bool
    decreases n,
{
    let cs = n.children@;
    if n.kind@ == "type_base"@ {
        0 <= named_pos(cs, 0) < cs.len() && base_ok(cs[named_pos(cs, 0)])
    } else if n.kind@ == "array_type"@ {
        let k = named_count(cs);
        k >= 1 && dims_ok(cs, k as int) && type_ok_at(cs, named_pos(cs, k - 1))
    } else {
        true
    }
}

pub open spec fn type_ok_at(cs: Seq<SyntaxNode>, j: int) -> bool
    decreases cs,
{
    0 <= j < cs.len() && type_ok(cs[j])
}

pub open spec fn dims_ok(cs: Seq<SyntaxNode>, total: int) -> bool
    decreases cs,
{
    if cs.len() == 0 {
        true
    } else {
        let c = cs.last();
        dims_ok(cs.drop_last(), total) && (c.named && named_count(cs.drop_last()) < total - 1
            ==> type_ok(c))
    }
}

proof fn lemma_dims_ok_prefix(cs: Seq<SyntaxNode>, total: int, i: int)
    requires
        dims_ok(cs, total),
        0 <= i <= cs.len(),
    ensures
        dims_ok(cs.take(i), total),
    decreases cs.len() - i,
{
    if i < cs.len() {
        lemma_dims_ok_prefix(cs, total, i + 1);
        assert(cs.take(i + 1).drop_last() =~= cs.take(i));
    } else {
        assert(cs.take(i) =~= cs);
    }
}

/// The element type of a base type node.
pub fn visit_base_type(node: &SyntaxNode) -> (r: BasicType)
    requires
        base_ok(*node),
    ensures
        r@ == base_of(*node),
{
    if node.is_kind("primitive_type") {
        let id = visit_id(node);
        if text_eq(&id, "int") {
            BasicType::Int(IntType::Base)
        } else if text_eq(&id, "bool") {
            BasicType::Bool
        } else {
            BasicType::Int(IntType::Base)
        }
    } else if node.is_kind("infix_operator") {
        let left = visit_expr(node.child_by_field_name("left").unwrap());
        let right = visit_expr(node.child_by_field_name("right").unwrap());
        BasicType::Int(IntType::Range(left, right))
    } else {
        BasicType::Int(IntType::Base)
    }
}

/// The index types of an array type: its named children but the last.
fn visit_array_dims(cs: &Vec<SyntaxNode>, total: usize) -> (r: Vec<Box<Type>>)
    requires
        dims_ok(cs@, total as int),
    ensures
        types_view(r@) == array_dims(cs@, total as int),
    decreases cs,
{
    let mut types: Vec<Box<Type>> = Vec::new();
    let mut seen: usize = 0;
    let mut i: usize = 0;
    while i < cs.len()
        invariant
            0 <= i <= cs@.len(),
            dims_ok(cs@, total as int),
            seen == named_count(cs@.take(i as int)),
            seen <= i,
            types_view(types@) == array_dims(cs@.take(i as int), total as int),
        decreases cs@.len() - i,
    {
        proof {
            lemma_dims_ok_prefix(cs@, total as int, i + 1);
            assert(cs@.take(i + 1).drop_last() =~= cs@.take(i as int));
            assert(cs@.take(i + 1).last() == cs@[i as int]);
        }
        let child = &cs[i];
        if child.named {
            if seen + 1 < total {
                let t = visit_type(child);
                let ghost before = types@;
                types.push(Box::new(t));
                assert(types@.drop_last() =~= before);
            }
            seen = seen + 1;
        }
        i = i + 1;
    }
    assert(cs@.take(cs@.len() as int) =~= cs@);
    types
}

/// The type of a type node.
pub fn visit_type(node: &SyntaxNode) -> (r: Type)
    requires
        type_ok(*node),
    ensures
        r@ == type_of(*node),
    decreases node,
{
    let ghost cs = node.children@;
    if node.is_kind("type_base") {
        let basic_type = visit_base_type(node.named_child(0).unwrap());
        let mut i: usize = 0;
        assert(cs.skip(0) =~= cs);
        while i < node.children.len()
            invariant
                0 <= i <= cs.len(),
                cs == node.children@,
                var_par(cs) == var_par(cs.skip(i as int)),
                type_of(*node) == (if var_par(cs) == Some(true) {
                    TypeV::Var(basic_type@)
                } else {
                    TypeV::Par(basic_type@)
                }),
            decreases cs.len() - i,
        {
            assert(cs.skip(i as int).drop_first() =~= cs.skip(i + 1));
            assert(cs.skip(i as int)[0] == cs[i as int]);
            let child = &node.children[i];
            if child.is_kind("var") {
                return Type::Var(basic_type);
            } else if child.is_kind("par") {
                return Type::Par(basic_type);
            }
            i = i + 1;
        }
        assert(cs.skip(cs.len() as int).len() == 0);
        Type::Par(basic_type)
    } else if node.is_kind("array_type") {
        let total = node.named_child_count();
        let types = visit_array_dims(&node.children, total);
        let ty = visit_type(node.named_child(total - 1).unwrap());
        Type::Array(types, Box::new(ty))
    } else {
        Type::Var(BasicType::Int(IntType::Base))
    }
}

// ---------------------------------------------------------------------------
// Declarations, goals and whole programs
// ---------------------------------------------------------------------------

/// The declaration of a declaration node: its type, its name, and the text
/// of the expression assigned to it (empty when there is none).
pub open spec fn decl_of(n: SyntaxNode) -> (TypeV, Seq<char>, Seq<char>) {
    let cs = n.children@;
    (
        type_at(cs, field_pos(cs, "type"@)),
        text_at(cs, field_pos(cs, "name"@)),
        text_at(cs, field_pos(cs, "expr"@)),
    )
}

pub open spec fn decl_ok(n: SyntaxNode) -> bool {
    let cs = n.children@;
    type_ok_at(cs, field_pos(cs, "type"@)) && field_pos(cs, "name"@) < cs.len()
}

/// The declaration of a declaration node.
pub fn visit_declaration(node: &SyntaxNode) -> (r: (Type, String, String))
    requires
        decl_ok(*node),
    ensures
        (r.0@, r.1@, r.2@) == decl_of(*node),
{
    let ghost cs = node.children@;
    let type_child = node.child_by_field_name("type").unwrap();
    let ty = visit_type(type_child);
    let name_child = node.child_by_field_name("name").unwrap();
    let name = visit_id(name_child);
    let assign_child = node.child_by_field_name("expr");
    match assign_child {
        Some(c) => {
            let assign = visit_id(c);
            (ty, name, assign)
        },
        None => (ty, name, String::new()),
    }
}

/// Reading the children of a goal node in order: `maximize` and `minimize`
/// set the direction, `satisfy` makes a satisfaction goal, and the first
/// other node (but `solve`) is the objective, negated when minimising.
pub open spec fn task_walk(cs: Seq<SyntaxNode>, find_min: bool) -> TaskV
    decreases cs.len(),
{
    if cs.len() == 0 {
        TaskV::Sat
    } else {
        let c = cs[0];
        if c.kind@ == "solve"@ {
            task_walk(cs.drop_first(), find_min)
        } else if c.kind@ == "maximize"@ {
            task_walk(cs.drop_first(), false)
        } else if c.kind@ == "minimize"@ {
            task_walk(cs.drop_first(), true)
        } else if c.kind@ == "satisfy"@ {
            TaskV::Sat
        } else if find_min {
            TaskV::Opt(ExprV::Call("-"@, seq![expr_of(c)]))
        } else {
            TaskV::Opt(expr_of(c))
        }
    }
}

pub open spec fn task_walk_ok(cs: Seq<SyntaxNode>, find_min: bool) -> bool
    decreases cs.len(),
{
    if cs.len() == 0 {
        true
    } else {
        let c = cs[0];
        if c.kind@ == "solve"@ {
            task_walk_ok(cs.drop_first(), find_min)
        } else if c.kind@ == "maximize"@ {
            task_walk_ok(cs.drop_first(), false)
        } else if c.kind@ == "minimize"@ {
            task_walk_ok(cs.drop_first(), true)
        } else if c.kind@ == "satisfy"@ {
            true
        } else {
            expr_ok(c)
        }
    }
}

/// The goal of a goal node.
pub open spec fn task_of(n: SyntaxNode) -> TaskV {
    task_walk(n.children@, false)
}

pub open spec fn task_ok(n: SyntaxNode) -> bool {
    task_walk_ok(n.children@, false)
}

/// The goal of a goal node; minimising `e` is maximising `-e`.
pub fn visit_task(node: &SyntaxNode) -> (r: Task)
    requires
        task_ok(*node),
    ensures
        r@ == task_of(*node),
{
    let ghost cs = node.children@;
    let task = Task::Sat;
    let mut find_min = false;
    let mut i: usize = 0;
    assert(cs.skip(0) =~= cs);
    while i < node.children.len()
        invariant
            0 <= i <= cs.len(),
            cs == node.children@,
            task_walk(cs, false) == task_walk(cs.skip(i as int), find_min),
            task_walk_ok(cs.skip(i as int), find_min),
        decreases cs.len() - i,
    {
        assert(cs.skip(i as int).drop_first() =~= cs.skip(i + 1));
        assert(cs.skip(i as int)[0] == cs[i as int]);
        let child = &node.children[i];
        if child.is_kind("solve") {
        } else if child.is_kind("maximize") {
            find_min = false;
        } else if child.is_kind("minimize") {
            find_min = true;
        } else if child.is_kind("satisfy") {
            return Task::Sat;
        } else {
            let expr = visit_expr(child);
            if find_min {
                let b = Box::new(expr);
                proof {
                    lemma_exprs_view_small(b, b);
                }
                let mut args: Vec<Box<Expr>> = Vec::new();
                args.push(b);
                assert(args@ =~= seq![b]);
                let minus = "-".to_string();
                return Task::Opt(Expr::Call(minus, args));
            } else {
                return Task::Opt(expr);
            }
        }
        i = i + 1;
    }
    assert(cs.skip(cs.len() as int).len() == 0);
    task
}

/// The model of a source file node, reading its children in order:
/// declarations and constraints are collected, a goal replaces the goal read
/// so far (satisfaction when there is none), and other nodes are skipped.
pub open spec fn source_walk(cs: Seq<SyntaxNode>) -> ModelV
    decreases cs.len(),
{
    if cs.len() == 0 {
        ModelV { vars: Seq::empty(), constraints: Seq::empty(), task: TaskV::Sat }
    } else {
        let m = source_walk(cs.drop_last());
        let c = cs.last();
        if c.kind@ == "declaration"@ {
            ModelV { vars: m.vars.push(decl_of(c)), ..m }
        } else if c.kind@ == "constraint"@ {
            ModelV { constraints: m.constraints.push(expr_at(c.children@, 1)), ..m }
        } else if c.kind@ == "goal"@ {
            ModelV { task: task_of(c), ..m }
        } else {
            m
        }
    }
}

pub open spec fn source_walk_ok(cs: Seq<SyntaxNode>) -> bool
    decreases cs.len(),
{
    if cs.len() == 0 {
        true
    } else {
        let c = cs.last();
        source_walk_ok(cs.drop_last()) && if c.kind@ == "declaration"@ {
            decl_ok(c)
        } else if c.kind@ == "constraint"@ {
            expr_ok_at(c.children@, 1)
        } else if c.kind@ == "goal"@ {
            task_ok(c)
        } else {
            true
        }
    }
}

/// The model of a source file node.
pub open spec fn model_of(n: SyntaxNode) -> ModelV {
    source_walk(n.children@)
}

/// Whether reading a source file node stays clear of a failing step.
pub open spec fn source_ok(n: SyntaxNode) -> bool {
    source_walk_ok(n.children@)
}

proof fn lemma_source_walk_ok_prefix(cs: Seq<SyntaxNode>, i: int)
    requires
        source_walk_ok(cs),
        0 <= i <= cs.len(),
    ensures
        source_walk_ok(cs.take(i)),
    decreases cs.len() - i,
{
    if i < cs.len() {
        lemma_source_walk_ok_prefix(cs, i + 1);
        assert(cs.take(i + 1).drop_last() =~= cs.take(i));
    } else {
        assert(cs.take(i) =~= cs);
    }
}

/// Whether `n` is a line comment or an output item, which reading a source
/// file passes over.
pub open spec fn is_comment_or_output(n: SyntaxNode) -> bool {
    n.kind@ == "line_comment"@ || n.kind@ == "output"@
}

/// Top-level line comments and output items leave the model of a file
/// unchanged: putting one anywhere among the items of a file gives the same
/// model, and reading the file goes through exactly when it went through
/// before. (Taking one out is the same statement read backwards.)
pub proof fn lemma_comment_or_output_ignored(cs: Seq<SyntaxNode>, i: int, c: SyntaxNode)
    requires
        0 <= i <= cs.len(),
        is_comment_or_output(c),
    ensures
        source_walk(cs.insert(i, c)) == source_walk(cs),
        source_walk_ok(cs.insert(i, c)) == source_walk_ok(cs),
    decreases cs.len() - i,
{
    reveal_strlit("line_comment");
    reveal_strlit("output");
    reveal_strlit("declaration");
    reveal_strlit("constraint");
    reveal_strlit("goal");
    let ds = cs.insert(i, c);
    if i == cs.len() {
        assert(ds.drop_last() =~= cs);
        assert(ds.last() == c);
        assert(c.kind@.len() == 12 || c.kind@.len() == 6);
        assert("declaration"@.len() == 11);
        assert("constraint"@.len() == 10);
        assert("goal"@.len() == 4);
    } else {
        lemma_comment_or_output_ignored(cs.drop_last(), i, c);
        assert(ds.drop_last() =~= cs.drop_last().insert(i, c));
        assert(ds.last() == cs.last());
    }
}

/// The model of a source file node.
pub fn visit_source_file(node: &SyntaxNode) -> (r: Model)
    requires
        source_ok(*node),
    ensures
        r@ == model_of(*node),
{
    let ghost cs = node.children@;
    let mut model = Model { vars: vec![], constraints: vec![], task: Task::Sat };
    assert(model@.vars =~= Seq::empty());
    assert(model@.constraints =~= Seq::empty());
    let mut i: usize = 0;
    while i < node.children.len()
        invariant
            0 <= i <= cs.len(),
            cs == node.children@,
            source_walk_ok(cs),
            model@ == source_walk(cs.take(i as int)),
        decreases cs.len() - i,
    {
        proof {
            lemma_source_walk_ok_prefix(cs, i + 1);
            assert(cs.take(i + 1).drop_last() =~= cs.take(i as int));
            assert(cs.take(i + 1).last() == cs[i as int]);
        }
        let child = &node.children[i];
        let ghost before = model@;
        if child.is_kind("declaration") {
            let (ty, name, assign) = visit_declaration(child);
            model.vars.push((ty, name, assign));
            assert(model@.vars =~= before.vars.push(decl_of(*child)));
        } else if child.is_kind("constraint") {
            let c = visit_expr(child.child(1).unwrap());
            model.constraints.push(c);
            assert(model@.constraints =~= before.constraints.push(expr_at(child.children@, 1)));
        } else if child.is_kind("goal") {
            model.task = visit_task(child);
        } else if child.is_kind("line_comment") {
        } else if child.is_kind("output") {
        }
        i = i + 1;
    }
    assert(cs.take(cs.len() as int) =~= cs);
    model
}

} // verus!
