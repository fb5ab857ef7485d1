//! Laws of reading a syntax tree into a model and of rendering it: what a
//! generator call keeps of its generators, how a goal reads, which items make
//! the constraints and declarations of a model, what a declaration keeps of
//! its assignment, and which operators are written between their operands.
use vstd::prelude::*;
use crate::cst::{SyntaxNode, has_field, field_pos};
use crate::display::{expr_str, exprs_str};
use crate::generator::{GenClause, clauses, lemma_merge_appends_single_clause, lemma_merge_keeps_clauses};
use crate::model::{ExprV, TaskV, TypeV};
use crate::visit::{decl_of, expr_at, expr_of, gen_of, gens_of, model_of, task_of, type_at};

verus! {

// ---------------------------------------------------------------------------
// Generator calls
// ---------------------------------------------------------------------------

/// Whether `c` is a generator child under the field `f` (a `,` is none).
pub open spec fn is_gen_child(c: SyntaxNode, f: Seq<char>) -> bool {
    has_field(c, f) && c.kind@ != ","@
}

/// The clauses of the generator children of `cs` under the field `f`, one
/// child after the other.
pub open spec fn child_clauses(cs: Seq<SyntaxNode>, f: Seq<char>) -> Seq<GenClause>
    decreases cs.len(),
{
    if cs.len() == 0 {
        Seq::empty()
    } else if is_gen_child(cs.last(), f) {
        child_clauses(cs.drop_last(), f) + clauses(gen_of(cs.last()))
    } else {
        child_clauses(cs.drop_last(), f)
    }
}

/// Every generator child of `cs` under the field `f` has at most one clause.
pub open spec fn single_clause_children(cs: Seq<SyntaxNode>, f: Seq<char>) -> bool {
    forall|j: int|
        0 <= j < cs.len() && is_gen_child(cs[j], f) ==> #[trigger] clauses(gen_of(cs[j])).len()
            <= 1
}

/// The generators of a call keep every clause of every generator child: as
/// many clauses as the children have together, the same clauses, and, when
/// each child has one clause (`i in 1..n`), the children's clauses in the
/// order in which the children are written.
pub proof fn lemma_generators_keep_every_child(cs: Seq<SyntaxNode>, f: Seq<char>)
    ensures
        clauses(gens_of(cs, f)).len() == child_clauses(cs, f).len(),
        clauses(gens_of(cs, f)).to_multiset() == child_clauses(cs, f).to_multiset(),
        single_clause_children(cs, f) ==> clauses(gens_of(cs, f)) == child_clauses(cs, f),
    decreases cs.len(),
{
    if cs.len() > 0 {
        let c = cs.last();
        let rest = cs.drop_last();
        lemma_generators_keep_every_child(rest, f);
        if is_gen_child(c, f) {
            lemma_merge_keeps_clauses(gens_of(rest, f), gen_of(c));
            vstd::seq_lib::lemma_multiset_commutative(child_clauses(rest, f), clauses(gen_of(c)));
            if single_clause_children(cs, f) {
                assert forall|j: int|
                    0 <= j < rest.len() && is_gen_child(rest[j], f) implies #[trigger] clauses(
                    gen_of(rest[j]),
                ).len() <= 1 by {
                    assert(rest[j] == cs[j]);
                }
                assert(clauses(gen_of(cs[cs.len() - 1])).len() <= 1);
                lemma_merge_appends_single_clause(gens_of(rest, f), gen_of(c));
            }
        }
    }
}

/// The generator and body of a call on a single comprehension.
pub open spec fn sole_comprehension(e: ExprV) -> Option<(crate::model::GenExprV, ExprV)> {
    match e {
        ExprV::Call(_, args) => if args.len() == 1 {
            match args[0] {
                ExprV::Comprehension(g, body) => Some((g, *body)),
                _ => None,
            }
        } else {
            None
        },
        _ => None,
    }
}

/// Reading a generator call such as `forall(i in 1..n, j in 1..m)(e)` gives a
/// call of its name on one comprehension whose generator keeps every clause
/// of every generator child (in the order written when each child has one
/// clause), and whose body is the template.
pub proof fn lemma_generator_call_reads_every_generator(n: SyntaxNode)
    requires
        n.kind@ == "generator_call"@,
    ensures
        sole_comprehension(expr_of(n)) is Some,
        ({
            let (g, body) = sole_comprehension(expr_of(n)).unwrap();
            let cs = n.children@;
            &&& clauses(g).len() == child_clauses(cs, "generators"@).len()
            &&& clauses(g).to_multiset() == child_clauses(cs, "generators"@).to_multiset()
            &&& single_clause_children(cs, "generators"@) ==> clauses(g) == child_clauses(
                cs,
                "generators"@,
            )
            &&& body == expr_at(cs, field_pos(cs, "template"@))
        }),
{
    reveal_strlit("generator_call");
    reveal_strlit("integer_literal");
    reveal_strlit("true");
    reveal_strlit("false");
    reveal_strlit("identifier");
    reveal_strlit("if_then_else");
    reveal_strlit("call");
    assert(n.kind@.len() == 14);
    assert("integer_literal"@.len() == 15);
    assert("true"@.len() == 4);
    assert("false"@.len() == 5);
    assert("identifier"@.len() == 10);
    assert("if_then_else"@.len() == 12);
    assert("call"@.len() == 4);
    lemma_generators_keep_every_child(n.children@, "generators"@);
}

// ---------------------------------------------------------------------------
// Goals
// ---------------------------------------------------------------------------

/// Whether `c` is one of the keywords that a goal reads before its objective.
pub open spec fn is_goal_keyword(c: SyntaxNode) -> bool {
    c.kind@ == "solve"@ || c.kind@ == "maximize"@ || c.kind@ == "minimize"@ || c.kind@
        == "satisfy"@
}

/// A goal `solve minimize e` is read as maximising `-e`, `solve maximize e`
/// as maximising `e`, whatever expression `e` is, and `solve satisfy` as
/// satisfaction.
pub proof fn lemma_goal_reads_direction(n: SyntaxNode)
    requires
        n.children@.len() >= 2,
        n.children@[0].kind@ == "solve"@,
    ensures
        n.children@[1].kind@ == "satisfy"@ ==> task_of(n) == TaskV::Sat,
        n.children@.len() >= 3 && !is_goal_keyword(n.children@[2]) ==> {
            &&& n.children@[1].kind@ == "minimize"@ ==> task_of(n) == TaskV::Opt(
                ExprV::Call("-"@, seq![expr_of(n.children@[2])]),
            )
            &&& n.children@[1].kind@ == "maximize"@ ==> task_of(n) == TaskV::Opt(
                expr_of(n.children@[2]),
            )
        },
{
    reveal_strlit("solve");
    reveal_strlit("maximize");
    reveal_strlit("minimize");
    reveal_strlit("satisfy");
    let cs = n.children@;
    let cs1 = cs.drop_first();
    assert("solve"@.len() == 5);
    assert("satisfy"@.len() == 7);
    assert("maximize"@.len() == 8 && "minimize"@.len() == 8);
    assert("maximize"@[1] == 'a' && "minimize"@[1] == 'i');
    assert(cs1[0] == cs[1]);
    assert(task_of(n) == crate::visit::task_walk(cs1, false));
    if cs[1].kind@ == "satisfy"@ {
        assert(crate::visit::task_walk(cs1, false) == TaskV::Sat);
    }
    if cs.len() >= 3 && !is_goal_keyword(cs[2]) {
        let cs2 = cs1.drop_first();
        assert(cs2[0] == cs[2]);
        if cs[1].kind@ == "minimize"@ {
            assert(crate::visit::task_walk(cs1, false) == crate::visit::task_walk(cs2, true));
            assert(crate::visit::task_walk(cs2, true) == TaskV::Opt(
                ExprV::Call("-"@, seq![expr_of(cs[2])]),
            ));
        }
        if cs[1].kind@ == "maximize"@ {
            assert(crate::visit::task_walk(cs1, false) == crate::visit::task_walk(cs2, false));
        }
    }
}

// ---------------------------------------------------------------------------
// Whole programs
// ---------------------------------------------------------------------------

/// The expressions of the constraint items of `cs`, one per item, in order.
pub open spec fn constraint_exprs(cs: Seq<SyntaxNode>) -> Seq<ExprV>
    decreases cs.len(),
{
    if cs.len() == 0 {
        Seq::empty()
    } else if cs.last().kind@ == "constraint"@ {
        constraint_exprs(cs.drop_last()).push(expr_at(cs.last().children@, 1))
    } else {
        constraint_exprs(cs.drop_last())
    }
}

/// The declarations of the declaration items of `cs`, one per item, in order.
pub open spec fn declarations(cs: Seq<SyntaxNode>) -> Seq<(TypeV, Seq<char>, Seq<char>)>
    decreases cs.len(),
{
    if cs.len() == 0 {
        Seq::empty()
    } else if cs.last().kind@ == "declaration"@ {
        declarations(cs.drop_last()).push(decl_of(cs.last()))
    } else {
        declarations(cs.drop_last())
    }
}

/// The goal of the last goal item of `cs`, or satisfaction when there is none.
pub open spec fn last_goal(cs: Seq<SyntaxNode>) -> TaskV
    decreases cs.len(),
{
    if cs.len() == 0 {
        TaskV::Sat
    } else if cs.last().kind@ == "goal"@ {
        task_of(cs.last())
    } else {
        last_goal(cs.drop_last())
    }
}

/// The constraints of the model of a file are the expressions of its
/// constraint items, one per item and in order, and its declarations are
/// those of its declaration items, one per item and in order; its goal is
/// that of its last goal item, or satisfaction when it has none.
pub proof fn lemma_model_keeps_every_item(n: SyntaxNode)
    ensures
        model_of(n).constraints == constraint_exprs(n.children@),
        model_of(n).vars == declarations(n.children@),
        model_of(n).task == last_goal(n.children@),
{
    lemma_source_walk_items(n.children@);
}

proof fn lemma_source_walk_items(cs: Seq<SyntaxNode>)
    ensures
        crate::visit::source_walk(cs).constraints == constraint_exprs(cs),
        crate::visit::source_walk(cs).vars == declarations(cs),
        crate::visit::source_walk(cs).task == last_goal(cs),
    decreases cs.len(),
{
    reveal_strlit("declaration");
    reveal_strlit("constraint");
    assert("declaration"@.len() == 11);
    assert("constraint"@.len() == 10);
    reveal_strlit("goal");
    assert("goal"@.len() == 4);
    if cs.len() > 0 {
        lemma_source_walk_items(cs.drop_last());
    }
}

// ---------------------------------------------------------------------------
// Declarations
// ---------------------------------------------------------------------------

/// A declaration reads the type of its `type` child, the text of its `name`
/// child, and the whole source text of its `expr` child whatever kind of
/// expression that is, or the empty text when it has none.
pub proof fn lemma_declaration_keeps_assignment(n: SyntaxNode)
    ensures
        ({
            let cs = n.children@;
            let e = field_pos(cs, "expr"@);
            let x = field_pos(cs, "name"@);
            &&& decl_of(n).0 == type_at(cs, field_pos(cs, "type"@))
            &&& 0 <= x < cs.len() ==> decl_of(n).1 == cs[x].text@
            &&& 0 <= e < cs.len() ==> decl_of(n).2 == cs[e].text@
            &&& !(0 <= e < cs.len()) ==> decl_of(n).2 == Seq::<char>::empty()
        }),
{
}

// ---------------------------------------------------------------------------
// Operators
// ---------------------------------------------------------------------------

/// A call of one of the binary operators of MiniZinc (`+ - * / < <= > >= ==
/// != .. = /\ \/`) on two operands is written between them.
pub proof fn lemma_binary_operators_render_infix(op: Seq<char>, a: ExprV, b: ExprV)
    requires
        op == "+"@ || op == "-"@ || op == "*"@ || op == "/"@ || op == "<"@ || op == "<="@ || op
            == ">"@ || op == ">="@ || op == "=="@ || op == "!="@ || op == ".."@ || op == "="@
            || op == "/\\"@ || op == "\\/"@,
    ensures
        expr_str(ExprV::Call(op, seq![a, b])) == expr_str(a) + " "@ + op + " "@ + expr_str(b),
{
}

/// A call of any other name on two operands, the first of them no
/// comprehension, is written as the name with its operands in parentheses.
pub proof fn lemma_other_calls_render_prefix(op: Seq<char>, a: ExprV, b: ExprV)
    requires
        !(op == "+"@ || op == "-"@ || op == "*"@ || op == "/"@ || op == "<"@ || op == "<="@
            || op == ">"@ || op == ">="@ || op == "=="@ || op == "!="@ || op == ".."@ || op
            == "="@ || op == "/\\"@ || op == "\\/"@),
        !(a is Comprehension),
    ensures
        expr_str(ExprV::Call(op, seq![a, b])) == op + "("@ + exprs_str(seq![a, b]) + ")"@,
{
    assert(seq![a, b][0] == a);
}

} // verus!
