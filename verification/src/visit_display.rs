//! What reading a syntax tree and rendering the result have to do with
//! each other: a model read from a tree can be rendered as soon as every call in
//! the source has an argument.
use vstd::prelude::*;
use crate::cst::{SyntaxNode, has_field, named_count, named_pos};
use crate::display::{
    all_printable, basic_printable, gen_printable, model_printable, printable, task_printable,
    type_printable, types_printable,
};
use crate::generator::{gen_depth, merge_gen};
use crate::model::{ExprV, GenExprV};
use crate::visit::{
    args_of, args_ok, array_dims, base_of, base_ok, comp_gens_of, comp_gens_ok, dims_ok, expr_at,
    expr_of, expr_ok, expr_ok_at, gen_of, gen_ok, gen_walk, gen_walk_ok, gens_of, gens_ok,
    model_of, source_ok, source_walk, source_walk_ok, task_walk, task_walk_ok, type_at, type_of,
    type_ok, type_ok_at,
};

verus! {

/// The number of children held under the field `f` that are not `,` tokens.
pub open spec fn arg_count(cs: Seq<SyntaxNode>, f: Seq<char>) -> nat
    decreases cs.len(),
{
    if cs.len() == 0 {
        0
    } else {
        arg_count(cs.drop_last(), f) + if has_field(cs.last(), f) && cs.last().kind@ != ","@ {
            1nat
        } else {
            0nat
        }
    }
}

/// Every node of kind `call` in the tree of `n` has an argument.
pub open spec fn calls_have_args(n: SyntaxNode) -> bool
    decreases n,
{
    (n.kind@ == "call"@ ==> arg_count(n.children@, "arguments"@) > 0) && all_calls_have_args(
        n.children@,
    )
}

/// `calls_have_args` holds of every node of `cs`.
pub open spec fn all_calls_have_args(cs: Seq<SyntaxNode>) -> bool
    decreases cs,
{
    if cs.len() == 0 {
        true
    } else {
        all_calls_have_args(cs.drop_last()) && calls_have_args(cs.last())
    }
}

proof fn lemma_all_calls(cs: Seq<SyntaxNode>)
    ensures
        all_calls_have_args(cs) <==> forall|k: int|
            0 <= k < cs.len() ==> calls_have_args(#[trigger] cs[k]),
    decreases cs.len(),
{
    if cs.len() > 0 {
        lemma_all_calls(cs.drop_last());
        if all_calls_have_args(cs) {
            assert forall|k: int| 0 <= k < cs.len() implies calls_have_args(#[trigger] cs[k]) by {
                if k < cs.len() - 1 {
                    assert(cs.drop_last()[k] == cs[k]);
                }
            }
        }
        if forall|k: int| 0 <= k < cs.len() ==> calls_have_args(#[trigger] cs[k]) {
            assert forall|k: int| 0 <= k < cs.drop_last().len() implies calls_have_args(
                #[trigger] cs.drop_last()[k],
            ) by {
                assert(cs.drop_last()[k] == cs[k]);
            }
        }
    }
}

/// Merging printable generators gives a printable generator.
proof fn lemma_merge_printable(a: GenExprV, b: GenExprV)
    requires
        gen_printable(a),
        gen_printable(b),
    ensures
        gen_printable(merge_gen(a, b)),
    decreases gen_depth(a) + gen_depth(b),
{
    match b {
        GenExprV::Empty => {},
        GenExprV::Enum(h, _, _) => {
            lemma_merge_printable(*h, a);
        },
        GenExprV::Guard(h, _) => {
            lemma_merge_printable(*h, a);
        },
    }
}

proof fn lemma_small_printable(a: ExprV, b: ExprV)
    ensures
        all_printable(seq![a]) == printable(a),
        all_printable(seq![a, b]) == (printable(a) && printable(b)),
{
    assert(seq![a].drop_last() =~= Seq::<ExprV>::empty());
    assert(all_printable(Seq::<ExprV>::empty()));
    assert(seq![a].last() == a);
    assert(seq![a, b].drop_last() =~= seq![a]);
    assert(seq![a, b].last() == b);
    assert(all_printable(seq![a]) == printable(a));
    assert(all_printable(seq![a, b]) == (all_printable(seq![a, b].drop_last()) && printable(b)));
}

proof fn lemma_expr_printable(n: SyntaxNode)
    requires
        expr_ok(n),
        calls_have_args(n),
    ensures
        printable(expr_of(n)),
    decreases n,
{
    let cs = n.children@;
    lemma_all_calls(cs);
    if n.kind@ == "integer_literal"@ || n.kind@ == "true"@ || n.kind@ == "false"@ || n.kind@
        == "identifier"@ {
    } else if n.kind@ == "if_then_else"@ {
        if named_count(cs) == 3 {
            lemma_expr_at_printable(cs, named_pos(cs, 0));
            lemma_expr_at_printable(cs, named_pos(cs, 1));
            lemma_expr_at_printable(cs, named_pos(cs, 2));
        }
    } else if n.kind@ == "call"@ {
        lemma_args_printable(cs, "arguments"@);
    } else if n.kind@ == "generator_call"@ {
        let t = crate::cst::field_pos(cs, "template"@);
        lemma_expr_at_printable(cs, t);
        lemma_gens_printable(cs, "generators"@);
        let comp = ExprV::Comprehension(gens_of(cs, "generators"@), Box::new(expr_at(cs, t)));
        lemma_small_printable(comp, comp);
    } else if n.kind@ == "infix_operator"@ {
        let l = expr_at(cs, crate::cst::field_pos(cs, "left"@));
        let r = expr_at(cs, crate::cst::field_pos(cs, "right"@));
        lemma_expr_at_printable(cs, crate::cst::field_pos(cs, "left"@));
        lemma_expr_at_printable(cs, crate::cst::field_pos(cs, "right"@));
        lemma_small_printable(l, r);
    } else if n.kind@ == "prefix_operator"@ {
        lemma_expr_at_printable(cs, 1);
        lemma_small_printable(expr_at(cs, 1), expr_at(cs, 1));
    } else if n.kind@ == "array_comprehension"@ {
        lemma_expr_at_printable(cs, named_pos(cs, 0));
        lemma_comp_gens_printable(cs);
    } else if n.kind@ == "indexed_access"@ {
        lemma_expr_at_printable(cs, crate::cst::field_pos(cs, "collection"@));
        lemma_args_printable(cs, "indices"@);
    } else if n.kind@ == "parenthesised_expression"@ {
        lemma_expr_at_printable(cs, named_pos(cs, 0));
    }
}

proof fn lemma_expr_at_printable(cs: Seq<SyntaxNode>, j: int)
    requires
        expr_ok_at(cs, j),
        all_calls_have_args(cs),
    ensures
        printable(expr_at(cs, j)),
    decreases cs,
{
    lemma_all_calls(cs);
    lemma_expr_printable(cs[j]);
}

proof fn lemma_args_printable(cs: Seq<SyntaxNode>, f: Seq<char>)
    requires
        args_ok(cs, f),
        all_calls_have_args(cs),
    ensures
        all_printable(args_of(cs, f)),
        args_of(cs, f).len() == arg_count(cs, f),
    decreases cs,
{
    if cs.len() > 0 {
        lemma_args_printable(cs.drop_last(), f);
        let c = cs.last();
        if has_field(c, f) && c.kind@ != ","@ {
            lemma_expr_printable(c);
            let a = args_of(cs, f);
            assert(a.drop_last() =~= args_of(cs.drop_last(), f));
        }
    }
}

proof fn lemma_gens_printable(cs: Seq<SyntaxNode>, f: Seq<char>)
    requires
        gens_ok(cs, f),
        all_calls_have_args(cs),
    ensures
        gen_printable(gens_of(cs, f)),
    decreases cs,
{
    if cs.len() > 0 {
        lemma_gens_printable(cs.drop_last(), f);
        let c = cs.last();
        if has_field(c, f) && c.kind@ != ","@ {
            lemma_gen_printable(c);
            lemma_merge_printable(gens_of(cs.drop_last(), f), gen_of(c));
        }
    }
}

proof fn lemma_comp_gens_printable(cs: Seq<SyntaxNode>)
    requires
        comp_gens_ok(cs),
        all_calls_have_args(cs),
    ensures
        gen_printable(comp_gens_of(cs)),
    decreases cs,
{
    if cs.len() > 0 {
        lemma_comp_gens_printable(cs.drop_last());
        let c = cs.last();
        if c.named && named_count(cs.drop_last()) >= 1 {
            lemma_gen_printable(c);
            lemma_merge_printable(comp_gens_of(cs.drop_last()), gen_of(c));
        }
    }
}

proof fn lemma_gen_printable(n: SyntaxNode)
    requires
        gen_ok(n),
        calls_have_args(n),
    ensures
        gen_printable(gen_of(n)),
    decreases n,
{
    lemma_gen_walk_printable(n.children@);
}

proof fn lemma_gen_walk_printable(cs: Seq<SyntaxNode>)
    requires
        gen_walk_ok(cs),
        all_calls_have_args(cs),
    ensures
        gen_printable(gen_walk(cs).0),
    decreases cs,
{
    if cs.len() > 0 {
        lemma_gen_walk_printable(cs.drop_last());
        let c = cs.last();
        if c.kind@ != "identifier"@ && c.kind@ != "in"@ && c.kind@ != "where"@ {
            lemma_expr_printable(c);
        }
    }
}

proof fn lemma_base_printable(n: SyntaxNode)
    requires
        base_ok(n),
        calls_have_args(n),
    ensures
        basic_printable(base_of(n)),
{
    let cs = n.children@;
    if n.kind@ != "primitive_type"@ && n.kind@ == "infix_operator"@ {
        lemma_expr_at_printable(cs, crate::cst::field_pos(cs, "left"@));
        lemma_expr_at_printable(cs, crate::cst::field_pos(cs, "right"@));
    }
}

proof fn lemma_type_printable(n: SyntaxNode)
    requires
        type_ok(n),
        calls_have_args(n),
    ensures
        type_printable(type_of(n)),
    decreases n,
{
    let cs = n.children@;
    lemma_all_calls(cs);
    if n.kind@ == "type_base"@ {
        lemma_base_printable(cs[named_pos(cs, 0)]);
    } else if n.kind@ == "array_type"@ {
        let k = named_count(cs);
        lemma_dims_printable(cs, k as int);
        lemma_type_at_printable(cs, named_pos(cs, k - 1));
    }
}

proof fn lemma_type_at_printable(cs: Seq<SyntaxNode>, j: int)
    requires
        type_ok_at(cs, j),
        all_calls_have_args(cs),
    ensures
        type_printable(type_at(cs, j)),
    decreases cs,
{
    lemma_all_calls(cs);
    lemma_type_printable(cs[j]);
}

proof fn lemma_dims_printable(cs: Seq<SyntaxNode>, total: int)
    requires
        dims_ok(cs, total),
        all_calls_have_args(cs),
    ensures
        types_printable(array_dims(cs, total)),
    decreases cs,
{
    if cs.len() > 0 {
        lemma_dims_printable(cs.drop_last(), total);
        let c = cs.last();
        if c.named && named_count(cs.drop_last()) < total - 1 {
            lemma_type_printable(c);
            let d = array_dims(cs, total);
            assert(d.drop_last() =~= array_dims(cs.drop_last(), total));
        }
    }
}

proof fn lemma_task_walk_printable(cs: Seq<SyntaxNode>, find_min: bool)
    requires
        task_walk_ok(cs, find_min),
        all_calls_have_args(cs),
    ensures
        task_printable(task_walk(cs, find_min)),
    decreases cs.len(),
{
    lemma_all_calls(cs);
    if cs.len() > 0 {
        let c = cs[0];
        let rest = cs.drop_first();
        lemma_all_calls(rest);
        assert forall|k: int| 0 <= k < rest.len() implies calls_have_args(#[trigger] rest[k]) by {
            assert(rest[k] == cs[k + 1]);
        }
        if c.kind@ == "solve"@ {
            lemma_task_walk_printable(rest, find_min);
        } else if c.kind@ == "maximize"@ {
            lemma_task_walk_printable(rest, false);
        } else if c.kind@ == "minimize"@ {
            lemma_task_walk_printable(rest, true);
        } else if c.kind@ == "satisfy"@ {
        } else {
            lemma_expr_printable(c);
            lemma_small_printable(expr_of(c), expr_of(c));
        }
    }
}

proof fn lemma_source_walk_printable(cs: Seq<SyntaxNode>)
    requires
        source_walk_ok(cs),
        all_calls_have_args(cs),
    ensures
        model_printable(source_walk(cs)),
    decreases cs.len(),
{
    if cs.len() > 0 {
        lemma_source_walk_printable(cs.drop_last());
        let c = cs.last();
        let m = source_walk(cs.drop_last());
        assert(calls_have_args(c));
        assert(all_calls_have_args(c.children@));
        if c.kind@ == "declaration"@ {
            let cc = c.children@;
            lemma_type_at_printable(cc, crate::cst::field_pos(cc, "type"@));
            let r = source_walk(cs);
            assert forall|k: int| 0 <= k < r.vars.len() implies type_printable(
                #[trigger] r.vars[k].0,
            ) by {
                if k < m.vars.len() {
                    assert(r.vars[k] == m.vars[k]);
                }
            }
        } else if c.kind@ == "constraint"@ {
            lemma_expr_at_printable(c.children@, 1);
            let r = source_walk(cs);
            assert forall|k: int| 0 <= k < r.constraints.len() implies printable(
                #[trigger] r.constraints[k],
            ) by {
                if k < m.constraints.len() {
                    assert(r.constraints[k] == m.constraints[k]);
                }
            }
        } else if c.kind@ == "goal"@ {
            lemma_task_walk_printable(c.children@, false);
        }
    }
}

/// Reading a source file node in which every `call` node has an argument
/// gives a model that can be rendered.
pub proof fn lemma_visited_model_printable(n: SyntaxNode)
    requires
        source_ok(n),
        calls_have_args(n),
    ensures
        model_printable(model_of(n)),
{
    lemma_source_walk_printable(n.children@);
}

} // verus!
