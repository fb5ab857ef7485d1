//! Combining the generator clauses of a comprehension.
use vstd::prelude::*;
use crate::model::{ExprV, GenExpr, GenExprV};

verus! {

broadcast use vstd::seq_lib::group_to_multiset_ensures;

/// The number of links of a generator chain.
pub open spec fn gen_depth(g: GenExprV) -> nat
    decreases g,
{
    match g {
        GenExprV::Empty => 0,
        GenExprV::Enum(h, _, _) => 1 + gen_depth(*h),
        GenExprV::Guard(h, _) => 1 + gen_depth(*h),
    }
}

/// What `merge_gen_expr` computes, on the mathematical generators: the
/// outermost link of `g2` stays outermost, and the rest of `g2` is merged with
/// `g1` with the roles of the two swapped.
pub open spec fn merge_gen(g1: GenExprV, g2: GenExprV) -> GenExprV
    decreases gen_depth(g1) + gen_depth(g2),
{
    match g2 {
        GenExprV::Empty => g1,
        GenExprV::Enum(g, s, e) => GenExprV::Enum(Box::new(merge_gen(*g, g1)), s, e),
        GenExprV::Guard(g, e) => GenExprV::Guard(Box::new(merge_gen(*g, g1)), e),
    }
}

/// One clause of a generator: `name in e` or `where e`.
pub enum GenClause {
    In(Seq<char>, ExprV),
    Where(ExprV),
}

/// The clauses of a generator, in the order in which they are written.
pub open spec fn clauses(g: GenExprV) -> Seq<GenClause>
    decreases g,
{
    match g {
        GenExprV::Empty => Seq::empty(),
        GenExprV::Enum(h, s, e) => clauses(*h).push(GenClause::In(s, *e)),
        GenExprV::Guard(h, e) => clauses(*h).push(GenClause::Where(*e)),
    }
}

/// Merges the generator `gen_expr2` into `gen_expr1`.
pub fn merge_gen_expr(gen_expr1: GenExpr, gen_expr2: GenExpr) -> (r: GenExpr)
    ensures
        r@ == merge_gen(gen_expr1@, gen_expr2@),
    decreases gen_depth(gen_expr1@) + gen_depth(gen_expr2@),
{
    match gen_expr2 {
        GenExpr::Empty => gen_expr1,
        GenExpr::Enum(g, s, e) => GenExpr::Enum(Box::new(merge_gen_expr(*g, gen_expr1)), s, e),
        GenExpr::Guard(g, e) => GenExpr::Guard(Box::new(merge_gen_expr(*g, gen_expr1)), e),
    }
}

/// Merging with the empty generator, on either side, changes nothing.
pub proof fn lemma_merge_identity(g: GenExprV)
    ensures
        merge_gen(g, GenExprV::Empty) == g,
        merge_gen(GenExprV::Empty, g) == g,
{
    match g {
        GenExprV::Empty => {},
        GenExprV::Enum(h, s, e) => {
            assert(merge_gen(*h, GenExprV::Empty) == *h);
        },
        GenExprV::Guard(h, e) => {
            assert(merge_gen(*h, GenExprV::Empty) == *h);
        },
    }
}

/// A merge keeps every clause of both generators, each as often as it occurs
/// there, and adds none.
pub proof fn lemma_merge_keeps_clauses(g1: GenExprV, g2: GenExprV)
    ensures
        clauses(merge_gen(g1, g2)).to_multiset() =~= clauses(g1).to_multiset().add(
            clauses(g2).to_multiset(),
        ),
        clauses(merge_gen(g1, g2)).len() == clauses(g1).len() + clauses(g2).len(),
    decreases gen_depth(g1) + gen_depth(g2),
{
    match g2 {
        GenExprV::Empty => {
            assert(clauses(g2).to_multiset() =~= vstd::multiset::Multiset::empty());
        },
        GenExprV::Enum(h, s, e) => {
            lemma_merge_keeps_clauses(*h, g1);
        },
        GenExprV::Guard(h, e) => {
            lemma_merge_keeps_clauses(*h, g1);
        },
    }
}

/// When the second generator has at most one clause, merging appends its
/// clause after the clauses of the first, in order.
pub proof fn lemma_merge_appends_single_clause(g1: GenExprV, g2: GenExprV)
    requires
        clauses(g2).len() <= 1,
    ensures
        clauses(merge_gen(g1, g2)) =~= clauses(g1) + clauses(g2),
{
    lemma_merge_identity(g1);
    match g2 {
        GenExprV::Empty => {},
        GenExprV::Enum(h, s, e) => {
            lemma_clauses_empty(*h);
        },
        GenExprV::Guard(h, e) => {
            lemma_clauses_empty(*h);
        },
    }
}

proof fn lemma_clauses_empty(g: GenExprV)
    requires
        clauses(g).len() == 0,
    ensures
        g == GenExprV::Empty,
{
    match g {
        GenExprV::Empty => {},
        GenExprV::Enum(h, s, e) => {},
        GenExprV::Guard(h, e) => {},
    }
}

} // verus!
