//! Rendering a model as MiniZinc text.
use vstd::prelude::*;
use crate::model::{
    BasicType, BasicTypeV, Expr, ExprV, GenExpr, GenExprV, IntType, IntTypeV, Model, ModelV,
    Task, TaskV, Type, TypeV, lemma_exprs_view, lemma_types_view, expr_view, type_view,
    decl_view,
};
use crate::generator::{GenClause, clauses};
use crate::text::{decimal, push_decimal, text_eq};

verus! {

/// The operators that are written between their two operands.
pub open spec fn is_infix(s: Seq<char>) -> bool {
    ||| s == "+"@
    ||| s == "-"@
    ||| s == "*"@
    ||| s == "/"@
    ||| s == "<"@
    ||| s == "<="@
    ||| s == ">"@
    ||| s == ">="@
    ||| s == "=="@
    ||| s == "!="@
    ||| s == ".."@
    ||| s == "="@
    ||| s == "/\\"@
    ||| s == "\\/"@
}

/// `s` without its last two characters (all of them when it has fewer).
pub open spec fn drop_two(s: Seq<char>) -> Seq<char> {
    if s.len() >= 2 {
        s.take(s.len() - 2)
    } else {
        Seq::empty()
    }
}

/// Every call in the expression has at least one argument: the rendering
/// inspects the first argument of every call that is not a binary operator.
pub open spec fn printable(e: ExprV) -> bool
    decreases e,
{
    match e {
        ExprV::If(a, b, c) => printable(*a) && printable(*b) && printable(*c),
        ExprV::Call(_, es) => es.len() >= 1 && all_printable(es),
        ExprV::Comprehension(g, b) => gen_printable(g) && printable(*b),
        ExprV::ArrayAccess(a, es) => printable(*a) && all_printable(es),
        _ => true,
    }
}

pub open spec fn all_printable(es: Seq<ExprV>) -> bool
    decreases es,
{
    if es.len() == 0 {
        true
    } else {
        all_printable(es.drop_last()) && printable(es.last())
    }
}

pub proof fn lemma_all_printable(es: Seq<ExprV>)
    ensures
        all_printable(es) <==> forall|k: int| 0 <= k < es.len() ==> printable(#[trigger] es[k]),
    decreases es.len(),
{
    if es.len() > 0 {
        lemma_all_printable(es.drop_last());
        if all_printable(es) {
            assert forall|k: int| 0 <= k < es.len() implies printable(#[trigger] es[k]) by {
                if k < es.len() - 1 {
                    assert(es.drop_last()[k] == es[k]);
                }
            }
        }
        if forall|k: int| 0 <= k < es.len() ==> printable(#[trigger] es[k]) {
            assert forall|k: int| 0 <= k < es.drop_last().len() implies printable(
                #[trigger] es.drop_last()[k],
            ) by {
                assert(es.drop_last()[k] == es[k]);
            }
        }
    }
}

pub open spec fn gen_printable(g: GenExprV) -> bool
    decreases g,
{
    match g {
        GenExprV::Empty => true,
        GenExprV::Enum(h, _, e) => gen_printable(*h) && printable(*e),
        GenExprV::Guard(h, e) => gen_printable(*h) && printable(*e),
    }
}

/// The text of an expression.
pub open spec fn expr_str(e: ExprV) -> Seq<char>
    decreases e,
{
    match e {
        ExprV::Var(v) => v,
        ExprV::True => "true"@,
        ExprV::False => "false"@,
        ExprV::Int(i) => decimal(i),
        ExprV::If(a, b, c) => "if "@ + expr_str(*a) + " then "@ + expr_str(*b) + " else "@
            + expr_str(*c) + " endif"@,
        ExprV::Call(s, es) => if is_infix(s) && es.len() == 2 {
            expr_str(es[0]) + " "@ + s + " "@ + expr_str(es[1])
        } else if es.len() >= 1 {
            match es[0] {
                ExprV::Comprehension(g, b) => s + " ("@ + drop_two(gen_str(g)) + ")("@
                    + expr_str(*b) + ")"@,
                _ => s + "("@ + exprs_str(es) + ")"@,
            }
        } else {
            // not reached for printable expressions
            Seq::empty()
        },
        ExprV::Comprehension(g, b) => "["@ + expr_str(*b) + " | "@ + drop_two(gen_str(g)) + "]"@,
        ExprV::ArrayAccess(a, es) => expr_str(*a) + "["@ + exprs_str(es) + "]"@,
    }
}

/// The texts of the expressions, separated by `", "`.
pub open spec fn exprs_str(es: Seq<ExprV>) -> Seq<char>
    decreases es,
{
    if es.len() == 0 {
        Seq::empty()
    } else if es.len() == 1 {
        expr_str(es[0])
    } else {
        exprs_str(es.drop_last()) + ", "@ + expr_str(es.last())
    }
}

/// The text of a generator: each clause followed by `", "`.
pub open spec fn gen_str(g: GenExprV) -> Seq<char>
    decreases g,
{
    match g {
        GenExprV::Empty => Seq::empty(),
        GenExprV::Enum(h, s, e) => gen_str(*h) + s + " in "@ + expr_str(*e) + ", "@,
        GenExprV::Guard(h, e) => gen_str(*h) + "where "@ + expr_str(*e) + ", "@,
    }
}

/// Whether `s` is one of the operators written between their two operands.
pub fn is_infix_op(s: &String) -> (b: bool)
    ensures
        b == is_infix(s@),
{
    text_eq(s, "+") || text_eq(s, "-") || text_eq(s, "*") || text_eq(s, "/") || text_eq(s, "<")
        || text_eq(s, "<=") || text_eq(s, ">") || text_eq(s, ">=") || text_eq(s, "==")
        || text_eq(s, "!=") || text_eq(s, "..") || text_eq(s, "=") || text_eq(s, "/\\")
        || text_eq(s, "\\/")
}

/// Appends the texts of `es`, separated by `", "`.
fn write_list(es: &Vec<Box<Expr>>, out: &mut String)
    requires
        forall|k: int| 0 <= k < es@.len() ==> printable(#[trigger] expr_view(*es@[k])),
    ensures
        final(out)@ == old(out)@ + exprs_str(crate::model::exprs_view(es@)),
    decreases es,
{
    let ghost vs = crate::model::exprs_view(es@);
    proof {
        lemma_exprs_view(es@);
    }
    let mut i: usize = 0;
    while i < es.len()
        invariant
            0 <= i <= es@.len(),
            vs == crate::model::exprs_view(es@),
            vs.len() == es@.len(),
            forall|k: int| 0 <= k < es@.len() ==> #[trigger] vs[k] == expr_view(*es@[k]),
            forall|k: int| 0 <= k < es@.len() ==> printable(#[trigger] expr_view(*es@[k])),
            out@ == old(out)@ + exprs_str(vs.take(i as int)),
        decreases es@.len() - i,
    {
        let ghost before = out@;
        if i > 0 {
            out.append(", ");
        }
        assert(vs[i as int] == expr_view(*es@[i as int]));
        es[i].write_to(out);
        proof {
            let t = vs.take(i + 1);
            assert(t.drop_last() =~= vs.take(i as int));
            assert(t.last() == vs[i as int]);
            if i == 0 {
                assert(exprs_str(vs.take(0)) =~= Seq::<char>::empty());
                assert(out@ =~= old(out)@ + exprs_str(t));
            } else {
                assert(out@ =~= old(out)@ + exprs_str(t));
            }
        }
        i = i + 1;
    }
    assert(vs.take(es@.len() as int) =~= vs);
}

impl Expr {
    /// Appends the text of this expression to `out`.
    pub fn write_to(&self, out: &mut String)
        requires
            printable(self@),
        ensures
            final(out)@ == old(out)@ + expr_str(self@),
        decreases self,
    {
        match self {
            Expr::Var(v) => {
                out.append(v.as_str());
            },
            Expr::True => {
                out.append("true");
            },
            Expr::False => {
                out.append("false");
            },
            Expr::Int(i) => {
                push_decimal(out, *i);
            },
            Expr::If(a, b, c) => {
                out.append("if ");
                a.write_to(out);
                out.append(" then ");
                b.write_to(out);
                out.append(" else ");
                c.write_to(out);
                out.append(" endif");
                assert(out@ =~= old(out)@ + expr_str(self@));
            },
            Expr::Call(s, es) => {
                proof {
                    lemma_exprs_view(es@);
                }
                let ghost vs = crate::model::exprs_view(es@);
                proof {
                    lemma_all_printable(vs);
                }
                if is_infix_op(s) && es.len() == 2 {
                    assert(vs[0] == expr_view(*es@[0]));
                    assert(vs[1] == expr_view(*es@[1]));
                    es[0].write_to(out);
                    out.append(" ");
                    out.append(s.as_str());
                    out.append(" ");
                    es[1].write_to(out);
                    assert(out@ =~= old(out)@ + expr_str(self@));
                } else {
                    assert(vs[0] == expr_view(*es@[0]));
                    proof {
                        lemma_all_printable(vs);
                    }
                    assert(printable(vs[0]));
                    assert forall|k: int| 0 <= k < es@.len() implies printable(
                        #[trigger] expr_view(*es@[k]),
                    ) by {
                        assert(vs[k] == expr_view(*es@[k]));
                    }
                    match &*es[0] {
                        Expr::Comprehension(g, b) => {
                            out.append(s.as_str());
                            out.append(" (");
                            g.write_trimmed(out);
                            out.append(")(");
                            b.write_to(out);
                            out.append(")");
                            assert(out@ =~= old(out)@ + expr_str(self@));
                        },
                        _ => {
                            out.append(s.as_str());
                            out.append("(");
                            write_list(es, out);
                            out.append(")");
                            assert(out@ =~= old(out)@ + expr_str(self@));
                        },
                    }
                }
            },
            Expr::Comprehension(g, b) => {
                out.append("[");
                b.write_to(out);
                out.append(" | ");
                g.write_trimmed(out);
                out.append("]");
                assert(out@ =~= old(out)@ + expr_str(self@));
            },
            Expr::ArrayAccess(a, es) => {
                proof {
                    lemma_exprs_view(es@);
                }
                let ghost vs = crate::model::exprs_view(es@);
                assert(self@ == ExprV::ArrayAccess(Box::new(a@), vs));
                proof {
                    lemma_all_printable(vs);
                }
                assert forall|k: int| 0 <= k < es@.len() implies printable(
                    #[trigger] expr_view(*es@[k]),
                ) by {
                    assert(printable(vs[k]));
                    assert(vs[k] == expr_view(*es@[k]));
                }
                a.write_to(out);
                out.append("[");
                write_list(es, out);
                out.append("]");
                assert(out@ =~= old(out)@ + expr_str(self@));
            },
        }
    }

    /// The text of this expression.
    pub fn fmt(&self) -> (r: String)
        requires
            printable(self@),
        ensures
            r@ == expr_str(self@),
    {
        let mut out = String::new();
        self.write_to(&mut out);
        out
    }
}

impl GenExpr {
    /// Appends the text of this generator, every clause followed by `", "`.
    pub fn write_to(&self, out: &mut String)
        requires
            gen_printable(self@),
        ensures
            final(out)@ == old(out)@ + gen_str(self@),
        decreases self,
    {
        match self {
            GenExpr::Empty => {
                assert(out@ =~= old(out)@ + gen_str(self@));
            },
            GenExpr::Enum(h, s, e) => {
                h.write_to(out);
                out.append(s.as_str());
                out.append(" in ");
                e.write_to(out);
                out.append(", ");
                assert(out@ =~= old(out)@ + gen_str(self@));
            },
            GenExpr::Guard(h, e) => {
                h.write_to(out);
                out.append("where ");
                e.write_to(out);
                out.append(", ");
                assert(out@ =~= old(out)@ + gen_str(self@));
            },
        }
    }

    /// Appends the text of this generator without the `", "` that ends it.
    fn write_trimmed(&self, out: &mut String)
        requires
            gen_printable(self@),
        ensures
            final(out)@ == old(out)@ + drop_two(gen_str(self@)),
        decreases self,
    {
        proof {
            reveal_strlit(", ");
        }
        match self {
            GenExpr::Empty => {
                assert(out@ =~= old(out)@ + drop_two(gen_str(self@)));
            },
            GenExpr::Enum(h, s, e) => {
                h.write_to(out);
                out.append(s.as_str());
                out.append(" in ");
                e.write_to(out);
                let ghost body = gen_str(h@) + s@ + " in "@ + expr_str(e@);
                assert(gen_str(self@) =~= body + ", "@);
                assert(drop_two(gen_str(self@)) =~= body);
                assert(out@ =~= old(out)@ + drop_two(gen_str(self@)));
            },
            GenExpr::Guard(h, e) => {
                h.write_to(out);
                out.append("where ");
                e.write_to(out);
                let ghost body = gen_str(h@) + "where "@ + expr_str(e@);
                assert(gen_str(self@) =~= body + ", "@);
                assert(drop_two(gen_str(self@)) =~= body);
                assert(out@ =~= old(out)@ + drop_two(gen_str(self@)));
            },
        }
    }

    /// The text of this generator, every clause followed by `", "`.
    pub fn fmt(&self) -> (r: String)
        requires
            gen_printable(self@),
        ensures
            r@ == gen_str(self@),
    {
        let mut out = String::new();
        self.write_to(&mut out);
        out
    }
}

/// The text of a type.
pub open spec fn type_str(t: TypeV) -> Seq<char>
    decreases t,
{
    match t {
        TypeV::Var(b) => "var "@ + basic_str(b),
        TypeV::Par(b) => basic_str(b),
        TypeV::Array(ts, e) => "array["@ + types_str(ts) + "] of "@ + type_str(*e),
    }
}

/// The texts of the types, separated by `", "`.
pub open spec fn types_str(ts: Seq<TypeV>) -> Seq<char>
    decreases ts,
{
    if ts.len() == 0 {
        Seq::empty()
    } else if ts.len() == 1 {
        type_str(ts[0])
    } else {
        types_str(ts.drop_last()) + ", "@ + type_str(ts.last())
    }
}

/// The text of an element type.
pub open spec fn basic_str(b: BasicTypeV) -> Seq<char> {
    match b {
        BasicTypeV::Int(i) => int_type_str(i),
        BasicTypeV::Bool => "bool"@,
    }
}

/// The text of an integer type: `int`, or the range `lo..hi`.
pub open spec fn int_type_str(i: IntTypeV) -> Seq<char> {
    match i {
        IntTypeV::Base => "int"@,
        IntTypeV::Range(lo, hi) => expr_str(lo) + ".."@ + expr_str(hi),
    }
}

pub open spec fn int_type_printable(i: IntTypeV) -> bool {
    match i {
        IntTypeV::Base => true,
        IntTypeV::Range(lo, hi) => printable(lo) && printable(hi),
    }
}

pub open spec fn basic_printable(b: BasicTypeV) -> bool {
    match b {
        BasicTypeV::Int(i) => int_type_printable(i),
        BasicTypeV::Bool => true,
    }
}

/// Every expression in the type (the bounds of its ranges) is printable.
pub open spec fn type_printable(t: TypeV) -> bool
    decreases t,
{
    match t {
        TypeV::Var(b) => basic_printable(b),
        TypeV::Par(b) => basic_printable(b),
        TypeV::Array(ts, e) => types_printable(ts) && type_printable(*e),
    }
}

pub open spec fn types_printable(ts: Seq<TypeV>) -> bool
    decreases ts,
{
    if ts.len() == 0 {
        true
    } else {
        types_printable(ts.drop_last()) && type_printable(ts.last())
    }
}

pub proof fn lemma_types_printable(ts: Seq<TypeV>)
    ensures
        types_printable(ts) <==> forall|k: int| 0 <= k < ts.len() ==> type_printable(
            #[trigger] ts[k],
        ),
    decreases ts.len(),
{
    if ts.len() > 0 {
        lemma_types_printable(ts.drop_last());
        if types_printable(ts) {
            assert forall|k: int| 0 <= k < ts.len() implies type_printable(#[trigger] ts[k]) by {
                if k < ts.len() - 1 {
                    assert(ts.drop_last()[k] == ts[k]);
                }
            }
        }
        if forall|k: int| 0 <= k < ts.len() ==> type_printable(#[trigger] ts[k]) {
            assert forall|k: int| 0 <= k < ts.drop_last().len() implies type_printable(
                #[trigger] ts.drop_last()[k],
            ) by {
                assert(ts.drop_last()[k] == ts[k]);
            }
        }
    }
}

/// The text of a task.
pub open spec fn task_str(t: TaskV) -> Seq<char> {
    match t {
        TaskV::Opt(e) => "solve maximize "@ + expr_str(e) + ";"@,
        TaskV::Sat => "solve satisfy;"@,
    }
}

/// The line of a declaration; the assignment part is left out when the
/// assigned text is empty.
pub open spec fn decl_str(d: (TypeV, Seq<char>, Seq<char>)) -> Seq<char> {
    if d.2.len() == 0 {
        type_str(d.0) + " : "@ + d.1 + ";\n"@
    } else {
        type_str(d.0) + " : "@ + d.1 + " = "@ + d.2 + ";\n"@
    }
}

pub open spec fn decls_str(ds: Seq<(TypeV, Seq<char>, Seq<char>)>) -> Seq<char>
    decreases ds.len(),
{
    if ds.len() == 0 {
        Seq::empty()
    } else {
        decls_str(ds.drop_last()) + decl_str(ds.last())
    }
}

pub open spec fn constraints_str(cs: Seq<ExprV>) -> Seq<char>
    decreases cs.len(),
{
    if cs.len() == 0 {
        Seq::empty()
    } else {
        constraints_str(cs.drop_last()) + "constraint "@ + expr_str(cs.last()) + ";\n"@
    }
}

/// The text of a model: one line per declaration, one per constraint, then
/// the goal.
pub open spec fn model_str(m: ModelV) -> Seq<char> {
    decls_str(m.vars) + constraints_str(m.constraints) + task_str(m.task)
}

pub open spec fn task_printable(t: TaskV) -> bool {
    match t {
        TaskV::Opt(e) => printable(e),
        TaskV::Sat => true,
    }
}

/// Every type and expression of the model is printable.
pub open spec fn model_printable(m: ModelV) -> bool {
    &&& forall|k: int| 0 <= k < m.vars.len() ==> type_printable(#[trigger] m.vars[k].0)
    &&& forall|k: int| 0 <= k < m.constraints.len() ==> printable(#[trigger] m.constraints[k])
    &&& task_printable(m.task)
}

impl IntType {
    /// Appends the text of this integer type to `out`.
    pub fn write_to(&self, out: &mut String)
        requires
            int_type_printable(self@),
        ensures
            final(out)@ == old(out)@ + int_type_str(self@),
    {
        match self {
            IntType::Base => {
                out.append("int");
            },
            IntType::Range(lo, hi) => {
                lo.write_to(out);
                out.append("..");
                hi.write_to(out);
                assert(out@ =~= old(out)@ + int_type_str(self@));
            },
        }
    }

    /// The text of this integer type.
    pub fn fmt(&self) -> (r: String)
        requires
            int_type_printable(self@),
        ensures
            r@ == int_type_str(self@),
    {
        let mut out = String::new();
        self.write_to(&mut out);
        out
    }
}

impl BasicType {
    /// Appends the text of this element type to `out`.
    pub fn write_to(&self, out: &mut String)
        requires
            basic_printable(self@),
        ensures
            final(out)@ == old(out)@ + basic_str(self@),
    {
        match self {
            BasicType::Int(i) => {
                i.write_to(out);
            },
            BasicType::Bool => {
                out.append("bool");
            },
        }
    }

    /// The text of this element type.
    pub fn fmt(&self) -> (r: String)
        requires
            basic_printable(self@),
        ensures
            r@ == basic_str(self@),
    {
        let mut out = String::new();
        self.write_to(&mut out);
        out
    }
}

/// Appends the texts of `ts`, separated by `", "`.
fn write_types(ts: &Vec<Box<Type>>, out: &mut String)
    requires
        types_printable(crate::model::types_view(ts@)),
    ensures
        final(out)@ == old(out)@ + types_str(crate::model::types_view(ts@)),
    decreases ts,
{
    let ghost vs = crate::model::types_view(ts@);
    proof {
        lemma_types_view(ts@);
        lemma_types_printable(vs);
    }
    let mut i: usize = 0;
    while i < ts.len()
        invariant
            0 <= i <= ts@.len(),
            vs == crate::model::types_view(ts@),
            vs.len() == ts@.len(),
            forall|k: int| 0 <= k < ts@.len() ==> #[trigger] vs[k] == type_view(*ts@[k]),
            forall|k: int| 0 <= k < vs.len() ==> type_printable(#[trigger] vs[k]),
            out@ == old(out)@ + types_str(vs.take(i as int)),
        decreases ts@.len() - i,
    {
        if i > 0 {
            out.append(", ");
        }
        assert(vs[i as int] == type_view(*ts@[i as int]));
        assert(type_printable(vs[i as int]));
        ts[i].write_to(out);
        proof {
            let t = vs.take(i + 1);
            assert(t.drop_last() =~= vs.take(i as int));
            assert(t.last() == vs[i as int]);
            if i == 0 {
                assert(types_str(vs.take(0)) =~= Seq::<char>::empty());
            }
            assert(out@ =~= old(out)@ + types_str(t));
        }
        i = i + 1;
    }
    assert(vs.take(ts@.len() as int) =~= vs);
}

impl Type {
    /// Appends the text of this type to `out`.
    pub fn write_to(&self, out: &mut String)
        requires
            type_printable(self@),
        ensures
            final(out)@ == old(out)@ + type_str(self@),
        decreases self,
    {
        match self {
            Type::Var(b) => {
                out.append("var ");
                b.write_to(out);
                assert(out@ =~= old(out)@ + type_str(self@));
            },
            Type::Par(b) => {
                b.write_to(out);
            },
            Type::Array(ts, e) => {
                out.append("array[");
                write_types(ts, out);
                out.append("] of ");
                e.write_to(out);
                assert(out@ =~= old(out)@ + type_str(self@));
            },
        }
    }

    /// The text of this type.
    pub fn fmt(&self) -> (r: String)
        requires
            type_printable(self@),
        ensures
            r@ == type_str(self@),
    {
        let mut out = String::new();
        self.write_to(&mut out);
        out
    }
}

impl Task {
    /// Appends the text of this goal to `out`.
    pub fn write_to(&self, out: &mut String)
        requires
            task_printable(self@),
        ensures
            final(out)@ == old(out)@ + task_str(self@),
    {
        match self {
            Task::Opt(e) => {
                out.append("solve maximize ");
                e.write_to(out);
                out.append(";");
                assert(out@ =~= old(out)@ + task_str(self@));
            },
            Task::Sat => {
                out.append("solve satisfy;");
            },
        }
    }
}

impl Model {
    /// Appends the text of this model to `out`.
    pub fn write_to(&self, out: &mut String)
        requires
            model_printable(self@),
        ensures
            final(out)@ == old(out)@ + model_str(self@),
    {
        let ghost m = self@;
        let mut i: usize = 0;
        while i < self.vars.len()
            invariant
                0 <= i <= self.vars@.len(),
                m == self@,
                model_printable(m),
                out@ == old(out)@ + decls_str(m.vars.take(i as int)),
            decreases self.vars@.len() - i,
        {
            let (t, v, a) = &self.vars[i];
            assert(m.vars[i as int] == decl_view(self.vars@[i as int]));
            assert(type_printable(m.vars[i as int].0));
            let ghost before = out@;
            t.write_to(out);
            out.append(" : ");
            out.append(v.as_str());
            if a.as_str().is_empty() {
                out.append(";\n");
            } else {
                out.append(" = ");
                out.append(a.as_str());
                out.append(";\n");
            }
            proof {
                let p = m.vars.take(i + 1);
                assert(p.drop_last() =~= m.vars.take(i as int));
                assert(p.last() == m.vars[i as int]);
                assert(out@ =~= before + decl_str(m.vars[i as int]));
                assert(out@ =~= old(out)@ + decls_str(p));
            }
            i = i + 1;
        }
        assert(m.vars.take(self.vars@.len() as int) =~= m.vars);
        let ghost after_vars = out@;
        let mut j: usize = 0;
        while j < self.constraints.len()
            invariant
                0 <= j <= self.constraints@.len(),
                m == self@,
                model_printable(m),
                out@ == after_vars + constraints_str(m.constraints.take(j as int)),
            decreases self.constraints@.len() - j,
        {
            assert(m.constraints[j as int] == self.constraints@[j as int]@);
            assert(printable(m.constraints[j as int]));
            let ghost before = out@;
            out.append("constraint ");
            self.constraints[j].write_to(out);
            out.append(";\n");
            proof {
                let p = m.constraints.take(j + 1);
                assert(p.drop_last() =~= m.constraints.take(j as int));
                assert(p.last() == m.constraints[j as int]);
                assert(out@ =~= after_vars + constraints_str(p));
            }
            j = j + 1;
        }
        assert(m.constraints.take(self.constraints@.len() as int) =~= m.constraints);
        self.task.write_to(out);
        assert(out@ =~= old(out)@ + model_str(m));
    }

    /// The text of this model.
    pub fn fmt(&self) -> (r: String)
        requires
            model_printable(self@),
        ensures
            r@ == model_str(self@),
    {
        let mut out = String::new();
        self.write_to(&mut out);
        out
    }
}

/// The text of one generator clause.
pub open spec fn clause_str(c: GenClause) -> Seq<char> {
    match c {
        GenClause::In(s, e) => s + " in "@ + expr_str(e),
        GenClause::Where(e) => "where "@ + expr_str(e),
    }
}

/// The texts of the clauses, separated by `", "`.
pub open spec fn clauses_str(cls: Seq<GenClause>) -> Seq<char>
    decreases cls.len(),
{
    if cls.len() == 0 {
        Seq::empty()
    } else if cls.len() == 1 {
        clause_str(cls[0])
    } else {
        clauses_str(cls.drop_last()) + ", "@ + clause_str(cls.last())
    }
}

/// The text of a generator is the text of its clauses in order, each followed
/// by `", "`; inside a comprehension or a generator call, where the last
/// `", "` is dropped, the clauses appear separated by `", "`.
pub proof fn lemma_gen_str_clauses(g: GenExprV)
    ensures
        gen_str(g) == if clauses(g).len() == 0 {
            Seq::<char>::empty()
        } else {
            clauses_str(clauses(g)) + ", "@
        },
        drop_two(gen_str(g)) == clauses_str(clauses(g)),
    decreases g,
{
    reveal_strlit(", ");
    match g {
        GenExprV::Empty => {
            assert(drop_two(gen_str(g)) =~= Seq::<char>::empty());
        },
        GenExprV::Enum(h, s, e) => {
            lemma_gen_str_clauses(*h);
            let c = GenClause::In(s, *e);
            assert(clauses(g) == clauses(*h).push(c));
            assert(clauses(g).drop_last() =~= clauses(*h));
            if clauses(*h).len() == 0 {
                assert(gen_str(g) =~= clause_str(c) + ", "@);
            } else {
                assert(gen_str(g) =~= clauses_str(clauses(g)) + ", "@);
            }
            assert(drop_two(gen_str(g)) =~= clauses_str(clauses(g)));
        },
        GenExprV::Guard(h, e) => {
            lemma_gen_str_clauses(*h);
            let c = GenClause::Where(*e);
            assert(clauses(g) == clauses(*h).push(c));
            assert(clauses(g).drop_last() =~= clauses(*h));
            if clauses(*h).len() == 0 {
                assert(gen_str(g) =~= clause_str(c) + ", "@);
            } else {
                assert(gen_str(g) =~= clauses_str(clauses(g)) + ", "@);
            }
            assert(drop_two(gen_str(g)) =~= clauses_str(clauses(g)));
        },
    }
}

} // verus!
