//! The abstract syntax of the supported MiniZinc subset, and its mathematical
//! counterpart (the `...V` types) that the contracts of this crate speak of.
use vstd::prelude::*;

verus! {

/// A MiniZinc type: `var T`, `T` (a parameter), or `array[T1, T2, ...] of T`.
#[derive(PartialEq, Debug)]
pub enum Type {
    Var(BasicType),
    Par(BasicType),
    Array(Vec<Box<Type>>, Box<Type>),
}

/// The element types: integers (possibly a range) and booleans.
#[derive(PartialEq, Debug)]
pub enum BasicType {
    Int(IntType),
    Bool,
}

/// `int`, or an integer range `lo..hi`.
#[derive(PartialEq, Debug)]
pub enum IntType {
    Base,
    Range(Expr, Expr),
}

/// Expressions. Operators (infix and prefix) and generator calls such as
/// `forall(i in 1..n)(e)` are all calls; a generator call carries a single
/// comprehension argument.
#[derive(PartialEq, Debug)]
pub enum Expr {
    Var(String),
    True,
    False,
    Int(i32),
    If(Box<Expr>, Box<Expr>, Box<Expr>),
    Call(String, Vec<Box<Expr>>),
    Comprehension(GenExpr, Box<Expr>),
    ArrayAccess(Box<Expr>, Vec<Box<Expr>>),
}

/// The generator part of a comprehension, as a chain whose innermost link is
/// `Empty` and whose outermost link is the last clause: `... , i in e` or
/// `... , where e`.
#[derive(PartialEq, Debug)]
pub enum GenExpr {
    Empty,
    Enum(Box<GenExpr>, String, Box<Expr>),
    Guard(Box<GenExpr>, Box<Expr>),
}

/// A whole program: declarations `(type, name, assigned text)` (the text is
/// empty when the declaration has no assignment), constraints, and the goal.
#[derive(PartialEq, Debug)]
pub struct Model {
    pub vars: Vec<(Type, String, String)>,
    pub constraints: Vec<Expr>,
    pub task: Task,
}

/// `solve maximize e` or `solve satisfy`.
#[derive(PartialEq, Debug)]
pub enum Task {
    Opt(Expr),
    Sat,
}

// ---------------------------------------------------------------------------
// Mathematical counterparts
// ---------------------------------------------------------------------------

pub enum TypeV {
    Var(BasicTypeV),
    Par(BasicTypeV),
    Array(Seq<TypeV>, Box<TypeV>),
}

pub enum BasicTypeV {
    Int(IntTypeV),
    Bool,
}

pub enum IntTypeV {
    Base,
    Range(ExprV, ExprV),
}

pub enum ExprV {
    Var(Seq<char>),
    True,
    False,
    Int(int),
    If(Box<ExprV>, Box<ExprV>, Box<ExprV>),
    Call(Seq<char>, Seq<ExprV>),
    Comprehension(GenExprV, Box<ExprV>),
    ArrayAccess(Box<ExprV>, Seq<ExprV>),
}

pub enum GenExprV {
    Empty,
    Enum(Box<GenExprV>, Seq<char>, Box<ExprV>),
    Guard(Box<GenExprV>, Box<ExprV>),
}

pub enum TaskV {
    Opt(ExprV),
    Sat,
}

pub struct ModelV {
    pub vars: Seq<(TypeV, Seq<char>, Seq<char>)>,
    pub constraints: Seq<ExprV>,
    pub task: TaskV,
}

pub open spec fn expr_view(e: Expr) -> ExprV
    decreases e,
{
    match e {
        Expr::Var(s) => ExprV::Var(s@),
        Expr::True => ExprV::True,
        Expr::False => ExprV::False,
        Expr::Int(i) => ExprV::Int(i as int),
        Expr::If(a, b, c) => ExprV::If(
            Box::new(expr_view(*a)),
            Box::new(expr_view(*b)),
            Box::new(expr_view(*c)),
        ),
        Expr::Call(s, es) => ExprV::Call(s@, exprs_view(es@)),
        Expr::Comprehension(g, b) => ExprV::Comprehension(gen_view(g), Box::new(expr_view(*b))),
        Expr::ArrayAccess(a, es) => ExprV::ArrayAccess(Box::new(expr_view(*a)), exprs_view(es@)),
    }
}

pub open spec fn exprs_view(es: Seq<Box<Expr>>) -> Seq<ExprV>
    decreases es,
{
    if es.len() == 0 {
        Seq::empty()
    } else {
        exprs_view(es.drop_last()).push(expr_view(*es.last()))
    }
}

pub open spec fn gen_view(g: GenExpr) -> GenExprV
    decreases g,
{
    match g {
        GenExpr::Empty => GenExprV::Empty,
        GenExpr::Enum(h, s, e) => GenExprV::Enum(Box::new(gen_view(*h)), s@, Box::new(expr_view(*e))),
        GenExpr::Guard(h, e) => GenExprV::Guard(Box::new(gen_view(*h)), Box::new(expr_view(*e))),
    }
}

impl View for Expr {
    type V = ExprV;

    open spec fn view(&self) -> ExprV {
        expr_view(*self)
    }
}

impl View for GenExpr {
    type V = GenExprV;

    open spec fn view(&self) -> GenExprV {
        gen_view(*self)
    }
}

pub open spec fn type_view(t: Type) -> TypeV
    decreases t,
{
    match t {
        Type::Var(b) => TypeV::Var(basic_view(b)),
        Type::Par(b) => TypeV::Par(basic_view(b)),
        Type::Array(ts, t) => TypeV::Array(types_view(ts@), Box::new(type_view(*t))),
    }
}

pub open spec fn types_view(ts: Seq<Box<Type>>) -> Seq<TypeV>
    decreases ts,
{
    if ts.len() == 0 {
        Seq::empty()
    } else {
        types_view(ts.drop_last()).push(type_view(*ts.last()))
    }
}

pub open spec fn basic_view(b: BasicType) -> BasicTypeV {
    match b {
        BasicType::Int(IntType::Base) => BasicTypeV::Int(IntTypeV::Base),
        BasicType::Int(IntType::Range(lo, hi)) => BasicTypeV::Int(
            IntTypeV::Range(expr_view(lo), expr_view(hi)),
        ),
        BasicType::Bool => BasicTypeV::Bool,
    }
}

impl View for Type {
    type V = TypeV;

    open spec fn view(&self) -> TypeV {
        type_view(*self)
    }
}

impl View for BasicType {
    type V = BasicTypeV;

    open spec fn view(&self) -> BasicTypeV {
        basic_view(*self)
    }
}

impl View for IntType {
    type V = IntTypeV;

    open spec fn view(&self) -> IntTypeV {
        match *self {
            IntType::Base => IntTypeV::Base,
            IntType::Range(lo, hi) => IntTypeV::Range(expr_view(lo), expr_view(hi)),
        }
    }
}

impl View for Task {
    type V = TaskV;

    open spec fn view(&self) -> TaskV {
        match *self {
            Task::Opt(e) => TaskV::Opt(expr_view(e)),
            Task::Sat => TaskV::Sat,
        }
    }
}

pub open spec fn decl_view(d: (Type, String, String)) -> (TypeV, Seq<char>, Seq<char>) {
    (type_view(d.0), d.1@, d.2@)
}

impl View for Model {
    type V = ModelV;

    open spec fn view(&self) -> ModelV {
        ModelV {
            vars: self.vars@.map_values(|d: (Type, String, String)| decl_view(d)),
            constraints: self.constraints@.map_values(|e: Expr| expr_view(e)),
            task: self.task@,
        }
    }
}

/// The view of a sequence of boxed expressions has one element per
/// expression, each the view of that expression.
pub proof fn lemma_exprs_view(es: Seq<Box<Expr>>)
    ensures
        exprs_view(es).len() == es.len(),
        forall|k: int| 0 <= k < es.len() ==> #[trigger] exprs_view(es)[k] == expr_view(*es[k]),
    decreases es.len(),
{
    if es.len() > 0 {
        lemma_exprs_view(es.drop_last());
    }
}

/// The view of a sequence of boxed types has one element per type, each the
/// view of that type.
pub proof fn lemma_types_view(ts: Seq<Box<Type>>)
    ensures
        types_view(ts).len() == ts.len(),
        forall|k: int| 0 <= k < ts.len() ==> #[trigger] types_view(ts)[k] == type_view(*ts[k]),
    decreases ts.len(),
{
    if ts.len() > 0 {
        lemma_types_view(ts.drop_last());
    }
}

/// The view of one or two boxed expressions.
pub proof fn lemma_exprs_view_small(a: Box<Expr>, b: Box<Expr>)
    ensures
        exprs_view(seq![a]) == seq![expr_view(*a)],
        exprs_view(seq![a, b]) == seq![expr_view(*a), expr_view(*b)],
{
    assert(seq![a].drop_last() =~= Seq::<Box<Expr>>::empty());
    assert(exprs_view(Seq::<Box<Expr>>::empty()) =~= Seq::<ExprV>::empty());
    assert(seq![a].last() == a);
    assert(seq![a, b].last() == b);
    assert(seq![a, b].drop_last() =~= seq![a]);
    assert(exprs_view(seq![a]) =~= seq![expr_view(*a)]);
    assert(exprs_view(seq![a, b]) =~= seq![expr_view(*a), expr_view(*b)]);
}

/// A copy of the expression.
pub fn clone_expr(e: &Expr) -> (r: Expr)
    ensures
        r@ == e@,
    decreases e,
{
    match e {
        Expr::Var(s) => Expr::Var(s.clone()),
        Expr::True => Expr::True,
        Expr::False => Expr::False,
        Expr::Int(i) => Expr::Int(*i),
        Expr::If(a, b, c) => Expr::If(
            Box::new(clone_expr(a)),
            Box::new(clone_expr(b)),
            Box::new(clone_expr(c)),
        ),
        Expr::Call(s, es) => Expr::Call(s.clone(), clone_exprs(es)),
        Expr::Comprehension(g, b) => Expr::Comprehension(clone_gen(g), Box::new(clone_expr(b))),
        Expr::ArrayAccess(a, es) => Expr::ArrayAccess(Box::new(clone_expr(a)), clone_exprs(es)),
    }
}

fn clone_exprs(es: &Vec<Box<Expr>>) -> (r: Vec<Box<Expr>>)
    ensures
        exprs_view(r@) == exprs_view(es@),
    decreases es,
{
    let mut out: Vec<Box<Expr>> = Vec::new();
    let mut i: usize = 0;
    while i < es.len()
        invariant
            0 <= i <= es@.len(),
            exprs_view(out@) == exprs_view(es@.take(i as int)),
        decreases es@.len() - i,
    {
        let ghost before = out@;
        let c = clone_expr(&es[i]);
        out.push(Box::new(c));
        assert(out@.drop_last() =~= before);
        assert(es@.take(i + 1).drop_last() =~= es@.take(i as int));
        i = i + 1;
    }
    assert(es@.take(es@.len() as int) =~= es@);
    out
}

/// A copy of the generator.
pub fn clone_gen(g: &GenExpr) -> (r: GenExpr)
    ensures
        r@ == g@,
    decreases g,
{
    match g {
        GenExpr::Empty => GenExpr::Empty,
        GenExpr::Enum(h, s, e) => GenExpr::Enum(Box::new(clone_gen(h)), s.clone(), Box::new(clone_expr(e))),
        GenExpr::Guard(h, e) => GenExpr::Guard(Box::new(clone_gen(h)), Box::new(clone_expr(e))),
    }
}

impl Clone for Expr {
    fn clone(&self) -> (r: Self)
        ensures
            r@ == self@,
    {
        clone_expr(self)
    }
}

impl Clone for GenExpr {
    fn clone(&self) -> (r: Self)
        ensures
            r@ == self@,
    {
        clone_gen(self)
    }
}

impl Clone for IntType {
    fn clone(&self) -> (r: Self)
        ensures
            r@ == self@,
    {
        match self {
            IntType::Base => IntType::Base,
            IntType::Range(lo, hi) => IntType::Range(clone_expr(lo), clone_expr(hi)),
        }
    }
}

impl Clone for BasicType {
    fn clone(&self) -> (r: Self)
        ensures
            r@ == self@,
    {
        match self {
            BasicType::Int(IntType::Base) => BasicType::Int(IntType::Base),
            BasicType::Int(IntType::Range(lo, hi)) => BasicType::Int(
                IntType::Range(clone_expr(lo), clone_expr(hi)),
            ),
            BasicType::Bool => BasicType::Bool,
        }
    }
}

/// A copy of the type.
pub fn clone_type(t: &Type) -> (r: Type)
    ensures
        r@ == t@,
    decreases t,
{
    match t {
        Type::Var(b) => Type::Var(b.clone()),
        Type::Par(b) => Type::Par(b.clone()),
        Type::Array(ts, e) => Type::Array(clone_types(ts), Box::new(clone_type(e))),
    }
}

fn clone_types(ts: &Vec<Box<Type>>) -> (r: Vec<Box<Type>>)
    ensures
        types_view(r@) == types_view(ts@),
    decreases ts,
{
    let mut out: Vec<Box<Type>> = Vec::new();
    let mut i: usize = 0;
    while i < ts.len()
        invariant
            0 <= i <= ts@.len(),
            types_view(out@) == types_view(ts@.take(i as int)),
        decreases ts@.len() - i,
    {
        let ghost before = out@;
        let c = clone_type(&ts[i]);
        out.push(Box::new(c));
        assert(out@.drop_last() =~= before);
        assert(ts@.take(i + 1).drop_last() =~= ts@.take(i as int));
        i = i + 1;
    }
    assert(ts@.take(ts@.len() as int) =~= ts@);
    out
}

impl Clone for Type {
    fn clone(&self) -> (r: Self)
        ensures
            r@ == self@,
    {
        clone_type(self)
    }
}

impl Clone for Task {
    fn clone(&self) -> (r: Self)
        ensures
            r@ == self@,
    {
        match self {
            Task::Opt(e) => Task::Opt(clone_expr(e)),
            Task::Sat => Task::Sat,
        }
    }
}

impl Clone for Model {
    fn clone(&self) -> (r: Self)
        ensures
            r@ == self@,
    {
        let mut vars: Vec<(Type, String, String)> = Vec::new();
        let mut i: usize = 0;
        while i < self.vars.len()
            invariant
                0 <= i <= self.vars@.len(),
                vars@.len() == i,
                forall|k: int| 0 <= k < i ==> decl_view(#[trigger] vars@[k]) == decl_view(self.vars@[k]),
            decreases self.vars@.len() - i,
        {
            let (t, n, a) = &self.vars[i];
            vars.push((clone_type(t), n.clone(), a.clone()));
            i = i + 1;
        }
        let mut constraints: Vec<Expr> = Vec::new();
        let mut j: usize = 0;
        while j < self.constraints.len()
            invariant
                0 <= j <= self.constraints@.len(),
                constraints@.len() == j,
                forall|k: int| 0 <= k < j ==> expr_view(#[trigger] constraints@[k]) == expr_view(
                    self.constraints@[k],
                ),
            decreases self.constraints@.len() - j,
        {
            constraints.push(clone_expr(&self.constraints[j]));
            j = j + 1;
        }
        let r = Model { vars, constraints, task: self.task.clone() };
        assert(r@.vars =~= self@.vars);
        assert(r@.constraints =~= self@.constraints);
        r
    }
}

} // verus!
