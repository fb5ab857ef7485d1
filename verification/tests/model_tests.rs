use minizinc_model::check::{expr_check, source_check, type_check};
use minizinc_model::cst::SyntaxNode;
use minizinc_model::generator::merge_gen_expr;
use minizinc_model::model::{BasicType, Expr, GenExpr, IntType, Model, Task, Type};
use minizinc_model::source::{text_between, SourceError};
use minizinc_model::text::parse_i32;
use minizinc_model::warning::{source_warnings, Warning};
use minizinc_model::visit::{
    visit_base_type, visit_declaration, visit_expr, visit_gen_expr, visit_source_file, visit_task,
    visit_type,
};

fn tok(kind: &str) -> SyntaxNode {
    SyntaxNode {
        kind: kind.to_string(),
        named: false,
        field: None,
        text: kind.to_string(),
        start_byte: 0,
        end_byte: 0,
        start_point: (0, 0),
        end_point: (0, 0),
        children: vec![],
    }
}

fn field_tok(kind: &str, field: &str) -> SyntaxNode {
    let mut n = tok(kind);
    n.field = Some(field.to_string());
    n
}

fn named(kind: &str, text: &str, children: Vec<SyntaxNode>) -> SyntaxNode {
    SyntaxNode {
        kind: kind.to_string(),
        named: true,
        field: None,
        text: text.to_string(),
        start_byte: 0,
        end_byte: 0,
        start_point: (0, 0),
        end_point: (0, 0),
        children,
    }
}

fn with_field(mut n: SyntaxNode, field: &str) -> SyntaxNode {
    n.field = Some(field.to_string());
    n
}

fn ident(name: &str) -> SyntaxNode {
    named("identifier", name, vec![])
}

fn int_lit(text: &str) -> SyntaxNode {
    named("integer_literal", text, vec![])
}

fn infix(left: SyntaxNode, op: &str, right: SyntaxNode) -> SyntaxNode {
    named(
        "infix_operator",
        "",
        vec![with_field(left, "left"), field_tok(op, "operator"), with_field(right, "right")],
    )
}

fn var(name: &str) -> Expr {
    Expr::Var(name.to_string())
}

fn call(name: &str, args: Vec<Expr>) -> Expr {
    Expr::Call(name.to_string(), args.into_iter().map(Box::new).collect())
}

// ---------------------------------------------------------------------------
// Generators
// ---------------------------------------------------------------------------

fn enum_clause(g: GenExpr, name: &str, e: Expr) -> GenExpr {
    GenExpr::Enum(Box::new(g), name.to_string(), Box::new(e))
}

#[test]
fn merge_with_empty_is_identity() {
    let g = || enum_clause(GenExpr::Empty, "i", var("s"));
    assert_eq!(merge_gen_expr(g(), GenExpr::Empty), g());
    assert_eq!(merge_gen_expr(GenExpr::Empty, g()), g());
}

#[test]
fn merge_appends_a_single_clause() {
    let a = enum_clause(GenExpr::Empty, "i", var("s"));
    let b = enum_clause(GenExpr::Empty, "j", var("t"));
    let expected = enum_clause(enum_clause(GenExpr::Empty, "i", var("s")), "j", var("t"));
    assert_eq!(merge_gen_expr(a, b), expected);
}

#[test]
fn merge_interleaves_deeper_generators() {
    // The second generator has two clauses: its inner clause ends up first.
    let a = enum_clause(GenExpr::Empty, "c", var("z"));
    let b = enum_clause(enum_clause(GenExpr::Empty, "a", var("x")), "b", var("y"));
    let expected = enum_clause(
        enum_clause(enum_clause(GenExpr::Empty, "a", var("x")), "c", var("z")),
        "b",
        var("y"),
    );
    assert_eq!(merge_gen_expr(a, b), expected);
}

// ---------------------------------------------------------------------------
// Rendering
// ---------------------------------------------------------------------------

#[test]
fn renders_literals_and_variables() {
    assert_eq!(Expr::True.fmt(), "true");
    assert_eq!(Expr::False.fmt(), "false");
    assert_eq!(var("x").fmt(), "x");
    assert_eq!(Expr::Int(0).fmt(), "0");
    assert_eq!(Expr::Int(42).fmt(), "42");
    assert_eq!(Expr::Int(-7).fmt(), "-7");
    assert_eq!(Expr::Int(i32::MIN).fmt(), "-2147483648");
    assert_eq!(Expr::Int(i32::MAX).fmt(), "2147483647");
}

#[test]
fn renders_infix_and_prefix_calls() {
    assert_eq!(call("+", vec![var("a"), Expr::Int(1)]).fmt(), "a + 1");
    assert_eq!(call("/\\", vec![var("p"), var("q")]).fmt(), "p /\\ q");
    assert_eq!(call("..", vec![Expr::Int(1), var("n")]).fmt(), "1 .. n");
    assert_eq!(call("-", vec![var("x")]).fmt(), "-(x)");
    assert_eq!(call("f", vec![var("a"), var("b"), var("c")]).fmt(), "f(a, b, c)");
    // a known operator with three operands is written as a call
    assert_eq!(call("+", vec![var("a"), var("b"), var("c")]).fmt(), "+(a, b, c)");
}

#[test]
fn renders_if_and_array_access() {
    let e = Expr::If(Box::new(var("c")), Box::new(Expr::Int(1)), Box::new(Expr::Int(2)));
    assert_eq!(e.fmt(), "if c then 1 else 2 endif");
    let a = Expr::ArrayAccess(Box::new(var("x")), vec![Box::new(var("i")), Box::new(var("j"))]);
    assert_eq!(a.fmt(), "x[i, j]");
}

#[test]
fn renders_comprehensions_and_generator_calls() {
    let g = GenExpr::Guard(
        Box::new(enum_clause(GenExpr::Empty, "i", call("..", vec![Expr::Int(1), var("n")]))),
        Box::new(call(">", vec![var("i"), Expr::Int(0)])),
    );
    assert_eq!(g.fmt(), "i in 1 .. n, where i > 0, ");
    let body = Expr::ArrayAccess(Box::new(var("x")), vec![Box::new(var("i"))]);
    let comp = Expr::Comprehension(g, Box::new(body));
    assert_eq!(comp.fmt(), "[x[i] | i in 1 .. n, where i > 0]");
    let forall = Expr::Call("forall".to_string(), vec![Box::new(comp)]);
    assert_eq!(forall.fmt(), "forall (i in 1 .. n, where i > 0)(x[i])");
    let empty = Expr::Comprehension(GenExpr::Empty, Box::new(var("e")));
    assert_eq!(empty.fmt(), "[e | ]");
}

#[test]
fn renders_types() {
    assert_eq!(Type::Var(BasicType::Bool).fmt(), "var bool");
    assert_eq!(Type::Par(BasicType::Int(IntType::Base)).fmt(), "int");
    let range = IntType::Range(Expr::Int(0), Expr::Int(1));
    assert_eq!(range.fmt(), "0..1");
    assert_eq!(BasicType::Int(IntType::Range(Expr::Int(0), var("n"))).fmt(), "0..n");
    let arr = Type::Array(
        vec![
            Box::new(Type::Par(BasicType::Int(IntType::Range(Expr::Int(1), var("n"))))),
            Box::new(Type::Par(BasicType::Int(IntType::Base))),
        ],
        Box::new(Type::Var(BasicType::Int(IntType::Range(Expr::Int(0), Expr::Int(1))))),
    );
    assert_eq!(arr.fmt(), "array[1..n, int] of var 0..1");
    let no_dims = Type::Array(vec![], Box::new(Type::Par(BasicType::Bool)));
    assert_eq!(no_dims.fmt(), "array[] of bool");
}

#[test]
fn renders_models() {
    let m = Model {
        vars: vec![
            (Type::Par(BasicType::Int(IntType::Base)), "n".to_string(), String::new()),
            (Type::Par(BasicType::Int(IntType::Base)), "m".to_string(), "3".to_string()),
        ],
        constraints: vec![call(">", vec![var("n"), Expr::Int(0)])],
        task: Task::Opt(var("n")),
    };
    assert_eq!(m.fmt(), "int : n;\nint : m = 3;\nconstraint n > 0;\nsolve maximize n;");
    let empty = Model { vars: vec![], constraints: vec![], task: Task::Sat };
    assert_eq!(empty.fmt(), "solve satisfy;");
}

// ---------------------------------------------------------------------------
// Integers
// ---------------------------------------------------------------------------

#[test]
fn reads_integers_as_i32() {
    assert_eq!(parse_i32("0"), Some(0));
    assert_eq!(parse_i32("123"), Some(123));
    assert_eq!(parse_i32("+5"), Some(5));
    assert_eq!(parse_i32("-5"), Some(-5));
    assert_eq!(parse_i32("007"), Some(7));
    assert_eq!(parse_i32("2147483647"), Some(i32::MAX));
    assert_eq!(parse_i32("-2147483648"), Some(i32::MIN));
    assert_eq!(parse_i32("2147483648"), None);
    assert_eq!(parse_i32("-2147483649"), None);
    assert_eq!(parse_i32("99999999999999999999"), None);
    assert_eq!(parse_i32(""), None);
    assert_eq!(parse_i32("-"), None);
    assert_eq!(parse_i32("+"), None);
    assert_eq!(parse_i32("1a"), None);
    assert_eq!(parse_i32(" 1"), None);
}

// ---------------------------------------------------------------------------
// Reading syntax trees
// ---------------------------------------------------------------------------

#[test]
fn visits_literals_and_operators() {
    assert_eq!(visit_expr(&int_lit("17")), Expr::Int(17));
    assert_eq!(visit_expr(&named("true", "true", vec![])), Expr::True);
    assert_eq!(visit_expr(&named("false", "false", vec![])), Expr::False);
    assert_eq!(visit_expr(&ident("x")), var("x"));
    assert_eq!(
        visit_expr(&infix(ident("x"), "+", int_lit("1"))),
        call("+", vec![var("x"), Expr::Int(1)])
    );
    let neg = named(
        "prefix_operator",
        "-x",
        vec![field_tok("-", "operator"), ident("x")],
    );
    assert_eq!(visit_expr(&neg), call("-", vec![var("x")]));
    let paren = named("parenthesised_expression", "(x)", vec![tok("("), ident("x"), tok(")")]);
    assert_eq!(visit_expr(&paren), var("x"));
    // unknown kinds read as 0
    assert_eq!(visit_expr(&named("string_literal", "\"s\"", vec![])), Expr::Int(0));
}

#[test]
fn visits_if_then_else() {
    let ite = named(
        "if_then_else",
        "",
        vec![tok("if"), ident("c"), tok("then"), int_lit("1"), tok("else"), int_lit("2"), tok("endif")],
    );
    assert_eq!(
        visit_expr(&ite),
        Expr::If(Box::new(var("c")), Box::new(Expr::Int(1)), Box::new(Expr::Int(2)))
    );
    // with other than three named children the expression reads as 0
    let short = named("if_then_else", "", vec![tok("if"), ident("c"), tok("then"), int_lit("1")]);
    assert_eq!(visit_expr(&short), Expr::Int(0));
}

#[test]
fn visits_calls_and_array_access() {
    let c = named(
        "call",
        "",
        vec![
            with_field(ident("max"), "name"),
            tok("("),
            with_field(ident("a"), "arguments"),
            field_tok(",", "arguments"),
            with_field(int_lit("2"), "arguments"),
            tok(")"),
        ],
    );
    assert_eq!(visit_expr(&c), call("max", vec![var("a"), Expr::Int(2)]));
    let acc = named(
        "indexed_access",
        "",
        vec![
            with_field(ident("x"), "collection"),
            tok("["),
            with_field(ident("i"), "indices"),
            field_tok(",", "indices"),
            with_field(ident("j"), "indices"),
            tok("]"),
        ],
    );
    assert_eq!(
        visit_expr(&acc),
        Expr::ArrayAccess(Box::new(var("x")), vec![Box::new(var("i")), Box::new(var("j"))])
    );
}

fn generator(children: Vec<SyntaxNode>) -> SyntaxNode {
    named("generator", "", children)
}

#[test]
fn visits_generators() {
    let g = generator(vec![
        ident("i"),
        tok("in"),
        infix(int_lit("1"), "..", ident("n")),
        tok("where"),
        infix(ident("i"), ">", int_lit("0")),
    ]);
    let expected = GenExpr::Guard(
        Box::new(enum_clause(GenExpr::Empty, "i", call("..", vec![Expr::Int(1), var("n")]))),
        Box::new(call(">", vec![var("i"), Expr::Int(0)])),
    );
    assert_eq!(visit_gen_expr(&g), expected);
}

#[test]
fn visits_generator_calls() {
    let gc = named(
        "generator_call",
        "",
        vec![
            with_field(ident("forall"), "name"),
            tok("("),
            with_field(
                generator(vec![ident("i"), tok("in"), infix(int_lit("1"), "..", ident("n"))]),
                "generators",
            ),
            tok(")"),
            tok("("),
            with_field(infix(ident("i"), ">", int_lit("0")), "template"),
            tok(")"),
        ],
    );
    let comp = Expr::Comprehension(
        enum_clause(GenExpr::Empty, "i", call("..", vec![Expr::Int(1), var("n")])),
        Box::new(call(">", vec![var("i"), Expr::Int(0)])),
    );
    let e = visit_expr(&gc);
    assert_eq!(e, Expr::Call("forall".to_string(), vec![Box::new(comp)]));
    assert_eq!(e.fmt(), "forall (i in 1 .. n)(i > 0)");
}

#[test]
fn visits_array_comprehensions() {
    let ac = named(
        "array_comprehension",
        "",
        vec![
            tok("["),
            ident("x"),
            tok("|"),
            generator(vec![ident("i"), tok("in"), ident("s")]),
            tok(","),
            generator(vec![ident("j"), tok("in"), infix(int_lit("1"), "..", int_lit("3"))]),
            tok("]"),
        ],
    );
    // `i in s`: the identifier `s` renames the variable, so no clause comes of it
    let expected = Expr::Comprehension(
        enum_clause(GenExpr::Empty, "j", call("..", vec![Expr::Int(1), Expr::Int(3)])),
        Box::new(var("x")),
    );
    assert_eq!(visit_expr(&ac), expected);
}

#[test]
fn visits_types() {
    let prim = |t: &str| named("primitive_type", t, vec![]);
    assert_eq!(visit_base_type(&prim("int")), BasicType::Int(IntType::Base));
    assert_eq!(visit_base_type(&prim("bool")), BasicType::Bool);
    assert_eq!(visit_base_type(&prim("float")), BasicType::Int(IntType::Base));
    assert_eq!(
        visit_base_type(&infix(int_lit("0"), "..", int_lit("1"))),
        BasicType::Int(IntType::Range(Expr::Int(0), Expr::Int(1)))
    );
    let var_bool = named("type_base", "var bool", vec![tok("var"), prim("bool")]);
    assert_eq!(visit_type(&var_bool), Type::Var(BasicType::Bool));
    let par_int = named("type_base", "int", vec![prim("int")]);
    assert_eq!(visit_type(&par_int), Type::Par(BasicType::Int(IntType::Base)));
    let arr = named(
        "array_type",
        "",
        vec![
            tok("array"),
            tok("["),
            named("type_base", "", vec![infix(int_lit("1"), "..", ident("n"))]),
            tok("]"),
            tok("of"),
            named("type_base", "", vec![tok("var"), infix(int_lit("0"), "..", int_lit("1"))]),
        ],
    );
    let t = visit_type(&arr);
    assert_eq!(
        t,
        Type::Array(
            vec![Box::new(Type::Par(BasicType::Int(IntType::Range(Expr::Int(1), var("n")))))],
            Box::new(Type::Var(BasicType::Int(IntType::Range(Expr::Int(0), Expr::Int(1))))),
        )
    );
    assert_eq!(t.fmt(), "array[1..n] of var 0..1");
    assert_eq!(visit_type(&named("set_type", "", vec![])), Type::Var(BasicType::Int(IntType::Base)));
}

fn declaration(ty: SyntaxNode, name: &str, assign: Option<SyntaxNode>) -> SyntaxNode {
    let mut children = vec![with_field(ty, "type"), tok(":"), with_field(ident(name), "name")];
    if let Some(a) = assign {
        children.push(tok("="));
        children.push(with_field(a, "expr"));
    }
    named("declaration", "", children)
}

#[test]
fn visits_declarations() {
    let int_t = named("type_base", "int", vec![named("primitive_type", "int", vec![])]);
    let (t, n, a) = visit_declaration(&declaration(int_t, "n", None));
    assert_eq!(t, Type::Par(BasicType::Int(IntType::Base)));
    assert_eq!(n, "n");
    assert_eq!(a, "");
    let int_t = named("type_base", "int", vec![named("primitive_type", "int", vec![])]);
    let (_, n, a) = visit_declaration(&declaration(int_t, "m", Some(int_lit("3"))));
    assert_eq!(n, "m");
    assert_eq!(a, "3");
}

#[test]
fn visits_goals() {
    let sat = named("goal", "", vec![tok("solve"), tok("satisfy")]);
    assert_eq!(visit_task(&sat), Task::Sat);
    let max = named("goal", "", vec![tok("solve"), tok("maximize"), ident("x")]);
    assert_eq!(visit_task(&max), Task::Opt(var("x")));
    let min = named("goal", "", vec![tok("solve"), tok("minimize"), ident("x")]);
    let t = visit_task(&min);
    assert_eq!(t, Task::Opt(call("-", vec![var("x")])));
    let m = Model { vars: vec![], constraints: vec![], task: t };
    assert_eq!(m.fmt(), "solve maximize -(x);");
    assert_eq!(visit_task(&named("goal", "", vec![])), Task::Sat);
}

#[test]
fn visits_source_files() {
    let int_t = named("type_base", "int", vec![named("primitive_type", "int", vec![])]);
    let file = named(
        "source_file",
        "",
        vec![
            declaration(int_t, "n", None),
            tok(";"),
            named("constraint", "", vec![tok("constraint"), infix(ident("n"), ">", int_lit("0"))]),
            tok(";"),
            named("line_comment", "% note", vec![]),
            named("output", "", vec![]),
            named("predicate", "", vec![]),
            named("goal", "", vec![tok("solve"), tok("maximize"), ident("n")]),
            tok(";"),
        ],
    );
    let m = visit_source_file(&file);
    assert_eq!(
        m,
        Model {
            vars: vec![(Type::Par(BasicType::Int(IntType::Base)), "n".to_string(), String::new())],
            constraints: vec![call(">", vec![var("n"), Expr::Int(0)])],
            task: Task::Opt(var("n")),
        }
    );
    assert_eq!(m.fmt(), "int : n;\nconstraint n > 0;\nsolve maximize n;");
    let empty = visit_source_file(&named("source_file", "", vec![]));
    assert_eq!(empty, Model { vars: vec![], constraints: vec![], task: Task::Sat });
}

// ---------------------------------------------------------------------------
// Checks before reading and rendering
// ---------------------------------------------------------------------------

#[test]
fn checks_syntax_trees() {
    assert!(expr_check(&int_lit("5")));
    assert!(!expr_check(&int_lit("99999999999")));
    assert!(!expr_check(&int_lit("abc")));
    // an operator without its right operand
    let broken = named("infix_operator", "", vec![with_field(ident("x"), "left"), field_tok("+", "operator")]);
    assert!(!expr_check(&broken));
    // a call without a name
    let nameless = named("call", "", vec![tok("("), tok(")")]);
    assert!(!expr_check(&nameless));
    // a bad literal deep inside
    let deep = infix(ident("x"), "+", infix(int_lit("1"), "*", int_lit("1e9")));
    assert!(!expr_check(&deep));
    assert!(expr_check(&infix(ident("x"), "+", infix(int_lit("1"), "*", int_lit("9")))));
    // an array type without any named child
    assert!(!type_check(&named("array_type", "", vec![tok("array")])));
    assert!(!type_check(&named("type_base", "", vec![tok("var")])));
    // a constraint with no expression
    let file = named("source_file", "", vec![named("constraint", "", vec![tok("constraint")])]);
    assert!(!source_check(&file));
    let file = named(
        "source_file",
        "",
        vec![named("constraint", "", vec![tok("constraint"), ident("b")]), named("include", "", vec![])],
    );
    assert!(source_check(&file));
    assert_eq!(visit_source_file(&file).constraints, vec![var("b")]);
}

#[test]
fn checks_models_before_rendering() {
    let ok = Model { vars: vec![], constraints: vec![call("f", vec![var("a")])], task: Task::Sat };
    assert!(ok.is_printable());
    let bad = Model { vars: vec![], constraints: vec![call("f", vec![])], task: Task::Sat };
    assert!(!bad.is_printable());
    let bad_goal = Model {
        vars: vec![],
        constraints: vec![],
        task: Task::Opt(Expr::If(Box::new(call("g", vec![])), Box::new(Expr::True), Box::new(Expr::False))),
    };
    assert!(!bad_goal.is_printable());
    let bad_type = Model {
        vars: vec![(
            Type::Par(BasicType::Int(IntType::Range(Expr::Int(0), call("h", vec![])))),
            "x".to_string(),
            String::new(),
        )],
        constraints: vec![],
        task: Task::Sat,
    };
    assert!(!bad_type.is_printable());
    assert!(!call("f", vec![]).is_printable());
    assert!(call("+", vec![var("a"), var("b")]).is_printable());
}

// ---------------------------------------------------------------------------
// Laws on concrete values
// ---------------------------------------------------------------------------

#[test]
fn rendered_integers_read_back() {
    for i in [0, 1, -1, 9, 10, -10, 123456, i32::MAX, i32::MIN] {
        assert_eq!(parse_i32(&Expr::Int(i).fmt()), Some(i));
    }
}

#[test]
fn a_call_without_arguments_makes_the_model_unprintable() {
    // `f()` in a constraint: the model keeps a call with no argument
    let file = named(
        "source_file",
        "",
        vec![named(
            "constraint",
            "",
            vec![tok("constraint"), named("call", "", vec![with_field(ident("f"), "name"), tok("("), tok(")")])],
        )],
    );
    assert!(source_check(&file));
    let m = visit_source_file(&file);
    assert_eq!(m.constraints, vec![call("f", vec![])]);
    assert!(!m.is_printable());
}

#[test]
fn merged_generators_keep_their_clauses() {
    let a = enum_clause(GenExpr::Empty, "c", var("z"));
    let b = GenExpr::Guard(Box::new(enum_clause(GenExpr::Empty, "a", var("x"))), Box::new(var("y")));
    let merged = merge_gen_expr(a, b);
    assert_eq!(merged.fmt(), "a in x, c in z, where y, ");
}

#[test]
fn clones_are_equal() {
    let m = Model {
        vars: vec![(
            Type::Array(vec![Box::new(Type::Par(BasicType::Bool))], Box::new(Type::Var(BasicType::Bool))),
            "a".to_string(),
            "[true]".to_string(),
        )],
        constraints: vec![Expr::Comprehension(
            enum_clause(GenExpr::Empty, "i", var("s")),
            Box::new(call("f", vec![var("i")])),
        )],
        task: Task::Opt(Expr::Int(3)),
    };
    let c = m.clone();
    assert_eq!(c, m);
    assert_eq!(c.fmt(), m.fmt());
}

#[test]
fn syntax_node_lookups() {
    let n = named(
        "call",
        "",
        vec![with_field(ident("f"), "name"), tok("("), with_field(ident("a"), "arguments"), tok(")")],
    );
    assert_eq!(n.child_count(), 4);
    assert_eq!(n.named_child_count(), 2);
    assert_eq!(n.named_child(1).map(|c| c.text.clone()), Some("a".to_string()));
    assert!(n.named_child(2).is_none());
    assert_eq!(n.child_by_field_name("arguments").map(|c| c.text.clone()), Some("a".to_string()));
    assert!(n.child_by_field_name("template").is_none());
    assert_eq!(n.child(1).map(|c| c.kind.clone()), Some("(".to_string()));
    assert!(n.child(4).is_none());
    assert!(n.is_kind("call"));
    assert!(n.children[0].has_field("name"));
    assert!(!n.children[1].has_field("name"));
}

// ---------------------------------------------------------------------------
// Source text of nodes, and items that reading a file passes over
// ---------------------------------------------------------------------------

#[test]
fn node_text_is_the_source_between_its_offsets() {
    let src = "var int: x; % café";
    assert_eq!(text_between(src, 9, 10), Ok("x".to_string()));
    assert_eq!(text_between(src, 0, 3), Ok("var".to_string()));
    assert_eq!(text_between(src, 4, 4), Ok(String::new()));
    assert_eq!(text_between(src, 12, src.len()), Ok("% café".to_string()));
}

#[test]
fn node_ranges_outside_the_source_are_refused() {
    let src = "int: n;";
    assert_eq!(text_between(src, 3, 2), Err(SourceError::Range { start: 3, end: 2 }));
    assert_eq!(text_between(src, 0, 8), Err(SourceError::Range { start: 0, end: 8 }));
    assert_eq!(text_between(src, 7, 7), Ok(String::new()));
}

#[test]
fn node_ranges_that_cut_a_character_are_refused() {
    // "é" takes the bytes 2 and 3.
    let src = "caé!";
    assert_eq!(text_between(src, 0, 3), Err(SourceError::Text { start: 0, end: 3 }));
    assert_eq!(text_between(src, 3, 5), Err(SourceError::Text { start: 3, end: 5 }));
    assert_eq!(text_between(src, 2, 4), Ok("é".to_string()));
    assert_eq!(text_between(src, 0, 5), Ok("caé!".to_string()));
}

#[test]
fn comments_and_output_items_leave_the_model_unchanged() {
    let int_t = || named("type_base", "int", vec![named("primitive_type", "int", vec![])]);
    let items = || {
        vec![
            declaration(int_t(), "n", None),
            tok(";"),
            named("goal", "", vec![tok("solve"), tok("minimize"), ident("n")]),
            tok(";"),
        ]
    };
    let plain = visit_source_file(&named("source_file", "", items()));
    let mut with_extras = items();
    with_extras.insert(0, named("line_comment", "% first", vec![]));
    with_extras.insert(2, named("output", "", vec![tok("output")]));
    with_extras.push(named("line_comment", "% last", vec![]));
    let file = named("source_file", "", with_extras);
    assert!(source_check(&file));
    assert_eq!(visit_source_file(&file), plain);
    assert_eq!(plain.fmt(), "int : n;\nsolve maximize -(n);");
}

// ---------------------------------------------------------------------------
// What reading passes over and reports
// ---------------------------------------------------------------------------

fn at(mut n: SyntaxNode, start: (usize, usize), end: (usize, usize)) -> SyntaxNode {
    n.start_point = start;
    n.end_point = end;
    n
}

#[test]
fn reading_reports_what_it_passes_over_in_order() {
    let float_t = named("type_base", "float", vec![named("primitive_type", "float", vec![])]);
    let set_t = named("set_type", "", vec![]);
    let odd_base = named("type_base", "", vec![named("type_inst_id", "$T", vec![])]);
    let short_if = named("if_then_else", "", vec![tok("if"), ident("b"), tok("then"), ident("c")]);
    let text = at(named("string_literal", "\"s\"", vec![]), (2, 18), (2, 21));
    let objective = at(named("float_literal", "1.5", vec![]), (5, 15), (5, 18));
    let file = named(
        "source_file",
        "",
        vec![
            declaration(float_t, "x", None),
            tok(";"),
            declaration(set_t, "s", None),
            tok(";"),
            named("constraint", "", vec![tok("constraint"), infix(short_if, "=", text)]),
            tok(";"),
            named("line_comment", "% note", vec![]),
            named("output", "", vec![tok("output"), named("string_literal", "\"o\"", vec![])]),
            named("predicate", "", vec![]),
            declaration(odd_base, "t", None),
            named("goal", "", vec![tok("solve"), tok("maximize"), objective]),
            tok(";"),
        ],
    );
    assert!(source_check(&file));
    assert_eq!(
        source_warnings(&file),
        vec![
            Warning::UnknownBasicType { text: "float".to_string() },
            Warning::UnknownType { kind: "set_type".to_string() },
            Warning::IfThenElseArity,
            Warning::UnknownExpr { kind: "string_literal".to_string(), start: (2, 18), end: (2, 21) },
            Warning::UnsolvedItem { kind: "predicate".to_string() },
            Warning::UnknownBaseType { kind: "type_inst_id".to_string() },
            Warning::UnknownExpr { kind: "float_literal".to_string(), start: (5, 15), end: (5, 18) },
        ]
    );
}

#[test]
fn reading_reports_nothing_on_known_nodes() {
    let int_t = named("type_base", "int", vec![named("primitive_type", "int", vec![])]);
    let range_t = named(
        "type_base",
        "",
        vec![tok("var"), infix(int_lit("1"), "..", ident("n"))],
    );
    let arr_t = named("array_type", "", vec![tok("array"), tok("["), range_t, tok("]"), tok("of"), int_t]);
    let file = named(
        "source_file",
        "",
        vec![
            declaration(arr_t, "a", None),
            named("constraint", "", vec![tok("constraint"), infix(ident("n"), ">", int_lit("0"))]),
            named("goal", "", vec![tok("solve"), tok("satisfy"), named("bogus", "", vec![])]),
        ],
    );
    assert!(source_check(&file));
    assert_eq!(source_warnings(&file), vec![]);
}
