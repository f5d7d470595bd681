use bdl::ast::{
    AssignmentExpr, BinOpExpr, Expr, FunctionDef, Identifier, IfExpr, IntegerLiteral, ListExpr,
    MethodCallExpr, PrintExpr, Program, RepExpr, ReturnExpr, StringLiteral, Type,
    TypedIdentifier, UnOpExpr, FloatLiteral,
};
use bdl::codegen::{generate, CompileError};

fn ident(s: &str) -> Identifier {
    Identifier::new(s.to_string())
}

fn int_lit(v: i128) -> Expr {
    Expr::Integer(IntegerLiteral::new(v))
}

fn print_of(e: Expr) -> Expr {
    Expr::PrintExpr(PrintExpr::new(e))
}

fn assign(name: &str, ty: Type, value: Expr) -> Expr {
    Expr::AssignmentExpr(AssignmentExpr::new(
        TypedIdentifier::new(ident(name), ty),
        value,
    ))
}

fn program(expressions: Vec<Expr>) -> Program {
    Program { expressions }
}

#[test]
fn print_integer_literal() {
    let p = program(vec![print_of(int_lit(42))]);
    let out = generate(&p).unwrap();
    assert!(out.starts_with("#include <bits/stdc++.h>\n"));
    assert!(out.contains("int32_t main"));
    assert!(out.contains("std::cout << 42"));
    // exactly one function is defined
    assert_eq!(out.matches("main").count(), 1);
}

#[test]
fn typed_assignment_with_composite_value() {
    let sum = Expr::BinOp(BinOpExpr::new(int_lit(1), "+".to_string(), int_lit(2)));
    let p = program(vec![assign("x", Type::Int, sum)]);
    let out = generate(&p).unwrap();
    assert!(out.contains("int32_t x"));
    assert!(out.contains("x = (1 + 2);"));
}

#[test]
fn conditional_with_both_branches() {
    let cond = Expr::BinOp(BinOpExpr::new(
        Expr::Identifier(ident("x")),
        ">".to_string(),
        int_lit(0),
    ));
    let p = program(vec![Expr::IfExpr(IfExpr::new(
        cond,
        vec![print_of(Expr::Identifier(ident("x")))],
        Some(vec![print_of(int_lit(0))]),
    ))]);
    let out = generate(&p).unwrap();
    assert!(out.contains("if ((x > 0))"));
    assert!(out.contains("else"));
    assert!(out.contains("std::cout << x"));
    assert!(out.contains("std::cout << 0"));
}

#[test]
fn repetition_desugars_to_counted_loop() {
    let p = program(vec![Expr::RepExpr(RepExpr::new(
        int_lit(3),
        vec![print_of(int_lit(1))],
    ))]);
    let out = generate(&p).unwrap();
    assert!(out.contains("int32_t _r0"));
    assert!(out.contains("_r0 = 0;"));
    assert!(out.contains("while ((_r0 < 3))"));
    assert!(out.contains("std::cout << 1"));
    assert!(out.contains("_r0 = (_r0 + 1);"));
    // the increment is the last statement of the loop body: the zeroing and
    // the increment are the only assignments to the counter
    assert_eq!(out.matches("_r0 =").count(), 2);
}

#[test]
fn empty_program_still_has_entry_function() {
    let p = program(vec![]);
    let out = generate(&p).unwrap();
    assert!(out.starts_with("#include <bits/stdc++.h>\n"));
    assert!(out.contains("int32_t main"));
    assert_eq!(out.matches("main").count(), 1);
}

#[test]
fn lowering_is_deterministic() {
    let build = || {
        program(vec![
            assign("x", Type::Int, int_lit(7)),
            Expr::RepExpr(RepExpr::new(
                Expr::Identifier(ident("x")),
                vec![print_of(Expr::Identifier(ident("x")))],
            )),
        ])
    };
    let a = generate(&build()).unwrap();
    let b = generate(&build()).unwrap();
    assert_eq!(a, b);
}

#[test]
fn nested_repetitions_use_distinct_counters() {
    let inner = Expr::RepExpr(RepExpr::new(int_lit(3), vec![print_of(int_lit(1))]));
    let outer = Expr::RepExpr(RepExpr::new(int_lit(2), vec![inner]));
    let sibling = Expr::RepExpr(RepExpr::new(int_lit(4), vec![print_of(int_lit(9))]));
    let p = program(vec![outer, sibling]);
    let out = generate(&p).unwrap();
    assert!(out.contains("int32_t _r0"));
    assert!(out.contains("int32_t _r1"));
    assert!(out.contains("int32_t _r2"));
    assert!(out.contains("while ((_r0 < 2))"));
    assert!(out.contains("while ((_r1 < 3))"));
    assert!(out.contains("while ((_r2 < 4))"));
}

#[test]
fn call_arguments_keep_source_order() {
    let g = Expr::MethodCallExpr(MethodCallExpr::new(ident("g"), vec![int_lit(1)]));
    let h = Expr::MethodCallExpr(MethodCallExpr::new(ident("h"), vec![int_lit(2)]));
    let p = program(vec![Expr::MethodCallExpr(MethodCallExpr::new(
        ident("f"),
        vec![g, h],
    ))]);
    let out = generate(&p).unwrap();
    assert!(out.contains("f(g(1), h(2));"));
}

#[test]
fn list_literal_renders_elements_in_order() {
    let list = Expr::ListExpr(ListExpr::new(vec![int_lit(1), int_lit(2)]));
    let p = program(vec![assign(
        "xs",
        Type::List(Box::new(Type::Int)),
        list,
    )]);
    let out = generate(&p).unwrap();
    assert!(out.contains("std::vector<int32_t> xs"));
    assert!(out.contains("xs = vector{ 1, 2 };"));
}

#[test]
fn reassignment_does_not_redeclare() {
    let p = program(vec![
        assign("x", Type::Int, int_lit(1)),
        assign("x", Type::Int, int_lit(2)),
    ]);
    let out = generate(&p).unwrap();
    assert_eq!(out.matches("int32_t x").count(), 1);
    assert!(out.contains("x = 1;"));
    assert!(out.contains("x = 2;"));
}

#[test]
fn rebinding_with_changed_type_is_rejected() {
    let p = program(vec![
        assign("x", Type::Int, int_lit(1)),
        assign(
            "x",
            Type::String,
            Expr::String(StringLiteral::new("a".to_string())),
        ),
    ]);
    assert_eq!(generate(&p), Err(CompileError::TypeMismatch));
}

#[test]
fn statement_in_value_position_is_rejected() {
    let bad = Expr::BinOp(BinOpExpr::new(
        assign("y", Type::Int, int_lit(1)),
        "+".to_string(),
        int_lit(2),
    ));
    let p = program(vec![print_of(bad)]);
    assert_eq!(generate(&p), Err(CompileError::ValueExpected));
}

#[test]
fn float_literal_passes_through_verbatim() {
    let p = program(vec![assign(
        "y",
        Type::Float,
        Expr::Float(FloatLiteral::new("3.14".to_string())),
    )]);
    let out = generate(&p).unwrap();
    assert!(out.contains("double y"));
    assert!(out.contains("y = 3.14;"));
}

#[test]
fn string_literal_renders_quoted() {
    let p = program(vec![print_of(Expr::String(StringLiteral::new(
        "hi".to_string(),
    )))]);
    let out = generate(&p).unwrap();
    assert!(out.contains("std::cout << \"hi\""));
}

#[test]
fn unary_operation_wraps_operand() {
    let neg = Expr::UnOp(UnOpExpr::new("-".to_string(), Expr::Identifier(ident("x"))));
    let p = program(vec![print_of(neg)]);
    let out = generate(&p).unwrap();
    assert!(out.contains("std::cout << -(x)"));
}

#[test]
fn function_definition_registers_named_function() {
    let body = vec![Expr::ReturnExpr(ReturnExpr::new(Expr::Identifier(ident(
        "a",
    ))))];
    let def = Expr::FunctionDef(FunctionDef {
        name: ident("twice"),
        args: vec![TypedIdentifier::new(ident("a"), Type::Int)],
        body,
    });
    let p = program(vec![def, print_of(int_lit(5))]);
    let out = generate(&p).unwrap();
    assert!(out.contains("void twice(int32_t a)"));
    assert!(out.contains("return a;"));
    // entry first, registered function after it
    let main_at = out.find("int32_t main").unwrap();
    let twice_at = out.find("void twice").unwrap();
    assert!(main_at < twice_at);
}

#[test]
fn source_entry_function_body_is_spliced() {
    let def = Expr::FunctionDef(FunctionDef {
        name: ident("main"),
        args: vec![],
        body: vec![print_of(int_lit(8))],
    });
    let p = program(vec![def]);
    let out = generate(&p).unwrap();
    assert_eq!(out.matches("main").count(), 1);
    assert!(out.contains("std::cout << 8"));
}

#[test]
fn bound_is_lowered_outside_the_loop() {
    // a call bound appears in the loop condition, not as a body statement
    let bound = Expr::MethodCallExpr(MethodCallExpr::new(ident("limit"), vec![]));
    let p = program(vec![Expr::RepExpr(RepExpr::new(
        bound,
        vec![print_of(int_lit(1))],
    ))]);
    let out = generate(&p).unwrap();
    assert!(out.contains("while ((_r0 < limit()))"));
    assert_eq!(out.matches("limit()").count(), 1);
}

#[test]
fn type_mapping_renders_exactly() {
    assert_eq!(bdl::codegen::get_string_type(&Type::Int), "int32_t");
    assert_eq!(bdl::codegen::get_string_type(&Type::Float), "double");
    assert_eq!(bdl::codegen::get_string_type(&Type::String), "std::string");
    assert_eq!(
        bdl::codegen::get_string_type(&Type::List(Box::new(Type::Int))),
        "std::vector<int32_t>"
    );
    assert_eq!(
        bdl::codegen::get_string_type(&Type::List(Box::new(Type::List(Box::new(
            Type::String
        ))))),
        "std::vector<std::vector<std::string>>"
    );
    assert_eq!(
        bdl::codegen::get_string_type(&Type::Tuple(Box::new(Type::Int))),
        "auto"
    );
    assert_eq!(bdl::codegen::get_string_type(&Type::Unit), "void");
}

#[test]
fn negative_integer_renders_with_sign() {
    let p = program(vec![print_of(int_lit(-7))]);
    let out = generate(&p).unwrap();
    assert!(out.contains("std::cout << -7"));
    let big = program(vec![print_of(int_lit(1234567890123456789))]);
    let out2 = generate(&big).unwrap();
    assert!(out2.contains("1234567890123456789"));
}

#[test]
fn renderer_collapses_carriage_return_line_feed_pairs() {
    // crustal's formatter rejoins written lines with a bare line feed, and
    // the contracts say so: a carriage-return/line-feed pair inside a
    // string literal never reaches the output, a lone carriage return does
    let list = Expr::ListExpr(ListExpr::new(vec![Expr::String(StringLiteral::new(
        "a\r\nb".to_string(),
    ))]));
    let p = program(vec![assign("xs", Type::List(Box::new(Type::String)), list)]);
    let out = generate(&p).unwrap();
    // the pair is gone; the body renderer then indents the continuation line
    assert!(out.contains("xs = vector{ \"a\n    b\" };"));
    assert!(!out.contains('\r'));

    let q = program(vec![print_of(Expr::String(StringLiteral::new(
        "c\r\nd\re".to_string(),
    )))]);
    let out2 = generate(&q).unwrap();
    assert!(out2.contains("std::cout << \"c\n    d\re\""));
}
