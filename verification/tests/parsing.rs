use bdl::ast::{Expr, Type};
use bdl::codegen::generate;
use bdl::parser::parse_program;

fn parse(input: &str) -> bdl::ast::Program {
    parse_program(input).expect("parse").Program().unwrap()
}

#[test]
fn parses_print_of_integer() {
    let p = parse("print(42)");
    assert_eq!(p.expressions.len(), 1);
    match &p.expressions[0] {
        Expr::PrintExpr(pr) => match &*pr.arg {
            Expr::Integer(i) => assert_eq!(i.value, 42),
            other => panic!("unexpected argument: {:?}", other),
        },
        other => panic!("unexpected expression: {:?}", other),
    }
}

#[test]
fn parses_typed_assignment() {
    let p = parse("nums: list<int> = method()");
    match &p.expressions[0] {
        Expr::AssignmentExpr(a) => {
            assert_eq!(a.target.value.value, "nums");
            assert!(matches!(&a.target.associated_type, Type::List(inner) if matches!(**inner, Type::Int)));
            assert!(matches!(&*a.value, Expr::MethodCallExpr(m) if m.method_name.value == "method"));
        }
        other => panic!("unexpected expression: {:?}", other),
    }
}

#[test]
fn parses_negative_and_float_literals() {
    let p = parse("f(-42, 3.14)");
    match &p.expressions[0] {
        Expr::MethodCallExpr(m) => {
            assert!(matches!(&m.args[0], Expr::Integer(i) if i.value == -42));
            assert!(matches!(&m.args[1], Expr::Float(fl) if fl.value == "3.14"));
        }
        other => panic!("unexpected expression: {:?}", other),
    }
}

#[test]
fn rejects_malformed_input() {
    assert!(parse_program("x: int = = 3").is_none());
    assert!(parse_program("if { }").is_none());
    assert!(parse_program("x: int =").is_none());
    assert!(parse_program(")").is_none());
}

#[test]
fn parses_and_compiles_a_complete_program() {
    let src = r#"
            x: int = 42
            if x > 0 {
                print(x)
            } else {
                print(-x)
            }

            rep 3 {
                print(x)
            }"#;
    let p = parse(src);
    assert_eq!(p.expressions.len(), 3);
    let out = generate(&p).unwrap();
    assert!(out.contains("int32_t x"));
    assert!(out.contains("x = 42;"));
    assert!(out.contains("if ((x > 0))"));
    assert!(out.contains("std::cout << -(x)"));
    assert!(out.contains("while ((_r0 < 3))"));
}

#[test]
fn parses_function_definition_with_parameters() {
    let src = r#"def add(x: int, y: int) {
                x + y
            }"#;
    let p = parse(src);
    match &p.expressions[0] {
        Expr::FunctionDef(f) => {
            assert_eq!(f.name.value, "add");
            assert_eq!(f.args.len(), 2);
            assert_eq!(f.args[1].value.value, "y");
            assert!(matches!(&f.body[0], Expr::BinOp(b) if b.op == "+"));
        }
        other => panic!("unexpected expression: {:?}", other),
    }
}

#[test]
fn chained_operators_group_left_to_right() {
    let p = parse("a - b - c");
    match &p.expressions[0] {
        Expr::BinOp(outer) => {
            assert_eq!(outer.op, "-");
            assert!(matches!(&*outer.right, Expr::Identifier(i) if i.value == "c"));
            assert!(matches!(&*outer.left, Expr::BinOp(inner) if inner.op == "-"));
        }
        other => panic!("unexpected expression: {:?}", other),
    }
}
