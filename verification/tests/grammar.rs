use bdl::syntax::{parses, Rule};

fn parse(input: &str, rule: Rule) -> bool {
    parses(input, rule)
}

#[test]
fn test_basic_values() {
    // Integers
    assert!(parse("42", Rule::Integer));
    assert!(parse("-42", Rule::Integer));

    // Floats
    assert!(parse("3.14", Rule::Float));
    assert!(parse("-3.14", Rule::Float));

    // Identifiers
    assert!(parse("x", Rule::Identifier));
    assert!(parse("variable_name", Rule::Identifier));
    assert!(parse("camelCase", Rule::Identifier));
    assert!(!parse("1variable", Rule::Identifier)); // Should fail
}

#[test]
fn test_typed_identifiers() {
    assert!(parse("x: int", Rule::TypedIdentifier));
    assert!(parse("nums: list<int>", Rule::TypedIdentifier));
    assert!(parse("point: tuple<float>", Rule::TypedIdentifier));
}

#[test]
fn test_assignments() {
    assert!(parse("x: int = 42", Rule::Assignment));
    assert!(parse("y: float = 3.14", Rule::Assignment));
    assert!(parse("nums: list<int> = method()", Rule::Assignment));
}

#[test]
fn test_function_definitions() {
    assert!(parse(
        r#"def add(x: int, y: int) {
                x + y
            }"#,
        Rule::FunctionDef
    ));
}

#[test]
fn test_method_calls() {
    assert!(parse("print(42)", Rule::MethodCall));
    assert!(parse("add(x, y)", Rule::MethodCall));
    assert!(parse("complex(3.14, other())", Rule::MethodCall));
}

#[test]
fn test_if_expressions() {
    assert!(parse("if x { print(42) print(42) }", Rule::IfExpr));
    assert!(parse("if x { print(42) } else { print(0) }", Rule::IfExpr));
}

#[test]
fn test_rep_expressions() {
    assert!(parse("rep 5 { print(42) }", Rule::RepExpr));
}

#[test]
fn test_binary_operations() {
    // Arithmetic
    assert!(parse("5 + 3", Rule::BinOp));
    assert!(parse("x - y", Rule::BinOp));
    assert!(parse("10 * 20", Rule::BinOp));
    assert!(parse("a / b", Rule::BinOp));

    // Comparisons
    assert!(parse("x == y", Rule::BinOp));
    assert!(parse("x != y", Rule::BinOp));
    assert!(parse("x < y", Rule::BinOp));
    assert!(parse("x > y", Rule::BinOp));
    assert!(parse("x <= y", Rule::BinOp));
    assert!(parse("x >= y", Rule::BinOp));

    // Logical
    assert!(parse("x && y", Rule::BinOp));
    assert!(parse("x || y", Rule::BinOp));
}

#[test]
fn test_unary_operations() {
    assert!(parse("!true", Rule::UnOp));
    assert!(parse("-42", Rule::UnOp));
}

#[test]
fn test_block_expr() {
    let program = "{ print(x) print(z) print(x) print(y) }";
    assert!(parse(program, Rule::Block));
}

#[test]
fn test_if_expr() {
    let program = r#"
            if x > 0 {
                print(x)
                print(y)
            } else {
                print(-x)
            }
        "#;
    println!("Program: {}", parse(program, Rule::IfExpr));
    assert!(parse(program, Rule::IfExpr));
}

#[test]
fn test_complete_programs() {
    let program = r#"
            x: int = 42
            if x > 0 {
                print(x)
            } else {
                print(-x)
            }

            rep 3 {
                print(x)
            }"#;
    println!("Program: {}", parse(program, Rule::Program));
    assert!(parse(program, Rule::Program));
}
