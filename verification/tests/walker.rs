use bdl::ast::{
    AssignmentExpr, BinOpExpr, Expr, FunctionDef, Identifier, IntegerLiteral, PrintExpr,
    Program, Type, TypedIdentifier,
};
use bdl::ast_processor::AstProcessor;
use bdl::text::next_token;

#[test]
fn walker_reports_nodes_in_traversal_order() {
    let p = Program {
        expressions: vec![
            Expr::AssignmentExpr(AssignmentExpr::new(
                TypedIdentifier::new(Identifier::new("x".to_string()), Type::Int),
                Expr::BinOp(BinOpExpr::new(
                    Expr::Integer(IntegerLiteral::new(1)),
                    "+".to_string(),
                    Expr::Integer(IntegerLiteral::new(2)),
                )),
            )),
            Expr::PrintExpr(PrintExpr::new(Expr::Identifier(Identifier::new(
                "x".to_string(),
            )))),
        ],
    };
    let lines = AstProcessor::new(p).process();
    assert_eq!(
        lines,
        vec![
            "Processing assignment to: x".to_string(),
            "Processing binary operation: +".to_string(),
            "Processing integer: 1".to_string(),
            "Processing integer: 2".to_string(),
            "Processing print expression".to_string(),
            "Processing identifier: x".to_string(),
        ]
    );
}

#[test]
fn walker_reports_function_parameters() {
    let p = Program {
        expressions: vec![Expr::FunctionDef(FunctionDef {
            name: Identifier::new("add".to_string()),
            args: vec![
                TypedIdentifier::new(Identifier::new("a".to_string()), Type::Int),
                TypedIdentifier::new(
                    Identifier::new("xs".to_string()),
                    Type::List(Box::new(Type::Float)),
                ),
            ],
            body: vec![Expr::Integer(IntegerLiteral::new(0))],
        })],
    };
    let lines = AstProcessor::new(p).process();
    assert_eq!(
        lines,
        vec![
            "Processing function definition: add".to_string(),
            "  Parameter: a : Int".to_string(),
            "  Parameter: xs : List(Float)".to_string(),
            "Processing integer: 0".to_string(),
        ]
    );
}

fn split(s: &str) -> (String, String) {
    let chars: Vec<char> = s.chars().collect();
    let (tok, rest) = next_token(&chars);
    (tok.into_iter().collect(), rest.into_iter().collect())
}

#[test]
fn next_token_splits_at_first_whitespace() {
    assert_eq!(split("one two three"), ("one".to_string(), "two three".to_string()));
    assert_eq!(split("word"), ("word".to_string(), "".to_string()));
    assert_eq!(split(""), ("".to_string(), "".to_string()));
    assert_eq!(split("a\nb"), ("a".to_string(), "b".to_string()));
    assert_eq!(split(" lead"), ("".to_string(), "lead".to_string()));
}
