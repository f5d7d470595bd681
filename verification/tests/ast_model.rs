use bdl::ast::{
    AstNode, Expr, FloatLiteral, Identifier, IntegerLiteral, NoneExpr, Program, StringLiteral,
    Type, TypedIdentifier, UnOpExpr, types_equal,
};

#[test]
fn literal_types_are_known_statically() {
    assert!(matches!(
        Expr::Integer(IntegerLiteral::new(1)).get_type(),
        Some(Type::Int)
    ));
    assert!(matches!(
        Expr::Float(FloatLiteral::new("1.5".to_string())).get_type(),
        Some(Type::Float)
    ));
    assert!(matches!(
        Expr::String(StringLiteral::new("s".to_string())).get_type(),
        Some(Type::String)
    ));
    assert!(matches!(
        Expr::NoneExpr(NoneExpr::new()).get_type(),
        Some(Type::Unit)
    ));
    assert!(Expr::Identifier(Identifier::new("x".to_string()))
        .get_type()
        .is_none());
}

#[test]
fn unary_operation_takes_operand_type() {
    let neg = Expr::UnOp(UnOpExpr::new(
        "-".to_string(),
        Expr::Integer(IntegerLiteral::new(3)),
    ));
    assert!(matches!(neg.get_type(), Some(Type::Int)));
}

#[test]
fn node_type_of_program_is_last_expression() {
    let p = Program {
        expressions: vec![
            Expr::Integer(IntegerLiteral::new(1)),
            Expr::String(StringLiteral::new("s".to_string())),
        ],
    };
    assert!(matches!(AstNode::Program(p).get_type(), Some(Type::String)));
    let empty = Program { expressions: vec![] };
    assert!(matches!(AstNode::Program(empty).get_type(), Some(Type::Unit)));
}

#[test]
fn node_type_of_typed_identifier_is_declared() {
    let t = TypedIdentifier::new(
        Identifier::new("xs".to_string()),
        Type::List(Box::new(Type::Int)),
    );
    let got = AstNode::TypedIdentifier(t).get_type().unwrap();
    assert!(types_equal(&got, &Type::List(Box::new(Type::Int))));
}

#[test]
fn accessors_select_only_their_variant() {
    let e = Expr::Integer(IntegerLiteral::new(9));
    assert_eq!(e.Integer().unwrap().value, 9);
    let f = Expr::String(StringLiteral::new("t".to_string()));
    assert!(f.Integer().is_none());
}

#[test]
fn structural_type_equality() {
    assert!(types_equal(&Type::Int, &Type::Int));
    assert!(!types_equal(&Type::Int, &Type::Float));
    assert!(types_equal(
        &Type::List(Box::new(Type::String)),
        &Type::List(Box::new(Type::String))
    ));
    assert!(!types_equal(
        &Type::List(Box::new(Type::String)),
        &Type::List(Box::new(Type::Int))
    ));
    assert!(types_equal(
        &Type::FunctionType(vec![Type::Int, Type::Float], Box::new(Some(Type::Unit))),
        &Type::FunctionType(vec![Type::Int, Type::Float], Box::new(Some(Type::Unit)))
    ));
    assert!(!types_equal(
        &Type::FunctionType(vec![Type::Int], Box::new(None)),
        &Type::FunctionType(vec![Type::Int, Type::Int], Box::new(None))
    ));
}
