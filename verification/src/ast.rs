//! The abstract syntax tree of the source language: a closed, tagged union of
//! expression forms, the vocabulary of source types, and the typed-identifier
//! pairing used at declaration sites. The tree is built once (by a parser or
//! by hand) and is read-only input to the code generator.

use vstd::prelude::*;

verus! {

broadcast use vstd::std_specs::vec::group_vec_axioms;

/// A source program: an ordered sequence of top-level expressions.
#[derive(Debug)]
pub struct Program {
    pub expressions: Vec<Expr>,
}

/// A function definition: a name, ordered typed parameters, and a body block.
#[derive(Debug)]
pub struct FunctionDef {
    pub name: Identifier,
    pub args: Vec<TypedIdentifier>,
    pub body: Vec<Expr>,
}

/// The closed set of source types. Every declaration site carries one of
/// these, fully resolved: the code generator never infers a type.
#[derive(Debug)]
pub enum Type {
    Int,
    Float,
    String,
    List(Box<Type>),
    Tuple(Box<Type>),
    /// Parameter types and an optional result type.
    FunctionType(Vec<Type>, Box<Option<Type>>),
    Unit,
}

/// A name paired with its declared type; used at assignment targets and
/// function parameters.
#[derive(Debug)]
pub struct TypedIdentifier {
    pub value: Identifier,
    pub associated_type: Type,
}

impl TypedIdentifier {
    pub fn new(value: Identifier, associated_type: Type) -> (r: TypedIdentifier)
        ensures
            r.value == value,
            r.associated_type == associated_type,
    {
        TypedIdentifier { value, associated_type }
    }
}

/// A signed integer literal.
#[derive(Debug)]
pub struct IntegerLiteral {
    pub value: i128,
}

impl IntegerLiteral {
    pub fn new(value: i128) -> (r: IntegerLiteral)
        ensures
            r.value == value,
    {
        IntegerLiteral { value }
    }
}

/// A string literal holding UTF-8 text.
#[derive(Debug)]
pub struct StringLiteral {
    pub value: String,
}

impl StringLiteral {
    pub fn new(value: String) -> (r: StringLiteral)
        ensures
            r.value == value,
    {
        StringLiteral { value }
    }
}

/// A floating-point literal, kept in its lexical form. The code generator
/// only ever passes the text through to the output, so the digits are held
/// as written rather than as a machine float.
#[derive(Debug)]
pub struct FloatLiteral {
    pub value: String,
}

impl FloatLiteral {
    pub fn new(value: String) -> (r: FloatLiteral)
        ensures
            r.value == value,
    {
        FloatLiteral { value }
    }
}

/// A name reference. Names are unresolved: no binding or scope table is part
/// of the tree, so visibility is the source program's responsibility.
#[derive(Debug)]
pub struct Identifier {
    pub value: String,
}

impl Identifier {
    pub fn new(value: String) -> (r: Identifier)
        ensures
            r.value == value,
    {
        Identifier { value }
    }
}

/// A typed binding: declares (or re-assigns) a variable in the enclosing
/// block and gives it the value of the right-hand expression.
#[derive(Debug)]
pub struct AssignmentExpr {
    pub target: TypedIdentifier,
    pub value: Box<Expr>,
}

impl AssignmentExpr {
    pub fn new(target: TypedIdentifier, value: Expr) -> (r: AssignmentExpr)
        ensures
            r.target == target,
            *r.value == value,
    {
        AssignmentExpr { target, value: Box::new(value) }
    }
}

/// A call of a named function with an ordered argument list.
#[derive(Debug)]
pub struct MethodCallExpr {
    pub method_name: Identifier,
    pub args: Vec<Expr>,
}

impl MethodCallExpr {
    pub fn new(method_name: Identifier, args: Vec<Expr>) -> (r: MethodCallExpr)
        ensures
            r.method_name == method_name,
            r.args == args,
    {
        MethodCallExpr { method_name, args }
    }
}

/// A single-argument output statement.
#[derive(Debug)]
pub struct PrintExpr {
    pub arg: Box<Expr>,
}

impl PrintExpr {
    pub fn new(arg: Expr) -> (r: PrintExpr)
        ensures
            *r.arg == arg,
    {
        PrintExpr { arg: Box::new(arg) }
    }
}

/// The unit value: lowering it is a no-op.
#[derive(Debug)]
pub struct NoneExpr;

impl NoneExpr {
    pub fn new() -> NoneExpr {
        NoneExpr
    }
}

/// A conditional: a condition, a then block, and an optional else block.
#[derive(Debug)]
pub struct IfExpr {
    pub condition: Box<Expr>,
    pub then_block: Vec<Expr>,
    pub else_block: Option<Vec<Expr>>,
}

impl IfExpr {
    pub fn new(condition: Expr, then_block: Vec<Expr>, else_block: Option<Vec<Expr>>) -> (r:
        IfExpr)
        ensures
            *r.condition == condition,
            r.then_block == then_block,
            r.else_block == else_block,
    {
        IfExpr { condition: Box::new(condition), then_block, else_block }
    }
}

/// A counted repetition: the iteration-count expression is evaluated once at
/// loop entry, and the body runs that many times. The body is a block of
/// expressions.
#[derive(Debug)]
pub struct RepExpr {
    pub num_iterations: Box<Expr>,
    pub body: Vec<Expr>,
}

impl RepExpr {
    pub fn new(num_iterations: Expr, body: Vec<Expr>) -> (r: RepExpr)
        ensures
            *r.num_iterations == num_iterations,
            r.body == body,
    {
        RepExpr { num_iterations: Box::new(num_iterations), body }
    }
}

/// A return statement carrying the value to propagate out of the enclosing
/// function.
#[derive(Debug)]
pub struct ReturnExpr {
    pub value: Box<Expr>,
}

impl ReturnExpr {
    pub fn new(value: Expr) -> (r: ReturnExpr)
        ensures
            *r.value == value,
    {
        ReturnExpr { value: Box::new(value) }
    }
}

/// An ordered sequence literal.
#[derive(Debug)]
pub struct ListExpr {
    pub elems: Vec<Expr>,
}

impl ListExpr {
    pub fn new(elems: Vec<Expr>) -> (r: ListExpr)
        ensures
            r.elems == elems,
    {
        ListExpr { elems }
    }
}

/// A binary operation; the operator token is passed through to the target
/// language as written.
#[derive(Debug)]
pub struct BinOpExpr {
    pub left: Box<Expr>,
    pub op: String,
    pub right: Box<Expr>,
}

impl BinOpExpr {
    pub fn new(left: Expr, op: String, right: Expr) -> (r: BinOpExpr)
        ensures
            *r.left == left,
            r.op == op,
            *r.right == right,
    {
        BinOpExpr { left: Box::new(left), op, right: Box::new(right) }
    }
}

/// A unary operation; the operator token is passed through as written.
#[derive(Debug)]
pub struct UnOpExpr {
    pub op: String,
    pub arg: Box<Expr>,
}

impl UnOpExpr {
    pub fn new(op: String, arg: Expr) -> (r: UnOpExpr)
        ensures
            r.op == op,
            *r.arg == arg,
    {
        UnOpExpr { op, arg: Box::new(arg) }
    }
}

/// The closed union of expression forms. Adding a variant forces every
/// consumer (the type query and the code generator) to handle it.
#[derive(Debug)]
pub enum Expr {
    Integer(IntegerLiteral),
    Float(FloatLiteral),
    String(StringLiteral),
    Identifier(Identifier),
    AssignmentExpr(AssignmentExpr),
    MethodCallExpr(MethodCallExpr),
    PrintExpr(PrintExpr),
    IfExpr(IfExpr),
    RepExpr(RepExpr),
    ListExpr(ListExpr),
    BinOp(BinOpExpr),
    UnOp(UnOpExpr),
    FunctionDef(FunctionDef),
    NoneExpr(NoneExpr),
    ReturnExpr(ReturnExpr),
}

#[allow(non_snake_case)]
impl Expr {
    pub fn Integer(self) -> (r: Option<IntegerLiteral>)
        ensures
            r == (match self { Expr::Integer(i) => Some(i), _ => None }),
    {
        if let Expr::Integer(i) = self { Some(i) } else { None }
    }

    pub fn Float(self) -> (r: Option<FloatLiteral>)
        ensures
            r == (match self { Expr::Float(f) => Some(f), _ => None }),
    {
        if let Expr::Float(f) = self { Some(f) } else { None }
    }

    pub fn String(self) -> (r: Option<StringLiteral>)
        ensures
            r == (match self { Expr::String(s) => Some(s), _ => None }),
    {
        if let Expr::String(s) = self { Some(s) } else { None }
    }

    pub fn Identifier(self) -> (r: Option<Identifier>)
        ensures
            r == (match self { Expr::Identifier(i) => Some(i), _ => None }),
    {
        if let Expr::Identifier(i) = self { Some(i) } else { None }
    }

    pub fn AssignmentExpr(self) -> (r: Option<AssignmentExpr>)
        ensures
            r == (match self { Expr::AssignmentExpr(a) => Some(a), _ => None }),
    {
        if let Expr::AssignmentExpr(a) = self { Some(a) } else { None }
    }

    pub fn MethodCallExpr(self) -> (r: Option<MethodCallExpr>)
        ensures
            r == (match self { Expr::MethodCallExpr(m) => Some(m), _ => None }),
    {
        if let Expr::MethodCallExpr(m) = self { Some(m) } else { None }
    }

    pub fn PrintExpr(self) -> (r: Option<PrintExpr>)
        ensures
            r == (match self { Expr::PrintExpr(p) => Some(p), _ => None }),
    {
        if let Expr::PrintExpr(p) = self { Some(p) } else { None }
    }

    pub fn IfExpr(self) -> (r: Option<IfExpr>)
        ensures
            r == (match self { Expr::IfExpr(i) => Some(i), _ => None }),
    {
        if let Expr::IfExpr(i) = self { Some(i) } else { None }
    }

    pub fn RepExpr(self) -> (r: Option<RepExpr>)
        ensures
            r == (match self { Expr::RepExpr(p) => Some(p), _ => None }),
    {
        if let Expr::RepExpr(p) = self { Some(p) } else { None }
    }

    pub fn BinOp(self) -> (r: Option<BinOpExpr>)
        ensures
            r == (match self { Expr::BinOp(b) => Some(b), _ => None }),
    {
        if let Expr::BinOp(b) = self { Some(b) } else { None }
    }

    pub fn UnOp(self) -> (r: Option<UnOpExpr>)
        ensures
            r == (match self { Expr::UnOp(u) => Some(u), _ => None }),
    {
        if let Expr::UnOp(u) = self { Some(u) } else { None }
    }

    pub fn FunctionDef(self) -> (r: Option<FunctionDef>)
        ensures
            r == (match self { Expr::FunctionDef(f) => Some(f), _ => None }),
    {
        if let Expr::FunctionDef(f) = self { Some(f) } else { None }
    }

    pub fn NoneExpr(self) -> (r: Option<NoneExpr>)
        ensures
            r == (match self { Expr::NoneExpr(n) => Some(n), _ => None }),
    {
        if let Expr::NoneExpr(n) = self { Some(n) } else { None }
    }
}

/// The static type of an expression, where one can be read off the node
/// itself without any inference: literals and the unit value have a known
/// type, a unary operation has its operand's type, and every other form
/// yields no answer.
pub open spec fn spec_expr_type(e: Expr) -> Option<Type>
    decreases e,
{
    match e {
        Expr::Integer(_) => Some(Type::Int),
        Expr::Float(_) => Some(Type::Float),
        Expr::String(_) => Some(Type::String),
        Expr::UnOp(u) => spec_expr_type(*u.arg),
        Expr::NoneExpr(_) => Some(Type::Unit),
        _ => None,
    }
}

/// Structural equality of two source types. Spoken of instead of `==`
/// because a type may hold a `Vec`, whose abstract value is its contents.
pub open spec fn type_eq(a: Type, b: Type) -> bool
    decreases a,
{
    match (a, b) {
        (Type::Int, Type::Int) => true,
        (Type::Float, Type::Float) => true,
        (Type::String, Type::String) => true,
        (Type::List(x), Type::List(y)) => type_eq(*x, *y),
        (Type::Tuple(x), Type::Tuple(y)) => type_eq(*x, *y),
        (Type::FunctionType(p1, r1), Type::FunctionType(p2, r2)) => {
            &&& p1@.len() == p2@.len()
            &&& (forall|i: int| 0 <= i < p1@.len() ==> type_eq(#[trigger] p1@[i], p2@[i]))
            &&& match (*r1, *r2) {
                (Some(x), Some(y)) => type_eq(x, y),
                (None, None) => true,
                _ => false,
            }
        },
        (Type::Unit, Type::Unit) => true,
        _ => false,
    }
}

/// Structural equality lifted to the optional results of the type queries.
pub open spec fn opt_type_eq(a: Option<Type>, b: Option<Type>) -> bool {
    match (a, b) {
        (Some(x), Some(y)) => type_eq(x, y),
        (None, None) => true,
        _ => false,
    }
}

/// Structural equality of types is reflexive.
pub proof fn lemma_type_eq_refl(t: Type)
    ensures
        type_eq(t, t),
    decreases t,
{
    match t {
        Type::List(x) => lemma_type_eq_refl(*x),
        Type::Tuple(x) => lemma_type_eq_refl(*x),
        Type::FunctionType(p, r) => {
            assert forall|i: int| 0 <= i < p@.len() implies type_eq(#[trigger] p@[i], p@[i]) by {
                lemma_type_eq_refl(p@[i]);
            }
            match *r {
                Some(x) => lemma_type_eq_refl(x),
                None => {},
            }
        },
        _ => {},
    }
}

/// A structural deep copy of a type, proved structurally equal to its
/// argument (the derived clone says nothing to the verifier).
#[verifier::loop_isolation(false)]
pub fn clone_type(t: &Type) -> (r: Type)
    ensures
        type_eq(r, *t),
    decreases *t,
{
    match t {
        Type::Int => Type::Int,
        Type::Float => Type::Float,
        Type::String => Type::String,
        Type::List(inner) => Type::List(Box::new(clone_type(inner))),
        Type::Tuple(inner) => Type::Tuple(Box::new(clone_type(inner))),
        Type::FunctionType(params, ret) => {
            let mut ps: Vec<Type> = Vec::new();
            let mut i: usize = 0;
            while i < params.len()
                invariant
                    i <= params.len(),
                    ps@.len() == i as int,
                    forall|j: int| 0 <= j < i as int ==> type_eq(#[trigger] ps@[j], params@[j]),
                decreases params.len() - i,
            {
                ps.push(clone_type(&params[i]));
                i = i + 1;
            }
            let r2: Option<Type> = match &**ret {
                Some(inner) => Some(clone_type(inner)),
                None => None,
            };
            Type::FunctionType(ps, Box::new(r2))
        },
        Type::Unit => Type::Unit,
    }
}

/// Decides structural equality of two types, mirroring `type_eq`.
#[verifier::loop_isolation(false)]
pub fn types_equal(a: &Type, b: &Type) -> (r: bool)
    ensures
        r == type_eq(*a, *b),
    decreases *a,
{
    match a {
        Type::Int => matches!(b, Type::Int),
        Type::Float => matches!(b, Type::Float),
        Type::String => matches!(b, Type::String),
        Type::List(x) => {
            if let Type::List(y) = b {
                types_equal(x, y)
            } else {
                false
            }
        },
        Type::Tuple(x) => {
            if let Type::Tuple(y) = b {
                types_equal(x, y)
            } else {
                false
            }
        },
        Type::FunctionType(p1, r1) => {
            if let Type::FunctionType(p2, r2) = b {
                if p1.len() != p2.len() {
                    false
                } else {
                    let mut i: usize = 0;
                    let mut ok: bool = true;
                    while i < p1.len()
                        invariant
                            i <= p1.len(),
                            p1@.len() == p2@.len(),
                            ok == (forall|j: int|
                                0 <= j < i as int ==> type_eq(#[trigger] p1@[j], p2@[j])),
                        decreases p1.len() - i,
                    {
                        let e = types_equal(&p1[i], &p2[i]);
                        ok = ok && e;
                        i = i + 1;
                    }
                    let tails: bool = match (&**r1, &**r2) {
                        (Some(x), Some(y)) => types_equal(x, y),
                        (None, None) => true,
                        _ => false,
                    };
                    ok && tails
                }
            } else {
                false
            }
        },
        Type::Unit => matches!(b, Type::Unit),
    }
}

impl Expr {
    /// Best-effort static type query over the node alone; `None` where the
    /// type would need inference or context.
    pub fn get_type(&self) -> (r: Option<Type>)
        ensures
            r == spec_expr_type(*self),
        decreases *self,
    {
        match self {
            Expr::Integer(_) => Some(Type::Int),
            Expr::Float(_) => Some(Type::Float),
            Expr::String(_) => Some(Type::String),
            Expr::UnOp(u) => u.arg.get_type(),
            Expr::NoneExpr(_) => Some(Type::Unit),
            _ => None,
        }
    }
}

/// A uniform wrapper over the node kinds a parser can hand back.
#[derive(Debug)]
pub enum AstNode {
    Program(Program),
    Expr(Expr),
    TypedIdentifier(TypedIdentifier),
    Type(Type),
    VecExpr(Vec<Expr>),
}

/// The static type of a node: a program's type is its last expression's
/// (unit when empty), a typed identifier's is its declared type, and a type
/// node is its own answer.
pub open spec fn spec_node_type(n: AstNode) -> Option<Type> {
    match n {
        AstNode::Program(p) => if p.expressions@.len() == 0 {
            Some(Type::Unit)
        } else {
            spec_expr_type(p.expressions@.last())
        },
        AstNode::Expr(e) => spec_expr_type(e),
        AstNode::TypedIdentifier(t) => Some(t.associated_type),
        AstNode::Type(t) => Some(t),
        AstNode::VecExpr(_) => None,
    }
}

#[allow(non_snake_case)]
impl AstNode {
    /// Best-effort static type query, as on `Expr`. The answer is
    /// structurally equal to the specified one (a returned declared type is
    /// a deep copy).
    pub fn get_type(&self) -> (r: Option<Type>)
        ensures
            opt_type_eq(r, spec_node_type(*self)),
    {
        match self {
            AstNode::Program(p) => {
                let n = p.expressions.len();
                if n == 0 {
                    Some(Type::Unit)
                } else {
                    let r = p.expressions[n - 1].get_type();
                    proof {
                        match &r {
                            Some(t) => lemma_type_eq_refl(*t),
                            None => {},
                        }
                    }
                    r
                }
            },
            AstNode::Expr(e) => {
                let r = e.get_type();
                proof {
                    match &r {
                        Some(t) => lemma_type_eq_refl(*t),
                        None => {},
                    }
                }
                r
            },
            AstNode::TypedIdentifier(t) => Some(clone_type(&t.associated_type)),
            AstNode::Type(t) => Some(clone_type(t)),
            AstNode::VecExpr(_) => None,
        }
    }

    pub fn Expr(self) -> (r: Option<Expr>)
        ensures
            r == (match self { AstNode::Expr(e) => Some(e), _ => None }),
    {
        if let AstNode::Expr(e) = self { Some(e) } else { None }
    }

    pub fn Program(self) -> (r: Option<Program>)
        ensures
            r == (match self { AstNode::Program(p) => Some(p), _ => None }),
    {
        if let AstNode::Program(p) = self { Some(p) } else { None }
    }

    pub fn TypedIdentifier(self) -> (r: Option<TypedIdentifier>)
        ensures
            r == (match self { AstNode::TypedIdentifier(t) => Some(t), _ => None }),
    {
        if let AstNode::TypedIdentifier(t) = self { Some(t) } else { None }
    }

    pub fn Type(self) -> (r: Option<Type>)
        ensures
            r == (match self { AstNode::Type(t) => Some(t), _ => None }),
    {
        if let AstNode::Type(t) = self { Some(t) } else { None }
    }

    pub fn VecExpr(self) -> (r: Option<Vec<Expr>>)
        ensures
            r == (match self { AstNode::VecExpr(v) => Some(v), _ => None }),
    {
        if let AstNode::VecExpr(v) = self { Some(v) } else { None }
    }
}

} // verus!
