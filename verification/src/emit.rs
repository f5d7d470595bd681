//! The mathematical model of generated target code. Every value the program
//! builder constructs is described by one of these ghost shapes: an
//! expression tree, a statement, a function, and a whole output program.
//! Contracts of the code generator speak in this vocabulary.

use vstd::prelude::*;

verus! {

/// A target-language type expression.
pub enum GType {
    Int32,
    Double,
    Void,
    /// A named class type, rendered as its name.
    Class(Seq<char>),
    /// A template class applied to already-rendered argument texts.
    Template(Seq<char>, Seq<Seq<char>>),
}

/// A target-language value expression.
pub enum GExpr {
    /// Raw text pasted into the output as written.
    Raw(Seq<char>),
    /// A string literal, rendered between double quotes.
    Str(Seq<char>),
    /// A variable reference, rendered as its name.
    Var(Seq<char>),
    /// A parenthesized infix operation.
    Bin(Box<GExpr>, Seq<char>, Box<GExpr>),
    /// A prefix operation applied to a parenthesized operand.
    Un(Seq<char>, Box<GExpr>),
    /// A call expression with comma-separated arguments.
    Call(Seq<char>, Seq<GExpr>),
}

/// A variable declaration: a name and its type.
pub struct GDecl {
    pub name: Seq<char>,
    pub ty: GType,
}

/// A target-language statement; conditionals and loops carry their nested
/// statement sequences.
pub enum GStmt {
    Decl(GDecl),
    Assign(GExpr, GExpr),
    Call(Seq<char>, Seq<GExpr>),
    If(GExpr, Seq<GStmt>, Seq<GStmt>),
    While(GExpr, Seq<GStmt>),
    Return(GExpr),
    ExprStmt(GExpr),
    /// An empty line; emitted so that a function without statements still
    /// renders as a definition rather than a bare declaration.
    Blank,
}

/// A generated function: name, return type, parameters, body.
pub struct GFun {
    pub name: Seq<char>,
    pub ret: GType,
    pub params: Seq<GDecl>,
    pub body: Seq<GStmt>,
}

/// A whole output program: include paths, then functions, in registration
/// order.
pub struct GProg {
    pub includes: Seq<Seq<char>>,
    pub funs: Seq<GFun>,
}

/// Texts joined with a bare comma, as a template argument list renders.
pub open spec fn join_comma(ss: Seq<Seq<char>>) -> Seq<char>
    decreases ss.len(),
{
    if ss.len() == 0 {
        Seq::empty()
    } else if ss.len() == 1 {
        ss[0]
    } else {
        join_comma(ss.drop_last()) + ","@ + ss.last()
    }
}

/// Carried text as the renderer emits it: crustal's formatter splits what
/// it writes at line endings and rejoins with a bare line feed, so a
/// carriage return standing directly before a line feed never reaches the
/// output. A carriage return anywhere else passes through.
pub open spec fn strip_crlf(s: Seq<char>) -> Seq<char>
    decreases s.len(),
{
    if s.len() == 0 {
        Seq::empty()
    } else if s.len() >= 2 && s[0] == '\r' && s[1] == '\n' {
        seq!['\n'] + strip_crlf(s.skip(2))
    } else {
        seq![s[0]] + strip_crlf(s.skip(1))
    }
}

/// How a type expression renders in the output. Every carried text goes
/// through the renderer, so it appears with its carriage-return/line-feed
/// pairs collapsed (`strip_crlf`); the surrounding punctuation never lets
/// two carried texts form a new such pair.
pub open spec fn type_text(t: GType) -> Seq<char> {
    match t {
        GType::Int32 => "int32_t"@,
        GType::Double => "double"@,
        GType::Void => "void"@,
        GType::Class(s) => strip_crlf(s),
        GType::Template(name, args) => if args.len() == 0 {
            strip_crlf(name)
        } else {
            strip_crlf(name) + "<"@ + join_comma(args.map_values(|a: Seq<char>| strip_crlf(a)))
                + ">"@
        },
    }
}

/// Argument texts joined with a comma and a space, as a call renders.
pub open spec fn join_args(es: Seq<GExpr>) -> Seq<char>
    decreases es,
{
    if es.len() == 0 {
        Seq::empty()
    } else if es.len() == 1 {
        expr_text(es[0])
    } else {
        join_args(es.drop_last()) + ", "@ + expr_text(es.last())
    }
}

/// How a value expression renders in the output. As with types, every
/// carried text appears as the renderer emits it (`strip_crlf`).
pub open spec fn expr_text(e: GExpr) -> Seq<char>
    decreases e,
{
    match e {
        GExpr::Raw(s) => strip_crlf(s),
        GExpr::Str(s) => "\""@ + strip_crlf(s) + "\""@,
        GExpr::Var(n) => strip_crlf(n),
        GExpr::Bin(l, op, r) => "("@ + expr_text(*l) + " "@ + strip_crlf(op) + " "@ + expr_text(
            *r,
        ) + ")"@,
        GExpr::Un(op, a) => strip_crlf(op) + "("@ + expr_text(*a) + ")"@,
        GExpr::Call(n, args) => strip_crlf(n) + "("@ + join_args(args) + ")"@,
    }
}

} // verus!
