//! The code generator: lowers the source AST into the program builder and
//! serializes the result. The whole translation is pinned down by a
//! mathematical lowering function over the tree (`lower_program`), and the
//! executable engine is proved to emit exactly what it says.
//!
//! Policy choices, as the data model documents them: value expressions are
//! built without emitting statements; a typed binding declares on first
//! sight and re-assigns (without re-declaration) on later sights, rejecting
//! a changed type; a counted repetition desugars to a zero-based pre-tested
//! loop over a synthetic counter, unique across the whole compilation; a
//! program without its own entry function gets one synthesized around the
//! top-level statements.

use vstd::prelude::*;

use crate::ast::{Expr, Program, Type, type_eq};
use crate::builder::{
    block_model, cg_block_assign, cg_block_blank, cg_block_expr_stmt, cg_block_fn_call,
    cg_block_ifelse, cg_block_is_empty, cg_block_new, cg_block_return, cg_block_variable,
    cg_block_while, cg_expr_binop, cg_expr_call, cg_expr_raw, cg_expr_str, cg_expr_to_string,
    cg_expr_uop, cg_expr_var, cg_function_add_param, cg_function_new, cg_function_set_body,
    cg_function_to_string, cg_ifelse_new, cg_ifelse_set_other, cg_ifelse_set_then,
    cg_type_class, cg_type_double, cg_type_int32, cg_type_template, cg_type_to_string,
    cg_type_void, cg_variable_new, cg_variable_to_expr, cg_while_new, expr_model, fun_text,
    function_model, type_model,
};
use crate::emit::{GDecl, GExpr, GFun, GProg, GStmt, GType, expr_text, join_args, type_text};
use crate::names::{int_text, synth_name, synth_var_name};

verus! {

broadcast use vstd::std_specs::vec::group_vec_axioms;

/// Why a compilation was rejected.
#[derive(Debug, PartialEq, Eq)]
pub enum CompileError {
    /// A construct that yields no value stood in a value position.
    ValueExpected,
    /// A name was re-bound with a declared type different from the one it
    /// was first declared with.
    TypeMismatch,
    /// The compilation needed more synthetic counters than exist.
    TooManyCounters,
}

/// The mapping from a source type to a target type expression: total for
/// the concrete types, a generic marker for the vocabulary the target has
/// no direct spelling for, and the no-value type for unit.
pub open spec fn tmap(t: Type) -> GType
    decreases t,
{
    match t {
        Type::Int => GType::Int32,
        Type::Float => GType::Double,
        Type::String => GType::Class("std::string"@),
        Type::List(inner) => GType::Template(
            "std::vector"@,
            seq![type_text(tmap(*inner))],
        ),
        Type::Tuple(_) => GType::Class("auto"@),
        Type::FunctionType(_, _) => GType::Class("auto"@),
        Type::Unit => GType::Void,
    }
}

/// The declared types in force, innermost binding last.
pub open spec fn env_lookup(env: Seq<(Seq<char>, Type)>, name: Seq<char>) -> Option<Type>
    decreases env.len(),
{
    if env.len() == 0 {
        None
    } else if env.last().0 == name {
        Some(env.last().1)
    } else {
        env_lookup(env.drop_last(), name)
    }
}

/// The lowering of an expression standing where a value is needed. Pure:
/// building a value emits no statement. Constructs that are statements by
/// nature have no value and are rejected.
pub open spec fn lower_value(e: Expr) -> Result<GExpr, CompileError>
    decreases e,
{
    match e {
        Expr::Integer(i) => Ok(GExpr::Raw(int_text(i.value as int))),
        Expr::Float(f) => Ok(GExpr::Raw(f.value@)),
        Expr::String(s) => Ok(GExpr::Str(s.value@)),
        Expr::Identifier(id) => Ok(GExpr::Var(id.value@)),
        Expr::BinOp(b) => match lower_value(*b.left) {
            Ok(l) => match lower_value(*b.right) {
                Ok(r) => Ok(GExpr::Bin(Box::new(l), b.op@, Box::new(r))),
                Err(er) => Err(er),
            },
            Err(er) => Err(er),
        },
        Expr::UnOp(u) => match lower_value(*u.arg) {
            Ok(a) => Ok(GExpr::Un(u.op@, Box::new(a))),
            Err(er) => Err(er),
        },
        Expr::MethodCallExpr(m) => match lower_values(m.args@) {
            Ok(gs) => Ok(GExpr::Call(m.method_name.value@, gs)),
            Err(er) => Err(er),
        },
        Expr::ListExpr(l) => match lower_values(l.elems@) {
            Ok(gs) => Ok(GExpr::Raw(list_text(gs))),
            Err(er) => Err(er),
        },
        _ => Err(CompileError::ValueExpected),
    }
}

/// The lowerings of an argument list, left to right; the first failure
/// wins.
pub open spec fn lower_values(es: Seq<Expr>) -> Result<Seq<GExpr>, CompileError>
    decreases es,
{
    if es.len() == 0 {
        Ok(Seq::empty())
    } else {
        match lower_values(es.drop_last()) {
            Ok(gs) => match lower_value(es.last()) {
                Ok(g) => Ok(gs.push(g)),
                Err(er) => Err(er),
            },
            Err(er) => Err(er),
        }
    }
}

/// How a sequence literal renders: an aggregate over the elements' texts,
/// in source order.
pub open spec fn list_text(gs: Seq<GExpr>) -> Seq<char> {
    "vector{ "@ + join_args(gs) + " }"@
}

/// What lowering one statement produced: the emitted statements, the
/// bindings now in force, and the next synthetic counter.
pub struct Lowered {
    pub stmts: Seq<GStmt>,
    pub env: Seq<(Seq<char>, Type)>,
    pub ctr: nat,
}

/// The output statement for a lowered print argument.
pub open spec fn print_stmt(g: GExpr) -> GStmt {
    GStmt::ExprStmt(
        GExpr::Bin(Box::new(GExpr::Raw("std::cout"@)), "<<"@, Box::new(g)),
    )
}

/// The marker statement a construct outside this core's scope degrades to.
pub open spec fn unsupported_marker() -> GStmt {
    GStmt::ExprStmt(GExpr::Raw("__unsupported_nested_function"@))
}

/// The increment appended as the last statement of a desugared repetition
/// body.
pub open spec fn ctr_increment(name: Seq<char>) -> GStmt {
    GStmt::Assign(
        GExpr::Var(name),
        GExpr::Bin(Box::new(GExpr::Var(name)), "+"@, Box::new(GExpr::Raw("1"@))),
    )
}

/// The statements a repetition desugars to: declare a fresh counter in the
/// enclosing block, zero it, and run a pre-tested loop whose condition
/// compares the counter against the bound lowered once, outside the loop.
pub open spec fn rep_stmts(name: Seq<char>, bound: GExpr, body: Seq<GStmt>) -> Seq<GStmt> {
    seq![
        GStmt::Decl(GDecl { name: name, ty: GType::Int32 }),
        GStmt::Assign(GExpr::Var(name), GExpr::Raw("0"@)),
        GStmt::While(
            GExpr::Bin(Box::new(GExpr::Var(name)), "<"@, Box::new(bound)),
            body.push(ctr_increment(name)),
        ),
    ]
}

/// The lowering of one expression standing as a statement.
pub open spec fn lower_stmt(e: Expr, env: Seq<(Seq<char>, Type)>, ctr: nat) -> Result<
    Lowered,
    CompileError,
>
    decreases e,
{
    match e {
        Expr::AssignmentExpr(a) => match lower_value(*a.value) {
            Ok(rhs) => {
                let name = a.target.value.value@;
                match env_lookup(env, name) {
                    None => Ok(
                        Lowered {
                            stmts: seq![
                                GStmt::Decl(
                                    GDecl { name: name, ty: tmap(a.target.associated_type) },
                                ),
                                GStmt::Assign(GExpr::Var(name), rhs),
                            ],
                            env: env.push((name, a.target.associated_type)),
                            ctr: ctr,
                        },
                    ),
                    Some(t0) => if type_eq(t0, a.target.associated_type) {
                        Ok(
                            Lowered {
                                stmts: seq![GStmt::Assign(GExpr::Var(name), rhs)],
                                env: env,
                                ctr: ctr,
                            },
                        )
                    } else {
                        Err(CompileError::TypeMismatch)
                    },
                }
            },
            Err(er) => Err(er),
        },
        Expr::MethodCallExpr(m) => match lower_values(m.args@) {
            Ok(gs) => Ok(
                Lowered {
                    stmts: seq![GStmt::Call(m.method_name.value@, gs)],
                    env: env,
                    ctr: ctr,
                },
            ),
            Err(er) => Err(er),
        },
        Expr::PrintExpr(p) => match lower_value(*p.arg) {
            Ok(g) => Ok(Lowered { stmts: seq![print_stmt(g)], env: env, ctr: ctr }),
            Err(er) => Err(er),
        },
        Expr::IfExpr(i) => match lower_value(*i.condition) {
            Ok(c) => match lower_block(i.then_block@, env, ctr) {
                Ok(lt) => match i.else_block {
                    None => Ok(
                        Lowered {
                            stmts: seq![GStmt::If(c, lt.stmts, Seq::empty())],
                            env: env,
                            ctr: lt.ctr,
                        },
                    ),
                    Some(ev) => match lower_block(ev@, env, lt.ctr) {
                        Ok(le) => Ok(
                            Lowered {
                                stmts: seq![GStmt::If(c, lt.stmts, le.stmts)],
                                env: env,
                                ctr: le.ctr,
                            },
                        ),
                        Err(er) => Err(er),
                    },
                },
                Err(er) => Err(er),
            },
            Err(er) => Err(er),
        },
        Expr::RepExpr(r) => match lower_value(*r.num_iterations) {
            Ok(bound) => if ctr >= u64::MAX {
                Err(CompileError::TooManyCounters)
            } else {
                match lower_block(r.body@, env, ctr + 1) {
                    Ok(lb) => Ok(
                        Lowered {
                            stmts: rep_stmts(synth_name(ctr), bound, lb.stmts),
                            env: env,
                            ctr: lb.ctr,
                        },
                    ),
                    Err(er) => Err(er),
                }
            },
            Err(er) => Err(er),
        },
        Expr::ReturnExpr(rx) => match lower_value(*rx.value) {
            Ok(g) => Ok(Lowered { stmts: seq![GStmt::Return(g)], env: env, ctr: ctr }),
            Err(er) => Err(er),
        },
        Expr::FunctionDef(_) => Ok(
            Lowered { stmts: seq![unsupported_marker()], env: env, ctr: ctr },
        ),
        Expr::NoneExpr(_) => Ok(Lowered { stmts: Seq::empty(), env: env, ctr: ctr }),
        _ => match lower_value(e) {
            Ok(_) => Ok(Lowered { stmts: Seq::empty(), env: env, ctr: ctr }),
            Err(er) => Err(er),
        },
    }
}

/// The lowering of a block of statements, in order. A nested block starts
/// from the bindings in force at its entry and its own bindings die with
/// it; the synthetic counter threads through everything.
pub open spec fn lower_block(es: Seq<Expr>, env: Seq<(Seq<char>, Type)>, ctr: nat) -> Result<
    Lowered,
    CompileError,
>
    decreases es,
{
    if es.len() == 0 {
        Ok(Lowered { stmts: Seq::empty(), env: env, ctr: ctr })
    } else {
        match lower_block(es.drop_last(), env, ctr) {
            Ok(l1) => match lower_stmt(es.last(), l1.env, l1.ctr) {
                Ok(l2) => Ok(
                    Lowered { stmts: l1.stmts + l2.stmts, env: l2.env, ctr: l2.ctr },
                ),
                Err(er) => Err(er),
            },
            Err(er) => Err(er),
        }
    }
}

/// What lowering the top level produced so far: the entry function's
/// statements, the other registered functions, the top-level bindings, and
/// the next synthetic counter.
pub struct TopLowered {
    pub main_stmts: Seq<GStmt>,
    pub funs: Seq<GFun>,
    pub env: Seq<(Seq<char>, Type)>,
    pub ctr: nat,
}

/// The parameter declarations of a registered function.
pub open spec fn fun_params(args: Seq<crate::ast::TypedIdentifier>) -> Seq<GDecl> {
    args.map_values(
        |a: crate::ast::TypedIdentifier| GDecl {
            name: a.value.value@,
            ty: tmap(a.associated_type),
        },
    )
}

/// The bindings a function body starts from: its parameters.
pub open spec fn param_env(args: Seq<crate::ast::TypedIdentifier>) -> Seq<(Seq<char>, Type)> {
    args.map_values(|a: crate::ast::TypedIdentifier| (a.value.value@, a.associated_type))
}

/// The lowering of the top-level expression sequence. A function
/// definition named as the entry point contributes its body to the entry
/// function at its position; any other function definition is registered
/// under its own name; everything else becomes an entry-function
/// statement.
pub open spec fn lower_top(es: Seq<Expr>, env: Seq<(Seq<char>, Type)>, ctr: nat) -> Result<
    TopLowered,
    CompileError,
>
    decreases es,
{
    if es.len() == 0 {
        Ok(TopLowered { main_stmts: Seq::empty(), funs: Seq::empty(), env: env, ctr: ctr })
    } else {
        match lower_top(es.drop_last(), env, ctr) {
            Ok(t1) => match es.last() {
                Expr::FunctionDef(f) => if f.name.value@ == "main"@ {
                    match lower_block(f.body@, t1.env, t1.ctr) {
                        Ok(lb) => Ok(
                            TopLowered {
                                main_stmts: t1.main_stmts + lb.stmts,
                                funs: t1.funs,
                                env: lb.env,
                                ctr: lb.ctr,
                            },
                        ),
                        Err(er) => Err(er),
                    }
                } else {
                    match lower_block(f.body@, param_env(f.args@), t1.ctr) {
                        Ok(lb) => Ok(
                            TopLowered {
                                main_stmts: t1.main_stmts,
                                funs: t1.funs.push(
                                    GFun {
                                        name: f.name.value@,
                                        ret: GType::Void,
                                        params: fun_params(f.args@),
                                        body: lb.stmts,
                                    },
                                ),
                                env: t1.env,
                                ctr: lb.ctr,
                            },
                        ),
                        Err(er) => Err(er),
                    }
                },
                e => match lower_stmt(e, t1.env, t1.ctr) {
                    Ok(l) => Ok(
                        TopLowered {
                            main_stmts: t1.main_stmts + l.stmts,
                            funs: t1.funs,
                            env: l.env,
                            ctr: l.ctr,
                        },
                    ),
                    Err(er) => Err(er),
                },
            },
            Err(er) => Err(er),
        }
    }
}

/// The entry function's body: the lowered top-level statements, or one
/// empty line where there are none, so the entry still renders as a
/// definition.
pub open spec fn entry_body(stmts: Seq<GStmt>) -> Seq<GStmt> {
    if stmts.len() == 0 {
        seq![GStmt::Blank]
    } else {
        stmts
    }
}

/// The lowering of a whole program: one include, the entry function first,
/// then the other registered functions in registration order. The
/// synthetic-name counter starts at zero for every compilation.
pub open spec fn lower_program(p: Program) -> Result<GProg, CompileError> {
    match lower_top(p.expressions@, Seq::empty(), 0) {
        Ok(t) => Ok(
            GProg {
                includes: seq!["bits/stdc++.h"@],
                funs: seq![
                    GFun {
                        name: "main"@,
                        ret: GType::Int32,
                        params: Seq::empty(),
                        body: entry_body(t.main_stmts),
                    },
                ] + t.funs,
            },
        ),
        Err(er) => Err(er),
    }
}

/// How one include line renders.
pub open spec fn include_text(path: Seq<char>) -> Seq<char> {
    "#include <"@ + path + ">\n"@
}

/// How the include lines render, in order.
pub open spec fn includes_text(ps: Seq<Seq<char>>) -> Seq<char>
    decreases ps.len(),
{
    if ps.len() == 0 {
        Seq::empty()
    } else {
        includes_text(ps.drop_last()) + include_text(ps.last())
    }
}

/// How the function definitions render, in order.
pub open spec fn funs_text(fs: Seq<GFun>) -> Seq<char>
    decreases fs.len(),
{
    if fs.len() == 0 {
        Seq::empty()
    } else {
        funs_text(fs.drop_last()) + fun_text(fs.last())
    }
}

/// The full serialized output for a lowered program.
pub open spec fn prog_text(m: GProg) -> Seq<char> {
    includes_text(m.includes) + funs_text(m.funs)
}

/// Once an argument prefix fails to lower, the whole list fails the same
/// way.
proof fn lemma_values_persist(s: Seq<Expr>, k: int)
    requires
        0 <= k <= s.len(),
        lower_values(s.take(k)) is Err,
    ensures
        lower_values(s) == lower_values(s.take(k)),
    decreases s.len() - k,
{
    if k == s.len() {
        assert(s.take(k) =~= s);
    } else {
        assert(s.take(k + 1).drop_last() =~= s.take(k));
        lemma_values_persist(s, k + 1);
    }
}

/// Once a statement prefix fails to lower, the whole block fails the same
/// way.
proof fn lemma_block_persist(s: Seq<Expr>, env: Seq<(Seq<char>, Type)>, ctr: nat, k: int)
    requires
        0 <= k <= s.len(),
        lower_block(s.take(k), env, ctr) is Err,
    ensures
        lower_block(s, env, ctr) == lower_block(s.take(k), env, ctr),
    decreases s.len() - k,
{
    if k == s.len() {
        assert(s.take(k) =~= s);
    } else {
        assert(s.take(k + 1).drop_last() =~= s.take(k));
        lemma_block_persist(s, env, ctr, k + 1);
    }
}

/// Once a top-level prefix fails to lower, the whole program fails the
/// same way.
proof fn lemma_top_persist(s: Seq<Expr>, env: Seq<(Seq<char>, Type)>, ctr: nat, k: int)
    requires
        0 <= k <= s.len(),
        lower_top(s.take(k), env, ctr) is Err,
    ensures
        lower_top(s, env, ctr) == lower_top(s.take(k), env, ctr),
    decreases s.len() - k,
{
    if k == s.len() {
        assert(s.take(k) =~= s);
    } else {
        assert(s.take(k + 1).drop_last() =~= s.take(k));
        lemma_top_persist(s, env, ctr, k + 1);
    }
}

/// How joining renders one more argument.
proof fn lemma_join_args_push(s: Seq<GExpr>, x: GExpr)
    ensures
        join_args(s.push(x)) == if s.len() == 0 {
            expr_text(x)
        } else {
            join_args(s) + ", "@ + expr_text(x)
        },
{
    assert(s.push(x).drop_last() =~= s);
    assert(s.push(x).last() == x);
}

/// String equality by contents.
fn str_eq(a: &str, b: &str) -> (r: bool)
    ensures
        r == (a@ == b@),
{
    a.to_owned() == b.to_owned()
}

/// The bindings the engine tracks while lowering: names and declared
/// types, both borrowed from the tree, innermost last.
pub open spec fn env_view(s: Seq<(&str, &Type)>) -> Seq<(Seq<char>, Type)> {
    s.map_values(|p: (&str, &Type)| (p.0@, *p.1))
}

/// Finds the binding in force for a name, innermost first.
fn env_find<'a>(env: &Vec<(&'a str, &'a Type)>, name: &str) -> (r: Option<&'a Type>)
    ensures
        match r {
            Some(t) => env_lookup(env_view(env@), name@) == Some(*t),
            None => env_lookup(env_view(env@), name@) is None,
        },
{
    let mut i: usize = env.len();
    proof {
        assert(env_view(env@).take(env@.len() as int) =~= env_view(env@));
    }
    while i > 0
        invariant
            i <= env@.len(),
            env_lookup(env_view(env@), name@) == env_lookup(
                env_view(env@).take(i as int),
                name@,
            ),
        decreases i,
    {
        i = i - 1;
        let (n, t) = env[i];
        if str_eq(n, name) {
            proof {
                assert(env_view(env@).take(i as int + 1).last() == (n@, *t));
                assert(env_view(env@).take(i as int + 1).drop_last() =~= env_view(
                    env@,
                ).take(i as int));
            }
            return Some(t);
        }
        proof {
            assert(env_view(env@).take(i as int + 1).last() == (n@, *t));
            assert(env_view(env@).take(i as int + 1).drop_last() =~= env_view(env@).take(
                i as int,
            ));
        }
    }
    proof {
        assert(env_view(env@).take(0) =~= Seq::<(Seq<char>, Type)>::empty());
    }
    None
}

/// A copy of the bindings, for lowering a nested scope.
fn copy_env<'a>(env: &Vec<(&'a str, &'a Type)>) -> (r: Vec<(&'a str, &'a Type)>)
    ensures
        r@ == env@,
{
    let mut r: Vec<(&'a str, &'a Type)> = Vec::new();
    let mut i: usize = 0;
    while i < env.len()
        invariant
            i <= env@.len(),
            r@ =~= env@.take(i as int),
        decreases env@.len() - i,
    {
        r.push(env[i]);
        i = i + 1;
    }
    proof {
        assert(env@.take(env@.len() as int) =~= env@);
    }
    r
}

/// Maps a source type to the program builder's type expression, exactly as
/// `tmap` says.
pub fn get_crustal_type(t: &Type) -> (r: crustal::Type)
    ensures
        type_model(r) == tmap(*t),
    decreases *t, 1int,
{
    match t {
        Type::Int => cg_type_int32(),
        Type::Float => cg_type_double(),
        Type::String => cg_type_class("std::string"),
        Type::List(inner) => {
            let txt = get_string_type(inner);
            let mut args: Vec<String> = Vec::new();
            args.push(txt);
            proof {
                assert(args@.map_values(|s: String| s@) =~= seq![
                    type_text(tmap(**inner)),
                ]);
            }
            cg_type_template("std::vector", args)
        },
        Type::Tuple(_) => cg_type_class("auto"),
        Type::FunctionType(_, _) => cg_type_class("auto"),
        Type::Unit => cg_type_void(),
    }
}

/// The rendered text of a source type's target type expression.
pub fn get_string_type(t: &Type) -> (r: String)
    ensures
        r@ == type_text(tmap(*t)),
    decreases *t, 2int,
{
    let ct = get_crustal_type(t);
    cg_type_to_string(&ct)
}

/// Builds the builder-level value for an expression in value position,
/// exactly as `lower_value` says.
fn lower_value_exec(e: &Expr) -> (r: Result<crustal::Expr, CompileError>)
    ensures
        match lower_value(*e) {
            Ok(g) => r matches Ok(ce) && expr_model(ce) == g,
            Err(er) => r matches Err(e2) && e2 == er,
        },
    decreases *e, 1int,
{
    match e {
        Expr::Integer(i) => Ok(cg_expr_raw(crate::names::i128_to_dec(i.value))),
        Expr::Float(f) => Ok(cg_expr_raw(f.value.clone())),
        Expr::String(s) => Ok(cg_expr_str(s.value.as_str())),
        Expr::Identifier(id) => Ok(cg_expr_var(id.value.as_str(), cg_type_int32())),
        Expr::BinOp(bo) => match lower_value_exec(&bo.left) {
            Ok(l) => match lower_value_exec(&bo.right) {
                Ok(rr) => Ok(cg_expr_binop(l, bo.op.as_str(), rr)),
                Err(er) => Err(er),
            },
            Err(er) => Err(er),
        },
        Expr::UnOp(u) => match lower_value_exec(&u.arg) {
            Ok(a) => Ok(cg_expr_uop(u.op.as_str(), a)),
            Err(er) => Err(er),
        },
        Expr::MethodCallExpr(m) => match lower_args_exec(&m.args) {
            Ok(args) => Ok(cg_expr_call(m.method_name.value.as_str(), args)),
            Err(er) => Err(er),
        },
        Expr::ListExpr(l) => match lower_args_exec(&l.elems) {
            Ok(args) => {
                let ghost gs = lower_values(l.elems@)->Ok_0;
                let mut s = String::from_str("vector{ ");
                proof {
                    assert(gs.take(0) =~= Seq::<GExpr>::empty());
                }
                let mut i: usize = 0;
                while i < args.len()
                    invariant
                        i <= args@.len(),
                        args@.map_values(|c: crustal::Expr| expr_model(c)) == gs,
                        s@ == "vector{ "@ + join_args(gs.take(i as int)),
                    decreases args@.len() - i,
                {
                    if i > 0 {
                        s.append(", ");
                    }
                    let t = cg_expr_to_string(&args[i]);
                    s.append(t.as_str());
                    proof {
                        assert(expr_model(args@[i as int]) == gs[i as int]);
                        assert(gs.take(i as int).push(gs[i as int]) =~= gs.take(i as int + 1));
                        lemma_join_args_push(gs.take(i as int), gs[i as int]);
                    }
                    i = i + 1;
                }
                s.append(" }");
                proof {
                    assert(gs.take(args@.len() as int) =~= gs);
                    assert(s@ =~= list_text(gs));
                }
                Ok(cg_expr_raw(s))
            },
            Err(er) => Err(er),
        },
        _ => Err(CompileError::ValueExpected),
    }
}

/// Builds the builder-level values for an argument list, left to right,
/// exactly as `lower_values` says.
fn lower_args_exec(es: &Vec<Expr>) -> (r: Result<Vec<crustal::Expr>, CompileError>)
    ensures
        match lower_values(es@) {
            Ok(gs) => r matches Ok(v) && v@.map_values(|c: crustal::Expr| expr_model(c)) == gs,
            Err(er) => r matches Err(e2) && e2 == er,
        },
    decreases es@, 0int,
{
    let mut out: Vec<crustal::Expr> = Vec::new();
    proof {
        assert(es@.take(0) =~= Seq::<Expr>::empty());
        assert(out@.map_values(|c: crustal::Expr| expr_model(c)) =~= Seq::<GExpr>::empty());
    }
    let mut i: usize = 0;
    while i < es.len()
        invariant
            i <= es@.len(),
            lower_values(es@.take(i as int)) == Ok::<Seq<GExpr>, CompileError>(
                out@.map_values(|c: crustal::Expr| expr_model(c)),
            ),
        decreases es@.len() - i,
    {
        proof {
            assert(decreases_to!(es@ => es@[i as int]));
        }
        match lower_value_exec(&es[i]) {
            Ok(ce) => {
                let ghost pre = out@;
                out.push(ce);
                proof {
                    assert(es@.take(i as int + 1).drop_last() =~= es@.take(i as int));
                    assert(es@.take(i as int + 1).last() == es@[i as int]);
                    assert(out@.map_values(|c: crustal::Expr| expr_model(c)) =~= pre.map_values(
                        |c: crustal::Expr| expr_model(c),
                    ).push(expr_model(ce)));
                }
            },
            Err(er) => {
                proof {
                    assert(es@.take(i as int + 1).drop_last() =~= es@.take(i as int));
                    assert(es@.take(i as int + 1).last() == es@[i as int]);
                    assert(lower_values(es@.take(i as int + 1)) is Err);
                    lemma_values_persist(es@, i as int + 1);
                }
                return Err(er);
            },
        }
        i = i + 1;
    }
    proof {
        assert(es@.take(es@.len() as int) =~= es@);
    }
    Ok(out)
}

/// Lowers one statement-position expression into the given block, exactly
/// as `lower_stmt` says: the block grows by the lowered statements, the
/// bindings and the counter move on. On an error the block's contents are
/// unspecified; the caller discards them.
fn lower_stmt_exec<'a>(
    b: &mut crustal::Block,
    env: &mut Vec<(&'a str, &'a Type)>,
    ctr: &mut u64,
    e: &'a Expr,
) -> (r: Result<(), CompileError>)
    ensures
        match lower_stmt(*e, env_view(old(env)@), *old(ctr) as nat) {
            Ok(l) => r is Ok && block_model(*final(b)) == block_model(*old(b)) + l.stmts
                && env_view(final(env)@) == l.env && *final(ctr) as nat == l.ctr,
            Err(er) => r matches Err(e2) && e2 == er,
        },
    decreases *e, 1int,
{
    let ghost b0 = block_model(*b);
    match e {
        Expr::AssignmentExpr(a) => {
            let rhs = match lower_value_exec(&a.value) {
                Ok(x) => x,
                Err(er) => {
                    return Err(er);
                },
            };
            let name: &str = a.target.value.value.as_str();
            match env_find(env, name) {
                None => {
                    let ct = get_crustal_type(&a.target.associated_type);
                    let var = cg_variable_new(name, ct);
                    let ve = cg_variable_to_expr(&var);
                    cg_block_variable(b, var);
                    cg_block_assign(b, ve, rhs);
                    let ghost env0 = env_view(env@);
                    env.push((name, &a.target.associated_type));
                    proof {
                        assert(env_view(env@) =~= env0.push((name@, a.target.associated_type)));
                        assert(block_model(*b) =~= b0 + lower_stmt(
                            *e,
                            env0,
                            *old(ctr) as nat,
                        )->Ok_0.stmts);
                    }
                    Ok(())
                },
                Some(t0) => {
                    if crate::ast::types_equal(t0, &a.target.associated_type) {
                        let ve = cg_expr_var(name, cg_type_void());
                        cg_block_assign(b, ve, rhs);
                        proof {
                            assert(block_model(*b) =~= b0 + lower_stmt(
                                *e,
                                env_view(env@),
                                *old(ctr) as nat,
                            )->Ok_0.stmts);
                        }
                        Ok(())
                    } else {
                        Err(CompileError::TypeMismatch)
                    }
                },
            }
        },
        Expr::MethodCallExpr(m) => match lower_args_exec(&m.args) {
            Ok(args) => {
                cg_block_fn_call(b, m.method_name.value.as_str(), args);
                proof {
                    assert(block_model(*b) =~= b0 + lower_stmt(
                        *e,
                        env_view(env@),
                        *old(ctr) as nat,
                    )->Ok_0.stmts);
                }
                Ok(())
            },
            Err(er) => Err(er),
        },
        Expr::PrintExpr(p) => match lower_value_exec(&p.arg) {
            Ok(g) => {
                let cout = cg_expr_raw(String::from_str("std::cout"));
                let chain = cg_expr_binop(cout, "<<", g);
                cg_block_expr_stmt(b, chain);
                proof {
                    assert(block_model(*b) =~= b0 + lower_stmt(
                        *e,
                        env_view(env@),
                        *old(ctr) as nat,
                    )->Ok_0.stmts);
                }
                Ok(())
            },
            Err(er) => Err(er),
        },
        Expr::IfExpr(i) => {
            let c = match lower_value_exec(&i.condition) {
                Ok(x) => x,
                Err(er) => {
                    return Err(er);
                },
            };
            let mut then_b = cg_block_new();
            let mut env2 = copy_env(env);
            match lower_block_exec(&mut then_b, &mut env2, ctr, &i.then_block) {
                Ok(_) => {},
                Err(er) => {
                    return Err(er);
                },
            }
            let mut ie = cg_ifelse_new(c);
            cg_ifelse_set_then(&mut ie, then_b);
            match &i.else_block {
                Some(ev) => {
                    let mut else_b = cg_block_new();
                    let mut env3 = copy_env(env);
                    match lower_block_exec(&mut else_b, &mut env3, ctr, ev) {
                        Ok(_) => {},
                        Err(er) => {
                            return Err(er);
                        },
                    }
                    cg_ifelse_set_other(&mut ie, else_b);
                },
                None => {},
            }
            cg_block_ifelse(b, ie);
            proof {
                assert(block_model(*b) =~= b0 + lower_stmt(
                    *e,
                    env_view(env@),
                    *old(ctr) as nat,
                )->Ok_0.stmts);
            }
            Ok(())
        },
        Expr::RepExpr(rp) => {
            let bound = match lower_value_exec(&rp.num_iterations) {
                Ok(x) => x,
                Err(er) => {
                    return Err(er);
                },
            };
            if *ctr == u64::MAX {
                return Err(CompileError::TooManyCounters);
            }
            let name_s: String = synth_var_name(*ctr);
            let ghost c0 = *ctr as nat;
            *ctr = *ctr + 1;
            let mut body_b = cg_block_new();
            let mut env2 = copy_env(env);
            match lower_block_exec(&mut body_b, &mut env2, ctr, &rp.body) {
                Ok(_) => {},
                Err(er) => {
                    return Err(er);
                },
            }
            let ctr_var1 = cg_expr_var(name_s.as_str(), cg_type_int32());
            let ctr_var2 = cg_expr_var(name_s.as_str(), cg_type_int32());
            let one = cg_expr_raw(String::from_str("1"));
            let inc = cg_expr_binop(ctr_var2, "+", one);
            cg_block_assign(&mut body_b, ctr_var1, inc);
            let var = cg_variable_new(name_s.as_str(), cg_type_int32());
            let ve = cg_variable_to_expr(&var);
            cg_block_variable(b, var);
            let zero = cg_expr_raw(String::from_str("0"));
            cg_block_assign(b, ve, zero);
            let ctr_var3 = cg_expr_var(name_s.as_str(), cg_type_int32());
            let cond = cg_expr_binop(ctr_var3, "<", bound);
            let w = cg_while_new(cond, body_b);
            cg_block_while(b, w);
            proof {
                assert(block_model(*b) =~= b0 + rep_stmts(
                    synth_name(c0),
                    lower_value(*rp.num_iterations)->Ok_0,
                    lower_block(rp.body@, env_view(old(env)@), c0 + 1)->Ok_0.stmts,
                ));
            }
            Ok(())
        },
        Expr::ReturnExpr(rx) => match lower_value_exec(&rx.value) {
            Ok(g) => {
                cg_block_return(b, g);
                proof {
                    assert(block_model(*b) =~= b0 + lower_stmt(
                        *e,
                        env_view(env@),
                        *old(ctr) as nat,
                    )->Ok_0.stmts);
                }
                Ok(())
            },
            Err(er) => Err(er),
        },
        Expr::FunctionDef(_) => {
            let m = cg_expr_raw(String::from_str("__unsupported_nested_function"));
            cg_block_expr_stmt(b, m);
            proof {
                assert(block_model(*b) =~= b0 + seq![unsupported_marker()]);
            }
            Ok(())
        },
        Expr::NoneExpr(_) => {
            proof {
                assert(block_model(*b) =~= b0 + Seq::<GStmt>::empty());
            }
            Ok(())
        },
        _ => match lower_value_exec(e) {
            Ok(_) => {
                proof {
                    assert(block_model(*b) =~= b0 + Seq::<GStmt>::empty());
                }
                Ok(())
            },
            Err(er) => Err(er),
        },
    }
}

/// Lowers a block of statement-position expressions in order, exactly as
/// `lower_block` says.
#[verifier::loop_isolation(false)]
fn lower_block_exec<'a>(
    b: &mut crustal::Block,
    env: &mut Vec<(&'a str, &'a Type)>,
    ctr: &mut u64,
    es: &'a Vec<Expr>,
) -> (r: Result<(), CompileError>)
    ensures
        match lower_block(es@, env_view(old(env)@), *old(ctr) as nat) {
            Ok(l) => r is Ok && block_model(*final(b)) == block_model(*old(b)) + l.stmts
                && env_view(final(env)@) == l.env && *final(ctr) as nat == l.ctr,
            Err(er) => r matches Err(e2) && e2 == er,
        },
    decreases es@, 0int,
{
    let ghost b0 = block_model(*b);
    let ghost env0 = env_view(env@);
    let ghost c0 = *ctr as nat;
    proof {
        assert(es@.take(0) =~= Seq::<Expr>::empty());
        assert(b0 + Seq::<GStmt>::empty() =~= b0);
    }
    let mut i: usize = 0;
    while i < es.len()
        invariant
            i <= es@.len(),
            lower_block(es@.take(i as int), env0, c0) matches Ok(l) && block_model(*b) == b0
                + l.stmts && env_view(env@) == l.env && *ctr as nat == l.ctr,
        decreases es@.len() - i,
    {
        proof {
            assert(decreases_to!(es@ => es@[i as int]));
        }
        let ghost pre = lower_block(es@.take(i as int), env0, c0)->Ok_0;
        match lower_stmt_exec(b, env, ctr, &es[i]) {
            Ok(_) => {
                proof {
                    assert(es@.take(i as int + 1).drop_last() =~= es@.take(i as int));
                    assert(es@.take(i as int + 1).last() == es@[i as int]);
                    let step = lower_stmt(es@[i as int], pre.env, pre.ctr)->Ok_0;
                    assert(block_model(*b) =~= b0 + (pre.stmts + step.stmts));
                }
            },
            Err(er) => {
                proof {
                    assert(es@.take(i as int + 1).drop_last() =~= es@.take(i as int));
                    assert(es@.take(i as int + 1).last() == es@[i as int]);
                    assert(lower_block(es@.take(i as int + 1), env0, c0) == Err::<
                        Lowered,
                        CompileError,
                    >(lower_stmt(es@[i as int], pre.env, pre.ctr)->Err_0));
                    lemma_block_persist(es@, env0, c0, i as int + 1);
                    assert(lower_block(es@, env0, c0) matches Err(e3) && e3 == er);
                }
                return Err(er);
            },
        }
        i = i + 1;
    }
    proof {
        assert(es@.take(es@.len() as int) =~= es@);
    }
    Ok(())
}

/// Compiles a program: lowers every top-level expression, assembles the
/// entry function, and serializes includes then functions, in registration
/// order. The output text is exactly the rendering of `lower_program`, so
/// equal trees give byte-identical output.
#[verifier::loop_isolation(false)]
pub fn generate(ast: &Program) -> (r: Result<String, CompileError>)
    ensures
        match lower_program(*ast) {
            Ok(m) => r matches Ok(s) && s@ == prog_text(m),
            Err(er) => r matches Err(e2) && e2 == er,
        },
{
    let mut main_b = cg_block_new();
    let mut funs: Vec<crustal::Function> = Vec::new();
    let mut env: Vec<(&str, &Type)> = Vec::new();
    let mut ctr: u64 = 0;
    let ghost es = ast.expressions@;
    proof {
        assert(es.take(0) =~= Seq::<Expr>::empty());
        assert(env_view(env@) =~= Seq::<(Seq<char>, Type)>::empty());
        assert(funs@.map_values(|x: crustal::Function| function_model(x)) =~= Seq::<
            GFun,
        >::empty());
    }
    let mut i: usize = 0;
    while i < ast.expressions.len()
        invariant
            i <= es.len(),
            lower_top(es.take(i as int), Seq::empty(), 0) matches Ok(t) && block_model(main_b)
                == t.main_stmts && funs@.map_values(|x: crustal::Function| function_model(x))
                == t.funs && env_view(env@) == t.env && ctr as nat == t.ctr,
        decreases es.len() - i,
    {
        let ghost t1 = lower_top(es.take(i as int), Seq::empty(), 0)->Ok_0;
        proof {
            assert(es.take(i as int + 1).drop_last() =~= es.take(i as int));
            assert(es.take(i as int + 1).last() == es[i as int]);
        }
        match &ast.expressions[i] {
            Expr::FunctionDef(f) => {
                if str_eq(f.name.value.as_str(), "main") {
                    match lower_block_exec(&mut main_b, &mut env, &mut ctr, &f.body) {
                        Ok(_) => {},
                        Err(er) => {
                            proof {
                                lemma_top_persist(es, Seq::empty(), 0, i as int + 1);
                            }
                            return Err(er);
                        },
                    }
                } else {
                    let mut func = cg_function_new(f.name.value.as_str(), cg_type_void());
                    let mut fenv: Vec<(&str, &Type)> = Vec::new();
                    proof {
                        assert(f.args@.take(0) =~= Seq::<crate::ast::TypedIdentifier>::empty());
                        assert(fun_params(f.args@.take(0)) =~= Seq::<GDecl>::empty());
                        assert(param_env(f.args@.take(0)) =~= Seq::<(Seq<char>, Type)>::empty());
                        assert(env_view(fenv@) =~= Seq::<(Seq<char>, Type)>::empty());
                    }
                    let mut j: usize = 0;
                    while j < f.args.len()
                        invariant
                            j <= f.args@.len(),
                            function_model(func) == (GFun {
                                name: f.name.value@,
                                ret: GType::Void,
                                params: fun_params(f.args@.take(j as int)),
                                body: Seq::empty(),
                            }),
                            env_view(fenv@) == param_env(f.args@.take(j as int)),
                        decreases f.args@.len() - j,
                    {
                        let a = &f.args[j];
                        let ct = get_crustal_type(&a.associated_type);
                        cg_function_add_param(&mut func, a.value.value.as_str(), ct);
                        fenv.push((a.value.value.as_str(), &a.associated_type));
                        proof {
                            assert(f.args@.take(j as int + 1).drop_last() =~= f.args@.take(
                                j as int,
                            ));
                            assert(f.args@.take(j as int + 1).last() == f.args@[j as int]);
                            assert(fun_params(f.args@.take(j as int + 1)) =~= fun_params(
                                f.args@.take(j as int),
                            ).push(GDecl { name: a.value.value@, ty: tmap(a.associated_type) }));
                            assert(param_env(f.args@.take(j as int + 1)) =~= param_env(
                                f.args@.take(j as int),
                            ).push((a.value.value@, a.associated_type)));
                            assert(env_view(fenv@) =~= param_env(f.args@.take(j as int + 1)));
                        }
                        j = j + 1;
                    }
                    proof {
                        assert(f.args@.take(f.args@.len() as int) =~= f.args@);
                    }
                    let mut fb = cg_block_new();
                    match lower_block_exec(&mut fb, &mut fenv, &mut ctr, &f.body) {
                        Ok(_) => {},
                        Err(er) => {
                            proof {
                                lemma_top_persist(es, Seq::empty(), 0, i as int + 1);
                            }
                            return Err(er);
                        },
                    }
                    cg_function_set_body(&mut func, fb);
                    let ghost pre = funs@.map_values(|x: crustal::Function| function_model(x));
                    let ghost fm = function_model(func);
                    funs.push(func);
                    proof {
                        assert(funs@.map_values(|x: crustal::Function| function_model(x))
                            =~= pre.push(fm));
                    }
                }
            },
            other => {
                match lower_stmt_exec(&mut main_b, &mut env, &mut ctr, other) {
                    Ok(_) => {},
                    Err(er) => {
                        proof {
                            lemma_top_persist(es, Seq::empty(), 0, i as int + 1);
                        }
                        return Err(er);
                    },
                }
            },
        }
        i = i + 1;
    }
    proof {
        assert(es.take(es.len() as int) =~= es);
    }
    let ghost t = lower_top(es, Seq::empty(), 0)->Ok_0;
    if cg_block_is_empty(&main_b) {
        cg_block_blank(&mut main_b);
        proof {
            assert(Seq::<GStmt>::empty().push(GStmt::Blank) =~= seq![GStmt::Blank]);
        }
    }
    proof {
        assert(block_model(main_b) == entry_body(t.main_stmts));
    }
    let mut main_fn = cg_function_new("main", cg_type_int32());
    cg_function_set_body(&mut main_fn, main_b);
    let ghost mg = GFun {
        name: "main"@,
        ret: GType::Int32,
        params: Seq::empty(),
        body: entry_body(t.main_stmts),
    };
    let mut out = String::from_str("#include <bits/stdc++.h>\n");
    proof {
        reveal_strlit("#include <bits/stdc++.h>\n");
        reveal_strlit("#include <");
        reveal_strlit(">\n");
        reveal_strlit("bits/stdc++.h");
        assert(out@ =~= include_text("bits/stdc++.h"@));
        assert(seq!["bits/stdc++.h"@].drop_last() =~= Seq::<Seq<char>>::empty());
        assert(seq!["bits/stdc++.h"@].last() == "bits/stdc++.h"@);
        assert(includes_text(Seq::<Seq<char>>::empty()) =~= Seq::<char>::empty());
        assert(Seq::<char>::empty() + include_text("bits/stdc++.h"@) =~= include_text(
            "bits/stdc++.h"@,
        ));
        assert(includes_text(seq!["bits/stdc++.h"@]) =~= include_text("bits/stdc++.h"@));
    }
    let mt = cg_function_to_string(&main_fn);
    out.append(mt.as_str());
    let ghost allf = seq![mg] + t.funs;
    proof {
        assert(seq![mg].drop_last() =~= Seq::<GFun>::empty());
        assert(seq![mg].last() == mg);
        assert(funs_text(Seq::<GFun>::empty()) =~= Seq::<char>::empty());
        assert(Seq::<char>::empty() + fun_text(mg) =~= fun_text(mg));
        assert(funs_text(seq![mg]) =~= fun_text(mg));
        assert(allf.take(1) =~= seq![mg]);
        assert(out@ =~= includes_text(seq!["bits/stdc++.h"@]) + funs_text(allf.take(1)));
    }
    let mut k: usize = 0;
    while k < funs.len()
        invariant
            k <= funs@.len(),
            out@ == includes_text(seq!["bits/stdc++.h"@]) + funs_text(allf.take(1 + k as int)),
        decreases funs@.len() - k,
    {
        let ft = cg_function_to_string(&funs[k]);
        out.append(ft.as_str());
        proof {
            assert(function_model(funs@[k as int]) == t.funs[k as int]);
            assert(allf.take(2 + k as int).drop_last() =~= allf.take(1 + k as int));
            assert(allf.take(2 + k as int).last() == t.funs[k as int]);
            assert(out@ =~= includes_text(seq!["bits/stdc++.h"@]) + funs_text(
                allf.take(2 + k as int),
            ));
        }
        k = k + 1;
    }
    proof {
        assert(allf.take(1 + funs@.len() as int) =~= allf);
        assert(out@ =~= prog_text(lower_program(*ast)->Ok_0));
    }
    Ok(out)
}

} // verus!
