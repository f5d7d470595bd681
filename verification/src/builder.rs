//! Bindings to the crustal program-builder crate: the mutable container the
//! code generator emits into. Each binding wraps exactly one crustal call,
//! and its contract states what that call does to the ghost model of the
//! value (`crate::emit`). The serialized text of a finished function is a
//! function of its model alone and is given the name `fun_text`.

use vstd::prelude::*;

use crate::emit::{GDecl, GExpr, GFun, GStmt, GType};
use crustal::Expr as CgExpr;
use crustal::Type as CgType;

verus! {

#[verifier::external_type_specification]
#[verifier::external_body]
pub struct ExCgExpr(CgExpr);

#[verifier::external_type_specification]
#[verifier::external_body]
pub struct ExCgType(CgType);

#[verifier::external_type_specification]
#[verifier::external_body]
pub struct ExCgVariable(crustal::Variable);

#[verifier::external_type_specification]
#[verifier::external_body]
pub struct ExCgBlock(crustal::Block);

#[verifier::external_type_specification]
#[verifier::external_body]
pub struct ExCgIfElse(crustal::IfElse);

#[verifier::external_type_specification]
#[verifier::external_body]
pub struct ExCgWhileLoop(crustal::WhileLoop);

#[verifier::external_type_specification]
#[verifier::external_body]
pub struct ExCgFunction(crustal::Function);

/// The expression a crustal value expression stands for.
pub uninterp spec fn expr_model(e: CgExpr) -> GExpr;

/// The type expression a crustal type stands for.
pub uninterp spec fn type_model(t: CgType) -> GType;

/// The declaration a crustal variable stands for.
pub uninterp spec fn variable_model(v: crustal::Variable) -> GDecl;

/// The statements a crustal block holds, in emission order.
pub uninterp spec fn block_model(b: crustal::Block) -> Seq<GStmt>;

/// The condition, then branch and else branch a crustal conditional holds.
pub uninterp spec fn ifelse_model(i: crustal::IfElse) -> (GExpr, Seq<GStmt>, Seq<GStmt>);

/// The condition and body a crustal while loop holds.
pub uninterp spec fn while_model(w: crustal::WhileLoop) -> (GExpr, Seq<GStmt>);

/// The name, return type, parameters and body a crustal function holds.
pub uninterp spec fn function_model(f: crustal::Function) -> GFun;

/// The serialized text of a function with the given model: crustal renders
/// a function definition from its structure alone, and the model carries
/// everything these bindings ever set of that structure (name, return
/// type, parameters, body), so the text is a function of the model.
pub uninterp spec fn fun_text(f: GFun) -> Seq<char>;

/// Relies on crustal's `Expr::Raw`: the expression carries the given
/// text, rendering as `expr_text` states.
#[verifier::external_body]
pub(crate) fn cg_expr_raw(s: String) -> (r: CgExpr)
    ensures
        expr_model(r) == GExpr::Raw(s@),
{
    CgExpr::Raw(s)
}

/// Relies on crustal's `Expr::new_str`: a string constant, rendered between
/// double quotes.
#[verifier::external_body]
pub(crate) fn cg_expr_str(s: &str) -> (r: CgExpr)
    ensures
        expr_model(r) == GExpr::Str(s@),
{
    CgExpr::new_str(s)
}

/// Relies on crustal's `Expr::new_var`: a variable reference, rendered as
/// its name (the carried type does not render).
#[verifier::external_body]
pub(crate) fn cg_expr_var(name: &str, ty: CgType) -> (r: CgExpr)
    ensures
        expr_model(r) == GExpr::Var(name@),
{
    CgExpr::new_var(name, ty)
}

/// Relies on crustal's `Expr::binop`: a parenthesized infix operation.
#[verifier::external_body]
pub(crate) fn cg_expr_binop(l: CgExpr, op: &str, r: CgExpr) -> (e: CgExpr)
    ensures
        expr_model(e) == GExpr::Bin(Box::new(expr_model(l)), op@, Box::new(expr_model(r))),
{
    CgExpr::binop(l, op, r)
}

/// Relies on crustal's `Expr::uop`: a prefix operation on a parenthesized
/// operand.
#[verifier::external_body]
pub(crate) fn cg_expr_uop(op: &str, a: CgExpr) -> (e: CgExpr)
    ensures
        expr_model(e) == GExpr::Un(op@, Box::new(expr_model(a))),
{
    CgExpr::uop(op, a)
}

/// Relies on crustal's `Expr::fn_call`: a call expression over the given
/// arguments, in order.
#[verifier::external_body]
pub(crate) fn cg_expr_call(name: &str, args: Vec<CgExpr>) -> (e: CgExpr)
    ensures
        expr_model(e) == GExpr::Call(name@, args@.map_values(|a: CgExpr| expr_model(a))),
{
    CgExpr::fn_call(name, args)
}

/// Relies on crustal's `Expr` `Display` through its formatter, which
/// rejoins the written lines with a bare line feed: an expression renders
/// as its model's text with carriage-return/line-feed pairs collapsed, as
/// `expr_text` states.
#[verifier::external_body]
pub(crate) fn cg_expr_to_string(e: &CgExpr) -> (r: String)
    ensures
        r@ == crate::emit::expr_text(expr_model(*e)),
{
    e.to_string()
}

/// Relies on crustal's `Type::new_int32`.
#[verifier::external_body]
pub(crate) fn cg_type_int32() -> (r: CgType)
    ensures
        type_model(r) == GType::Int32,
{
    CgType::new_int32()
}

/// Relies on crustal's `Type::new_double`.
#[verifier::external_body]
pub(crate) fn cg_type_double() -> (r: CgType)
    ensures
        type_model(r) == GType::Double,
{
    CgType::new_double()
}

/// Relies on crustal's `Type::new_void`.
#[verifier::external_body]
pub(crate) fn cg_type_void() -> (r: CgType)
    ensures
        type_model(r) == GType::Void,
{
    CgType::new_void()
}

/// Relies on crustal's `Type::new_class`: a class type rendered as its
/// name.
#[verifier::external_body]
pub(crate) fn cg_type_class(name: &str) -> (r: CgType)
    ensures
        type_model(r) == GType::Class(name@),
{
    CgType::new_class(name)
}

/// Relies on crustal's `BaseType::TemplateClass`: a template class over
/// already-rendered argument texts.
#[verifier::external_body]
pub(crate) fn cg_type_template(name: &str, args: Vec<String>) -> (r: CgType)
    ensures
        type_model(r) == GType::Template(name@, args@.map_values(|s: String| s@)),
{
    CgType::new(crustal::BaseType::TemplateClass(name.to_string(), args))
}

/// Relies on crustal's `Type` `Display` through the same formatter: a
/// type renders as its model's text with carriage-return/line-feed pairs
/// collapsed, as `type_text` states.
#[verifier::external_body]
pub(crate) fn cg_type_to_string(t: &CgType) -> (r: String)
    ensures
        r@ == crate::emit::type_text(type_model(*t)),
{
    t.to_string()
}

/// Relies on crustal's `Variable::new`.
#[verifier::external_body]
pub(crate) fn cg_variable_new(name: &str, ty: CgType) -> (r: crustal::Variable)
    ensures
        variable_model(r) == (GDecl { name: name@, ty: type_model(ty) }),
{
    crustal::Variable::new(name, ty)
}

/// Relies on crustal's `Variable::to_expr`: a reference to the declared
/// variable.
#[verifier::external_body]
pub(crate) fn cg_variable_to_expr(v: &crustal::Variable) -> (r: CgExpr)
    ensures
        expr_model(r) == GExpr::Var(variable_model(*v).name),
{
    v.to_expr()
}

/// Relies on crustal's `Block::new`: a fresh block holds no statements.
#[verifier::external_body]
pub(crate) fn cg_block_new() -> (r: crustal::Block)
    ensures
        block_model(r) == Seq::<GStmt>::empty(),
{
    crustal::Block::new()
}

/// Relies on crustal's `Block::is_empty`: whether the block holds any
/// statement.
#[verifier::external_body]
pub(crate) fn cg_block_is_empty(b: &crustal::Block) -> (r: bool)
    ensures
        r == (block_model(*b).len() == 0),
{
    b.is_empty()
}

/// Relies on crustal's `Block::variable`: appends the declaration.
#[verifier::external_body]
pub(crate) fn cg_block_variable(b: &mut crustal::Block, v: crustal::Variable)
    ensures
        block_model(*final(b)) == block_model(*old(b)).push(GStmt::Decl(variable_model(v))),
{
    b.variable(v);
}

/// Relies on crustal's `Block::assign`: appends an assignment statement.
#[verifier::external_body]
pub(crate) fn cg_block_assign(b: &mut crustal::Block, lhs: CgExpr, rhs: CgExpr)
    ensures
        block_model(*final(b)) == block_model(*old(b)).push(
            GStmt::Assign(expr_model(lhs), expr_model(rhs)),
        ),
{
    b.assign(lhs, rhs);
}

/// Relies on crustal's `Block::fn_call`: appends a call statement with the
/// arguments in order.
#[verifier::external_body]
pub(crate) fn cg_block_fn_call(b: &mut crustal::Block, name: &str, args: Vec<CgExpr>)
    ensures
        block_model(*final(b)) == block_model(*old(b)).push(
            GStmt::Call(name@, args@.map_values(|a: CgExpr| expr_model(a))),
        ),
{
    b.fn_call(name, args);
}

/// Relies on crustal's `Block::ifelse`: appends the conditional.
#[verifier::external_body]
pub(crate) fn cg_block_ifelse(b: &mut crustal::Block, i: crustal::IfElse)
    ensures
        block_model(*final(b)) == block_model(*old(b)).push(
            GStmt::If(ifelse_model(i).0, ifelse_model(i).1, ifelse_model(i).2),
        ),
{
    b.ifelse(i);
}

/// Relies on crustal's `Block::while_loop`: appends the loop.
#[verifier::external_body]
pub(crate) fn cg_block_while(b: &mut crustal::Block, w: crustal::WhileLoop)
    ensures
        block_model(*final(b)) == block_model(*old(b)).push(
            GStmt::While(while_model(w).0, while_model(w).1),
        ),
{
    b.while_loop(w);
}

/// Relies on crustal's `Block::return_expr`: appends a return statement.
#[verifier::external_body]
pub(crate) fn cg_block_return(b: &mut crustal::Block, e: CgExpr)
    ensures
        block_model(*final(b)) == block_model(*old(b)).push(GStmt::Return(expr_model(e))),
{
    b.return_expr(e);
}

/// Relies on crustal's `Block::raw_expr`: appends an expression statement.
#[verifier::external_body]
pub(crate) fn cg_block_expr_stmt(b: &mut crustal::Block, e: CgExpr)
    ensures
        block_model(*final(b)) == block_model(*old(b)).push(GStmt::ExprStmt(expr_model(e))),
{
    b.raw_expr(e);
}

/// Relies on crustal's `Block::empty_line`: appends an empty line.
#[verifier::external_body]
pub(crate) fn cg_block_blank(b: &mut crustal::Block)
    ensures
        block_model(*final(b)) == block_model(*old(b)).push(GStmt::Blank),
{
    b.empty_line();
}

/// Relies on crustal's `IfElse::with_expr`: a conditional with the given
/// condition and empty branches.
#[verifier::external_body]
pub(crate) fn cg_ifelse_new(cond: CgExpr) -> (r: crustal::IfElse)
    ensures
        ifelse_model(r) == (expr_model(cond), Seq::<GStmt>::empty(), Seq::<GStmt>::empty()),
{
    crustal::IfElse::with_expr(cond)
}

/// Relies on crustal's `IfElse::set_then`: replaces the then branch.
#[verifier::external_body]
pub(crate) fn cg_ifelse_set_then(i: &mut crustal::IfElse, b: crustal::Block)
    ensures
        ifelse_model(*final(i)) == (ifelse_model(*old(i)).0, block_model(b), ifelse_model(*old(i)).2),
{
    i.set_then(b);
}

/// Relies on crustal's `IfElse::set_other`: replaces the else branch.
#[verifier::external_body]
pub(crate) fn cg_ifelse_set_other(i: &mut crustal::IfElse, b: crustal::Block)
    ensures
        ifelse_model(*final(i)) == (ifelse_model(*old(i)).0, ifelse_model(*old(i)).1, block_model(b)),
{
    i.set_other(b);
}

/// Relies on crustal's `WhileLoop::with_guard_and_body`: a pre-tested loop
/// with the given condition and body.
#[verifier::external_body]
pub(crate) fn cg_while_new(cond: CgExpr, body: crustal::Block) -> (r: crustal::WhileLoop)
    ensures
        while_model(r) == (expr_model(cond), block_model(body)),
{
    crustal::WhileLoop::with_guard_and_body(cond, body)
}

/// Relies on crustal's `Function::new`: a function with the given name and
/// return type, no parameters, and an empty body.
#[verifier::external_body]
pub(crate) fn cg_function_new(name: &str, ret: CgType) -> (r: crustal::Function)
    ensures
        function_model(r) == (GFun {
            name: name@,
            ret: type_model(ret),
            params: Seq::empty(),
            body: Seq::empty(),
        }),
{
    crustal::Function::new(name, ret)
}

/// Relies on crustal's `Function::new_param`: appends a parameter.
#[verifier::external_body]
pub(crate) fn cg_function_add_param(f: &mut crustal::Function, name: &str, ty: CgType)
    ensures
        function_model(*final(f)) == (GFun {
            params: function_model(*old(f)).params.push(
                GDecl { name: name@, ty: type_model(ty) },
            ),
            ..function_model(*old(f))
        }),
{
    f.new_param(name, ty);
}

/// Relies on crustal's `Function::set_body`: replaces the body.
#[verifier::external_body]
pub(crate) fn cg_function_set_body(f: &mut crustal::Function, b: crustal::Block)
    ensures
        function_model(*final(f)) == (GFun { body: block_model(b), ..function_model(*old(f)) }),
{
    f.set_body(b);
}

/// Relies on crustal's `Function` `Display`: a function renders from its
/// structure alone, so its text is `fun_text` of its model.
#[verifier::external_body]
pub(crate) fn cg_function_to_string(f: &crustal::Function) -> (r: String)
    ensures
        r@ == fun_text(function_model(*f)),
{
    f.to_string()
}

} // verus!
