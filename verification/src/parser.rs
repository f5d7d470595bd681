//! A parser from source text to the tree: the same surface grammar the
//! recognizer (`syntax`) answers for, here producing the tree the code
//! generator consumes. The input must be plain (seven-bit) text; the
//! parser reports failure as an absent result rather than a partial tree.

use vstd::prelude::*;
use vstd::string::StrSliceExecFns;
use vstd::string::StringSliceAdditionalSpecFns;

use crate::ast::{
    AssignmentExpr, AstNode, BinOpExpr, Expr, FloatLiteral, FunctionDef, Identifier, IfExpr,
    IntegerLiteral, MethodCallExpr, PrintExpr, Program, RepExpr, Type, TypedIdentifier,
    UnOpExpr,
};
use crate::syntax::{at_boundary, is_alpha, is_digit, is_ident_char, lit, ws};

verus! {

/// What every parsing step carries: the text, its bytes, and the fact
/// that byte positions are character positions.
pub open spec fn input_ok(s: &str, b: &[u8]) -> bool {
    &&& b@ == s.spec_bytes()
    &&& vstd::string::is_ascii(s)
    &&& s.spec_bytes().len() == s@.len()
}

/// The slice of the input between two byte positions, as owned text.
fn slice_text(s: &str, b: &[u8], from: usize, to: usize) -> (r: String)
    requires
        input_ok(s, b),
        from <= to <= b@.len(),
    ensures
        r@ == s@.subrange(from as int, to as int),
{
    s.substring_ascii(from, to).to_owned()
}

/// integer literal: an optional minus sign, then digits, as a value;
/// absent when the digits overflow the value range.
fn q_int(s: &str, b: &[u8], i: usize) -> (r: Option<(i128, usize)>)
    requires
        input_ok(s, b),
        i <= b@.len(),
    ensures
        r matches Some(p) ==> i < p.1 <= b@.len(),
{
    let mut j = i;
    let mut neg = false;
    if j < b.len() && b[j] == 45 {
        j = j + 1;
        neg = true;
    }
    if !(j < b.len() && is_digit(b[j])) {
        return None;
    }
    let mut v: i128 = 0;
    while j < b.len() && is_digit(b[j])
        invariant
            i <= j <= b@.len(),
            v >= 0,
        decreases b@.len() - j,
    {
        let d: i128 = (b[j] - 48) as i128;
        if v > (i128::MAX - d) / 10 {
            return None;
        }
        v = v * 10 + d;
        j = j + 1;
    }
    if j == i || (neg && j == i + 1) {
        return None;
    }
    if neg {
        Some((-v, j))
    } else {
        Some((v, j))
    }
}

/// float literal: kept in its lexical form.
fn q_float(s: &str, b: &[u8], i: usize) -> (r: Option<(FloatLiteral, usize)>)
    requires
        input_ok(s, b),
        i <= b@.len(),
    ensures
        r matches Some(p) ==> i < p.1 <= b@.len(),
{
    let j = match crate::syntax::p_float(b, i) {
        Some(x) => x,
        None => {
            return None;
        },
    };
    Some((FloatLiteral::new(slice_text(s, b, i, j)), j))
}

/// identifier: a letter, then letters, digits or underscores.
fn q_ident(s: &str, b: &[u8], i: usize) -> (r: Option<(String, usize)>)
    requires
        input_ok(s, b),
        i <= b@.len(),
    ensures
        r matches Some(p) ==> i < p.1 <= b@.len(),
{
    if !(i < b.len() && is_alpha(b[i])) {
        return None;
    }
    let mut j = i + 1;
    while j < b.len() && is_ident_char(b[j])
        invariant
            i < j <= b@.len(),
        decreases b@.len() - j,
    {
        j = j + 1;
    }
    Some((slice_text(s, b, i, j), j))
}

/// type: `int`, `float`, `string`, or `list` / `tuple` of an element type.
fn q_type(s: &str, b: &[u8], i: usize) -> (r: Option<(Type, usize)>)
    requires
        input_ok(s, b),
        i <= b@.len(),
    ensures
        r matches Some(p) ==> i <= p.1 <= b@.len(),
    decreases b@.len() - i, 2int,
{
    if let Some(j1) = lit(b, i, "list") {
        let j2 = ws(b, j1);
        if j2 < b.len() && b[j2] == 60 {
            let j3 = ws(b, j2 + 1);
            if let Some((inner, j4)) = q_type(s, b, j3) {
                let j5 = ws(b, j4);
                if j5 < b.len() && b[j5] == 62 {
                    return Some((Type::List(Box::new(inner)), j5 + 1));
                }
            }
        }
    }
    if let Some(j1) = lit(b, i, "tuple") {
        let j2 = ws(b, j1);
        if j2 < b.len() && b[j2] == 60 {
            let j3 = ws(b, j2 + 1);
            if let Some((inner, j4)) = q_type(s, b, j3) {
                let j5 = ws(b, j4);
                if j5 < b.len() && b[j5] == 62 {
                    return Some((Type::Tuple(Box::new(inner)), j5 + 1));
                }
            }
        }
    }
    if let Some(j) = lit(b, i, "int") {
        return Some((Type::Int, j));
    }
    if let Some(j) = lit(b, i, "float") {
        return Some((Type::Float, j));
    }
    if let Some(j) = lit(b, i, "string") {
        return Some((Type::String, j));
    }
    None
}

/// typed identifier: a name, a colon, a type.
pub(crate) fn q_typed_ident(s: &str, b: &[u8], i: usize) -> (r: Option<(TypedIdentifier, usize)>)
    requires
        input_ok(s, b),
        i <= b@.len(),
    ensures
        r matches Some(p) ==> i < p.1 <= b@.len(),
    decreases b@.len() - i, 3int,
{
    let (name, j1) = match q_ident(s, b, i) {
        Some(x) => x,
        None => {
            return None;
        },
    };
    let j2 = ws(b, j1);
    if !(j2 < b.len() && b[j2] == 58) {
        return None;
    }
    let j3 = ws(b, j2 + 1);
    match q_type(s, b, j3) {
        Some((ty, j4)) => Some((TypedIdentifier::new(Identifier::new(name), ty), j4)),
        None => None,
    }
}

/// method call: a name and its arguments; a one-argument `print` is the
/// output statement.
pub(crate) fn q_method_call(s: &str, b: &[u8], i: usize) -> (r: Option<(Expr, usize)>)
    requires
        input_ok(s, b),
        i <= b@.len(),
    ensures
        r matches Some(p) ==> i < p.1 <= b@.len(),
    decreases b@.len() - i, 4int,
{
    let (name, j1) = match q_ident(s, b, i) {
        Some(x) => x,
        None => {
            return None;
        },
    };
    let j2 = ws(b, j1);
    if !(j2 < b.len() && b[j2] == 40) {
        return None;
    }
    let mut j = ws(b, j2 + 1);
    let mut args: Vec<Expr> = Vec::new();
    if j < b.len() && b[j] == 41 {
        return Some((finish_call(name, args), j + 1));
    }
    loop
        invariant
            i < j <= b@.len(),
            input_ok(s, b),
        decreases b@.len() - j,
    {
        let (arg, j3) = match q_expr(s, b, j) {
            Some(x) => x,
            None => {
                return None;
            },
        };
        args.push(arg);
        let j4 = ws(b, j3);
        if j4 < b.len() && b[j4] == 44 {
            j = ws(b, j4 + 1);
            if j <= j4 {
                return None;
            }
        } else if j4 < b.len() && b[j4] == 41 {
            return Some((finish_call(name, args), j4 + 1));
        } else {
            return None;
        }
    }
}

/// A one-argument `print` becomes the output statement; anything else
/// stays a call.
fn finish_call(name: String, args: Vec<Expr>) -> Expr {
    if args.len() == 1 {
        let is_print = {
            let bs = name.as_str().as_bytes();
            bs.len() == 5 && bs[0] == 112 && bs[1] == 114 && bs[2] == 105 && bs[3] == 110
                && bs[4] == 116
        };
        if is_print {
            let mut args2 = args;
            let arg = args2.remove(0);
            return Expr::PrintExpr(PrintExpr::new(arg));
        }
    }
    Expr::MethodCallExpr(MethodCallExpr::new(Identifier::new(name), args))
}

/// operand: a prefix operation, a call, a literal, or a name.
pub(crate) fn q_operand(s: &str, b: &[u8], i: usize) -> (r: Option<(Expr, usize)>)
    requires
        input_ok(s, b),
        i <= b@.len(),
    ensures
        r matches Some(p) ==> i < p.1 <= b@.len(),
    decreases b@.len() - i, 5int,
{
    if i < b.len() && b[i] == 33 {
        let j1 = ws(b, i + 1);
        return match q_operand(s, b, j1) {
            Some((arg, j)) => Some(
                (Expr::UnOp(UnOpExpr::new(String::from_str("!"), arg)), j),
            ),
            None => None,
        };
    }
    if i < b.len() && b[i] == 45 {
        if let Some((v, j)) = q_int(s, b, i) {
            return Some((Expr::Integer(IntegerLiteral::new(v)), j));
        }
        let j1 = ws(b, i + 1);
        return match q_operand(s, b, j1) {
            Some((arg, j)) => Some(
                (Expr::UnOp(UnOpExpr::new(String::from_str("-"), arg)), j),
            ),
            None => None,
        };
    }
    if let Some((e, j)) = q_method_call(s, b, i) {
        return Some((e, j));
    }
    if let Some((f, j)) = q_float(s, b, i) {
        return Some((Expr::Float(f), j));
    }
    if let Some((v, j)) = q_int(s, b, i) {
        return Some((Expr::Integer(IntegerLiteral::new(v)), j));
    }
    match q_ident(s, b, i) {
        Some((name, j)) => Some((Expr::Identifier(Identifier::new(name)), j)),
        None => None,
    }
}

/// an infix operator token, as text.
fn q_op(s: &str, b: &[u8], i: usize) -> (r: Option<(String, usize)>)
    requires
        input_ok(s, b),
        i <= b@.len(),
    ensures
        r matches Some(p) ==> i < p.1 <= b@.len(),
{
    let j = match crate::syntax::p_op(b, i) {
        Some(x) => x,
        None => {
            return None;
        },
    };
    Some((slice_text(s, b, i, j), j))
}

/// unary operation: `!` or `-` applied to an operand.
pub(crate) fn q_unop(s: &str, b: &[u8], i: usize) -> (r: Option<(Expr, usize)>)
    requires
        input_ok(s, b),
        i <= b@.len(),
    ensures
        r matches Some(p) ==> i < p.1 <= b@.len(),
    decreases b@.len() - i, 6int,
{
    if !(i < b.len() && (b[i] == 33 || b[i] == 45)) {
        return None;
    }
    q_operand(s, b, i)
}

/// binary operation: an operand, an operator, then an operator chain.
pub(crate) fn q_binop(s: &str, b: &[u8], i: usize) -> (r: Option<(Expr, usize)>)
    requires
        input_ok(s, b),
        i <= b@.len(),
    ensures
        r matches Some(p) ==> i < p.1 <= b@.len(),
    decreases b@.len() - i, 8int,
{
    let (first, j1) = match q_operand(s, b, i) {
        Some(x) => x,
        None => {
            return None;
        },
    };
    let j2 = ws(b, j1);
    let (op, j3) = match q_op(s, b, j2) {
        Some(x) => x,
        None => {
            return None;
        },
    };
    let j4 = ws(b, j3);
    match q_chain(s, b, j4) {
        Some((rest, j5)) => Some((Expr::BinOp(BinOpExpr::new(first, op, rest)), j5)),
        None => None,
    }
}

/// operator chain: an operand, then zero or more infix operations, built
/// left to right.
pub(crate) fn q_chain(s: &str, b: &[u8], i: usize) -> (r: Option<(Expr, usize)>)
    requires
        input_ok(s, b),
        i <= b@.len(),
    ensures
        r matches Some(p) ==> i < p.1 <= b@.len(),
    decreases b@.len() - i, 7int,
{
    let (first, mut j) = match q_operand(s, b, i) {
        Some(x) => x,
        None => {
            return None;
        },
    };
    let mut acc = first;
    loop
        invariant
            i < j <= b@.len(),
            input_ok(s, b),
        decreases b@.len() - j,
    {
        let j2 = ws(b, j);
        let (op, j3) = match q_op(s, b, j2) {
            Some(x) => x,
            None => {
                return Some((acc, j));
            },
        };
        let j4 = ws(b, j3);
        match q_operand(s, b, j4) {
            Some((rhs, j5)) => {
                acc = Expr::BinOp(BinOpExpr::new(acc, op, rhs));
                j = j5;
            },
            None => {
                return Some((acc, j));
            },
        }
    }
}

/// assignment: a typed identifier, `=`, an expression.
pub(crate) fn q_assignment(s: &str, b: &[u8], i: usize) -> (r: Option<(Expr, usize)>)
    requires
        input_ok(s, b),
        i <= b@.len(),
    ensures
        r matches Some(p) ==> i < p.1 <= b@.len(),
    decreases b@.len() - i, 9int,
{
    let (target, j1) = match q_typed_ident(s, b, i) {
        Some(x) => x,
        None => {
            return None;
        },
    };
    let j2 = ws(b, j1);
    if !(j2 < b.len() && b[j2] == 61) {
        return None;
    }
    if j2 < b.len() && j2 + 1 < b.len() && b[j2 + 1] == 61 {
        return None;
    }
    let j3 = ws(b, j2 + 1);
    match q_expr(s, b, j3) {
        Some((value, j4)) => Some((Expr::AssignmentExpr(AssignmentExpr::new(target, value)), j4)),
        None => None,
    }
}

/// block: braces around a sequence of expressions.
pub(crate) fn q_block(s: &str, b: &[u8], i: usize) -> (r: Option<(Vec<Expr>, usize)>)
    requires
        input_ok(s, b),
        i <= b@.len(),
    ensures
        r matches Some(p) ==> i < p.1 <= b@.len(),
    decreases b@.len() - i, 12int,
{
    if !(i < b.len() && b[i] == 123) {
        return None;
    }
    let mut j = i + 1;
    let mut body: Vec<Expr> = Vec::new();
    loop
        invariant
            i < j <= b@.len(),
            input_ok(s, b),
        decreases b@.len() - j,
    {
        let j2 = ws(b, j);
        if j2 < b.len() && b[j2] == 125 {
            return Some((body, j2 + 1));
        }
        match q_expr(s, b, j2) {
            Some((e, j3)) => {
                body.push(e);
                j = j3;
            },
            None => {
                return None;
            },
        }
    }
}

/// conditional: `if`, a condition, a block, and an optional `else` block.
pub(crate) fn q_if(s: &str, b: &[u8], i: usize) -> (r: Option<(Expr, usize)>)
    requires
        input_ok(s, b),
        i <= b@.len(),
    ensures
        r matches Some(p) ==> i < p.1 <= b@.len(),
    decreases b@.len() - i, 10int,
{
    let j1 = match lit(b, i, "if") {
        Some(x) => x,
        None => {
            return None;
        },
    };
    if !at_boundary(b, j1) {
        return None;
    }
    let j2 = ws(b, j1);
    let (cond, j3) = match q_chain(s, b, j2) {
        Some(x) => x,
        None => {
            return None;
        },
    };
    let j4 = ws(b, j3);
    let (then_block, j5) = match q_block(s, b, j4) {
        Some(x) => x,
        None => {
            return None;
        },
    };
    let j6 = ws(b, j5);
    if let Some(j7) = lit(b, j6, "else") {
        if at_boundary(b, j7) {
            let j8 = ws(b, j7);
            if let Some((else_block, j9)) = q_block(s, b, j8) {
                return Some(
                    (Expr::IfExpr(IfExpr::new(cond, then_block, Some(else_block))), j9),
                );
            }
        }
    }
    Some((Expr::IfExpr(IfExpr::new(cond, then_block, None)), j5))
}

/// repetition: `rep`, a bound, a block.
pub(crate) fn q_rep(s: &str, b: &[u8], i: usize) -> (r: Option<(Expr, usize)>)
    requires
        input_ok(s, b),
        i <= b@.len(),
    ensures
        r matches Some(p) ==> i < p.1 <= b@.len(),
    decreases b@.len() - i, 10int,
{
    let j1 = match lit(b, i, "rep") {
        Some(x) => x,
        None => {
            return None;
        },
    };
    if !at_boundary(b, j1) {
        return None;
    }
    let j2 = ws(b, j1);
    let (bound, j3) = match q_chain(s, b, j2) {
        Some(x) => x,
        None => {
            return None;
        },
    };
    let j4 = ws(b, j3);
    match q_block(s, b, j4) {
        Some((body, j5)) => Some((Expr::RepExpr(RepExpr::new(bound, body)), j5)),
        None => None,
    }
}

/// function definition: `def`, a name, typed parameters, a block.
pub(crate) fn q_function_def(s: &str, b: &[u8], i: usize) -> (r: Option<(Expr, usize)>)
    requires
        input_ok(s, b),
        i <= b@.len(),
    ensures
        r matches Some(p) ==> i < p.1 <= b@.len(),
    decreases b@.len() - i, 10int,
{
    let j1 = match lit(b, i, "def") {
        Some(x) => x,
        None => {
            return None;
        },
    };
    if !at_boundary(b, j1) {
        return None;
    }
    let j2 = ws(b, j1);
    let (name, j3) = match q_ident(s, b, j2) {
        Some(x) => x,
        None => {
            return None;
        },
    };
    let j4 = ws(b, j3);
    if !(j4 < b.len() && b[j4] == 40) {
        return None;
    }
    let mut j = ws(b, j4 + 1);
    let mut params: Vec<TypedIdentifier> = Vec::new();
    if j < b.len() && b[j] == 41 {
        let j5 = ws(b, j + 1);
        return match q_block(s, b, j5) {
            Some((body, j6)) => Some(
                (
                    Expr::FunctionDef(
                        FunctionDef { name: Identifier::new(name), args: params, body },
                    ),
                    j6,
                ),
            ),
            None => None,
        };
    }
    loop
        invariant
            i < j <= b@.len(),
            input_ok(s, b),
        decreases b@.len() - j,
    {
        let (p, j6) = match q_typed_ident(s, b, j) {
            Some(x) => x,
            None => {
                return None;
            },
        };
        params.push(p);
        let j7 = ws(b, j6);
        if j7 < b.len() && b[j7] == 44 {
            j = ws(b, j7 + 1);
            if j <= j7 {
                return None;
            }
        } else if j7 < b.len() && b[j7] == 41 {
            let j8 = ws(b, j7 + 1);
            return match q_block(s, b, j8) {
                Some((body, j9)) => Some(
                    (
                        Expr::FunctionDef(
                            FunctionDef { name: Identifier::new(name), args: params, body },
                        ),
                        j9,
                    ),
                ),
                None => None,
            };
        } else {
            return None;
        }
    }
}

/// expression: a definition, a conditional, a repetition, an assignment,
/// or an operator chain.
fn q_expr(s: &str, b: &[u8], i: usize) -> (r: Option<(Expr, usize)>)
    requires
        input_ok(s, b),
        i <= b@.len(),
    ensures
        r matches Some(p) ==> i < p.1 <= b@.len(),
    decreases b@.len() - i, 11int,
{
    if let Some(p) = q_function_def(s, b, i) {
        return Some(p);
    }
    if let Some(p) = q_if(s, b, i) {
        return Some(p);
    }
    if let Some(p) = q_rep(s, b, i) {
        return Some(p);
    }
    if let Some(p) = q_assignment(s, b, i) {
        return Some(p);
    }
    q_chain(s, b, i)
}

/// Parses a whole program: whitespace-separated expressions covering the
/// input. Failure (including input beyond plain seven-bit text) is an
/// absent result, never a partial tree.
pub fn parse_program(input: &str) -> (r: Option<AstNode>)
    ensures
        r matches Some(n) ==> n is Program,
        !vstd::string::is_ascii(input) ==> r is None,
{
    if !input.is_ascii() {
        return None;
    }
    let b = input.as_bytes();
    proof {
        broadcast use vstd::string::is_ascii_spec_bytes;

        assert(input.spec_bytes().len() == input@.len());
    }
    let mut j = ws(b, 0);
    let mut expressions: Vec<Expr> = Vec::new();
    loop
        invariant
            j <= b@.len(),
            input_ok(input, b),
        decreases b@.len() - j,
    {
        if j >= b.len() {
            return Some(AstNode::Program(Program { expressions }));
        }
        match q_expr(input, b, j) {
            Some((e, j2)) => {
                expressions.push(e);
                j = ws(b, j2);
            },
            None => {
                return None;
            },
        }
    }
}

} // verus!
