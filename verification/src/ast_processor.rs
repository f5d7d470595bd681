//! A diagnostic walker over the tree: visits every node in traversal order
//! and reports one line per visit. The walk itself is pure; printing the
//! lines is left to the caller.

use vstd::prelude::*;
use vstd::string::StringExecFns;

use crate::ast::{Expr, Program, Type, TypedIdentifier};
use crate::names::int_text;

verus! {

broadcast use vstd::std_specs::vec::group_vec_axioms;

/// The debug rendering of a source type.
pub open spec fn type_debug(t: Type) -> Seq<char>
    decreases t,
{
    match t {
        Type::Int => "Int"@,
        Type::Float => "Float"@,
        Type::String => "String"@,
        Type::List(x) => "List("@ + type_debug(*x) + ")"@,
        Type::Tuple(x) => "Tuple("@ + type_debug(*x) + ")"@,
        Type::FunctionType(ps, r) => "FunctionType(["@ + join_type_debugs(ps@) + "], "@ + (
        match *r {
            Some(x) => "Some("@ + type_debug(x) + ")"@,
            None => "None"@,
        }) + ")"@,
        Type::Unit => "Unit"@,
    }
}

/// Debug renderings joined with a comma and a space.
pub open spec fn join_type_debugs(ts: Seq<Type>) -> Seq<char>
    decreases ts,
{
    if ts.len() == 0 {
        Seq::empty()
    } else if ts.len() == 1 {
        type_debug(ts[0])
    } else {
        join_type_debugs(ts.drop_last()) + ", "@ + type_debug(ts.last())
    }
}

/// The parameter lines of a visited function definition.
pub open spec fn param_lines(args: Seq<TypedIdentifier>) -> Seq<Seq<char>> {
    args.map_values(
        |a: TypedIdentifier| "  Parameter: "@ + a.value.value@ + " : "@ + type_debug(
            a.associated_type,
        ),
    )
}

/// The report lines for one expression, children in traversal order.
pub open spec fn trace_expr(e: Expr) -> Seq<Seq<char>>
    decreases e,
{
    match e {
        Expr::Integer(i) => seq!["Processing integer: "@ + int_text(i.value as int)],
        Expr::Float(f) => seq!["Processing float: "@ + f.value@],
        Expr::String(s) => seq!["Processing string: "@ + s.value@],
        Expr::Identifier(id) => seq!["Processing identifier: "@ + id.value@],
        Expr::AssignmentExpr(a) => seq!["Processing assignment to: "@ + a.target.value.value@]
            + trace_expr(*a.value),
        Expr::MethodCallExpr(m) => seq!["Processing method call: "@ + m.method_name.value@]
            + trace_exprs(m.args@),
        Expr::PrintExpr(p) => seq!["Processing print expression"@] + trace_expr(*p.arg),
        Expr::IfExpr(i) => seq!["Processing if expression"@] + trace_expr(*i.condition)
            + trace_exprs(i.then_block@) + (match i.else_block {
            Some(ev) => trace_exprs(ev@),
            None => Seq::empty(),
        }),
        Expr::RepExpr(r) => seq!["Processing rep expression"@] + trace_expr(*r.num_iterations)
            + trace_exprs(r.body@),
        Expr::ListExpr(l) => seq!["Processing list expression"@] + trace_exprs(l.elems@),
        Expr::BinOp(b) => seq!["Processing binary operation: "@ + b.op@] + trace_expr(*b.left)
            + trace_expr(*b.right),
        Expr::UnOp(u) => seq!["Processing unary operation: "@ + u.op@] + trace_expr(*u.arg),
        Expr::FunctionDef(f) => seq!["Processing function definition: "@ + f.name.value@]
            + param_lines(f.args@) + trace_exprs(f.body@),
        Expr::NoneExpr(_) => seq!["Processing none expression"@],
        Expr::ReturnExpr(rx) => seq!["Processing return expression"@] + trace_expr(*rx.value),
    }
}

/// The report lines for a sequence of expressions, in order.
pub open spec fn trace_exprs(es: Seq<Expr>) -> Seq<Seq<char>>
    decreases es,
{
    if es.len() == 0 {
        Seq::empty()
    } else {
        trace_exprs(es.drop_last()) + trace_expr(es.last())
    }
}

/// The report lines for a whole program.
pub open spec fn trace_program(p: Program) -> Seq<Seq<char>> {
    trace_exprs(p.expressions@)
}

/// The debug rendering of a source type, as `type_debug` says.
#[verifier::loop_isolation(false)]
pub fn type_debug_string(t: &Type) -> (r: String)
    ensures
        r@ == type_debug(*t),
    decreases *t,
{
    match t {
        Type::Int => {
            let r = String::from_str("Int");
            r
        },
        Type::Float => String::from_str("Float"),
        Type::String => String::from_str("String"),
        Type::List(x) => {
            let mut s = String::from_str("List(");
            s.append(type_debug_string(x).as_str());
            s.append(")");
            proof {
                assert(s@ =~= type_debug(*t));
            }
            s
        },
        Type::Tuple(x) => {
            let mut s = String::from_str("Tuple(");
            s.append(type_debug_string(x).as_str());
            s.append(")");
            proof {
                assert(s@ =~= type_debug(*t));
            }
            s
        },
        Type::FunctionType(ps, r) => {
            let mut s = String::from_str("FunctionType([");
            let mut i: usize = 0;
            proof {
                assert(ps@.take(0) =~= Seq::<Type>::empty());
            }
            while i < ps.len()
                invariant
                    i <= ps@.len(),
                    s@ == "FunctionType(["@ + join_type_debugs(ps@.take(i as int)),
                decreases ps@.len() - i,
            {
                if i > 0 {
                    s.append(", ");
                }
                s.append(type_debug_string(&ps[i]).as_str());
                proof {
                    assert(ps@.take(i as int + 1).drop_last() =~= ps@.take(i as int));
                    assert(ps@.take(i as int + 1).last() == ps@[i as int]);
                }
                i = i + 1;
            }
            proof {
                assert(ps@.take(ps@.len() as int) =~= ps@);
            }
            s.append("], ");
            match &**r {
                Some(x) => {
                    s.append("Some(");
                    s.append(type_debug_string(x).as_str());
                    s.append(")");
                },
                None => {
                    s.append("None");
                },
            }
            s.append(")");
            proof {
                assert(s@ =~= type_debug(*t));
            }
            s
        },
        Type::Unit => String::from_str("Unit"),
    }
}

/// Visits one expression, appending its report lines.
#[verifier::loop_isolation(false)]
fn trace_into(out: &mut Vec<String>, e: &Expr)
    ensures
        final(out)@.map_values(|s: String| s@) == old(out)@.map_values(|s: String| s@)
            + trace_expr(*e),
    decreases *e, 1int,
{
    let ghost pre = out@.map_values(|s: String| s@);
    match e {
        Expr::Integer(i) => {
            let mut line = String::from_str("Processing integer: ");
            line.append(crate::names::i128_to_dec(i.value).as_str());
            out.push(line);
        },
        Expr::Float(f) => {
            let mut line = String::from_str("Processing float: ");
            line.append(f.value.as_str());
            out.push(line);
        },
        Expr::String(sl) => {
            let mut line = String::from_str("Processing string: ");
            line.append(sl.value.as_str());
            out.push(line);
        },
        Expr::Identifier(id) => {
            let mut line = String::from_str("Processing identifier: ");
            line.append(id.value.as_str());
            out.push(line);
        },
        Expr::AssignmentExpr(a) => {
            let mut line = String::from_str("Processing assignment to: ");
            line.append(a.target.value.value.as_str());
            out.push(line);
            trace_into(out, &a.value);
        },
        Expr::MethodCallExpr(m) => {
            let mut line = String::from_str("Processing method call: ");
            line.append(m.method_name.value.as_str());
            out.push(line);
            trace_seq_into(out, &m.args);
        },
        Expr::PrintExpr(p) => {
            out.push(String::from_str("Processing print expression"));
            trace_into(out, &p.arg);
        },
        Expr::IfExpr(i) => {
            out.push(String::from_str("Processing if expression"));
            trace_into(out, &i.condition);
            trace_seq_into(out, &i.then_block);
            match &i.else_block {
                Some(ev) => {
                    trace_seq_into(out, ev);
                },
                None => {},
            }
        },
        Expr::RepExpr(r) => {
            out.push(String::from_str("Processing rep expression"));
            trace_into(out, &r.num_iterations);
            trace_seq_into(out, &r.body);
        },
        Expr::ListExpr(l) => {
            out.push(String::from_str("Processing list expression"));
            trace_seq_into(out, &l.elems);
        },
        Expr::BinOp(b) => {
            let mut line = String::from_str("Processing binary operation: ");
            line.append(b.op.as_str());
            out.push(line);
            trace_into(out, &b.left);
            trace_into(out, &b.right);
        },
        Expr::UnOp(u) => {
            let mut line = String::from_str("Processing unary operation: ");
            line.append(u.op.as_str());
            out.push(line);
            trace_into(out, &u.arg);
        },
        Expr::FunctionDef(f) => {
            let mut line = String::from_str("Processing function definition: ");
            line.append(f.name.value.as_str());
            out.push(line);
            let mut j: usize = 0;
            proof {
                assert(f.args@.take(0) =~= Seq::<TypedIdentifier>::empty());
                assert(param_lines(f.args@.take(0)) =~= Seq::<Seq<char>>::empty());
            }
            while j < f.args.len()
                invariant
                    j <= f.args@.len(),
                    out@.map_values(|s: String| s@) == pre + seq![
                        "Processing function definition: "@ + f.name.value@,
                    ] + param_lines(f.args@.take(j as int)),
                decreases f.args@.len() - j,
            {
                let a = &f.args[j];
                let mut pl = String::from_str("  Parameter: ");
                pl.append(a.value.value.as_str());
                pl.append(" : ");
                pl.append(type_debug_string(&a.associated_type).as_str());
                let ghost mid = out@.map_values(|s: String| s@);
                out.push(pl);
                proof {
                    assert(out@.map_values(|s: String| s@) =~= mid.push(pl@));
                    assert(f.args@.take(j as int + 1) =~= f.args@.take(j as int).push(
                        f.args@[j as int],
                    ));
                    assert(param_lines(f.args@.take(j as int + 1)) =~= param_lines(
                        f.args@.take(j as int),
                    ).push(
                        "  Parameter: "@ + f.args@[j as int].value.value@ + " : "@ + type_debug(
                            f.args@[j as int].associated_type,
                        ),
                    ));
                    assert(out@.map_values(|s: String| s@) =~= pre + seq![
                        "Processing function definition: "@ + f.name.value@,
                    ] + param_lines(f.args@.take(j as int + 1)));
                }
                j = j + 1;
            }
            proof {
                assert(f.args@.take(f.args@.len() as int) =~= f.args@);
            }
            trace_seq_into(out, &f.body);
            proof {
                assert(out@.map_values(|s: String| s@) =~= pre + trace_expr(*e));
            }
        },
        Expr::NoneExpr(_) => {
            out.push(String::from_str("Processing none expression"));
        },
        Expr::ReturnExpr(rx) => {
            out.push(String::from_str("Processing return expression"));
            trace_into(out, &rx.value);
        },
    }
    proof {
        assert(final(out)@.map_values(|s: String| s@) =~= pre + trace_expr(*e));
    }
}

/// Visits a sequence of expressions in order, appending their lines.
#[verifier::loop_isolation(false)]
fn trace_seq_into(out: &mut Vec<String>, es: &Vec<Expr>)
    ensures
        final(out)@.map_values(|s: String| s@) == old(out)@.map_values(|s: String| s@)
            + trace_exprs(es@),
    decreases es@, 0int,
{
    let ghost pre = out@.map_values(|s: String| s@);
    proof {
        assert(es@.take(0) =~= Seq::<Expr>::empty());
        assert(pre + Seq::<Seq<char>>::empty() =~= pre);
    }
    let mut i: usize = 0;
    while i < es.len()
        invariant
            i <= es@.len(),
            out@.map_values(|s: String| s@) == pre + trace_exprs(es@.take(i as int)),
        decreases es@.len() - i,
    {
        proof {
            assert(decreases_to!(es@ => es@[i as int]));
        }
        trace_into(out, &es[i]);
        proof {
            assert(es@.take(i as int + 1).drop_last() =~= es@.take(i as int));
            assert(es@.take(i as int + 1).last() == es@[i as int]);
            assert(out@.map_values(|s: String| s@) =~= pre + trace_exprs(es@.take(i as int + 1)));
        }
        i = i + 1;
    }
    proof {
        assert(es@.take(es@.len() as int) =~= es@);
    }
}

/// The diagnostic walker; holds the program it reports on.
pub struct AstProcessor {
    program: Program,
}

impl AstProcessor {
    /// The program the walker was built over.
    pub closed spec fn spec_program(&self) -> Program {
        self.program
    }

    pub fn new(program: Program) -> (r: AstProcessor)
        ensures
            r.spec_program() == program,
    {
        AstProcessor { program }
    }

    /// Walks the whole program and returns one report line per visited
    /// node, in traversal order.
    pub fn process(&self) -> (r: Vec<String>)
        ensures
            r@.map_values(|s: String| s@) == trace_program(self.spec_program()),
    {
        let mut out: Vec<String> = Vec::new();
        proof {
            assert(out@.map_values(|s: String| s@) =~= Seq::<Seq<char>>::empty());
        }
        trace_seq_into(&mut out, &self.program.expressions);
        proof {
            assert(out@.map_values(|s: String| s@) =~= trace_program(self.program));
        }
        out
    }
}

} // verus!
