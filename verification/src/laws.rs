//! Properties of the lowering, stated and proved over the mathematical
//! lowering functions that `generate`'s contract is written in.

use vstd::prelude::*;

use crate::ast::{Expr, ListExpr, MethodCallExpr, Program, RepExpr, Type};
use crate::codegen::{
    CompileError, lower_block, lower_program, lower_stmt, lower_top, lower_value, lower_values,
    prog_text, rep_stmts,
};
use crate::emit::{GExpr, GFun, GStmt};
use crate::names::synth_name;

verus! {

/// The outputs `generate` may produce for a program: the error the
/// lowering gives, or exactly the rendering of the lowered program.
pub open spec fn generate_outcome(p: Program, r: Result<Seq<char>, CompileError>) -> bool {
    match lower_program(p) {
        Ok(m) => r matches Ok(s) && s == prog_text(m),
        Err(er) => r matches Err(e2) && e2 == er,
    }
}

/// Determinism: the lowering is a function of the tree alone (the
/// synthetic-name counter starts at zero for every compilation), so two
/// runs over the same tree are byte-identical.
pub proof fn lemma_generate_deterministic(
    p: Program,
    r1: Result<Seq<char>, CompileError>,
    r2: Result<Seq<char>, CompileError>,
)
    requires
        generate_outcome(p, r1),
        generate_outcome(p, r2),
    ensures
        r1 == r2,
{
}

/// Evaluation order: an argument list lowers pointwise, left to right; the
/// lowered list keeps the source order and length.
pub proof fn lemma_args_in_source_order(es: Seq<Expr>)
    requires
        lower_values(es) is Ok,
    ensures
        lower_values(es)->Ok_0.len() == es.len(),
        forall|i: int|
            0 <= i < es.len() ==> lower_value(#[trigger] es[i]) == Ok::<GExpr, CompileError>(
                lower_values(es)->Ok_0[i],
            ),
    decreases es.len(),
{
    if es.len() > 0 {
        lemma_args_in_source_order(es.drop_last());
        assert forall|i: int| 0 <= i < es.len() implies lower_value(#[trigger] es[i]) == Ok::<
            GExpr,
            CompileError,
        >(lower_values(es)->Ok_0[i]) by {
            if i < es.len() - 1 {
                assert(es.drop_last()[i] == es[i]);
            } else {
                assert(es[i] == es.last());
            }
        }
    }
}

/// Evaluation order at a call: the lowered call's arguments are the source
/// arguments lowered in source order.
pub proof fn lemma_call_args_order(m: MethodCallExpr)
    requires
        lower_value(Expr::MethodCallExpr(m)) is Ok,
    ensures
        lower_value(Expr::MethodCallExpr(m))->Ok_0 matches GExpr::Call(name, gs) && name
            == m.method_name.value@ && gs.len() == m.args@.len() && (forall|i: int|
            0 <= i < m.args@.len() ==> lower_value(#[trigger] m.args@[i]) == Ok::<
                GExpr,
                CompileError,
            >(gs[i])),
{
    lemma_args_in_source_order(m.args@);
}

/// Evaluation order at a call in statement position: the emitted call
/// statement carries the source arguments lowered in source order.
pub proof fn lemma_call_stmt_order(m: MethodCallExpr, env: Seq<(Seq<char>, Type)>, ctr: nat)
    requires
        lower_stmt(Expr::MethodCallExpr(m), env, ctr) is Ok,
    ensures
        lower_values(m.args@) is Ok,
        lower_stmt(Expr::MethodCallExpr(m), env, ctr)->Ok_0.stmts == seq![
            GStmt::Call(m.method_name.value@, lower_values(m.args@)->Ok_0),
        ],
        lower_values(m.args@)->Ok_0.len() == m.args@.len(),
        forall|i: int|
            0 <= i < m.args@.len() ==> lower_value(#[trigger] m.args@[i]) == Ok::<
                GExpr,
                CompileError,
            >(lower_values(m.args@)->Ok_0[i]),
{
    lemma_args_in_source_order(m.args@);
}

/// Evaluation order at a sequence literal: the elements lower in source
/// order.
pub proof fn lemma_list_elems_order(l: ListExpr)
    requires
        lower_value(Expr::ListExpr(l)) is Ok,
    ensures
        lower_values(l.elems@) is Ok,
        lower_values(l.elems@)->Ok_0.len() == l.elems@.len(),
        forall|i: int|
            0 <= i < l.elems@.len() ==> lower_value(#[trigger] l.elems@[i]) == Ok::<
                GExpr,
                CompileError,
            >(lower_values(l.elems@)->Ok_0[i]),
{
    lemma_args_in_source_order(l.elems@);
}

/// Loop bound fixed at entry: a repetition lowers to exactly a counter
/// declaration and zeroing in the enclosing block, then one pre-tested
/// loop whose condition carries the bound lowered once, outside the loop,
/// and whose body is the lowered body statements followed by exactly one
/// counter increment. No bound-derived statement stands inside the loop.
pub proof fn lemma_rep_shape(r: RepExpr, env: Seq<(Seq<char>, Type)>, ctr: nat)
    requires
        lower_stmt(Expr::RepExpr(r), env, ctr) is Ok,
    ensures
        lower_value(*r.num_iterations) is Ok,
        lower_block(r.body@, env, ctr + 1) is Ok,
        lower_stmt(Expr::RepExpr(r), env, ctr)->Ok_0.stmts == rep_stmts(
            synth_name(ctr),
            lower_value(*r.num_iterations)->Ok_0,
            lower_block(r.body@, env, ctr + 1)->Ok_0.stmts,
        ),
        lower_stmt(Expr::RepExpr(r), env, ctr)->Ok_0.env == env,
{
}

/// The names of declarations that use the compiler's reserved underscore
/// prefix, in emission order, nested blocks included.
pub open spec fn reserved_decls(stmts: Seq<GStmt>) -> Seq<Seq<char>>
    decreases stmts,
{
    if stmts.len() == 0 {
        Seq::empty()
    } else {
        reserved_decls_one(stmts.first()) + reserved_decls(stmts.drop_first())
    }
}

/// The reserved declaration names of one statement.
pub open spec fn reserved_decls_one(s: GStmt) -> Seq<Seq<char>>
    decreases s,
{
    match s {
        GStmt::Decl(d) => if d.name.len() > 0 && d.name[0] == '_' {
            seq![d.name]
        } else {
            Seq::empty()
        },
        GStmt::If(_, t, e) => reserved_decls(t) + reserved_decls(e),
        GStmt::While(_, body) => reserved_decls(body),
        _ => Seq::empty(),
    }
}

/// A source identifier never starts with the reserved underscore.
pub open spec fn ident_ok(name: Seq<char>) -> bool {
    name.len() == 0 || name[0] != '_'
}

/// Every binding target in the expression keeps to source identifiers.
pub open spec fn expr_idents_ok(e: Expr) -> bool
    decreases e,
{
    match e {
        Expr::AssignmentExpr(a) => ident_ok(a.target.value.value@) && expr_idents_ok(*a.value),
        Expr::BinOp(b) => expr_idents_ok(*b.left) && expr_idents_ok(*b.right),
        Expr::UnOp(u) => expr_idents_ok(*u.arg),
        Expr::MethodCallExpr(m) => exprs_idents_ok(m.args@),
        Expr::ListExpr(l) => exprs_idents_ok(l.elems@),
        Expr::PrintExpr(p) => expr_idents_ok(*p.arg),
        Expr::IfExpr(i) => expr_idents_ok(*i.condition) && exprs_idents_ok(i.then_block@)
            && (match i.else_block {
            Some(ev) => exprs_idents_ok(ev@),
            None => true,
        }),
        Expr::RepExpr(r) => expr_idents_ok(*r.num_iterations) && exprs_idents_ok(r.body@),
        Expr::ReturnExpr(rx) => expr_idents_ok(*rx.value),
        Expr::FunctionDef(f) => exprs_idents_ok(f.body@),
        _ => true,
    }
}

/// Every binding target in the sequence keeps to source identifiers.
pub open spec fn exprs_idents_ok(es: Seq<Expr>) -> bool
    decreases es,
{
    if es.len() == 0 {
        true
    } else {
        expr_idents_ok(es.first()) && exprs_idents_ok(es.drop_first())
    }
}

/// A synthetic counter name whose counter lies in the range.
pub open spec fn is_synth_in(n: Seq<char>, lo: nat, hi: nat) -> bool {
    exists|c: nat| lo <= c < hi && n == #[trigger] synth_name(c)
}

/// Every name is a synthetic counter name with its counter in the range.
pub open spec fn all_synth_in(names: Seq<Seq<char>>, lo: nat, hi: nat) -> bool {
    forall|k: int| 0 <= k < names.len() ==> is_synth_in(#[trigger] names[k], lo, hi)
}

/// No two positions hold the same name.
pub open spec fn distinct_names(names: Seq<Seq<char>>) -> bool {
    forall|k1: int, k2: int|
        0 <= k1 < k2 < names.len() ==> #[trigger] names[k1] != #[trigger] names[k2]
}

/// Names drawn from disjoint counter ranges never collide.
proof fn lemma_ranges_disjoint(n1: Seq<Seq<char>>, n2: Seq<Seq<char>>, lo: nat, mid: nat, hi: nat)
    requires
        lo <= mid <= hi,
        all_synth_in(n1, lo, mid),
        all_synth_in(n2, mid, hi),
    ensures
        forall|k1: int, k2: int|
            0 <= k1 < n1.len() && 0 <= k2 < n2.len() ==> #[trigger] n1[k1] != #[trigger] n2[k2],
{
    assert forall|k1: int, k2: int|
        0 <= k1 < n1.len() && 0 <= k2 < n2.len() implies #[trigger] n1[k1] != #[trigger] n2[k2] by {
        assert(is_synth_in(n1[k1], lo, mid));
        assert(is_synth_in(n2[k2], mid, hi));
        let c1 = choose|c: nat| lo <= c < mid && n1[k1] == synth_name(c);
        let c2 = choose|c: nat| mid <= c < hi && n2[k2] == synth_name(c);
        crate::names::lemma_synth_name_injective(c1, c2);
    }
}

/// Concatenating name lists from consecutive counter ranges keeps every
/// name in range and every position distinct.
proof fn lemma_names_concat(n1: Seq<Seq<char>>, n2: Seq<Seq<char>>, lo: nat, mid: nat, hi: nat)
    requires
        lo <= mid <= hi,
        all_synth_in(n1, lo, mid),
        distinct_names(n1),
        all_synth_in(n2, mid, hi),
        distinct_names(n2),
    ensures
        all_synth_in(n1 + n2, lo, hi),
        distinct_names(n1 + n2),
{
    lemma_ranges_disjoint(n1, n2, lo, mid, hi);
    assert forall|k: int| 0 <= k < (n1 + n2).len() implies is_synth_in(
        #[trigger] (n1 + n2)[k],
        lo,
        hi,
    ) by {
        if k < n1.len() {
            assert(is_synth_in(n1[k], lo, mid));
            let c = choose|c: nat| lo <= c < mid && n1[k] == synth_name(c);
            assert((n1 + n2)[k] == synth_name(c));
        } else {
            assert(is_synth_in(n2[k - n1.len()], mid, hi));
            let c = choose|c: nat| mid <= c < hi && n2[k - n1.len()] == synth_name(c);
            assert((n1 + n2)[k] == synth_name(c));
        }
    }
    assert forall|k1: int, k2: int| 0 <= k1 < k2 < (n1 + n2).len() implies #[trigger] (n1
        + n2)[k1] != #[trigger] (n1 + n2)[k2] by {
        if k1 < n1.len() && k2 >= n1.len() {
            assert(n1[k1] != n2[k2 - n1.len()]);
        } else if k1 < n1.len() && k2 < n1.len() {
            assert(n1[k1] != n1[k2]);
        } else {
            assert(n2[k1 - n1.len()] != n2[k2 - n1.len()]);
        }
    }
}

/// The reserved names of a one-statement sequence are that statement's.
proof fn lemma_reserved_single(s: GStmt)
    ensures
        reserved_decls(seq![s]) == reserved_decls_one(s),
{
    assert(seq![s].first() == s);
    assert(seq![s].drop_first() =~= Seq::<GStmt>::empty());
    assert(reserved_decls(Seq::<GStmt>::empty()) =~= Seq::<Seq<char>>::empty());
    assert(reserved_decls_one(s) + Seq::<Seq<char>>::empty() =~= reserved_decls_one(s));
}

/// The reserved names of concatenated statements are the concatenation.
proof fn lemma_reserved_concat(s1: Seq<GStmt>, s2: Seq<GStmt>)
    ensures
        reserved_decls(s1 + s2) == reserved_decls(s1) + reserved_decls(s2),
    decreases s1.len(),
{
    if s1.len() == 0 {
        assert(s1 + s2 =~= s2);
        assert(reserved_decls(s1) =~= Seq::<Seq<char>>::empty());
        assert(reserved_decls(s1) + reserved_decls(s2) =~= reserved_decls(s2));
    } else {
        assert((s1 + s2).first() == s1.first());
        assert((s1 + s2).drop_first() =~= s1.drop_first() + s2);
        lemma_reserved_concat(s1.drop_first(), s2);
        assert(reserved_decls_one(s1.first()) + (reserved_decls(s1.drop_first())
            + reserved_decls(s2)) =~= (reserved_decls_one(s1.first()) + reserved_decls(
            s1.drop_first(),
        )) + reserved_decls(s2));
    }
}

/// The reserved names of one lowered statement sit in the counter range it
/// consumed, and are pairwise distinct.
proof fn lemma_stmt_ctrs(e: Expr, env: Seq<(Seq<char>, Type)>, ctr: nat)
    requires
        lower_stmt(e, env, ctr) is Ok,
        expr_idents_ok(e),
    ensures
        lower_stmt(e, env, ctr)->Ok_0.ctr >= ctr,
        all_synth_in(
            reserved_decls(lower_stmt(e, env, ctr)->Ok_0.stmts),
            ctr,
            lower_stmt(e, env, ctr)->Ok_0.ctr,
        ),
        distinct_names(reserved_decls(lower_stmt(e, env, ctr)->Ok_0.stmts)),
    decreases e, 1int,
{
    let l = lower_stmt(e, env, ctr)->Ok_0;
    match e {
        Expr::IfExpr(i) => {
            let c = lower_value(*i.condition)->Ok_0;
            let lt = lower_block(i.then_block@, env, ctr)->Ok_0;
            lemma_block_ctrs(i.then_block@, env, ctr);
            match i.else_block {
                None => {
                    assert(l.stmts == seq![GStmt::If(c, lt.stmts, Seq::empty())]);
                    lemma_reserved_single(GStmt::If(c, lt.stmts, Seq::empty()));
                    assert(reserved_decls(Seq::<GStmt>::empty()) =~= Seq::<Seq<char>>::empty());
                    assert(reserved_decls(l.stmts) =~= reserved_decls(lt.stmts));
                },
                Some(ev) => {
                    let le = lower_block(ev@, env, lt.ctr)->Ok_0;
                    lemma_block_ctrs(ev@, env, lt.ctr);
                    lemma_names_concat(
                        reserved_decls(lt.stmts),
                        reserved_decls(le.stmts),
                        ctr,
                        lt.ctr,
                        le.ctr,
                    );
                    assert(l.stmts == seq![GStmt::If(c, lt.stmts, le.stmts)]);
                    lemma_reserved_single(GStmt::If(c, lt.stmts, le.stmts));
                    assert(reserved_decls(l.stmts) =~= reserved_decls(lt.stmts) + reserved_decls(
                        le.stmts,
                    ));
                },
            }
        },
        Expr::RepExpr(r) => {
            let name = synth_name(ctr);
            let bound = lower_value(*r.num_iterations)->Ok_0;
            let lb = lower_block(r.body@, env, ctr + 1)->Ok_0;
            lemma_block_ctrs(r.body@, env, ctr + 1);
            let body2 = lb.stmts.push(crate::codegen::ctr_increment(name));
            assert(body2 =~= lb.stmts + seq![crate::codegen::ctr_increment(name)]);
            lemma_reserved_concat(lb.stmts, seq![crate::codegen::ctr_increment(name)]);
            lemma_reserved_single(crate::codegen::ctr_increment(name));
            assert(reserved_decls(body2) =~= reserved_decls(lb.stmts));
            crate::names::lemma_synth_name_reserved(ctr);
            let d0 = GStmt::Decl(crate::emit::GDecl { name: name, ty: crate::emit::GType::Int32 });
            let a0 = GStmt::Assign(
                crate::emit::GExpr::Var(name),
                crate::emit::GExpr::Raw("0"@),
            );
            let w0 = GStmt::While(
                crate::emit::GExpr::Bin(
                    Box::new(crate::emit::GExpr::Var(name)),
                    "<"@,
                    Box::new(bound),
                ),
                body2,
            );
            assert(l.stmts == rep_stmts(name, bound, lb.stmts));
            assert(l.stmts =~= seq![d0] + (seq![a0] + seq![w0]));
            lemma_reserved_concat(seq![d0], seq![a0] + seq![w0]);
            lemma_reserved_concat(seq![a0], seq![w0]);
            lemma_reserved_single(d0);
            lemma_reserved_single(a0);
            lemma_reserved_single(w0);
            assert(reserved_decls_one(d0) =~= seq![name]);
            assert(reserved_decls_one(a0) =~= Seq::<Seq<char>>::empty());
            assert(reserved_decls_one(w0) == reserved_decls(body2));
            assert(reserved_decls(l.stmts) =~= seq![name] + reserved_decls(lb.stmts));
            assert(all_synth_in(seq![name], ctr, ctr + 1)) by {
                assert(seq![name][0] == synth_name(ctr));
                assert(is_synth_in(seq![name][0], ctr, ctr + 1));
            }
            lemma_names_concat(
                seq![name],
                reserved_decls(lb.stmts),
                ctr,
                ctr + 1,
                lb.ctr,
            );
        },
        Expr::AssignmentExpr(a) => {
            let name = a.target.value.value@;
            let rhs = lower_value(*a.value)->Ok_0;
            match crate::codegen::env_lookup(env, name) {
                None => {
                    let d0 = GStmt::Decl(
                        crate::emit::GDecl { name: name, ty: crate::codegen::tmap(
                            a.target.associated_type,
                        ) },
                    );
                    let a0 = GStmt::Assign(crate::emit::GExpr::Var(name), rhs);
                    assert(l.stmts =~= seq![d0] + seq![a0]);
                    lemma_reserved_concat(seq![d0], seq![a0]);
                    lemma_reserved_single(d0);
                    lemma_reserved_single(a0);
                    assert(reserved_decls_one(d0) =~= Seq::<Seq<char>>::empty());
                    assert(reserved_decls(l.stmts) =~= Seq::<Seq<char>>::empty());
                },
                Some(_) => {
                    let a0 = GStmt::Assign(crate::emit::GExpr::Var(name), rhs);
                    assert(l.stmts == seq![a0]);
                    lemma_reserved_single(a0);
                    assert(reserved_decls(l.stmts) =~= Seq::<Seq<char>>::empty());
                },
            }
        },
        Expr::MethodCallExpr(m) => {
            let s0 = GStmt::Call(
                m.method_name.value@,
                crate::codegen::lower_values(m.args@)->Ok_0,
            );
            assert(l.stmts == seq![s0]);
            lemma_reserved_single(s0);
            assert(reserved_decls(l.stmts) =~= Seq::<Seq<char>>::empty());
        },
        Expr::PrintExpr(p) => {
            let s0 = crate::codegen::print_stmt(lower_value(*p.arg)->Ok_0);
            assert(l.stmts == seq![s0]);
            lemma_reserved_single(s0);
            assert(reserved_decls(l.stmts) =~= Seq::<Seq<char>>::empty());
        },
        Expr::ReturnExpr(rx) => {
            let s0 = GStmt::Return(lower_value(*rx.value)->Ok_0);
            assert(l.stmts == seq![s0]);
            lemma_reserved_single(s0);
            assert(reserved_decls(l.stmts) =~= Seq::<Seq<char>>::empty());
        },
        Expr::FunctionDef(_) => {
            let s0 = crate::codegen::unsupported_marker();
            assert(l.stmts == seq![s0]);
            lemma_reserved_single(s0);
            assert(reserved_decls(l.stmts) =~= Seq::<Seq<char>>::empty());
        },
        _ => {
            assert(l.stmts =~= Seq::<GStmt>::empty());
            assert(reserved_decls(l.stmts) =~= Seq::<Seq<char>>::empty());
        },
    }
}

/// The reserved names of one lowered block sit in the counter range it
/// consumed, and are pairwise distinct.
proof fn lemma_block_ctrs(es: Seq<Expr>, env: Seq<(Seq<char>, Type)>, ctr: nat)
    requires
        lower_block(es, env, ctr) is Ok,
        exprs_idents_ok(es),
    ensures
        lower_block(es, env, ctr)->Ok_0.ctr >= ctr,
        all_synth_in(
            reserved_decls(lower_block(es, env, ctr)->Ok_0.stmts),
            ctr,
            lower_block(es, env, ctr)->Ok_0.ctr,
        ),
        distinct_names(reserved_decls(lower_block(es, env, ctr)->Ok_0.stmts)),
    decreases es, 0int,
{
    if es.len() == 0 {
        assert(reserved_decls(Seq::<GStmt>::empty()) =~= Seq::<Seq<char>>::empty());
    } else {
        let l1 = lower_block(es.drop_last(), env, ctr)->Ok_0;
        let l2 = lower_stmt(es.last(), l1.env, l1.ctr)->Ok_0;
        lemma_exprs_idents_ok_prefix(es);
        lemma_block_ctrs(es.drop_last(), env, ctr);
        lemma_stmt_ctrs(es.last(), l1.env, l1.ctr);
        lemma_reserved_concat(l1.stmts, l2.stmts);
        lemma_names_concat(
            reserved_decls(l1.stmts),
            reserved_decls(l2.stmts),
            ctr,
            l1.ctr,
            l2.ctr,
        );
    }
}

/// A well-named expression sequence stays well named on its prefix and its
/// last element.
proof fn lemma_exprs_idents_ok_prefix(es: Seq<Expr>)
    requires
        es.len() > 0,
        exprs_idents_ok(es),
    ensures
        exprs_idents_ok(es.drop_last()),
        expr_idents_ok(es.last()),
    decreases es.len(),
{
    if es.len() == 1 {
        assert(exprs_idents_ok(es.drop_last()));
        assert(es.last() == es.first());
    } else {
        assert(exprs_idents_ok(es.drop_first()));
        lemma_exprs_idents_ok_prefix(es.drop_first());
        assert(es.drop_first().last() == es.last());
        assert(es.drop_last().first() == es.first());
        assert(es.drop_last().drop_first() =~= es.drop_first().drop_last());
        assert(exprs_idents_ok(es.drop_last()));
    }
}

/// Widening the counter range keeps every name in range.
proof fn lemma_all_synth_widen(names: Seq<Seq<char>>, lo: nat, hi: nat, lo2: nat, hi2: nat)
    requires
        lo2 <= lo <= hi <= hi2,
        all_synth_in(names, lo, hi),
    ensures
        all_synth_in(names, lo2, hi2),
{
    assert forall|k: int| 0 <= k < names.len() implies is_synth_in(
        #[trigger] names[k],
        lo2,
        hi2,
    ) by {
        assert(is_synth_in(names[k], lo, hi));
        let c = choose|c: nat| lo <= c < hi && names[k] == synth_name(c);
        assert(lo2 <= c < hi2 && names[k] == synth_name(c));
    }
}

/// No name of the first list appears in the second.
pub open spec fn names_disjoint(a: Seq<Seq<char>>, b: Seq<Seq<char>>) -> bool {
    forall|k1: int, k2: int|
        0 <= k1 < a.len() && 0 <= k2 < b.len() ==> #[trigger] a[k1] != #[trigger] b[k2]
}

/// Distinct, mutually disjoint lists concatenate to a distinct list.
proof fn lemma_distinct_concat(a: Seq<Seq<char>>, b: Seq<Seq<char>>)
    requires
        distinct_names(a),
        distinct_names(b),
        names_disjoint(a, b),
    ensures
        distinct_names(a + b),
{
    assert forall|k1: int, k2: int| 0 <= k1 < k2 < (a + b).len() implies #[trigger] (a + b)[k1]
        != #[trigger] (a + b)[k2] by {
        if k1 < a.len() && k2 >= a.len() {
            assert(a[k1] != b[k2 - a.len()]);
        } else if k1 < a.len() && k2 < a.len() {
            assert(a[k1] != a[k2]);
        } else {
            assert(b[k1 - a.len()] != b[k2 - a.len()]);
        }
    }
}

/// The reserved names of the bodies of registered functions, in order.
pub open spec fn funs_reserved(fs: Seq<GFun>) -> Seq<Seq<char>>
    decreases fs.len(),
{
    if fs.len() == 0 {
        Seq::empty()
    } else {
        funs_reserved(fs.drop_last()) + reserved_decls(fs.last().body)
    }
}

/// Appending one function appends its body's reserved names.
proof fn lemma_funs_reserved_push(fs: Seq<GFun>, f: GFun)
    ensures
        funs_reserved(fs.push(f)) == funs_reserved(fs) + reserved_decls(f.body),
{
    assert(fs.push(f).drop_last() =~= fs);
    assert(fs.push(f).last() == f);
}

/// What the whole top-level lowering guarantees of its counters: every
/// reserved name, in the entry statements and in every registered
/// function's body, is a synthetic counter name from the consumed range,
/// each list is internally distinct, and the two lists never collide.
proof fn lemma_top_ctrs(es: Seq<Expr>, env: Seq<(Seq<char>, Type)>, ctr: nat)
    requires
        lower_top(es, env, ctr) is Ok,
        exprs_idents_ok(es),
    ensures
        lower_top(es, env, ctr)->Ok_0.ctr >= ctr,
        all_synth_in(
            reserved_decls(lower_top(es, env, ctr)->Ok_0.main_stmts),
            ctr,
            lower_top(es, env, ctr)->Ok_0.ctr,
        ),
        distinct_names(reserved_decls(lower_top(es, env, ctr)->Ok_0.main_stmts)),
        all_synth_in(
            funs_reserved(lower_top(es, env, ctr)->Ok_0.funs),
            ctr,
            lower_top(es, env, ctr)->Ok_0.ctr,
        ),
        distinct_names(funs_reserved(lower_top(es, env, ctr)->Ok_0.funs)),
        names_disjoint(
            reserved_decls(lower_top(es, env, ctr)->Ok_0.main_stmts),
            funs_reserved(lower_top(es, env, ctr)->Ok_0.funs),
        ),
    decreases es.len(),
{
    if es.len() == 0 {
        assert(reserved_decls(Seq::<GStmt>::empty()) =~= Seq::<Seq<char>>::empty());
        assert(funs_reserved(Seq::<GFun>::empty()) =~= Seq::<Seq<char>>::empty());
    } else {
        let t1 = lower_top(es.drop_last(), env, ctr)->Ok_0;
        let t = lower_top(es, env, ctr)->Ok_0;
        lemma_exprs_idents_ok_prefix(es);
        lemma_top_ctrs(es.drop_last(), env, ctr);
        let m1 = reserved_decls(t1.main_stmts);
        let f1 = funs_reserved(t1.funs);
        match es.last() {
            Expr::FunctionDef(f) => {
                if f.name.value@ == "main"@ {
                    let lb = lower_block(f.body@, t1.env, t1.ctr)->Ok_0;
                    lemma_block_ctrs(f.body@, t1.env, t1.ctr);
                    let d = reserved_decls(lb.stmts);
                    lemma_reserved_concat(t1.main_stmts, lb.stmts);
                    lemma_names_concat(m1, d, ctr, t1.ctr, lb.ctr);
                    lemma_all_synth_widen(f1, ctr, t1.ctr, ctr, lb.ctr);
                    assert forall|k1: int, k2: int|
                        0 <= k1 < (m1 + d).len() && 0 <= k2 < f1.len() implies #[trigger] (m1
                        + d)[k1] != #[trigger] f1[k2] by {
                        if k1 < m1.len() {
                            assert(m1[k1] != f1[k2]);
                        } else {
                            assert(is_synth_in(d[k1 - m1.len()], t1.ctr, lb.ctr));
                            assert(is_synth_in(f1[k2], ctr, t1.ctr));
                            let c1 = choose|c: nat|
                                t1.ctr <= c < lb.ctr && d[k1 - m1.len()] == synth_name(c);
                            let c2 = choose|c: nat| ctr <= c < t1.ctr && f1[k2] == synth_name(c);
                            crate::names::lemma_synth_name_injective(c1, c2);
                        }
                    }
                } else {
                    let lb = lower_block(f.body@, crate::codegen::param_env(f.args@), t1.ctr)->Ok_0;
                    lemma_block_ctrs(f.body@, crate::codegen::param_env(f.args@), t1.ctr);
                    let d = reserved_decls(lb.stmts);
                    let gf = crate::emit::GFun {
                        name: f.name.value@,
                        ret: crate::emit::GType::Void,
                        params: crate::codegen::fun_params(f.args@),
                        body: lb.stmts,
                    };
                    lemma_funs_reserved_push(t1.funs, gf);
                    lemma_names_concat(f1, d, ctr, t1.ctr, lb.ctr);
                    lemma_all_synth_widen(m1, ctr, t1.ctr, ctr, lb.ctr);
                    assert forall|k1: int, k2: int|
                        0 <= k1 < m1.len() && 0 <= k2 < (f1 + d).len() implies #[trigger] m1[k1]
                        != #[trigger] (f1 + d)[k2] by {
                        if k2 < f1.len() {
                            assert(m1[k1] != f1[k2]);
                        } else {
                            assert(is_synth_in(m1[k1], ctr, t1.ctr));
                            assert(is_synth_in(d[k2 - f1.len()], t1.ctr, lb.ctr));
                            let c1 = choose|c: nat| ctr <= c < t1.ctr && m1[k1] == synth_name(c);
                            let c2 = choose|c: nat|
                                t1.ctr <= c < lb.ctr && d[k2 - f1.len()] == synth_name(c);
                            crate::names::lemma_synth_name_injective(c1, c2);
                        }
                    }
                }
            },
            _ => {
                let l = lower_stmt(es.last(), t1.env, t1.ctr)->Ok_0;
                lemma_stmt_ctrs(es.last(), t1.env, t1.ctr);
                let d = reserved_decls(l.stmts);
                lemma_reserved_concat(t1.main_stmts, l.stmts);
                lemma_names_concat(m1, d, ctr, t1.ctr, l.ctr);
                lemma_all_synth_widen(f1, ctr, t1.ctr, ctr, l.ctr);
                assert forall|k1: int, k2: int|
                    0 <= k1 < (m1 + d).len() && 0 <= k2 < f1.len() implies #[trigger] (m1
                    + d)[k1] != #[trigger] f1[k2] by {
                    if k1 < m1.len() {
                        assert(m1[k1] != f1[k2]);
                    } else {
                        assert(is_synth_in(d[k1 - m1.len()], t1.ctr, l.ctr));
                        assert(is_synth_in(f1[k2], ctr, t1.ctr));
                        let c1 = choose|c: nat|
                            t1.ctr <= c < l.ctr && d[k1 - m1.len()] == synth_name(c);
                        let c2 = choose|c: nat| ctr <= c < t1.ctr && f1[k2] == synth_name(c);
                        crate::names::lemma_synth_name_injective(c1, c2);
                    }
                }
            },
        }
    }
}

/// Uniqueness: in a compiled program where source identifiers keep to
/// their own alphabet (never starting with the reserved underscore), no
/// two reserved counter declarations anywhere in the output, sibling or
/// nested, entry function or registered function, share a name.
pub proof fn lemma_synthetic_counters_unique(p: Program)
    requires
        lower_program(p) is Ok,
        exprs_idents_ok(p.expressions@),
    ensures
        distinct_names(funs_reserved(lower_program(p)->Ok_0.funs)),
{
    let t = crate::codegen::lower_top(p.expressions@, Seq::empty(), 0)->Ok_0;
    lemma_top_ctrs(p.expressions@, Seq::empty(), 0);
    let m = lower_program(p)->Ok_0;
    let entry = m.funs[0];
    assert(m.funs =~= seq![entry] + t.funs);
    lemma_funs_reserved_concat(seq![entry], t.funs);
    assert(seq![entry].drop_last() =~= Seq::<GFun>::empty());
    assert(funs_reserved(Seq::<GFun>::empty()) =~= Seq::<Seq<char>>::empty());
    assert(funs_reserved(seq![entry]) =~= reserved_decls(entry.body));
    assert(entry.body == crate::codegen::entry_body(t.main_stmts));
    if t.main_stmts.len() == 0 {
        assert(entry.body == seq![GStmt::Blank]);
        lemma_reserved_single(GStmt::Blank);
        assert(reserved_decls(entry.body) =~= Seq::<Seq<char>>::empty());
        assert(reserved_decls(t.main_stmts) =~= Seq::<Seq<char>>::empty());
    }
    assert(reserved_decls(entry.body) == reserved_decls(t.main_stmts));
    lemma_distinct_concat(reserved_decls(t.main_stmts), funs_reserved(t.funs));
    assert(funs_reserved(m.funs) =~= reserved_decls(t.main_stmts) + funs_reserved(t.funs));
}

/// The reserved names of concatenated function lists concatenate.
proof fn lemma_funs_reserved_concat(a: Seq<GFun>, b: Seq<GFun>)
    ensures
        funs_reserved(a + b) == funs_reserved(a) + funs_reserved(b),
    decreases b.len(),
{
    if b.len() == 0 {
        assert(a + b =~= a);
        assert(funs_reserved(b) =~= Seq::<Seq<char>>::empty());
        assert(funs_reserved(a) + funs_reserved(b) =~= funs_reserved(a));
    } else {
        assert((a + b).drop_last() =~= a + b.drop_last());
        assert((a + b).last() == b.last());
        lemma_funs_reserved_concat(a, b.drop_last());
        assert((funs_reserved(a) + funs_reserved(b.drop_last())) + reserved_decls(b.last().body)
            =~= funs_reserved(a) + (funs_reserved(b.drop_last()) + reserved_decls(b.last().body)));
    }
}

/// The declared-name set after one statement: a declaration adds its name.
pub open spec fn declared_after(s: GStmt, declared: Set<Seq<char>>) -> Set<Seq<char>> {
    match s {
        GStmt::Decl(d) => declared.insert(d.name),
        _ => declared,
    }
}

/// The declared-name set after a statement sequence.
pub open spec fn declared_after_stmts(stmts: Seq<GStmt>, declared: Set<Seq<char>>) -> Set<
    Seq<char>,
>
    decreases stmts,
{
    if stmts.len() == 0 {
        declared
    } else {
        declared_after_stmts(stmts.drop_first(), declared_after(stmts.first(), declared))
    }
}

/// Walking the statements left to right with the names declared so far
/// (enclosing blocks included): every assignment to a variable goes to a
/// name whose declaration already stands before it.
pub open spec fn assigns_after_decls(stmts: Seq<GStmt>, declared: Set<Seq<char>>) -> bool
    decreases stmts,
{
    if stmts.len() == 0 {
        true
    } else {
        assigns_after_decls_one(stmts.first(), declared) && assigns_after_decls(
            stmts.drop_first(),
            declared_after(stmts.first(), declared),
        )
    }
}

/// Whether one statement only assigns to already-declared names; nested
/// blocks see the enclosing declarations.
pub open spec fn assigns_after_decls_one(s: GStmt, declared: Set<Seq<char>>) -> bool
    decreases s,
{
    match s {
        GStmt::Assign(lhs, _) => match lhs {
            GExpr::Var(n) => declared.contains(n),
            _ => true,
        },
        GStmt::If(_, t, e) => assigns_after_decls(t, declared) && assigns_after_decls(e, declared),
        GStmt::While(_, b) => assigns_after_decls(b, declared),
        _ => true,
    }
}

/// Walking only inserts names.
proof fn lemma_declared_grows(stmts: Seq<GStmt>, declared: Set<Seq<char>>)
    ensures
        declared.subset_of(declared_after_stmts(stmts, declared)),
    decreases stmts,
{
    if stmts.len() > 0 {
        lemma_declared_grows(stmts.drop_first(), declared_after(stmts.first(), declared));
    }
}

/// A larger starting set keeps the walk satisfied.
proof fn lemma_aad_mono(stmts: Seq<GStmt>, d1: Set<Seq<char>>, d2: Set<Seq<char>>)
    requires
        assigns_after_decls(stmts, d1),
        d1.subset_of(d2),
    ensures
        assigns_after_decls(stmts, d2),
    decreases stmts, 1int,
{
    if stmts.len() > 0 {
        lemma_aad_one_mono(stmts.first(), d1, d2);
        assert(declared_after(stmts.first(), d1).subset_of(declared_after(stmts.first(), d2)));
        lemma_aad_mono(
            stmts.drop_first(),
            declared_after(stmts.first(), d1),
            declared_after(stmts.first(), d2),
        );
    }
}

/// A larger declared set keeps one statement satisfied.
proof fn lemma_aad_one_mono(s: GStmt, d1: Set<Seq<char>>, d2: Set<Seq<char>>)
    requires
        assigns_after_decls_one(s, d1),
        d1.subset_of(d2),
    ensures
        assigns_after_decls_one(s, d2),
    decreases s, 2int,
{
    match s {
        GStmt::If(_, t, e) => {
            lemma_aad_mono(t, d1, d2);
            lemma_aad_mono(e, d1, d2);
        },
        GStmt::While(_, b) => {
            lemma_aad_mono(b, d1, d2);
        },
        _ => {},
    }
}

/// Concatenation walks the first part, then the second from the first's
/// final set.
proof fn lemma_aad_concat(s1: Seq<GStmt>, s2: Seq<GStmt>, declared: Set<Seq<char>>)
    requires
        assigns_after_decls(s1, declared),
        assigns_after_decls(s2, declared_after_stmts(s1, declared)),
    ensures
        assigns_after_decls(s1 + s2, declared),
        declared_after_stmts(s1 + s2, declared) == declared_after_stmts(
            s2,
            declared_after_stmts(s1, declared),
        ),
    decreases s1.len(),
{
    if s1.len() == 0 {
        assert(s1 + s2 =~= s2);
    } else {
        assert((s1 + s2).first() == s1.first());
        assert((s1 + s2).drop_first() =~= s1.drop_first() + s2);
        lemma_aad_concat(s1.drop_first(), s2, declared_after(s1.first(), declared));
    }
}

/// A single statement walks as itself.
proof fn lemma_aad_single(s: GStmt, declared: Set<Seq<char>>)
    ensures
        assigns_after_decls(seq![s], declared) == assigns_after_decls_one(s, declared),
        declared_after_stmts(seq![s], declared) == declared_after(s, declared),
{
    assert(seq![s].len() == 1);
    assert(seq![s].first() == s);
    assert(seq![s].drop_first() =~= Seq::<GStmt>::empty());
    assert(assigns_after_decls(Seq::<GStmt>::empty(), declared_after(s, declared)));
    assert(declared_after_stmts(Seq::<GStmt>::empty(), declared_after(s, declared))
        == declared_after(s, declared));
}

/// A name the bindings know is a name that was pushed.
proof fn lemma_env_lookup_names(env: Seq<(Seq<char>, Type)>, n: Seq<char>)
    requires
        crate::codegen::env_lookup(env, n) is Some,
    ensures
        exists|k: int| 0 <= k < env.len() && #[trigger] env[k].0 == n,
    decreases env.len(),
{
    if env.len() > 0 {
        if env.last().0 == n {
            assert(env[env.len() - 1].0 == n);
        } else {
            lemma_env_lookup_names(env.drop_last(), n);
            let k = choose|k: int| 0 <= k < env.drop_last().len() && #[trigger] env.drop_last()[k].0 == n;
            assert(env[k].0 == n);
        }
    }
}

/// One lowered statement only assigns to declared names, given the names
/// the bindings know are declared; and afterwards the bindings still only
/// know declared names.
proof fn lemma_stmt_scoped(e: Expr, env: Seq<(Seq<char>, Type)>, ctr: nat, declared: Set<Seq<char>>)
    requires
        lower_stmt(e, env, ctr) is Ok,
        forall|n: Seq<char>|
            crate::codegen::env_lookup(env, n) is Some ==> #[trigger] declared.contains(n),
    ensures
        assigns_after_decls(lower_stmt(e, env, ctr)->Ok_0.stmts, declared),
        forall|n: Seq<char>|
            crate::codegen::env_lookup(lower_stmt(e, env, ctr)->Ok_0.env, n) is Some
                ==> #[trigger] declared_after_stmts(
                lower_stmt(e, env, ctr)->Ok_0.stmts,
                declared,
            ).contains(n),
    decreases e, 1int,
{
    let l = lower_stmt(e, env, ctr)->Ok_0;
    match e {
        Expr::AssignmentExpr(a) => {
            let name = a.target.value.value@;
            let rhs = lower_value(*a.value)->Ok_0;
            match crate::codegen::env_lookup(env, name) {
                None => {
                    let d0 = GStmt::Decl(
                        crate::emit::GDecl { name: name, ty: crate::codegen::tmap(
                            a.target.associated_type,
                        ) },
                    );
                    let a0 = GStmt::Assign(crate::emit::GExpr::Var(name), rhs);
                    assert(l.stmts =~= seq![d0] + seq![a0]);
                    lemma_aad_single(d0, declared);
                    lemma_aad_single(a0, declared.insert(name));
                    lemma_aad_concat(seq![d0], seq![a0], declared);
                    assert(declared_after_stmts(l.stmts, declared) == declared.insert(name));
                    assert forall|n: Seq<char>|
                        crate::codegen::env_lookup(l.env, n) is Some implies #[trigger] declared_after_stmts(
                        l.stmts,
                        declared,
                    ).contains(n) by {
                        assert(l.env.last() == (name, a.target.associated_type));
                        assert(l.env.drop_last() =~= env);
                        if n != name {
                            assert(crate::codegen::env_lookup(env, n) is Some);
                        }
                    }
                },
                Some(_) => {
                    let a0 = GStmt::Assign(crate::emit::GExpr::Var(name), rhs);
                    assert(l.stmts == seq![a0]);
                    lemma_aad_single(a0, declared);
                },
            }
        },
        Expr::IfExpr(i) => {
            let c = lower_value(*i.condition)->Ok_0;
            let lt = lower_block(i.then_block@, env, ctr)->Ok_0;
            lemma_block_scoped(i.then_block@, env, ctr, declared);
            match i.else_block {
                None => {
                    let s0 = GStmt::If(c, lt.stmts, Seq::empty());
                    assert(l.stmts == seq![s0]);
                    lemma_aad_single(s0, declared);
                    assert(assigns_after_decls(Seq::<GStmt>::empty(), declared));
                },
                Some(ev) => {
                    let le = lower_block(ev@, env, lt.ctr)->Ok_0;
                    lemma_block_scoped(ev@, env, lt.ctr, declared);
                    let s0 = GStmt::If(c, lt.stmts, le.stmts);
                    assert(l.stmts == seq![s0]);
                    lemma_aad_single(s0, declared);
                },
            }
        },
        Expr::RepExpr(r) => {
            let name = synth_name(ctr);
            let bound = lower_value(*r.num_iterations)->Ok_0;
            let lb = lower_block(r.body@, env, ctr + 1)->Ok_0;
            lemma_block_scoped(r.body@, env, ctr + 1, declared);
            let d2 = declared.insert(name);
            lemma_aad_mono(lb.stmts, declared, d2);
            let incr = crate::codegen::ctr_increment(name);
            let body2 = lb.stmts.push(incr);
            assert(body2 =~= lb.stmts + seq![incr]);
            lemma_declared_grows(lb.stmts, d2);
            lemma_aad_single(incr, declared_after_stmts(lb.stmts, d2));
            assert(assigns_after_decls_one(incr, declared_after_stmts(lb.stmts, d2)));
            lemma_aad_concat(lb.stmts, seq![incr], d2);
            assert(assigns_after_decls(body2, d2));
            let d0 = GStmt::Decl(crate::emit::GDecl { name: name, ty: crate::emit::GType::Int32 });
            let a0 = GStmt::Assign(crate::emit::GExpr::Var(name), crate::emit::GExpr::Raw("0"@));
            let w0 = GStmt::While(
                crate::emit::GExpr::Bin(
                    Box::new(crate::emit::GExpr::Var(name)),
                    "<"@,
                    Box::new(bound),
                ),
                body2,
            );
            assert(l.stmts == crate::codegen::rep_stmts(name, bound, lb.stmts));
            assert(l.stmts =~= seq![d0] + (seq![a0] + seq![w0]));
            lemma_aad_single(d0, declared);
            lemma_aad_single(a0, d2);
            lemma_aad_single(w0, d2);
            lemma_aad_concat(seq![a0], seq![w0], d2);
            lemma_aad_concat(seq![d0], seq![a0] + seq![w0], declared);
            assert(declared_after_stmts(l.stmts, declared) == d2);
            assert forall|n: Seq<char>|
                crate::codegen::env_lookup(l.env, n) is Some implies #[trigger] declared_after_stmts(
                l.stmts,
                declared,
            ).contains(n) by {}
        },
        _ => {
            if l.stmts.len() == 1 {
                lemma_aad_single(l.stmts[0], declared);
            } else {
                assert(l.stmts =~= Seq::<GStmt>::empty());
            }
        },
    }
}

/// A lowered block only assigns to declared names, and its final bindings
/// only know names declared by then.
proof fn lemma_block_scoped(
    es: Seq<Expr>,
    env: Seq<(Seq<char>, Type)>,
    ctr: nat,
    declared: Set<Seq<char>>,
)
    requires
        lower_block(es, env, ctr) is Ok,
        forall|n: Seq<char>|
            crate::codegen::env_lookup(env, n) is Some ==> #[trigger] declared.contains(n),
    ensures
        assigns_after_decls(lower_block(es, env, ctr)->Ok_0.stmts, declared),
        forall|n: Seq<char>|
            crate::codegen::env_lookup(lower_block(es, env, ctr)->Ok_0.env, n) is Some
                ==> #[trigger] declared_after_stmts(
                lower_block(es, env, ctr)->Ok_0.stmts,
                declared,
            ).contains(n),
    decreases es, 0int,
{
    if es.len() == 0 {
    } else {
        let l1 = lower_block(es.drop_last(), env, ctr)->Ok_0;
        let l2 = lower_stmt(es.last(), l1.env, l1.ctr)->Ok_0;
        lemma_block_scoped(es.drop_last(), env, ctr, declared);
        lemma_stmt_scoped(es.last(), l1.env, l1.ctr, declared_after_stmts(l1.stmts, declared));
        lemma_aad_concat(l1.stmts, l2.stmts, declared);
    }
}

/// The names a function's parameters declare.
pub open spec fn param_names(params: Seq<crate::emit::GDecl>) -> Set<Seq<char>> {
    Set::new(|n: Seq<char>| exists|k: int| 0 <= k < params.len() && #[trigger] params[k].name == n)
}

/// Declare-before-use: in a compiled program, every assignment the code
/// generator emits to a variable stands after that variable's declaration,
/// in the same or an enclosing emitted block; in a registered function the
/// parameters count as declared.
pub proof fn lemma_declarations_precede_assignments(p: Program)
    requires
        lower_program(p) is Ok,
    ensures
        forall|fi: int|
            0 <= fi < lower_program(p)->Ok_0.funs.len() ==> assigns_after_decls(
                #[trigger] lower_program(p)->Ok_0.funs[fi].body,
                param_names(lower_program(p)->Ok_0.funs[fi].params),
            ),
{
    let t = lower_top(p.expressions@, Seq::empty(), 0)->Ok_0;
    let m = lower_program(p)->Ok_0;
    lemma_top_scoped(p.expressions@, 0);
    assert forall|fi: int| 0 <= fi < m.funs.len() implies assigns_after_decls(
        #[trigger] m.funs[fi].body,
        param_names(m.funs[fi].params),
    ) by {
        if fi == 0 {
            assert(m.funs[0].body == crate::codegen::entry_body(t.main_stmts));
            if t.main_stmts.len() == 0 {
                lemma_aad_single(GStmt::Blank, param_names(m.funs[0].params));
            } else {
                lemma_aad_mono(t.main_stmts, Set::empty(), param_names(m.funs[0].params));
            }
        } else {
            assert(m.funs[fi] == t.funs[fi - 1]);
            lemma_aad_mono(
                t.funs[fi - 1].body,
                param_names(t.funs[fi - 1].params),
                param_names(m.funs[fi].params),
            );
        }
    }
}

/// Every function the top-level lowering registers, and the entry
/// statements, assign only to names declared before the assignment. The
/// top level starts with no bindings.
proof fn lemma_top_scoped(es: Seq<Expr>, ctr: nat)
    requires
        lower_top(es, Seq::empty(), ctr) is Ok,
    ensures
        assigns_after_decls(lower_top(es, Seq::empty(), ctr)->Ok_0.main_stmts, Set::empty()),
        forall|n: Seq<char>|
            crate::codegen::env_lookup(lower_top(es, Seq::empty(), ctr)->Ok_0.env, n) is Some
                ==> #[trigger] declared_after_stmts(
                lower_top(es, Seq::empty(), ctr)->Ok_0.main_stmts,
                Set::empty(),
            ).contains(n),
        forall|fi: int|
            0 <= fi < lower_top(es, Seq::empty(), ctr)->Ok_0.funs.len() ==> assigns_after_decls(
                #[trigger] lower_top(es, Seq::empty(), ctr)->Ok_0.funs[fi].body,
                param_names(lower_top(es, Seq::empty(), ctr)->Ok_0.funs[fi].params),
            ),
    decreases es.len(),
{
    let t = lower_top(es, Seq::empty(), ctr)->Ok_0;
    if es.len() == 0 {
        assert(assigns_after_decls(Seq::<GStmt>::empty(), Set::empty()));
    } else {
        let t1 = lower_top(es.drop_last(), Seq::empty(), ctr)->Ok_0;
        lemma_top_scoped(es.drop_last(), ctr);
        let d1 = declared_after_stmts(t1.main_stmts, Set::empty());
        match es.last() {
            Expr::FunctionDef(f) => {
                if f.name.value@ == "main"@ {
                    let lb = lower_block(f.body@, t1.env, t1.ctr)->Ok_0;
                    lemma_block_scoped(f.body@, t1.env, t1.ctr, d1);
                    lemma_aad_concat(t1.main_stmts, lb.stmts, Set::empty());
                    assert(t.main_stmts == t1.main_stmts + lb.stmts);
                    assert(t.funs == t1.funs);
                } else {
                    let penv = crate::codegen::param_env(f.args@);
                    let pset = param_names(crate::codegen::fun_params(f.args@));
                    assert forall|n: Seq<char>|
                        crate::codegen::env_lookup(penv, n) is Some implies #[trigger] pset.contains(
                        n,
                    ) by {
                        lemma_env_lookup_names(penv, n);
                        let k = choose|k: int| 0 <= k < penv.len() && #[trigger] penv[k].0 == n;
                        assert(crate::codegen::fun_params(f.args@)[k].name == n);
                    }
                    let lb = lower_block(f.body@, penv, t1.ctr)->Ok_0;
                    lemma_block_scoped(f.body@, penv, t1.ctr, pset);
                    let gf = crate::emit::GFun {
                        name: f.name.value@,
                        ret: crate::emit::GType::Void,
                        params: crate::codegen::fun_params(f.args@),
                        body: lb.stmts,
                    };
                    assert(t.funs == t1.funs.push(gf));
                    assert forall|fi: int| 0 <= fi < t.funs.len() implies assigns_after_decls(
                        #[trigger] t.funs[fi].body,
                        param_names(t.funs[fi].params),
                    ) by {
                        if fi < t1.funs.len() {
                            assert(t.funs[fi] == t1.funs[fi]);
                        } else {
                            assert(t.funs[fi] == gf);
                        }
                    }
                }
            },
            _ => {
                let l = lower_stmt(es.last(), t1.env, t1.ctr)->Ok_0;
                lemma_stmt_scoped(es.last(), t1.env, t1.ctr, d1);
                lemma_aad_concat(t1.main_stmts, l.stmts, Set::empty());
                assert(t.main_stmts == t1.main_stmts + l.stmts);
            },
        }
    }
}

} // verus!
