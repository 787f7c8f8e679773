//! Laws of the analysis: checking is idempotent. An expression or
//! statement the checker has annotated checks again to the very same
//! verdict, and annotating it again changes nothing — the annotated
//! tree is a fixed point of the checker.

use vstd::prelude::*;
use crate::syntax_tree::{
    CastExpr, CondExpr, Expr, ExprTree, Factor, FactorValue, FuncCall, Kind, Location, Stat,
    StatType, UnaryOp, WriteStat,
};
use super::name_table::LocalVariableTable;
use super::stat_check::{
    ann_expr_list, ann_stat, ann_stat_list, spec_check_expr_list, spec_stat_check,
    spec_stat_list_check, Contex, LoopCtxV,
};
use super::type_check::{
    ann_call, ann_cast, ann_cond, ann_expr, ann_fact, ann_unary, spec_check_args, spec_check_cast,
    spec_check_cond_expr, spec_check_factor, spec_check_func_call, spec_check_unary,
    spec_type_check,
};
use super::analyze_return_stat::{spec_return_cover, spec_return_last};

verus! {

/// Every annotated expression carries a filled type slot, holding
/// exactly the kind the typing rules give it.
pub proof fn lemma_annotated_slot_filled(o: Expr, a: Expr, t: LocalVariableTable)
    requires
        ann_expr(o, a, t),
    ensures
        a.kind is Some,
        spec_type_check(o, t) == Ok::<Kind, super::semantic_error::SemanticError>(
            a.kind->Some_0,
        ),
{
}

/// Typing an annotated expression gives the verdict of its original,
/// and the annotated expression is annotated by its own typing: the
/// checker is idempotent on expressions.
pub proof fn lemma_ann_expr_idempotent(o: Expr, a: Expr, t: LocalVariableTable)
    requires
        ann_expr(o, a, t),
    ensures
        spec_type_check(a, t) == spec_type_check(o, t),
        ann_expr(a, a, t),
    decreases o, 1int,
{
    match o.expr {
        ExprTree::Node(ol, op, or) => {
            let al = a.expr->Node_0;
            let ar = a.expr->Node_2;
            lemma_ann_expr_idempotent(*ol, *al, t);
            lemma_ann_expr_idempotent(*or, *ar, t);
        },
        ExprTree::Factor(of) => {
            let af = a.expr->Factor_0;
            lemma_ann_fact_idempotent(of, af, t, o.loc);
        },
    }
}

/// The checker is idempotent on factors.
pub proof fn lemma_ann_fact_idempotent(o: Factor, a: Factor, t: LocalVariableTable, loc: Location)
    requires
        ann_fact(o, a, t, loc),
    ensures
        spec_check_factor(a, t, loc) == spec_check_factor(o, t, loc),
        ann_fact(a, a, t, loc),
    decreases o, 1int,
{
    match o.fact {
        FactorValue::Id(_) => {},
        FactorValue::Const(_) => {},
        FactorValue::HighPrecedence(e) => {
            let ae = a.fact->HighPrecedence_0;
            lemma_ann_expr_idempotent(*e, *ae, t);
        },
        FactorValue::CastExpr(c) => {
            let ac = a.fact->CastExpr_0;
            lemma_ann_cast_idempotent(c, ac, t);
            assert(spec_check_cast(ac, t, loc) == spec_check_cast(c, t, loc));
        },
        FactorValue::CondExpr(c) => {
            let ac = a.fact->CondExpr_0;
            lemma_ann_cond_idempotent(c, ac, t);
            assert(spec_check_cond_expr(ac, t, loc) == spec_check_cond_expr(c, t, loc));
        },
        FactorValue::UnaryOp(u) => {
            let au = a.fact->UnaryOp_0;
            lemma_ann_unary_idempotent(u, au, t, loc);
        },
        FactorValue::FuncCall(fc) => {
            let afc = a.fact->FuncCall_0;
            lemma_ann_call_idempotent(fc, afc, t, loc);
        },
    }
}

/// The checker is idempotent on casts.
pub proof fn lemma_ann_cast_idempotent(o: CastExpr, a: CastExpr, t: LocalVariableTable)
    requires
        ann_cast(o, a, t),
    ensures
        forall|loc: Location|
            #![trigger spec_check_cast(a, t, loc)]
            spec_check_cast(a, t, loc) == spec_check_cast(o, t, loc),
        ann_cast(a, a, t),
    decreases o, 1int,
{
    match o {
        CastExpr::Integer(e) => {
            let ae = a->Integer_0;
            lemma_ann_expr_idempotent(*e, *ae, t);
        },
        CastExpr::Real(e) => {
            let ae = a->Real_0;
            lemma_ann_expr_idempotent(*e, *ae, t);
        },
    }
}

/// The checker is idempotent on conditional expressions.
pub proof fn lemma_ann_cond_idempotent(o: CondExpr, a: CondExpr, t: LocalVariableTable)
    requires
        ann_cond(o, a, t),
    ensures
        forall|loc: Location|
            #![trigger spec_check_cond_expr(a, t, loc)]
            spec_check_cond_expr(a, t, loc) == spec_check_cond_expr(o, t, loc),
        ann_cond(a, a, t),
    decreases o, 1int,
{
    lemma_ann_expr_idempotent(*o.cond, *a.cond, t);
    lemma_ann_expr_idempotent(*o.true_stat, *a.true_stat, t);
    lemma_ann_expr_idempotent(*o.false_stat, *a.false_stat, t);
}

/// The checker is idempotent on unary operators.
pub proof fn lemma_ann_unary_idempotent(
    o: UnaryOp,
    a: UnaryOp,
    t: LocalVariableTable,
    loc: Location,
)
    requires
        ann_unary(o, a, t, loc),
    ensures
        spec_check_unary(a, t, loc) == spec_check_unary(o, t, loc),
        ann_unary(a, a, t, loc),
    decreases o, 1int,
{
    match o {
        UnaryOp::Minus(f) => {
            let af = a->Minus_0;
            lemma_ann_fact_idempotent(*f, *af, t, loc);
        },
        UnaryOp::Negate(f) => {
            let af = a->Negate_0;
            lemma_ann_fact_idempotent(*f, *af, t, loc);
        },
    }
}

/// The checker is idempotent on calls.
pub proof fn lemma_ann_call_idempotent(
    o: FuncCall,
    a: FuncCall,
    t: LocalVariableTable,
    loc: Location,
)
    requires
        ann_call(o, a, t),
    ensures
        spec_check_func_call(a, t, loc) == spec_check_func_call(o, t, loc),
        ann_call(a, a, t),
    decreases o, o.args@.len() + 2,
{
    lemma_ann_args_idempotent(o, a, 0, t, loc);
    assert forall|i: int| 0 <= i < a.args@.len() implies ann_expr(
        #[trigger] a.args@[i],
        #[trigger] a.args@[i],
        t,
    ) by {
        lemma_ann_expr_idempotent(o.args@[i], a.args@[i], t);
    }
    match super::name_table::spec_get_function(t, o.id@) {
        Some(fe) => {
            assert(spec_check_args(a, 0, fe, t, loc) == spec_check_args(o, 0, fe, t, loc));
        },
        None => {},
    }
}

/// The checker is idempotent on argument lists, from any position.
pub proof fn lemma_ann_args_idempotent(
    o: FuncCall,
    a: FuncCall,
    i: int,
    t: LocalVariableTable,
    loc: Location,
)
    requires
        ann_call(o, a, t),
    ensures
        forall|fe: super::name_table::FuncEntry|
            #![trigger spec_check_args(a, i, fe, t, loc)]
            spec_check_args(a, i, fe, t, loc) == spec_check_args(o, i, fe, t, loc),
    decreases o, o.args@.len() - i + 1,
{
    assert forall|fe: super::name_table::FuncEntry|
        #![trigger spec_check_args(a, i, fe, t, loc)]
        spec_check_args(a, i, fe, t, loc) == spec_check_args(o, i, fe, t, loc) by {
        if 0 <= i < o.args@.len() {
            lemma_ann_expr_idempotent(o.args@[i], a.args@[i], t);
            lemma_ann_args_idempotent(o, a, i + 1, t, loc);
            assert(spec_type_check(a.args@[i], t) == spec_type_check(o.args@[i], t));
            assert(spec_check_args(a, i + 1, fe, t, loc) == spec_check_args(o, i + 1, fe, t, loc));
        }
    }
}

/// Whether two block contexts agree on everything the rules read: both
/// the main body, or functions of one declared result kind.
pub open spec fn ctx_equiv<'a, 'b>(c1: Contex<'a>, c2: Contex<'b>) -> bool {
    match c1 {
        Contex::Global => c2 is Global,
        Contex::Function(f1) => c2 matches Contex::Function(f2) && f1.kind == f2.kind,
    }
}

/// The checker is idempotent on statements: the annotated copy checks
/// to the same verdict under any equally-kinded context, and is its own
/// annotation.
pub proof fn lemma_ann_stat_idempotent<'a, 'b>(
    o: Stat,
    a: Stat,
    t: LocalVariableTable,
    ctx1: Contex<'a>,
    ctx2: Contex<'b>,
    lc: LoopCtxV,
)
    requires
        ann_stat(o, a, t),
        ctx_equiv(ctx1, ctx2),
    ensures
        spec_stat_check(a, t, ctx2, lc) == spec_stat_check(o, t, ctx1, lc),
        ann_stat(a, a, t),
    decreases o, 2int,
{
    match o.stat {
        StatType::AssignStat(oa) => {
            let aa = a.stat->AssignStat_0;
            lemma_ann_expr_idempotent(oa.expr, aa.expr, t);
        },
        StatType::Break => {},
        StatType::ForStat(of) => {
            let af = a.stat->ForStat_0;
            lemma_ann_expr_idempotent(of.begin_expr, af.begin_expr, t);
            lemma_ann_expr_idempotent(of.end_expr, af.end_expr, t);
            lemma_ann_stat_list_idempotent(
                of.body@,
                af.body@,
                t,
                ctx1,
                ctx2,
                LoopCtxV { indexes: lc.indexes.push(of.id), nested: lc.nested + 1 },
                0,
            );
            assert(lc.indexes.push(of.id) =~= lc.indexes.push(af.id));
        },
        StatType::FuncCall(ofc) => {
            let afc = a.stat->FuncCall_0;
            lemma_ann_call_idempotent(ofc, afc, t, o.loc);
        },
        StatType::IfStat(oi) => {
            let ai = a.stat->IfStat_0;
            lemma_ann_expr_idempotent(oi.cond, ai.cond, t);
            lemma_ann_stat_list_idempotent(oi.if_body@, ai.if_body@, t, ctx1, ctx2, lc, 0);
            match oi.else_body {
                Some(ob) => {
                    let ab = ai.else_body->Some_0;
                    lemma_ann_stat_list_idempotent(ob@, ab@, t, ctx1, ctx2, lc, 0);
                },
                None => {},
            }
        },
        StatType::ReadStat(_) => {},
        StatType::ReturnStat(oo) => {
            match oo {
                Some(oe) => {
                    let ae = (a.stat->ReturnStat_0)->Some_0;
                    lemma_ann_expr_idempotent(oe, ae, t);
                },
                None => {},
            }
        },
        StatType::WhileStat(ow) => {
            let aw = a.stat->WhileStat_0;
            lemma_ann_expr_idempotent(ow.cond, aw.cond, t);
            lemma_ann_stat_list_idempotent(
                ow.body@,
                aw.body@,
                t,
                ctx1,
                ctx2,
                LoopCtxV { indexes: lc.indexes, nested: lc.nested + 1 },
                0,
            );
        },
        StatType::WriteStat(owr) => {
            match owr {
                WriteStat::Write(ol) => {
                    let al = (a.stat->WriteStat_0)->Write_0;
                    lemma_ann_expr_list_idempotent(ol@, al@, t, 0);
                },
                WriteStat::WriteLine(ol) => {
                    let al = (a.stat->WriteStat_0)->WriteLine_0;
                    lemma_ann_expr_list_idempotent(ol@, al@, t, 0);
                },
            }
        },
    }
}

/// The checker is idempotent on statement runs.
pub proof fn lemma_ann_stat_list_idempotent<'a, 'b>(
    o: Seq<Stat>,
    a: Seq<Stat>,
    t: LocalVariableTable,
    ctx1: Contex<'a>,
    ctx2: Contex<'b>,
    lc: LoopCtxV,
    i: int,
)
    requires
        ann_stat_list(o, a, t),
        ctx_equiv(ctx1, ctx2),
    ensures
        spec_stat_list_check(a, i, t, ctx2, lc) == spec_stat_list_check(o, i, t, ctx1, lc),
        ann_stat_list(a, a, t),
    decreases o, o.len() - i + 3,
{
    assert forall|j: int| 0 <= j < a.len() implies ann_stat(#[trigger] a[j], #[trigger] a[j], t) by {
        lemma_ann_stat_idempotent(o[j], a[j], t, ctx1, ctx2, lc);
    }
    if 0 <= i < o.len() {
        lemma_ann_stat_idempotent(o[i], a[i], t, ctx1, ctx2, lc);
        lemma_ann_stat_list_idempotent(o, a, t, ctx1, ctx2, lc, i + 1);
    }
}

/// The checker is idempotent on write lists.
pub proof fn lemma_ann_expr_list_idempotent(
    o: Seq<Expr>,
    a: Seq<Expr>,
    t: LocalVariableTable,
    i: int,
)
    requires
        ann_expr_list(o, a, t),
    ensures
        spec_check_expr_list(a, i, t) == spec_check_expr_list(o, i, t),
        ann_expr_list(a, a, t),
    decreases o, o.len() - i + 1,
{
    assert forall|j: int| 0 <= j < a.len() implies ann_expr(#[trigger] a[j], #[trigger] a[j], t) by {
        lemma_ann_expr_idempotent(o[j], a[j], t);
    }
    if 0 <= i < o.len() {
        lemma_ann_expr_idempotent(o[i], a[i], t);
        lemma_ann_expr_list_idempotent(o, a, t, i + 1);
    }
}

/// Return coverage sees only the statement shapes, which annotation
/// keeps: the annotated body is covered exactly as its original.
pub proof fn lemma_ann_return_cover(
    o: Seq<Stat>,
    a: Seq<Stat>,
    t: LocalVariableTable,
    func_loc: Location,
    kind: Kind,
)
    requires
        ann_stat_list(o, a, t),
    ensures
        spec_return_cover(a, func_loc, kind) == spec_return_cover(o, func_loc, kind),
    decreases o, 2int,
{
    if o.len() > 0 {
        lemma_ann_return_last(o.last(), a.last(), t, func_loc, kind);
    }
}

/// The last-statement rule of return coverage is shape-driven too.
pub proof fn lemma_ann_return_last(
    o: Stat,
    a: Stat,
    t: LocalVariableTable,
    func_loc: Location,
    kind: Kind,
)
    requires
        ann_stat(o, a, t),
    ensures
        spec_return_last(a, func_loc, kind) == spec_return_last(o, func_loc, kind),
    decreases o, 1int,
{
    match o.stat {
        StatType::IfStat(oi) => {
            let ai = a.stat->IfStat_0;
            match oi.else_body {
                Some(ob) => {
                    let ab = ai.else_body->Some_0;
                    lemma_ann_return_cover(oi.if_body@, ai.if_body@, t, func_loc, kind);
                    lemma_ann_return_cover(ob@, ab@, t, func_loc, kind);
                },
                None => {},
            }
        },
        _ => {},
    }
}

} // verus!
