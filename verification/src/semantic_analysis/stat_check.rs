//! The statement checker. It validates assignments, loop nesting,
//! `break` legality, the read-only discipline of `for` counters,
//! `return` placement, and conditions, while rebuilding each statement
//! with every contained expression annotated.

use vstd::prelude::*;
use crate::syntax_tree::{
    AssignStat, Expr, ForStat, FuncDecl, IdList, IfStat, Kind, Location, Stat, StatList, StatType,
    WhileStat, WriteStat,
};
use super::name_table::{spec_get_variable, LocalVariableTable};
use super::semantic_error::{
    ForLoopError, MismatchedAssignment, NonBooleanCondition, ReturnError, SemanticError,
};
use super::type_check::{
    ann_call, ann_expr, function_call_check, spec_check_func_call, spec_type_check, type_check,
};

verus! {

/// Whether a statement stands in the main body or in a function.
pub enum Contex<'a> {
    Global,
    Function(&'a FuncDecl),
}

/// The outcome of a loop-context test.
pub enum CheckStatus {
    Success,
    Failure,
}

/// The loop context as the specifications see it: the active `for`
/// counters, and how many loops enclose the current statement.
pub ghost struct LoopCtxV {
    pub indexes: Seq<String>,
    pub nested: nat,
}

/// Whether `name` is an active `for` counter.
pub open spec fn lc_contains(lc: LoopCtxV, name: Seq<char>) -> bool {
    exists|i: int| 0 <= i < lc.indexes.len() && lc.indexes[i]@ == name
}

/// The loop context carried during a statement walk: the names of the
/// active `for` counters, and one entry per enclosing loop (`true` for
/// a `for`, `false` for a `while`).
pub struct LoopContext {
    pub indexes: Vec<String>,
    pub loops: Vec<bool>,
}

impl View for LoopContext {
    type V = LoopCtxV;

    open spec fn view(&self) -> LoopCtxV {
        LoopCtxV { indexes: self.indexes@, nested: self.loops@.len() }
    }
}

impl LoopContext {
    /// A context with no enclosing loop and no active counter.
    pub fn new() -> (r: Self)
        ensures
            r@.indexes =~= Seq::<String>::empty(),
            r@.nested == 0,
    {
        Self { indexes: Vec::new(), loops: Vec::new() }
    }

    /// How many loops enclose the current statement.
    pub fn nested_loops(&self) -> (r: usize)
        ensures
            r == self@.nested,
    {
        self.loops.len()
    }

    /// Is `name` an active `for` counter?
    fn contains_index(&self, name: &String) -> (r: bool)
        ensures
            r == lc_contains(self@, name@),
    {
        let n = self.indexes.len();
        for i in 0..n
            invariant
                n == self.indexes@.len(),
                forall|j: int| 0 <= j < i ==> self.indexes@[j]@ != name@,
        {
            if self.indexes[i].eq(name) {
                proof {
                    assert(self@.indexes[i as int]@ == name@);
                }
                return true;
            }
        }
        false
    }

    /// Enter a `for` loop: refused if its counter is already active;
    /// otherwise the counter becomes active and the nesting deepens.
    pub fn enter_for_loop(&mut self, index: &String) -> (r: CheckStatus)
        ensures
            lc_contains(old(self)@, index@) ==> r is Failure && *final (self) == *old(self),
            !lc_contains(old(self)@, index@) ==> r is Success && final (self)@.indexes == old(
                self,
            )@.indexes.push(*index) && final (self)@.nested == old(self)@.nested + 1,
    {
        if self.contains_index(index) {
            CheckStatus::Failure
        } else {
            self.loops.push(true);
            self.indexes.push(index.clone());
            CheckStatus::Success
        }
    }

    /// Leave a `for` loop: the counter becomes inactive again.
    pub fn exit_for_loop(&mut self, index: &String)
        requires
            old(self)@.nested > 0,
            old(self)@.indexes.len() > 0,
            old(self)@.indexes[old(self)@.indexes.len() - 1] == *index,
        ensures
            final (self)@.indexes == old(self)@.indexes.drop_last(),
            final (self)@.nested == old(self)@.nested - 1,
    {
        let _ = self.loops.pop();
        let _ = self.indexes.pop();
    }

    /// Enter a `while` loop: only the nesting deepens.
    pub fn enter_while_loop(&mut self)
        ensures
            final (self)@.indexes == old(self)@.indexes,
            final (self)@.nested == old(self)@.nested + 1,
    {
        self.loops.push(false);
    }

    /// Leave a `while` loop.
    pub fn exit_while_loop(&mut self)
        requires
            old(self)@.nested > 0,
        ensures
            final (self)@.indexes == old(self)@.indexes,
            final (self)@.nested == old(self)@.nested - 1,
    {
        let _ = self.loops.pop();
    }

    /// May `var_name` be assigned to (or read into) here? Not if it is
    /// an active `for` counter.
    pub fn check_assign(&self, var_name: &String) -> (r: CheckStatus)
        ensures
            (self@.nested > 0 && lc_contains(self@, var_name@)) <==> r is Failure,
    {
        if self.loops.len() > 0 && self.contains_index(var_name) {
            CheckStatus::Failure
        } else {
            CheckStatus::Success
        }
    }

    /// May `break` stand here? Only inside some loop.
    pub fn check_break(&self) -> (r: CheckStatus)
        ensures
            self@.nested == 0 <==> r is Failure,
    {
        if self.loops.len() == 0 {
            CheckStatus::Failure
        } else {
            CheckStatus::Success
        }
    }
}

/// The statement rules, stated once. The walk threads the scope `t`,
/// the block context, and the loop context; each rule gives the first
/// error it meets, exactly as the checker reports it.
pub open spec fn spec_stat_check<'a>(
    stat: Stat,
    t: LocalVariableTable,
    ctx: Contex<'a>,
    lc: LoopCtxV,
) -> Result<(), SemanticError>
    decreases stat, 0int,
{
    match stat.stat {
        StatType::AssignStat(a) => spec_check_assign(a, t, lc, stat.loc),
        StatType::Break => if lc.nested == 0 {
            Err(SemanticError::BreakOutsideLoop)
        } else {
            Ok(())
        },
        StatType::ForStat(f) => spec_check_for(f, t, ctx, lc, stat.loc),
        StatType::FuncCall(fc) => match spec_check_func_call(fc, t, stat.loc) {
            Ok(_) => Ok(()),
            Err(e) => Err(e),
        },
        StatType::IfStat(i) => spec_check_if(i, t, ctx, lc, stat.loc),
        StatType::ReadStat(ids) => spec_check_read(ids@, 0, t, lc, stat.loc),
        StatType::ReturnStat(opt) => spec_check_return(opt, t, ctx, stat.loc),
        StatType::WhileStat(w) => spec_check_while(w, t, ctx, lc, stat.loc),
        StatType::WriteStat(w) => match w {
            WriteStat::Write(list) => spec_check_expr_list(list@, 0, t),
            WriteStat::WriteLine(list) => spec_check_expr_list(list@, 0, t),
        },
    }
}

/// A run of statements, each checked under the same contexts.
pub open spec fn spec_stat_list_check<'a>(
    stats: Seq<Stat>,
    i: int,
    t: LocalVariableTable,
    ctx: Contex<'a>,
    lc: LoopCtxV,
) -> Result<(), SemanticError>
    decreases stats, stats.len() - i,
{
    if i < 0 || i >= stats.len() {
        Ok(())
    } else {
        match spec_stat_check(stats[i], t, ctx, lc) {
            Ok(()) => spec_stat_list_check(stats, i + 1, t, ctx, lc),
            Err(e) => Err(e),
        }
    }
}

/// An assignment: the expression is typed first, the target must
/// resolve, the kinds must agree, and the target may not be an active
/// `for` counter.
pub open spec fn spec_check_assign(
    a: AssignStat,
    t: LocalVariableTable,
    lc: LoopCtxV,
    loc: Location,
) -> Result<(), SemanticError>
    decreases a,
{
    match spec_type_check(a.expr, t) {
        Err(e) => Err(e),
        Ok(right_kind) => match spec_get_variable(t, a.id@) {
            None => Err(SemanticError::UnknownVariable(a.id)),
            Some(left_kind) => if left_kind == right_kind {
                if lc.nested > 0 && lc_contains(lc, a.id@) {
                    Err(
                        SemanticError::ForLoopError(
                            ForLoopError {
                                loc,
                                error:
                                    super::semantic_error::ForLoopErrorType::CountVariableAssignment(
                                    a.id,
                                ),
                            },
                        ),
                    )
                } else {
                    Ok(())
                }
            } else {
                Err(
                    SemanticError::MismatchedAssignment(
                        MismatchedAssignment {
                            name: a.id,
                            correct: left_kind,
                            given: right_kind,
                            loc,
                        },
                    ),
                )
            },
        },
    }
}

/// A `for` loop: integer counter, integer bounds, no re-entry of an
/// active counter, and a body checked with the counter active.
pub open spec fn spec_check_for<'a>(
    f: ForStat,
    t: LocalVariableTable,
    ctx: Contex<'a>,
    lc: LoopCtxV,
    loc: Location,
) -> Result<(), SemanticError>
    decreases f, 1int,
{
    match spec_get_variable(t, f.id@) {
        None => Err(SemanticError::UnknownVariable(f.id)),
        Some(count_kind) => if count_kind != Kind::Int {
            Err(
                SemanticError::ForLoopError(
                    ForLoopError {
                        loc,
                        error: super::semantic_error::ForLoopErrorType::NonIntegerCount(
                            count_kind,
                        ),
                    },
                ),
            )
        } else {
            match spec_type_check(f.begin_expr, t) {
                Err(e) => Err(e),
                Ok(bk) => if bk != Kind::Int {
                    Err(
                        SemanticError::ForLoopError(
                            ForLoopError {
                                loc,
                                error: super::semantic_error::ForLoopErrorType::NonIntegerStart(
                                    bk,
                                ),
                            },
                        ),
                    )
                } else {
                    match spec_type_check(f.end_expr, t) {
                        Err(e) => Err(e),
                        Ok(ek) => if ek != Kind::Int {
                            Err(
                                SemanticError::ForLoopError(
                                    ForLoopError {
                                        loc,
                                        error:
                                            super::semantic_error::ForLoopErrorType::NonIntegerEnd(
                                            ek,
                                        ),
                                    },
                                ),
                            )
                        } else {
                            if lc_contains(lc, f.id@) {
                                Err(
                                    SemanticError::ForLoopError(
                                        ForLoopError {
                                            loc,
                                            error:
                                                super::semantic_error::ForLoopErrorType::CountVariableAssignment(
                                                f.id,
                                            ),
                                        },
                                    ),
                                )
                            } else {
                                spec_stat_list_check(
                                    f.body@,
                                    0,
                                    t,
                                    ctx,
                                    LoopCtxV {
                                        indexes: lc.indexes.push(f.id),
                                        nested: lc.nested + 1,
                                    },
                                )
                            }
                        },
                    }
                },
            }
        },
    }
}

/// An `if`: boolean condition, then both arms under the same contexts.
pub open spec fn spec_check_if<'a>(
    i: IfStat,
    t: LocalVariableTable,
    ctx: Contex<'a>,
    lc: LoopCtxV,
    loc: Location,
) -> Result<(), SemanticError>
    decreases i, 1int,
{
    match spec_type_check(i.cond, t) {
        Err(e) => Err(e),
        Ok(ck) => if ck == Kind::Bool {
            match spec_stat_list_check(i.if_body@, 0, t, ctx, lc) {
                Err(e) => Err(e),
                Ok(()) => match i.else_body {
                    Some(list) => spec_stat_list_check(list@, 0, t, ctx, lc),
                    None => Ok(()),
                },
            }
        } else {
            Err(
                SemanticError::NonBooleanCondition(
                    NonBooleanCondition {
                        loc,
                        error: super::semantic_error::NonBooleanConditionType::IfStat(ck),
                    },
                ),
            )
        },
    }
}

/// A `read`: every name must resolve, and none may be an active `for`
/// counter.
pub open spec fn spec_check_read(
    ids: Seq<String>,
    i: int,
    t: LocalVariableTable,
    lc: LoopCtxV,
    loc: Location,
) -> Result<(), SemanticError>
    decreases ids.len() - i,
{
    if i < 0 || i >= ids.len() {
        Ok(())
    } else {
        match spec_get_variable(t, ids[i]@) {
            None => Err(SemanticError::UnknownVariable(ids[i])),
            Some(_) => if lc.nested > 0 && lc_contains(lc, ids[i]@) {
                Err(
                    SemanticError::ForLoopError(
                        ForLoopError {
                            loc,
                            error:
                                super::semantic_error::ForLoopErrorType::CountVariableAssignment(
                                ids[i],
                            ),
                        },
                    ),
                )
            } else {
                spec_check_read(ids, i + 1, t, lc, loc)
            },
        }
    }
}

/// A `return`: legal only inside a function, and its kind (or `Void`
/// for a bare `return`) must equal the declared result kind.
pub open spec fn spec_check_return<'a>(
    opt: Option<Expr>,
    t: LocalVariableTable,
    ctx: Contex<'a>,
    loc: Location,
) -> Result<(), SemanticError>
    decreases opt,
{
    match ctx {
        Contex::Function(func_decl) => {
            let kind_result = match opt {
                Some(e) => spec_type_check(e, t),
                None => Ok(Kind::Void),
            };
            match kind_result {
                Err(e) => Err(e),
                Ok(k) => if k == func_decl.kind {
                    Ok(())
                } else {
                    Err(
                        SemanticError::ReturnError(
                            ReturnError {
                                loc,
                                error:
                                    super::semantic_error::ReturnErrorType::MismatchedReturnType(
                                    func_decl.kind,
                                    k,
                                ),
                            },
                        ),
                    )
                },
            }
        },
        Contex::Global => Err(
            SemanticError::ReturnError(
                ReturnError {
                    loc,
                    error: super::semantic_error::ReturnErrorType::ReturnOutsideFunction,
                },
            ),
        ),
    }
}

/// A `while`: boolean condition, then the body one loop deeper with no
/// new counter.
pub open spec fn spec_check_while<'a>(
    w: WhileStat,
    t: LocalVariableTable,
    ctx: Contex<'a>,
    lc: LoopCtxV,
    loc: Location,
) -> Result<(), SemanticError>
    decreases w, 1int,
{
    match spec_type_check(w.cond, t) {
        Err(e) => Err(e),
        Ok(ck) => if ck == Kind::Bool {
            spec_stat_list_check(
                w.body@,
                0,
                t,
                ctx,
                LoopCtxV { indexes: lc.indexes, nested: lc.nested + 1 },
            )
        } else {
            Err(
                SemanticError::NonBooleanCondition(
                    NonBooleanCondition {
                        loc,
                        error: super::semantic_error::NonBooleanConditionType::WhileStat(ck),
                    },
                ),
            )
        },
    }
}

/// The arguments of a `write`, each typed independently.
pub open spec fn spec_check_expr_list(
    list: Seq<Expr>,
    i: int,
    t: LocalVariableTable,
) -> Result<(), SemanticError>
    decreases list, list.len() - i,
{
    if i < 0 || i >= list.len() {
        Ok(())
    } else {
        match spec_type_check(list[i], t) {
            Err(e) => Err(e),
            Ok(_) => spec_check_expr_list(list, i + 1, t),
        }
    }
}

/// `a` is `o` with every contained expression annotated: same spans,
/// same structure, same names.
pub open spec fn ann_stat(o: Stat, a: Stat, t: LocalVariableTable) -> bool
    decreases o, 0int,
{
    &&& a.loc == o.loc
    &&& match o.stat {
        StatType::AssignStat(oa) => a.stat matches StatType::AssignStat(aa) && aa.id == oa.id
            && ann_expr(oa.expr, aa.expr, t),
        StatType::Break => a.stat is Break,
        StatType::ForStat(of) => a.stat matches StatType::ForStat(af) && af.id == of.id
            && ann_expr(of.begin_expr, af.begin_expr, t) && ann_expr(
            of.end_expr,
            af.end_expr,
            t,
        ) && ann_stat_list(of.body@, af.body@, t),
        StatType::FuncCall(ofc) => a.stat matches StatType::FuncCall(afc) && ann_call(
            ofc,
            afc,
            t,
        ),
        StatType::IfStat(oi) => a.stat matches StatType::IfStat(ai) && ann_expr(
            oi.cond,
            ai.cond,
            t,
        ) && ann_stat_list(oi.if_body@, ai.if_body@, t) && match oi.else_body {
            Some(ob) => ai.else_body matches Some(ab) && ann_stat_list(ob@, ab@, t),
            None => ai.else_body is None,
        },
        StatType::ReadStat(ids) => a.stat matches StatType::ReadStat(aids) && aids@ == ids@,
        StatType::ReturnStat(oo) => match oo {
            Some(oe) => a.stat matches StatType::ReturnStat(ao) && ao matches Some(ae)
                && ann_expr(oe, ae, t),
            None => a.stat == StatType::ReturnStat(None::<Expr>),
        },
        StatType::WhileStat(ow) => a.stat matches StatType::WhileStat(aw) && ann_expr(
            ow.cond,
            aw.cond,
            t,
        ) && ann_stat_list(ow.body@, aw.body@, t),
        StatType::WriteStat(owr) => match owr {
            WriteStat::Write(ol) => a.stat matches StatType::WriteStat(awr) && awr matches
                WriteStat::Write(al) && ann_expr_list(ol@, al@, t),
            WriteStat::WriteLine(ol) => a.stat matches StatType::WriteStat(awr) && awr matches
                WriteStat::WriteLine(al) && ann_expr_list(ol@, al@, t),
        },
    }
}

/// Statement lists annotated element for element.
pub open spec fn ann_stat_list(o: Seq<Stat>, a: Seq<Stat>, t: LocalVariableTable) -> bool
    decreases o, 1int,
{
    &&& a.len() == o.len()
    &&& forall|i: int| 0 <= i < o.len() ==> ann_stat(#[trigger] o[i], #[trigger] a[i], t)
}

/// Expression lists annotated element for element.
pub open spec fn ann_expr_list(o: Seq<Expr>, a: Seq<Expr>, t: LocalVariableTable) -> bool {
    &&& a.len() == o.len()
    &&& forall|i: int| 0 <= i < o.len() ==> ann_expr(#[trigger] o[i], #[trigger] a[i], t)
}

/// The loop context of a statement that stands in no loop.
pub open spec fn lc_empty() -> LoopCtxV {
    LoopCtxV { indexes: Seq::empty(), nested: 0 }
}

/// Check one statement that stands on its own in a body: no enclosing
/// loop, no active counter. On success the result is the statement with
/// every contained expression annotated.
pub fn statement_check<'a>(stat: &Stat, table: &LocalVariableTable, contex: &Contex<'a>) -> (r:
    Result<Stat, SemanticError>)
    ensures
        spec_stat_check(*stat, *table, *contex, lc_empty()) matches Ok(u) ==> r matches Ok(s)
            && ann_stat(*stat, s, *table),
        spec_stat_check(*stat, *table, *contex, lc_empty()) matches Err(e) ==> r == Err::<
            Stat,
            SemanticError,
        >(e),
{
    let mut loop_contex = LoopContext::new();
    let r = stat_check(stat, table, contex, &mut loop_contex);
    proof {
        assert(lc_empty() =~= LoopCtxV { indexes: Seq::empty(), nested: 0 });
    }
    r
}

/// Check one statement under the given contexts, rebuilding it
/// annotated; the loop context is exactly as before on success.
fn stat_check<'a>(
    stat: &Stat,
    table: &LocalVariableTable,
    contex: &Contex<'a>,
    loop_contex: &mut LoopContext,
) -> (r: Result<Stat, SemanticError>)
    ensures
        spec_stat_check(*stat, *table, *contex, old(loop_contex)@) matches Ok(u) ==> r matches Ok(
            s,
        ) && ann_stat(*stat, s, *table) && final (loop_contex)@ == old(loop_contex)@,
        spec_stat_check(*stat, *table, *contex, old(loop_contex)@) matches Err(e) ==> r == Err::<
            Stat,
            SemanticError,
        >(e),
    decreases *stat, 0int,
{
    match &stat.stat {
        StatType::AssignStat(assign_stat) => {
            match check_assign_stat(assign_stat, table, loop_contex, &stat.loc) {
                Ok(aa) => Ok(Stat { loc: stat.loc, stat: StatType::AssignStat(aa) }),
                Err(e) => Err(e),
            }
        },
        StatType::Break => {
            match check_break_stat(loop_contex) {
                Ok(()) => Ok(Stat { loc: stat.loc, stat: StatType::Break }),
                Err(e) => Err(e),
            }
        },
        StatType::ForStat(for_stat) => {
            match check_for_stat(for_stat, table, contex, loop_contex, &stat.loc) {
                Ok(af) => Ok(Stat { loc: stat.loc, stat: StatType::ForStat(af) }),
                Err(e) => Err(e),
            }
        },
        StatType::FuncCall(func_call) => {
            match function_call_check(func_call, table, &stat.loc) {
                Ok(afc) => Ok(Stat { loc: stat.loc, stat: StatType::FuncCall(afc) }),
                Err(e) => Err(e),
            }
        },
        StatType::IfStat(if_stat) => {
            match check_if_stat(if_stat, table, contex, loop_contex, &stat.loc) {
                Ok(ai) => Ok(Stat { loc: stat.loc, stat: StatType::IfStat(ai) }),
                Err(e) => Err(e),
            }
        },
        StatType::ReadStat(read_stat) => {
            match check_read_stat(read_stat, table, loop_contex, &stat.loc) {
                Ok(ids) => Ok(Stat { loc: stat.loc, stat: StatType::ReadStat(ids) }),
                Err(e) => Err(e),
            }
        },
        StatType::ReturnStat(return_stat) => {
            match check_return_stat(return_stat, table, contex, &stat.loc) {
                Ok(ao) => Ok(Stat { loc: stat.loc, stat: StatType::ReturnStat(ao) }),
                Err(e) => Err(e),
            }
        },
        StatType::WhileStat(while_stat) => {
            match check_while_stat(while_stat, table, contex, loop_contex, &stat.loc) {
                Ok(aw) => Ok(Stat { loc: stat.loc, stat: StatType::WhileStat(aw) }),
                Err(e) => Err(e),
            }
        },
        StatType::WriteStat(write_stat) => {
            match check_write_stat(write_stat, table) {
                Ok(aw) => Ok(Stat { loc: stat.loc, stat: StatType::WriteStat(aw) }),
                Err(e) => Err(e),
            }
        },
    }
}

/// Check the statements of a list from position `i` on, collecting the
/// annotated copies of those already checked.
fn stat_list_check<'a>(
    stat_list: &StatList,
    i: usize,
    table: &LocalVariableTable,
    contex: &Contex<'a>,
    loop_contex: &mut LoopContext,
    acc: Vec<Stat>,
) -> (r: Result<Vec<Stat>, SemanticError>)
    requires
        i <= stat_list@.len(),
        acc@.len() == i,
        forall|j: int| 0 <= j < i ==> ann_stat(
            #[trigger] stat_list@[j],
            #[trigger] acc@[j],
            *table,
        ),
    ensures
        spec_stat_list_check(stat_list@, i as int, *table, *contex, old(loop_contex)@) matches Ok(
            u,
        ) ==> r matches Ok(v) && ann_stat_list(stat_list@, v@, *table) && final (loop_contex)@
            == old(loop_contex)@,
        spec_stat_list_check(stat_list@, i as int, *table, *contex, old(loop_contex)@) matches Err(
            e,
        ) ==> r == Err::<Vec<Stat>, SemanticError>(e),
    decreases stat_list@, stat_list@.len() - i,
{
    if i == stat_list.len() {
        Ok(acc)
    } else {
        match stat_check(&stat_list[i], table, contex, loop_contex) {
            Ok(s) => {
                let mut acc = acc;
                acc.push(s);
                stat_list_check(stat_list, i + 1, table, contex, loop_contex, acc)
            },
            Err(e) => Err(e),
        }
    }
}

/// Check an assignment statement.
pub fn check_assign_stat(
    assign_stat: &AssignStat,
    table: &LocalVariableTable,
    contex: &LoopContext,
    loc: &Location,
) -> (r: Result<AssignStat, SemanticError>)
    ensures
        spec_check_assign(*assign_stat, *table, contex@, *loc) matches Ok(u) ==> r matches Ok(aa)
            && aa.id == assign_stat.id && ann_expr(assign_stat.expr, aa.expr, *table),
        spec_check_assign(*assign_stat, *table, contex@, *loc) matches Err(e) ==> r == Err::<
            AssignStat,
            SemanticError,
        >(e),
{
    let (ae, right_kind) = match type_check(&assign_stat.expr, table) {
        Ok(p) => p,
        Err(e) => {
            return Err(e);
        },
    };
    let left_kind = match table.get_variable(&assign_stat.id) {
        Ok(k) => k,
        Err(e) => {
            return Err(e);
        },
    };
    if left_kind == right_kind {
        match contex.check_assign(&assign_stat.id) {
            CheckStatus::Success => Ok(AssignStat { id: assign_stat.id.clone(), expr: ae }),
            CheckStatus::Failure => {
                let err = ForLoopError::new_count_variable_assignment(loc, assign_stat.id.clone());
                Err(SemanticError::ForLoopError(err))
            },
        }
    } else {
        let err = MismatchedAssignment::new(assign_stat.id.clone(), left_kind, right_kind, loc);
        Err(SemanticError::MismatchedAssignment(err))
    }
}

/// Check a `break` statement.
pub fn check_break_stat(loop_contex: &LoopContext) -> (r: Result<(), SemanticError>)
    ensures
        loop_contex@.nested == 0 ==> r == Err::<(), SemanticError>(
            SemanticError::BreakOutsideLoop,
        ),
        loop_contex@.nested != 0 ==> r is Ok,
{
    match loop_contex.check_break() {
        CheckStatus::Success => Ok(()),
        CheckStatus::Failure => Err(SemanticError::BreakOutsideLoop),
    }
}

/// Check a `for` statement.
pub fn check_for_stat<'a>(
    for_stat: &ForStat,
    table: &LocalVariableTable,
    block_contex: &Contex<'a>,
    loop_contex: &mut LoopContext,
    loc: &Location,
) -> (r: Result<ForStat, SemanticError>)
    ensures
        spec_check_for(*for_stat, *table, *block_contex, old(loop_contex)@, *loc) matches Ok(u)
            ==> r matches Ok(af) && af.id == for_stat.id && ann_expr(
            for_stat.begin_expr,
            af.begin_expr,
            *table,
        ) && ann_expr(for_stat.end_expr, af.end_expr, *table) && ann_stat_list(
            for_stat.body@,
            af.body@,
            *table,
        ) && final (loop_contex)@ == old(loop_contex)@,
        spec_check_for(*for_stat, *table, *block_contex, old(loop_contex)@, *loc) matches Err(e)
            ==> r == Err::<ForStat, SemanticError>(e),
    decreases *for_stat, 2int,
{
    let count_kind = match table.get_variable(&for_stat.id) {
        Ok(k) => k,
        Err(e) => {
            return Err(e);
        },
    };
    match count_kind {
        Kind::Int => {},
        other => {
            let err = ForLoopError::new_non_integer_count(loc, other);
            return Err(SemanticError::ForLoopError(err));
        },
    }
    let (ab, bk) = match type_check(&for_stat.begin_expr, table) {
        Ok(p) => p,
        Err(e) => {
            return Err(e);
        },
    };
    match bk {
        Kind::Int => {},
        other => {
            let err = ForLoopError::new_non_integer_start(loc, other);
            return Err(SemanticError::ForLoopError(err));
        },
    }
    let (ae, ek) = match type_check(&for_stat.end_expr, table) {
        Ok(p) => p,
        Err(e) => {
            return Err(e);
        },
    };
    match ek {
        Kind::Int => {},
        other => {
            let err = ForLoopError::new_non_integer_end(loc, other);
            return Err(SemanticError::ForLoopError(err));
        },
    }
    match loop_contex.enter_for_loop(&for_stat.id) {
        CheckStatus::Success => {
            let body = match stat_list_check(
                &for_stat.body,
                0,
                table,
                block_contex,
                loop_contex,
                Vec::new(),
            ) {
                Ok(v) => v,
                Err(e) => {
                    return Err(e);
                },
            };
            loop_contex.exit_for_loop(&for_stat.id);
            proof {
                assert(final (loop_contex)@.indexes =~= old(loop_contex)@.indexes);
            }
            Ok(ForStat { id: for_stat.id.clone(), begin_expr: ab, end_expr: ae, body })
        },
        CheckStatus::Failure => {
            let err = ForLoopError::new_count_variable_assignment(loc, for_stat.id.clone());
            Err(SemanticError::ForLoopError(err))
        },
    }
}

/// Check an `if` statement.
pub fn check_if_stat<'a>(
    if_stat: &IfStat,
    table: &LocalVariableTable,
    block_contex: &Contex<'a>,
    loop_contex: &mut LoopContext,
    loc: &Location,
) -> (r: Result<IfStat, SemanticError>)
    ensures
        spec_check_if(*if_stat, *table, *block_contex, old(loop_contex)@, *loc) matches Ok(u) ==>
            r matches Ok(ai) && ann_expr(if_stat.cond, ai.cond, *table) && ann_stat_list(
            if_stat.if_body@,
            ai.if_body@,
            *table,
        ) && (match if_stat.else_body {
            Some(ob) => ai.else_body matches Some(ab) && ann_stat_list(ob@, ab@, *table),
            None => ai.else_body is None,
        }) && final (loop_contex)@ == old(loop_contex)@,
        spec_check_if(*if_stat, *table, *block_contex, old(loop_contex)@, *loc) matches Err(e)
            ==> r == Err::<IfStat, SemanticError>(e),
    decreases *if_stat, 2int,
{
    let (ac, ck) = match type_check(&if_stat.cond, table) {
        Ok(p) => p,
        Err(e) => {
            return Err(e);
        },
    };
    match ck {
        Kind::Bool => {
            let if_body = match stat_list_check(
                &if_stat.if_body,
                0,
                table,
                block_contex,
                loop_contex,
                Vec::new(),
            ) {
                Ok(v) => v,
                Err(e) => {
                    return Err(e);
                },
            };
            let else_body = match &if_stat.else_body {
                Some(stat_list) => {
                    match stat_list_check(
                        stat_list,
                        0,
                        table,
                        block_contex,
                        loop_contex,
                        Vec::new(),
                    ) {
                        Ok(v) => Some(v),
                        Err(e) => {
                            return Err(e);
                        },
                    }
                },
                None => None,
            };
            Ok(IfStat { cond: ac, if_body, else_body })
        },
        other => {
            let err = NonBooleanCondition::new_if_stat(loc, other);
            Err(SemanticError::NonBooleanCondition(err))
        },
    }
}

/// Check a `read` statement.
pub fn check_read_stat(
    read_stat: &IdList,
    table: &LocalVariableTable,
    contex: &LoopContext,
    loc: &Location,
) -> (r: Result<IdList, SemanticError>)
    ensures
        spec_check_read(read_stat@, 0, *table, contex@, *loc) matches Ok(u) ==> r matches Ok(ids)
            && ids@ == read_stat@,
        spec_check_read(read_stat@, 0, *table, contex@, *loc) matches Err(e) ==> r == Err::<
            IdList,
            SemanticError,
        >(e),
{
    let ghost ids = read_stat@;
    let n = read_stat.len();
    for i in 0..n
        invariant
            n == ids.len(),
            ids == read_stat@,
            spec_check_read(ids, 0, *table, contex@, *loc) == spec_check_read(
                ids,
                i as int,
                *table,
                contex@,
                *loc,
            ),
    {
        let id = &read_stat[i];
        match table.get_variable(id) {
            Ok(_) => {},
            Err(e) => {
                return Err(e);
            },
        }
        match contex.check_assign(id) {
            CheckStatus::Success => {},
            CheckStatus::Failure => {
                let err = ForLoopError::new_count_variable_assignment(loc, id.clone());
                return Err(SemanticError::ForLoopError(err));
            },
        }
    }
    let copy = read_stat.clone();
    proof {
        assert(copy@ =~= read_stat@);
    }
    Ok(copy)
}

/// Check a `return` statement.
pub fn check_return_stat<'a>(
    return_stat: &Option<Expr>,
    table: &LocalVariableTable,
    block_contex: &Contex<'a>,
    loc: &Location,
) -> (r: Result<Option<Expr>, SemanticError>)
    ensures
        spec_check_return(*return_stat, *table, *block_contex, *loc) matches Ok(u) ==> r matches
            Ok(ao) && (match *return_stat {
            Some(oe) => ao matches Some(ae) && ann_expr(oe, ae, *table),
            None => ao is None,
        }),
        spec_check_return(*return_stat, *table, *block_contex, *loc) matches Err(e) ==> r == Err::<
            Option<Expr>,
            SemanticError,
        >(e),
{
    match block_contex {
        Contex::Function(func_decl) => {
            let (ao, kind) = match return_stat {
                Some(expr) => {
                    match type_check(expr, table) {
                        Ok((ae, k)) => (Some(ae), k),
                        Err(e) => {
                            return Err(e);
                        },
                    }
                },
                None => (None, Kind::Void),
            };
            if kind == func_decl.kind {
                Ok(ao)
            } else {
                let err = ReturnError::new_mismatched_type(loc, func_decl.kind, kind);
                Err(SemanticError::ReturnError(err))
            }
        },
        Contex::Global => {
            let err = ReturnError::new_return_outside_function(loc);
            Err(SemanticError::ReturnError(err))
        },
    }
}

/// Check a `while` statement.
pub fn check_while_stat<'a>(
    while_stat: &WhileStat,
    table: &LocalVariableTable,
    block_contex: &Contex<'a>,
    loop_contex: &mut LoopContext,
    loc: &Location,
) -> (r: Result<WhileStat, SemanticError>)
    ensures
        spec_check_while(*while_stat, *table, *block_contex, old(loop_contex)@, *loc) matches Ok(
            u,
        ) ==> r matches Ok(aw) && ann_expr(while_stat.cond, aw.cond, *table) && ann_stat_list(
            while_stat.body@,
            aw.body@,
            *table,
        ) && final (loop_contex)@ == old(loop_contex)@,
        spec_check_while(*while_stat, *table, *block_contex, old(loop_contex)@, *loc) matches Err(
            e,
        ) ==> r == Err::<WhileStat, SemanticError>(e),
    decreases *while_stat, 2int,
{
    let (ac, ck) = match type_check(&while_stat.cond, table) {
        Ok(p) => p,
        Err(e) => {
            return Err(e);
        },
    };
    match ck {
        Kind::Bool => {
            loop_contex.enter_while_loop();
            let body = match stat_list_check(
                &while_stat.body,
                0,
                table,
                block_contex,
                loop_contex,
                Vec::new(),
            ) {
                Ok(v) => v,
                Err(e) => {
                    return Err(e);
                },
            };
            loop_contex.exit_while_loop();
            Ok(WhileStat { cond: ac, body })
        },
        other => {
            let err = NonBooleanCondition::new_while_stat(loc, other);
            Err(SemanticError::NonBooleanCondition(err))
        },
    }
}

/// Check a `write` or `writeln` statement.
pub fn check_write_stat(write_stat: &WriteStat, table: &LocalVariableTable) -> (r: Result<
    WriteStat,
    SemanticError,
>)
    ensures
        spec_stat_check_write(*write_stat, *table) matches Ok(u) ==> r matches Ok(aw) && (
        match *write_stat {
            WriteStat::Write(ol) => aw matches WriteStat::Write(al) && ann_expr_list(
                ol@,
                al@,
                *table,
            ),
            WriteStat::WriteLine(ol) => aw matches WriteStat::WriteLine(al) && ann_expr_list(
                ol@,
                al@,
                *table,
            ),
        }),
        spec_stat_check_write(*write_stat, *table) matches Err(e) ==> r == Err::<
            WriteStat,
            SemanticError,
        >(e),
{
    match write_stat {
        WriteStat::Write(expr_list) => {
            match check_expr_list(expr_list, 0, table, Vec::new()) {
                Ok(v) => Ok(WriteStat::Write(v)),
                Err(e) => Err(e),
            }
        },
        WriteStat::WriteLine(expr_list) => {
            match check_expr_list(expr_list, 0, table, Vec::new()) {
                Ok(v) => Ok(WriteStat::WriteLine(v)),
                Err(e) => Err(e),
            }
        },
    }
}

/// The write rule as `spec_stat_check` applies it.
pub open spec fn spec_stat_check_write(w: WriteStat, t: LocalVariableTable) -> Result<
    (),
    SemanticError,
> {
    match w {
        WriteStat::Write(list) => spec_check_expr_list(list@, 0, t),
        WriteStat::WriteLine(list) => spec_check_expr_list(list@, 0, t),
    }
}

/// Type the expressions of a list from position `i` on, collecting the
/// annotated copies.
fn check_expr_list(
    list: &Vec<Expr>,
    i: usize,
    table: &LocalVariableTable,
    acc: Vec<Expr>,
) -> (r: Result<Vec<Expr>, SemanticError>)
    requires
        i <= list@.len(),
        acc@.len() == i,
        forall|j: int| 0 <= j < i ==> ann_expr(#[trigger] list@[j], #[trigger] acc@[j], *table),
    ensures
        spec_check_expr_list(list@, i as int, *table) matches Ok(u) ==> r matches Ok(v)
            && ann_expr_list(list@, v@, *table),
        spec_check_expr_list(list@, i as int, *table) matches Err(e) ==> r == Err::<
            Vec<Expr>,
            SemanticError,
        >(e),
    decreases list@.len() - i,
{
    if i == list.len() {
        Ok(acc)
    } else {
        match type_check(&list[i], table) {
            Ok((ae, _)) => {
                let mut acc = acc;
                acc.push(ae);
                check_expr_list(list, i + 1, table, acc)
            },
            Err(e) => Err(e),
        }
    }
}

} // verus!
