//! The type checker. It walks an expression bottom-up, validates every
//! operator, cast, conditional and call, and returns a copy of the
//! expression in which every type slot is filled with the resolved kind.
//!
//! The typing rules are stated once as spec functions
//! (`spec_type_check` and its companions); the executable checker
//! returns exactly what they describe, including which error is
//! reported first.

use vstd::prelude::*;
use crate::syntax_tree::{
    CastExpr, CondExpr, Const, Expr, ExprTree, Factor, FactorValue, FuncCall, Kind, Location,
    Operator, UnaryOp,
};
use super::name_table::{spec_get_function, spec_get_variable, FuncEntry, LocalVariableTable};
use super::semantic_error::{
    ArgumentCountError, CastError, IncoherentOperation, MismatchedArgumentType, MismatchedTypes,
    MismatchedUnary, NonBooleanCondition, SemanticError,
};

verus! {

/// The three operand classes of the binary operators.
pub enum OperatorKind {
    Numeric,
    Relational,
    Logic,
}

/// The class an operator belongs to.
pub open spec fn spec_operator_kind(op: Operator) -> OperatorKind {
    match op {
        Operator::And | Operator::Or => OperatorKind::Logic,
        Operator::Add | Operator::Sub | Operator::Mul | Operator::Div => OperatorKind::Numeric,
        _ => OperatorKind::Relational,
    }
}

/// The result kind of `left op right`, or the error: operands of two
/// different kinds are a mismatch (which takes precedence), an operand
/// kind outside the operator's class is an incoherent operation, and a
/// relational operator yields `Bool` on any non-void kind.
pub open spec fn spec_coherent_operation(
    left: Kind,
    op: Operator,
    right: Kind,
    loc: Location,
) -> Result<Kind, SemanticError> {
    if left == right {
        match spec_operator_kind(op) {
            OperatorKind::Logic => if left == Kind::Bool {
                Ok(left)
            } else {
                Err(
                    SemanticError::IncoherentOperation(
                        IncoherentOperation { var_kind: left, operator: op, loc },
                    ),
                )
            },
            OperatorKind::Numeric => if left == Kind::Int || left == Kind::Real {
                Ok(left)
            } else {
                Err(
                    SemanticError::IncoherentOperation(
                        IncoherentOperation { var_kind: left, operator: op, loc },
                    ),
                )
            },
            OperatorKind::Relational => if left != Kind::Void {
                Ok(Kind::Bool)
            } else {
                Err(
                    SemanticError::IncoherentOperation(
                        IncoherentOperation { var_kind: left, operator: op, loc },
                    ),
                )
            },
        }
    } else {
        Err(
            SemanticError::MismatchedOperationTypes(MismatchedTypes { left, right, loc }),
        )
    }
}

/// The kind of a literal constant.
pub open spec fn spec_check_const(c: Const) -> Kind {
    match c {
        Const::BoolConst(_) => Kind::Bool,
        Const::IntConst(_) => Kind::Int,
        Const::RealConst(_) => Kind::Real,
        Const::StrConst(_) => Kind::Str,
    }
}

/// The kind of an expression under the scope `t`, or the first error
/// the bottom-up walk meets: left subtree, then right subtree, then the
/// operator itself.
pub open spec fn spec_type_check(e: Expr, t: LocalVariableTable) -> Result<Kind, SemanticError>
    decreases e, 0int,
{
    match e.expr {
        ExprTree::Node(l, op, r) => match spec_type_check(*l, t) {
            Ok(lk) => match spec_type_check(*r, t) {
                Ok(rk) => spec_coherent_operation(lk, op, rk, e.loc),
                Err(er) => Err(er),
            },
            Err(er) => Err(er),
        },
        ExprTree::Factor(f) => spec_check_factor(f, t, e.loc),
    }
}

/// The kind of a factor; errors point at the span of the enclosing
/// expression.
pub open spec fn spec_check_factor(f: Factor, t: LocalVariableTable, loc: Location) -> Result<
    Kind,
    SemanticError,
>
    decreases f, 0int,
{
    match f.fact {
        FactorValue::CastExpr(c) => spec_check_cast(c, t, loc),
        FactorValue::CondExpr(c) => spec_check_cond_expr(c, t, loc),
        FactorValue::Const(v) => Ok(spec_check_const(v)),
        FactorValue::FuncCall(fc) => spec_check_func_call(fc, t, loc),
        FactorValue::HighPrecedence(e) => spec_type_check(*e, t),
        FactorValue::Id(name) => match spec_get_variable(t, name@) {
            Some(k) => Ok(k),
            None => Err(SemanticError::UnknownVariable(name)),
        },
        FactorValue::UnaryOp(u) => spec_check_unary(u, t, loc),
    }
}

/// A cast to integer wants a real operand; a cast to real wants an
/// integer operand.
pub open spec fn spec_check_cast(c: CastExpr, t: LocalVariableTable, loc: Location) -> Result<
    Kind,
    SemanticError,
>
    decreases c, 0int,
{
    match c {
        CastExpr::Integer(e) => match spec_type_check(*e, t) {
            Ok(k) => if k == Kind::Real {
                Ok(Kind::Int)
            } else {
                Err(SemanticError::CastError(CastError { loc, error: super::semantic_error::CastErrorType::ToInt(k) }))
            },
            Err(er) => Err(er),
        },
        CastExpr::Real(e) => match spec_type_check(*e, t) {
            Ok(k) => if k == Kind::Int {
                Ok(Kind::Real)
            } else {
                Err(SemanticError::CastError(CastError { loc, error: super::semantic_error::CastErrorType::ToReal(k) }))
            },
            Err(er) => Err(er),
        },
    }
}

/// A conditional expression wants a boolean condition and two branches
/// of one kind, which is its kind.
pub open spec fn spec_check_cond_expr(c: CondExpr, t: LocalVariableTable, loc: Location) -> Result<
    Kind,
    SemanticError,
>
    decreases c, 0int,
{
    match spec_type_check(*c.cond, t) {
        Ok(ck) => if ck == Kind::Bool {
            match spec_type_check(*c.true_stat, t) {
                Ok(tk) => match spec_type_check(*c.false_stat, t) {
                    Ok(fk) => if tk == fk {
                        Ok(tk)
                    } else {
                        Err(
                            SemanticError::MismatchedConditionalExpression(
                                MismatchedTypes { left: tk, right: fk, loc },
                            ),
                        )
                    },
                    Err(er) => Err(er),
                },
                Err(er) => Err(er),
            }
        } else {
            Err(
                SemanticError::NonBooleanCondition(
                    NonBooleanCondition {
                        loc,
                        error: super::semantic_error::NonBooleanConditionType::CondStat(ck),
                    },
                ),
            )
        },
        Err(er) => Err(er),
    }
}

/// Arithmetic negation wants an integer or real operand and keeps its
/// kind; logic negation wants a boolean.
pub open spec fn spec_check_unary(u: UnaryOp, t: LocalVariableTable, loc: Location) -> Result<
    Kind,
    SemanticError,
>
    decreases u, 0int,
{
    match u {
        UnaryOp::Minus(f) => match spec_check_factor(*f, t, loc) {
            Ok(k) => if k == Kind::Int {
                Ok(Kind::Int)
            } else if k == Kind::Real {
                Ok(Kind::Real)
            } else {
                Err(
                    SemanticError::MismatchedUnary(
                        MismatchedUnary {
                            loc,
                            error: super::semantic_error::MismatchedUnaryType::Numeric(k),
                        },
                    ),
                )
            },
            Err(er) => Err(er),
        },
        UnaryOp::Negate(f) => match spec_check_factor(*f, t, loc) {
            Ok(k) => if k == Kind::Bool {
                Ok(Kind::Bool)
            } else {
                Err(
                    SemanticError::MismatchedUnary(
                        MismatchedUnary {
                            loc,
                            error: super::semantic_error::MismatchedUnaryType::Logic(k),
                        },
                    ),
                )
            },
            Err(er) => Err(er),
        },
    }
}

/// A call wants a known function and one argument per declared
/// parameter; its kind is the function's declared result kind.
pub open spec fn spec_check_func_call(fc: FuncCall, t: LocalVariableTable, loc: Location) -> Result<
    Kind,
    SemanticError,
>
    decreases fc, fc.args@.len() + 1,
{
    match spec_get_function(t, fc.id@) {
        None => Err(SemanticError::UnknownFunction(fc.id)),
        Some(fe) => if fe.param_kinds@.len() == fc.args@.len() {
            spec_check_args(fc, 0, fe, t, loc)
        } else {
            Err(
                SemanticError::ArgumentCountError(
                    ArgumentCountError {
                        func_name: fe.name,
                        expected: fe.param_kinds@.len() as usize,
                        found: fc.args@.len() as usize,
                        func_loc: fe.loc,
                    },
                ),
            )
        },
    }
}

/// Check the arguments from position `i` on: each must have exactly the
/// declared parameter kind, with no coercion.
pub open spec fn spec_check_args(
    fc: FuncCall,
    i: int,
    fe: FuncEntry,
    t: LocalVariableTable,
    loc: Location,
) -> Result<Kind, SemanticError>
    decreases fc, fc.args@.len() - i,
{
    if i < 0 || i >= fc.args@.len() {
        Ok(fe.kind)
    } else {
        match spec_type_check(fc.args@[i], t) {
            Ok(ak) => if ak == fe.param_kinds@[i] {
                spec_check_args(fc, i + 1, fe, t, loc)
            } else {
                Err(
                    SemanticError::MismatchedArgumentType(
                        MismatchedArgumentType {
                            func_name: fe.name,
                            func_loc: fe.loc,
                            correct: fe.param_kinds@[i],
                            given: ak,
                            index: i as usize,
                            loc,
                        },
                    ),
                )
            },
            Err(er) => Err(er),
        }
    }
}

/// `a` is `o` with every type slot filled: same spans, same structure,
/// same names and constants, and on every node the slot holds exactly
/// the kind the typing rules give that node.
pub open spec fn ann_expr(o: Expr, a: Expr, t: LocalVariableTable) -> bool
    decreases o,
{
    &&& a.loc == o.loc
    &&& spec_type_check(o, t) matches Ok(k) && a.kind == Some(k)
    &&& match o.expr {
        ExprTree::Node(ol, op, or) => a.expr matches ExprTree::Node(al, aop, ar) && aop == op
            && ann_expr(*ol, *al, t) && ann_expr(*or, *ar, t),
        ExprTree::Factor(of) => a.expr matches ExprTree::Factor(af) && ann_fact(
            of,
            af,
            t,
            o.loc,
        ),
    }
}

/// The slot-filling relation on factors.
pub open spec fn ann_fact(o: Factor, a: Factor, t: LocalVariableTable, loc: Location) -> bool
    decreases o,
{
    &&& spec_check_factor(o, t, loc) matches Ok(k) && a.kind == Some(k)
    &&& match o.fact {
        FactorValue::Id(n) => a.fact == FactorValue::Id(n),
        FactorValue::Const(c) => a.fact == FactorValue::Const(c),
        FactorValue::HighPrecedence(e) => a.fact matches FactorValue::HighPrecedence(ae)
            && ann_expr(*e, *ae, t),
        FactorValue::CastExpr(c) => a.fact matches FactorValue::CastExpr(ac) && ann_cast(
            c,
            ac,
            t,
        ),
        FactorValue::CondExpr(c) => a.fact matches FactorValue::CondExpr(ac) && ann_cond(
            c,
            ac,
            t,
        ),
        FactorValue::UnaryOp(u) => a.fact matches FactorValue::UnaryOp(au) && ann_unary(
            u,
            au,
            t,
            loc,
        ),
        FactorValue::FuncCall(fc) => a.fact matches FactorValue::FuncCall(afc) && ann_call(
            fc,
            afc,
            t,
        ),
    }
}

/// The slot-filling relation on casts.
pub open spec fn ann_cast(o: CastExpr, a: CastExpr, t: LocalVariableTable) -> bool
    decreases o,
{
    match o {
        CastExpr::Integer(e) => a matches CastExpr::Integer(ae) && ann_expr(*e, *ae, t),
        CastExpr::Real(e) => a matches CastExpr::Real(ae) && ann_expr(*e, *ae, t),
    }
}

/// The slot-filling relation on conditional expressions.
pub open spec fn ann_cond(o: CondExpr, a: CondExpr, t: LocalVariableTable) -> bool
    decreases o,
{
    &&& ann_expr(*o.cond, *a.cond, t)
    &&& ann_expr(*o.true_stat, *a.true_stat, t)
    &&& ann_expr(*o.false_stat, *a.false_stat, t)
}

/// The slot-filling relation on unary operators.
pub open spec fn ann_unary(o: UnaryOp, a: UnaryOp, t: LocalVariableTable, loc: Location) -> bool
    decreases o,
{
    match o {
        UnaryOp::Minus(f) => a matches UnaryOp::Minus(af) && ann_fact(*f, *af, t, loc),
        UnaryOp::Negate(f) => a matches UnaryOp::Negate(af) && ann_fact(*f, *af, t, loc),
    }
}

/// The slot-filling relation on calls: same function, and every
/// argument annotated.
pub open spec fn ann_call(o: FuncCall, a: FuncCall, t: LocalVariableTable) -> bool
    decreases o,
{
    &&& a.id == o.id
    &&& a.args@.len() == o.args@.len()
    &&& forall|i: int| 0 <= i < o.args@.len() ==> ann_expr(
        #[trigger] o.args@[i],
        #[trigger] a.args@[i],
        t,
    )
}

impl OperatorKind {
    /// The class of a binary operator.
    pub fn from_operator(op: &Operator) -> (r: Self)
        ensures
            r == spec_operator_kind(*op),
    {
        match op {
            Operator::And | Operator::Or => Self::Logic,
            Operator::Add | Operator::Sub | Operator::Mul | Operator::Div => Self::Numeric,
            _ => Self::Relational,
        }
    }
}

/// The result kind of `left op right`, per `spec_coherent_operation`.
pub fn coherent_operation(left: Kind, op: &Operator, right: Kind, loc: &Location) -> (r: Result<
    Kind,
    SemanticError,
>)
    ensures
        r == spec_coherent_operation(left, *op, right, *loc),
{
    if left == right {
        let op_kind = OperatorKind::from_operator(op);
        match op_kind {
            OperatorKind::Logic => match left {
                Kind::Bool => Ok(left),
                _ => {
                    let err = IncoherentOperation::new(left, *op, loc);
                    Err(SemanticError::IncoherentOperation(err))
                },
            },
            OperatorKind::Numeric => match left {
                Kind::Int | Kind::Real => Ok(left),
                _ => {
                    let err = IncoherentOperation::new(left, *op, loc);
                    Err(SemanticError::IncoherentOperation(err))
                },
            },
            OperatorKind::Relational => match left {
                Kind::Int | Kind::Real | Kind::Bool | Kind::Str => Ok(Kind::Bool),
                _ => {
                    let err = IncoherentOperation::new(left, *op, loc);
                    Err(SemanticError::IncoherentOperation(err))
                },
            },
        }
    } else {
        let mismatch = MismatchedTypes::new(left, right, loc);
        Err(SemanticError::MismatchedOperationTypes(mismatch))
    }
}

/// The kind of a literal constant.
fn check_const(value: &Const) -> (k: Kind)
    ensures
        k == spec_check_const(*value),
{
    match value {
        Const::BoolConst(_) => Kind::Bool,
        Const::IntConst(_) => Kind::Int,
        Const::RealConst(_) => Kind::Real,
        Const::StrConst(_) => Kind::Str,
    }
}

/// Check a call that stands as a statement of its own; its result kind,
/// `Void` included, is discarded.
pub fn function_call_check(func_call: &FuncCall, table: &LocalVariableTable, loc: &Location) -> (r:
    Result<FuncCall, SemanticError>)
    ensures
        spec_check_func_call(*func_call, *table, *loc) matches Ok(k) ==> r matches Ok(a)
            && ann_call(*func_call, a, *table),
        spec_check_func_call(*func_call, *table, *loc) matches Err(e) ==> r == Err::<
            FuncCall,
            SemanticError,
        >(e),
{
    match check_function_call(func_call, table, loc) {
        Ok((ann, _)) => Ok(ann),
        Err(e) => Err(e),
    }
}

/// Type an expression under the scope `t`. On success the result is a
/// copy of the expression with every slot filled (`ann_expr`) together
/// with its kind; on failure, exactly the first error of the bottom-up
/// walk.
pub fn type_check(expr: &Expr, table: &LocalVariableTable) -> (r: Result<
    (Expr, Kind),
    SemanticError,
>)
    ensures
        spec_type_check(*expr, *table) matches Ok(k) ==> r matches Ok(p) && p.1 == k && ann_expr(
            *expr,
            p.0,
            *table,
        ),
        spec_type_check(*expr, *table) matches Err(e) ==> r == Err::<(Expr, Kind), SemanticError>(
            e,
        ),
    decreases *expr, 0int,
{
    match &expr.expr {
        ExprTree::Node(left, op, right) => {
            let (la, lk) = match type_check(left, table) {
                Ok(p) => p,
                Err(e) => {
                    return Err(e);
                },
            };
            let (ra, rk) = match type_check(right, table) {
                Ok(p) => p,
                Err(e) => {
                    return Err(e);
                },
            };
            let k = match coherent_operation(lk, op, rk, &expr.loc) {
                Ok(k) => k,
                Err(e) => {
                    return Err(e);
                },
            };
            let ann = Expr {
                loc: expr.loc,
                expr: ExprTree::Node(Box::new(la), *op, Box::new(ra)),
                kind: Some(k),
            };
            Ok((ann, k))
        },
        ExprTree::Factor(fact) => {
            let (af, k) = match check_factor(fact, table, &expr.loc) {
                Ok(p) => p,
                Err(e) => {
                    return Err(e);
                },
            };
            let ann = Expr { loc: expr.loc, expr: ExprTree::Factor(af), kind: Some(k) };
            Ok((ann, k))
        },
    }
}

/// Type a factor; errors point at the enclosing expression's span.
pub fn check_factor(fact: &Factor, table: &LocalVariableTable, loc: &Location) -> (r: Result<
    (Factor, Kind),
    SemanticError,
>)
    ensures
        spec_check_factor(*fact, *table, *loc) matches Ok(k) ==> r matches Ok(p) && p.1 == k
            && ann_fact(*fact, p.0, *table, *loc),
        spec_check_factor(*fact, *table, *loc) matches Err(e) ==> r == Err::<
            (Factor, Kind),
            SemanticError,
        >(e),
    decreases *fact, 0int,
{
    match &fact.fact {
        FactorValue::CastExpr(cast) => {
            let (ac, k) = match check_cast(cast, table, loc) {
                Ok(p) => p,
                Err(e) => {
                    return Err(e);
                },
            };
            Ok((Factor { fact: FactorValue::CastExpr(ac), kind: Some(k) }, k))
        },
        FactorValue::CondExpr(cond) => {
            let (ac, k) = match check_conditional_expression(cond, table, loc) {
                Ok(p) => p,
                Err(e) => {
                    return Err(e);
                },
            };
            Ok((Factor { fact: FactorValue::CondExpr(ac), kind: Some(k) }, k))
        },
        FactorValue::Const(val) => {
            let k = check_const(val);
            Ok((Factor { fact: FactorValue::Const(val.clone()), kind: Some(k) }, k))
        },
        FactorValue::FuncCall(func) => {
            let (afc, k) = match check_function_call(func, table, loc) {
                Ok(p) => p,
                Err(e) => {
                    return Err(e);
                },
            };
            Ok((Factor { fact: FactorValue::FuncCall(afc), kind: Some(k) }, k))
        },
        FactorValue::HighPrecedence(expr) => {
            let (ae, k) = match type_check(expr, table) {
                Ok(p) => p,
                Err(e) => {
                    return Err(e);
                },
            };
            Ok((Factor { fact: FactorValue::HighPrecedence(Box::new(ae)), kind: Some(k) }, k))
        },
        FactorValue::Id(name) => {
            let k = match table.get_variable(name) {
                Ok(k) => k,
                Err(e) => {
                    return Err(e);
                },
            };
            Ok((Factor { fact: FactorValue::Id(name.clone()), kind: Some(k) }, k))
        },
        FactorValue::UnaryOp(unary) => {
            let (au, k) = match check_unary_operator(unary, table, loc) {
                Ok(p) => p,
                Err(e) => {
                    return Err(e);
                },
            };
            Ok((Factor { fact: FactorValue::UnaryOp(au), kind: Some(k) }, k))
        },
    }
}

/// Type a cast.
pub fn check_cast(cast: &CastExpr, table: &LocalVariableTable, loc: &Location) -> (r: Result<
    (CastExpr, Kind),
    SemanticError,
>)
    ensures
        spec_check_cast(*cast, *table, *loc) matches Ok(k) ==> r matches Ok(p) && p.1 == k
            && ann_cast(*cast, p.0, *table),
        spec_check_cast(*cast, *table, *loc) matches Err(e) ==> r == Err::<
            (CastExpr, Kind),
            SemanticError,
        >(e),
    decreases *cast, 0int,
{
    match cast {
        CastExpr::Integer(expr) => {
            let (ae, k) = match type_check(expr, table) {
                Ok(p) => p,
                Err(e) => {
                    return Err(e);
                },
            };
            if k == Kind::Real {
                Ok((CastExpr::Integer(Box::new(ae)), Kind::Int))
            } else {
                Err(SemanticError::CastError(CastError::new_to_int(loc, k)))
            }
        },
        CastExpr::Real(expr) => {
            let (ae, k) = match type_check(expr, table) {
                Ok(p) => p,
                Err(e) => {
                    return Err(e);
                },
            };
            if k == Kind::Int {
                Ok((CastExpr::Real(Box::new(ae)), Kind::Real))
            } else {
                Err(SemanticError::CastError(CastError::new_to_real(loc, k)))
            }
        },
    }
}

/// Type a conditional expression.
pub fn check_conditional_expression(cond_expr: &CondExpr, table: &LocalVariableTable, loc:
    &Location) -> (r: Result<(CondExpr, Kind), SemanticError>)
    ensures
        spec_check_cond_expr(*cond_expr, *table, *loc) matches Ok(k) ==> r matches Ok(p) && p.1
            == k && ann_cond(*cond_expr, p.0, *table),
        spec_check_cond_expr(*cond_expr, *table, *loc) matches Err(e) ==> r == Err::<
            (CondExpr, Kind),
            SemanticError,
        >(e),
    decreases *cond_expr, 0int,
{
    let (ac, ck) = match type_check(&cond_expr.cond, table) {
        Ok(p) => p,
        Err(e) => {
            return Err(e);
        },
    };
    if ck == Kind::Bool {
        let (at, tk) = match type_check(&cond_expr.true_stat, table) {
            Ok(p) => p,
            Err(e) => {
                return Err(e);
            },
        };
        let (af, fk) = match type_check(&cond_expr.false_stat, table) {
            Ok(p) => p,
            Err(e) => {
                return Err(e);
            },
        };
        if tk == fk {
            let ann = CondExpr {
                cond: Box::new(ac),
                true_stat: Box::new(at),
                false_stat: Box::new(af),
            };
            Ok((ann, tk))
        } else {
            let err = MismatchedTypes::new(tk, fk, loc);
            Err(SemanticError::MismatchedConditionalExpression(err))
        }
    } else {
        let err = NonBooleanCondition::new_cond_stat(loc, ck);
        Err(SemanticError::NonBooleanCondition(err))
    }
}

/// Type a unary operator.
pub fn check_unary_operator(unary: &UnaryOp, table: &LocalVariableTable, loc: &Location) -> (r: Result<
    (UnaryOp, Kind),
    SemanticError,
>)
    ensures
        spec_check_unary(*unary, *table, *loc) matches Ok(k) ==> r matches Ok(p) && p.1 == k
            && ann_unary(*unary, p.0, *table, *loc),
        spec_check_unary(*unary, *table, *loc) matches Err(e) ==> r == Err::<
            (UnaryOp, Kind),
            SemanticError,
        >(e),
    decreases *unary, 0int,
{
    match unary {
        UnaryOp::Minus(fact) => {
            let (af, k) = match check_factor(fact, table, loc) {
                Ok(p) => p,
                Err(e) => {
                    return Err(e);
                },
            };
            match k {
                Kind::Int => Ok((UnaryOp::Minus(Box::new(af)), Kind::Int)),
                Kind::Real => Ok((UnaryOp::Minus(Box::new(af)), Kind::Real)),
                other => Err(
                    SemanticError::MismatchedUnary(MismatchedUnary::new_numeric(loc, other)),
                ),
            }
        },
        UnaryOp::Negate(fact) => {
            let (af, k) = match check_factor(fact, table, loc) {
                Ok(p) => p,
                Err(e) => {
                    return Err(e);
                },
            };
            if k == Kind::Bool {
                Ok((UnaryOp::Negate(Box::new(af)), Kind::Bool))
            } else {
                Err(SemanticError::MismatchedUnary(MismatchedUnary::new_logic(loc, k)))
            }
        },
    }
}

/// Type a call: the function must exist, the argument count must match
/// the declaration, and every argument must have the declared kind.
pub fn check_function_call(fcall: &FuncCall, table: &LocalVariableTable, loc: &Location) -> (r: Result<
    (FuncCall, Kind),
    SemanticError,
>)
    ensures
        spec_check_func_call(*fcall, *table, *loc) matches Ok(k) ==> r matches Ok(p) && p.1 == k
            && ann_call(*fcall, p.0, *table),
        spec_check_func_call(*fcall, *table, *loc) matches Err(e) ==> r == Err::<
            (FuncCall, Kind),
            SemanticError,
        >(e),
    decreases *fcall, fcall.args@.len() + 2,
{
    let func_proto = match table.get_function(&fcall.id) {
        Ok(f) => f,
        Err(e) => {
            return Err(e);
        },
    };
    if func_proto.param_kinds.len() == fcall.args.len() {
        match check_args(fcall, 0, func_proto, table, loc, Vec::new()) {
            Ok((args, k)) => {
                let ann = FuncCall { id: fcall.id.clone(), args };
                Ok((ann, k))
            },
            Err(e) => Err(e),
        }
    } else {
        let err = ArgumentCountError {
            func_name: func_proto.name.clone(),
            expected: func_proto.param_kinds.len(),
            found: fcall.args.len(),
            func_loc: func_proto.loc,
        };
        Err(SemanticError::ArgumentCountError(err))
    }
}

/// Check the arguments from position `i` on, collecting the annotated
/// copies of those already checked.
fn check_args(
    fcall: &FuncCall,
    i: usize,
    fe: &FuncEntry,
    table: &LocalVariableTable,
    loc: &Location,
    acc: Vec<Expr>,
) -> (r: Result<(Vec<Expr>, Kind), SemanticError>)
    requires
        fe.param_kinds@.len() == fcall.args@.len(),
        i <= fcall.args@.len(),
        acc@.len() == i,
        forall|j: int| 0 <= j < i ==> ann_expr(#[trigger] fcall.args@[j], #[trigger] acc@[j], *table),
    ensures
        spec_check_args(*fcall, i as int, *fe, *table, *loc) matches Ok(k) ==> r matches Ok(p)
            && p.1 == k && p.0@.len() == fcall.args@.len() && (forall|j: int|
            0 <= j < fcall.args@.len() ==> ann_expr(
                #[trigger] fcall.args@[j],
                #[trigger] p.0@[j],
                *table,
            )),
        spec_check_args(*fcall, i as int, *fe, *table, *loc) matches Err(e) ==> r == Err::<
            (Vec<Expr>, Kind),
            SemanticError,
        >(e),
    decreases *fcall, fcall.args@.len() - i,
{
    if i == fcall.args.len() {
        Ok((acc, fe.kind))
    } else {
        let (ae, ak) = match type_check(&fcall.args[i], table) {
            Ok(p) => p,
            Err(e) => {
                return Err(e);
            },
        };
        if ak == fe.param_kinds[i] {
            let mut acc = acc;
            acc.push(ae);
            check_args(fcall, i + 1, fe, table, loc, acc)
        } else {
            let err = MismatchedArgumentType {
                func_name: fe.name.clone(),
                func_loc: fe.loc,
                correct: fe.param_kinds[i],
                given: ak,
                index: i,
                loc: *loc,
            };
            Err(SemanticError::MismatchedArgumentType(err))
        }
    }
}

} // verus!
