//! The semantic error taxonomy. Every error owns the spans and names it
//! needs to produce a self-contained diagnostic.

use vstd::prelude::*;
use crate::syntax_tree::{FuncCall, FuncDecl, IdList, Kind, Location, Operator, VarDecl};

verus! {

/// One semantic error, the first found by the analysis pass that failed.
#[derive(PartialEq, Debug)]
pub enum SemanticError {
    NameRidefinition(NameRidefinition),
    VoidVariableDeclaration(VoidVariableDeclaration),
    MismatchedOperationTypes(MismatchedTypes),
    IncoherentOperation(IncoherentOperation),
    CastError(CastError),
    NonBooleanCondition(NonBooleanCondition),
    MismatchedConditionalExpression(MismatchedTypes),
    UnknownFunction(String),
    UnknownVariable(String),
    MismatchedUnary(MismatchedUnary),
    ArgumentCountError(ArgumentCountError),
    MismatchedArgumentType(MismatchedArgumentType),
    MismatchedAssignment(MismatchedAssignment),
    BreakOutsideLoop,
    ForLoopError(ForLoopError),
    ReturnError(ReturnError),
    MissingReturn(MissingReturn),
}

/// Two errors that carry the same diagnostic: equal, except that the
/// name list of a void declaration is compared element for element.
pub open spec fn err_equiv(a: SemanticError, b: SemanticError) -> bool {
    if a is VoidVariableDeclaration && b is VoidVariableDeclaration {
        &&& a->VoidVariableDeclaration_0.names@ == b->VoidVariableDeclaration_0.names@
        &&& a->VoidVariableDeclaration_0.loc == b->VoidVariableDeclaration_0.loc
    } else {
        a == b
    }
}

/// A name defined twice; carries the category and span of both the
/// original definition and the new one.
#[derive(PartialEq, Debug)]
pub struct NameRidefinition {
    pub name: String,
    pub original: Ridefinition,
    pub new: Ridefinition,
}

impl NameRidefinition {
    pub fn new(name: String, original: Ridefinition, new: Ridefinition) -> (r: Self)
        ensures
            r == (NameRidefinition { name, original, new }),
    {
        Self { name, original, new }
    }
}

/// Whether a colliding definition was a function or a variable.
#[derive(Clone, Copy, PartialEq, Eq, Structural, Debug)]
pub enum Ridefinition {
    Function(Location),
    Variable(Location),
}

/// A variable declaration of kind `void`: the listed names and the span
/// of the declaration.
#[derive(PartialEq, Debug)]
pub struct VoidVariableDeclaration {
    pub names: IdList,
    pub loc: Location,
}

impl VoidVariableDeclaration {
    pub fn new(names: &VarDecl) -> (r: Self)
        ensures
            r.names@ == names.id_list@,
            r.loc == names.loc,
    {
        Self { names: names.id_list.clone(), loc: names.loc }
    }
}

/// Two operand kinds that must agree but do not.
#[derive(PartialEq, Debug)]
pub struct MismatchedTypes {
    pub left: Kind,
    pub right: Kind,
    pub loc: Location,
}

impl MismatchedTypes {
    pub fn new(left: Kind, right: Kind, loc: &Location) -> (r: Self)
        ensures
            r == (MismatchedTypes { left, right, loc: *loc }),
    {
        Self { left, right, loc: *loc }
    }
}

/// An operator applied to a kind outside its operand class.
#[derive(PartialEq, Debug)]
pub struct IncoherentOperation {
    pub var_kind: Kind,
    pub operator: Operator,
    pub loc: Location,
}

impl IncoherentOperation {
    pub fn new(var_kind: Kind, operator: Operator, loc: &Location) -> (r: Self)
        ensures
            r == (IncoherentOperation { var_kind, operator, loc: *loc }),
    {
        Self { var_kind, operator, loc: *loc }
    }
}

/// A cast whose operand has the wrong kind.
#[derive(PartialEq, Debug)]
pub struct CastError {
    pub loc: Location,
    pub error: CastErrorType,
}

impl CastError {
    pub fn new_to_int(loc: &Location, kind: Kind) -> (r: Self)
        ensures
            r == (CastError { loc: *loc, error: CastErrorType::ToInt(kind) }),
    {
        Self { loc: *loc, error: CastErrorType::ToInt(kind) }
    }

    pub fn new_to_real(loc: &Location, kind: Kind) -> (r: Self)
        ensures
            r == (CastError { loc: *loc, error: CastErrorType::ToReal(kind) }),
    {
        Self { loc: *loc, error: CastErrorType::ToReal(kind) }
    }
}

/// The direction of a failed cast, with the operand's actual kind.
#[derive(Clone, Copy, PartialEq, Eq, Structural, Debug)]
pub enum CastErrorType {
    ToInt(Kind),
    ToReal(Kind),
}

/// A condition of a kind other than boolean.
#[derive(PartialEq, Debug)]
pub struct NonBooleanCondition {
    pub loc: Location,
    pub error: NonBooleanConditionType,
}

impl NonBooleanCondition {
    pub fn new_if_stat(loc: &Location, kind: Kind) -> (r: Self)
        ensures
            r == (NonBooleanCondition { loc: *loc, error: NonBooleanConditionType::IfStat(kind) }),
    {
        Self { loc: *loc, error: NonBooleanConditionType::IfStat(kind) }
    }

    pub fn new_while_stat(loc: &Location, kind: Kind) -> (r: Self)
        ensures
            r == (NonBooleanCondition {
                loc: *loc,
                error: NonBooleanConditionType::WhileStat(kind),
            }),
    {
        Self { loc: *loc, error: NonBooleanConditionType::WhileStat(kind) }
    }

    pub fn new_cond_stat(loc: &Location, kind: Kind) -> (r: Self)
        ensures
            r == (NonBooleanCondition {
                loc: *loc,
                error: NonBooleanConditionType::CondStat(kind),
            }),
    {
        Self { loc: *loc, error: NonBooleanConditionType::CondStat(kind) }
    }
}

/// Which construct required the boolean condition.
#[derive(Clone, Copy, PartialEq, Eq, Structural, Debug)]
pub enum NonBooleanConditionType {
    IfStat(Kind),
    WhileStat(Kind),
    CondStat(Kind),
}

/// A unary operator applied to an operand of the wrong kind.
#[derive(PartialEq, Debug)]
pub struct MismatchedUnary {
    pub loc: Location,
    pub error: MismatchedUnaryType,
}

impl MismatchedUnary {
    pub fn new_logic(loc: &Location, kind: Kind) -> (r: Self)
        ensures
            r == (MismatchedUnary { loc: *loc, error: MismatchedUnaryType::Logic(kind) }),
    {
        Self { loc: *loc, error: MismatchedUnaryType::Logic(kind) }
    }

    pub fn new_numeric(loc: &Location, kind: Kind) -> (r: Self)
        ensures
            r == (MismatchedUnary { loc: *loc, error: MismatchedUnaryType::Numeric(kind) }),
    {
        Self { loc: *loc, error: MismatchedUnaryType::Numeric(kind) }
    }
}

/// Logic negation vs arithmetic negation, with the operand's kind.
#[derive(Clone, Copy, PartialEq, Eq, Structural, Debug)]
pub enum MismatchedUnaryType {
    Logic(Kind),
    Numeric(Kind),
}

/// An assignment whose right-hand side has a kind other than the
/// variable's declared kind.
#[derive(PartialEq, Debug)]
pub struct MismatchedAssignment {
    pub name: String,
    pub correct: Kind,
    pub given: Kind,
    pub loc: Location,
}

impl MismatchedAssignment {
    pub fn new(name: String, correct: Kind, given: Kind, loc: &Location) -> (r: Self)
        ensures
            r == (MismatchedAssignment { name, correct, given, loc: *loc }),
    {
        Self { name, correct, given, loc: *loc }
    }
}

/// A fault in a `for` loop: counter, start or end not integer, or the
/// counter modified inside the loop body.
#[derive(PartialEq, Debug)]
pub struct ForLoopError {
    pub loc: Location,
    pub error: ForLoopErrorType,
}

impl ForLoopError {
    pub fn new_non_integer_count(loc: &Location, kind: Kind) -> (r: Self)
        ensures
            r == (ForLoopError { loc: *loc, error: ForLoopErrorType::NonIntegerCount(kind) }),
    {
        Self { loc: *loc, error: ForLoopErrorType::NonIntegerCount(kind) }
    }

    pub fn new_non_integer_start(loc: &Location, kind: Kind) -> (r: Self)
        ensures
            r == (ForLoopError { loc: *loc, error: ForLoopErrorType::NonIntegerStart(kind) }),
    {
        Self { loc: *loc, error: ForLoopErrorType::NonIntegerStart(kind) }
    }

    pub fn new_non_integer_end(loc: &Location, kind: Kind) -> (r: Self)
        ensures
            r == (ForLoopError { loc: *loc, error: ForLoopErrorType::NonIntegerEnd(kind) }),
    {
        Self { loc: *loc, error: ForLoopErrorType::NonIntegerEnd(kind) }
    }

    pub fn new_count_variable_assignment(loc: &Location, name: String) -> (r: Self)
        ensures
            r == (ForLoopError {
                loc: *loc,
                error: ForLoopErrorType::CountVariableAssignment(name),
            }),
    {
        Self { loc: *loc, error: ForLoopErrorType::CountVariableAssignment(name) }
    }
}

/// The sub-kinds of `ForLoopError`.
#[derive(PartialEq, Debug)]
pub enum ForLoopErrorType {
    NonIntegerCount(Kind),
    NonIntegerStart(Kind),
    NonIntegerEnd(Kind),
    CountVariableAssignment(String),
}

/// A `return` in the main body, or one whose kind does not match the
/// function's declared result kind.
#[derive(PartialEq, Debug)]
pub struct ReturnError {
    pub loc: Location,
    pub error: ReturnErrorType,
}

impl ReturnError {
    pub fn new_return_outside_function(loc: &Location) -> (r: Self)
        ensures
            r == (ReturnError { loc: *loc, error: ReturnErrorType::ReturnOutsideFunction }),
    {
        Self { loc: *loc, error: ReturnErrorType::ReturnOutsideFunction }
    }

    pub fn new_mismatched_type(loc: &Location, decl: Kind, given: Kind) -> (r: Self)
        ensures
            r == (ReturnError {
                loc: *loc,
                error: ReturnErrorType::MismatchedReturnType(decl, given),
            }),
    {
        Self { loc: *loc, error: ReturnErrorType::MismatchedReturnType(decl, given) }
    }
}

/// The sub-kinds of `ReturnError`.
#[derive(Clone, Copy, PartialEq, Eq, Structural, Debug)]
pub enum ReturnErrorType {
    ReturnOutsideFunction,
    MismatchedReturnType(Kind, Kind),
}

/// A call with the wrong number of arguments: the function's name and
/// span, the declared count and the count at the call site.
#[derive(PartialEq, Debug)]
pub struct ArgumentCountError {
    pub func_name: String,
    pub expected: usize,
    pub found: usize,
    pub func_loc: Location,
}

impl ArgumentCountError {
    pub fn new(func_decl: &FuncDecl, func_call: &FuncCall) -> (r: Self)
        ensures
            r.func_name == func_decl.id,
            r.expected == func_decl.params@.len(),
            r.found == func_call.args@.len(),
            r.func_loc == func_decl.loc,
    {
        Self {
            func_name: func_decl.id.clone(),
            expected: func_decl.params.len(),
            found: func_call.args.len(),
            func_loc: func_decl.loc,
        }
    }
}

/// An argument whose kind differs from the declared parameter kind, by
/// position.
#[derive(PartialEq, Debug)]
pub struct MismatchedArgumentType {
    pub func_name: String,
    pub func_loc: Location,
    pub correct: Kind,
    pub given: Kind,
    pub index: usize,
    pub loc: Location,
}

impl MismatchedArgumentType {
    pub fn new(func: &FuncDecl, correct: Kind, given: Kind, index: usize, loc: &Location) -> (r:
        Self)
        ensures
            r.func_name == func.id,
            r.func_loc == func.loc,
            r.correct == correct,
            r.given == given,
            r.index == index,
            r.loc == *loc,
    {
        Self { func_name: func.id.clone(), func_loc: func.loc, correct, given, index, loc: *loc }
    }
}

/// A non-void function whose body does not end with a `return` on every
/// path: the function's span, the span of the offending last statement,
/// and the declared result kind.
#[derive(PartialEq, Debug)]
pub struct MissingReturn {
    pub func_loc: Location,
    pub stat_loc: Location,
    pub kind: Kind,
}

impl MissingReturn {
    pub fn new(func_loc: &Location, stat_loc: &Location, kind: Kind) -> (r: Self)
        ensures
            r == (MissingReturn { func_loc: *func_loc, stat_loc: *stat_loc, kind }),
    {
        Self { func_loc: *func_loc, stat_loc: *stat_loc, kind }
    }
}

} // verus!
