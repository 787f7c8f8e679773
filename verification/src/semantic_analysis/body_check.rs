//! Checking a function declaration (its parameters and local variables
//! enter a fresh local scope, then its body is checked against the
//! declaration) and the main body.

use vstd::prelude::*;
use crate::syntax_tree::{FuncDecl, Location, ParamDecl, Stat, StatList};
use super::name_table::{LocalVariableTable, VarEntry, VariableTable};
use super::semantic_error::{err_equiv, NameRidefinition, Ridefinition, SemanticError};
use super::stat_check::{
    ann_stat, ann_stat_list, lc_empty, spec_stat_check, spec_stat_list_check, statement_check,
    Contex,
};
use super::variable_check::{check_variables, spec_check_variables};

verus! {

/// The table state after defining each parameter in turn; parameters
/// have no span of their own, so collisions point at the function.
pub open spec fn spec_insert_params(
    params: Seq<ParamDecl>,
    i: int,
    loc: Location,
    vars: Seq<VarEntry>,
    blocked: Map<Seq<char>, Ridefinition>,
) -> Result<(Seq<VarEntry>, Map<Seq<char>, Ridefinition>), SemanticError>
    decreases params.len() - i,
{
    if i < 0 || i >= params.len() {
        Ok((vars, blocked))
    } else if blocked.contains_key(params[i].id@) {
        Err(
            SemanticError::NameRidefinition(
                NameRidefinition {
                    name: params[i].id,
                    original: blocked[params[i].id@],
                    new: Ridefinition::Variable(loc),
                },
            ),
        )
    } else {
        spec_insert_params(
            params,
            i + 1,
            loc,
            vars.push(VarEntry { name: params[i].id, kind: params[i].kind, loc }),
            blocked.insert(params[i].id@, Ridefinition::Variable(loc)),
        )
    }
}

/// The local scope of a function: its parameters, then its local
/// variables, in declaration order.
pub open spec fn spec_build_lookup(
    f: FuncDecl,
    vars: Seq<VarEntry>,
    blocked: Map<Seq<char>, Ridefinition>,
) -> Result<(Seq<VarEntry>, Map<Seq<char>, Ridefinition>), SemanticError> {
    match spec_insert_params(f.params@, 0, f.loc, vars, blocked) {
        Ok((v, b)) => spec_check_variables(f.vars@, v, b),
        Err(e) => Err(e),
    }
}

/// Enter a function's parameters and local variables into its fresh
/// local scope.
fn build_lookup_table(func_decl: &FuncDecl, table: &mut LocalVariableTable) -> (r: Result<
    (),
    SemanticError,
>)
    ensures
        match spec_build_lookup(*func_decl, old(table).vars(), old(table).blocked()) {
            Ok((v, b)) => r is Ok && final (table).vars() == v && final (table).blocked() == b
                && final (table).frame() == old(table).frame(),
            Err(e) => r matches Err(a) && err_equiv(a, e) && final (table).frame() == old(
                table,
            ).frame(),
        },
{
    let ghost v0 = table.vars();
    let ghost b0 = table.blocked();
    let ghost params = func_decl.params@;
    let n = func_decl.params.len();
    for i in 0..n
        invariant
            n == params.len(),
            params == func_decl.params@,
            v0 == old(table).vars(),
            b0 == old(table).blocked(),
            table.frame() == old(table).frame(),
            spec_insert_params(params, 0, func_decl.loc, v0, b0) == spec_insert_params(
                params,
                i as int,
                func_decl.loc,
                table.vars(),
                table.blocked(),
            ),
    {
        let param = &func_decl.params[i];
        match table.insert_variable(&param.id, &param.kind, &func_decl.loc) {
            Ok(()) => {},
            Err(e) => {
                return Err(e);
            },
        }
    }
    check_variables(&func_decl.vars, table)
}

/// Check one function: build its local scope, then check its body
/// statement by statement. On success the result is the body with every
/// expression annotated.
pub fn check_function_declaration(func_decl: &FuncDecl, table: &mut LocalVariableTable) -> (r:
    Result<StatList, SemanticError>)
    ensures
        match spec_build_lookup(*func_decl, old(table).vars(), old(table).blocked()) {
            Err(e) => r matches Err(a) && err_equiv(a, e) && final (table).frame() == old(
                table,
            ).frame(),
            Ok((v, b)) => {
                &&& final (table).vars() == v
                &&& final (table).blocked() == b
                &&& final (table).frame() == old(table).frame()
                &&& match spec_stat_list_check(
                    func_decl.body@,
                    0,
                    *final (table),
                    Contex::Function(func_decl),
                    lc_empty(),
                ) {
                    Ok(u) => r matches Ok(body) && ann_stat_list(
                        func_decl.body@,
                        body@,
                        *final (table),
                    ),
                    Err(e) => r == Err::<StatList, SemanticError>(e),
                }
            },
        },
{
    match build_lookup_table(func_decl, table) {
        Ok(()) => {},
        Err(e) => {
            return Err(e);
        },
    }
    check_stat_list(&func_decl.body, table, &Contex::Function(func_decl))
}

/// Check the main body under the global scope.
pub fn check_main_body(body: &StatList, table: &LocalVariableTable) -> (r: Result<
    StatList,
    SemanticError,
>)
    ensures
        match spec_stat_list_check(body@, 0, *table, Contex::Global, lc_empty()) {
            Ok(u) => r matches Ok(ab) && ann_stat_list(body@, ab@, *table),
            Err(e) => r == Err::<StatList, SemanticError>(e),
        },
{
    check_stat_list(body, table, &Contex::Global)
}

/// Check a run of statements, each on its own (no statement of a body
/// stands inside a loop of that body).
fn check_stat_list<'a>(
    stat_list: &StatList,
    table: &LocalVariableTable,
    contex: &Contex<'a>,
) -> (r: Result<StatList, SemanticError>)
    ensures
        match spec_stat_list_check(stat_list@, 0, *table, *contex, lc_empty()) {
            Ok(u) => r matches Ok(ab) && ann_stat_list(stat_list@, ab@, *table),
            Err(e) => r == Err::<StatList, SemanticError>(e),
        },
{
    let ghost stats = stat_list@;
    let mut acc: Vec<Stat> = Vec::new();
    let n = stat_list.len();
    for i in 0..n
        invariant
            n == stats.len(),
            stats == stat_list@,
            acc@.len() == i,
            forall|j: int| 0 <= j < i ==> ann_stat(#[trigger] stats[j], #[trigger] acc@[j], *table),
            spec_stat_list_check(stats, 0, *table, *contex, lc_empty())
                == spec_stat_list_check(stats, i as int, *table, *contex, lc_empty()),
    {
        match statement_check(&stat_list[i], table, contex) {
            Ok(s) => {
                acc.push(s);
            },
            Err(e) => {
                return Err(e);
            },
        }
    }
    Ok(acc)
}

} // verus!
