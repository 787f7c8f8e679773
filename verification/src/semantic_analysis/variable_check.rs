//! Checking a list of variable declarations: no declaration may have
//! kind `void`, and every listed name must enter the table without
//! colliding with an earlier definition.

use vstd::prelude::*;
use crate::syntax_tree::{Kind, Location, VarDecl, VarDeclList};
use super::name_table::{VarEntry, VariableTable};
use super::semantic_error::{
    err_equiv, NameRidefinition, Ridefinition, SemanticError, VoidVariableDeclaration,
};

verus! {

/// The table state after defining each of `ids` in turn at kind `kind`,
/// or the collision error that stops the walk.
pub open spec fn spec_insert_ids(
    ids: Seq<String>,
    kind: Kind,
    loc: Location,
    vars: Seq<VarEntry>,
    blocked: Map<Seq<char>, Ridefinition>,
) -> Result<(Seq<VarEntry>, Map<Seq<char>, Ridefinition>), SemanticError>
    decreases ids.len(),
{
    if ids.len() == 0 {
        Ok((vars, blocked))
    } else if blocked.contains_key(ids[0]@) {
        Err(
            SemanticError::NameRidefinition(
                NameRidefinition {
                    name: ids[0],
                    original: blocked[ids[0]@],
                    new: Ridefinition::Variable(loc),
                },
            ),
        )
    } else {
        spec_insert_ids(
            ids.drop_first(),
            kind,
            loc,
            vars.push(VarEntry { name: ids[0], kind, loc }),
            blocked.insert(ids[0]@, Ridefinition::Variable(loc)),
        )
    }
}

/// The table state after walking every declaration, or the first error:
/// a `void` declaration is refused whole; otherwise its names enter the
/// table one by one.
pub open spec fn spec_check_variables(
    decls: Seq<VarDecl>,
    vars: Seq<VarEntry>,
    blocked: Map<Seq<char>, Ridefinition>,
) -> Result<(Seq<VarEntry>, Map<Seq<char>, Ridefinition>), SemanticError>
    decreases decls.len(),
{
    if decls.len() == 0 {
        Ok((vars, blocked))
    } else if decls[0].kind == Kind::Void {
        Err(
            SemanticError::VoidVariableDeclaration(
                VoidVariableDeclaration { names: decls[0].id_list, loc: decls[0].loc },
            ),
        )
    } else {
        match spec_insert_ids(decls[0].id_list@, decls[0].kind, decls[0].loc, vars, blocked) {
            Ok((v, b)) => spec_check_variables(decls.drop_first(), v, b),
            Err(e) => Err(e),
        }
    }
}

/// Walk a declaration list, entering every name into the table. The
/// result and the final table state are exactly what
/// `spec_check_variables` says; on an error the table is discarded.
pub fn check_variables<T: VariableTable>(var_decl_list: &VarDeclList, table: &mut T) -> (r: Result<
    (),
    SemanticError,
>)
    ensures
        match spec_check_variables(
            var_decl_list@,
            old(table).vars(),
            old(table).blocked(),
        ) {
            Ok((v, b)) => r is Ok && final (table).vars() == v && final (table).blocked() == b
                && final (table).frame() == old(table).frame(),
            Err(e) => r matches Err(a) && err_equiv(a, e) && final (table).frame() == old(
                table,
            ).frame(),
        },
{
    let ghost v0 = table.vars();
    let ghost b0 = table.blocked();
    let ghost decls = var_decl_list@;
    let n = var_decl_list.len();
    proof {
        assert(decls.skip(0) =~= decls);
    }
    for i in 0..n
        invariant
            n == decls.len(),
            decls == var_decl_list@,
            v0 == old(table).vars(),
            b0 == old(table).blocked(),
            table.frame() == old(table).frame(),
            spec_check_variables(decls, v0, b0) == spec_check_variables(
                decls.skip(i as int),
                table.vars(),
                table.blocked(),
            ),
    {
        proof {
            assert(decls.skip(i as int).len() > 0);
            assert(decls.skip(i as int)[0] == decls[i as int]);
            assert(decls.skip(i as int).drop_first() =~= decls.skip(i as int + 1));
        }
        let var_decl = &var_decl_list[i];
        if var_decl.kind == Kind::Void {
            proof {
                assert(spec_check_variables(decls, v0, b0) matches Err(e) && err_equiv(
                    SemanticError::VoidVariableDeclaration(
                        VoidVariableDeclaration {
                            names: decls[i as int].id_list,
                            loc: decls[i as int].loc,
                        },
                    ),
                    e,
                ));
            }
            return Err(
                SemanticError::VoidVariableDeclaration(VoidVariableDeclaration::new(var_decl)),
            );
        }
        let ghost vi = table.vars();
        let ghost bi = table.blocked();
        let ghost ids = var_decl.id_list@;
        let m = var_decl.id_list.len();
        proof {
            assert(ids.skip(0) =~= ids);
        }
        for j in 0..m
            invariant
                m == ids.len(),
                i < decls.len(),
                decls == var_decl_list@,
                v0 == old(table).vars(),
                b0 == old(table).blocked(),
                table.frame() == old(table).frame(),
                *var_decl == decls[i as int],
                ids == decls[i as int].id_list@,
                decls[i as int].kind != Kind::Void,
                spec_check_variables(decls, v0, b0) == spec_check_variables(
                    decls.skip(i as int),
                    vi,
                    bi,
                ),
                decls.skip(i as int).len() > 0,
                decls.skip(i as int)[0] == decls[i as int],
                decls.skip(i as int).drop_first() == decls.skip(i as int + 1),
                spec_insert_ids(ids, decls[i as int].kind, decls[i as int].loc, vi, bi)
                    == spec_insert_ids(
                    ids.skip(j as int),
                    decls[i as int].kind,
                    decls[i as int].loc,
                    table.vars(),
                    table.blocked(),
                ),
        {
            proof {
                assert(ids.skip(j as int).len() > 0);
                assert(ids.skip(j as int)[0] == ids[j as int]);
                assert(ids.skip(j as int).drop_first() =~= ids.skip(j as int + 1));
            }
            let id = &var_decl.id_list[j];
            match table.insert_variable(id, &var_decl.kind, &var_decl.loc) {
                Ok(()) => {},
                Err(e) => {
                    proof {
                        assert(spec_insert_ids(
                            ids.skip(j as int),
                            decls[i as int].kind,
                            decls[i as int].loc,
                            table.vars(),
                            table.blocked(),
                        ) == Err::<(Seq<VarEntry>, Map<Seq<char>, Ridefinition>), SemanticError>(
                            e,
                        ));
                        assert(spec_check_variables(decls.skip(i as int), vi, bi) == Err::<
                            (Seq<VarEntry>, Map<Seq<char>, Ridefinition>),
                            SemanticError,
                        >(e));
                    }
                    return Err(e);
                },
            }
        }
        proof {
            assert(ids.skip(m as int) =~= Seq::<String>::empty());
            assert(spec_insert_ids(ids, decls[i as int].kind, decls[i as int].loc, vi, bi)
                matches Ok(p) && p == (table.vars(), table.blocked()));
        }
    }
    proof {
        assert(decls.skip(n as int) =~= Seq::<VarDecl>::empty());
    }
    Ok(())
}

} // verus!
