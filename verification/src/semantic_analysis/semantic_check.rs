//! The semantic pipeline: build the global table, enter every function,
//! then check each function body and the main body in order, stopping
//! at the first error. On success the result is the program with every
//! expression annotated with its resolved kind.

use vstd::prelude::*;
use vstd::string::StringSliceAdditionalSpecFns;
use crate::syntax_tree::{
    FuncDecl, Kind, ParamDecl, ParamList, Program, VarDecl, VarDeclList,
};
use super::analyze_return_stat::{check_full_return_cover, spec_return_cover};
use super::body_check::{check_function_declaration, check_main_body, spec_build_lookup};
use super::name_table::{
    func_lookup, name_table_factory, var_lookup, FuncEntry, LocalVariableTable, VarEntry,
    VariableTable,
};
use super::semantic_error::{err_equiv, NameRidefinition, Ridefinition, SemanticError};
use super::stat_check::{ann_stat_list, lc_empty, spec_stat_list_check, Contex};
use super::variable_check::{check_variables, spec_check_variables};

verus! {

/// One function entry describes one declaration: same name, result
/// kind, span, and parameter kinds in order.
pub open spec fn entry_matches_decl(e: FuncEntry, f: FuncDecl) -> bool {
    &&& e.name == f.id
    &&& e.kind == f.kind
    &&& e.loc == f.loc
    &&& e.param_kinds@.len() == f.params@.len()
    &&& forall|j: int| 0 <= j < f.params@.len() ==> e.param_kinds@[j] == #[trigger] f.params@[j].kind
}

/// The function table lists exactly the given declarations, in order.
pub open spec fn func_table_built(funcs: Seq<FuncDecl>, entries: Seq<FuncEntry>) -> bool {
    &&& entries.len() == funcs.len()
    &&& forall|i: int| 0 <= i < funcs.len() ==> entry_matches_decl(
        #[trigger] entries[i],
        #[trigger] funcs[i],
    )
}

/// First-match lookup among the declarations themselves.
pub open spec fn decl_lookup(funcs: Seq<FuncDecl>, name: Seq<char>) -> Option<FuncDecl>
    decreases funcs.len(),
{
    if funcs.len() == 0 {
        None
    } else if funcs[0].id@ == name {
        Some(funcs[0])
    } else {
        decl_lookup(funcs.drop_first(), name)
    }
}

/// Lookup in a table built from declarations finds exactly what lookup
/// among the declarations finds.
pub proof fn lemma_func_lookup_built(funcs: Seq<FuncDecl>, entries: Seq<FuncEntry>, name: Seq<char>)
    requires
        func_table_built(funcs, entries),
    ensures
        func_lookup(entries, name) is Some <==> decl_lookup(funcs, name) is Some,
        func_lookup(entries, name) is Some ==> entry_matches_decl(
            func_lookup(entries, name)->Some_0,
            decl_lookup(funcs, name)->Some_0,
        ),
    decreases funcs.len(),
{
    if funcs.len() > 0 {
        if entries[0].name@ == name {
            assert(funcs[0].id@ == name);
        } else {
            assert(funcs[0].id@ != name);
            assert(func_table_built(funcs.drop_first(), entries.drop_first()));
            lemma_func_lookup_built(funcs.drop_first(), entries.drop_first(), name);
        }
    }
}

/// Walk the declarations, refusing a function whose name repeats a
/// global variable or an earlier function; the first collision is the
/// error.
pub open spec fn spec_insert_functions(
    funcs: Seq<FuncDecl>,
    i: int,
    globals: Seq<VarEntry>,
) -> Result<(), SemanticError>
    decreases funcs.len() - i,
{
    if i < 0 || i >= funcs.len() {
        Ok(())
    } else {
        match var_lookup(globals, funcs[i].id@) {
            Some(g) => Err(
                SemanticError::NameRidefinition(
                    NameRidefinition {
                        name: funcs[i].id,
                        original: Ridefinition::Variable(g.loc),
                        new: Ridefinition::Function(funcs[i].loc),
                    },
                ),
            ),
            None => match decl_lookup(funcs.take(i), funcs[i].id@) {
                Some(fj) => Err(
                    SemanticError::NameRidefinition(
                        NameRidefinition {
                            name: funcs[i].id,
                            original: Ridefinition::Function(fj.loc),
                            new: Ridefinition::Function(funcs[i].loc),
                        },
                    ),
                ),
                None => spec_insert_functions(funcs, i + 1, globals),
            },
        }
    }
}

/// The collision map of a local scope that holds no local name yet:
/// exactly the function names.
pub open spec fn local_blocked0(fentries: Seq<FuncEntry>) -> Map<Seq<char>, Ridefinition> {
    Map::new(
        |n: Seq<char>| func_lookup(fentries, n) is Some,
        |n: Seq<char>| Ridefinition::Function(func_lookup(fentries, n)->Some_0.loc),
    )
}

/// A local table whose global and function tiers were built from the
/// program: the globals exactly, the functions entry for entry.
pub open spec fn base_table_for(
    t: LocalVariableTable,
    gv: Seq<VarEntry>,
    funcs: Seq<FuncDecl>,
) -> bool {
    &&& t.global_table@ == gv
    &&& func_table_built(funcs, t.function_table@)
}

/// The locals of `t` are exactly what building the scope of `f` gives,
/// whenever that build succeeds.
pub open spec fn locals_built_for(t: LocalVariableTable, f: FuncDecl) -> bool {
    spec_build_lookup(f, Seq::empty(), local_blocked0(t.function_table@)) matches Ok(p) ==>
        t.local_table@ == p.0
}

/// The whole check of one function under its table `t`: build the local
/// scope, check the body, then, for a non-void function, return
/// coverage. The first error wins.
pub open spec fn func_phase(f: FuncDecl, t: LocalVariableTable) -> Result<(), SemanticError> {
    match spec_build_lookup(f, Seq::empty(), local_blocked0(t.function_table@)) {
        Err(e) => Err(e),
        Ok(_) => match spec_stat_list_check(f.body@, 0, t, Contex::Function(&f), lc_empty()) {
            Err(e) => Err(e),
            Ok(_) => if f.kind != Kind::Void {
                match spec_return_cover(f.body@, f.loc, f.kind) {
                    Err(m) => Err(SemanticError::MissingReturn(m)),
                    Ok(_) => Ok(()),
                }
            } else {
                Ok(())
            },
        },
    }
}

/// Two variable declarations that declare the same names at the same
/// kind over the same span.
pub open spec fn vd_equiv(a: VarDecl, b: VarDecl) -> bool {
    &&& a.id_list@ == b.id_list@
    &&& a.kind == b.kind
    &&& a.loc == b.loc
}

/// Declaration lists equivalent element for element.
pub open spec fn vds_equiv(a: Seq<VarDecl>, b: Seq<VarDecl>) -> bool {
    &&& a.len() == b.len()
    &&& forall|i: int| 0 <= i < a.len() ==> vd_equiv(#[trigger] a[i], #[trigger] b[i])
}

/// The annotated copy of one function: the same header, and the body
/// annotated under the function's table.
pub open spec fn func_annotated(
    f: FuncDecl,
    af: FuncDecl,
    gv: Seq<VarEntry>,
    funcs: Seq<FuncDecl>,
) -> bool {
    exists|t: LocalVariableTable|
        {
            &&& base_table_for(t, gv, funcs)
            &&& locals_built_for(t, f)
            &&& #[trigger] func_phase(f, t) is Ok
            &&& af.id == f.id
            &&& af.kind == f.kind
            &&& af.params@ == f.params@
            &&& vds_equiv(af.vars@, f.vars@)
            &&& af.loc == f.loc
            &&& ann_stat_list(f.body@, af.body@, t)
        }
}

/// The annotated copy of the whole program, together with the fact that
/// every phase of the check accepted it.
pub open spec fn program_annotated(prog: Program, p2: Program) -> bool {
    match spec_check_variables(prog.global_vars@, Seq::empty(), Map::empty()) {
        Err(_) => false,
        Ok((gv, gb)) => {
            &&& spec_insert_functions(prog.functions@, 0, gv) is Ok
            &&& vds_equiv(p2.global_vars@, prog.global_vars@)
            &&& p2.functions@.len() == prog.functions@.len()
            &&& forall|i: int| 0 <= i < prog.functions@.len() ==> func_annotated(
                #[trigger] prog.functions@[i],
                #[trigger] p2.functions@[i],
                gv,
                prog.functions@,
            )
            &&& exists|t: LocalVariableTable|
                {
                    &&& base_table_for(t, gv, prog.functions@)
                    &&& t.local_table@ =~= Seq::<VarEntry>::empty()
                    &&& #[trigger] spec_stat_list_check(
                        prog.body@,
                        0,
                        t,
                        Contex::Global,
                        lc_empty(),
                    ) is Ok
                    &&& ann_stat_list(prog.body@, p2.body@, t)
                }
        },
    }
}

/// Function `j` passes its whole phase under some table built for it.
pub open spec fn func_passes(prog: Program, gv: Seq<VarEntry>, j: int) -> bool {
    exists|t: LocalVariableTable|
        {
            &&& base_table_for(t, gv, prog.functions@)
            &&& locals_built_for(t, prog.functions@[j])
            &&& #[trigger] func_phase(prog.functions@[j], t) is Ok
        }
}

/// Every function before position `i` passes its whole phase.
pub open spec fn funcs_ok_upto(prog: Program, gv: Seq<VarEntry>, i: int) -> bool {
    forall|j: int| 0 <= j < i ==> #[trigger] func_passes(prog, gv, j)
}

/// The first error of the pipeline on `prog` is (equivalent to) `a`:
/// either the globals phase or the function-entry phase rejects, or
/// some earlier functions pass whole and then one function's phase, or
/// the main body, yields the error.
pub open spec fn program_rejected_with(prog: Program, a: SemanticError) -> bool {
    match spec_check_variables(prog.global_vars@, Seq::empty(), Map::empty()) {
        Err(e) => err_equiv(a, e),
        Ok((gv, gb)) => {
            match spec_insert_functions(prog.functions@, 0, gv) {
                Err(e) => a == e,
                Ok(_) => exists|i: int|
                    {
                        &&& 0 <= i <= prog.functions@.len()
                        &&& #[trigger] funcs_ok_upto(prog, gv, i)
                        &&& if i < prog.functions@.len() {
                            exists|t: LocalVariableTable|
                                {
                                    &&& base_table_for(t, gv, prog.functions@)
                                    &&& locals_built_for(t, prog.functions@[i])
                                    &&& (#[trigger] func_phase(prog.functions@[i], t)) matches Err(
                                        e,
                                    ) && err_equiv(a, e)
                                }
                        } else {
                            exists|t: LocalVariableTable|
                                {
                                    &&& base_table_for(t, gv, prog.functions@)
                                    &&& t.local_table@ =~= Seq::<VarEntry>::empty()
                                    &&& (#[trigger] spec_stat_list_check(
                                        prog.body@,
                                        0,
                                        t,
                                        Contex::Global,
                                        lc_empty(),
                                    )) matches Err(e) && a == e
                                }
                        }
                    },
            }
        },
    }
}

/// The parameter kinds of a declaration, in order.
fn param_kinds(params: &ParamList) -> (r: Vec<Kind>)
    ensures
        r@.len() == params@.len(),
        forall|j: int| 0 <= j < params@.len() ==> r@[j] == #[trigger] params@[j].kind,
{
    let mut r: Vec<Kind> = Vec::new();
    let n = params.len();
    for i in 0..n
        invariant
            n == params@.len(),
            r@.len() == i,
            forall|j: int| 0 <= j < i ==> r@[j] == #[trigger] params@[j].kind,
    {
        r.push(params[i].kind);
    }
    r
}

/// Copy a parameter list.
fn clone_params(params: &ParamList) -> (r: ParamList)
    ensures
        r@ == params@,
{
    let r = params.clone();
    proof {
        assert(r@ =~= params@);
    }
    r
}

/// Copy a declaration list, declaration for declaration.
fn clone_var_decls(decls: &VarDeclList) -> (r: VarDeclList)
    ensures
        vds_equiv(r@, decls@),
{
    let mut r: Vec<VarDecl> = Vec::new();
    let n = decls.len();
    for i in 0..n
        invariant
            n == decls@.len(),
            r@.len() == i,
            forall|j: int| 0 <= j < i ==> vd_equiv(#[trigger] r@[j], #[trigger] decls@[j]),
    {
        r.push(decls[i].clone());
    }
    r
}

/// Build the two frozen tiers: the globals, then every function.
fn init_table(program: &Program) -> (r: Result<
    super::name_table::FactoryLocalVariableTable,
    SemanticError,
>)
    ensures
        match spec_check_variables(program.global_vars@, Seq::empty(), Map::empty()) {
            Err(e) => r matches Err(a) && err_equiv(a, e),
            Ok((gv, gb)) => match spec_insert_functions(program.functions@, 0, gv) {
                Err(e) => r == Err::<super::name_table::FactoryLocalVariableTable, SemanticError>(
                    e,
                ),
                Ok(_) => r matches Ok(f) && f.global_table@ == gv && func_table_built(
                    program.functions@,
                    f.function_table@,
                ),
            },
        },
{
    let mut glob_var_table = name_table_factory();
    proof {
        assert(glob_var_table.blocked() =~= Map::<Seq<char>, Ridefinition>::empty());
        assert(glob_var_table.vars() =~= Seq::<VarEntry>::empty());
    }
    match check_variables(&program.global_vars, &mut glob_var_table) {
        Ok(()) => {},
        Err(e) => {
            return Err(e);
        },
    }
    let ghost gv = glob_var_table.global_table@;
    let mut func_tabl = glob_var_table.switch_to_function_table();
    let ghost funcs = program.functions@;
    let n = program.functions.len();
    proof {
        assert(funcs.take(0) =~= Seq::<FuncDecl>::empty());
    }
    for i in 0..n
        invariant
            n == funcs.len(),
            funcs == program.functions@,
            func_tabl.global_table@ == gv,
            spec_check_variables(program.global_vars@, Seq::empty(), Map::empty()) matches Ok(p)
                && p.0 == gv,
            func_table_built(funcs.take(i as int), func_tabl.function_table@),
            spec_insert_functions(funcs, 0, gv) == spec_insert_functions(funcs, i as int, gv),
    {
        let func_decl = &program.functions[i];
        let kinds = param_kinds(&func_decl.params);
        proof {
            lemma_func_lookup_built(
                funcs.take(i as int),
                func_tabl.function_table@,
                func_decl.id@,
            );
        }
        let ghost entries_before = func_tabl.function_table@;
        match func_tabl.insert_function(&func_decl.id, &func_decl.kind, kinds, &func_decl.loc) {
            Ok(()) => {
                proof {
                    assert(funcs.take(i as int).push(funcs[i as int]) =~= funcs.take(i as int + 1));
                    assert(func_table_built(funcs.take(i as int + 1), func_tabl.function_table@));
                }
            },
            Err(e) => {
                proof {
                    assert(spec_insert_functions(funcs, i as int, gv) == Err::<
                        (),
                        SemanticError,
                    >(e));
                }
                return Err(e);
            },
        }
    }
    proof {
        assert(funcs.take(n as int) =~= funcs);
    }
    Ok(func_tabl.switch_to_local_table())
}

/// A table entry for entry equivalent to one built from the
/// declarations is itself built from them.
pub proof fn lemma_built_equiv(funcs: Seq<FuncDecl>, a: Seq<FuncEntry>, b: Seq<FuncEntry>)
    requires
        func_table_built(funcs, a),
        super::name_table::func_entries_equiv(b, a),
    ensures
        func_table_built(funcs, b),
{
    assert forall|i: int| 0 <= i < funcs.len() implies entry_matches_decl(
        #[trigger] b[i],
        #[trigger] funcs[i],
    ) by {
        assert(super::name_table::func_entry_equiv(b[i], a[i]));
        assert(entry_matches_decl(a[i], funcs[i]));
    }
}

/// One more function passing its phase extends the passed prefix.
pub proof fn lemma_funcs_ok_extend(
    prog: Program,
    gv: Seq<VarEntry>,
    i: int,
    t: LocalVariableTable,
)
    requires
        0 <= i < prog.functions@.len(),
        funcs_ok_upto(prog, gv, i),
        base_table_for(t, gv, prog.functions@),
        locals_built_for(t, prog.functions@[i]),
        func_phase(prog.functions@[i], t) is Ok,
    ensures
        funcs_ok_upto(prog, gv, i + 1),
{
    assert forall|j: int| 0 <= j < i + 1 implies #[trigger] func_passes(prog, gv, j) by {
        if j == i {
            assert(func_phase(prog.functions@[j], t) is Ok);
            assert(func_passes(prog, gv, j));
        }
    }
}

/// Run the whole semantic check. On success the result is the program
/// with every expression annotated (`program_annotated`); on failure,
/// the first error of the pipeline (`program_rejected_with`).
pub fn check_program(program: &Program) -> (r: Result<Program, SemanticError>)
    ensures
        r matches Ok(p2) ==> program_annotated(*program, p2),
        r matches Err(a) ==> program_rejected_with(*program, a),
{
    let table_factory = match init_table(program) {
        Ok(t) => t,
        Err(e) => {
            proof {
                assert(program_rejected_with(*program, e));
            }
            return Err(e);
        },
    };
    let ghost gv = table_factory.global_table@;
    let ghost funcs = program.functions@;
    let mut new_funcs: Vec<FuncDecl> = Vec::new();
    let n = program.functions.len();
    proof {
        assert(funcs_ok_upto(*program, gv, 0));
    }
    for i in 0..n
        invariant
            n == funcs.len(),
            funcs == program.functions@,
            table_factory.global_table@ == gv,
            func_table_built(funcs, table_factory.function_table@),
            spec_check_variables(program.global_vars@, Seq::empty(), Map::empty()) matches Ok(p)
                && p.0 == gv,
            spec_insert_functions(funcs, 0, gv) is Ok,
            new_funcs@.len() == i,
            forall|j: int| 0 <= j < i ==> func_annotated(
                #[trigger] funcs[j],
                #[trigger] new_funcs@[j],
                gv,
                funcs,
            ),
            funcs_ok_upto(*program, gv, i as int),
    {
        let decl = &program.functions[i];
        let mut local_table = table_factory.factory_local_table();
        proof {
            lemma_built_equiv(funcs, table_factory.function_table@, local_table.function_table@);
            assert(base_table_for(local_table, gv, funcs));
            assert(local_table.blocked() =~= local_blocked0(local_table.function_table@));
            assert(local_table.vars() =~= Seq::<VarEntry>::empty());
        }
        let ghost t0 = local_table;
        let body = match check_function_declaration(decl, &mut local_table) {
            Ok(b) => b,
            Err(e) => {
                proof {
                    let f = funcs[i as int];
                    assert(local_table.frame() == t0.frame());
                    assert(local_table.function_table@ == t0.function_table@);
                    assert(local_table.global_table@ == t0.global_table@);
                    assert(base_table_for(local_table, gv, funcs));
                    assert(local_blocked0(local_table.function_table@) == t0.blocked());
                    assert(t0.vars() == Seq::<VarEntry>::empty());
                    if spec_build_lookup(f, t0.vars(), t0.blocked()) is Err {
                        let e0 = spec_build_lookup(f, t0.vars(), t0.blocked())->Err_0;
                        assert(err_equiv(e, e0));
                        assert(func_phase(f, local_table) == Err::<(), SemanticError>(e0));
                    } else {
                        assert(spec_stat_list_check(
                            f.body@,
                            0,
                            local_table,
                            Contex::Function(&f),
                            lc_empty(),
                        ) == Err::<(), SemanticError>(e));
                        assert(func_phase(f, local_table) == Err::<(), SemanticError>(e));
                        assert(err_equiv(e, e));
                    }
                    assert(locals_built_for(local_table, f));
                    assert(program_rejected_with(*program, e));
                }
                return Err(e);
            },
        };
        proof {
            let f = funcs[i as int];
            assert(local_table.frame() == t0.frame());
            assert(local_table.function_table@ == t0.function_table@);
            assert(base_table_for(local_table, gv, funcs));
            assert(local_blocked0(local_table.function_table@) == t0.blocked());
            assert(spec_build_lookup(f, t0.vars(), t0.blocked()) is Ok);
            assert(locals_built_for(local_table, f));
            assert(spec_stat_list_check(f.body@, 0, local_table, Contex::Function(&f), lc_empty())
                is Ok);
        }
        if !matches!(decl.kind, Kind::Void) {
            match check_full_return_cover(&decl.body, &decl.loc, &decl.kind) {
                Ok(()) => {},
                Err(m) => {
                    let e = SemanticError::MissingReturn(m);
                    proof {
                        let f = funcs[i as int];
                        assert(func_phase(f, local_table) == Err::<(), SemanticError>(e));
                        assert(err_equiv(e, e));
                        assert(program_rejected_with(*program, e));
                    }
                    return Err(e);
                },
            }
        }
        let af = FuncDecl {
            id: decl.id.clone(),
            kind: decl.kind,
            params: clone_params(&decl.params),
            vars: clone_var_decls(&decl.vars),
            body,
            loc: decl.loc,
        };
        proof {
            let f = funcs[i as int];
            assert(func_phase(f, local_table) is Ok);
            assert(func_annotated(f, af, gv, funcs));
            lemma_funcs_ok_extend(*program, gv, i as int, local_table);
        }
        new_funcs.push(af);
    }
    let main_table = table_factory.factory_local_table();
    proof {
        lemma_built_equiv(funcs, table_factory.function_table@, main_table.function_table@);
        assert(base_table_for(main_table, gv, funcs));
        assert(main_table.local_table@ =~= Seq::<VarEntry>::empty());
    }
    let main_body = match check_main_body(&program.body, &main_table) {
        Ok(b) => b,
        Err(e) => {
            proof {
                let wi = funcs.len() as int;
                assert(funcs_ok_upto(*program, gv, wi));
                assert(spec_stat_list_check(program.body@, 0, main_table, Contex::Global,
                    lc_empty()) == Err::<(), SemanticError>(e));
                assert(program_rejected_with(*program, e));
            }
            return Err(e);
        },
    };
    let p2 = Program {
        global_vars: clone_var_decls(&program.global_vars),
        functions: new_funcs,
        body: main_body,
    };
    proof {
        assert(ann_stat_list(program.body@, p2.body@, main_table));
        assert(program_annotated(*program, p2));
    }
    Ok(p2)
}

/// Run the whole semantic check and surface the first error as a
/// formatted diagnostic over the source text. On success the result is
/// the program with every expression annotated.
pub fn semantic_check(program: &Program, code: &str) -> (r: Result<Program, String>)
    ensures
        r matches Ok(p2) ==> program_annotated(*program, p2),
        r matches Err(msg) ==> exists|e: SemanticError|
            {
                &&& #[trigger] program_rejected_with(*program, e)
                &&& (vstd::utf8::valid_utf8(
                    super::error_message_generator::err_message_bytes(e, code.spec_bytes()),
                ) ==> vstd::utf8::encode_utf8(msg@)
                    == super::error_message_generator::err_message_bytes(e, code.spec_bytes()))
            },
{
    match check_program(program) {
        Ok(p2) => Ok(p2),
        Err(e) => {
            let msg = e.format_error(code);
            proof {
                assert(program_rejected_with(*program, e) && (vstd::utf8::valid_utf8(
                    super::error_message_generator::err_message_bytes(e, code.spec_bytes()),
                ) ==> vstd::utf8::encode_utf8(msg@)
                    == super::error_message_generator::err_message_bytes(e, code.spec_bytes())));
            }
            Err(msg)
        },
    }
}

} // verus!
