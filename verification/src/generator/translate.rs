//! Lowering a whole annotated program: the global allocation block,
//! the main body terminated by the exit opcode, then every function
//! definition, in declaration order, as one flat byte stream.

use vstd::prelude::*;
use crate::syntax_tree::{FuncDecl, Program};
use super::byte_code_generator::{
    decl_count, emit_function, emit_stats, param_count, stats_ready, ByteCodeGenerator, EmitScope,
    PAddr,
};
use super::code_generator::BlockType;
use super::function_index::build_function_index;
use super::instruction::{stream_bytes, Instr};
use super::opcode;
use super::simple_counter::AddrSize;
use super::var_cache::{
    build_global_var_cache, cache_after_decls, func_cache, layout_fits, spec_param_addrs,
    CacheEntry,
};
use crate::syntax_tree::Kind;

verus! {

/// The function names, in declaration order.
pub open spec fn spec_fx(funcs: Seq<FuncDecl>) -> Seq<String> {
    funcs.map(|i: int, f: FuncDecl| f.id)
}

/// Each function's parameter slots, in declaration order.
pub open spec fn spec_pd(funcs: Seq<FuncDecl>) -> Seq<PAddr> {
    funcs.map(
        |i: int, f: FuncDecl| PAddr {
            name: f.id,
            addrs: spec_param_addrs(f.params@, Seq::empty()),
        },
    )
}

/// The globals' layout.
pub open spec fn global_layout(prog: Program) -> Seq<CacheEntry> {
    cache_after_decls(prog.global_vars@, Seq::empty())
}

/// The scope of the main body.
pub open spec fn main_scope(prog: Program) -> EmitScope {
    EmitScope { globals: global_layout(prog), locals: None }
}

/// The scope of one function's body.
pub open spec fn function_scope(prog: Program, i: int) -> EmitScope {
    EmitScope { globals: global_layout(prog), locals: Some(func_cache(prog.functions@[i])) }
}

/// The instructions of the function definitions from position `i` on.
pub open spec fn emit_functions(prog: Program, i: int, l: int) -> (Seq<Instr>, int)
    decreases prog.functions@.len() - i,
{
    if i < 0 || i >= prog.functions@.len() {
        (Seq::empty(), l)
    } else {
        let (i1, l1) = emit_function(
            prog.functions@[i],
            l,
            function_scope(prog, i),
            spec_fx(prog.functions@),
            spec_pd(prog.functions@),
        );
        let (i2, l2) = emit_functions(prog, i + 1, l1);
        (i1 + i2, l2)
    }
}

/// The instruction stream of a whole program, and the labels it uses:
/// the global allocation block, the main body ended by the exit opcode,
/// then every function definition.
pub open spec fn program_instrs(prog: Program) -> (Seq<Instr>, int) {
    let init = Instr::Init(
        decl_count(prog.global_vars@, Kind::Int) as u16,
        decl_count(prog.global_vars@, Kind::Real) as u16,
        decl_count(prog.global_vars@, Kind::Bool) as u16,
        decl_count(prog.global_vars@, Kind::Str) as u16,
    );
    let (im, lm) = emit_stats(
        prog.body@,
        0,
        0,
        Seq::empty(),
        main_scope(prog),
        spec_fx(prog.functions@),
        spec_pd(prog.functions@),
    );
    let (ifn, lf) = emit_functions(prog, 0, lm);
    (seq![init] + im + seq![Instr::Simple(opcode::EXT)] + ifn, lf)
}

/// The per-scope allocation counts fit their 16-bit fields.
pub open spec fn counts_fit(prog: Program) -> bool {
    &&& decl_count(prog.global_vars@, Kind::Int) <= 0xffff
    &&& decl_count(prog.global_vars@, Kind::Real) <= 0xffff
    &&& decl_count(prog.global_vars@, Kind::Bool) <= 0xffff
    &&& decl_count(prog.global_vars@, Kind::Str) <= 0xffff
    &&& forall|i: int| 0 <= i < prog.functions@.len() ==> func_counts_fit(
        #[trigger] prog.functions@[i],
    )
}

/// One function's allocation counts fit their 16-bit fields.
pub open spec fn func_counts_fit(f: FuncDecl) -> bool {
    &&& param_count(f.params@, Kind::Int) + decl_count(f.vars@, Kind::Int) <= 0xffff
    &&& param_count(f.params@, Kind::Real) + decl_count(f.vars@, Kind::Real) <= 0xffff
    &&& param_count(f.params@, Kind::Bool) + decl_count(f.vars@, Kind::Bool) <= 0xffff
    &&& param_count(f.params@, Kind::Str) + decl_count(f.vars@, Kind::Str) <= 0xffff
}

/// No two functions share a name.
pub open spec fn distinct_function_names(funcs: Seq<FuncDecl>) -> bool {
    forall|i: int, j: int|
        0 <= i < j < funcs.len() ==> (#[trigger] funcs[i].id)@ != (#[trigger] funcs[j].id)@
}

/// Everything lowering a program needs: the layout fits, every body is
/// ready under its scope, the counts fit, the function names are
/// distinct, and the label space suffices.
pub open spec fn emit_ready(prog: Program) -> bool {
    &&& layout_fits(prog)
    &&& counts_fit(prog)
    &&& prog.functions@.len() <= 0x10000
    &&& distinct_function_names(prog.functions@)
    &&& stats_ready(prog.body@, main_scope(prog), spec_fx(prog.functions@), spec_pd(prog.functions@), 0)
    &&& forall|i: int| 0 <= i < prog.functions@.len() ==> stats_ready(
        (#[trigger] prog.functions@[i]).body@,
        function_scope(prog, i),
        spec_fx(prog.functions@),
        spec_pd(prog.functions@),
        0,
    )
    &&& program_instrs(prog).1 <= 0xffff
}

/// Labels only grow along the emission of function definitions.
pub proof fn lemma_emit_functions_mono(prog: Program, i: int, l: int)
    ensures
        emit_functions(prog, i, l).1 >= l,
    decreases prog.functions@.len() - i,
{
    if 0 <= i < prog.functions@.len() {
        let f = prog.functions@[i];
        let c = function_scope(prog, i);
        let fx = spec_fx(prog.functions@);
        let pd = spec_pd(prog.functions@);
        super::byte_code_generator::lemma_emit_stats_mono(f.body@, 0, l, Seq::empty(), c, fx, pd);
        let l1 = emit_function(f, l, c, fx, pd).1;
        lemma_emit_functions_mono(prog, i + 1, l1);
    }
}

/// Lower an annotated program to its byte stream: exactly the bytes of
/// `program_instrs`.
pub fn translate_to_byte_code(prog: &Program) -> (r: Vec<u8>)
    requires
        emit_ready(*prog),
    ensures
        r@ == stream_bytes(program_instrs(*prog).0),
{
    let ghost fx = spec_fx(prog.functions@);
    let ghost pd = spec_pd(prog.functions@);
    let ghost g = global_layout(*prog);
    let function_index = build_function_index(&prog.functions);
    let (glob_var_cache, param_addr) = build_global_var_cache(prog);
    proof {
        assert(function_index.index@ =~= fx);
        assert(super::byte_code_generator::pd_of(param_addr) =~= pd);
    }
    let main_cache = glob_var_cache.get_global_cache();
    let mut code_gen = ByteCodeGenerator::new(function_index, main_cache, param_addr);
    proof {
        assert(super::byte_code_generator::g_scope(code_gen) == main_scope(*prog));
        assert(super::byte_code_generator::g_fx(code_gen) == fx);
        assert(super::byte_code_generator::g_pd(code_gen) == pd);
        super::byte_code_generator::lemma_emit_stats_mono(
            prog.body@,
            0,
            0,
            Seq::empty(),
            main_scope(*prog),
            fx,
            pd,
        );
        lemma_emit_functions_mono(*prog, 0, program_instrs(*prog).0.len() as int);
        let lm = emit_stats(prog.body@, 0, 0, Seq::empty(), main_scope(*prog), fx, pd).1;
        lemma_emit_functions_mono(*prog, 0, lm);
    }
    code_gen.gen_variables(&prog.global_vars);
    code_gen.gen_block(&prog.body, BlockType::Main);
    let ghost init = Instr::Init(
        decl_count(prog.global_vars@, Kind::Int) as u16,
        decl_count(prog.global_vars@, Kind::Real) as u16,
        decl_count(prog.global_vars@, Kind::Bool) as u16,
        decl_count(prog.global_vars@, Kind::Str) as u16,
    );
    let ghost im = emit_stats(prog.body@, 0, 0, Seq::empty(), main_scope(*prog), fx, pd).0;
    let ghost lm = emit_stats(prog.body@, 0, 0, Seq::empty(), main_scope(*prog), fx, pd).1;
    proof {
        assert(code_gen.buff@ =~= seq![init] + im + seq![Instr::Simple(opcode::EXT)]);
    }
    let n = prog.functions.len();
    for i in 0..n
        invariant
            n == prog.functions@.len(),
            emit_ready(*prog),
            fx == spec_fx(prog.functions@),
            pd == spec_pd(prog.functions@),
            g == global_layout(*prog),
            init == (Instr::Init(
                decl_count(prog.global_vars@, Kind::Int) as u16,
                decl_count(prog.global_vars@, Kind::Real) as u16,
                decl_count(prog.global_vars@, Kind::Bool) as u16,
                decl_count(prog.global_vars@, Kind::Str) as u16,
            )),
            im == emit_stats(prog.body@, 0, 0, Seq::empty(), main_scope(*prog), fx, pd).0,
            lm == emit_stats(prog.body@, 0, 0, Seq::empty(), main_scope(*prog), fx, pd).1,
            super::byte_code_generator::g_fx(code_gen) == fx,
            super::byte_code_generator::g_pd(code_gen) == pd,
            code_gen.function_index.index@.len() <= 0x10000,
            code_gen.loop_exit_label@.len() == 0,
            glob_var_cache.global_vars@ == g,
            glob_var_cache.function_vars@.len() == n,
            forall|j: int| 0 <= j < n as int ==> {
                let fv = #[trigger] glob_var_cache.function_vars@[j];
                fv.name == prog.functions@[j].id && fv.vars@ == func_cache(prog.functions@[j])
            },
            code_gen.buff@ == seq![init] + im + seq![Instr::Simple(opcode::EXT)]
                + emit_functions_upto(*prog, i as int),
            super::byte_code_generator::g_lab(code_gen) == emit_upto_label(*prog, i as int, lm),
    {
        proof {
            lemma_upto_step(*prog, i as int, lm);
            super::byte_code_generator::lemma_emit_stats_mono(
                prog.functions@[i as int].body@,
                0,
                emit_upto_label(*prog, i as int, lm),
                Seq::empty(),
                function_scope(*prog, i as int),
                fx,
                pd,
            );
            lemma_emit_functions_suffix_mono(*prog, i as int, lm);
            lemma_fvars_unique(*prog, glob_var_cache.function_vars@, i as int);
        }
        let decl = &prog.functions[i];
        let local = glob_var_cache.get_local_cache(&decl.id);
        code_gen.switch_local_cache(local);
        proof {
            assert(super::byte_code_generator::g_scope(code_gen) == function_scope(
                *prog,
                i as int,
            ));
        }
        code_gen.gen_function(decl);
        proof {
            assert(code_gen.buff@ =~= seq![init] + im + seq![Instr::Simple(opcode::EXT)]
                + emit_functions_upto(*prog, i as int + 1));
        }
    }
    proof {
        lemma_upto_complete(*prog, lm);
        assert(code_gen.buff@ =~= program_instrs(*prog).0);
    }
    code_gen.get_result()
}

/// The instructions of the first `i` function definitions.
pub open spec fn emit_functions_upto(prog: Program, i: int) -> Seq<Instr>
    decreases i,
{
    if i <= 0 {
        Seq::empty()
    } else {
        emit_functions_upto(prog, i - 1) + emit_function(
            prog.functions@[i - 1],
            emit_upto_label(
                prog,
                i - 1,
                emit_stats(
                    prog.body@,
                    0,
                    0,
                    Seq::empty(),
                    main_scope(prog),
                    spec_fx(prog.functions@),
                    spec_pd(prog.functions@),
                ).1,
            ),
            function_scope(prog, i - 1),
            spec_fx(prog.functions@),
            spec_pd(prog.functions@),
        ).0
    }
}

/// The next free label after the first `i` function definitions.
pub open spec fn emit_upto_label(prog: Program, i: int, lm: int) -> int
    decreases i,
{
    if i <= 0 {
        lm
    } else {
        emit_function(
            prog.functions@[i - 1],
            emit_upto_label(prog, i - 1, lm),
            function_scope(prog, i - 1),
            spec_fx(prog.functions@),
            spec_pd(prog.functions@),
        ).1
    }
}

/// One more function definition extends the prefix.
pub proof fn lemma_upto_step(prog: Program, i: int, lm: int)
    requires
        0 <= i < prog.functions@.len(),
        lm == emit_stats(
            prog.body@,
            0,
            0,
            Seq::empty(),
            main_scope(prog),
            spec_fx(prog.functions@),
            spec_pd(prog.functions@),
        ).1,
    ensures
        emit_functions_upto(prog, i + 1) == emit_functions_upto(prog, i) + emit_function(
            prog.functions@[i],
            emit_upto_label(prog, i, lm),
            function_scope(prog, i),
            spec_fx(prog.functions@),
            spec_pd(prog.functions@),
        ).0,
        emit_upto_label(prog, i + 1, lm) == emit_function(
            prog.functions@[i],
            emit_upto_label(prog, i, lm),
            function_scope(prog, i),
            spec_fx(prog.functions@),
            spec_pd(prog.functions@),
        ).1,
{
}

/// The prefix over every function is the whole run of definitions.
pub proof fn lemma_upto_complete(prog: Program, lm: int)
    requires
        lm == emit_stats(
            prog.body@,
            0,
            0,
            Seq::empty(),
            main_scope(prog),
            spec_fx(prog.functions@),
            spec_pd(prog.functions@),
        ).1,
    ensures
        emit_functions_upto(prog, prog.functions@.len() as int) == emit_functions(prog, 0, lm).0,
        emit_upto_label(prog, prog.functions@.len() as int, lm) == emit_functions(prog, 0, lm).1,
{
    lemma_upto_eq(prog, 0, lm);
    assert(emit_functions_upto(prog, 0) =~= Seq::<Instr>::empty());
    assert(Seq::<Instr>::empty() + emit_functions(prog, 0, lm).0 =~= emit_functions(
        prog,
        0,
        lm,
    ).0);
}

/// The suffix from `i` appended to the prefix up to `i` is the whole.
pub proof fn lemma_upto_eq(prog: Program, i: int, lm: int)
    requires
        0 <= i <= prog.functions@.len(),
        lm == emit_stats(
            prog.body@,
            0,
            0,
            Seq::empty(),
            main_scope(prog),
            spec_fx(prog.functions@),
            spec_pd(prog.functions@),
        ).1,
    ensures
        emit_functions_upto(prog, prog.functions@.len() as int) == emit_functions_upto(prog, i)
            + emit_functions(prog, i, emit_upto_label(prog, i, lm)).0,
        emit_upto_label(prog, prog.functions@.len() as int, lm) == emit_functions(
            prog,
            i,
            emit_upto_label(prog, i, lm),
        ).1,
    decreases prog.functions@.len() - i,
{
    if i == prog.functions@.len() {
        assert(emit_functions_upto(prog, i) + emit_functions(
            prog,
            i,
            emit_upto_label(prog, i, lm),
        ).0 =~= emit_functions_upto(prog, i));
    } else {
        lemma_upto_step(prog, i, lm);
        lemma_upto_eq(prog, i + 1, lm);
        assert(emit_functions_upto(prog, i) + (emit_function(
            prog.functions@[i],
            emit_upto_label(prog, i, lm),
            function_scope(prog, i),
            spec_fx(prog.functions@),
            spec_pd(prog.functions@),
        ).0 + emit_functions(prog, i + 1, emit_upto_label(prog, i + 1, lm)).0)
            =~= emit_functions_upto(prog, i + 1) + emit_functions(
            prog,
            i + 1,
            emit_upto_label(prog, i + 1, lm),
        ).0);
    }
}

/// The labels of the remaining definitions stay within the label space.
pub proof fn lemma_emit_functions_suffix_mono(prog: Program, i: int, lm: int)
    requires
        0 <= i <= prog.functions@.len(),
        lm == emit_stats(
            prog.body@,
            0,
            0,
            Seq::empty(),
            main_scope(prog),
            spec_fx(prog.functions@),
            spec_pd(prog.functions@),
        ).1,
        program_instrs(prog).1 <= 0xffff,
    ensures
        emit_functions(prog, i, emit_upto_label(prog, i, lm)).1 <= 0xffff,
        0 <= i < prog.functions@.len() ==> emit_function(
            prog.functions@[i],
            emit_upto_label(prog, i, lm),
            function_scope(prog, i),
            spec_fx(prog.functions@),
            spec_pd(prog.functions@),
        ).1 <= 0xffff,
{
    lemma_upto_eq(prog, i, lm);
    lemma_upto_eq(prog, 0, lm);
    assert(emit_upto_label(prog, 0, lm) == lm);
    assert(emit_functions(prog, 0, lm).1 == program_instrs(prog).1);
    assert(emit_functions(prog, i, emit_upto_label(prog, i, lm)).1 == emit_upto_label(
        prog,
        prog.functions@.len() as int,
        lm,
    ));
    if i < prog.functions@.len() {
        lemma_upto_step(prog, i, lm);
        lemma_upto_eq(prog, i + 1, lm);
        lemma_emit_functions_mono(prog, i + 1, emit_upto_label(prog, i + 1, lm));
    }
}

/// In a program whose function names are distinct, the layout of
/// function `i` is found under its name.
pub proof fn lemma_fvars_unique(
    prog: Program,
    fvars: Seq<super::var_cache::FuncVars>,
    i: int,
)
    requires
        distinct_function_names(prog.functions@),
        fvars.len() == prog.functions@.len(),
        forall|j: int| 0 <= j < fvars.len() ==> {
            let fv = #[trigger] fvars[j];
            fv.name == prog.functions@[j].id && fv.vars@ == func_cache(prog.functions@[j])
        },
        0 <= i < prog.functions@.len(),
    ensures
        super::var_cache::fvars_lookup(fvars, prog.functions@[i].id@) matches Some(fv) && fv.vars@
            == func_cache(prog.functions@[i]),
{
    assert(fvars.skip(0) =~= fvars);
    lemma_fvars_unique_from(prog, fvars, i, 0);
}

/// The scan from position `p` finds function `i`'s layout.
pub proof fn lemma_fvars_unique_from(
    prog: Program,
    fvars: Seq<super::var_cache::FuncVars>,
    i: int,
    p: int,
)
    requires
        distinct_function_names(prog.functions@),
        fvars.len() == prog.functions@.len(),
        forall|j: int| 0 <= j < fvars.len() ==> {
            let fv = #[trigger] fvars[j];
            fv.name == prog.functions@[j].id && fv.vars@ == func_cache(prog.functions@[j])
        },
        0 <= p <= i < prog.functions@.len(),
    ensures
        super::var_cache::fvars_lookup(fvars.skip(p), prog.functions@[i].id@) matches Some(fv)
            && fv.vars@ == func_cache(prog.functions@[i]),
    decreases i - p,
{
    assert(fvars.skip(p).len() > 0);
    assert(fvars.skip(p)[0] == fvars[p]);
    if p == i {
    } else {
        assert(fvars[p].name@ != prog.functions@[i].id@);
        assert(fvars.skip(p).drop_first() =~= fvars.skip(p + 1));
        lemma_fvars_unique_from(prog, fvars, i, p + 1);
    }
}

/// Every function definition the generator emits is closed by a
/// return: its instruction block is non-empty and ends with the return
/// opcode.
pub proof fn lemma_function_block_ends_with_return(
    f: FuncDecl,
    l: int,
    c: EmitScope,
    fx: Seq<String>,
    pd: Seq<super::byte_code_generator::PAddr>,
)
    ensures
        emit_function(f, l, c, fx, pd).0.len() > 0,
        emit_function(f, l, c, fx, pd).0.last() == Instr::Simple(opcode::RET),
{
}

/// The stream of an accepted program is the global allocation block,
/// the main body terminated by the exit opcode, and then one complete
/// function definition per declared function, each ending with a
/// return.
pub proof fn lemma_program_stream_shape(prog: Program)
    ensures
        ({
            let lm = emit_stats(
                prog.body@,
                0,
                0,
                Seq::empty(),
                main_scope(prog),
                spec_fx(prog.functions@),
                spec_pd(prog.functions@),
            ).1;
            program_instrs(prog).0 == seq![
                Instr::Init(
                    decl_count(prog.global_vars@, Kind::Int) as u16,
                    decl_count(prog.global_vars@, Kind::Real) as u16,
                    decl_count(prog.global_vars@, Kind::Bool) as u16,
                    decl_count(prog.global_vars@, Kind::Str) as u16,
                ),
            ] + emit_stats(
                prog.body@,
                0,
                0,
                Seq::empty(),
                main_scope(prog),
                spec_fx(prog.functions@),
                spec_pd(prog.functions@),
            ).0 + seq![Instr::Simple(opcode::EXT)] + emit_functions_upto(
                prog,
                prog.functions@.len() as int,
            )
        }),
        forall|i: int|
            0 <= i < prog.functions@.len() ==> (#[trigger] emit_functions_upto(prog, i + 1)).len()
                > 0 && emit_functions_upto(prog, i + 1).last() == Instr::Simple(opcode::RET),
{
    let lm = emit_stats(
        prog.body@,
        0,
        0,
        Seq::empty(),
        main_scope(prog),
        spec_fx(prog.functions@),
        spec_pd(prog.functions@),
    ).1;
    lemma_upto_complete(prog, lm);
    assert forall|i: int|
        0 <= i < prog.functions@.len() implies (#[trigger] emit_functions_upto(prog, i + 1)).len()
        > 0 && emit_functions_upto(prog, i + 1).last() == Instr::Simple(opcode::RET) by {
        lemma_upto_step(prog, i, lm);
        lemma_function_block_ends_with_return(
            prog.functions@[i],
            emit_upto_label(prog, i, lm),
            function_scope(prog, i),
            spec_fx(prog.functions@),
            spec_pd(prog.functions@),
        );
    }
}

} // verus!
