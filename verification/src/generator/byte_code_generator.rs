//! The bytecode generator. It walks an annotated program and emits an
//! instruction stream: typed opcodes chosen from the type slots,
//! label-based jumps, short-circuit logic, the for-loop protocol,
//! function calls, and variable initialization.
//!
//! The emission rules are stated once as spec functions (`emit_expr`,
//! `emit_stat` and companions); the generator appends exactly the
//! stream they describe.

use vstd::prelude::*;
use crate::syntax_tree::{
    CastExpr, CondExpr, Const, Expr, ExprTree, Factor, FactorValue, ForStat, FuncCall, FuncDecl,
    IdList, IfStat, Kind, Operator, ParamList, Stat, StatList, StatType, UnaryOp, VarDecl,
    VarDeclList, WhileStat, WriteStat,
};
use super::code_generator::BlockType;
use crate::semantic_analysis::name_table::{spec_get_function, spec_get_variable, LocalVariableTable};
use crate::semantic_analysis::type_check::{ann_call, ann_expr, ann_fact, spec_check_func_call};
use super::function_index::{fn_index_of, FunctionIndex};
use super::instruction::Instr;
use super::opcode;
use super::simple_counter::{AddrSize, SimpleCounter};
use super::var_cache::{
    cache_lookup, paddr_lookup, CacheEntry, GlobalVarCache, ParamAddrs, ParameterAddress,
    VarLookup, VariableType, MAX_VAR_INDEX,
};

verus! {

/// The mask that marks an address operand as local.
pub const LOCAL_MASK: AddrSize = 0x8000;

/// The per-kind opcode of a binary operator.
pub open spec fn spec_operator_by_kind(op: Operator, k: Kind) -> u8 {
    match k {
        Kind::Int => spec_integer_operator(op),
        Kind::Real => spec_real_operator(op),
        Kind::Bool => spec_bool_operator(op),
        Kind::Str => spec_str_operator(op),
        Kind::Void => 0,
    }
}

/// The integer opcodes.
pub open spec fn spec_integer_operator(op: Operator) -> u8 {
    match op {
        Operator::Equal => opcode::EQI,
        Operator::NotEqual => opcode::NEI,
        Operator::Greater => opcode::GRI,
        Operator::GreaterEqual => opcode::GEQI,
        Operator::Less => opcode::LESQI,
        Operator::LessEqual => opcode::LEQI,
        Operator::Add => opcode::ADDI,
        Operator::Sub => opcode::SUBI,
        Operator::Mul => opcode::MULI,
        Operator::Div => opcode::DIVI,
        Operator::And => 0,
        Operator::Or => 0,
    }
}

/// The real opcodes.
pub open spec fn spec_real_operator(op: Operator) -> u8 {
    match op {
        Operator::Equal => opcode::EQR,
        Operator::NotEqual => opcode::NER,
        Operator::Greater => opcode::GRR,
        Operator::GreaterEqual => opcode::GEQR,
        Operator::Less => opcode::LESQR,
        Operator::LessEqual => opcode::LEQR,
        Operator::Add => opcode::ADDR,
        Operator::Sub => opcode::SUBR,
        Operator::Mul => opcode::MULR,
        Operator::Div => opcode::DIVR,
        Operator::And => 0,
        Operator::Or => 0,
    }
}

/// The boolean opcodes.
pub open spec fn spec_bool_operator(op: Operator) -> u8 {
    match op {
        Operator::And => opcode::AND,
        Operator::Or => opcode::OR,
        Operator::Equal => opcode::EQB,
        Operator::NotEqual => opcode::NEB,
        Operator::Greater => opcode::GRB,
        Operator::GreaterEqual => opcode::GEQB,
        Operator::Less => opcode::LESQB,
        Operator::LessEqual => opcode::LEQB,
        _ => 0,
    }
}

/// The string opcodes.
pub open spec fn spec_str_operator(op: Operator) -> u8 {
    match op {
        Operator::And => opcode::AND,
        Operator::Or => opcode::OR,
        Operator::Equal => opcode::EQS,
        Operator::NotEqual => opcode::NES,
        Operator::Greater => opcode::GRS,
        Operator::GreaterEqual => opcode::GEQS,
        Operator::Less => opcode::LESQS,
        Operator::LessEqual => opcode::LEQS,
        _ => 0,
    }
}

/// The per-kind load opcode.
pub open spec fn spec_load_by_kind(k: Kind) -> u8 {
    match k {
        Kind::Bool => opcode::LDB,
        Kind::Int => opcode::LDI,
        Kind::Real => opcode::LDR,
        Kind::Str => opcode::LDS,
        Kind::Void => 0,
    }
}

/// The per-kind store opcode.
pub open spec fn spec_store_by_kind(k: Kind) -> u8 {
    match k {
        Kind::Bool => opcode::STRB,
        Kind::Int => opcode::STRI,
        Kind::Real => opcode::STRR,
        Kind::Str => opcode::STRS,
        Kind::Void => 0,
    }
}

/// The per-kind read opcode.
pub open spec fn spec_read_by_kind(k: Kind) -> u8 {
    match k {
        Kind::Bool => opcode::RDB,
        Kind::Int => opcode::RDI,
        Kind::Real => opcode::RDR,
        Kind::Str => opcode::RDS,
        Kind::Void => 0,
    }
}

/// The per-kind write opcode.
pub open spec fn spec_write_by_kind(k: Kind) -> u8 {
    match k {
        Kind::Bool => opcode::WRB,
        Kind::Int => opcode::WRI,
        Kind::Real => opcode::WRR,
        Kind::Str => opcode::WRS,
        Kind::Void => 0,
    }
}

/// The per-kind store-to-parameter opcode.
pub open spec fn spec_store_param_by_kind(k: Kind) -> u8 {
    match k {
        Kind::Bool => opcode::STRBP,
        Kind::Int => opcode::STRIP,
        Kind::Real => opcode::STRRP,
        Kind::Str => opcode::STRSP,
        Kind::Void => 0,
    }
}

/// An address operand: the slot index, with the high bit set for a
/// local.
pub open spec fn encode_addr(idx: AddrSize, local: bool) -> AddrSize
    recommends
        idx <= MAX_VAR_INDEX,
{
    if local {
        (idx + LOCAL_MASK) as u16
    } else {
        idx
    }
}

/// Decoding the high bit of an address operand yields the scope it was
/// encoded from, and the rest of the operand its slot index: a 16-bit
/// value has its high bit set exactly when it reaches the mask.
pub proof fn lemma_encode_addr_decodes(idx: AddrSize, local: bool)
    requires
        idx <= MAX_VAR_INDEX,
    ensures
        (encode_addr(idx, local) >= LOCAL_MASK) == local,
        encode_addr(idx, local) - (if local {
            LOCAL_MASK as int
        } else {
            0int
        }) == idx,
{
}

/// A scope for emission: the globals' layout and, inside a function,
/// the locals' layout, which shadows it.
pub ghost struct EmitScope {
    pub globals: Seq<CacheEntry>,
    pub locals: Option<Seq<CacheEntry>>,
}

/// What a name resolves to under a scope: kind, slot, and whether it is
/// local.
pub open spec fn scope_resolve(c: EmitScope, name: Seq<char>) -> Option<(Kind, AddrSize, bool)> {
    match c.locals {
        Some(l) => match cache_lookup(l, name) {
            Some(e) => Some((e.kind, e.index, true)),
            None => match cache_lookup(c.globals, name) {
                Some(e) => Some((e.kind, e.index, false)),
                None => None,
            },
        },
        None => match cache_lookup(c.globals, name) {
            Some(e) => Some((e.kind, e.index, false)),
            None => None,
        },
    }
}

/// One function's parameter slots, as the specifications see them.
pub ghost struct PAddr {
    pub name: String,
    pub addrs: Seq<AddrSize>,
}

/// First-match lookup of a function's parameter slots.
pub open spec fn pd_lookup(s: Seq<PAddr>, name: Seq<char>) -> Option<PAddr>
    decreases s.len(),
{
    if s.len() == 0 {
        None
    } else if s[0].name@ == name {
        Some(s[0])
    } else {
        pd_lookup(s.drop_first(), name)
    }
}

/// The parameter slots a `ParameterAddress` value carries.
pub open spec fn pd_of(pa: ParameterAddress) -> Seq<PAddr> {
    pa.param_addr@.map(|i: int, p: ParamAddrs| PAddr { name: p.name, addrs: p.addrs@ })
}

/// The scope a `VarLookup` value carries.
pub open spec fn scope_of(c: VarLookup) -> EmitScope {
    EmitScope {
        globals: c.global_vars@,
        locals: match c.local_vars {
            Some(l) => Some(l@),
            None => None,
        },
    }
}

/// The memory instruction for a name: opcode chosen from the variable's
/// kind, operand from its slot and scope.
pub open spec fn spec_memory_instr(
    c: EmitScope,
    name: Seq<char>,
    sel: spec_fn(Kind) -> u8,
) -> Instr {
    match scope_resolve(c, name) {
        Some((k, idx, local)) => Instr::Addressed(sel(k), encode_addr(idx, local)),
        None => Instr::Simple(0),
    }
}

/// The instructions that push one constant.
pub open spec fn emit_const(c: Const) -> Instr {
    match c {
        Const::IntConst(i) => Instr::IntConst(i),
        Const::RealConst(bits) => Instr::RealConst(bits),
        Const::BoolConst(b) => Instr::BoolConst(b),
        Const::StrConst(s) => Instr::StrConst(s),
    }
}

/// The kind an annotated expression carries.
pub open spec fn slot_of(e: Expr) -> Kind {
    e.kind->Some_0
}

/// The instructions of an expression, from label base `l`: a pair of
/// the emitted stream and the next free label.
pub open spec fn emit_expr(
    e: Expr,
    l: int,
    c: EmitScope,
    fx: Seq<String>,
    pd: Seq<PAddr>,
) -> (Seq<Instr>, int)
    decreases e, 0int,
{
    match e.expr {
        ExprTree::Node(lhs, op, rhs) => {
            if op == Operator::And || op == Operator::Or {
                let (i1, l1) = emit_expr(*lhs, l, c, fx, pd);
                let sc = l1;
                let end = l1 + 1;
                let (i2, l2) = emit_expr(*rhs, l1 + 2, c, fx, pd);
                let jump = if op == Operator::And {
                    Instr::Addressed(opcode::JNE, sc as u16)
                } else {
                    Instr::Addressed(opcode::JEQ, sc as u16)
                };
                let short = Instr::BoolConst(op == Operator::Or);
                (
                    i1 + seq![jump] + i2 + seq![
                        Instr::Addressed(opcode::JUMP, end as u16),
                        Instr::Addressed(opcode::LBL, sc as u16),
                        short,
                        Instr::Addressed(opcode::LBL, end as u16),
                    ],
                    l2,
                )
            } else {
                let (i1, l1) = emit_expr(*lhs, l, c, fx, pd);
                let (i2, l2) = emit_expr(*rhs, l1, c, fx, pd);
                (
                    i1 + i2 + seq![Instr::Simple(spec_operator_by_kind(op, slot_of(*lhs)))],
                    l2,
                )
            }
        },
        ExprTree::Factor(f) => emit_factor(f, l, c, fx, pd),
    }
}

/// The instructions of a factor.
pub open spec fn emit_factor(
    f: Factor,
    l: int,
    c: EmitScope,
    fx: Seq<String>,
    pd: Seq<PAddr>,
) -> (Seq<Instr>, int)
    decreases f, 0int,
{
    match f.fact {
        FactorValue::Id(name) => (
            seq![spec_memory_instr(c, name@, |k: Kind| spec_load_by_kind(k))],
            l,
        ),
        FactorValue::Const(cv) => (seq![emit_const(cv)], l),
        FactorValue::HighPrecedence(e) => emit_expr(*e, l, c, fx, pd),
        FactorValue::CastExpr(cast) => {
            match cast {
                CastExpr::Integer(e) => {
                    let (i1, l1) = emit_expr(*e, l, c, fx, pd);
                    (i1 + seq![Instr::Simple(opcode::CSTI)], l1)
                },
                CastExpr::Real(e) => {
                    let (i1, l1) = emit_expr(*e, l, c, fx, pd);
                    (i1 + seq![Instr::Simple(opcode::CSTR)], l1)
                },
            }
        },
        FactorValue::UnaryOp(u) => {
            match u {
                UnaryOp::Minus(inner) => {
                    let (i1, l1) = emit_factor(*inner, l, c, fx, pd);
                    let neg = if inner.kind->Some_0 == Kind::Int {
                        opcode::NEGI
                    } else {
                        opcode::NEGR
                    };
                    (i1 + seq![Instr::Simple(neg)], l1)
                },
                UnaryOp::Negate(inner) => {
                    let (i1, l1) = emit_factor(*inner, l, c, fx, pd);
                    (i1 + seq![Instr::Simple(opcode::NOT)], l1)
                },
            }
        },
        FactorValue::CondExpr(ce) => {
            let false_lbl = l;
            let end_lbl = l + 1;
            let (ic, l1) = emit_expr(*ce.cond, l + 2, c, fx, pd);
            let (it, l2) = emit_expr(*ce.true_stat, l1, c, fx, pd);
            let (ie, l3) = emit_expr(*ce.false_stat, l2, c, fx, pd);
            (
                ic + seq![Instr::Addressed(opcode::JNE, false_lbl as u16)] + it + seq![
                    Instr::Addressed(opcode::JUMP, end_lbl as u16),
                    Instr::Addressed(opcode::LBL, false_lbl as u16),
                ] + ie + seq![Instr::Addressed(opcode::LBL, end_lbl as u16)],
                l3,
            )
        },
        FactorValue::FuncCall(fc) => emit_call(fc, l, c, fx, pd),
    }
}

/// The function id the index gives a name.
pub open spec fn spec_func_id(fx: Seq<String>, name: Seq<char>) -> u16 {
    fn_index_of(fx, name)->Some_0 as u16
}

/// The instructions of a call: open the callee's frame, store each
/// argument into its parameter slot, then call.
pub open spec fn emit_call(
    fc: FuncCall,
    l: int,
    c: EmitScope,
    fx: Seq<String>,
    pd: Seq<PAddr>,
) -> (Seq<Instr>, int)
    decreases fc, fc.args@.len() + 1,
{
    let fid = spec_func_id(fx, fc.id@);
    let (ia, l1) = emit_args(fc, 0, l, c, fx, pd);
    (
        seq![Instr::Addressed(opcode::PARAM, fid)] + ia + seq![
            Instr::Addressed(opcode::CALL, fid),
        ],
        l1,
    )
}

/// The instructions of the arguments from position `i` on: each is
/// evaluated and stored into the callee's parameter slot.
pub open spec fn emit_args(
    fc: FuncCall,
    i: int,
    l: int,
    c: EmitScope,
    fx: Seq<String>,
    pd: Seq<PAddr>,
) -> (Seq<Instr>, int)
    decreases fc, fc.args@.len() - i,
{
    if i < 0 || i >= fc.args@.len() {
        (Seq::empty(), l)
    } else {
        let (ie, l1) = emit_expr(fc.args@[i], l, c, fx, pd);
        let addr = paddr_of(pd, fc.id@, i);
        let store = Instr::Addressed(
            spec_store_param_by_kind(slot_of(fc.args@[i])),
            (addr + LOCAL_MASK) as u16,
        );
        let (rest, l2) = emit_args(fc, i + 1, l1, c, fx, pd);
        (ie + seq![store] + rest, l2)
    }
}

/// The slot the callee keeps for its parameter at `i`.
pub open spec fn paddr_of(pd: Seq<PAddr>, name: Seq<char>, i: int) -> AddrSize {
    pd_lookup(pd, name)->Some_0.addrs[i]
}

/// The instructions of one statement, from label base `l`, under the
/// stack `bs` of enclosing loops' exit labels.
pub open spec fn emit_stat(
    s: Stat,
    l: int,
    bs: Seq<AddrSize>,
    c: EmitScope,
    fx: Seq<String>,
    pd: Seq<PAddr>,
) -> (Seq<Instr>, int)
    decreases s, 1int,
{
    match s.stat {
        StatType::AssignStat(a) => {
            let (ie, l1) = emit_expr(a.expr, l, c, fx, pd);
            (
                ie + seq![spec_memory_instr(c, a.id@, |k: Kind| spec_store_by_kind(k))],
                l1,
            )
        },
        StatType::IfStat(i) => {
            let (ic, l1) = emit_expr(i.cond, l, c, fx, pd);
            let end_if = l1;
            let (ib, l2) = emit_stats(i.if_body@, 0, l1 + 1, bs, c, fx, pd);
            match i.else_body {
                Some(else_part) => {
                    let end = l2;
                    let (ieb, l3) = emit_stats(else_part@, 0, l2 + 1, bs, c, fx, pd);
                    (
                        ic + seq![Instr::Addressed(opcode::JNE, end_if as u16)] + ib + seq![
                            Instr::Addressed(opcode::JUMP, end as u16),
                            Instr::Addressed(opcode::LBL, end_if as u16),
                        ] + ieb + seq![Instr::Addressed(opcode::LBL, end as u16)],
                        l3,
                    )
                },
                None => (
                    ic + seq![Instr::Addressed(opcode::JNE, end_if as u16)] + ib + seq![
                        Instr::Addressed(opcode::LBL, end_if as u16),
                    ],
                    l2,
                ),
            }
        },
        StatType::WhileStat(w) => {
            let while_lbl = l;
            let end_lbl = l + 1;
            let (ic, l1) = emit_expr(w.cond, l + 2, c, fx, pd);
            let (ib, l2) = emit_stats(w.body@, 0, l1, bs.push(end_lbl as u16), c, fx, pd);
            (
                seq![Instr::Addressed(opcode::LBL, while_lbl as u16)] + ic + seq![
                    Instr::Addressed(opcode::JNE, end_lbl as u16),
                ] + ib + seq![
                    Instr::Addressed(opcode::JUMP, while_lbl as u16),
                    Instr::Addressed(opcode::LBL, end_lbl as u16),
                ],
                l2,
            )
        },
        StatType::ForStat(f) => {
            let for_lbl = l;
            let end_lbl = l + 1;
            let (ibegin, l1) = emit_expr(f.begin_expr, l + 2, c, fx, pd);
            let (iend, l2) = emit_expr(f.end_expr, l1, c, fx, pd);
            let (ib, l3) = emit_stats(f.body@, 0, l2, bs.push(end_lbl as u16), c, fx, pd);
            let store_id = spec_memory_instr(c, f.id@, |k: Kind| spec_store_by_kind(k));
            let load_id = spec_memory_instr(c, f.id@, |k: Kind| spec_load_by_kind(k));
            (
                ibegin + seq![store_id] + iend + seq![
                    Instr::Simple(opcode::BFOR),
                    Instr::Addressed(opcode::LBL, for_lbl as u16),
                ] + seq![load_id] + seq![
                    Instr::Simple(opcode::CFOR),
                    Instr::Simple(opcode::LEQI),
                    Instr::Addressed(opcode::JNE, end_lbl as u16),
                ] + ib + seq![Instr::IntConst(1)] + seq![load_id] + seq![
                    Instr::Simple(opcode::ADDI),
                ] + seq![store_id] + seq![
                    Instr::Addressed(opcode::JUMP, for_lbl as u16),
                    Instr::Addressed(opcode::LBL, end_lbl as u16),
                    Instr::Simple(opcode::EFOR),
                ],
                l3,
            )
        },
        StatType::ReturnStat(opt) => {
            match opt {
                Some(e) => {
                    let (ie, l1) = emit_expr(e, l, c, fx, pd);
                    (ie + seq![Instr::Simple(opcode::RET)], l1)
                },
                None => (seq![Instr::Simple(opcode::RET)], l),
            }
        },
        StatType::ReadStat(ids) => (emit_reads(ids@, 0, c), l),
        StatType::WriteStat(w) => {
            match w {
                WriteStat::Write(list) => {
                    let (iw, l1) = emit_writes(list@, 0, l, c, fx, pd);
                    (iw + seq![Instr::Simple(opcode::FLU)], l1)
                },
                WriteStat::WriteLine(list) => {
                    let (iw, l1) = emit_writes(list@, 0, l, c, fx, pd);
                    (iw + seq![Instr::Simple(opcode::FLN)], l1)
                },
            }
        },
        StatType::Break => (seq![Instr::Addressed(opcode::JUMP, bs.last())], l),
        StatType::FuncCall(fc) => emit_call(fc, l, c, fx, pd),
    }
}

/// The instructions of a run of statements from position `i` on.
pub open spec fn emit_stats(
    ss: Seq<Stat>,
    i: int,
    l: int,
    bs: Seq<AddrSize>,
    c: EmitScope,
    fx: Seq<String>,
    pd: Seq<PAddr>,
) -> (Seq<Instr>, int)
    decreases ss, ss.len() - i + 1,
{
    if i < 0 || i >= ss.len() {
        (Seq::empty(), l)
    } else {
        let (i1, l1) = emit_stat(ss[i], l, bs, c, fx, pd);
        let (i2, l2) = emit_stats(ss, i + 1, l1, bs, c, fx, pd);
        (i1 + i2, l2)
    }
}

/// The reads of a `read` statement: a read opcode and a store per name.
pub open spec fn emit_reads(ids: Seq<String>, i: int, c: EmitScope) -> Seq<Instr>
    decreases ids.len() - i,
{
    if i < 0 || i >= ids.len() {
        Seq::empty()
    } else {
        let read = match scope_resolve(c, ids[i]@) {
            Some((k, idx, local)) => Instr::Simple(spec_read_by_kind(k)),
            None => Instr::Simple(0),
        };
        let store = spec_memory_instr(c, ids[i]@, |k: Kind| spec_store_by_kind(k));
        seq![read, store] + emit_reads(ids, i + 1, c)
    }
}

/// The writes of a `write` statement: each argument's value, then a
/// write opcode chosen from its kind.
pub open spec fn emit_writes(
    list: Seq<Expr>,
    i: int,
    l: int,
    c: EmitScope,
    fx: Seq<String>,
    pd: Seq<PAddr>,
) -> (Seq<Instr>, int)
    decreases list, list.len() - i + 1,
{
    if i < 0 || i >= list.len() {
        (Seq::empty(), l)
    } else {
        let (ie, l1) = emit_expr(list[i], l, c, fx, pd);
        let (rest, l2) = emit_writes(list, i + 1, l1, c, fx, pd);
        (ie + seq![Instr::Simple(spec_write_by_kind(slot_of(list[i])))] + rest, l2)
    }
}


/// Whether a non-logic operator may meet operands of kind `k`.
pub open spec fn op_ok(op: Operator, k: Kind) -> bool {
    match crate::semantic_analysis::type_check::spec_operator_kind(op) {
        crate::semantic_analysis::type_check::OperatorKind::Numeric => k == Kind::Int || k
            == Kind::Real,
        crate::semantic_analysis::type_check::OperatorKind::Relational => k != Kind::Void,
        crate::semantic_analysis::type_check::OperatorKind::Logic => true,
    }
}

/// What emission needs of an expression: every slot it consults is
/// filled suitably, and every name it mentions resolves in the scope.
pub open spec fn expr_ready(e: Expr, c: EmitScope, fx: Seq<String>, pd: Seq<PAddr>) -> bool
    decreases e, 0int,
{
    match e.expr {
        ExprTree::Node(l, op, r) => expr_ready(*l, c, fx, pd) && expr_ready(*r, c, fx, pd) && (op
            != Operator::And && op != Operator::Or ==> (l.kind matches Some(k) && k != Kind::Void
            && op_ok(op, k))),
        ExprTree::Factor(f) => fact_ready(f, c, fx, pd),
    }
}

/// What emission needs of a factor.
pub open spec fn fact_ready(f: Factor, c: EmitScope, fx: Seq<String>, pd: Seq<PAddr>) -> bool
    decreases f, 0int,
{
    match f.fact {
        FactorValue::Id(n) => scope_resolve(c, n@) matches Some(p) && p.0 != Kind::Void && p.1
            <= MAX_VAR_INDEX,
        FactorValue::Const(_) => true,
        FactorValue::HighPrecedence(e) => expr_ready(*e, c, fx, pd),
        FactorValue::CastExpr(ct) => match ct {
            CastExpr::Integer(e) => expr_ready(*e, c, fx, pd),
            CastExpr::Real(e) => expr_ready(*e, c, fx, pd),
        },
        FactorValue::UnaryOp(u) => match u {
            UnaryOp::Minus(inner) => fact_ready(*inner, c, fx, pd) && (inner.kind matches Some(k)
                && (k == Kind::Int || k == Kind::Real)),
            UnaryOp::Negate(inner) => fact_ready(*inner, c, fx, pd),
        },
        FactorValue::CondExpr(ce) => expr_ready(*ce.cond, c, fx, pd) && expr_ready(
            *ce.true_stat,
            c,
            fx,
            pd,
        ) && expr_ready(*ce.false_stat, c, fx, pd),
        FactorValue::FuncCall(fc) => call_ready(fc, c, fx, pd),
    }
}

/// What emission needs of a call: the function indexed, one recorded
/// parameter slot per argument, and every argument ready with a
/// non-void slot.
pub open spec fn call_ready(fc: FuncCall, c: EmitScope, fx: Seq<String>, pd: Seq<PAddr>) -> bool
    decreases fc, fc.args@.len() + 1,
{
    &&& fn_index_of(fx, fc.id@) is Some
    &&& fx.len() <= 0x10000
    &&& pd_lookup(pd, fc.id@) matches Some(p) && p.addrs.len() == fc.args@.len() && (forall|j: int|
        0 <= j < p.addrs.len() ==> #[trigger] p.addrs[j] <= MAX_VAR_INDEX)
    &&& args_ready(fc, 0, c, fx, pd)
}

/// Every argument from position `i` on is ready.
pub open spec fn args_ready(fc: FuncCall, i: int, c: EmitScope, fx: Seq<String>, pd: Seq<
    PAddr,
>) -> bool
    decreases fc, fc.args@.len() - i,
{
    if i < 0 || i >= fc.args@.len() {
        true
    } else {
        &&& expr_ready(fc.args@[i], c, fx, pd)
        &&& fc.args@[i].kind matches Some(k) && k != Kind::Void
        &&& args_ready(fc, i + 1, c, fx, pd)
    }
}

/// A name a `read` statement targets resolves, within the index space.
pub open spec fn read_target_ok(c: EmitScope, id: String) -> bool {
    scope_resolve(c, id@) matches Some(p) && p.1 <= MAX_VAR_INDEX
}

/// Every target of a `read` statement resolves.
pub open spec fn read_targets_ok(c: EmitScope, ids: Seq<String>) -> bool {
    forall|j: int| 0 <= j < ids.len() ==> #[trigger] read_target_ok(c, ids[j])
}

/// One target of a `read` statement resolves.
pub proof fn lemma_read_target(c: EmitScope, ids: Seq<String>, i: int)
    requires
        read_targets_ok(c, ids),
        0 <= i < ids.len(),
    ensures
        read_target_ok(c, ids[i]),
{
}

/// What emission needs of a statement, `nested` loops deep.
pub open spec fn stat_ready(
    s: Stat,
    c: EmitScope,
    fx: Seq<String>,
    pd: Seq<PAddr>,
    nested: int,
) -> bool
    decreases s, 1int,
{
    match s.stat {
        StatType::AssignStat(a) => expr_ready(a.expr, c, fx, pd) && (scope_resolve(c, a.id@)
            matches Some(p) && p.0 != Kind::Void && p.1 <= MAX_VAR_INDEX),
        StatType::Break => nested > 0,
        StatType::IfStat(i) => expr_ready(i.cond, c, fx, pd) && stats_ready(
            i.if_body@,
            c,
            fx,
            pd,
            nested,
        ) && (match i.else_body {
            Some(e) => stats_ready(e@, c, fx, pd, nested),
            None => true,
        }),
        StatType::WhileStat(w) => expr_ready(w.cond, c, fx, pd) && stats_ready(
            w.body@,
            c,
            fx,
            pd,
            nested + 1,
        ),
        StatType::ForStat(f) => expr_ready(f.begin_expr, c, fx, pd) && expr_ready(
            f.end_expr,
            c,
            fx,
            pd,
        ) && (scope_resolve(c, f.id@) matches Some(p) && p.0 != Kind::Void && p.1
            <= MAX_VAR_INDEX) && stats_ready(f.body@, c, fx, pd, nested + 1),
        StatType::ReturnStat(opt) => match opt {
            Some(e) => expr_ready(e, c, fx, pd),
            None => true,
        },
        StatType::ReadStat(ids) => read_targets_ok(c, ids@),
        StatType::WriteStat(w) => match w {
            WriteStat::Write(list) => exprs_ready(list@, c, fx, pd),
            WriteStat::WriteLine(list) => exprs_ready(list@, c, fx, pd),
        },
        StatType::FuncCall(fc) => call_ready(fc, c, fx, pd),
    }
}

/// Every statement of a run is ready.
pub open spec fn stats_ready(
    ss: Seq<Stat>,
    c: EmitScope,
    fx: Seq<String>,
    pd: Seq<PAddr>,
    nested: int,
) -> bool
    decreases ss, 0int,
{
    forall|j: int| 0 <= j < ss.len() ==> stat_ready(#[trigger] ss[j], c, fx, pd, nested)
}

/// Every expression of a write list is ready, with a non-void slot.
pub open spec fn exprs_ready(list: Seq<Expr>, c: EmitScope, fx: Seq<String>, pd: Seq<PAddr>) -> bool
    decreases list, 0int,
{
    forall|j: int|
        0 <= j < list.len() ==> expr_ready(#[trigger] list[j], c, fx, pd) && (list[j].kind matches
            Some(k) && k != Kind::Void)
}

/// Labels only grow along the emission of an expression.
pub proof fn lemma_emit_expr_mono(e: Expr, l: int, c: EmitScope, fx: Seq<String>, pd: Seq<PAddr>)
    ensures
        emit_expr(e, l, c, fx, pd).1 >= l,
    decreases e, 0int,
{
    match e.expr {
        ExprTree::Node(lhs, op, rhs) => {
            if op == Operator::And || op == Operator::Or {
                lemma_emit_expr_mono(*lhs, l, c, fx, pd);
                let l1 = emit_expr(*lhs, l, c, fx, pd).1;
                lemma_emit_expr_mono(*rhs, l1 + 2, c, fx, pd);
            } else {
                lemma_emit_expr_mono(*lhs, l, c, fx, pd);
                let l1 = emit_expr(*lhs, l, c, fx, pd).1;
                lemma_emit_expr_mono(*rhs, l1, c, fx, pd);
            }
        },
        ExprTree::Factor(f) => {
            lemma_emit_factor_mono(f, l, c, fx, pd);
        },
    }
}

/// Labels only grow along the emission of a factor.
pub proof fn lemma_emit_factor_mono(f: Factor, l: int, c: EmitScope, fx: Seq<String>, pd: Seq<
    PAddr,
>)
    ensures
        emit_factor(f, l, c, fx, pd).1 >= l,
    decreases f, 0int,
{
    match f.fact {
        FactorValue::Id(_) => {},
        FactorValue::Const(_) => {},
        FactorValue::HighPrecedence(e) => {
            lemma_emit_expr_mono(*e, l, c, fx, pd);
        },
        FactorValue::CastExpr(ct) => match ct {
            CastExpr::Integer(e) => {
                lemma_emit_expr_mono(*e, l, c, fx, pd);
            },
            CastExpr::Real(e) => {
                lemma_emit_expr_mono(*e, l, c, fx, pd);
            },
        },
        FactorValue::UnaryOp(u) => match u {
            UnaryOp::Minus(inner) => {
                lemma_emit_factor_mono(*inner, l, c, fx, pd);
            },
            UnaryOp::Negate(inner) => {
                lemma_emit_factor_mono(*inner, l, c, fx, pd);
            },
        },
        FactorValue::CondExpr(ce) => {
            lemma_emit_expr_mono(*ce.cond, l + 2, c, fx, pd);
            let l1 = emit_expr(*ce.cond, l + 2, c, fx, pd).1;
            lemma_emit_expr_mono(*ce.true_stat, l1, c, fx, pd);
            let l2 = emit_expr(*ce.true_stat, l1, c, fx, pd).1;
            lemma_emit_expr_mono(*ce.false_stat, l2, c, fx, pd);
        },
        FactorValue::FuncCall(fc) => {
            lemma_emit_call_mono(fc, l, c, fx, pd);
        },
    }
}

/// Labels only grow along the emission of a call.
pub proof fn lemma_emit_call_mono(fc: FuncCall, l: int, c: EmitScope, fx: Seq<String>, pd: Seq<
    PAddr,
>)
    ensures
        emit_call(fc, l, c, fx, pd).1 >= l,
    decreases fc, fc.args@.len() + 1,
{
    lemma_emit_args_mono(fc, 0, l, c, fx, pd);
}

/// Labels only grow along the emission of arguments.
pub proof fn lemma_emit_args_mono(
    fc: FuncCall,
    i: int,
    l: int,
    c: EmitScope,
    fx: Seq<String>,
    pd: Seq<PAddr>,
)
    ensures
        emit_args(fc, i, l, c, fx, pd).1 >= l,
    decreases fc, fc.args@.len() - i,
{
    if 0 <= i < fc.args@.len() {
        lemma_emit_expr_mono(fc.args@[i], l, c, fx, pd);
        let l1 = emit_expr(fc.args@[i], l, c, fx, pd).1;
        lemma_emit_args_mono(fc, i + 1, l1, c, fx, pd);
    }
}

/// Labels only grow along the emission of a statement.
pub proof fn lemma_emit_stat_mono(
    s: Stat,
    l: int,
    bs: Seq<AddrSize>,
    c: EmitScope,
    fx: Seq<String>,
    pd: Seq<PAddr>,
)
    ensures
        emit_stat(s, l, bs, c, fx, pd).1 >= l,
    decreases s, 1int,
{
    match s.stat {
        StatType::AssignStat(a) => {
            lemma_emit_expr_mono(a.expr, l, c, fx, pd);
        },
        StatType::IfStat(i) => {
            lemma_emit_expr_mono(i.cond, l, c, fx, pd);
            let l1 = emit_expr(i.cond, l, c, fx, pd).1;
            lemma_emit_stats_mono(i.if_body@, 0, l1 + 1, bs, c, fx, pd);
            let l2 = emit_stats(i.if_body@, 0, l1 + 1, bs, c, fx, pd).1;
            match i.else_body {
                Some(else_part) => {
                    lemma_emit_stats_mono(else_part@, 0, l2 + 1, bs, c, fx, pd);
                },
                None => {},
            }
        },
        StatType::WhileStat(w) => {
            lemma_emit_expr_mono(w.cond, l + 2, c, fx, pd);
            let l1 = emit_expr(w.cond, l + 2, c, fx, pd).1;
            lemma_emit_stats_mono(w.body@, 0, l1, bs.push((l + 1) as u16), c, fx, pd);
        },
        StatType::ForStat(f) => {
            lemma_emit_expr_mono(f.begin_expr, l + 2, c, fx, pd);
            let l1 = emit_expr(f.begin_expr, l + 2, c, fx, pd).1;
            lemma_emit_expr_mono(f.end_expr, l1, c, fx, pd);
            let l2 = emit_expr(f.end_expr, l1, c, fx, pd).1;
            lemma_emit_stats_mono(f.body@, 0, l2, bs.push((l + 1) as u16), c, fx, pd);
        },
        StatType::ReturnStat(opt) => match opt {
            Some(e) => {
                lemma_emit_expr_mono(e, l, c, fx, pd);
            },
            None => {},
        },
        StatType::ReadStat(_) => {},
        StatType::WriteStat(w) => match w {
            WriteStat::Write(list) => {
                lemma_emit_writes_mono(list@, 0, l, c, fx, pd);
            },
            WriteStat::WriteLine(list) => {
                lemma_emit_writes_mono(list@, 0, l, c, fx, pd);
            },
        },
        StatType::Break => {},
        StatType::FuncCall(fc) => {
            lemma_emit_call_mono(fc, l, c, fx, pd);
        },
    }
}

/// Labels only grow along the emission of a run of statements.
pub proof fn lemma_emit_stats_mono(
    ss: Seq<Stat>,
    i: int,
    l: int,
    bs: Seq<AddrSize>,
    c: EmitScope,
    fx: Seq<String>,
    pd: Seq<PAddr>,
)
    ensures
        emit_stats(ss, i, l, bs, c, fx, pd).1 >= l,
    decreases ss, ss.len() - i + 1,
{
    if 0 <= i < ss.len() {
        lemma_emit_stat_mono(ss[i], l, bs, c, fx, pd);
        let l1 = emit_stat(ss[i], l, bs, c, fx, pd).1;
        lemma_emit_stats_mono(ss, i + 1, l1, bs, c, fx, pd);
    }
}

/// Labels only grow along the emission of a write list.
pub proof fn lemma_emit_writes_mono(
    list: Seq<Expr>,
    i: int,
    l: int,
    c: EmitScope,
    fx: Seq<String>,
    pd: Seq<PAddr>,
)
    ensures
        emit_writes(list, i, l, c, fx, pd).1 >= l,
    decreases list, list.len() - i + 1,
{
    if 0 <= i < list.len() {
        lemma_emit_expr_mono(list[i], l, c, fx, pd);
        let l1 = emit_expr(list[i], l, c, fx, pd).1;
        lemma_emit_writes_mono(list, i + 1, l1, c, fx, pd);
    }
}


/// The per-kind opcode of a binary operator.
fn operator_by_kind(op: &Operator, k: &Kind) -> (r: u8)
    ensures
        r == spec_operator_by_kind(*op, *k),
{
    match k {
        Kind::Int => integer_operator(op),
        Kind::Real => real_operator(op),
        Kind::Bool => bool_operator(op),
        Kind::Str => str_operator(op),
        Kind::Void => 0,
    }
}

/// The integer opcodes.
fn integer_operator(op: &Operator) -> (r: u8)
    ensures
        r == spec_integer_operator(*op),
{
    match op {
        Operator::Equal => opcode::EQI,
        Operator::NotEqual => opcode::NEI,
        Operator::Greater => opcode::GRI,
        Operator::GreaterEqual => opcode::GEQI,
        Operator::Less => opcode::LESQI,
        Operator::LessEqual => opcode::LEQI,
        Operator::Add => opcode::ADDI,
        Operator::Sub => opcode::SUBI,
        Operator::Mul => opcode::MULI,
        Operator::Div => opcode::DIVI,
        Operator::And => 0,
        Operator::Or => 0,
    }
}

/// The real opcodes.
fn real_operator(op: &Operator) -> (r: u8)
    ensures
        r == spec_real_operator(*op),
{
    match op {
        Operator::Equal => opcode::EQR,
        Operator::NotEqual => opcode::NER,
        Operator::Greater => opcode::GRR,
        Operator::GreaterEqual => opcode::GEQR,
        Operator::Less => opcode::LESQR,
        Operator::LessEqual => opcode::LEQR,
        Operator::Add => opcode::ADDR,
        Operator::Sub => opcode::SUBR,
        Operator::Mul => opcode::MULR,
        Operator::Div => opcode::DIVR,
        Operator::And => 0,
        Operator::Or => 0,
    }
}

/// The boolean opcodes.
fn bool_operator(op: &Operator) -> (r: u8)
    ensures
        r == spec_bool_operator(*op),
{
    match op {
        Operator::And => opcode::AND,
        Operator::Or => opcode::OR,
        Operator::Equal => opcode::EQB,
        Operator::NotEqual => opcode::NEB,
        Operator::Greater => opcode::GRB,
        Operator::GreaterEqual => opcode::GEQB,
        Operator::Less => opcode::LESQB,
        Operator::LessEqual => opcode::LEQB,
        _ => 0,
    }
}

/// The string opcodes.
fn str_operator(op: &Operator) -> (r: u8)
    ensures
        r == spec_str_operator(*op),
{
    match op {
        Operator::And => opcode::AND,
        Operator::Or => opcode::OR,
        Operator::Equal => opcode::EQS,
        Operator::NotEqual => opcode::NES,
        Operator::Greater => opcode::GRS,
        Operator::GreaterEqual => opcode::GEQS,
        Operator::Less => opcode::LESQS,
        Operator::LessEqual => opcode::LEQS,
        _ => 0,
    }
}

/// The per-kind load opcode.
fn load_by_kind(k: &Kind) -> (r: u8)
    ensures
        r == spec_load_by_kind(*k),
{
    match k {
        Kind::Bool => opcode::LDB,
        Kind::Int => opcode::LDI,
        Kind::Real => opcode::LDR,
        Kind::Str => opcode::LDS,
        Kind::Void => 0,
    }
}

/// The per-kind store opcode.
fn store_by_kind(k: &Kind) -> (r: u8)
    ensures
        r == spec_store_by_kind(*k),
{
    match k {
        Kind::Bool => opcode::STRB,
        Kind::Int => opcode::STRI,
        Kind::Real => opcode::STRR,
        Kind::Str => opcode::STRS,
        Kind::Void => 0,
    }
}

/// The per-kind read opcode.
fn read_by_kind(k: &Kind) -> (r: u8)
    ensures
        r == spec_read_by_kind(*k),
{
    match k {
        Kind::Bool => opcode::RDB,
        Kind::Int => opcode::RDI,
        Kind::Real => opcode::RDR,
        Kind::Str => opcode::RDS,
        Kind::Void => 0,
    }
}

/// The per-kind write opcode.
fn write_by_kind(k: &Kind) -> (r: u8)
    ensures
        r == spec_write_by_kind(*k),
{
    match k {
        Kind::Bool => opcode::WRB,
        Kind::Int => opcode::WRI,
        Kind::Real => opcode::WRR,
        Kind::Str => opcode::WRS,
        Kind::Void => 0,
    }
}

/// The per-kind store-to-parameter opcode.
fn store_param_by_kind(k: &Kind) -> (r: u8)
    ensures
        r == spec_store_param_by_kind(*k),
{
    match k {
        Kind::Bool => opcode::STRBP,
        Kind::Int => opcode::STRIP,
        Kind::Real => opcode::STRRP,
        Kind::Str => opcode::STRSP,
        Kind::Void => 0,
    }
}

/// Whether an operator short-circuits.
fn is_short_circuit_operator(op: &Operator) -> (r: bool)
    ensures
        r == (*op == Operator::And || *op == Operator::Or),
{
    match op {
        Operator::And | Operator::Or => true,
        _ => false,
    }
}

/// The generator's scope view.
pub open spec fn g_scope(g: ByteCodeGenerator) -> EmitScope {
    scope_of(g.local_cache)
}

/// The generator's function-index view.
pub open spec fn g_fx(g: ByteCodeGenerator) -> Seq<String> {
    g.function_index.index@
}

/// The generator's parameter-address view.
pub open spec fn g_pd(g: ByteCodeGenerator) -> Seq<PAddr> {
    pd_of(g.param_addr)
}

/// The generator's next free label.
pub open spec fn g_lab(g: ByteCodeGenerator) -> int {
    g.label_counter.counter as int
}

/// The parts of the generator that emission leaves alone.
pub open spec fn same_env(a: ByteCodeGenerator, b: ByteCodeGenerator) -> bool {
    &&& a.function_index == b.function_index
    &&& a.local_cache == b.local_cache
    &&& a.param_addr == b.param_addr
    &&& a.loop_exit_label@ == b.loop_exit_label@
}

/// The generator: the stream built so far, the label counter, the
/// break-target stack, and the layout tables of the scope being
/// emitted.
pub struct ByteCodeGenerator {
    pub buff: Vec<Instr>,
    pub function_index: FunctionIndex,
    pub label_counter: SimpleCounter,
    pub loop_exit_label: Vec<AddrSize>,
    pub local_cache: VarLookup,
    pub param_addr: ParameterAddress,
}

impl ByteCodeGenerator {
    /// A generator with an empty stream, over the given tables.
    pub fn new(
        function_index: FunctionIndex,
        local_cache: VarLookup,
        param_addr: ParameterAddress,
    ) -> (r: Self)
        ensures
            r.buff@ =~= Seq::<Instr>::empty(),
            r.function_index == function_index,
            r.label_counter.counter == 0,
            r.loop_exit_label@ =~= Seq::<AddrSize>::empty(),
            r.local_cache == local_cache,
            r.param_addr == param_addr,
    {
        Self {
            buff: Vec::new(),
            local_cache,
            function_index,
            label_counter: SimpleCounter::new(),
            loop_exit_label: Vec::new(),
            param_addr,
        }
    }

    /// Append one instruction.
    fn push_i(&mut self, ins: Instr)
        ensures
            same_env(*final (self), *old(self)),
            final (self).label_counter == old(self).label_counter,
            final (self).buff@ == old(self).buff@.push(ins),
    {
        self.buff.push(ins);
    }

    /// Append an opcode with a 16-bit operand.
    fn insert_address_command(&mut self, cmd: u8, index: AddrSize)
        ensures
            same_env(*final (self), *old(self)),
            final (self).label_counter == old(self).label_counter,
            final (self).buff@ == old(self).buff@.push(Instr::Addressed(cmd, index)),
    {
        self.push_i(Instr::Addressed(cmd, index));
    }

    /// Append an unconditional jump.
    fn insert_uncond_jump(&mut self, index: AddrSize)
        ensures
            same_env(*final (self), *old(self)),
            final (self).label_counter == old(self).label_counter,
            final (self).buff@ == old(self).buff@.push(Instr::Addressed(opcode::JUMP, index)),
    {
        self.insert_address_command(opcode::JUMP, index);
    }

    /// Append a jump taken when the stack top is false.
    fn insert_false_cond_jump(&mut self, index: AddrSize)
        ensures
            same_env(*final (self), *old(self)),
            final (self).label_counter == old(self).label_counter,
            final (self).buff@ == old(self).buff@.push(Instr::Addressed(opcode::JNE, index)),
    {
        self.insert_address_command(opcode::JNE, index);
    }

    /// Append a jump taken when the stack top is true.
    fn insert_true_cond_jump(&mut self, index: AddrSize)
        ensures
            same_env(*final (self), *old(self)),
            final (self).label_counter == old(self).label_counter,
            final (self).buff@ == old(self).buff@.push(Instr::Addressed(opcode::JEQ, index)),
    {
        self.insert_address_command(opcode::JEQ, index);
    }

    /// Append a label definition.
    fn insert_label(&mut self, index: AddrSize)
        ensures
            same_env(*final (self), *old(self)),
            final (self).label_counter == old(self).label_counter,
            final (self).buff@ == old(self).buff@.push(Instr::Addressed(opcode::LBL, index)),
    {
        self.insert_address_command(opcode::LBL, index);
    }

    /// Append the load of a variable.
    fn load_variable(&mut self, name: &String)
        requires
            scope_resolve(g_scope(*old(self)), name@) matches Some(p) && p.1 <= MAX_VAR_INDEX,
        ensures
            same_env(*final (self), *old(self)),
            final (self).label_counter == old(self).label_counter,
            final (self).buff@ == old(self).buff@.push(
                spec_memory_instr(g_scope(*old(self)), name@, |k: Kind| spec_load_by_kind(k)),
            ),
    {
        let (kind, id, scope) = self.local_cache.lookup(name);
        let addr = match scope {
            VariableType::Global => id,
            VariableType::Local => id + LOCAL_MASK,
        };
        let cmd = load_by_kind(&kind);
        self.insert_address_command(cmd, addr);
    }

    /// Append the store into a variable.
    fn assign_value(&mut self, name: &String)
        requires
            scope_resolve(g_scope(*old(self)), name@) matches Some(p) && p.1 <= MAX_VAR_INDEX,
        ensures
            same_env(*final (self), *old(self)),
            final (self).label_counter == old(self).label_counter,
            final (self).buff@ == old(self).buff@.push(
                spec_memory_instr(g_scope(*old(self)), name@, |k: Kind| spec_store_by_kind(k)),
            ),
    {
        let (kind, id, scope) = self.local_cache.lookup(name);
        let addr = match scope {
            VariableType::Global => id,
            VariableType::Local => id + LOCAL_MASK,
        };
        let cmd = store_by_kind(&kind);
        self.insert_address_command(cmd, addr);
    }

    /// Append the load of a constant.
    fn convert_constant(&mut self, const_val: &Const)
        ensures
            same_env(*final (self), *old(self)),
            final (self).label_counter == old(self).label_counter,
            final (self).buff@ == old(self).buff@.push(emit_const(*const_val)),
    {
        match const_val {
            Const::IntConst(i) => self.push_i(Instr::IntConst(*i)),
            Const::RealConst(r) => self.push_i(Instr::RealConst(*r)),
            Const::BoolConst(b) => self.push_i(Instr::BoolConst(*b)),
            Const::StrConst(s) => self.push_i(Instr::StrConst(s.clone())),
        }
    }

    /// Emit an expression: exactly the stream `emit_expr` describes.
    fn convert_expression(&mut self, expr: &Expr)
        requires
            expr_ready(*expr, g_scope(*old(self)), g_fx(*old(self)), g_pd(*old(self))),
            emit_expr(
                *expr,
                g_lab(*old(self)),
                g_scope(*old(self)),
                g_fx(*old(self)),
                g_pd(*old(self)),
            ).1 <= 0xffff,
        ensures
            same_env(*final (self), *old(self)),
            final (self).buff@ == old(self).buff@ + emit_expr(
                *expr,
                g_lab(*old(self)),
                g_scope(*old(self)),
                g_fx(*old(self)),
                g_pd(*old(self)),
            ).0,
            g_lab(*final (self)) == emit_expr(
                *expr,
                g_lab(*old(self)),
                g_scope(*old(self)),
                g_fx(*old(self)),
                g_pd(*old(self)),
            ).1,
        decreases *expr, 1int,
    {
        match &expr.expr {
            ExprTree::Node(lhs, op, rhs) => {
                if is_short_circuit_operator(op) {
                    self.convert_short_circuit_operator(expr);
                } else {
                    self.convert_standard_node(expr);
                }
            },
            ExprTree::Factor(fact) => {
                self.convert_factor(fact);
                proof {
                    assert(final (self).buff@ =~= old(self).buff@ + emit_expr(
                        *expr,
                        g_lab(*old(self)),
                        g_scope(*old(self)),
                        g_fx(*old(self)),
                        g_pd(*old(self)),
                    ).0);
                }
            },
        }
    }

    /// Emit a short-circuit `and`/`or`: if the left operand decides,
    /// jump past the right one and push the deciding value.
    fn convert_short_circuit_operator(&mut self, expr: &Expr)
        requires
            expr.expr matches ExprTree::Node(lhs, op, rhs) && (op == Operator::And || op
                == Operator::Or),
            expr_ready(*expr, g_scope(*old(self)), g_fx(*old(self)), g_pd(*old(self))),
            emit_expr(
                *expr,
                g_lab(*old(self)),
                g_scope(*old(self)),
                g_fx(*old(self)),
                g_pd(*old(self)),
            ).1 <= 0xffff,
        ensures
            same_env(*final (self), *old(self)),
            final (self).buff@ == old(self).buff@ + emit_expr(
                *expr,
                g_lab(*old(self)),
                g_scope(*old(self)),
                g_fx(*old(self)),
                g_pd(*old(self)),
            ).0,
            g_lab(*final (self)) == emit_expr(
                *expr,
                g_lab(*old(self)),
                g_scope(*old(self)),
                g_fx(*old(self)),
                g_pd(*old(self)),
            ).1,
        decreases *expr, 0int,
    {
        let ghost c = g_scope(*old(self));
        let ghost fx = g_fx(*old(self));
        let ghost pd = g_pd(*old(self));
        let ghost l = g_lab(*old(self));
        match &expr.expr {
            ExprTree::Node(lhs, op, rhs) => {
                proof {
                    lemma_emit_expr_mono(**lhs, l, c, fx, pd);
                    let l1 = emit_expr(**lhs, l, c, fx, pd).1;
                    lemma_emit_expr_mono(**rhs, l1 + 2, c, fx, pd);
                }
                self.convert_expression(lhs);
                let sc_label = self.label_counter.count_one();
                let end_label = self.label_counter.count_one();
                match op {
                    Operator::And => {
                        self.insert_false_cond_jump(sc_label);
                    },
                    Operator::Or => {
                        self.insert_true_cond_jump(sc_label);
                    },
                    _ => {},
                }
                self.convert_expression(rhs);
                self.insert_uncond_jump(end_label);
                self.insert_label(sc_label);
                match op {
                    Operator::And => {
                        self.convert_constant(&Const::BoolConst(false));
                    },
                    Operator::Or => {
                        self.convert_constant(&Const::BoolConst(true));
                    },
                    _ => {},
                }
                self.insert_label(end_label);
                proof {
                    let (i1, l1) = emit_expr(**lhs, l, c, fx, pd);
                    let (i2, l2) = emit_expr(**rhs, l1 + 2, c, fx, pd);
                    let jump = if *op == Operator::And {
                        Instr::Addressed(opcode::JNE, l1 as u16)
                    } else {
                        Instr::Addressed(opcode::JEQ, l1 as u16)
                    };
                    assert(final (self).buff@ =~= old(self).buff@ + (i1 + seq![jump] + i2 + seq![
                        Instr::Addressed(opcode::JUMP, (l1 + 1) as u16),
                        Instr::Addressed(opcode::LBL, l1 as u16),
                        Instr::BoolConst(*op == Operator::Or),
                        Instr::Addressed(opcode::LBL, (l1 + 1) as u16),
                    ]));
                }
            },
            _ => {},
        }
    }

    /// Emit an ordinary binary node: left, right, then the per-kind
    /// operator opcode.
    fn convert_standard_node(&mut self, expr: &Expr)
        requires
            expr.expr matches ExprTree::Node(lhs, op, rhs) && op != Operator::And && op
                != Operator::Or,
            expr_ready(*expr, g_scope(*old(self)), g_fx(*old(self)), g_pd(*old(self))),
            emit_expr(
                *expr,
                g_lab(*old(self)),
                g_scope(*old(self)),
                g_fx(*old(self)),
                g_pd(*old(self)),
            ).1 <= 0xffff,
        ensures
            same_env(*final (self), *old(self)),
            final (self).buff@ == old(self).buff@ + emit_expr(
                *expr,
                g_lab(*old(self)),
                g_scope(*old(self)),
                g_fx(*old(self)),
                g_pd(*old(self)),
            ).0,
            g_lab(*final (self)) == emit_expr(
                *expr,
                g_lab(*old(self)),
                g_scope(*old(self)),
                g_fx(*old(self)),
                g_pd(*old(self)),
            ).1,
        decreases *expr, 0int,
    {
        let ghost c = g_scope(*old(self));
        let ghost fx = g_fx(*old(self));
        let ghost pd = g_pd(*old(self));
        let ghost l = g_lab(*old(self));
        match &expr.expr {
            ExprTree::Node(lhs, op, rhs) => {
                proof {
                    lemma_emit_expr_mono(**lhs, l, c, fx, pd);
                    let l1 = emit_expr(**lhs, l, c, fx, pd).1;
                    lemma_emit_expr_mono(**rhs, l1, c, fx, pd);
                }
                self.convert_expression(lhs);
                self.convert_expression(rhs);
                let k = match &lhs.kind {
                    Some(k) => *k,
                    None => Kind::Void,
                };
                let cmd = operator_by_kind(op, &k);
                self.push_i(Instr::Simple(cmd));
                proof {
                    let (i1, l1) = emit_expr(**lhs, l, c, fx, pd);
                    let (i2, l2) = emit_expr(**rhs, l1, c, fx, pd);
                    assert(final (self).buff@ =~= old(self).buff@ + (i1 + i2 + seq![
                        Instr::Simple(spec_operator_by_kind(*op, slot_of(**lhs))),
                    ]));
                }
            },
            _ => {},
        }
    }

    /// Emit a factor.
    fn convert_factor(&mut self, fact: &Factor)
        requires
            fact_ready(*fact, g_scope(*old(self)), g_fx(*old(self)), g_pd(*old(self))),
            emit_factor(
                *fact,
                g_lab(*old(self)),
                g_scope(*old(self)),
                g_fx(*old(self)),
                g_pd(*old(self)),
            ).1 <= 0xffff,
        ensures
            same_env(*final (self), *old(self)),
            final (self).buff@ == old(self).buff@ + emit_factor(
                *fact,
                g_lab(*old(self)),
                g_scope(*old(self)),
                g_fx(*old(self)),
                g_pd(*old(self)),
            ).0,
            g_lab(*final (self)) == emit_factor(
                *fact,
                g_lab(*old(self)),
                g_scope(*old(self)),
                g_fx(*old(self)),
                g_pd(*old(self)),
            ).1,
        decreases *fact, 2int,
    {
        let ghost c = g_scope(*old(self));
        let ghost fx = g_fx(*old(self));
        let ghost pd = g_pd(*old(self));
        let ghost l = g_lab(*old(self));
        match &fact.fact {
            FactorValue::Id(id) => {
                self.load_variable(id);
                proof {
                    assert(final (self).buff@ =~= old(self).buff@ + emit_factor(
                        *fact,
                        l,
                        c,
                        fx,
                        pd,
                    ).0);
                }
            },
            FactorValue::CastExpr(cast) => {
                self.convert_cast_expr(cast);
                proof {
                    assert(final (self).buff@ =~= old(self).buff@ + emit_factor(
                        *fact,
                        l,
                        c,
                        fx,
                        pd,
                    ).0);
                }
            },
            FactorValue::CondExpr(cond_expr) => {
                self.convert_cond_expr(cond_expr);
                proof {
                    assert(final (self).buff@ =~= old(self).buff@ + emit_factor(
                        *fact,
                        l,
                        c,
                        fx,
                        pd,
                    ).0);
                }
            },
            FactorValue::Const(cons) => {
                self.convert_constant(cons);
                proof {
                    assert(final (self).buff@ =~= old(self).buff@ + emit_factor(
                        *fact,
                        l,
                        c,
                        fx,
                        pd,
                    ).0);
                }
            },
            FactorValue::FuncCall(f_call) => {
                self.convert_func_call(f_call);
                proof {
                    assert(final (self).buff@ =~= old(self).buff@ + emit_factor(
                        *fact,
                        l,
                        c,
                        fx,
                        pd,
                    ).0);
                }
            },
            FactorValue::HighPrecedence(expr) => {
                self.convert_expression(expr);
                proof {
                    assert(final (self).buff@ =~= old(self).buff@ + emit_factor(
                        *fact,
                        l,
                        c,
                        fx,
                        pd,
                    ).0);
                }
            },
            FactorValue::UnaryOp(unary) => {
                self.convert_unary_op(unary);
                proof {
                    assert(final (self).buff@ =~= old(self).buff@ + emit_factor(
                        *fact,
                        l,
                        c,
                        fx,
                        pd,
                    ).0);
                }
            },
        }
    }

    /// Emit a conditional expression.
    fn convert_cond_expr(&mut self, cond_expr: &CondExpr)
        requires
            expr_ready(*cond_expr.cond, g_scope(*old(self)), g_fx(*old(self)), g_pd(*old(self))),
            expr_ready(
                *cond_expr.true_stat,
                g_scope(*old(self)),
                g_fx(*old(self)),
                g_pd(*old(self)),
            ),
            expr_ready(
                *cond_expr.false_stat,
                g_scope(*old(self)),
                g_fx(*old(self)),
                g_pd(*old(self)),
            ),
            ({
                let c = g_scope(*old(self));
                let fx = g_fx(*old(self));
                let pd = g_pd(*old(self));
                let l = g_lab(*old(self));
                let l1 = emit_expr(*cond_expr.cond, l + 2, c, fx, pd).1;
                let l2 = emit_expr(*cond_expr.true_stat, l1, c, fx, pd).1;
                emit_expr(*cond_expr.false_stat, l2, c, fx, pd).1 <= 0xffff
            }),
        ensures
            same_env(*final (self), *old(self)),
            ({
                let c = g_scope(*old(self));
                let fx = g_fx(*old(self));
                let pd = g_pd(*old(self));
                let l = g_lab(*old(self));
                let (ic, l1) = emit_expr(*cond_expr.cond, l + 2, c, fx, pd);
                let (it, l2) = emit_expr(*cond_expr.true_stat, l1, c, fx, pd);
                let (ie, l3) = emit_expr(*cond_expr.false_stat, l2, c, fx, pd);
                &&& final (self).buff@ == old(self).buff@ + ic + seq![
                    Instr::Addressed(opcode::JNE, l as u16),
                ] + it + seq![
                    Instr::Addressed(opcode::JUMP, (l + 1) as u16),
                    Instr::Addressed(opcode::LBL, l as u16),
                ] + ie + seq![Instr::Addressed(opcode::LBL, (l + 1) as u16)]
                &&& g_lab(*final (self)) == l3
            }),
        decreases *cond_expr, 0int,
    {
        let ghost c = g_scope(*old(self));
        let ghost fx = g_fx(*old(self));
        let ghost pd = g_pd(*old(self));
        let ghost l = g_lab(*old(self));
        proof {
            lemma_emit_expr_mono(*cond_expr.cond, l + 2, c, fx, pd);
            let l1 = emit_expr(*cond_expr.cond, l + 2, c, fx, pd).1;
            lemma_emit_expr_mono(*cond_expr.true_stat, l1, c, fx, pd);
            let l2 = emit_expr(*cond_expr.true_stat, l1, c, fx, pd).1;
            lemma_emit_expr_mono(*cond_expr.false_stat, l2, c, fx, pd);
        }
        let false_lbl = self.label_counter.count_one();
        let end_lbl = self.label_counter.count_one();
        self.convert_expression(&cond_expr.cond);
        self.insert_false_cond_jump(false_lbl);
        self.convert_expression(&cond_expr.true_stat);
        self.insert_uncond_jump(end_lbl);
        self.insert_label(false_lbl);
        self.convert_expression(&cond_expr.false_stat);
        self.insert_label(end_lbl);
        proof {
            let (ic, l1) = emit_expr(*cond_expr.cond, l + 2, c, fx, pd);
            let (it, l2) = emit_expr(*cond_expr.true_stat, l1, c, fx, pd);
            let (ie, l3) = emit_expr(*cond_expr.false_stat, l2, c, fx, pd);
            assert(final (self).buff@ =~= old(self).buff@ + ic + seq![
                Instr::Addressed(opcode::JNE, l as u16),
            ] + it + seq![
                Instr::Addressed(opcode::JUMP, (l + 1) as u16),
                Instr::Addressed(opcode::LBL, l as u16),
            ] + ie + seq![Instr::Addressed(opcode::LBL, (l + 1) as u16)]);
        }
    }

    /// Emit a unary operator.
    fn convert_unary_op(&mut self, unary: &UnaryOp)
        requires
            fact_ready(
                Factor { fact: FactorValue::UnaryOp(*unary), kind: None },
                g_scope(*old(self)),
                g_fx(*old(self)),
                g_pd(*old(self)),
            ),
            emit_factor(
                Factor { fact: FactorValue::UnaryOp(*unary), kind: None },
                g_lab(*old(self)),
                g_scope(*old(self)),
                g_fx(*old(self)),
                g_pd(*old(self)),
            ).1 <= 0xffff,
        ensures
            same_env(*final (self), *old(self)),
            final (self).buff@ == old(self).buff@ + emit_factor(
                Factor { fact: FactorValue::UnaryOp(*unary), kind: None },
                g_lab(*old(self)),
                g_scope(*old(self)),
                g_fx(*old(self)),
                g_pd(*old(self)),
            ).0,
            g_lab(*final (self)) == emit_factor(
                Factor { fact: FactorValue::UnaryOp(*unary), kind: None },
                g_lab(*old(self)),
                g_scope(*old(self)),
                g_fx(*old(self)),
                g_pd(*old(self)),
            ).1,
        decreases *unary, 0int,
    {
        let ghost c = g_scope(*old(self));
        let ghost fx = g_fx(*old(self));
        let ghost pd = g_pd(*old(self));
        let ghost l = g_lab(*old(self));
        match unary {
            UnaryOp::Minus(fact) => {
                self.convert_factor(fact);
                let cmd = match &fact.kind {
                    Some(Kind::Int) => opcode::NEGI,
                    _ => opcode::NEGR,
                };
                self.push_i(Instr::Simple(cmd));
                proof {
                    let (i1, l1) = emit_factor(**fact, l, c, fx, pd);
                    assert(final (self).buff@ =~= old(self).buff@ + emit_factor(
                        Factor { fact: FactorValue::UnaryOp(*unary), kind: None },
                        l,
                        c,
                        fx,
                        pd,
                    ).0);
                }
            },
            UnaryOp::Negate(fact) => {
                self.convert_factor(fact);
                self.push_i(Instr::Simple(opcode::NOT));
                proof {
                    let (i1, l1) = emit_factor(**fact, l, c, fx, pd);
                    assert(final (self).buff@ =~= old(self).buff@ + emit_factor(
                        Factor { fact: FactorValue::UnaryOp(*unary), kind: None },
                        l,
                        c,
                        fx,
                        pd,
                    ).0);
                }
            },
        }
    }

    /// Emit a cast.
    fn convert_cast_expr(&mut self, cast: &CastExpr)
        requires
            fact_ready(
                Factor { fact: FactorValue::CastExpr(*cast), kind: None },
                g_scope(*old(self)),
                g_fx(*old(self)),
                g_pd(*old(self)),
            ),
            emit_factor(
                Factor { fact: FactorValue::CastExpr(*cast), kind: None },
                g_lab(*old(self)),
                g_scope(*old(self)),
                g_fx(*old(self)),
                g_pd(*old(self)),
            ).1 <= 0xffff,
        ensures
            same_env(*final (self), *old(self)),
            final (self).buff@ == old(self).buff@ + emit_factor(
                Factor { fact: FactorValue::CastExpr(*cast), kind: None },
                g_lab(*old(self)),
                g_scope(*old(self)),
                g_fx(*old(self)),
                g_pd(*old(self)),
            ).0,
            g_lab(*final (self)) == emit_factor(
                Factor { fact: FactorValue::CastExpr(*cast), kind: None },
                g_lab(*old(self)),
                g_scope(*old(self)),
                g_fx(*old(self)),
                g_pd(*old(self)),
            ).1,
        decreases *cast, 0int,
    {
        let ghost c = g_scope(*old(self));
        let ghost fx = g_fx(*old(self));
        let ghost pd = g_pd(*old(self));
        let ghost l = g_lab(*old(self));
        match cast {
            CastExpr::Integer(expr) => {
                self.convert_expression(expr);
                self.push_i(Instr::Simple(opcode::CSTI));
                proof {
                    assert(final (self).buff@ =~= old(self).buff@ + emit_factor(
                        Factor { fact: FactorValue::CastExpr(*cast), kind: None },
                        l,
                        c,
                        fx,
                        pd,
                    ).0);
                }
            },
            CastExpr::Real(expr) => {
                self.convert_expression(expr);
                self.push_i(Instr::Simple(opcode::CSTR));
                proof {
                    assert(final (self).buff@ =~= old(self).buff@ + emit_factor(
                        Factor { fact: FactorValue::CastExpr(*cast), kind: None },
                        l,
                        c,
                        fx,
                        pd,
                    ).0);
                }
            },
        }
    }

    /// Emit a call.
    fn convert_func_call(&mut self, func_call: &FuncCall)
        requires
            call_ready(*func_call, g_scope(*old(self)), g_fx(*old(self)), g_pd(*old(self))),
            emit_call(
                *func_call,
                g_lab(*old(self)),
                g_scope(*old(self)),
                g_fx(*old(self)),
                g_pd(*old(self)),
            ).1 <= 0xffff,
        ensures
            same_env(*final (self), *old(self)),
            final (self).buff@ == old(self).buff@ + emit_call(
                *func_call,
                g_lab(*old(self)),
                g_scope(*old(self)),
                g_fx(*old(self)),
                g_pd(*old(self)),
            ).0,
            g_lab(*final (self)) == emit_call(
                *func_call,
                g_lab(*old(self)),
                g_scope(*old(self)),
                g_fx(*old(self)),
                g_pd(*old(self)),
            ).1,
        decreases *func_call, func_call.args@.len() + 2,
    {
        let ghost c = g_scope(*old(self));
        let ghost fx = g_fx(*old(self));
        let ghost pd = g_pd(*old(self));
        let ghost l = g_lab(*old(self));
        let f_id = self.function_index.get_function_index(&func_call.id);
        self.insert_address_command(opcode::PARAM, f_id);
        self.convert_args(func_call, 0);
        self.insert_address_command(opcode::CALL, f_id);
        proof {
            let (ia, l1) = emit_args(*func_call, 0, l, c, fx, pd);
            assert(final (self).buff@ =~= old(self).buff@ + emit_call(
                *func_call,
                l,
                c,
                fx,
                pd,
            ).0);
        }
    }

    /// Emit the arguments of a call from position `i` on.
    fn convert_args(&mut self, func_call: &FuncCall, i: usize)
        requires
            i <= func_call.args@.len(),
            call_ready(*func_call, g_scope(*old(self)), g_fx(*old(self)), g_pd(*old(self))),
            args_ready(
                *func_call,
                i as int,
                g_scope(*old(self)),
                g_fx(*old(self)),
                g_pd(*old(self)),
            ),
            emit_args(
                *func_call,
                i as int,
                g_lab(*old(self)),
                g_scope(*old(self)),
                g_fx(*old(self)),
                g_pd(*old(self)),
            ).1 <= 0xffff,
        ensures
            same_env(*final (self), *old(self)),
            final (self).buff@ == old(self).buff@ + emit_args(
                *func_call,
                i as int,
                g_lab(*old(self)),
                g_scope(*old(self)),
                g_fx(*old(self)),
                g_pd(*old(self)),
            ).0,
            g_lab(*final (self)) == emit_args(
                *func_call,
                i as int,
                g_lab(*old(self)),
                g_scope(*old(self)),
                g_fx(*old(self)),
                g_pd(*old(self)),
            ).1,
        decreases *func_call, func_call.args@.len() - i,
    {
        let ghost c = g_scope(*old(self));
        let ghost fx = g_fx(*old(self));
        let ghost pd = g_pd(*old(self));
        let ghost l = g_lab(*old(self));
        if i < func_call.args.len() {
            proof {
                lemma_emit_expr_mono(func_call.args@[i as int], l, c, fx, pd);
                let l1 = emit_expr(func_call.args@[i as int], l, c, fx, pd).1;
                lemma_emit_args_mono(*func_call, i as int + 1, l1, c, fx, pd);
            }
            proof {
                lemma_pd_of_lookup(old(self).param_addr, func_call.id@);
            }
            let addr = self.param_addr.get_parameter_address(&func_call.id, i);
            self.convert_parameter(&func_call.args[i], addr);
            self.convert_args(func_call, i + 1);
            proof {
                assert(final (self).buff@ =~= old(self).buff@ + emit_args(
                    *func_call,
                    i as int,
                    l,
                    c,
                    fx,
                    pd,
                ).0);
            }
        } else {
            proof {
                assert(old(self).buff@ + emit_args(*func_call, i as int, l, c, fx, pd).0
                    =~= old(self).buff@);
            }
        }
    }

    /// Emit one argument and its store into the callee's frame.
    fn convert_parameter(&mut self, expr: &Expr, addr: AddrSize)
        requires
            expr_ready(*expr, g_scope(*old(self)), g_fx(*old(self)), g_pd(*old(self))),
            expr.kind is Some,
            addr <= MAX_VAR_INDEX,
            emit_expr(
                *expr,
                g_lab(*old(self)),
                g_scope(*old(self)),
                g_fx(*old(self)),
                g_pd(*old(self)),
            ).1 <= 0xffff,
        ensures
            same_env(*final (self), *old(self)),
            final (self).buff@ == old(self).buff@ + emit_expr(
                *expr,
                g_lab(*old(self)),
                g_scope(*old(self)),
                g_fx(*old(self)),
                g_pd(*old(self)),
            ).0 + seq![
                Instr::Addressed(
                    spec_store_param_by_kind(slot_of(*expr)),
                    (addr + LOCAL_MASK) as u16,
                ),
            ],
            g_lab(*final (self)) == emit_expr(
                *expr,
                g_lab(*old(self)),
                g_scope(*old(self)),
                g_fx(*old(self)),
                g_pd(*old(self)),
            ).1,
        decreases *expr, 2int,
    {
        self.convert_expression(expr);
        let kind = match &expr.kind {
            Some(k) => *k,
            None => Kind::Void,
        };
        let store = store_param_by_kind(&kind);
        let param_id = addr + LOCAL_MASK;
        self.insert_address_command(store, param_id);
        proof {
            assert(final (self).buff@ =~= old(self).buff@ + emit_expr(
                *expr,
                g_lab(*old(self)),
                g_scope(*old(self)),
                g_fx(*old(self)),
                g_pd(*old(self)),
            ).0 + seq![
                Instr::Addressed(
                    spec_store_param_by_kind(slot_of(*expr)),
                    (addr + LOCAL_MASK) as u16,
                ),
            ]);
        }
    }
}

/// Lookup among the recorded parameter addresses agrees with the
/// spec-level view.
pub proof fn lemma_pd_of_lookup(pa: ParameterAddress, name: Seq<char>)
    ensures
        paddr_lookup(pa.param_addr@, name) is Some <==> pd_lookup(pd_of(pa), name) is Some,
        paddr_lookup(pa.param_addr@, name) matches Some(p) ==> pd_lookup(pd_of(pa), name)
            matches Some(q) && q.name == p.name && q.addrs == p.addrs@,
    decreases pa.param_addr@.len(),
{
    let s = pa.param_addr@;
    let m = pd_of(pa);
    if s.len() > 0 {
        if s[0].name@ == name {
        } else {
            let rest = ParameterAddress { param_addr: pa.param_addr };
            assert(m.drop_first() =~= s.drop_first().map(
                |i: int, p: ParamAddrs| PAddr { name: p.name, addrs: p.addrs@ },
            ));
            lemma_pd_seq_lookup(s.drop_first(), name);
        }
    }
}

/// The same agreement, stated over a bare entry list.
pub proof fn lemma_pd_seq_lookup(s: Seq<ParamAddrs>, name: Seq<char>)
    ensures
        paddr_lookup(s, name) is Some <==> pd_lookup(
            s.map(|i: int, p: ParamAddrs| PAddr { name: p.name, addrs: p.addrs@ }),
            name,
        ) is Some,
        paddr_lookup(s, name) matches Some(p) ==> pd_lookup(
            s.map(|i: int, p: ParamAddrs| PAddr { name: p.name, addrs: p.addrs@ }),
            name,
        ) matches Some(q) && q.name == p.name && q.addrs == p.addrs@,
    decreases s.len(),
{
    let m = s.map(|i: int, p: ParamAddrs| PAddr { name: p.name, addrs: p.addrs@ });
    if s.len() > 0 {
        if s[0].name@ == name {
        } else {
            assert(m.drop_first() =~= s.drop_first().map(
                |i: int, p: ParamAddrs| PAddr { name: p.name, addrs: p.addrs@ },
            ));
            lemma_pd_seq_lookup(s.drop_first(), name);
        }
    }
}


/// How many names of kind `k` a declaration list introduces.
pub open spec fn decl_count(decls: Seq<VarDecl>, k: Kind) -> int
    decreases decls.len(),
{
    if decls.len() == 0 {
        0
    } else {
        decl_count(decls.drop_last(), k) + if decls.last().kind == k {
            decls.last().id_list@.len() as int
        } else {
            0int
        }
    }
}

/// How many parameters of kind `k` a parameter list introduces.
pub open spec fn param_count(params: Seq<crate::syntax_tree::ParamDecl>, k: Kind) -> int
    decreases params.len(),
{
    if params.len() == 0 {
        0
    } else {
        param_count(params.drop_last(), k) + if params.last().kind == k {
            1int
        } else {
            0int
        }
    }
}

/// Counts never shrink along a prefix.
pub proof fn lemma_decl_count_take_le(decls: Seq<VarDecl>, i: int, k: Kind)
    requires
        0 <= i <= decls.len(),
    ensures
        0 <= decl_count(decls.take(i), k) <= decl_count(decls, k),
    decreases decls.len(),
{
    if decls.len() == 0 {
    } else if i == decls.len() {
        assert(decls.take(i) =~= decls);
        lemma_decl_count_take_le(decls.drop_last(), i - 1, k);
    } else {
        assert(decls.drop_last().take(i) =~= decls.take(i));
        lemma_decl_count_take_le(decls.drop_last(), i, k);
    }
}

/// Counts never shrink along a parameter prefix.
pub proof fn lemma_param_count_take_le(params: Seq<crate::syntax_tree::ParamDecl>, i: int, k: Kind)
    requires
        0 <= i <= params.len(),
    ensures
        0 <= param_count(params.take(i), k) <= param_count(params, k),
    decreases params.len(),
{
    if params.len() == 0 {
    } else if i == params.len() {
        assert(params.take(i) =~= params);
        lemma_param_count_take_le(params.drop_last(), i - 1, k);
    } else {
        assert(params.drop_last().take(i) =~= params.take(i));
        lemma_param_count_take_le(params.drop_last(), i, k);
    }
}

/// Per-kind tallies of the variables a scope allocates.
pub struct VariableCounter {
    pub integer_count: u16,
    pub real_count: u16,
    pub boolean_count: u16,
    pub string_count: u16,
}

impl VariableCounter {
    /// Tally the names of a declaration list.
    pub fn count_variables(var_decl_list: &VarDeclList) -> (r: Self)
        requires
            decl_count(var_decl_list@, Kind::Int) <= 0xffff,
            decl_count(var_decl_list@, Kind::Real) <= 0xffff,
            decl_count(var_decl_list@, Kind::Bool) <= 0xffff,
            decl_count(var_decl_list@, Kind::Str) <= 0xffff,
        ensures
            r.integer_count == decl_count(var_decl_list@, Kind::Int),
            r.real_count == decl_count(var_decl_list@, Kind::Real),
            r.boolean_count == decl_count(var_decl_list@, Kind::Bool),
            r.string_count == decl_count(var_decl_list@, Kind::Str),
    {
        let ghost decls = var_decl_list@;
        let mut acc = VariableCounter {
            integer_count: 0,
            real_count: 0,
            boolean_count: 0,
            string_count: 0,
        };
        let n = var_decl_list.len();
        proof {
            assert(decls.take(0) =~= Seq::<VarDecl>::empty());
        }
        for i in 0..n
            invariant
                n == decls.len(),
                decls == var_decl_list@,
                decl_count(decls, Kind::Int) <= 0xffff,
                decl_count(decls, Kind::Real) <= 0xffff,
                decl_count(decls, Kind::Bool) <= 0xffff,
                decl_count(decls, Kind::Str) <= 0xffff,
                acc.integer_count == decl_count(decls.take(i as int), Kind::Int),
                acc.real_count == decl_count(decls.take(i as int), Kind::Real),
                acc.boolean_count == decl_count(decls.take(i as int), Kind::Bool),
                acc.string_count == decl_count(decls.take(i as int), Kind::Str),
        {
            proof {
                assert(decls.take(i as int + 1).drop_last() =~= decls.take(i as int));
                assert(decls.take(i as int + 1).last() == decls[i as int]);
                lemma_decl_count_take_le(decls, i as int + 1, Kind::Int);
                lemma_decl_count_take_le(decls, i as int + 1, Kind::Real);
                lemma_decl_count_take_le(decls, i as int + 1, Kind::Bool);
                lemma_decl_count_take_le(decls, i as int + 1, Kind::Str);
                lemma_decl_count_take_le(decls, i as int, Kind::Int);
                lemma_decl_count_take_le(decls, i as int, Kind::Real);
                lemma_decl_count_take_le(decls, i as int, Kind::Bool);
                lemma_decl_count_take_le(decls, i as int, Kind::Str);
            }
            let decl = &var_decl_list[i];
            let count = decl.id_list.len() as u16;
            match decl.kind {
                Kind::Int => {
                    acc.integer_count = acc.integer_count + count;
                },
                Kind::Real => {
                    acc.real_count = acc.real_count + count;
                },
                Kind::Bool => {
                    acc.boolean_count = acc.boolean_count + count;
                },
                Kind::Str => {
                    acc.string_count = acc.string_count + count;
                },
                Kind::Void => {},
            }
        }
        proof {
            assert(decls.take(n as int) =~= decls);
        }
        acc
    }

    /// Add the parameters of a function to the tally.
    pub fn count_parameters(self, param_list: &ParamList) -> (r: Self)
        requires
            self.integer_count + param_count(param_list@, Kind::Int) <= 0xffff,
            self.real_count + param_count(param_list@, Kind::Real) <= 0xffff,
            self.boolean_count + param_count(param_list@, Kind::Bool) <= 0xffff,
            self.string_count + param_count(param_list@, Kind::Str) <= 0xffff,
        ensures
            r.integer_count == self.integer_count + param_count(param_list@, Kind::Int),
            r.real_count == self.real_count + param_count(param_list@, Kind::Real),
            r.boolean_count == self.boolean_count + param_count(param_list@, Kind::Bool),
            r.string_count == self.string_count + param_count(param_list@, Kind::Str),
    {
        let ghost params = param_list@;
        let mut acc = self;
        let n = param_list.len();
        proof {
            assert(params.take(0) =~= Seq::<crate::syntax_tree::ParamDecl>::empty());
        }
        for i in 0..n
            invariant
                n == params.len(),
                params == param_list@,
                self.integer_count + param_count(params, Kind::Int) <= 0xffff,
                self.real_count + param_count(params, Kind::Real) <= 0xffff,
                self.boolean_count + param_count(params, Kind::Bool) <= 0xffff,
                self.string_count + param_count(params, Kind::Str) <= 0xffff,
                acc.integer_count == self.integer_count + param_count(
                    params.take(i as int),
                    Kind::Int,
                ),
                acc.real_count == self.real_count + param_count(params.take(i as int), Kind::Real),
                acc.boolean_count == self.boolean_count + param_count(
                    params.take(i as int),
                    Kind::Bool,
                ),
                acc.string_count == self.string_count + param_count(
                    params.take(i as int),
                    Kind::Str,
                ),
        {
            proof {
                assert(params.take(i as int + 1).drop_last() =~= params.take(i as int));
                assert(params.take(i as int + 1).last() == params[i as int]);
                lemma_param_count_take_le(params, i as int + 1, Kind::Int);
                lemma_param_count_take_le(params, i as int + 1, Kind::Real);
                lemma_param_count_take_le(params, i as int + 1, Kind::Bool);
                lemma_param_count_take_le(params, i as int + 1, Kind::Str);
                lemma_param_count_take_le(params, i as int, Kind::Int);
                lemma_param_count_take_le(params, i as int, Kind::Real);
                lemma_param_count_take_le(params, i as int, Kind::Bool);
                lemma_param_count_take_le(params, i as int, Kind::Str);
            }
            let par_decl = &param_list[i];
            match par_decl.kind {
                Kind::Int => {
                    acc.integer_count = acc.integer_count + 1;
                },
                Kind::Real => {
                    acc.real_count = acc.real_count + 1;
                },
                Kind::Str => {
                    acc.string_count = acc.string_count + 1;
                },
                Kind::Bool => {
                    acc.boolean_count = acc.boolean_count + 1;
                },
                Kind::Void => {},
            }
        }
        proof {
            assert(params.take(n as int) =~= params);
        }
        acc
    }
}

/// The instructions of one function definition: a function marker, the
/// frame sizes, the body, and a return if the body does not already end
/// with one.
pub open spec fn emit_function(
    f: FuncDecl,
    l: int,
    c: EmitScope,
    fx: Seq<String>,
    pd: Seq<PAddr>,
) -> (Seq<Instr>, int) {
    let init = Instr::Init(
        (param_count(f.params@, Kind::Int) + decl_count(f.vars@, Kind::Int)) as u16,
        (param_count(f.params@, Kind::Real) + decl_count(f.vars@, Kind::Real)) as u16,
        (param_count(f.params@, Kind::Bool) + decl_count(f.vars@, Kind::Bool)) as u16,
        (param_count(f.params@, Kind::Str) + decl_count(f.vars@, Kind::Str)) as u16,
    );
    let (ib, l1) = emit_stats(f.body@, 0, l, Seq::empty(), c, fx, pd);
    let seg = seq![Instr::Simple(opcode::FUNC), init] + ib;
    (
        if seg.last() == Instr::Simple(opcode::RET) {
            seg
        } else {
            seg.push(Instr::Simple(opcode::RET))
        },
        l1,
    )
}

impl ByteCodeGenerator {
    /// Emit one statement: exactly the stream `emit_stat` describes;
    /// the break-target stack is as before.
    fn convert_statement(&mut self, stat: &Stat)
        requires
            stat_ready(
                *stat,
                g_scope(*old(self)),
                g_fx(*old(self)),
                g_pd(*old(self)),
                old(self).loop_exit_label@.len() as int,
            ),
            emit_stat(
                *stat,
                g_lab(*old(self)),
                old(self).loop_exit_label@,
                g_scope(*old(self)),
                g_fx(*old(self)),
                g_pd(*old(self)),
            ).1 <= 0xffff,
        ensures
            same_env(*final (self), *old(self)),
            final (self).buff@ == old(self).buff@ + emit_stat(
                *stat,
                g_lab(*old(self)),
                old(self).loop_exit_label@,
                g_scope(*old(self)),
                g_fx(*old(self)),
                g_pd(*old(self)),
            ).0,
            g_lab(*final (self)) == emit_stat(
                *stat,
                g_lab(*old(self)),
                old(self).loop_exit_label@,
                g_scope(*old(self)),
                g_fx(*old(self)),
                g_pd(*old(self)),
            ).1,
        decreases *stat, 9int,
    {
        let ghost c = g_scope(*old(self));
        let ghost fx = g_fx(*old(self));
        let ghost pd = g_pd(*old(self));
        let ghost l = g_lab(*old(self));
        let ghost bs = old(self).loop_exit_label@;
        match &stat.stat {
            StatType::AssignStat(assign_stat) => {
                proof {
                    lemma_emit_expr_mono(assign_stat.expr, l, c, fx, pd);
                }
                self.convert_expression(&assign_stat.expr);
                self.assign_value(&assign_stat.id);
                proof {
                    assert(final (self).buff@ =~= old(self).buff@ + emit_stat(
                        *stat,
                        l,
                        bs,
                        c,
                        fx,
                        pd,
                    ).0);
                }
            },
            StatType::IfStat(if_stat) => {
                self.convert_if_stat(if_stat);
                proof {
                    assert(final (self).buff@ =~= old(self).buff@ + emit_stat(
                        *stat,
                        l,
                        bs,
                        c,
                        fx,
                        pd,
                    ).0);
                }
            },
            StatType::WhileStat(while_stat) => {
                self.convert_while_stat(while_stat);
                proof {
                    assert(final (self).buff@ =~= old(self).buff@ + emit_stat(
                        *stat,
                        l,
                        bs,
                        c,
                        fx,
                        pd,
                    ).0);
                }
            },
            StatType::ForStat(for_stat) => {
                self.convert_for_stat(for_stat);
                proof {
                    assert(final (self).buff@ =~= old(self).buff@ + emit_stat(
                        *stat,
                        l,
                        bs,
                        c,
                        fx,
                        pd,
                    ).0);
                }
            },
            StatType::ReturnStat(return_stat) => {
                match return_stat {
                    Some(expr) => {
                        proof {
                            lemma_emit_expr_mono(*expr, l, c, fx, pd);
                        }
                        self.convert_expression(expr);
                        self.push_i(Instr::Simple(opcode::RET));
                        proof {
                            assert(final (self).buff@ =~= old(self).buff@ + emit_stat(
                                *stat,
                                l,
                                bs,
                                c,
                                fx,
                                pd,
                            ).0);
                        }
                    },
                    None => {
                        self.push_i(Instr::Simple(opcode::RET));
                        proof {
                            assert(final (self).buff@ =~= old(self).buff@ + emit_stat(
                                *stat,
                                l,
                                bs,
                                c,
                                fx,
                                pd,
                            ).0);
                        }
                    },
                }
            },
            StatType::ReadStat(read_stat) => {
                self.convert_read_stat(read_stat);
                proof {
                    assert(final (self).buff@ =~= old(self).buff@ + emit_stat(
                        *stat,
                        l,
                        bs,
                        c,
                        fx,
                        pd,
                    ).0);
                }
            },
            StatType::WriteStat(write_stat) => {
                self.convert_write_stat(write_stat);
                proof {
                    assert(final (self).buff@ =~= old(self).buff@ + emit_stat(
                        *stat,
                        l,
                        bs,
                        c,
                        fx,
                        pd,
                    ).0);
                }
            },
            StatType::Break => {
                self.convert_break_stat();
                proof {
                    assert(final (self).buff@ =~= old(self).buff@ + emit_stat(
                        *stat,
                        l,
                        bs,
                        c,
                        fx,
                        pd,
                    ).0);
                }
            },
            StatType::FuncCall(func_call) => {
                self.convert_func_call(func_call);
                proof {
                    assert(final (self).buff@ =~= old(self).buff@ + emit_stat(
                        *stat,
                        l,
                        bs,
                        c,
                        fx,
                        pd,
                    ).0);
                }
            },
        }
    }

    /// Emit an `if` statement.
    fn convert_if_stat(&mut self, if_stat: &IfStat)
        requires
            expr_ready(if_stat.cond, g_scope(*old(self)), g_fx(*old(self)), g_pd(*old(self))),
            stats_ready(
                if_stat.if_body@,
                g_scope(*old(self)),
                g_fx(*old(self)),
                g_pd(*old(self)),
                old(self).loop_exit_label@.len() as int,
            ),
            match if_stat.else_body {
                Some(e) => stats_ready(
                    e@,
                    g_scope(*old(self)),
                    g_fx(*old(self)),
                    g_pd(*old(self)),
                    old(self).loop_exit_label@.len() as int,
                ),
                None => true,
            },
            emit_stat(
                Stat {
                    loc: crate::syntax_tree::Location { begin: 0, end: 0 },
                    stat: StatType::IfStat(*if_stat),
                },
                g_lab(*old(self)),
                old(self).loop_exit_label@,
                g_scope(*old(self)),
                g_fx(*old(self)),
                g_pd(*old(self)),
            ).1 <= 0xffff,
        ensures
            same_env(*final (self), *old(self)),
            final (self).buff@ == old(self).buff@ + emit_stat(
                Stat {
                    loc: crate::syntax_tree::Location { begin: 0, end: 0 },
                    stat: StatType::IfStat(*if_stat),
                },
                g_lab(*old(self)),
                old(self).loop_exit_label@,
                g_scope(*old(self)),
                g_fx(*old(self)),
                g_pd(*old(self)),
            ).0,
            g_lab(*final (self)) == emit_stat(
                Stat {
                    loc: crate::syntax_tree::Location { begin: 0, end: 0 },
                    stat: StatType::IfStat(*if_stat),
                },
                g_lab(*old(self)),
                old(self).loop_exit_label@,
                g_scope(*old(self)),
                g_fx(*old(self)),
                g_pd(*old(self)),
            ).1,
        decreases *if_stat, 8int,
    {
        let ghost c = g_scope(*old(self));
        let ghost fx = g_fx(*old(self));
        let ghost pd = g_pd(*old(self));
        let ghost l = g_lab(*old(self));
        let ghost bs = old(self).loop_exit_label@;
        proof {
            lemma_emit_expr_mono(if_stat.cond, l, c, fx, pd);
            let l1 = emit_expr(if_stat.cond, l, c, fx, pd).1;
            lemma_emit_stats_mono(if_stat.if_body@, 0, l1 + 1, bs, c, fx, pd);
            let l2 = emit_stats(if_stat.if_body@, 0, l1 + 1, bs, c, fx, pd).1;
            match &if_stat.else_body {
                Some(else_part) => {
                    lemma_emit_stats_mono(else_part@, 0, l2 + 1, bs, c, fx, pd);
                },
                None => {},
            }
        }
        self.convert_expression(&if_stat.cond);
        let end_if = self.label_counter.count_one();
        self.insert_false_cond_jump(end_if);
        self.gen_stats(&if_stat.if_body, 0);
        match &if_stat.else_body {
            Some(else_part) => {
                let end = self.label_counter.count_one();
                self.insert_uncond_jump(end);
                self.insert_label(end_if);
                self.gen_stats(else_part, 0);
                self.insert_label(end);
                proof {
                    let (ic, l1) = emit_expr(if_stat.cond, l, c, fx, pd);
                    let (ib, l2) = emit_stats(if_stat.if_body@, 0, l1 + 1, bs, c, fx, pd);
                    let (ieb, l3) = emit_stats(else_part@, 0, l2 + 1, bs, c, fx, pd);
                    assert(final (self).buff@ =~= old(self).buff@ + (ic + seq![
                        Instr::Addressed(opcode::JNE, l1 as u16),
                    ] + ib + seq![
                        Instr::Addressed(opcode::JUMP, l2 as u16),
                        Instr::Addressed(opcode::LBL, l1 as u16),
                    ] + ieb + seq![Instr::Addressed(opcode::LBL, l2 as u16)]));
                }
            },
            None => {
                self.insert_label(end_if);
                proof {
                    let (ic, l1) = emit_expr(if_stat.cond, l, c, fx, pd);
                    let (ib, l2) = emit_stats(if_stat.if_body@, 0, l1 + 1, bs, c, fx, pd);
                    assert(final (self).buff@ =~= old(self).buff@ + (ic + seq![
                        Instr::Addressed(opcode::JNE, l1 as u16),
                    ] + ib + seq![Instr::Addressed(opcode::LBL, l1 as u16)]));
                }
            },
        }
    }

    /// Emit a `while` statement: its exit label is the break target of
    /// its body.
    #[verifier::rlimit(80)]
    fn convert_while_stat(&mut self, while_stat: &WhileStat)
        requires
            expr_ready(while_stat.cond, g_scope(*old(self)), g_fx(*old(self)), g_pd(*old(self))),
            stats_ready(
                while_stat.body@,
                g_scope(*old(self)),
                g_fx(*old(self)),
                g_pd(*old(self)),
                old(self).loop_exit_label@.len() as int + 1,
            ),
            emit_stat(
                Stat {
                    loc: crate::syntax_tree::Location { begin: 0, end: 0 },
                    stat: StatType::WhileStat(*while_stat),
                },
                g_lab(*old(self)),
                old(self).loop_exit_label@,
                g_scope(*old(self)),
                g_fx(*old(self)),
                g_pd(*old(self)),
            ).1 <= 0xffff,
        ensures
            same_env(*final (self), *old(self)),
            final (self).buff@ == old(self).buff@ + emit_stat(
                Stat {
                    loc: crate::syntax_tree::Location { begin: 0, end: 0 },
                    stat: StatType::WhileStat(*while_stat),
                },
                g_lab(*old(self)),
                old(self).loop_exit_label@,
                g_scope(*old(self)),
                g_fx(*old(self)),
                g_pd(*old(self)),
            ).0,
            g_lab(*final (self)) == emit_stat(
                Stat {
                    loc: crate::syntax_tree::Location { begin: 0, end: 0 },
                    stat: StatType::WhileStat(*while_stat),
                },
                g_lab(*old(self)),
                old(self).loop_exit_label@,
                g_scope(*old(self)),
                g_fx(*old(self)),
                g_pd(*old(self)),
            ).1,
        decreases *while_stat, 8int,
    {
        let ghost c = g_scope(*old(self));
        let ghost fx = g_fx(*old(self));
        let ghost pd = g_pd(*old(self));
        let ghost l = g_lab(*old(self));
        let ghost bs = old(self).loop_exit_label@;
        proof {
            lemma_emit_expr_mono(while_stat.cond, l + 2, c, fx, pd);
            let l1 = emit_expr(while_stat.cond, l + 2, c, fx, pd).1;
            lemma_emit_stats_mono(while_stat.body@, 0, l1, bs.push((l + 1) as u16), c, fx, pd);
        }
        let while_lbl = self.label_counter.count_one();
        let end_lbl = self.label_counter.count_one();
        self.loop_exit_label.push(end_lbl);
        self.insert_label(while_lbl);
        self.convert_expression(&while_stat.cond);
        self.insert_false_cond_jump(end_lbl);
        self.gen_stats(&while_stat.body, 0);
        self.insert_uncond_jump(while_lbl);
        self.insert_label(end_lbl);
        let _ = self.loop_exit_label.pop();
        proof {
            assert(final (self).loop_exit_label@ =~= old(self).loop_exit_label@);
            let (ic, l1) = emit_expr(while_stat.cond, l + 2, c, fx, pd);
            let (ib, l2) = emit_stats(while_stat.body@, 0, l1, bs.push((l + 1) as u16), c, fx, pd);
            assert(final (self).buff@ =~= old(self).buff@ + (seq![
                Instr::Addressed(opcode::LBL, l as u16),
            ] + ic + seq![Instr::Addressed(opcode::JNE, (l + 1) as u16)] + ib + seq![
                Instr::Addressed(opcode::JUMP, l as u16),
                Instr::Addressed(opcode::LBL, (l + 1) as u16),
            ]));
        }
    }

    /// Emit a `for` statement: assign the counter, stash the bound,
    /// then test, run the body, and step the counter by one.
    #[verifier::rlimit(80)]
    fn convert_for_stat(&mut self, for_stat: &ForStat)
        requires
            expr_ready(
                for_stat.begin_expr,
                g_scope(*old(self)),
                g_fx(*old(self)),
                g_pd(*old(self)),
            ),
            expr_ready(for_stat.end_expr, g_scope(*old(self)), g_fx(*old(self)), g_pd(*old(self))),
            scope_resolve(g_scope(*old(self)), for_stat.id@) matches Some(p) && p.1
                <= MAX_VAR_INDEX,
            stats_ready(
                for_stat.body@,
                g_scope(*old(self)),
                g_fx(*old(self)),
                g_pd(*old(self)),
                old(self).loop_exit_label@.len() as int + 1,
            ),
            emit_stat(
                Stat {
                    loc: crate::syntax_tree::Location { begin: 0, end: 0 },
                    stat: StatType::ForStat(*for_stat),
                },
                g_lab(*old(self)),
                old(self).loop_exit_label@,
                g_scope(*old(self)),
                g_fx(*old(self)),
                g_pd(*old(self)),
            ).1 <= 0xffff,
        ensures
            same_env(*final (self), *old(self)),
            final (self).buff@ == old(self).buff@ + emit_stat(
                Stat {
                    loc: crate::syntax_tree::Location { begin: 0, end: 0 },
                    stat: StatType::ForStat(*for_stat),
                },
                g_lab(*old(self)),
                old(self).loop_exit_label@,
                g_scope(*old(self)),
                g_fx(*old(self)),
                g_pd(*old(self)),
            ).0,
            g_lab(*final (self)) == emit_stat(
                Stat {
                    loc: crate::syntax_tree::Location { begin: 0, end: 0 },
                    stat: StatType::ForStat(*for_stat),
                },
                g_lab(*old(self)),
                old(self).loop_exit_label@,
                g_scope(*old(self)),
                g_fx(*old(self)),
                g_pd(*old(self)),
            ).1,
        decreases *for_stat, 8int,
    {
        let ghost c = g_scope(*old(self));
        let ghost fx = g_fx(*old(self));
        let ghost pd = g_pd(*old(self));
        let ghost l = g_lab(*old(self));
        let ghost bs = old(self).loop_exit_label@;
        proof {
            lemma_emit_expr_mono(for_stat.begin_expr, l + 2, c, fx, pd);
            let l1 = emit_expr(for_stat.begin_expr, l + 2, c, fx, pd).1;
            lemma_emit_expr_mono(for_stat.end_expr, l1, c, fx, pd);
            let l2 = emit_expr(for_stat.end_expr, l1, c, fx, pd).1;
            lemma_emit_stats_mono(for_stat.body@, 0, l2, bs.push((l + 1) as u16), c, fx, pd);
        }
        let for_lbl = self.label_counter.count_one();
        let end_lbl = self.label_counter.count_one();
        self.loop_exit_label.push(end_lbl);
        self.convert_expression(&for_stat.begin_expr);
        self.assign_value(&for_stat.id);
        self.convert_expression(&for_stat.end_expr);
        self.push_i(Instr::Simple(opcode::BFOR));
        self.insert_label(for_lbl);
        self.load_variable(&for_stat.id);
        self.push_i(Instr::Simple(opcode::CFOR));
        self.push_i(Instr::Simple(opcode::LEQI));
        self.insert_false_cond_jump(end_lbl);
        self.gen_stats(&for_stat.body, 0);
        self.convert_constant(&Const::IntConst(1));
        self.load_variable(&for_stat.id);
        self.push_i(Instr::Simple(opcode::ADDI));
        self.assign_value(&for_stat.id);
        self.insert_uncond_jump(for_lbl);
        self.insert_label(end_lbl);
        self.push_i(Instr::Simple(opcode::EFOR));
        let _ = self.loop_exit_label.pop();
        proof {
            assert(final (self).loop_exit_label@ =~= old(self).loop_exit_label@);
            let (ibegin, l1) = emit_expr(for_stat.begin_expr, l + 2, c, fx, pd);
            let (iend, l2) = emit_expr(for_stat.end_expr, l1, c, fx, pd);
            let (ib, l3) = emit_stats(for_stat.body@, 0, l2, bs.push((l + 1) as u16), c, fx, pd);
            let store_id = spec_memory_instr(c, for_stat.id@, |k: Kind| spec_store_by_kind(k));
            let load_id = spec_memory_instr(c, for_stat.id@, |k: Kind| spec_load_by_kind(k));
            assert(final (self).buff@ =~= old(self).buff@ + (ibegin + seq![store_id] + iend
                + seq![
                Instr::Simple(opcode::BFOR),
                Instr::Addressed(opcode::LBL, l as u16),
            ] + seq![load_id] + seq![
                Instr::Simple(opcode::CFOR),
                Instr::Simple(opcode::LEQI),
                Instr::Addressed(opcode::JNE, (l + 1) as u16),
            ] + ib + seq![Instr::IntConst(1)] + seq![load_id] + seq![
                Instr::Simple(opcode::ADDI),
            ] + seq![store_id] + seq![
                Instr::Addressed(opcode::JUMP, l as u16),
                Instr::Addressed(opcode::LBL, (l + 1) as u16),
                Instr::Simple(opcode::EFOR),
            ]));
        }
    }

    /// Emit a `read` statement: a read and a store per name.
    fn convert_read_stat(&mut self, read_stat: &IdList)
        requires
            read_targets_ok(g_scope(*old(self)), read_stat@),
        ensures
            same_env(*final (self), *old(self)),
            final (self).label_counter == old(self).label_counter,
            final (self).buff@ == old(self).buff@ + emit_reads(read_stat@, 0, g_scope(*old(self))),
    {
        let ghost c = g_scope(*old(self));
        let ghost ids = read_stat@;
        let n = read_stat.len();
        for i in 0..n
            invariant
                n == ids.len(),
                ids == read_stat@,
                c == g_scope(*old(self)),
                same_env(*self, *old(self)),
                self.label_counter == old(self).label_counter,
                read_targets_ok(c, ids),
                old(self).buff@ + emit_reads(ids, 0, c) == self.buff@ + emit_reads(
                    ids,
                    i as int,
                    c,
                ),
        {
            proof {
                lemma_emit_reads_prefix(ids, i as int, c);
            }
            let id = &read_stat[i];
            proof {
                lemma_read_target(c, ids, i as int);
                assert(g_scope(*self) == c);
                assert(super::var_cache::cache_resolve(self.local_cache, id@) == scope_resolve(
                    c,
                    id@,
                ));
            }
            let (kind, _, _) = self.local_cache.lookup(id);
            let cmd = read_by_kind(&kind);
            self.push_i(Instr::Simple(cmd));
            self.assign_value(id);
            proof {
                assert(old(self).buff@ + emit_reads(ids, 0, c) =~= self.buff@ + emit_reads(
                    ids,
                    i as int + 1,
                    c,
                ));
            }
        }
        proof {
            assert(emit_reads(ids, n as int, c) =~= Seq::<Instr>::empty());
            assert(final (self).buff@ =~= old(self).buff@ + emit_reads(ids, 0, c));
        }
    }

    /// Emit a `write` or `writeln` statement.
    fn convert_write_stat(&mut self, write_stat: &WriteStat)
        requires
            match *write_stat {
                WriteStat::Write(list) => exprs_ready(
                    list@,
                    g_scope(*old(self)),
                    g_fx(*old(self)),
                    g_pd(*old(self)),
                ),
                WriteStat::WriteLine(list) => exprs_ready(
                    list@,
                    g_scope(*old(self)),
                    g_fx(*old(self)),
                    g_pd(*old(self)),
                ),
            },
            ({
                let list = match *write_stat {
                    WriteStat::Write(list) => list,
                    WriteStat::WriteLine(list) => list,
                };
                emit_writes(
                    list@,
                    0,
                    g_lab(*old(self)),
                    g_scope(*old(self)),
                    g_fx(*old(self)),
                    g_pd(*old(self)),
                ).1 <= 0xffff
            }),
        ensures
            same_env(*final (self), *old(self)),
            ({
                let list = match *write_stat {
                    WriteStat::Write(list) => list,
                    WriteStat::WriteLine(list) => list,
                };
                let flush = match *write_stat {
                    WriteStat::Write(_) => opcode::FLU,
                    WriteStat::WriteLine(_) => opcode::FLN,
                };
                let (iw, l1) = emit_writes(
                    list@,
                    0,
                    g_lab(*old(self)),
                    g_scope(*old(self)),
                    g_fx(*old(self)),
                    g_pd(*old(self)),
                );
                &&& final (self).buff@ == old(self).buff@ + iw + seq![Instr::Simple(flush)]
                &&& g_lab(*final (self)) == l1
            }),
        decreases *write_stat, 8int,
    {
        match write_stat {
            WriteStat::Write(expr_list) => {
                self.convert_writes(expr_list, 0);
                self.push_i(Instr::Simple(opcode::FLU));
            },
            WriteStat::WriteLine(expr_list) => {
                self.convert_writes(expr_list, 0);
                self.push_i(Instr::Simple(opcode::FLN));
            },
        }
        proof {
            let list = match write_stat {
                WriteStat::Write(list) => list,
                WriteStat::WriteLine(list) => list,
            };
            let flush = match write_stat {
                WriteStat::Write(_) => opcode::FLU,
                WriteStat::WriteLine(_) => opcode::FLN,
            };
            let (iw, l1) = emit_writes(
                list@,
                0,
                g_lab(*old(self)),
                g_scope(*old(self)),
                g_fx(*old(self)),
                g_pd(*old(self)),
            );
            assert(final (self).buff@ =~= old(self).buff@ + iw + seq![Instr::Simple(flush)]);
        }
    }

    /// Emit the arguments of a write list from position `i` on.
    fn convert_writes(&mut self, list: &Vec<Expr>, i: usize)
        requires
            i <= list@.len(),
            exprs_ready(list@, g_scope(*old(self)), g_fx(*old(self)), g_pd(*old(self))),
            emit_writes(
                list@,
                i as int,
                g_lab(*old(self)),
                g_scope(*old(self)),
                g_fx(*old(self)),
                g_pd(*old(self)),
            ).1 <= 0xffff,
        ensures
            same_env(*final (self), *old(self)),
            final (self).buff@ == old(self).buff@ + emit_writes(
                list@,
                i as int,
                g_lab(*old(self)),
                g_scope(*old(self)),
                g_fx(*old(self)),
                g_pd(*old(self)),
            ).0,
            g_lab(*final (self)) == emit_writes(
                list@,
                i as int,
                g_lab(*old(self)),
                g_scope(*old(self)),
                g_fx(*old(self)),
                g_pd(*old(self)),
            ).1,
        decreases list@, list@.len() - i + 2,
    {
        let ghost c = g_scope(*old(self));
        let ghost fx = g_fx(*old(self));
        let ghost pd = g_pd(*old(self));
        let ghost l = g_lab(*old(self));
        if i < list.len() {
            proof {
                lemma_emit_expr_mono(list@[i as int], l, c, fx, pd);
                let l1 = emit_expr(list@[i as int], l, c, fx, pd).1;
                lemma_emit_writes_mono(list@, i as int + 1, l1, c, fx, pd);
            }
            self.convert_expression(&list[i]);
            let kind = match &list[i].kind {
                Some(k) => *k,
                None => Kind::Void,
            };
            let cmd = write_by_kind(&kind);
            self.push_i(Instr::Simple(cmd));
            self.convert_writes(list, i + 1);
            proof {
                assert(final (self).buff@ =~= old(self).buff@ + emit_writes(
                    list@,
                    i as int,
                    l,
                    c,
                    fx,
                    pd,
                ).0);
            }
        } else {
            proof {
                assert(old(self).buff@ + emit_writes(list@, i as int, l, c, fx, pd).0 =~= old(
                    self,
                ).buff@);
            }
        }
    }

    /// Emit a `break`: an unconditional jump to the innermost loop's
    /// exit label.
    fn convert_break_stat(&mut self)
        requires
            old(self).loop_exit_label@.len() > 0,
        ensures
            same_env(*final (self), *old(self)),
            final (self).label_counter == old(self).label_counter,
            final (self).buff@ == old(self).buff@.push(
                Instr::Addressed(opcode::JUMP, old(self).loop_exit_label@.last()),
            ),
    {
        let n = self.loop_exit_label.len();
        let index = self.loop_exit_label[n - 1];
        self.insert_uncond_jump(index);
    }

    /// Emit a run of statements from position `i` on.
    fn gen_stats(&mut self, block: &StatList, i: usize)
        requires
            i <= block@.len(),
            stats_ready(
                block@,
                g_scope(*old(self)),
                g_fx(*old(self)),
                g_pd(*old(self)),
                old(self).loop_exit_label@.len() as int,
            ),
            emit_stats(
                block@,
                i as int,
                g_lab(*old(self)),
                old(self).loop_exit_label@,
                g_scope(*old(self)),
                g_fx(*old(self)),
                g_pd(*old(self)),
            ).1 <= 0xffff,
        ensures
            same_env(*final (self), *old(self)),
            final (self).buff@ == old(self).buff@ + emit_stats(
                block@,
                i as int,
                g_lab(*old(self)),
                old(self).loop_exit_label@,
                g_scope(*old(self)),
                g_fx(*old(self)),
                g_pd(*old(self)),
            ).0,
            g_lab(*final (self)) == emit_stats(
                block@,
                i as int,
                g_lab(*old(self)),
                old(self).loop_exit_label@,
                g_scope(*old(self)),
                g_fx(*old(self)),
                g_pd(*old(self)),
            ).1,
        decreases block@, block@.len() - i + 2,
    {
        let ghost c = g_scope(*old(self));
        let ghost fx = g_fx(*old(self));
        let ghost pd = g_pd(*old(self));
        let ghost l = g_lab(*old(self));
        let ghost bs = old(self).loop_exit_label@;
        if i < block.len() {
            proof {
                lemma_emit_stat_mono(block@[i as int], l, bs, c, fx, pd);
                let l1 = emit_stat(block@[i as int], l, bs, c, fx, pd).1;
                lemma_emit_stats_mono(block@, i as int + 1, l1, bs, c, fx, pd);
            }
            self.convert_statement(&block[i]);
            self.gen_stats(block, i + 1);
            proof {
                assert(final (self).buff@ =~= old(self).buff@ + emit_stats(
                    block@,
                    i as int,
                    l,
                    bs,
                    c,
                    fx,
                    pd,
                ).0);
            }
        } else {
            proof {
                assert(old(self).buff@ + emit_stats(block@, i as int, l, bs, c, fx, pd).0 =~= old(
                    self,
                ).buff@);
            }
        }
    }

    /// Emit a block; the main body is terminated by the exit opcode.
    pub fn gen_block(&mut self, block: &StatList, block_type: BlockType)
        requires
            stats_ready(
                block@,
                g_scope(*old(self)),
                g_fx(*old(self)),
                g_pd(*old(self)),
                old(self).loop_exit_label@.len() as int,
            ),
            emit_stats(
                block@,
                0,
                g_lab(*old(self)),
                old(self).loop_exit_label@,
                g_scope(*old(self)),
                g_fx(*old(self)),
                g_pd(*old(self)),
            ).1 <= 0xffff,
        ensures
            same_env(*final (self), *old(self)),
            final (self).buff@ == old(self).buff@ + emit_stats(
                block@,
                0,
                g_lab(*old(self)),
                old(self).loop_exit_label@,
                g_scope(*old(self)),
                g_fx(*old(self)),
                g_pd(*old(self)),
            ).0 + (match block_type {
                BlockType::Main => seq![Instr::Simple(opcode::EXT)],
                BlockType::General => Seq::<Instr>::empty(),
            }),
            g_lab(*final (self)) == emit_stats(
                block@,
                0,
                g_lab(*old(self)),
                old(self).loop_exit_label@,
                g_scope(*old(self)),
                g_fx(*old(self)),
                g_pd(*old(self)),
            ).1,
    {
        self.gen_stats(block, 0);
        match block_type {
            BlockType::General => {
                proof {
                    assert(final (self).buff@ =~= old(self).buff@ + emit_stats(
                        block@,
                        0,
                        g_lab(*old(self)),
                        old(self).loop_exit_label@,
                        g_scope(*old(self)),
                        g_fx(*old(self)),
                        g_pd(*old(self)),
                    ).0 + Seq::<Instr>::empty());
                }
            },
            BlockType::Main => {
                self.push_i(Instr::Simple(opcode::EXT));
                proof {
                    assert(final (self).buff@ =~= old(self).buff@ + emit_stats(
                        block@,
                        0,
                        g_lab(*old(self)),
                        old(self).loop_exit_label@,
                        g_scope(*old(self)),
                        g_fx(*old(self)),
                        g_pd(*old(self)),
                    ).0 + seq![Instr::Simple(opcode::EXT)]);
                }
            },
        }
    }

    /// Emit the global allocation block.
    pub fn gen_variables(&mut self, var_decl_list: &VarDeclList)
        requires
            decl_count(var_decl_list@, Kind::Int) <= 0xffff,
            decl_count(var_decl_list@, Kind::Real) <= 0xffff,
            decl_count(var_decl_list@, Kind::Bool) <= 0xffff,
            decl_count(var_decl_list@, Kind::Str) <= 0xffff,
        ensures
            same_env(*final (self), *old(self)),
            final (self).label_counter == old(self).label_counter,
            final (self).buff@ == old(self).buff@.push(
                Instr::Init(
                    decl_count(var_decl_list@, Kind::Int) as u16,
                    decl_count(var_decl_list@, Kind::Real) as u16,
                    decl_count(var_decl_list@, Kind::Bool) as u16,
                    decl_count(var_decl_list@, Kind::Str) as u16,
                ),
            ),
    {
        let var_count = VariableCounter::count_variables(var_decl_list);
        self.push_i(
            Instr::Init(
                var_count.integer_count,
                var_count.real_count,
                var_count.boolean_count,
                var_count.string_count,
            ),
        );
    }

    /// Emit one function definition.
    #[verifier::rlimit(80)]
    pub fn gen_function(&mut self, func: &FuncDecl)
        requires
            old(self).loop_exit_label@.len() == 0,
            stats_ready(func.body@, g_scope(*old(self)), g_fx(*old(self)), g_pd(*old(self)), 0),
            param_count(func.params@, Kind::Int) + decl_count(func.vars@, Kind::Int) <= 0xffff,
            param_count(func.params@, Kind::Real) + decl_count(func.vars@, Kind::Real) <= 0xffff,
            param_count(func.params@, Kind::Bool) + decl_count(func.vars@, Kind::Bool) <= 0xffff,
            param_count(func.params@, Kind::Str) + decl_count(func.vars@, Kind::Str) <= 0xffff,
            emit_function(
                *func,
                g_lab(*old(self)),
                g_scope(*old(self)),
                g_fx(*old(self)),
                g_pd(*old(self)),
            ).1 <= 0xffff,
        ensures
            same_env(*final (self), *old(self)),
            final (self).buff@ == old(self).buff@ + emit_function(
                *func,
                g_lab(*old(self)),
                g_scope(*old(self)),
                g_fx(*old(self)),
                g_pd(*old(self)),
            ).0,
            g_lab(*final (self)) == emit_function(
                *func,
                g_lab(*old(self)),
                g_scope(*old(self)),
                g_fx(*old(self)),
                g_pd(*old(self)),
            ).1,
    {
        let ghost c = g_scope(*old(self));
        let ghost fx = g_fx(*old(self));
        let ghost pd = g_pd(*old(self));
        let ghost l = g_lab(*old(self));
        self.push_i(Instr::Simple(opcode::FUNC));
        proof {
            lemma_decl_count_take_le(func.vars@, func.vars@.len() as int, Kind::Int);
            lemma_decl_count_take_le(func.vars@, func.vars@.len() as int, Kind::Real);
            lemma_decl_count_take_le(func.vars@, func.vars@.len() as int, Kind::Bool);
            lemma_decl_count_take_le(func.vars@, func.vars@.len() as int, Kind::Str);
            lemma_param_count_take_le(func.params@, func.params@.len() as int, Kind::Int);
            lemma_param_count_take_le(func.params@, func.params@.len() as int, Kind::Real);
            lemma_param_count_take_le(func.params@, func.params@.len() as int, Kind::Bool);
            lemma_param_count_take_le(func.params@, func.params@.len() as int, Kind::Str);
            assert(func.vars@.take(func.vars@.len() as int) =~= func.vars@);
            assert(func.params@.take(func.params@.len() as int) =~= func.params@);
        }
        let var_count = VariableCounter::count_variables(&func.vars);
        let var_count = var_count.count_parameters(&func.params);
        let ghost init = Instr::Init(
            (param_count(func.params@, Kind::Int) + decl_count(func.vars@, Kind::Int)) as u16,
            (param_count(func.params@, Kind::Real) + decl_count(func.vars@, Kind::Real)) as u16,
            (param_count(func.params@, Kind::Bool) + decl_count(func.vars@, Kind::Bool)) as u16,
            (param_count(func.params@, Kind::Str) + decl_count(func.vars@, Kind::Str)) as u16,
        );
        self.push_i(
            Instr::Init(
                var_count.integer_count,
                var_count.real_count,
                var_count.boolean_count,
                var_count.string_count,
            ),
        );
        proof {
            assert(old(self).loop_exit_label@ =~= Seq::<AddrSize>::empty());
            assert(init == Instr::Init(
                var_count.integer_count,
                var_count.real_count,
                var_count.boolean_count,
                var_count.string_count,
            ));
        }
        self.gen_stats(&func.body, 0);
        let ghost ib = emit_stats(func.body@, 0, l, Seq::empty(), c, fx, pd).0;
        let ghost seg = seq![Instr::Simple(opcode::FUNC), init] + ib;
        proof {
            assert(self.buff@ =~= old(self).buff@ + seg);
            assert(seg.len() >= 2);
            assert(self.buff@.len() == old(self).buff@.len() + seg.len());
            assert(self.buff@.last() == seg.last());
        }
        let n = self.buff.len();
        let is_ret = match &self.buff[n - 1] {
            Instr::Simple(op) => *op == opcode::RET,
            _ => false,
        };
        if !is_ret {
            self.push_i(Instr::Simple(opcode::RET));
            proof {
                assert(final (self).buff@ =~= old(self).buff@ + seg.push(
                    Instr::Simple(opcode::RET),
                ));
            }
        }
    }

    /// Switch to the scope of the next function to emit.
    pub fn switch_local_cache(&mut self, local: VarLookup)
        ensures
            final (self).buff == old(self).buff,
            final (self).label_counter == old(self).label_counter,
            final (self).loop_exit_label == old(self).loop_exit_label,
            final (self).function_index == old(self).function_index,
            final (self).param_addr == old(self).param_addr,
            final (self).local_cache == local,
    {
        self.local_cache = local;
    }

    /// The finished stream, as flat bytes.
    pub fn get_result(self) -> (r: Vec<u8>)
        ensures
            r@ == super::instruction::stream_bytes(self.buff@),
    {
        super::instruction::assemble(&self.buff)
    }
}

/// What `emit_reads` leaves after position `i`: the prefix already
/// emitted.
pub proof fn lemma_emit_reads_prefix(ids: Seq<String>, i: int, c: EmitScope)
    requires
        0 <= i < ids.len(),
    ensures
        emit_reads(ids, i, c) == seq![
            match scope_resolve(c, ids[i]@) {
                Some((k, idx, local)) => Instr::Simple(spec_read_by_kind(k)),
                None => Instr::Simple(0),
            },
            spec_memory_instr(c, ids[i]@, |k: Kind| spec_store_by_kind(k)),
        ] + emit_reads(ids, i + 1, c),
{
}

} // verus!
