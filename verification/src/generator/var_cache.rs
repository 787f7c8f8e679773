//! Variable layout: per-kind slot indexes, assigned in declaration
//! order, independently for the globals and for each function's
//! parameters and locals. Parameters and locals share one numbering
//! space per kind; the layout also records each function's parameter
//! addresses in declaration order, so a caller can route argument
//! values into the right slots.

use vstd::prelude::*;
use crate::syntax_tree::{Kind, ParamDecl, ParamList, Program, VarDecl, VarDeclList};
use super::simple_counter::{AddrSize, SimpleCounter};

verus! {

/// The largest per-kind slot index: the address high bit is the scope
/// flag, so an index uses only the low fifteen bits.
pub const MAX_VAR_INDEX: u16 = 0x7fff;

/// One laid-out variable: its name, kind, and per-kind slot index.
#[derive(PartialEq, Debug)]
pub struct CacheEntry {
    pub name: String,
    pub kind: Kind,
    pub index: AddrSize,
}

impl Clone for CacheEntry {
    fn clone(&self) -> (res: Self)
        ensures
            res == *self,
    {
        CacheEntry { name: self.name.clone(), kind: self.kind, index: self.index }
    }
}

/// First-match lookup among laid-out variables.
pub open spec fn cache_lookup(s: Seq<CacheEntry>, name: Seq<char>) -> Option<CacheEntry>
    decreases s.len(),
{
    if s.len() == 0 {
        None
    } else if s[0].name@ == name {
        Some(s[0])
    } else {
        cache_lookup(s.drop_first(), name)
    }
}

/// How many entries of kind `k` a layout holds.
pub open spec fn count_kind(s: Seq<CacheEntry>, k: Kind) -> int
    decreases s.len(),
{
    if s.len() == 0 {
        0
    } else {
        count_kind(s.drop_last(), k) + if s.last().kind == k {
            1int
        } else {
            0int
        }
    }
}

/// Every per-kind count of a layout fits the index space.
pub open spec fn counts_bounded(s: Seq<CacheEntry>) -> bool {
    &&& count_kind(s, Kind::Int) <= MAX_VAR_INDEX
    &&& count_kind(s, Kind::Real) <= MAX_VAR_INDEX
    &&& count_kind(s, Kind::Bool) <= MAX_VAR_INDEX
    &&& count_kind(s, Kind::Str) <= MAX_VAR_INDEX
}

/// Separate counters per kind.
pub struct KindCounter {
    pub int_count: SimpleCounter,
    pub real_count: SimpleCounter,
    pub str_count: SimpleCounter,
    pub bool_count: SimpleCounter,
}

/// The counter value a `KindCounter` holds for a kind.
pub open spec fn kc_of(c: KindCounter, k: Kind) -> int {
    match k {
        Kind::Bool => c.bool_count.counter as int,
        Kind::Int => c.int_count.counter as int,
        Kind::Real => c.real_count.counter as int,
        Kind::Str => c.str_count.counter as int,
        Kind::Void => 0,
    }
}

impl KindCounter {
    /// All four counters at zero.
    pub fn new() -> (r: Self)
        ensures
            forall|k: Kind| kc_of(r, k) == 0,
    {
        Self {
            int_count: SimpleCounter::new(),
            real_count: SimpleCounter::new(),
            str_count: SimpleCounter::new(),
            bool_count: SimpleCounter::new(),
        }
    }

    /// The next index of kind `k`.
    pub fn get_index(&mut self, k: &Kind) -> (r: AddrSize)
        requires
            *k != Kind::Void,
            kc_of(*old(self), *k) < 0xffff,
        ensures
            r as int == kc_of(*old(self), *k),
            forall|k2: Kind| kc_of(*final (self), k2) == kc_of(*old(self), k2) + (if k2 == *k {
                1int
            } else {
                0int
            }),
    {
        match k {
            Kind::Bool => self.bool_count.count_one(),
            Kind::Int => self.int_count.count_one(),
            Kind::Real => self.real_count.count_one(),
            Kind::Str => self.str_count.count_one(),
            Kind::Void => 0,
        }
    }
}

/// A layout under construction: counters in step with the entries.
pub open spec fn wf_table(entries: Seq<CacheEntry>, counter: KindCounter) -> bool {
    &&& forall|k: Kind| k != Kind::Void ==> kc_of(counter, k) == count_kind(entries, k)
    &&& forall|i: int| 0 <= i < entries.len() ==> (#[trigger] entries[i]).kind != Kind::Void
        && entries[i].index as int == count_kind(entries.take(i), entries[i].kind)
        && entries[i].index <= MAX_VAR_INDEX
}

struct NameTable {
    entries: Vec<CacheEntry>,
    counter: KindCounter,
}

impl NameTable {
    fn new() -> (r: Self)
        ensures
            r.entries@ =~= Seq::<CacheEntry>::empty(),
            wf_table(r.entries@, r.counter),
    {
        let r = NameTable { entries: Vec::new(), counter: KindCounter::new() };
        proof {
            assert forall|k: Kind| k != Kind::Void implies kc_of(r.counter, k) == count_kind(
                r.entries@,
                k,
            ) by {
                assert(count_kind(r.entries@, k) == 0);
            }
        }
        r
    }

    fn insert(&mut self, name: &String, k: &Kind) -> (r: AddrSize)
        requires
            wf_table(old(self).entries@, old(self).counter),
            *k != Kind::Void,
            count_kind(old(self).entries@, *k) < MAX_VAR_INDEX,
        ensures
            wf_table(final (self).entries@, final (self).counter),
            r as int == count_kind(old(self).entries@, *k),
            final (self).entries@ == old(self).entries@.push(
                CacheEntry { name: *name, kind: *k, index: r },
            ),
    {
        let index = self.counter.get_index(k);
        let entry = CacheEntry { name: name.clone(), kind: *k, index };
        let ghost s = self.entries@;
        self.entries.push(entry);
        proof {
            let s2 = self.entries@;
            assert(s2.drop_last() =~= s);
            assert forall|k2: Kind| k2 != Kind::Void implies kc_of(self.counter, k2) == count_kind(
                s2,
                k2,
            ) by {}
            assert forall|i: int| 0 <= i < s2.len() implies (#[trigger] s2[i]).kind != Kind::Void
                && s2[i].index as int == count_kind(s2.take(i), s2[i].kind) && s2[i].index
                <= MAX_VAR_INDEX by {
                if i < s.len() {
                    assert(s2.take(i) =~= s.take(i));
                    assert(s[i].index as int == count_kind(s.take(i), s[i].kind));
                } else {
                    assert(s2.take(i) =~= s);
                }
            }
        }
        index
    }
}

/// The layout after entering each of `ids` at kind `k` in turn.
pub open spec fn cache_after_ids(ids: Seq<String>, k: Kind, entries: Seq<CacheEntry>) -> Seq<
    CacheEntry,
>
    decreases ids.len(),
{
    if ids.len() == 0 {
        entries
    } else {
        cache_after_ids(
            ids.drop_first(),
            k,
            entries.push(
                CacheEntry { name: ids[0], kind: k, index: count_kind(entries, k) as u16 },
            ),
        )
    }
}

/// The layout after entering every declaration in turn.
pub open spec fn cache_after_decls(decls: Seq<VarDecl>, entries: Seq<CacheEntry>) -> Seq<CacheEntry>
    decreases decls.len(),
{
    if decls.len() == 0 {
        entries
    } else {
        cache_after_decls(
            decls.drop_first(),
            cache_after_ids(decls[0].id_list@, decls[0].kind, entries),
        )
    }
}

/// The layout after entering every parameter in turn.
pub open spec fn cache_after_params(params: Seq<ParamDecl>, entries: Seq<CacheEntry>) -> Seq<
    CacheEntry,
>
    decreases params.len(),
{
    if params.len() == 0 {
        entries
    } else {
        cache_after_params(
            params.drop_first(),
            entries.push(
                CacheEntry {
                    name: params[0].id,
                    kind: params[0].kind,
                    index: count_kind(entries, params[0].kind) as u16,
                },
            ),
        )
    }
}

/// The slot index each parameter receives, in declaration order.
pub open spec fn spec_param_addrs(params: Seq<ParamDecl>, entries: Seq<CacheEntry>) -> Seq<AddrSize>
    decreases params.len(),
{
    if params.len() == 0 {
        Seq::empty()
    } else {
        seq![(count_kind(entries, params[0].kind) as u16)] + spec_param_addrs(
            params.drop_first(),
            entries.push(
                CacheEntry {
                    name: params[0].id,
                    kind: params[0].kind,
                    index: count_kind(entries, params[0].kind) as u16,
                },
            ),
        )
    }
}

/// The layout of one function, by name.
pub struct FuncVars {
    pub name: String,
    pub vars: Vec<CacheEntry>,
}

/// The parameter addresses of one function, by name.
pub struct ParamAddrs {
    pub name: String,
    pub addrs: Vec<AddrSize>,
}

/// First-match lookup of a function's layout.
pub open spec fn fvars_lookup(s: Seq<FuncVars>, name: Seq<char>) -> Option<FuncVars>
    decreases s.len(),
{
    if s.len() == 0 {
        None
    } else if s[0].name@ == name {
        Some(s[0])
    } else {
        fvars_lookup(s.drop_first(), name)
    }
}

/// First-match lookup of a function's parameter addresses.
pub open spec fn paddr_lookup(s: Seq<ParamAddrs>, name: Seq<char>) -> Option<ParamAddrs>
    decreases s.len(),
{
    if s.len() == 0 {
        None
    } else if s[0].name@ == name {
        Some(s[0])
    } else {
        paddr_lookup(s.drop_first(), name)
    }
}

/// The parameter addresses of every function.
pub struct ParameterAddress {
    pub param_addr: Vec<ParamAddrs>,
}

impl ParameterAddress {
    /// The local slot of parameter `index` of a known function.
    pub fn get_parameter_address(&self, name: &String, index: usize) -> (r: AddrSize)
        requires
            paddr_lookup(self.param_addr@, name@) matches Some(p) && index < p.addrs@.len(),
        ensures
            r == paddr_lookup(self.param_addr@, name@)->Some_0.addrs@[index as int],
    {
        let n = self.param_addr.len();
        let ghost s = self.param_addr@;
        proof {
            assert(s.skip(0) =~= s);
        }
        for i in 0..n
            invariant
                n == s.len(),
                s == self.param_addr@,
                paddr_lookup(s, name@) == paddr_lookup(s.skip(i as int), name@),
                paddr_lookup(s, name@) matches Some(p) && index < p.addrs@.len(),
        {
            proof {
                assert(s.skip(i as int).len() > 0);
                assert(s.skip(i as int)[0] == s[i as int]);
                assert(s.skip(i as int).drop_first() =~= s.skip(i as int + 1));
            }
            if self.param_addr[i].name.eq(name) {
                return self.param_addr[i].addrs[index];
            }
        }
        proof {
            assert(s.skip(n as int) =~= Seq::<ParamAddrs>::empty());
        }
        0
    }
}

/// The globals' layout plus each function's layout.
pub struct GlobalVarCache {
    pub global_vars: Vec<CacheEntry>,
    pub function_vars: Vec<FuncVars>,
}

/// A scope for the generator: the globals, and, inside a function, its
/// locals, which shadow them.
pub struct VarLookup {
    pub global_vars: Vec<CacheEntry>,
    pub local_vars: Option<Vec<CacheEntry>>,
}

/// Whether a name is a local or a global.
#[derive(Clone, Copy, PartialEq, Eq, Structural, Debug)]
pub enum VariableType {
    Global,
    Local,
}

/// What a name resolves to: its kind, slot index, and scope
/// (`true` for local).
pub open spec fn cache_resolve(c: VarLookup, name: Seq<char>) -> Option<(Kind, AddrSize, bool)> {
    match c.local_vars {
        Some(l) => match cache_lookup(l@, name) {
            Some(e) => Some((e.kind, e.index, true)),
            None => match cache_lookup(c.global_vars@, name) {
                Some(e) => Some((e.kind, e.index, false)),
                None => None,
            },
        },
        None => match cache_lookup(c.global_vars@, name) {
            Some(e) => Some((e.kind, e.index, false)),
            None => None,
        },
    }
}

/// Scan a layout for a name, as `cache_lookup` describes.
fn find_cached(entries: &Vec<CacheEntry>, name: &String) -> (r: Option<usize>)
    ensures
        match r {
            Some(i) => i < entries@.len() && cache_lookup(entries@, name@) == Some(
                entries@[i as int],
            ),
            None => cache_lookup(entries@, name@) is None,
        },
{
    let ghost s = entries@;
    let n = entries.len();
    proof {
        assert(s.skip(0) =~= s);
    }
    for i in 0..n
        invariant
            n == s.len(),
            s == entries@,
            cache_lookup(s, name@) == cache_lookup(s.skip(i as int), name@),
    {
        proof {
            assert(s.skip(i as int).len() > 0);
            assert(s.skip(i as int)[0] == s[i as int]);
            assert(s.skip(i as int).drop_first() =~= s.skip(i as int + 1));
        }
        if entries[i].name.eq(name) {
            return Some(i);
        }
    }
    proof {
        assert(s.skip(n as int) =~= Seq::<CacheEntry>::empty());
    }
    None
}

impl VarLookup {
    /// Resolve a name, locals first.
    pub fn lookup(&self, name: &String) -> (r: (Kind, AddrSize, VariableType))
        requires
            cache_resolve(*self, name@) is Some,
        ensures
            cache_resolve(*self, name@) matches Some(p) && r.0 == p.0 && r.1 == p.1 && (r.2
                is Local <==> p.2),
    {
        match &self.local_vars {
            Some(l) => {
                match find_cached(l, name) {
                    Some(i) => {
                        let e = &l[i];
                        (e.kind, e.index, VariableType::Local)
                    },
                    None => {
                        let i = find_cached(&self.global_vars, name).unwrap();
                        let e = &self.global_vars[i];
                        (e.kind, e.index, VariableType::Global)
                    },
                }
            },
            None => {
                let i = find_cached(&self.global_vars, name).unwrap();
                let e = &self.global_vars[i];
                (e.kind, e.index, VariableType::Global)
            },
        }
    }
}

/// Copy a layout, entry for entry.
fn clone_cache(entries: &Vec<CacheEntry>) -> (r: Vec<CacheEntry>)
    ensures
        r@ == entries@,
{
    let r = entries.clone();
    proof {
        assert(r@ =~= entries@);
    }
    r
}

impl GlobalVarCache {
    /// The scope of a known function's body: its locals over the
    /// globals.
    pub fn get_local_cache(&self, name: &String) -> (r: VarLookup)
        requires
            fvars_lookup(self.function_vars@, name@) is Some,
        ensures
            r.global_vars@ == self.global_vars@,
            r.local_vars matches Some(l) && l@ == fvars_lookup(
                self.function_vars@,
                name@,
            )->Some_0.vars@,
    {
        let ghost s = self.function_vars@;
        let n = self.function_vars.len();
        proof {
            assert(s.skip(0) =~= s);
        }
        for i in 0..n
            invariant
                n == s.len(),
                s == self.function_vars@,
                fvars_lookup(s, name@) == fvars_lookup(s.skip(i as int), name@),
                fvars_lookup(s, name@) is Some,
        {
            proof {
                assert(s.skip(i as int).len() > 0);
                assert(s.skip(i as int)[0] == s[i as int]);
                assert(s.skip(i as int).drop_first() =~= s.skip(i as int + 1));
            }
            if self.function_vars[i].name.eq(name) {
                return VarLookup {
                    global_vars: clone_cache(&self.global_vars),
                    local_vars: Some(clone_cache(&self.function_vars[i].vars)),
                };
            }
        }
        proof {
            assert(s.skip(n as int) =~= Seq::<FuncVars>::empty());
        }
        VarLookup { global_vars: clone_cache(&self.global_vars), local_vars: None }
    }

    /// The scope of the main body: the globals alone.
    pub fn get_global_cache(&self) -> (r: VarLookup)
        ensures
            r.global_vars@ == self.global_vars@,
            r.local_vars is None,
    {
        VarLookup { global_vars: clone_cache(&self.global_vars), local_vars: None }
    }
}

/// No declared variable of the list exceeds the per-kind index space.
pub open spec fn decls_fit(decls: Seq<VarDecl>, entries: Seq<CacheEntry>) -> bool {
    counts_bounded(cache_after_decls(decls, entries))
}

/// No declaration of the list is of kind void.
pub open spec fn decls_nonvoid(decls: Seq<VarDecl>) -> bool {
    forall|i: int| 0 <= i < decls.len() ==> (#[trigger] decls[i]).kind != Kind::Void
}

/// No parameter of the list is of kind void.
pub open spec fn params_nonvoid(params: Seq<ParamDecl>) -> bool {
    forall|i: int| 0 <= i < params.len() ==> (#[trigger] params[i]).kind != Kind::Void
}

/// Adding entries never lowers a count.
pub proof fn lemma_count_mono_push(s: Seq<CacheEntry>, e: CacheEntry, k: Kind)
    ensures
        count_kind(s.push(e), k) == count_kind(s, k) + if e.kind == k {
            1int
        } else {
            0int
        },
{
    assert(s.push(e).drop_last() =~= s);
}

/// The count under `cache_after_ids` only grows.
pub proof fn lemma_count_after_ids_mono(ids: Seq<String>, k0: Kind, entries: Seq<CacheEntry>, k:
    Kind)
    ensures
        count_kind(cache_after_ids(ids, k0, entries), k) >= count_kind(entries, k),
    decreases ids.len(),
{
    if ids.len() > 0 {
        let e = CacheEntry { name: ids[0], kind: k0, index: count_kind(entries, k0) as u16 };
        lemma_count_mono_push(entries, e, k);
        lemma_count_after_ids_mono(ids.drop_first(), k0, entries.push(e), k);
    }
}

/// The count under `cache_after_decls` only grows.
pub proof fn lemma_count_after_decls_mono(decls: Seq<VarDecl>, entries: Seq<CacheEntry>, k: Kind)
    ensures
        count_kind(cache_after_decls(decls, entries), k) >= count_kind(entries, k),
    decreases decls.len(),
{
    if decls.len() > 0 {
        lemma_count_after_ids_mono(decls[0].id_list@, decls[0].kind, entries, k);
        lemma_count_after_decls_mono(
            decls.drop_first(),
            cache_after_ids(decls[0].id_list@, decls[0].kind, entries),
            k,
        );
    }
}

impl NameTable {
    /// Enter every name of every declaration, in order.
    fn cache_var_decl_list(&mut self, var_decl_list: &VarDeclList)
        requires
            wf_table(old(self).entries@, old(self).counter),
            decls_nonvoid(var_decl_list@),
            decls_fit(var_decl_list@, old(self).entries@),
        ensures
            wf_table(final (self).entries@, final (self).counter),
            final (self).entries@ == cache_after_decls(var_decl_list@, old(self).entries@),
    {
        let ghost decls = var_decl_list@;
        let n = var_decl_list.len();
        proof {
            assert(decls.skip(0) =~= decls);
        }
        for i in 0..n
            invariant
                n == decls.len(),
                decls == var_decl_list@,
                wf_table(self.entries@, self.counter),
                decls_nonvoid(decls),
                cache_after_decls(decls, old(self).entries@) == cache_after_decls(
                    decls.skip(i as int),
                    self.entries@,
                ),
                counts_bounded(cache_after_decls(decls.skip(i as int), self.entries@)),
        {
            proof {
                assert(decls.skip(i as int).len() > 0);
                assert(decls.skip(i as int)[0] == decls[i as int]);
                assert(decls.skip(i as int).drop_first() =~= decls.skip(i as int + 1));
                let mid = cache_after_ids(
                    decls[i as int].id_list@,
                    decls[i as int].kind,
                    self.entries@,
                );
                lemma_count_after_decls_mono(decls.skip(i as int + 1), mid, Kind::Int);
                lemma_count_after_decls_mono(decls.skip(i as int + 1), mid, Kind::Real);
                lemma_count_after_decls_mono(decls.skip(i as int + 1), mid, Kind::Bool);
                lemma_count_after_decls_mono(decls.skip(i as int + 1), mid, Kind::Str);
                assert(counts_bounded(mid));
            }
            let decl = &var_decl_list[i];
            self.cache_var_decl(decl);
            proof {
                assert(cache_after_decls(decls.skip(i as int + 1), self.entries@)
                    == cache_after_decls(decls, old(self).entries@));
            }
        }
        proof {
            assert(decls.skip(n as int) =~= Seq::<VarDecl>::empty());
        }
    }

    /// Enter every name of one declaration.
    fn cache_var_decl(&mut self, var_decl: &VarDecl)
        requires
            wf_table(old(self).entries@, old(self).counter),
            var_decl.kind != Kind::Void,
            counts_bounded(
                cache_after_ids(var_decl.id_list@, var_decl.kind, old(self).entries@),
            ),
        ensures
            wf_table(final (self).entries@, final (self).counter),
            final (self).entries@ == cache_after_ids(
                var_decl.id_list@,
                var_decl.kind,
                old(self).entries@,
            ),
    {
        let ghost ids = var_decl.id_list@;
        let m = var_decl.id_list.len();
        proof {
            assert(ids.skip(0) =~= ids);
        }
        for j in 0..m
            invariant
                m == ids.len(),
                ids == var_decl.id_list@,
                var_decl.kind != Kind::Void,
                wf_table(self.entries@, self.counter),
                cache_after_ids(ids, var_decl.kind, old(self).entries@) == cache_after_ids(
                    ids.skip(j as int),
                    var_decl.kind,
                    self.entries@,
                ),
                counts_bounded(
                    cache_after_ids(ids.skip(j as int), var_decl.kind, self.entries@),
                ),
        {
            proof {
                assert(ids.skip(j as int).len() > 0);
                assert(ids.skip(j as int)[0] == ids[j as int]);
                assert(ids.skip(j as int).drop_first() =~= ids.skip(j as int + 1));
                assert(count_kind(
                    cache_after_ids(ids.skip(j as int), var_decl.kind, self.entries@),
                    var_decl.kind,
                ) <= MAX_VAR_INDEX);
                lemma_count_after_ids_mono(
                    ids.skip(j as int + 1),
                    var_decl.kind,
                    self.entries@.push(
                        CacheEntry {
                            name: ids[j as int],
                            kind: var_decl.kind,
                            index: count_kind(self.entries@, var_decl.kind) as u16,
                        },
                    ),
                    var_decl.kind,
                );
                lemma_count_mono_push(
                    self.entries@,
                    CacheEntry {
                        name: ids[j as int],
                        kind: var_decl.kind,
                        index: count_kind(self.entries@, var_decl.kind) as u16,
                    },
                    var_decl.kind,
                );
            }
            let id = &var_decl.id_list[j];
            self.insert(id, &var_decl.kind);
        }
        proof {
            assert(ids.skip(m as int) =~= Seq::<String>::empty());
        }
    }

    /// Enter every parameter, recording its slot index.
    fn cache_params(&mut self, param_list: &ParamList) -> (r: Vec<AddrSize>)
        requires
            wf_table(old(self).entries@, old(self).counter),
            params_nonvoid(param_list@),
            counts_bounded(cache_after_params(param_list@, old(self).entries@)),
        ensures
            wf_table(final (self).entries@, final (self).counter),
            final (self).entries@ == cache_after_params(param_list@, old(self).entries@),
            r@ == spec_param_addrs(param_list@, old(self).entries@),
    {
        let ghost params = param_list@;
        let mut out: Vec<AddrSize> = Vec::new();
        let n = param_list.len();
        proof {
            assert(params.skip(0) =~= params);
            assert(out@ + spec_param_addrs(params, old(self).entries@) =~= spec_param_addrs(
                params,
                old(self).entries@,
            ));
        }
        for i in 0..n
            invariant
                n == params.len(),
                params == param_list@,
                params_nonvoid(params),
                wf_table(self.entries@, self.counter),
                cache_after_params(params, old(self).entries@) == cache_after_params(
                    params.skip(i as int),
                    self.entries@,
                ),
                spec_param_addrs(params, old(self).entries@) == out@ + spec_param_addrs(
                    params.skip(i as int),
                    self.entries@,
                ),
                counts_bounded(cache_after_params(params.skip(i as int), self.entries@)),
        {
            proof {
                assert(params.skip(i as int).len() > 0);
                assert(params.skip(i as int)[0] == params[i as int]);
                assert(params.skip(i as int).drop_first() =~= params.skip(i as int + 1));
                assert(count_kind(
                    cache_after_params(params.skip(i as int), self.entries@),
                    params[i as int].kind,
                ) <= MAX_VAR_INDEX);
                lemma_count_after_params_mono(
                    params.skip(i as int + 1),
                    self.entries@.push(
                        CacheEntry {
                            name: params[i as int].id,
                            kind: params[i as int].kind,
                            index: count_kind(self.entries@, params[i as int].kind) as u16,
                        },
                    ),
                    params[i as int].kind,
                );
                lemma_count_mono_push(
                    self.entries@,
                    CacheEntry {
                        name: params[i as int].id,
                        kind: params[i as int].kind,
                        index: count_kind(self.entries@, params[i as int].kind) as u16,
                    },
                    params[i as int].kind,
                );
            }
            let param = &param_list[i];
            let ghost out_before = out@;
            let ghost entries_before = self.entries@;
            let index = self.insert(&param.id, &param.kind);
            out.push(index);
            proof {
                assert(out@ =~= out_before.push(index));
                assert(spec_param_addrs(params.skip(i as int), entries_before) == seq![index]
                    + spec_param_addrs(params.skip(i as int + 1), self.entries@));
                assert(out_before + spec_param_addrs(params.skip(i as int), entries_before)
                    =~= out@ + spec_param_addrs(params.skip(i as int + 1), self.entries@));
            }
        }
        proof {
            assert(params.skip(n as int) =~= Seq::<ParamDecl>::empty());
            assert(spec_param_addrs(params.skip(n as int), self.entries@) =~= Seq::<
                AddrSize,
            >::empty());
            assert(out@ + spec_param_addrs(params.skip(n as int), self.entries@) =~= out@);
        }
        out
    }
}

/// The count under `cache_after_params` only grows.
pub proof fn lemma_count_after_params_mono(
    params: Seq<ParamDecl>,
    entries: Seq<CacheEntry>,
    k: Kind,
)
    ensures
        count_kind(cache_after_params(params, entries), k) >= count_kind(entries, k),
    decreases params.len(),
{
    if params.len() > 0 {
        let e = CacheEntry {
            name: params[0].id,
            kind: params[0].kind,
            index: count_kind(entries, params[0].kind) as u16,
        };
        lemma_count_mono_push(entries, e, k);
        lemma_count_after_params_mono(params.drop_first(), entries.push(e), k);
    }
}

/// The layout of one function's scope: parameters first, then locals.
pub open spec fn func_cache(f: crate::syntax_tree::FuncDecl) -> Seq<CacheEntry> {
    cache_after_decls(f.vars@, cache_after_params(f.params@, Seq::empty()))
}

/// Every variable of the program fits the per-kind index space, and no
/// declaration or parameter is of kind void.
pub open spec fn layout_fits(prog: Program) -> bool {
    &&& decls_nonvoid(prog.global_vars@)
    &&& decls_fit(prog.global_vars@, Seq::empty())
    &&& forall|i: int| 0 <= i < prog.functions@.len() ==> {
        let f = #[trigger] prog.functions@[i];
        &&& params_nonvoid(f.params@)
        &&& decls_nonvoid(f.vars@)
        &&& counts_bounded(func_cache(f))
    }
}

/// Lay out the whole program: the globals, then, per function, its
/// parameters and locals.
pub fn build_global_var_cache(prog: &Program) -> (r: (GlobalVarCache, ParameterAddress))
    requires
        layout_fits(*prog),
    ensures
        r.0.global_vars@ == cache_after_decls(prog.global_vars@, Seq::empty()),
        r.0.function_vars@.len() == prog.functions@.len(),
        forall|i: int| 0 <= i < prog.functions@.len() ==> {
            let fv = #[trigger] r.0.function_vars@[i];
            fv.name == prog.functions@[i].id && fv.vars@ == func_cache(prog.functions@[i])
        },
        r.1.param_addr@.len() == prog.functions@.len(),
        forall|i: int| 0 <= i < prog.functions@.len() ==> {
            let pa = #[trigger] r.1.param_addr@[i];
            pa.name == prog.functions@[i].id && pa.addrs@ == spec_param_addrs(
                prog.functions@[i].params@,
                Seq::empty(),
            )
        },
{
    let mut global_table = NameTable::new();
    global_table.cache_var_decl_list(&prog.global_vars);
    let mut function_vars: Vec<FuncVars> = Vec::new();
    let mut param_addr: Vec<ParamAddrs> = Vec::new();
    let n = prog.functions.len();
    for i in 0..n
        invariant
            n == prog.functions@.len(),
            layout_fits(*prog),
            function_vars@.len() == i,
            param_addr@.len() == i,
            forall|j: int| 0 <= j < i ==> {
                let fv = #[trigger] function_vars@[j];
                fv.name == prog.functions@[j].id && fv.vars@ == func_cache(prog.functions@[j])
            },
            forall|j: int| 0 <= j < i ==> {
                let pa = #[trigger] param_addr@[j];
                pa.name == prog.functions@[j].id && pa.addrs@ == spec_param_addrs(
                    prog.functions@[j].params@,
                    Seq::empty(),
                )
            },
    {
        let func = &prog.functions[i];
        let mut local_table = NameTable::new();
        proof {
            assert(*func == prog.functions@[i as int]);
            assert(local_table.entries@ == Seq::<CacheEntry>::empty());
            assert(counts_bounded(func_cache(prog.functions@[i as int])));
            assert(func_cache(prog.functions@[i as int]) == cache_after_decls(
                func.vars@,
                cache_after_params(func.params@, Seq::empty()),
            ));
            let cap = cache_after_params(func.params@, Seq::empty());
            lemma_count_after_decls_mono(func.vars@, cap, Kind::Int);
            lemma_count_after_decls_mono(func.vars@, cap, Kind::Real);
            lemma_count_after_decls_mono(func.vars@, cap, Kind::Bool);
            lemma_count_after_decls_mono(func.vars@, cap, Kind::Str);
            assert(cache_after_params(func.params@, local_table.entries@) == cap);
            assert(counts_bounded(cache_after_params(func.params@, local_table.entries@)));
        }
        let addrs = local_table.cache_params(&func.params);
        proof {
            assert(counts_bounded(func_cache(prog.functions@[i as int])));
            assert(cache_after_decls(func.vars@, local_table.entries@) == func_cache(
                prog.functions@[i as int],
            ));
            assert(counts_bounded(cache_after_decls(func.vars@, local_table.entries@)));
        }
        local_table.cache_var_decl_list(&func.vars);
        function_vars.push(FuncVars { name: func.id.clone(), vars: local_table.entries });
        param_addr.push(ParamAddrs { name: func.id.clone(), addrs });
    }
    (
        GlobalVarCache { global_vars: global_table.entries, function_vars },
        ParameterAddress { param_addr },
    )
}

} // verus!

