//! Layered name tables, built in a strict order: global variables first,
//! then functions (which may not shadow a global), then per-function
//! local tables (locals may shadow globals but not functions).
//!
//! A table is an ordered list of entries; lookup is first match. Each
//! entry records the span where the name was defined, so a collision can
//! report both the original definition and the new one.

use vstd::prelude::*;
use crate::syntax_tree::{Kind, Location};
use super::semantic_error::{NameRidefinition, Ridefinition, SemanticError};

verus! {

/// One variable entry: its name, kind, and the span of its declaration.
#[derive(PartialEq, Debug)]
pub struct VarEntry {
    pub name: String,
    pub kind: Kind,
    pub loc: Location,
}

impl Clone for VarEntry {
    fn clone(&self) -> (res: Self)
        ensures
            res == *self,
    {
        VarEntry { name: self.name.clone(), kind: self.kind, loc: self.loc }
    }
}

/// One function entry: its name, result kind, parameter kinds in
/// declaration order, and the span of its declaration.
#[derive(PartialEq, Debug)]
pub struct FuncEntry {
    pub name: String,
    pub kind: Kind,
    pub param_kinds: Vec<Kind>,
    pub loc: Location,
}

impl Clone for FuncEntry {
    fn clone(&self) -> (res: Self)
        ensures
            res.name == self.name,
            res.kind == self.kind,
            res.param_kinds@ == self.param_kinds@,
            res.loc == self.loc,
    {
        FuncEntry {
            name: self.name.clone(),
            kind: self.kind,
            param_kinds: self.param_kinds.clone(),
            loc: self.loc,
        }
    }
}

/// First-match lookup of a name among variable entries.
pub open spec fn var_lookup(s: Seq<VarEntry>, name: Seq<char>) -> Option<VarEntry>
    decreases s.len(),
{
    if s.len() == 0 {
        None
    } else if s[0].name@ == name {
        Some(s[0])
    } else {
        var_lookup(s.drop_first(), name)
    }
}

/// First-match lookup of a name among function entries.
pub open spec fn func_lookup(s: Seq<FuncEntry>, name: Seq<char>) -> Option<FuncEntry>
    decreases s.len(),
{
    if s.len() == 0 {
        None
    } else if s[0].name@ == name {
        Some(s[0])
    } else {
        func_lookup(s.drop_first(), name)
    }
}

/// Appending an entry does not change the lookup of names already
/// present, and resolves exactly the new name among the absent ones.
pub proof fn lemma_var_lookup_push(s: Seq<VarEntry>, e: VarEntry, name: Seq<char>)
    ensures
        var_lookup(s.push(e), name) == (if var_lookup(s, name) is Some {
            var_lookup(s, name)
        } else if e.name@ == name {
            Some(e)
        } else {
            None::<VarEntry>
        }),
    decreases s.len(),
{
    if s.len() == 0 {
        assert(s.push(e).drop_first() =~= Seq::<VarEntry>::empty());
    } else {
        assert(s.push(e).drop_first() =~= s.drop_first().push(e));
        lemma_var_lookup_push(s.drop_first(), e, name);
    }
}

/// The same append law for function entries.
pub proof fn lemma_func_lookup_push(s: Seq<FuncEntry>, e: FuncEntry, name: Seq<char>)
    ensures
        func_lookup(s.push(e), name) == (if func_lookup(s, name) is Some {
            func_lookup(s, name)
        } else if e.name@ == name {
            Some(e)
        } else {
            None::<FuncEntry>
        }),
    decreases s.len(),
{
    if s.len() == 0 {
        assert(s.push(e).drop_first() =~= Seq::<FuncEntry>::empty());
    } else {
        assert(s.push(e).drop_first() =~= s.drop_first().push(e));
        lemma_func_lookup_push(s.drop_first(), e, name);
    }
}

/// Two function entries that agree field for field; the lists of
/// parameter kinds are compared element for element.
pub open spec fn func_entry_equiv(a: FuncEntry, b: FuncEntry) -> bool {
    &&& a.name == b.name
    &&& a.kind == b.kind
    &&& a.param_kinds@ == b.param_kinds@
    &&& a.loc == b.loc
}

/// Two function tables that agree entry for entry.
pub open spec fn func_entries_equiv(a: Seq<FuncEntry>, b: Seq<FuncEntry>) -> bool {
    &&& a.len() == b.len()
    &&& forall|i: int| 0 <= i < a.len() ==> func_entry_equiv(#[trigger] a[i], #[trigger] b[i])
}

/// Scan for a name among variable entries; the result is the first
/// match, exactly as `var_lookup` describes.
fn find_var(entries: &Vec<VarEntry>, name: &String) -> (r: Option<usize>)
    ensures
        match r {
            Some(i) => i < entries@.len() && var_lookup(entries@, name@) == Some(
                entries@[i as int],
            ),
            None => var_lookup(entries@, name@) is None,
        },
{
    let ghost s = entries@;
    let n = entries.len();
    proof {
        assert(s.skip(0) =~= s);
    }
    for i in 0..n
        invariant
            n == s.len(),
            s == entries@,
            var_lookup(s, name@) == var_lookup(s.skip(i as int), name@),
    {
        proof {
            assert(s.skip(i as int).len() > 0);
            assert(s.skip(i as int)[0] == s[i as int]);
            assert(s.skip(i as int).drop_first() =~= s.skip(i as int + 1));
        }
        if entries[i].name.eq(name) {
            return Some(i);
        }
    }
    proof {
        assert(s.skip(n as int) =~= Seq::<VarEntry>::empty());
    }
    None
}

/// Scan for a name among function entries, as `func_lookup` describes.
fn find_func(entries: &Vec<FuncEntry>, name: &String) -> (r: Option<usize>)
    ensures
        match r {
            Some(i) => i < entries@.len() && func_lookup(entries@, name@) == Some(
                entries@[i as int],
            ),
            None => func_lookup(entries@, name@) is None,
        },
{
    let ghost s = entries@;
    let n = entries.len();
    proof {
        assert(s.skip(0) =~= s);
    }
    for i in 0..n
        invariant
            n == s.len(),
            s == entries@,
            func_lookup(s, name@) == func_lookup(s.skip(i as int), name@),
    {
        proof {
            assert(s.skip(i as int).len() > 0);
            assert(s.skip(i as int)[0] == s[i as int]);
            assert(s.skip(i as int).drop_first() =~= s.skip(i as int + 1));
        }
        if entries[i].name.eq(name) {
            return Some(i);
        }
    }
    proof {
        assert(s.skip(n as int) =~= Seq::<FuncEntry>::empty());
    }
    None
}

/// The names a table refuses to define again, each mapped to the
/// category and span of the definition it would collide with.
pub open spec fn var_blocked(s: Seq<VarEntry>) -> Map<Seq<char>, Ridefinition> {
    Map::new(
        |n: Seq<char>| var_lookup(s, n) is Some,
        |n: Seq<char>| Ridefinition::Variable(var_lookup(s, n)->Some_0.loc),
    )
}

/// A common face for the two tables that accept variable definitions:
/// the global table, and a local table layered above functions and
/// globals. `vars` is the list the new names go into, and `blocked`
/// gives, per name, the earlier definition a new one would collide with.
pub trait VariableTable: Sized {
    spec fn vars(&self) -> Seq<VarEntry>;

    spec fn blocked(&self) -> Map<Seq<char>, Ridefinition>;

    /// The surrounding scope a variable definition can never touch.
    spec fn frame(&self) -> (Seq<VarEntry>, Seq<FuncEntry>);

    /// Define `name` at kind `kind`; refused exactly when some earlier
    /// definition blocks it, with both definitions reported.
    fn insert_variable(&mut self, name: &String, kind: &Kind, loc: &Location) -> (r: Result<
        (),
        SemanticError,
    >)
        ensures
            old(self).blocked().contains_key(name@) ==> {
                &&& r == Err::<(), SemanticError>(
                    SemanticError::NameRidefinition(
                        NameRidefinition {
                            name: *name,
                            original: old(self).blocked()[name@],
                            new: Ridefinition::Variable(*loc),
                        },
                    ),
                )
                &&& *final (self) == *old(self)
            },
            !old(self).blocked().contains_key(name@) ==> {
                &&& r is Ok
                &&& final (self).vars() == old(self).vars().push(
                    VarEntry { name: *name, kind: *kind, loc: *loc },
                )
                &&& final (self).blocked() == old(self).blocked().insert(
                    name@,
                    Ridefinition::Variable(*loc),
                )
                &&& final (self).frame() == old(self).frame()
            },
    ;
}

/// The first tier: the table of global variables.
pub struct GlobalVariableTable {
    pub global_table: Vec<VarEntry>,
}

/// An empty global variable table, the start of the tiered build.
pub fn name_table_factory() -> (r: GlobalVariableTable)
    ensures
        r.global_table@ =~= Seq::<VarEntry>::empty(),
{
    GlobalVariableTable { global_table: Vec::new() }
}

impl GlobalVariableTable {
    /// Freeze the globals and begin collecting function definitions.
    pub fn switch_to_function_table(self) -> (r: FunctionTable)
        ensures
            r.global_table == self.global_table,
            r.function_table@ =~= Seq::<FuncEntry>::empty(),
    {
        FunctionTable { global_table: self.global_table, function_table: Vec::new() }
    }
}

impl VariableTable for GlobalVariableTable {
    open spec fn vars(&self) -> Seq<VarEntry> {
        self.global_table@
    }

    open spec fn blocked(&self) -> Map<Seq<char>, Ridefinition> {
        var_blocked(self.global_table@)
    }

    open spec fn frame(&self) -> (Seq<VarEntry>, Seq<FuncEntry>) {
        (Seq::empty(), Seq::empty())
    }

    fn insert_variable(&mut self, name: &String, kind: &Kind, loc: &Location) -> (r: Result<
        (),
        SemanticError,
    >) {
        match find_var(&self.global_table, name) {
            Some(i) => {
                let original = Ridefinition::Variable(self.global_table[i].loc);
                let err = NameRidefinition::new(name.clone(), original, Ridefinition::Variable(
                    *loc,
                ));
                Err(SemanticError::NameRidefinition(err))
            },
            None => {
                let entry = VarEntry { name: name.clone(), kind: *kind, loc: *loc };
                let ghost s = self.global_table@;
                self.global_table.push(entry);
                proof {
                    assert forall|n: Seq<char>| true implies #[trigger] var_lookup(
                        s.push(VarEntry { name: *name, kind: *kind, loc: *loc }),
                        n,
                    ) == (if var_lookup(s, n) is Some {
                        var_lookup(s, n)
                    } else if name@ == n {
                        Some(VarEntry { name: *name, kind: *kind, loc: *loc })
                    } else {
                        None::<VarEntry>
                    }) by {
                        lemma_var_lookup_push(
                            s,
                            VarEntry { name: *name, kind: *kind, loc: *loc },
                            n,
                        );
                    }
                    assert(self.blocked() =~= old(self).blocked().insert(
                        name@,
                        Ridefinition::Variable(*loc),
                    ));
                }
                Ok(())
            },
        }
    }
}

/// The second tier: globals plus the table of function definitions.
pub struct FunctionTable {
    pub global_table: Vec<VarEntry>,
    pub function_table: Vec<FuncEntry>,
}

impl FunctionTable {
    /// Define a function. A function may not share its name with a
    /// global variable nor with an earlier function.
    pub fn insert_function(&mut self, name: &String, kind: &Kind, param_kinds: Vec<Kind>, loc:
        &Location) -> (r: Result<(), SemanticError>)
        ensures
            var_lookup(old(self).global_table@, name@) is Some ==> {
                &&& r == Err::<(), SemanticError>(
                    SemanticError::NameRidefinition(
                        NameRidefinition {
                            name: *name,
                            original: Ridefinition::Variable(
                                var_lookup(old(self).global_table@, name@)->Some_0.loc,
                            ),
                            new: Ridefinition::Function(*loc),
                        },
                    ),
                )
                &&& *final (self) == *old(self)
            },
            var_lookup(old(self).global_table@, name@) is None && func_lookup(
                old(self).function_table@,
                name@,
            ) is Some ==> {
                &&& r == Err::<(), SemanticError>(
                    SemanticError::NameRidefinition(
                        NameRidefinition {
                            name: *name,
                            original: Ridefinition::Function(
                                func_lookup(old(self).function_table@, name@)->Some_0.loc,
                            ),
                            new: Ridefinition::Function(*loc),
                        },
                    ),
                )
                &&& *final (self) == *old(self)
            },
            var_lookup(old(self).global_table@, name@) is None && func_lookup(
                old(self).function_table@,
                name@,
            ) is None ==> {
                &&& r is Ok
                &&& final (self).global_table == old(self).global_table
                &&& final (self).function_table@ == old(self).function_table@.push(
                    FuncEntry { name: *name, kind: *kind, param_kinds, loc: *loc },
                )
            },
    {
        match find_var(&self.global_table, name) {
            Some(i) => {
                let original = Ridefinition::Variable(self.global_table[i].loc);
                let err = NameRidefinition::new(name.clone(), original, Ridefinition::Function(
                    *loc,
                ));
                Err(SemanticError::NameRidefinition(err))
            },
            None => {
                match find_func(&self.function_table, name) {
                    Some(i) => {
                        let original = Ridefinition::Function(self.function_table[i].loc);
                        let err = NameRidefinition::new(
                            name.clone(),
                            original,
                            Ridefinition::Function(*loc),
                        );
                        Err(SemanticError::NameRidefinition(err))
                    },
                    None => {
                        let entry = FuncEntry { name: name.clone(), kind: *kind, param_kinds, loc:
                            *loc };
                        self.function_table.push(entry);
                        Ok(())
                    },
                }
            },
        }
    }

    /// Freeze the functions; the result hands out local tables.
    pub fn switch_to_local_table(self) -> (r: FactoryLocalVariableTable)
        ensures
            r.global_table == self.global_table,
            r.function_table == self.function_table,
    {
        FactoryLocalVariableTable {
            global_table: self.global_table,
            function_table: self.function_table,
        }
    }
}

/// The third tier: a factory that yields a fresh local table, layered
/// above the frozen globals and functions, for each function body and
/// for the main body.
pub struct FactoryLocalVariableTable {
    pub global_table: Vec<VarEntry>,
    pub function_table: Vec<FuncEntry>,
}

impl FactoryLocalVariableTable {
    /// A fresh, empty local scope above the globals and functions.
    pub fn factory_local_table(&self) -> (r: LocalVariableTable)
        ensures
            r.global_table@ == self.global_table@,
            func_entries_equiv(r.function_table@, self.function_table@),
            r.local_table@ =~= Seq::<VarEntry>::empty(),
    {
        LocalVariableTable {
            global_table: clone_var_entries(&self.global_table),
            function_table: clone_func_entries(&self.function_table),
            local_table: Vec::new(),
        }
    }
}

/// Copy a list of variable entries, element for element.
fn clone_var_entries(entries: &Vec<VarEntry>) -> (r: Vec<VarEntry>)
    ensures
        r@ == entries@,
{
    let r = entries.clone();
    proof {
        assert(r@ =~= entries@);
    }
    r
}

/// Copy a list of function entries, element for element.
fn clone_func_entries(entries: &Vec<FuncEntry>) -> (r: Vec<FuncEntry>)
    ensures
        func_entries_equiv(r@, entries@),
{
    let mut r: Vec<FuncEntry> = Vec::new();
    let n = entries.len();
    for i in 0..n
        invariant
            n == entries@.len(),
            r@.len() == i,
            forall|j: int| 0 <= j < i ==> func_entry_equiv(#[trigger] r@[j], #[trigger] entries@[j]),
    {
        let e = &entries[i];
        let copy = FuncEntry {
            name: e.name.clone(),
            kind: e.kind,
            param_kinds: clone_kinds(&e.param_kinds),
            loc: e.loc,
        };
        r.push(copy);
    }
    r
}

/// Copy a list of kinds.
fn clone_kinds(kinds: &Vec<Kind>) -> (r: Vec<Kind>)
    ensures
        r@ =~= kinds@,
{
    let r = kinds.clone();
    proof {
        assert(r@ =~= kinds@);
    }
    r
}

/// A local scope: lookup tries the local names first, then the globals;
/// functions live in their own table.
pub struct LocalVariableTable {
    pub global_table: Vec<VarEntry>,
    pub function_table: Vec<FuncEntry>,
    pub local_table: Vec<VarEntry>,
}

/// The kind a name resolves to in a local scope: the local definition
/// if there is one, else the global one.
pub open spec fn spec_get_variable(t: LocalVariableTable, name: Seq<char>) -> Option<Kind> {
    match var_lookup(t.local_table@, name) {
        Some(e) => Some(e.kind),
        None => match var_lookup(t.global_table@, name) {
            Some(e) => Some(e.kind),
            None => None,
        },
    }
}

/// The function a name resolves to.
pub open spec fn spec_get_function(t: LocalVariableTable, name: Seq<char>) -> Option<FuncEntry> {
    func_lookup(t.function_table@, name)
}

impl LocalVariableTable {
    /// Resolve a variable name, local scope first.
    pub fn get_variable(&self, name: &String) -> (r: Result<Kind, SemanticError>)
        ensures
            match spec_get_variable(*self, name@) {
                Some(k) => r == Ok::<Kind, SemanticError>(k),
                None => r == Err::<Kind, SemanticError>(SemanticError::UnknownVariable(*name)),
            },
    {
        match find_var(&self.local_table, name) {
            Some(i) => Ok(self.local_table[i].kind),
            None => match find_var(&self.global_table, name) {
                Some(i) => Ok(self.global_table[i].kind),
                None => Err(SemanticError::UnknownVariable(name.clone())),
            },
        }
    }

    /// Resolve a function name.
    pub fn get_function(&self, name: &String) -> (r: Result<&FuncEntry, SemanticError>)
        ensures
            match spec_get_function(*self, name@) {
                Some(e) => r matches Ok(f) && *f == e,
                None => r == Err::<&FuncEntry, SemanticError>(
                    SemanticError::UnknownFunction(*name),
                ),
            },
    {
        match find_func(&self.function_table, name) {
            Some(i) => Ok(&self.function_table[i]),
            None => Err(SemanticError::UnknownFunction(name.clone())),
        }
    }
}

impl VariableTable for LocalVariableTable {
    open spec fn vars(&self) -> Seq<VarEntry> {
        self.local_table@
    }

    open spec fn frame(&self) -> (Seq<VarEntry>, Seq<FuncEntry>) {
        (self.global_table@, self.function_table@)
    }

    open spec fn blocked(&self) -> Map<Seq<char>, Ridefinition> {
        Map::new(
            |n: Seq<char>| func_lookup(self.function_table@, n) is Some || var_lookup(
                self.local_table@,
                n,
            ) is Some,
            |n: Seq<char>|
                match func_lookup(self.function_table@, n) {
                    Some(f) => Ridefinition::Function(f.loc),
                    None => Ridefinition::Variable(var_lookup(self.local_table@, n)->Some_0.loc),
                },
        )
    }

    fn insert_variable(&mut self, name: &String, kind: &Kind, loc: &Location) -> (r: Result<
        (),
        SemanticError,
    >) {
        match find_func(&self.function_table, name) {
            Some(i) => {
                let original = Ridefinition::Function(self.function_table[i].loc);
                let err = NameRidefinition::new(name.clone(), original, Ridefinition::Variable(
                    *loc,
                ));
                Err(SemanticError::NameRidefinition(err))
            },
            None => {
                match find_var(&self.local_table, name) {
                    Some(i) => {
                        let original = Ridefinition::Variable(self.local_table[i].loc);
                        let err = NameRidefinition::new(
                            name.clone(),
                            original,
                            Ridefinition::Variable(*loc),
                        );
                        Err(SemanticError::NameRidefinition(err))
                    },
                    None => {
                        let entry = VarEntry { name: name.clone(), kind: *kind, loc: *loc };
                        let ghost s = self.local_table@;
                        self.local_table.push(entry);
                        proof {
                            assert forall|n: Seq<char>| true implies #[trigger] var_lookup(
                                s.push(VarEntry { name: *name, kind: *kind, loc: *loc }),
                                n,
                            ) == (if var_lookup(s, n) is Some {
                                var_lookup(s, n)
                            } else if name@ == n {
                                Some(VarEntry { name: *name, kind: *kind, loc: *loc })
                            } else {
                                None::<VarEntry>
                            }) by {
                                lemma_var_lookup_push(
                                    s,
                                    VarEntry { name: *name, kind: *kind, loc: *loc },
                                    n,
                                );
                            }
                            assert(self.blocked() =~= old(self).blocked().insert(
                                name@,
                                Ridefinition::Variable(*loc),
                            ));
                        }
                        Ok(())
                    },
                }
            },
        }
    }
}

} // verus!
