//! The function index: each function name maps to a sequential 16-bit
//! id in declaration order. Calls reference functions by this id.

use vstd::prelude::*;
use crate::syntax_tree::FuncDeclList;
use super::simple_counter::AddrSize;

verus! {

/// The position of the first entry with the given name.
pub open spec fn fn_index_of(s: Seq<String>, name: Seq<char>) -> Option<int>
    decreases s.len(),
{
    if s.len() == 0 {
        None
    } else if s[0]@ == name {
        Some(0int)
    } else {
        match fn_index_of(s.drop_first(), name) {
            Some(i) => Some(i + 1),
            None => None,
        }
    }
}

/// A name found at `i`, with no earlier match, indexes at `i`.
pub proof fn lemma_fn_index_first(s: Seq<String>, name: Seq<char>, i: int)
    requires
        0 <= i < s.len(),
        s[i]@ == name,
        forall|j: int| 0 <= j < i ==> s[j]@ != name,
    ensures
        fn_index_of(s, name) == Some(i),
    decreases i,
{
    if i > 0 {
        assert(s.drop_first()[i - 1]@ == name);
        lemma_fn_index_first(s.drop_first(), name, i - 1);
    }
}

/// A name matched nowhere has no index.
pub proof fn lemma_fn_index_none(s: Seq<String>, name: Seq<char>)
    requires
        forall|j: int| 0 <= j < s.len() ==> s[j]@ != name,
    ensures
        fn_index_of(s, name) is None,
    decreases s.len(),
{
    if s.len() > 0 {
        lemma_fn_index_none(s.drop_first(), name);
    }
}

/// The functions in declaration order; a function's id is its position.
pub struct FunctionIndex {
    pub index: Vec<String>,
}

impl FunctionIndex {
    fn new() -> (r: Self)
        ensures
            r.index@ =~= Seq::<String>::empty(),
    {
        Self { index: Vec::new() }
    }

    fn add_function(&mut self, name: &String)
        requires
            old(self).index@.len() < 0x10000,
        ensures
            final (self).index@ == old(self).index@.push(*name),
    {
        self.index.push(name.clone());
    }

    /// The id of a known function.
    pub fn get_function_index(&self, name: &String) -> (r: AddrSize)
        requires
            fn_index_of(self.index@, name@) is Some,
            self.index@.len() <= 0x10000,
        ensures
            r as int == fn_index_of(self.index@, name@)->Some_0,
    {
        let n = self.index.len();
        for i in 0..n
            invariant
                n == self.index@.len(),
                n <= 0x10000,
                fn_index_of(self.index@, name@) is Some,
                forall|j: int| 0 <= j < i ==> self.index@[j]@ != name@,
        {
            if self.index[i].eq(name) {
                proof {
                    lemma_fn_index_first(self.index@, name@, i as int);
                }
                return i as AddrSize;
            }
        }
        proof {
            lemma_fn_index_none(self.index@, name@);
        }
        0
    }
}

/// Index every declared function, in order.
pub fn build_function_index(func_decl_list: &FuncDeclList) -> (r: FunctionIndex)
    requires
        func_decl_list@.len() <= 0x10000,
    ensures
        r.index@.len() == func_decl_list@.len(),
        forall|i: int| 0 <= i < func_decl_list@.len() ==> r.index@[i]
            == #[trigger] func_decl_list@[i].id,
{
    let mut function_index = FunctionIndex::new();
    let n = func_decl_list.len();
    for i in 0..n
        invariant
            n == func_decl_list@.len(),
            n <= 0x10000,
            function_index.index@.len() == i,
            forall|j: int| 0 <= j < i ==> function_index.index@[j]
                == #[trigger] func_decl_list@[j].id,
    {
        function_index.add_function(&func_decl_list[i].id);
    }
    function_index
}

} // verus!
