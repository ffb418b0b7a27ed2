//! The code manager: the decoded functions a VM runs, and the table that
//! names them.
use vstd::prelude::*;

use std::collections::HashMap;

use rustc_hash::FxBuildHasher;

use crate::vm::function::Function;
use crate::vm::pre_decoder::PreDecoder;

verus! {

#[verifier::external_type_specification]
#[verifier::external_body]
pub struct ExFxBuildHasher(FxBuildHasher);

/// A function known by its path but not decoded yet.
pub struct UnDecodedFunction {
    pub is_decoded: bool,
    /// Its index in the function table; `usize::MAX` while it has none.
    pub table_index: usize,
    /// The index of the function that stands in for it meanwhile.
    pub replacement_function: usize,
    /// The path of its bytecode.
    pub source_path: String,
}

/// The functions that were handed over (kept for good), the latest
/// function table, the functions known by path, the decoder, and the
/// directory of the program.
pub struct CodeManager {
    pub latest_function_table: Vec<Function>,
    pub owned_functions: Vec<Function>,
    pub functions: HashMap<String, UnDecodedFunction, FxBuildHasher>,
    pub decoder: PreDecoder,
    pub root_dir: String,
}

/// The views of a list of functions.
pub open spec fn view_functions(fs: Seq<Function>) -> Seq<Seq<crate::vm::instruction::Instruction>> {
    fs.map_values(|f: Function| f.instructions@)
}

impl CodeManager {
    /// A code manager for the program under `root_dir`, with no functions.
    pub fn new(root_dir: String) -> (r: Self)
        ensures
            r.latest_function_table@.len() == 0,
            r.owned_functions@.len() == 0,
            r.functions@ == Map::<String, UnDecodedFunction>::empty(),
            r.root_dir@ == root_dir@,
    {
        CodeManager {
            latest_function_table: Vec::new(),
            owned_functions: Vec::new(),
            functions: HashMap::default(),
            decoder: PreDecoder::new(),
            root_dir,
        }
    }

    /// Keeps `functions`, then appends a copy of every kept function (those
    /// of earlier calls too) to the function table.
    pub fn set_functions(&mut self, functions: Vec<Function>)
        ensures
            view_functions(final(self).owned_functions@) == view_functions(old(self).owned_functions@)
                + view_functions(functions@),
            view_functions(final(self).latest_function_table@) == view_functions(
                old(self).latest_function_table@,
            ) + view_functions(final(self).owned_functions@),
            final(self).functions@ == old(self).functions@,
            final(self).root_dir@ == old(self).root_dir@,
    {
        let mut functions = functions;
        let ghost given = view_functions(functions@);
        let mut i: usize = 0;
        let n = functions.len();
        let ghost owned0 = view_functions(self.owned_functions@);
        while i < n
            invariant
                i <= n == functions@.len(),
                given == view_functions(functions@),
                view_functions(self.owned_functions@) == owned0 + given.subrange(0, i as int),
                self.latest_function_table@ == old(self).latest_function_table@,
                self.functions@ == old(self).functions@,
                self.root_dir@ == old(self).root_dir@,
            decreases n - i,
        {
            let f = functions[i].duplicate();
            let ghost before = self.owned_functions@;
            let ghost fi = f.instructions@;
            self.owned_functions.push(f);
            proof {
                assert(view_functions(before.push(f)) =~= view_functions(before).push(fi));
                assert(given.subrange(0, i + 1) =~= given.subrange(0, i as int).push(given[i as int]));
                assert(given[i as int] == functions@[i as int].instructions@);
                assert(view_functions(self.owned_functions@) =~= owned0 + given.subrange(0, i + 1));
            }
            i = i + 1;
        }
        proof {
            assert(given.subrange(0, n as int) =~= given);
        }
        let ghost table0 = view_functions(self.latest_function_table@);
        let ghost owned = view_functions(self.owned_functions@);
        let m = self.owned_functions.len();
        let mut k: usize = 0;
        while k < m
            invariant
                k <= m == self.owned_functions@.len(),
                owned == view_functions(self.owned_functions@),
                view_functions(self.latest_function_table@) == table0 + owned.subrange(0, k as int),
                self.functions@ == old(self).functions@,
                self.root_dir@ == old(self).root_dir@,
            decreases m - k,
        {
            let f = self.owned_functions[k].duplicate();
            let ghost before = self.latest_function_table@;
            let ghost fi = f.instructions@;
            self.latest_function_table.push(f);
            proof {
                assert(view_functions(before.push(f)) =~= view_functions(before).push(fi));
                assert(owned.subrange(0, k + 1) =~= owned.subrange(0, k as int).push(owned[k as int]));
                assert(owned[k as int] == self.owned_functions@[k as int].instructions@);
                assert(view_functions(self.latest_function_table@) =~= table0 + owned.subrange(0, k + 1));
            }
            k = k + 1;
        }
        proof {
            assert(owned.subrange(0, m as int) =~= owned);
        }
    }

    /// A copy of the latest function table.
    pub fn get_decoded(&self) -> (r: Vec<Function>)
        ensures
            view_functions(r@) == view_functions(self.latest_function_table@),
    {
        let mut r: Vec<Function> = Vec::new();
        let mut k: usize = 0;
        while k < self.latest_function_table.len()
            invariant
                k <= self.latest_function_table@.len(),
                view_functions(r@) == view_functions(self.latest_function_table@).subrange(0, k as int),
            decreases self.latest_function_table@.len() - k,
        {
            let f = self.latest_function_table[k].duplicate();
            let ghost before = r@;
            let ghost fi = f.instructions@;
            r.push(f);
            proof {
                let t = view_functions(self.latest_function_table@);
                assert(view_functions(before.push(f)) =~= view_functions(before).push(fi));
                assert(t.subrange(0, k + 1) =~= t.subrange(0, k as int).push(t[k as int]));
                assert(t[k as int] == self.latest_function_table@[k as int].instructions@);
                assert(view_functions(r@) =~= t.subrange(0, k + 1));
            }
            k = k + 1;
        }
        proof {
            assert(view_functions(self.latest_function_table@).subrange(0, k as int) =~= view_functions(
                self.latest_function_table@,
            ));
        }
        r
    }
}

} // verus!
