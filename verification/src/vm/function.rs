//! A decoded function: its instruction words.
use vstd::prelude::*;

use crate::vm::instruction::Instruction;

verus! {

/// A decoded function.
#[derive(Clone, Debug)]
pub struct Function {
    pub instructions: Vec<Instruction>,
}

impl Function {
    pub fn new(instructions: Vec<Instruction>) -> (r: Self)
        ensures
            r.instructions@ == instructions@,
    {
        Function { instructions }
    }

    /// A copy of the function.
    pub fn duplicate(&self) -> (r: Function)
        ensures
            r.instructions@ == self.instructions@,
    {
        let mut v: Vec<Instruction> = Vec::new();
        let mut i: usize = 0;
        while i < self.instructions.len()
            invariant
                i <= self.instructions@.len(),
                v@ == self.instructions@.subrange(0, i as int),
            decreases self.instructions@.len() - i,
        {
            v.push(self.instructions[i]);
            proof {
                assert(v@ =~= self.instructions@.subrange(0, i + 1));
            }
            i = i + 1;
        }
        proof {
            assert(v@ =~= self.instructions@);
        }
        Function { instructions: v }
    }

    /// Number of instruction words.
    pub fn len(&self) -> (r: usize)
        ensures
            r == self.instructions@.len(),
    {
        self.instructions.len()
    }

    /// The word at `index`.
    pub fn get(&self, index: usize) -> (r: &Instruction)
        requires
            index < self.instructions@.len(),
        ensures
            *r == self.instructions@[index as int],
    {
        &self.instructions[index]
    }
}

} // verus!
