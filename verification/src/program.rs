//! A program: the ordered, append-only sequence of instructions that the
//! loader hands to the machine.

use vstd::prelude::*;
use crate::instruction::Instruction;

verus! {

/// An ordered sequence of instructions.
pub struct Program {
    /// The instructions, in program order.
    pub instructions: Vec<Instruction>,
}

impl Program {
    /// An empty program.
    pub fn new() -> (program: Program)
        ensures
            program.instructions@ == Seq::<Instruction>::empty(),
    {
        Program { instructions: Vec::new() }
    }

    /// Appends an instruction.
    pub fn add(&mut self, instruction: Instruction)
        ensures
            final(self).instructions@ == old(self).instructions@.push(instruction),
    {
        self.instructions.push(instruction);
    }
}

} // verus!
