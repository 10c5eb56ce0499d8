//! The machine: memory, registers, flags, and the fetch-decode-execute pass.

use vstd::prelude::*;
use crate::field::is_valid_field_spec;
use crate::field::spec_left;
use crate::field::spec_right;
use crate::field::valid_field_spec;
use crate::instruction::Command;
use crate::instruction::Instruction;
use crate::program::Program;
use crate::register::Register;
use crate::word::WORD_BYTES;
use crate::word::Word;

verus! {

/// Number of words of memory.
pub const MEMORY_SIZE: usize = 4000;

/// The comparison flag: set by compare-class instructions and read by
/// jump-class ones.
#[derive(Clone, Copy, Debug, PartialEq, Eq, Structural)]
pub enum Compare {
    /// No comparison has been made.
    Unset,
    /// The last comparison came out lower.
    Less,
    /// The last comparison came out equal.
    Equal,
    /// The last comparison came out higher.
    Greater,
}

/// Why a load or an execution halted. A halt reports the offending address
/// and leaves all state as it stood when the halt was detected.
#[derive(Clone, Copy, Debug, PartialEq, Eq, Structural)]
pub enum MachineError {
    /// The program is longer than memory; nothing was written.
    CapacityExceeded {
        /// The refused program's length.
        length: usize,
    },
    /// The instruction at `address` carries an operation code outside the
    /// implemented set.
    UnsupportedOperation {
        /// Where the instruction stood.
        address: usize,
        /// The unrecognised operation code.
        code: u32,
    },
    /// The instruction at `address` carries a modifier that is not a valid
    /// field specification for a word.
    InvalidFieldSpec {
        /// Where the instruction stood.
        address: usize,
        /// The invalid modifier.
        modifier: u32,
    },
    /// The instruction at `address` names an operand address beyond memory.
    AddressOutOfRange {
        /// Where the instruction stood.
        address: usize,
        /// The out-of-range operand address.
        target: u32,
    },
}

/// What stops the instruction at `position`, if anything: an operation code
/// outside the implemented set, an invalid field specification, or an
/// operand address beyond memory.
pub open spec fn step_error(mem: Seq<Word>, position: int) -> Option<MachineError> {
    let instruction = Instruction::spec_decode(mem[position]);
    match instruction.command {
        Command::Noop => None,
        Command::Lda => if !valid_field_spec(instruction.modifier, WORD_BYTES) {
            Some(
                MachineError::InvalidFieldSpec {
                    address: position as usize,
                    modifier: instruction.modifier,
                },
            )
        } else if instruction.address as int >= MEMORY_SIZE as int {
            Some(
                MachineError::AddressOutOfRange {
                    address: position as usize,
                    target: instruction.address,
                },
            )
        } else {
            None
        },
        Command::Unimplemented(code) => Some(
            MachineError::UnsupportedOperation { address: position as usize, code },
        ),
    }
}

/// The accumulator after the instruction at `position` runs: `Lda` loads
/// the selected field of its operand cell as a thirty-one bit pattern, and
/// everything else leaves the accumulator alone.
pub open spec fn step_accumulator(mem: Seq<Word>, a: Word, position: int) -> Word {
    let instruction = Instruction::spec_decode(mem[position]);
    if instruction.command == Command::Lda && step_error(mem, position) is None {
        let operand = mem[instruction.address as int];
        Word::spec_from_value(
            operand.field_value(
                spec_left(instruction.modifier) as int,
                spec_right(instruction.modifier) as int,
            ) as u32,
        )
    } else {
        a
    }
}

/// The accumulator after the first `count` instructions run.
pub open spec fn accumulator_after(mem: Seq<Word>, a: Word, count: int) -> Word
    decreases count,
{
    if count <= 0 {
        a
    } else {
        step_accumulator(mem, accumulator_after(mem, a, count - 1), count - 1)
    }
}

/// The first position at or after `position` whose instruction halts the
/// machine, or `MEMORY_SIZE` if none does.
pub open spec fn first_halt_from(mem: Seq<Word>, position: int) -> int
    decreases MEMORY_SIZE as int - position,
{
    if position < 0 || position >= MEMORY_SIZE as int {
        MEMORY_SIZE as int
    } else if step_error(mem, position) is Some {
        position
    } else {
        first_halt_from(mem, position + 1)
    }
}

/// The first position whose instruction halts the machine, or
/// `MEMORY_SIZE` if none does.
pub open spec fn first_halt(mem: Seq<Word>) -> int {
    first_halt_from(mem, 0)
}

proof fn lemma_first_halt_prefix(mem: Seq<Word>, position: int)
    requires
        0 <= position <= MEMORY_SIZE as int,
        forall|k: int| 0 <= k < position ==> step_error(mem, k) is None,
    ensures
        first_halt(mem) == first_halt_from(mem, position),
    decreases position,
{
    if position > 0 {
        lemma_first_halt_prefix(mem, position - 1);
        assert(step_error(mem, position - 1) is None);
        assert(first_halt_from(mem, position - 1) == first_halt_from(mem, position));
    }
}

/// A `Noop` instruction leaves the accumulator unchanged; `execute`'s
/// contract already states that no instruction touches any other register
/// or flag.
pub proof fn lemma_step_noop(mem: Seq<Word>, a: Word, position: int)
    requires
        Instruction::spec_decode(mem[position]).command == Command::Noop,
    ensures
        step_accumulator(mem, a, position) == a,
{
}

/// An `Lda` whose modifier selects the full field (modifier 5) copies its
/// operand cell into the accumulator exactly, sign flag and magnitude both.
pub proof fn lemma_step_lda_full(mem: Seq<Word>, a: Word, position: int)
    requires
        Instruction::spec_decode(mem[position]).command == Command::Lda,
        Instruction::spec_decode(mem[position]).modifier == 5,
        (Instruction::spec_decode(mem[position]).address as int) < MEMORY_SIZE as int,
    ensures
        step_accumulator(mem, a, position).mag() == mem[Instruction::spec_decode(
            mem[position],
        ).address as int].mag(),
        step_accumulator(mem, a, position).sign() == mem[Instruction::spec_decode(
            mem[position],
        ).address as int].sign(),
{
    let operand = mem[Instruction::spec_decode(mem[position]).address as int];
    crate::word::lemma_word_full_field(operand);
}

/// The machine state: flags, memory, the accumulator and extension
/// registers, and six index registers.
pub struct Computer {
    /// Set by arithmetic whose result exceeds a word.
    pub overflow: bool,
    /// The comparison flag.
    pub comparison: Compare,
    /// The memory: `MEMORY_SIZE` words.
    pub memory: Vec<Word>,
    /// The accumulator.
    pub a: Word,
    /// The extension register.
    pub x: Word,
    /// Index register 1.
    pub i1: Register,
    /// Index register 2.
    pub i2: Register,
    /// Index register 3.
    pub i3: Register,
    /// Index register 4.
    pub i4: Register,
    /// Index register 5.
    pub i5: Register,
    /// Index register 6.
    pub i6: Register,
}

impl Computer {
    /// Memory always holds exactly `MEMORY_SIZE` words.
    pub open spec fn wf(self) -> bool {
        self.memory@.len() == MEMORY_SIZE
    }

    /// A machine with all-zero state: every cell, register and flag clear.
    pub fn new() -> (computer: Computer)
        ensures
            computer.wf(),
            !computer.overflow,
            computer.comparison == Compare::Unset,
            forall|k: int|
                0 <= k < MEMORY_SIZE ==> (#[trigger] computer.memory@[k]).mag() == 0
                    && !computer.memory@[k].sign(),
            computer.a.mag() == 0 && !computer.a.sign(),
            computer.x.mag() == 0 && !computer.x.sign(),
            computer.i1.mag() == 0 && !computer.i1.sign(),
            computer.i2.mag() == 0 && !computer.i2.sign(),
            computer.i3.mag() == 0 && !computer.i3.sign(),
            computer.i4.mag() == 0 && !computer.i4.sign(),
            computer.i5.mag() == 0 && !computer.i5.sign(),
            computer.i6.mag() == 0 && !computer.i6.sign(),
    {
        let mut memory: Vec<Word> = Vec::new();
        while memory.len() < MEMORY_SIZE
            invariant
                memory@.len() <= MEMORY_SIZE,
                forall|k: int|
                    0 <= k < memory@.len() ==> (#[trigger] memory@[k]).mag() == 0
                        && !memory@[k].sign(),
            decreases MEMORY_SIZE - memory@.len(),
        {
            memory.push(Word::default());
        }
        Computer {
            overflow: false,
            comparison: Compare::Unset,
            memory,
            a: Word::default(),
            x: Word::default(),
            i1: Register::default(),
            i2: Register::default(),
            i3: Register::default(),
            i4: Register::default(),
            i5: Register::default(),
            i6: Register::default(),
        }
    }

    /// Stores a program into memory: the instruction at position `k` is
    /// encoded to a word (sign flag preserved) and written to address `k`.
    /// A program longer than memory is refused before anything is written;
    /// cells past the program keep their previous contents.
    pub fn load(&mut self, program: Program) -> (result: Result<(), MachineError>)
        requires
            old(self).wf(),
        ensures
            final(self).wf(),
            final(self).overflow == old(self).overflow,
            final(self).comparison == old(self).comparison,
            final(self).a == old(self).a,
            final(self).x == old(self).x,
            final(self).i1 == old(self).i1,
            final(self).i2 == old(self).i2,
            final(self).i3 == old(self).i3,
            final(self).i4 == old(self).i4,
            final(self).i5 == old(self).i5,
            final(self).i6 == old(self).i6,
            program.instructions@.len() > MEMORY_SIZE ==> result == Err::<(), MachineError>(
                MachineError::CapacityExceeded { length: program.instructions@.len() as usize },
            ) && final(self).memory@ == old(self).memory@,
            program.instructions@.len() <= MEMORY_SIZE ==> result == Ok::<(), MachineError>(()) && (
            forall|k: int|
                0 <= k < program.instructions@.len() ==> final(self).memory@[k] == (
                #[trigger] program.instructions@[k]).spec_encode()) && (forall|k: int|
                program.instructions@.len() <= k < MEMORY_SIZE ==> final(self).memory@[k] == old(
                    self,
                ).memory@[k]),
    {
        if program.instructions.len() > MEMORY_SIZE {
            return Err(MachineError::CapacityExceeded { length: program.instructions.len() });
        }
        let mut position: usize = 0;
        while position < program.instructions.len()
            invariant
                self.wf(),
                program.instructions@.len() <= MEMORY_SIZE,
                0 <= position <= program.instructions@.len(),
                self.overflow == old(self).overflow,
                self.comparison == old(self).comparison,
                self.a == old(self).a,
                self.x == old(self).x,
                self.i1 == old(self).i1,
                self.i2 == old(self).i2,
                self.i3 == old(self).i3,
                self.i4 == old(self).i4,
                self.i5 == old(self).i5,
                self.i6 == old(self).i6,
                forall|k: int|
                    0 <= k < position ==> self.memory@[k] == (
                    #[trigger] program.instructions@[k]).spec_encode(),
                forall|k: int|
                    position <= k < MEMORY_SIZE ==> self.memory@[k] == old(self).memory@[k],
            decreases program.instructions@.len() - position,
        {
            let instruction = program.instructions[position];
            let word = instruction.encode();
            self.memory[position] = word;
            position = position + 1;
        }
        Ok(())
    }

    /// Runs one forward pass over all of memory: each cell is decoded and
    /// dispatched. `Noop` does nothing; `Lda` loads the field of its
    /// operand cell that its modifier selects into the accumulator; the
    /// first cell that asks anything else halts the pass with an error,
    /// leaving state as it stood. Only the accumulator is ever written.
    pub fn execute(&mut self) -> (result: Result<(), MachineError>)
        requires
            old(self).wf(),
        ensures
            final(self).wf(),
            final(self).memory@ == old(self).memory@,
            final(self).overflow == old(self).overflow,
            final(self).comparison == old(self).comparison,
            final(self).x == old(self).x,
            final(self).i1 == old(self).i1,
            final(self).i2 == old(self).i2,
            final(self).i3 == old(self).i3,
            final(self).i4 == old(self).i4,
            final(self).i5 == old(self).i5,
            final(self).i6 == old(self).i6,
            final(self).a == accumulator_after(
                old(self).memory@,
                old(self).a,
                first_halt(old(self).memory@),
            ),
            match result {
                Ok(_) => first_halt(old(self).memory@) == MEMORY_SIZE as int,
                Err(e) => first_halt(old(self).memory@) < MEMORY_SIZE as int && step_error(
                    old(self).memory@,
                    first_halt(old(self).memory@),
                ) == Some(e),
            },
    {
        let mut position: usize = 0;
        while position < MEMORY_SIZE
            invariant
                self.wf(),
                self.memory@ == old(self).memory@,
                self.overflow == old(self).overflow,
                self.comparison == old(self).comparison,
                self.x == old(self).x,
                self.i1 == old(self).i1,
                self.i2 == old(self).i2,
                self.i3 == old(self).i3,
                self.i4 == old(self).i4,
                self.i5 == old(self).i5,
                self.i6 == old(self).i6,
                0 <= position <= MEMORY_SIZE,
                forall|k: int| 0 <= k < position ==> step_error(old(self).memory@, k) is None,
                self.a == accumulator_after(old(self).memory@, old(self).a, position as int),
            decreases MEMORY_SIZE - position,
        {
            let cell = self.memory[position];
            let instruction = Instruction::decode(cell);
            match instruction.command {
                Command::Noop => {
                    proof {
                        assert(step_error(old(self).memory@, position as int) is None);
                        assert(accumulator_after(old(self).memory@, old(self).a, position as int + 1)
                            == self.a);
                    }
                },
                Command::Lda => {
                    let modifier = instruction.modifier;
                    if !is_valid_field_spec(modifier, WORD_BYTES) {
                        proof {
                            lemma_first_halt_prefix(old(self).memory@, position as int);
                        }
                        return Err(MachineError::InvalidFieldSpec { address: position, modifier });
                    }
                    if instruction.address as usize >= MEMORY_SIZE {
                        proof {
                            lemma_first_halt_prefix(old(self).memory@, position as int);
                        }
                        return Err(
                            MachineError::AddressOutOfRange {
                                address: position,
                                target: instruction.address,
                            },
                        );
                    }
                    let operand = self.memory[instruction.address as usize];
                    let value = operand.read_with_modifier(modifier);
                    self.a = Word::from_value(value);
                    proof {
                        assert(step_error(old(self).memory@, position as int) is None);
                        assert(accumulator_after(old(self).memory@, old(self).a, position as int + 1)
                            == self.a);
                    }
                },
                Command::Unimplemented(code) => {
                    proof {
                        lemma_first_halt_prefix(old(self).memory@, position as int);
                    }
                    return Err(MachineError::UnsupportedOperation { address: position, code });
                },
            }
            position = position + 1;
        }
        proof {
            lemma_first_halt_prefix(old(self).memory@, MEMORY_SIZE as int);
        }
        Ok(())
    }
}

} // verus!
