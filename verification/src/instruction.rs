//! Instructions: a typed view over a word's bit layout.
//!
//! The canonical packing, from most to least significant, is sign flag,
//! address (twelve bits, bytes 1 and 2), index (six bits, byte 3), modifier
//! (six bits, byte 4) and operation code (six bits, byte 5). Every magnitude
//! bit belongs to exactly one field, so encoding and decoding lose nothing.

use vstd::prelude::*;
use crate::word::Word;
use crate::word::lemma_word_mag_bound;
use crate::word::lemma_word_spec_new_view;
use crate::field::lemma_pow64_values;
use crate::field::lemma_spec_field_parts;

verus! {

/// An operation code. Codes outside the implemented set are carried as
/// `Unimplemented` so that the execution engine can refuse them explicitly
/// instead of skipping them.
#[derive(Clone, Copy, Debug, PartialEq, Eq, Structural)]
pub enum Command {
    /// Code 0: does nothing.
    Noop,
    /// Code 8: loads a field of a memory cell into the accumulator.
    Lda,
    /// Any other six-bit code.
    Unimplemented(u32),
}

impl Command {
    /// The numeric operation code.
    pub open spec fn spec_code(self) -> u32 {
        match self {
            Command::Noop => 0,
            Command::Lda => 8,
            Command::Unimplemented(code) => code,
        }
    }

    /// The command a six-bit code denotes.
    pub open spec fn spec_from_code(code: u32) -> Command {
        if code == 0 {
            Command::Noop
        } else if code == 8 {
            Command::Lda
        } else {
            Command::Unimplemented(code)
        }
    }

    /// An `Unimplemented` command carries a six-bit code that no named
    /// command owns.
    pub open spec fn wf(self) -> bool {
        match self {
            Command::Noop => true,
            Command::Lda => true,
            Command::Unimplemented(code) => code < 64 && code != 0 && code != 8,
        }
    }

    /// Decodes a six-bit operation code.
    pub fn from_code(code: u32) -> (command: Command)
        requires
            code < 64,
        ensures
            command == Command::spec_from_code(code),
            command.wf(),
    {
        if code == 0 {
            Command::Noop
        } else if code == 8 {
            Command::Lda
        } else {
            Command::Unimplemented(code)
        }
    }

    /// The numeric operation code.
    pub fn code(&self) -> (code: u32)
        ensures
            code == self.spec_code(),
    {
        match self {
            Command::Noop => 0,
            Command::Lda => 8,
            Command::Unimplemented(code) => *code,
        }
    }
}

/// A decoded instruction: the five logical fields of a word.
#[derive(Clone, Copy, Debug, PartialEq, Eq, Structural)]
pub struct Instruction {
    /// The sign flag of the encoding word.
    pub sign: bool,
    /// The operand address, twelve bits.
    pub address: u32,
    /// The index-register selector, six bits.
    pub index: u32,
    /// The field specification the operation applies, six bits.
    pub modifier: u32,
    /// The operation code.
    pub command: Command,
}

proof fn lemma_mask_is_mod(x: u32)
    by (bit_vector)
    ensures
        x & 0xFFF == x % 4096,
        x & 63 == x % 64,
        x < 0x4000_0000 ==> x & 0x3FFF_FFFF == x,
{
}

proof fn lemma_pack_bits(a: u32, x: u32, m: u32, c: u32)
    by (bit_vector)
    ensures
        (c & 63) | ((m & 63) << 6u32) | ((x & 63) << 12u32) | ((a & 0xFFF) << 18u32) == (a % 4096)
            * 0x40000 + (x % 64) * 0x1000 + (m % 64) * 64 + (c % 64),
        (a % 4096) * 0x40000 + (x % 64) * 0x1000 + (m % 64) * 64 + (c % 64) < 0x4000_0000,
{
}

proof fn lemma_unpack_fields(a: u32, x: u32, m: u32, c: u32)
    by (bit_vector)
    requires
        a < 4096,
        x < 64,
        m < 64,
        c < 64,
    ensures
        (a * 0x40000 + x * 0x1000 + m * 64 + c) / 0x40000 % 4096 == a,
        (a * 0x40000 + x * 0x1000 + m * 64 + c) / 0x1000 % 64 == x,
        (a * 0x40000 + x * 0x1000 + m * 64 + c) / 64 % 64 == m,
        (a * 0x40000 + x * 0x1000 + m * 64 + c) % 64 == c,
        a * 0x40000 + x * 0x1000 + m * 64 + c < 0x4000_0000,
{
}

proof fn lemma_repack(mag: u32)
    by (bit_vector)
    requires
        mag < 0x4000_0000,
    ensures
        (mag / 0x40000 % 4096) * 0x40000 + (mag / 0x1000 % 64) * 0x1000 + (mag / 64 % 64) * 64
            + mag % 64 == mag,
{
}

impl Instruction {
    /// Every field fits its declared width.
    pub open spec fn wf(self) -> bool {
        self.address < 4096 && self.index < 64 && self.modifier < 64 && self.command.wf()
    }

    /// The thirty-bit magnitude that encodes this instruction's numeric
    /// fields, each reduced to its width before placement.
    pub open spec fn spec_pack(self) -> u32 {
        ((self.address % 4096) * 0x40000 + (self.index % 64) * 0x1000 + (self.modifier % 64) * 64
            + (self.command.spec_code() % 64)) as u32
    }

    /// The instruction whose fields a magnitude and a sign flag encode.
    pub open spec fn spec_unpack(mag: u32, sign: bool) -> Instruction {
        Instruction {
            sign,
            address: mag / 0x40000 % 4096,
            index: mag / 0x1000 % 64,
            modifier: mag / 64 % 64,
            command: Command::spec_from_code(mag % 64),
        }
    }

    /// The word this instruction encodes to.
    pub open spec fn spec_encode(self) -> Word {
        Word::spec_new(self.spec_pack(), self.sign)
    }

    /// The instruction a word decodes to.
    pub open spec fn spec_decode(word: Word) -> Instruction {
        Instruction::spec_unpack(word.mag(), word.sign())
    }

    /// Creates an instruction. Numeric fields wider than their declared
    /// width are truncated to it, never corrupting a neighbouring field.
    pub fn new(
        sign: bool,
        address: u32,
        index: u32,
        modifier: u32,
        command: Command,
    ) -> (instruction: Instruction)
        requires
            command.wf(),
        ensures
            instruction.sign == sign,
            instruction.address == address % 4096,
            instruction.index == index % 64,
            instruction.modifier == modifier % 64,
            instruction.command == command,
            instruction.wf(),
    {
        proof {
            lemma_mask_is_mod(address);
            lemma_mask_is_mod(index);
            lemma_mask_is_mod(modifier);
        }
        Instruction {
            sign,
            address: address & 0xFFF,
            index: index & 63,
            modifier: modifier & 63,
            command,
        }
    }

    /// Packs the five fields into a word, the sign flag preserved.
    pub fn encode(&self) -> (word: Word)
        ensures
            word == self.spec_encode(),
            word.mag() == self.spec_pack(),
            word.sign() == self.sign,
    {
        let value = (self.command.code() & 63) | ((self.modifier & 63) << 6u32) | ((self.index
            & 63) << 12u32) | ((self.address & 0xFFF) << 18u32);
        proof {
            lemma_pack_bits(self.address, self.index, self.modifier, self.command.spec_code());
            lemma_mask_is_mod(self.spec_pack());
            lemma_word_spec_new_view(value, self.sign);
        }
        Word::new(value, Some(self.sign))
    }

    /// Unpacks a word into its five fields by field extraction: the sign
    /// from position 0 and the numeric fields from bytes 1 and 2 (address),
    /// 3 (index), 4 (modifier) and 5 (operation code).
    pub fn decode(word: Word) -> (instruction: Instruction)
        ensures
            instruction == Instruction::spec_decode(word),
            instruction.wf(),
    {
        let sign = word.read_with_modifier(0) != 0;
        let address = word.read_with_modifier(12);
        let index = word.read_with_modifier(33);
        let modifier = word.read_with_modifier(44);
        let code = word.read_with_modifier(55);
        proof {
            lemma_pow64_values();
            let mag = word.mag() as nat;
            assert(word.field_value(0, -1) == 0);
            assert(word.field_value(0, 0) == word.byte_at(0));
            lemma_spec_field_parts(word.sign(), mag, 5, 1, 2);
            lemma_spec_field_parts(word.sign(), mag, 5, 3, 3);
            lemma_spec_field_parts(word.sign(), mag, 5, 4, 4);
            lemma_spec_field_parts(word.sign(), mag, 5, 5, 5);
            vstd::arithmetic::div_mod::lemma_div_basics(word.mag() as int);
        }
        let command = Command::from_code(code);
        Instruction { sign, address, index, modifier, command }
    }
}

/// Round trip, one direction: decoding an encoded instruction yields the
/// instruction back, for every instruction whose fields fit their widths.
pub proof fn lemma_decode_encode(instruction: Instruction)
    requires
        instruction.wf(),
    ensures
        Instruction::spec_decode(instruction.spec_encode()) == instruction,
{
    lemma_word_spec_new_view(instruction.spec_pack(), instruction.sign);
    lemma_unpack_fields(
        instruction.address,
        instruction.index,
        instruction.modifier,
        instruction.command.spec_code(),
    );
    lemma_mask_is_mod(instruction.spec_pack());
}

/// Round trip, other direction: encoding a decoded word reproduces the
/// word's sign flag and magnitude, for every word.
pub proof fn lemma_encode_decode(word: Word)
    ensures
        Instruction::spec_decode(word).wf(),
        Instruction::spec_encode(Instruction::spec_decode(word)).mag() == word.mag(),
        Instruction::spec_encode(Instruction::spec_decode(word)).sign() == word.sign(),
{
    lemma_word_mag_bound(word);
    lemma_repack(word.mag());
    lemma_word_spec_new_view(Instruction::spec_decode(word).spec_pack(), word.sign());
    lemma_mask_is_mod(Instruction::spec_decode(word).spec_pack());
}

} // verus!
