//! The index register: twelve magnitude bits (two six-bit bytes) and a sign
//! flag.

use vstd::prelude::*;
use crate::field::lemma_pow64_mono;
use crate::field::lemma_pow64_values;
use crate::field::lemma_spec_field_bound;
use crate::field::spec_byte;
use crate::field::spec_field;
use crate::field::spec_left;
use crate::field::spec_right;
use crate::field::split_modifier;
use crate::field::valid_field_spec;

verus! {

/// Number of six-bit bytes in a register.
pub const REGISTER_BYTES: u32 = 2;

/// Mask of the twelve magnitude bits.
pub const REGISTER_DATA_MASK: u16 = 0x0FFF;

/// Mask of the sign flag, kept just above the magnitude.
pub const REGISTER_SIGN_MASK: u16 = 0x1000;

/// Mask of magnitude and sign flag together.
pub const REGISTER_VALUE_MASK: u16 = 0x1FFF;

/// A register value. The sign flag is stored above the magnitude; a set
/// flag renders as `+`, a clear one as `-`.
#[derive(Clone, Copy, Debug, PartialEq, Eq, Structural)]
pub struct Register {
    data: u16,
}

proof fn lemma_register_store(n: u16)
    by (bit_vector)
    ensures
        0u16 & 0x0FFFu16 == 0,
        (n & 0x0FFFu16) | 0u16 == n & 0x0FFF,
        (n & 0x0FFFu16) & 0x1000 == 0,
        (n & 0x0FFFu16) & 0x0FFF == n & 0x0FFF,
        (n & 0x0FFFu16) & 0xE000 == 0,
        ((n & 0x0FFFu16) | 0x1000) & 0x1000 != 0,
        ((n & 0x0FFFu16) | 0x1000) & 0x0FFF == n & 0x0FFF,
        ((n & 0x0FFFu16) | 0x1000) & 0xE000 == 0,
        (n & 0x1FFFu16) & 0x0FFF == n & 0x0FFF,
        (n & 0x1FFFu16) & 0x1000 == n & 0x1000,
        (n & 0x1FFFu16) & 0xE000 == 0,
        n & 0x0FFF < 0x1000,
{
}

proof fn lemma_register_mutate(data: u16, n: u16)
    by (bit_vector)
    ensures
        ((n & 0x0FFFu16) | (data & 0x1000)) & 0x0FFF == n & 0x0FFF,
        ((n & 0x0FFFu16) | (data & 0x1000)) & 0x1000 == data & 0x1000,
        ((n & 0x0FFFu16) | (data & 0x1000)) & 0xE000 == 0,
        (data | 0x1000u16) & 0x0FFF == data & 0x0FFF,
        (data | 0x1000u16) & 0x1000 != 0,
        data & 0xE000 == 0 ==> (data | 0x1000u16) & 0xE000 == 0,
        (data & !0x1000u16) & 0x0FFF == data & 0x0FFF,
        (data & !0x1000u16) & 0x1000 == 0,
        data & 0xE000 == 0 ==> (data & !0x1000u16) & 0xE000 == 0,
        data & 0x1FFF == (data & 0x0FFF) + (if data & 0x1000 != 0 {
            0x1000u16
        } else {
            0u16
        }),
{
}

proof fn lemma_register_extract(data: u16)
    by (bit_vector)
    requires
        data & 0xE000 == 0,
    ensures
        (data >> 12u16) & 63 == (if data & 0x1000 != 0 {
            1u16
        } else {
            0u16
        }),
        (data >> 6u16) & 63 == ((data & 0x0FFF) / 64) % 64,
        (data >> 0u16) & 63 == (data & 0x0FFF) % 64,
{
}

proof fn lemma_register_accumulate(x: u16, b: u16)
    by (bit_vector)
    requires
        x < 128,
        b < 64,
    ensures
        (x << 6u16) | b == x * 64 + b,
        x * 64 + b < 0x2000,
{
}

impl Register {
    /// The host bits above the sign flag are never set.
    #[verifier::type_invariant]
    spec fn host_bits_clear(self) -> bool {
        self.data & 0xE000u16 == 0
    }

    /// True when the sign flag is set.
    pub closed spec fn sign(self) -> bool {
        self.data & REGISTER_SIGN_MASK != 0
    }

    /// The twelve-bit magnitude.
    pub closed spec fn mag(self) -> u16 {
        self.data & REGISTER_DATA_MASK
    }

    /// The six-bit byte at `index`, counted from the most significant side;
    /// position 0 is the sign flag, read as 0 or 1.
    pub open spec fn byte_at(self, index: int) -> nat {
        spec_byte(self.sign(), self.mag() as nat, REGISTER_BYTES as int, index)
    }

    /// The value of the field `left ..= right` of this register.
    pub open spec fn field_value(self, left: int, right: int) -> nat {
        spec_field(self.sign(), self.mag() as nat, REGISTER_BYTES as int, left, right)
    }

    /// Creates a register holding `number`'s low twelve bits; the sign flag
    /// is set only when `sign` is `Some(true)`.
    pub fn new(number: u16, sign: Option<bool>) -> (register: Register)
        ensures
            register.mag() == number & REGISTER_DATA_MASK,
            register.sign() == (sign == Some(true)),
    {
        let mut data = number & REGISTER_DATA_MASK;
        if let Some(s) = sign {
            if s {
                data = data | REGISTER_SIGN_MASK;
            }
        }
        proof {
            lemma_register_store(number);
        }
        Register { data }
    }

    /// Sign flag and magnitude as one bit pattern: the magnitude with the
    /// sign's weight added above it.
    pub fn read(&self) -> (value: u16)
        ensures
            value == self.mag() + (if self.sign() {
                REGISTER_SIGN_MASK as int
            } else {
                0
            }),
    {
        proof {
            lemma_register_mutate(self.data, 0);
        }
        self.data & REGISTER_VALUE_MASK
    }

    /// The magnitude alone.
    pub fn read_data(&self) -> (value: u16)
        ensures
            value == self.mag(),
    {
        self.data & REGISTER_DATA_MASK
    }

    /// The sign flag.
    pub fn read_sign(&self) -> (sign: bool)
        ensures
            sign == self.sign(),
    {
        (self.data & REGISTER_SIGN_MASK) != 0
    }

    /// Replaces magnitude (truncated to twelve bits) and sign flag together.
    pub fn write(&mut self, number: u16, sign: bool)
        ensures
            final(self).mag() == number & REGISTER_DATA_MASK,
            final(self).sign() == sign,
    {
        proof {
            lemma_register_store(number);
        }
        self.data = (number & REGISTER_DATA_MASK) | (if sign {
            REGISTER_SIGN_MASK
        } else {
            0
        });
    }

    /// Replaces the magnitude (truncated to twelve bits), preserving the
    /// sign flag.
    pub fn write_data(&mut self, number: u16)
        ensures
            final(self).mag() == number & REGISTER_DATA_MASK,
            final(self).sign() == old(self).sign(),
    {
        proof {
            use_type_invariant(&*self);
            lemma_register_mutate(self.data, number);
        }
        self.data = (number & REGISTER_DATA_MASK) | (self.data & REGISTER_SIGN_MASK);
    }

    /// Sets or clears the sign flag, leaving the magnitude unchanged.
    pub fn write_sign(&mut self, sign: bool)
        ensures
            final(self).sign() == sign,
            final(self).mag() == old(self).mag(),
    {
        proof {
            use_type_invariant(&*self);
            lemma_register_mutate(self.data, 0);
        }
        if sign {
            self.data = self.data | REGISTER_SIGN_MASK;
        } else {
            self.data = self.data & !REGISTER_SIGN_MASK;
        }
    }

    /// The six-bit byte at `index`; index 0 yields the sign flag as 0 or 1.
    pub fn get_byte(&self, index: usize) -> (byte: u8)
        requires
            index <= REGISTER_BYTES as usize,
        ensures
            byte as nat == self.byte_at(index as int),
            byte < 64,
    {
        let shifted = (self.data >> ((REGISTER_BYTES as u16 - index as u16) * 6)) & 63;
        proof {
            use_type_invariant(&*self);
            lemma_register_extract(self.data);
            lemma_pow64_values();
            if index == 0 {
                assert(shifted as nat == self.byte_at(0));
            } else if index == 1 {
                assert(shifted as nat == self.byte_at(1));
            } else {
                vstd::arithmetic::div_mod::lemma_div_basics(self.mag() as int);
                assert(shifted as nat == self.byte_at(2));
            }
        }
        shifted as u8
    }

    /// Reads the field that `modifier` selects: the big-endian concatenation
    /// of the chosen bytes, with the sign flag appearing as a leading 0 or 1
    /// when the field starts at position 0. Modifier 0 thus yields the sign
    /// flag alone.
    pub fn read_with_modifier(&self, modifier: u16) -> (value: u16)
        requires
            valid_field_spec(modifier as u32, REGISTER_BYTES),
        ensures
            value as nat == self.field_value(
                spec_left(modifier as u32) as int,
                spec_right(modifier as u32) as int,
            ),
    {
        let (left, right) = split_modifier(modifier as u32);
        let mut result: u16 = 0;
        let mut index: u32 = left;
        while index <= right
            invariant
                left == spec_left(modifier as u32),
                right == spec_right(modifier as u32),
                left <= right <= REGISTER_BYTES,
                left <= index <= right + 1,
                result as nat == self.field_value(left as int, index as int - 1),
            decreases right + 1 - index,
        {
            let byte = self.get_byte(index as usize);
            proof {
                if index > left {
                    lemma_spec_field_bound(
                        self.sign(),
                        self.mag() as nat,
                        REGISTER_BYTES as int,
                        left as int,
                        index as int - 1,
                    );
                    if left == 0 {
                        lemma_pow64_mono((index - 1 - left) as nat, 1);
                    } else {
                        lemma_pow64_mono((index - left) as nat, 1);
                    }
                    lemma_pow64_values();
                }
                lemma_register_accumulate(result, byte as u16);
                assert(self.field_value(left as int, index as int) == self.field_value(
                    left as int,
                    index as int - 1,
                ) * 64 + self.byte_at(index as int));
            }
            result = (result << 6u16) | (byte as u16);
            index = index + 1;
        }
        result
    }
}

impl Default for Register {
    /// A fresh register: magnitude 0 and a clear sign flag.
    fn default() -> (register: Register)
        ensures
            register.mag() == 0,
            !register.sign(),
    {
        proof {
            lemma_register_store(0);
        }
        Register::new(0, None)
    }
}

} // verus!
