//! The machine word: thirty magnitude bits (five six-bit bytes) and a sign
//! flag, the storage unit of memory cells, the accumulator and the extension
//! register.

use vstd::prelude::*;
use crate::field::lemma_pow64_mono;
use crate::field::lemma_pow64_values;
use crate::field::lemma_spec_field_bound;
use crate::field::pow64;
use crate::field::spec_byte;
use crate::field::spec_field;
use crate::field::spec_left;
use crate::field::spec_right;
use crate::field::split_modifier;
use crate::field::valid_field_spec;

verus! {

/// Number of six-bit bytes in a word.
pub const WORD_BYTES: u32 = 5;

/// Mask of the thirty magnitude bits.
pub const WORD_DATA_MASK: u32 = 0x3FFF_FFFF;

/// Mask of the sign flag, kept just above the magnitude.
pub const WORD_SIGN_MASK: u32 = 0x4000_0000;

/// Mask of magnitude and sign flag together.
pub const WORD_VALUE_MASK: u32 = 0x7FFF_FFFF;

/// A word value. The sign flag is stored above the magnitude; a set flag
/// renders as `+`, a clear one as `-`.
#[derive(Clone, Copy, Debug, PartialEq, Eq, Structural)]
pub struct Word {
    data: u32,
}

proof fn lemma_word_store(n: u32)
    by (bit_vector)
    ensures
        0u32 & 0x3FFF_FFFFu32 == 0,
        (n & 0x3FFF_FFFFu32) | 0u32 == n & 0x3FFF_FFFF,
        (n & 0x3FFF_FFFFu32) & 0x4000_0000 == 0,
        (n & 0x3FFF_FFFFu32) & 0x3FFF_FFFF == n & 0x3FFF_FFFF,
        (n & 0x3FFF_FFFFu32) & 0x8000_0000 == 0,
        ((n & 0x3FFF_FFFFu32) | 0x4000_0000) & 0x4000_0000 != 0,
        ((n & 0x3FFF_FFFFu32) | 0x4000_0000) & 0x3FFF_FFFF == n & 0x3FFF_FFFF,
        ((n & 0x3FFF_FFFFu32) | 0x4000_0000) & 0x8000_0000 == 0,
        (n & 0x7FFF_FFFFu32) & 0x3FFF_FFFF == n & 0x3FFF_FFFF,
        (n & 0x7FFF_FFFFu32) & 0x4000_0000 == n & 0x4000_0000,
        (n & 0x7FFF_FFFFu32) & 0x8000_0000 == 0,
        n & 0x3FFF_FFFF < 0x4000_0000,
{
}

proof fn lemma_word_mutate(data: u32, n: u32)
    by (bit_vector)
    ensures
        ((n & 0x3FFF_FFFFu32) | (data & 0x4000_0000)) & 0x3FFF_FFFF == n & 0x3FFF_FFFF,
        ((n & 0x3FFF_FFFFu32) | (data & 0x4000_0000)) & 0x4000_0000 == data & 0x4000_0000,
        ((n & 0x3FFF_FFFFu32) | (data & 0x4000_0000)) & 0x8000_0000 == 0,
        (data | 0x4000_0000u32) & 0x3FFF_FFFF == data & 0x3FFF_FFFF,
        (data | 0x4000_0000u32) & 0x4000_0000 != 0,
        data & 0x8000_0000 == 0 ==> (data | 0x4000_0000u32) & 0x8000_0000 == 0,
        (data & !0x4000_0000u32) & 0x3FFF_FFFF == data & 0x3FFF_FFFF,
        (data & !0x4000_0000u32) & 0x4000_0000 == 0,
        data & 0x8000_0000 == 0 ==> (data & !0x4000_0000u32) & 0x8000_0000 == 0,
        data & 0x7FFF_FFFF == (data & 0x3FFF_FFFF) + (if data & 0x4000_0000 != 0 {
            0x4000_0000u32
        } else {
            0u32
        }),
{
}

proof fn lemma_word_extract(data: u32)
    by (bit_vector)
    requires
        data & 0x8000_0000 == 0,
    ensures
        (data >> 30u32) & 63 == (if data & 0x4000_0000 != 0 {
            1u32
        } else {
            0u32
        }),
        (data >> 24u32) & 63 == ((data & 0x3FFF_FFFF) / 0x1000000) % 64,
        (data >> 18u32) & 63 == ((data & 0x3FFF_FFFF) / 0x40000) % 64,
        (data >> 12u32) & 63 == ((data & 0x3FFF_FFFF) / 0x1000) % 64,
        (data >> 6u32) & 63 == ((data & 0x3FFF_FFFF) / 64) % 64,
        (data >> 0u32) & 63 == (data & 0x3FFF_FFFF) % 64,
{
}

proof fn lemma_word_accumulate(x: u32, b: u32)
    by (bit_vector)
    requires
        x < 0x200_0000,
        b < 64,
    ensures
        (x << 6u32) | b == x * 64 + b,
        x * 64 + b < 0x8000_0000,
{
}

/// The canonical word built from a magnitude (truncated to thirty bits) and
/// a sign flag.
pub broadcast proof fn lemma_word_spec_new_view(number: u32, sign: bool)
    ensures
        #![trigger Word::spec_new(number, sign)]
        Word::spec_new(number, sign).sign() == sign,
        Word::spec_new(number, sign).mag() == number & WORD_DATA_MASK,
{
    lemma_word_store(number);
}

/// The word built from a thirty-one bit pattern keeps the pattern's low
/// thirty bits as magnitude and bit 30 as sign flag.
pub broadcast proof fn lemma_word_spec_from_value_view(value: u32)
    ensures
        #![trigger Word::spec_from_value(value)]
        Word::spec_from_value(value).sign() == (value & WORD_SIGN_MASK != 0),
        Word::spec_from_value(value).mag() == value & WORD_DATA_MASK,
{
    lemma_word_store(value);
}

proof fn lemma_word_value_bits(m: u32)
    by (bit_vector)
    requires
        m < 0x4000_0000,
    ensures
        m | 0x4000_0000 == m + 0x4000_0000,
        (m | 0x4000_0000u32) & 0x3FFF_FFFF == m,
        (m | 0x4000_0000u32) & 0x4000_0000 != 0,
        m & 0x3FFF_FFFF == m,
        m & 0x4000_0000 == 0,
{
}

/// The full field `0 ..= 5` of a word is its whole thirty-one bit pattern:
/// a word built back from it reproduces the word, sign flag and magnitude
/// both.
pub proof fn lemma_word_full_field(word: Word)
    ensures
        word.field_value(0, 5) == word.mag() + (if word.sign() {
            WORD_SIGN_MASK as int
        } else {
            0
        }),
        Word::spec_from_value(word.field_value(0, 5) as u32).mag() == word.mag(),
        Word::spec_from_value(word.field_value(0, 5) as u32).sign() == word.sign(),
{
    lemma_word_mag_bound(word);
    lemma_pow64_values();
    crate::field::lemma_spec_field_sign_split(word.sign(), word.mag() as nat, 5, 5);
    crate::field::lemma_spec_field_parts(word.sign(), word.mag() as nat, 5, 1, 5);
    vstd::arithmetic::div_mod::lemma_div_basics(word.mag() as int);
    vstd::arithmetic::div_mod::lemma_small_mod(word.mag() as nat, pow64(5));
    assert(word.field_value(1, 5) == word.mag());
    lemma_word_value_bits(word.mag());
    lemma_word_spec_from_value_view(word.field_value(0, 5) as u32);
}

/// A word's magnitude always fits in thirty bits.
pub broadcast proof fn lemma_word_mag_bound(word: Word)
    ensures
        #[trigger] word.mag() < 0x4000_0000,
{
    lemma_word_store(word.data);
}

impl Word {
    /// The host bit above the sign flag is never set.
    #[verifier::type_invariant]
    spec fn host_bit_clear(self) -> bool {
        self.data & 0x8000_0000u32 == 0
    }

    /// True when the sign flag is set.
    pub closed spec fn sign(self) -> bool {
        self.data & WORD_SIGN_MASK != 0
    }

    /// The thirty-bit magnitude.
    pub closed spec fn mag(self) -> u32 {
        self.data & WORD_DATA_MASK
    }

    /// The word holding `number`'s low thirty bits with the given sign flag.
    pub closed spec fn spec_new(number: u32, sign: bool) -> Word {
        Word {
            data: if sign {
                (number & WORD_DATA_MASK) | WORD_SIGN_MASK
            } else {
                number & WORD_DATA_MASK
            },
        }
    }

    /// The word whose thirty-one bit pattern (sign flag at bit 30) is
    /// `value`'s low thirty-one bits.
    pub closed spec fn spec_from_value(value: u32) -> Word {
        Word { data: value & WORD_VALUE_MASK }
    }

    /// The six-bit byte at `index`, counted from the most significant side;
    /// position 0 is the sign flag, read as 0 or 1.
    pub open spec fn byte_at(self, index: int) -> nat {
        spec_byte(self.sign(), self.mag() as nat, WORD_BYTES as int, index)
    }

    /// The value of the field `left ..= right` of this word.
    pub open spec fn field_value(self, left: int, right: int) -> nat {
        spec_field(self.sign(), self.mag() as nat, WORD_BYTES as int, left, right)
    }

    /// Creates a word holding `number`'s low thirty bits; the sign flag is
    /// set only when `sign` is `Some(true)`.
    pub fn new(number: u32, sign: Option<bool>) -> (word: Word)
        ensures
            word == Word::spec_new(number, sign == Some(true)),
            word.mag() == number & WORD_DATA_MASK,
            word.sign() == (sign == Some(true)),
    {
        let mut data = number & WORD_DATA_MASK;
        if let Some(s) = sign {
            if s {
                data = data | WORD_SIGN_MASK;
            }
        }
        proof {
            lemma_word_store(number);
        }
        Word { data }
    }

    /// Creates a word from a thirty-one bit pattern: the low thirty bits
    /// become the magnitude and bit 30 the sign flag.
    pub fn from_value(value: u32) -> (word: Word)
        ensures
            word == Word::spec_from_value(value),
            word.mag() == value & WORD_DATA_MASK,
            word.sign() == (value & WORD_SIGN_MASK != 0),
    {
        proof {
            lemma_word_store(value);
        }
        Word { data: value & WORD_VALUE_MASK }
    }

    /// Sign flag and magnitude as one bit pattern: the magnitude with the
    /// sign's weight added above it.
    pub fn read(&self) -> (value: u32)
        ensures
            value == self.mag() + (if self.sign() {
                WORD_SIGN_MASK as int
            } else {
                0
            }),
    {
        proof {
            lemma_word_mutate(self.data, 0);
        }
        self.data & WORD_VALUE_MASK
    }

    /// The magnitude alone.
    pub fn read_data(&self) -> (value: u32)
        ensures
            value == self.mag(),
    {
        self.data & WORD_DATA_MASK
    }

    /// The sign flag.
    pub fn read_sign(&self) -> (sign: bool)
        ensures
            sign == self.sign(),
    {
        (self.data & WORD_SIGN_MASK) != 0
    }

    /// Replaces magnitude (truncated to thirty bits) and sign flag together.
    pub fn write(&mut self, number: u32, sign: bool)
        ensures
            *final(self) == Word::spec_new(number, sign),
            final(self).mag() == number & WORD_DATA_MASK,
            final(self).sign() == sign,
    {
        proof {
            lemma_word_store(number);
        }
        self.data = (number & WORD_DATA_MASK) | (if sign {
            WORD_SIGN_MASK
        } else {
            0
        });
    }

    /// Replaces the magnitude (truncated to thirty bits), preserving the
    /// sign flag.
    pub fn write_data(&mut self, number: u32)
        ensures
            final(self).mag() == number & WORD_DATA_MASK,
            final(self).sign() == old(self).sign(),
    {
        proof {
            use_type_invariant(&*self);
            lemma_word_mutate(self.data, number);
        }
        self.data = (number & WORD_DATA_MASK) | (self.data & WORD_SIGN_MASK);
    }

    /// Sets or clears the sign flag, leaving the magnitude unchanged.
    pub fn write_sign(&mut self, sign: bool)
        ensures
            final(self).sign() == sign,
            final(self).mag() == old(self).mag(),
    {
        proof {
            use_type_invariant(&*self);
            lemma_word_mutate(self.data, 0);
        }
        if sign {
            self.data = self.data | WORD_SIGN_MASK;
        } else {
            self.data = self.data & !WORD_SIGN_MASK;
        }
    }

    /// The six-bit byte at `index`; index 0 yields the sign flag as 0 or 1.
    pub fn get_byte(&self, index: usize) -> (byte: u8)
        requires
            index <= WORD_BYTES as usize,
        ensures
            byte as nat == self.byte_at(index as int),
            byte < 64,
    {
        let shifted = (self.data >> ((WORD_BYTES - index as u32) * 6)) & 63;
        proof {
            use_type_invariant(&*self);
            lemma_word_extract(self.data);
            lemma_pow64_values();
            if index == 0 {
                assert(shifted as nat == self.byte_at(0));
            } else if index == 1 {
                assert(shifted as nat == self.byte_at(1));
            } else if index == 2 {
                assert(shifted as nat == self.byte_at(2));
            } else if index == 3 {
                assert(shifted as nat == self.byte_at(3));
            } else if index == 4 {
                assert(shifted as nat == self.byte_at(4));
            } else {
                vstd::arithmetic::div_mod::lemma_div_basics(self.mag() as int);
                assert(shifted as nat == self.byte_at(5));
            }
        }
        shifted as u8
    }

    /// Reads the field that `modifier` selects: the big-endian concatenation
    /// of the chosen bytes, with the sign flag appearing as a leading 0 or 1
    /// when the field starts at position 0. Modifier 0 thus yields the sign
    /// flag alone.
    pub fn read_with_modifier(&self, modifier: u32) -> (value: u32)
        requires
            valid_field_spec(modifier, WORD_BYTES),
        ensures
            value as nat == self.field_value(
                spec_left(modifier) as int,
                spec_right(modifier) as int,
            ),
    {
        let (left, right) = split_modifier(modifier);
        let mut result: u32 = 0;
        let mut index: u32 = left;
        while index <= right
            invariant
                left == spec_left(modifier),
                right == spec_right(modifier),
                left <= right <= WORD_BYTES,
                left <= index <= right + 1,
                result as nat == self.field_value(left as int, index as int - 1),
            decreases right + 1 - index,
        {
            let byte = self.get_byte(index as usize);
            proof {
                if index > left {
                    lemma_spec_field_bound(
                        self.sign(),
                        self.mag() as nat,
                        WORD_BYTES as int,
                        left as int,
                        index as int - 1,
                    );
                    if left == 0 {
                        lemma_pow64_mono((index - 1 - left) as nat, 4);
                    } else {
                        lemma_pow64_mono((index - left) as nat, 4);
                    }
                    lemma_pow64_values();
                }
                lemma_word_accumulate(result, byte as u32);
                assert(self.field_value(left as int, index as int) == self.field_value(
                    left as int,
                    index as int - 1,
                ) * 64 + self.byte_at(index as int));
            }
            result = (result << 6u32) | (byte as u32);
            index = index + 1;
        }
        result
    }
}

impl Default for Word {
    /// A fresh word: magnitude 0 and a clear sign flag.
    fn default() -> (word: Word)
        ensures
            word.mag() == 0,
            !word.sign(),
    {
        proof {
            lemma_word_store(0);
        }
        Word::new(0, None)
    }
}

} // verus!
