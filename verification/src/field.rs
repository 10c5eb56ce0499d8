//! The field-specification mechanism shared by words and registers.
//!
//! A *field specification* selects an inclusive range `left ..= right` of
//! six-bit byte positions, counted from the most significant side; position 0
//! stands for the sign. It is written as the two-digit decimal number
//! `left * 10 + right` (the *modifier*). The value of a field is the
//! big-endian concatenation of its bytes, with the sign contributing a
//! leading 0 or 1 when the range starts at position 0.

use vstd::prelude::*;
use vstd::arithmetic::div_mod::lemma_breakdown;
use vstd::arithmetic::div_mod::lemma_div_denominator;

verus! {

/// The left half of a modifier: its tens digit.
pub open spec fn spec_left(modifier: u32) -> u32 {
    modifier / 10
}

/// The right half of a modifier: its units digit.
pub open spec fn spec_right(modifier: u32) -> u32 {
    modifier % 10
}

/// A modifier is valid for a container of `bytes` six-bit bytes when it
/// denotes a non-empty range that stays within the container.
pub open spec fn valid_field_spec(modifier: u32, bytes: u32) -> bool {
    spec_left(modifier) <= spec_right(modifier) && spec_right(modifier) <= bytes
}

/// Decomposes a modifier into its `(left, right)` byte range.
///
/// Callers must present a modifier that is valid for the widest container
/// (five bytes); containers with fewer bytes restrict it further at their
/// own call sites.
pub fn split_modifier(modifier: u32) -> (parts: (u32, u32))
    requires
        valid_field_spec(modifier, 5),
    ensures
        parts.0 == spec_left(modifier),
        parts.1 == spec_right(modifier),
{
    (modifier / 10, modifier % 10)
}

/// Decides whether `modifier` is a valid field specification for a container
/// of `bytes` six-bit bytes.
pub fn is_valid_field_spec(modifier: u32, bytes: u32) -> (ok: bool)
    ensures
        ok == valid_field_spec(modifier, bytes),
{
    let left = modifier / 10;
    let right = modifier % 10;
    left <= right && right <= bytes
}

/// `64 ^ exponent`: the weight of a six-bit byte position.
pub open spec fn pow64(exponent: nat) -> nat
    decreases exponent,
{
    if exponent == 0 {
        1
    } else {
        64 * pow64((exponent - 1) as nat)
    }
}

/// The byte at `index` of a container with `bytes` bytes holding `mag`
/// magnitude and the given sign; index 0 is the sign, read as 0 or 1.
pub open spec fn spec_byte(sign: bool, mag: nat, bytes: int, index: int) -> nat {
    if index <= 0 {
        if sign {
            1
        } else {
            0
        }
    } else {
        mag / pow64((bytes - index) as nat) % 64
    }
}

/// The big-endian concatenation of the bytes `left ..= right`; an empty
/// range yields 0.
pub open spec fn spec_field(sign: bool, mag: nat, bytes: int, left: int, right: int) -> nat
    decreases right - left + 1,
{
    if right < left {
        0
    } else {
        spec_field(sign, mag, bytes, left, right - 1) * 64 + spec_byte(sign, mag, bytes, right)
    }
}

/// Every byte weight is positive.
pub proof fn lemma_pow64_pos(exponent: nat)
    ensures
        pow64(exponent) >= 1,
    decreases exponent,
{
    if exponent > 0 {
        lemma_pow64_pos((exponent - 1) as nat);
    }
}

/// Byte weights grow with the exponent.
pub proof fn lemma_pow64_mono(a: nat, b: nat)
    requires
        a <= b,
    ensures
        pow64(a) <= pow64(b),
    decreases b,
{
    if a < b {
        lemma_pow64_mono(a, (b - 1) as nat);
    }
}

/// The byte weights that five-byte and two-byte containers use.
pub proof fn lemma_pow64_values()
    ensures
        pow64(0) == 1,
        pow64(1) == 64,
        pow64(2) == 0x1000,
        pow64(3) == 0x40000,
        pow64(4) == 0x1000000,
        pow64(5) == 0x40000000,
{
    reveal_with_fuel(pow64, 6);
}

/// A field value is bounded by the weight of its width: a field that starts
/// at the sign position carries at most one extra leading unit.
pub proof fn lemma_spec_field_bound(sign: bool, mag: nat, bytes: int, left: int, right: int)
    requires
        0 <= left <= right <= bytes,
    ensures
        left == 0 ==> spec_field(sign, mag, bytes, left, right) < 2 * pow64((right - left) as nat),
        left >= 1 ==> spec_field(sign, mag, bytes, left, right) < pow64((right - left + 1) as nat),
    decreases right - left,
{
    if right == left {
        assert(spec_field(sign, mag, bytes, left, right - 1) == 0);
        assert(pow64(0) == 1);
        assert(pow64(1) == 64);
    } else {
        lemma_spec_field_bound(sign, mag, bytes, left, right - 1);
        assert(pow64((right - left) as nat) == 64 * pow64((right - left - 1) as nat));
        assert(pow64((right - left + 1) as nat) == 64 * pow64((right - left) as nat));
    }
}

/// A field that starts at the sign position is the sign, weighted by the
/// field's width, plus the field that starts one byte further in.
pub proof fn lemma_spec_field_sign_split(sign: bool, mag: nat, bytes: int, right: int)
    requires
        1 <= right <= bytes,
    ensures
        spec_field(sign, mag, bytes, 0, right) == (if sign {
            1nat
        } else {
            0nat
        }) * pow64(right as nat) + spec_field(sign, mag, bytes, 1, right),
    decreases right,
{
    if right == 1 {
        assert(spec_field(sign, mag, bytes, 0, -1) == 0);
        assert(spec_field(sign, mag, bytes, 0, 0) == spec_byte(sign, mag, bytes, 0));
        assert(spec_field(sign, mag, bytes, 1, 0) == 0);
        assert(pow64(1) == 64) by {
            lemma_pow64_values();
        }
    } else {
        lemma_spec_field_sign_split(sign, mag, bytes, right - 1);
        assert(pow64(right as nat) == 64 * pow64((right - 1) as nat));
    }
}

/// A field that does not touch the sign position reads the magnitude's
/// digits: it equals `mag`, shifted down past the bytes to its right and
/// reduced to its own width.
pub proof fn lemma_spec_field_parts(sign: bool, mag: nat, bytes: int, left: int, right: int)
    requires
        1 <= left <= right <= bytes,
    ensures
        spec_field(sign, mag, bytes, left, right) == mag / pow64((bytes - right) as nat) % pow64(
            (right - left + 1) as nat,
        ),
    decreases right - left,
{
    if right == left {
        assert(spec_field(sign, mag, bytes, left, right - 1) == 0);
        assert(pow64(1) == 64) by {
            lemma_pow64_values();
        }
    } else {
        lemma_spec_field_parts(sign, mag, bytes, left, right - 1);
        let p = pow64((bytes - right) as nat);
        let n = mag / p;
        let z = pow64((right - left) as nat);
        lemma_pow64_pos((bytes - right) as nat);
        lemma_pow64_pos((right - left) as nat);
        assert(pow64((bytes - right + 1) as nat) == 64 * p);
        assert(pow64((right - left + 1) as nat) == 64 * z);
        lemma_div_denominator(mag as int, p as int, 64);
        assert(mag / (p * 64) == n / 64);
        assert(p * 64 == 64 * p) by (nonlinear_arith);
        lemma_breakdown(n as int, 64, z as int);
        assert(spec_field(sign, mag, bytes, left, right) == spec_field(
            sign,
            mag,
            bytes,
            left,
            right - 1,
        ) * 64 + n % 64);
    }
}

} // verus!
