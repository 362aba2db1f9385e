//! Bit-level access to packed 16-bit words, through the `bit_field` crate.
//!
//! The four functions here are the only place where `bit_field` is called. Their
//! contracts are taken on trust from that crate's implementation for `u16`; the
//! packed entry types prove their own contracts from them.

use bit_field::BitField;
use vstd::prelude::*;

verus! {

/// The bits `start..end` of `x`, moved down so that bit `start` becomes bit 0.
pub open spec fn bit_range(x: u16, start: u16, end: u16) -> u16 {
    if start >= end {
        0u16
    } else {
        (x >> start) & (0xFFFFu16 >> (16u16 - (end - start)) as u16)
    }
}

/// Whether bit `bit` of `x` is set.
pub open spec fn bit_at(x: u16, bit: u16) -> bool {
    x & (1u16 << bit) != 0
}

/// `x` with bit `bit` set to `value`.
pub open spec fn with_bit(x: u16, bit: u16, value: bool) -> u16 {
    if value {
        x | (1u16 << bit)
    } else {
        x & !(1u16 << bit)
    }
}

/// `x` with the bits `start..end` replaced by the low bits of `value`.
pub open spec fn with_bit_range(x: u16, start: u16, end: u16, value: u16) -> u16 {
    if start >= end {
        x
    } else {
        (x & !(((0xFFFFu16 >> (16u16 - (end - start)) as u16) << start) as u16)) | ((value
            << start) as u16)
    }
}

/// Calls `BitField::get_bit` on a `u16`. The crate panics for `bit >= 16`;
/// otherwise it tests `x & (1 << bit)`.
#[verifier::external_body]
pub(crate) fn get_bit(x: u16, bit: usize) -> (r: bool)
    requires
        bit < 16,
    ensures
        r == bit_at(x, bit as u16),
{
    x.get_bit(bit)
}

/// Calls `BitField::get_bits` on a `u16` with the range `start..end`. The crate
/// panics unless `start < 16`, `end <= 16` and `start <= end`; otherwise it
/// shifts the bits above `end` and below `start` away.
#[verifier::external_body]
pub(crate) fn get_bits(x: u16, start: usize, end: usize) -> (r: u16)
    requires
        start < 16,
        end <= 16,
        start <= end,
    ensures
        r == bit_range(x, start as u16, end as u16),
{
    x.get_bits(start..end)
}

/// Calls `BitField::set_bit` on a copy of `x` and returns the copy. The crate
/// panics for `bit >= 16`; otherwise it sets or clears that one bit.
#[verifier::external_body]
pub(crate) fn set_bit(x: u16, bit: usize, value: bool) -> (r: u16)
    requires
        bit < 16,
    ensures
        r == with_bit(x, bit as u16, value),
{
    let mut word = x;
    word.set_bit(bit, value);
    word
}

/// Calls `BitField::set_bits` on a copy of `x` with the range `start..end` and
/// returns the copy. The crate panics unless the range is within the word and
/// `value` has no bit set outside its low `end - start` bits; otherwise it
/// replaces exactly the bits of the range.
#[verifier::external_body]
pub(crate) fn set_bits(x: u16, start: usize, end: usize, value: u16) -> (r: u16)
    requires
        start < 16,
        end <= 16,
        start <= end,
        bit_range(value, 0, (end - start) as u16) == value,
    ensures
        r == with_bit_range(x, start as u16, end as u16, value),
{
    let mut word = x;
    word.set_bits(start..end, value);
    word
}

} // verus!
