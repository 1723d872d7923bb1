//! Reading single bits and bit ranges out of 64-bit words.
use vstd::prelude::*;

verus! {

/// The `n` lowest bits set, for `n <= 64`.
pub open spec fn low_mask(n: u64) -> u64 {
    if n >= 64 {
        0xffff_ffff_ffff_ffffu64
    } else {
        ((1u64 << n) - 1) as u64
    }
}

/// Bit `bit` of `value`, as 0 or 1.
pub open spec fn bit_of(value: u64, bit: u64) -> u64 {
    (value >> bit) & 1
}

/// The bits `low..high` of `value`, shifted down to bit 0 (0 when `low >= high`).
pub open spec fn bits_of(value: u64, low: u64, high: u64) -> u64 {
    if low < high {
        (value >> low) & low_mask((high - low) as u64)
    } else {
        0
    }
}

/// Returns bit `bit` of `value`: 1 when it is set, 0 otherwise.
pub fn get_bit(value: u64, bit: usize) -> (r: u64)
    requires
        bit < 64,
    ensures
        r == bit_of(value, bit as u64),
        r <= 1,
{
    let mask = 1u64 << bit;
    let masked = value & mask;
    let b = bit as u64;
    assert(((value & (1u64 << b)) > 0) == ((value >> b) & 1 == 1)) by (bit_vector)
        requires b < 64;
    assert((value >> b) & 1 <= 1) by (bit_vector);
    if masked > 0 {
        1
    } else {
        0
    }
}

proof fn lemma_bits_step(value: u64, low: u64, k: u64)
    requires
        low + k < 64,
    ensures
        ((value >> low) & low_mask(k)) | (((value >> (low + k)) & 1) << k)
            == (value >> low) & low_mask((k + 1) as u64),
{
    if k + 1 < 64 {
        assert(((value >> low) & ((1u64 << k) - 1) as u64) | (((value >> (low + k)) & 1) << k)
            == (value >> low) & ((1u64 << (k + 1) as u64) - 1) as u64) by (bit_vector)
            requires low + k < 64, k + 1 < 64;
    } else {
        assert(((value >> low) & ((1u64 << k) - 1) as u64) | (((value >> (low + k)) & 1) << k)
            == (value >> low) & 0xffff_ffff_ffff_ffffu64) by (bit_vector)
            requires low + k < 64, k + 1 == 64;
    }
}

/// Returns the bits `low_bit..high_bit` of `value`, shifted down so that
/// bit `low_bit` lands at bit 0; an empty range gives 0.
pub fn get_bits(value: u64, low_bit: usize, high_bit: usize) -> (r: u64)
    requires
        high_bit <= 64,
    ensures
        r == bits_of(value, low_bit as u64, high_bit as u64),
{
    let mut ret: u64 = 0;
    let mut bit: usize = low_bit;
    if low_bit >= high_bit {
        return 0;
    }
    assert((value >> low_bit as u64) & ((1u64 << 0u64) - 1) as u64 == 0) by (bit_vector);
    while bit < high_bit
        invariant
            low_bit <= bit <= high_bit <= 64,
            low_bit < high_bit,
            ret == (value >> low_bit as u64) & low_mask((bit - low_bit) as u64),
        decreases high_bit - bit,
    {
        let b = get_bit(value, bit);
        proof {
            lemma_bits_step(value, low_bit as u64, (bit - low_bit) as u64);
        }
        ret = ret | (b << (bit - low_bit));
        bit = bit + 1;
    }
    ret
}

} // verus!
