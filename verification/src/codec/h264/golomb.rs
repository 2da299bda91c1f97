//! Exp-Golomb codes.

use vstd::arithmetic::power2;
use vstd::prelude::*;

use crate::bitstream_utils;

verus! {

/// How many bits `value` takes, without leading zeros.
pub open spec fn bit_length(value: nat) -> nat
    decreases value,
{
    if value == 0 {
        0
    } else {
        1 + bit_length(value / 2)
    }
}

/// The code of the number `value`: one less than the bits of `value + 1` zeros,
/// then those bits. This is `ue(v)`.
pub open spec fn exp_golomb(value: nat) -> Seq<bool> {
    let n = bit_length(value + 1);
    bitstream_utils::value_bits((n - 1) as nat, 0) + bitstream_utils::value_bits(n, value + 1)
}

/// The number that stands for the signed `value`: 0, 1, -1, 2, -2 and so on
/// are numbered from 0. The code of that number is `se(v)`.
pub open spec fn signed_code(value: int) -> nat {
    if value <= 0 {
        (-2 * value) as nat
    } else {
        (2 * value - 1) as nat
    }
}

/// The bit length is where the powers of two enclose the value.
pub proof fn lemma_bit_length(value: nat)
    ensures
        value > 0 ==> bit_length(value) > 0,
        value > 0 ==> power2::pow2((bit_length(value) - 1) as nat) <= value,
        value < power2::pow2(bit_length(value)),
    decreases value,
{
    power2::lemma2_to64();
    if value > 0 {
        lemma_bit_length(value / 2);
        let n = bit_length(value);
        power2::lemma_pow2_unfold(n);
        if value > 1 {
            power2::lemma_pow2_unfold((n - 1) as nat);
        }
    }
}

/// The powers of two that enclose a value tell its bit length.
pub proof fn lemma_bit_length_unique(value: nat, n: nat)
    requires
        n > 0,
        power2::pow2((n - 1) as nat) <= value < power2::pow2(n),
    ensures
        bit_length(value) == n,
{
    lemma_bit_length(value);
    power2::lemma_pow2_pos((n - 1) as nat);
    let m = bit_length(value);
    if m < n && m < n - 1 {
        power2::lemma_pow2_strictly_increases(m, (n - 1) as nat);
    } else if n < m && n < m - 1 {
        power2::lemma_pow2_strictly_increases(n, (m - 1) as nat);
    }
}

/// The bit length is what the leading zeros leave of 32.
pub(crate) proof fn lemma_leading_zeros(value: u32)
    ensures
        bit_length(value as nat) == 32 - vstd::std_specs::bits::u32_leading_zeros(value),
{
    let zeros: u32 = vstd::std_specs::bits::u32_leading_zeros(value);
    vstd::std_specs::bits::axiom_u32_leading_zeros(value);
    power2::lemma2_to64();
    if value > 0 {
        let top = (31 - zeros) as u32;
        vstd::bits::lemma_u32_shr_is_div(value, top);
        power2::lemma_pow2_pos(top as nat);
        power2::lemma_pow2_unfold((top + 1) as nat);
        let shifted = value >> top;
        assert(0u32 & 1 == 0) by (bit_vector);
        assert(shifted >= 1);
        assert(shifted <= 1) by {
            if top < 31 {
                let above = (32 - zeros) as u32;
                assert(above == top + 1);
                assert(value >> above == (value >> top) >> 1u32) by (bit_vector)
                    requires above == top + 1, top < 31;
                assert(shifted >> 1u32 == 0 ==> shifted <= 1) by (bit_vector);
            } else {
                assert(value >> 31u32 <= 1) by (bit_vector);
            }
        }
        vstd::arithmetic::div_mod::lemma_fundamental_div_mod(value as int, power2::pow2(top as nat) as int);
        lemma_bit_length_unique(value as nat, (top + 1) as nat);
    }
}

} // verus!
