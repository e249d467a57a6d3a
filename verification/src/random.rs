//! Random draws, and how a draw picks one of several choices.
//!
//! A draw is the bit pattern of a double precision number `u`. A draw with
//! `0 <= u < 1` picks, out of `len` choices, the one with index `u * len`
//! rounded down, so that equal shares of the unit interval lead to each choice.

use vstd::prelude::*;
use vstd::arithmetic::div_mod::{
    lemma_basic_div,
    lemma_fundamental_div_mod,
    lemma_fundamental_div_mod_converse,
    lemma_multiply_divide_lt,
};
use vstd::arithmetic::power2::{lemma2_to64_rest, lemma_pow2_pos, lemma_pow2_strictly_increases, pow2};
use vstd::bits::lemma_u128_shr_is_div;

verus! {

/// The bit pattern of 1.0; the patterns below it are those of the numbers from
/// 0 up to, but not including, 1.
pub const ONE_BITS: u64 = 0x3FF0_0000_0000_0000;

/// The lowest bit of the exponent: the patterns below it are those of the
/// subnormal numbers.
pub const EXPONENT_UNIT: u64 = 0x10_0000_0000_0000;

/// The draw is that of a number from 0 up to, but not including, 1.
pub open spec fn is_unit(bits: u64) -> bool {
    bits < ONE_BITS
}

/// The significand of a unit draw, as a whole number: the number drawn is
/// `significand(bits) / 2^scale(bits)`.
pub open spec fn significand(bits: u64) -> nat {
    if bits / EXPONENT_UNIT == 0 {
        (bits % EXPONENT_UNIT) as nat
    } else {
        (EXPONENT_UNIT + bits % EXPONENT_UNIT) as nat
    }
}

/// The power of two that the significand of a unit draw is divided by.
pub open spec fn scale(bits: u64) -> nat {
    if bits / EXPONENT_UNIT == 0 {
        1074
    } else {
        (1075 - bits / EXPONENT_UNIT) as nat
    }
}

/// The choice that a draw picks out of `len`: for a unit draw of the number
/// `u`, `u * len` rounded down. Any other draw picks the first choice.
pub open spec fn unit_index(bits: u64, len: nat) -> nat {
    if is_unit(bits) {
        (significand(bits) * len) / pow2(scale(bits))
    } else {
        0
    }
}

/// The significand of a unit draw is smaller than the power of two that it is
/// divided by: the number drawn is below 1.
pub proof fn lemma_unit_below_one(bits: u64)
    requires
        is_unit(bits),
    ensures
        significand(bits) < 0x20_0000_0000_0000,
        53 <= scale(bits) <= 1074,
        significand(bits) < pow2(scale(bits)),
{
    lemma2_to64_rest();
    if scale(bits) > 53 {
        lemma_pow2_strictly_increases(53, scale(bits));
    }
}

/// A draw picks one of the choices it is offered.
pub proof fn lemma_unit_index_in_range(bits: u64, len: nat)
    requires
        len > 0,
    ensures
        unit_index(bits, len) < len,
{
    if is_unit(bits) {
        lemma_unit_below_one(bits);
        let m = significand(bits) as int;
        let p = pow2(scale(bits)) as int;
        assert(m * len < p * len) by (nonlinear_arith)
            requires
                0 <= m < p,
                len > 0,
        ;
        lemma_multiply_divide_lt(m * len, p, len as int);
    }
}

/// Every choice has an equal share of the unit interval: a draw of the number
/// `u` picks the choice `i` exactly when `i <= u * len < i + 1`.
pub proof fn law_equal_shares(bits: u64, len: nat, i: nat)
    requires
        is_unit(bits),
    ensures
        unit_index(bits, len) == i <==> i * pow2(scale(bits)) <= significand(bits) * len < (i + 1)
            * pow2(scale(bits)),
{
    let p = pow2(scale(bits)) as int;
    let a = (significand(bits) * len) as int;
    lemma_pow2_pos(scale(bits));
    lemma_fundamental_div_mod(a, p);
    assert(i * p + p == (i + 1) * p) by (nonlinear_arith);
    assert(p * (a / p) == (a / p) * p) by (nonlinear_arith);
    if i * p <= a < (i + 1) * p {
        lemma_fundamental_div_mod_converse(a, p, i as int, a - i * p);
    }
}

/// The choice that a draw picks out of `len`.
pub fn pick_index(bits: u64, len: usize) -> (i: usize)
    ensures
        i == unit_index(bits, len as nat),
        len > 0 ==> i < len,
{
    if len == 0 {
        proof {
            if is_unit(bits) {
                lemma_pow2_pos(scale(bits));
                assert(significand(bits) * 0 == 0);
            }
        }
        return 0;
    }
    proof {
        lemma_unit_index_in_range(bits, len as nat);
    }
    if bits >= ONE_BITS {
        return 0;
    }
    let exponent: u64 = bits / EXPONENT_UNIT;
    let fraction: u64 = bits % EXPONENT_UNIT;
    let m: u64 = if exponent == 0 {
        fraction
    } else {
        EXPONENT_UNIT + fraction
    };
    let shift: u64 = if exponent == 0 {
        1074
    } else {
        1075 - exponent
    };
    proof {
        lemma_unit_below_one(bits);
    }
    assert(m * len < 0x20_0000_0000_0000 * 0x1_0000_0000_0000_0000) by (nonlinear_arith)
        requires
            0 <= m < 0x20_0000_0000_0000,
            0 <= len < 0x1_0000_0000_0000_0000,
    ;
    let product: u128 = (m as u128) * (len as u128);
    if shift >= 128 {
        proof {
            lemma2_to64_rest();
            lemma_pow2_strictly_increases(117, shift as nat);
            vstd::arithmetic::power2::lemma_pow2_adds(53, 64);
            lemma_basic_div(product as int, pow2(shift as nat) as int);
        }
        return 0;
    }
    let wide_shift: u128 = shift as u128;
    proof {
        lemma_u128_shr_is_div(product, wide_shift);
    }
    (product >> wide_shift) as usize
}

/// A draw from the host's random number generator, `js_sys::Math::random`, as
/// the bit pattern of the number drawn. The generator is documented to give a
/// number from 0 up to, but not including, 1; the contract claims that of
/// every draw and nothing else.
#[verifier::external_body]
pub(crate) fn random_unit_bits() -> (bits: u64)
    ensures
        is_unit(bits),
{
    js_sys::Math::random().to_bits()
}

} // verus!
