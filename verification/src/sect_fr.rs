use vstd::arithmetic::power2::{lemma2_to64, lemma_pow2_strictly_increases, pow2};
use vstd::prelude::*;

use crate::radix::lemma_pow_nat_pow2;

use crate::limbs::{
    lemma_limbs_value_high_zero, lemma_limbs_value_two, limb_scale, limbs_mul_small_add,
    limbs_value,
};

verus! {

/// Number of low bits within which this library builds SECT field elements.
///
/// The SECT scalar field has a modulus above `2^224`, so every integer below
/// `2^224` is the canonical representative of an element of it, and the
/// arithmetic done here never wraps.
pub open spec fn sect_bound() -> nat {
    pow2(224)
}

/// An element of the SECT scalar field, held by its canonical representative
/// as eight little-endian 32-bit limbs.
#[derive(Clone, Copy, Debug, PartialEq, Eq)]
pub struct SectFr {
    limbs: [u32; 8],
}

impl View for SectFr {
    type V = nat;

    closed spec fn view(&self) -> nat {
        limbs_value(self.limbs@)
    }
}

impl SectFr {
    /// The additive identity.
    pub fn zero() -> (r: SectFr)
        ensures
            r@ == 0,
    {
        let r = SectFr { limbs: [0u32; 8] };
        proof {
            lemma_limbs_value_high_zero(r.limbs@, 2);
            lemma_limbs_value_two(r.limbs@);
        }
        r
    }

    /// The element with canonical value `n`.
    pub fn from_canonical_u32(n: u32) -> (r: SectFr)
        ensures
            r@ == n,
    {
        let r = SectFr { limbs: [n, 0, 0, 0, 0, 0, 0, 0] };
        proof {
            lemma_limbs_value_high_zero(r.limbs@, 2);
            lemma_limbs_value_two(r.limbs@);
        }
        r
    }

    /// The element with canonical value `n`.
    pub fn from_canonical_u64(n: u64) -> (r: SectFr)
        ensures
            r@ == n,
    {
        let lo = (n % 0x1_0000_0000) as u32;
        let hi = (n / 0x1_0000_0000) as u32;
        let r = SectFr { limbs: [lo, hi, 0, 0, 0, 0, 0, 0] };
        proof {
            lemma_limbs_value_high_zero(r.limbs@, 2);
            lemma_limbs_value_two(r.limbs@);
        }
        r
    }

    /// The multiplicative identity.
    pub fn one() -> (r: SectFr)
        ensures
            r@ == 1,
    {
        SectFr::from_canonical_u32(1)
    }

    /// The element two.
    pub fn two() -> (r: SectFr)
        ensures
            r@ == 2,
    {
        SectFr::from_canonical_u32(2)
    }

    /// `self * factor + addend`, for operands whose result stays below `2^224`.
    pub fn mul_small_add(&self, factor: u32, addend: u32) -> (r: SectFr)
        requires
            self@ * factor + addend < sect_bound(),
        ensures
            r@ == self@ * factor + addend,
    {
        proof {
            lemma2_to64();
            lemma_pow_nat_pow2(32, 8);
            lemma_pow2_strictly_increases(224, 256);
        }
        SectFr { limbs: limbs_mul_small_add(self.limbs, factor, addend) }
    }

    /// The little-endian 32-bit limbs of the canonical representative.
    pub fn to_limbs(&self) -> (r: [u32; 8])
        ensures
            limbs_value(r@) == self@,
    {
        self.limbs
    }
}

} // verus!
