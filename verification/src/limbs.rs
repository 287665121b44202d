use vstd::prelude::*;

use crate::radix::pow_nat;

verus! {

/// Weight of the limb at position `k` in a little-endian sequence of 32-bit limbs.
pub open spec fn limb_scale(k: nat) -> nat {
    pow_nat(0x1_0000_0000, k)
}

/// The natural number denoted by little-endian 32-bit limbs.
pub open spec fn limbs_value(s: Seq<u32>) -> nat
    decreases s.len(),
{
    if s.len() == 0 {
        0
    } else {
        limbs_value(s.drop_last()) + (s.last() as nat) * limb_scale((s.len() - 1) as nat)
    }
}

pub proof fn lemma_limb_scale_pos(k: nat)
    ensures
        limb_scale(k) >= 1,
    decreases k,
{
    if k > 0 {
        lemma_limb_scale_pos((k - 1) as nat);
        assert(limb_scale(k) == 0x1_0000_0000 * limb_scale((k - 1) as nat));
    }
}

/// Extending a prefix by one limb adds that limb at its weight.
pub proof fn lemma_limbs_value_take(s: Seq<u32>, k: int)
    requires
        0 <= k < s.len(),
    ensures
        limbs_value(s.take(k + 1)) == limbs_value(s.take(k)) + s[k] * limb_scale(k as nat),
{
    assert(s.take(k + 1).drop_last() =~= s.take(k));
}

/// A prefix of `k` limbs is below `limb_scale(k)`.
pub proof fn lemma_limbs_value_bound(s: Seq<u32>)
    ensures
        limbs_value(s) < limb_scale(s.len()),
    decreases s.len(),
{
    if s.len() > 0 {
        let n = (s.len() - 1) as nat;
        lemma_limbs_value_bound(s.drop_last());
        let v = limbs_value(s.drop_last());
        let w = limb_scale(n);
        let d = s.last() as int;
        assert(v + d * w < 0x1_0000_0000 * w) by (nonlinear_arith)
            requires
                v < w,
                0 <= d <= 0xffff_ffff,
        ;
    }
}

/// Limbs above position `k` that are all zero add nothing.
pub proof fn lemma_limbs_value_high_zero(s: Seq<u32>, k: int)
    requires
        0 <= k <= s.len(),
        forall|j: int| k <= j < s.len() ==> s[j] == 0,
    ensures
        limbs_value(s) == limbs_value(s.take(k)),
    decreases s.len(),
{
    if s.len() > k {
        lemma_limbs_value_high_zero(s.drop_last(), k);
        assert(s.drop_last().take(k) =~= s.take(k));
    } else {
        assert(s.take(k) =~= s);
    }
}

/// The value of the two lowest limbs.
pub proof fn lemma_limbs_value_two(s: Seq<u32>)
    requires
        s.len() >= 2,
    ensures
        limbs_value(s.take(2)) == s[0] + s[1] * 0x1_0000_0000,
{
    reveal_with_fuel(pow_nat, 2);
    lemma_limbs_value_take(s, 0);
    lemma_limbs_value_take(s, 1);
    assert(s.take(0) =~= Seq::<u32>::empty());
}

/// One carry step of a limb-wise multiply-and-add.
proof fn lemma_carry_step(prev_new: int, prev_old: int, limb: int, m: int, a: int, carry: int, t: int, w: int)
    requires
        prev_new + carry * w == prev_old * m + a,
        t == limb * m + carry,
    ensures
        prev_new + (t % 0x1_0000_0000) * w + (t / 0x1_0000_0000) * (0x1_0000_0000 * w) == (prev_old
            + limb * w) * m + a,
{
    assert(t == (t / 0x1_0000_0000) * 0x1_0000_0000 + t % 0x1_0000_0000);
    assert((t % 0x1_0000_0000) * w + (t / 0x1_0000_0000) * (0x1_0000_0000 * w) == t * w)
        by (nonlinear_arith)
        requires
            t == (t / 0x1_0000_0000) * 0x1_0000_0000 + t % 0x1_0000_0000,
    ;
    assert(t * w == limb * m * w + carry * w) by (nonlinear_arith)
        requires
            t == limb * m + carry,
    ;
    assert((prev_old + limb * w) * m == prev_old * m + limb * m * w) by (nonlinear_arith);
}

/// Computes `limbs * m + a` over eight little-endian 32-bit limbs.
pub fn limbs_mul_small_add(limbs: [u32; 8], m: u32, a: u32) -> (r: [u32; 8])
    requires
        limbs_value(limbs@) * m + a < limb_scale(8),
    ensures
        limbs_value(r@) == limbs_value(limbs@) * m + a,
{
    let mut out: [u32; 8] = limbs;
    let mut carry: u64 = a as u64;
    let mut k: usize = 0;
    proof {
        assert(limbs@.take(0) =~= Seq::<u32>::empty());
        assert(out@.take(0) =~= Seq::<u32>::empty());
        assert(limbs_value(Seq::<u32>::empty()) == 0);
        assert(limb_scale(0) == 1);
    }
    while k < 8
        invariant
            0 <= k <= 8,
            carry < 0x1_0000_0000,
            forall|j: int| k <= j < 8 ==> out@[j] == limbs@[j],
            limbs_value(out@.take(k as int)) + carry * limb_scale(k as nat) == limbs_value(
                limbs@.take(k as int),
            ) * m + a,
        decreases 8 - k,
    {
        let limb = out[k];
        assert((limb as int) * (m as int) <= 0xffff_ffff * 0xffff_ffff) by (nonlinear_arith)
            requires
                limb <= 0xffff_ffff,
                m <= 0xffff_ffff,
        ;
        let t: u64 = (limb as u64) * (m as u64) + carry;
        let ghost prev_out = out@;
        out[k] = (t % 0x1_0000_0000) as u32;
        let next_carry: u64 = t / 0x1_0000_0000;
        proof {
            lemma_limbs_value_take(prev_out, k as int);
            lemma_limbs_value_take(out@, k as int);
            lemma_limbs_value_take(limbs@, k as int);
            assert(out@.take(k as int) =~= prev_out.take(k as int));
            lemma_carry_step(
                limbs_value(out@.take(k as int)) as int,
                limbs_value(limbs@.take(k as int)) as int,
                limb as int,
                m as int,
                a as int,
                carry as int,
                t as int,
                limb_scale(k as nat) as int,
            );
            assert(limb_scale((k + 1) as nat) == 0x1_0000_0000 * limb_scale(k as nat));
        }
        carry = next_carry;
        k = k + 1;
    }
    proof {
        assert(out@.take(8) =~= out@);
        assert(limbs@.take(8) =~= limbs@);
        lemma_limbs_value_bound(out@);
        if carry > 0 {
            assert(carry * limb_scale(8) >= limb_scale(8)) by (nonlinear_arith)
                requires
                    carry >= 1,
                    limb_scale(8) >= 1,
            ;
            lemma_limb_scale_pos(8);
        }
    }
    out
}

} // verus!
