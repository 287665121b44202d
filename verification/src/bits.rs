use vstd::arithmetic::power2::{lemma2_to64, lemma_pow2_unfold, pow2};
use vstd::prelude::*;

verus! {

/// Number of bits in the decomposition of a BabyBear element.
pub const NUM_BITS: usize = 31;

/// The number denoted by little-endian bits.
pub open spec fn bits_value(bits: Seq<bool>) -> nat
    decreases bits.len(),
{
    if bits.len() == 0 {
        0
    } else {
        (if bits[0] {
            1nat
        } else {
            0nat
        }) + 2 * bits_value(bits.drop_first())
    }
}

/// Splitting little-endian bits at position `k`.
pub proof fn lemma_bits_split(s: Seq<bool>, k: int)
    requires
        0 <= k <= s.len(),
    ensures
        bits_value(s) == bits_value(s.take(k)) + pow2(k as nat) * bits_value(s.skip(k)),
    decreases k,
{
    if k == 0 {
        lemma2_to64();
        assert(s.take(0) =~= Seq::<bool>::empty());
        assert(s.skip(0) =~= s);
    } else {
        let t = s.drop_first();
        lemma_bits_split(t, k - 1);
        assert(t.skip(k - 1) =~= s.skip(k));
        assert(s.take(k).drop_first() =~= t.take(k - 1));
        lemma_pow2_unfold(k as nat);
        let p = pow2((k - 1) as nat) as int;
        let r = bits_value(s.skip(k)) as int;
        assert(2 * (p * r) == (2 * p) * r) by (nonlinear_arith);
    }
}

/// `k` little-endian bits denote a number below `2^k`.
pub proof fn lemma_bits_bound(s: Seq<bool>)
    ensures
        bits_value(s) < pow2(s.len()),
    decreases s.len(),
{
    if s.len() == 0 {
        lemma2_to64();
    } else {
        lemma_bits_bound(s.drop_first());
        lemma_pow2_unfold(s.len());
    }
}

/// Bits that are all clear denote zero.
pub proof fn lemma_bits_all_clear(s: Seq<bool>)
    requires
        forall|i: int| 0 <= i < s.len() ==> !s[i],
    ensures
        bits_value(s) == 0,
    decreases s.len(),
{
    if s.len() > 0 {
        lemma_bits_all_clear(s.drop_first());
    }
}

/// The low `k` bits of a number are its remainder modulo `2^k`.
pub proof fn lemma_bits_low(s: Seq<bool>, k: int)
    requires
        0 <= k <= s.len(),
    ensures
        bits_value(s.take(k)) == bits_value(s) % pow2(k as nat),
{
    lemma_bits_split(s, k);
    lemma_bits_bound(s.take(k));
    vstd::arithmetic::power2::lemma_pow2_pos(k as nat);
    vstd::arithmetic::div_mod::lemma_fundamental_div_mod_converse(
        bits_value(s) as int,
        pow2(k as nat) as int,
        bits_value(s.skip(k)) as int,
        bits_value(s.take(k)) as int,
    );
}

/// Recomposes little-endian bits into the number they denote.
pub fn bits_to_u32(bits: &Vec<bool>) -> (r: u32)
    requires
        bits.len() <= 32,
    ensures
        r == bits_value(bits@),
{
    let n = bits.len();
    let mut acc: u32 = 0;
    let mut i: usize = n;
    proof {
        assert(bits@.skip(n as int) =~= Seq::<bool>::empty());
    }
    while i > 0
        invariant
            n == bits.len() <= 32,
            0 <= i <= n,
            acc == bits_value(bits@.skip(i as int)),
        decreases i,
    {
        let ghost prev = bits@.skip(i as int);
        proof {
            lemma_bits_bound(prev);
            assert(prev.len() == n - i);
            assert(n - i <= 31);
            if n - i < 31 {
                vstd::arithmetic::power2::lemma_pow2_strictly_increases((n - i) as nat, 31);
            }
            lemma2_to64();
            assert(bits@.skip(i - 1).drop_first() =~= prev);
        }
        let bit: u32 = if bits[i - 1] {
            1
        } else {
            0
        };
        acc = acc * 2 + bit;
        i = i - 1;
    }
    proof {
        assert(bits@.skip(0) =~= bits@);
    }
    acc
}

} // verus!
