use vstd::arithmetic::power2::{lemma2_to64, lemma_pow2_adds, pow2};
use vstd::prelude::*;

verus! {

/// `b` raised to the power `e`.
pub open spec fn pow_nat(b: nat, e: nat) -> nat
    decreases e,
{
    if e == 0 {
        1
    } else {
        b * pow_nat(b, (e - 1) as nat)
    }
}

/// A power of a power of two is a power of two.
pub proof fn lemma_pow_nat_pow2(e: nat, k: nat)
    ensures
        pow_nat(pow2(e), k) == pow2(e * k),
    decreases k,
{
    if k == 0 {
        lemma2_to64();
        assert(e * k == 0) by (nonlinear_arith)
            requires
                k == 0,
        ;
    } else {
        lemma_pow_nat_pow2(e, (k - 1) as nat);
        assert(e * k == e + e * ((k - 1) as nat)) by (nonlinear_arith)
            requires
                k >= 1,
        ;
        lemma_pow2_adds(e, e * ((k - 1) as nat));
    }
}

/// Powers of a positive base grow with the exponent.
pub proof fn lemma_pow_mono(b: nat, e1: nat, e2: nat)
    requires
        b >= 1,
        e1 <= e2,
    ensures
        pow_nat(b, e1) <= pow_nat(b, e2),
    decreases e2,
{
    if e1 < e2 {
        lemma_pow_mono(b, e1, (e2 - 1) as nat);
        let p = pow_nat(b, (e2 - 1) as nat);
        assert(p <= b * p) by (nonlinear_arith)
            requires
                b >= 1,
        ;
    }
}

/// The number whose base-`base` digits are `digits`, most significant first.
pub open spec fn horner(digits: Seq<nat>, base: nat) -> nat
    decreases digits.len(),
{
    if digits.len() == 0 {
        0
    } else {
        horner(digits.drop_last(), base) * base + digits.last()
    }
}

/// Every digit of `digits` is below `base`.
pub open spec fn digits_below(digits: Seq<nat>, base: nat) -> bool {
    forall|i: int| 0 <= i < digits.len() ==> #[trigger] digits[i] < base
}

/// Appending a digit to a prefix is one Horner step.
pub proof fn lemma_horner_take(digits: Seq<nat>, base: nat, k: int)
    requires
        0 <= k < digits.len(),
    ensures
        horner(digits.take(k + 1), base) == horner(digits.take(k), base) * base + digits[k],
{
    assert(digits.take(k + 1).drop_last() =~= digits.take(k));
}

/// Dropping trailing digits never increases the number.
pub proof fn lemma_horner_prefix_le(digits: Seq<nat>, base: nat, k: int)
    requires
        base >= 1,
        0 <= k <= digits.len(),
    ensures
        horner(digits.take(k), base) <= horner(digits, base),
    decreases digits.len(),
{
    if k < digits.len() {
        let init = digits.drop_last();
        lemma_horner_prefix_le(init, base, k);
        assert(init.take(k) =~= digits.take(k));
        let h = horner(init, base) as int;
        assert(h <= h * base) by (nonlinear_arith)
            requires
                h >= 0,
                base >= 1,
        ;
    } else {
        assert(digits.take(k) =~= digits);
    }
}

/// A number of `n` digits below `base` is below `base^n`.
pub proof fn lemma_horner_bound(digits: Seq<nat>, base: nat)
    requires
        digits_below(digits, base),
    ensures
        horner(digits, base) < pow_nat(base, digits.len()),
    decreases digits.len(),
{
    if digits.len() > 0 {
        let init = digits.drop_last();
        assert(digits_below(init, base)) by {
            assert forall|i: int| 0 <= i < init.len() implies #[trigger] init[i] < base by {
                assert(init[i] == digits[i]);
            }
        }
        lemma_horner_bound(init, base);
        let h = horner(init, base) as int;
        let p = pow_nat(base, init.len()) as int;
        let d = digits.last() as int;
        assert(d < base);
        assert(h * base + d < base * p) by (nonlinear_arith)
            requires
                0 <= h < p,
                0 <= d < base,
        ;
    }
}

/// Base-`base` representations of a fixed length are unique.
pub proof fn lemma_horner_injective(d1: Seq<nat>, d2: Seq<nat>, base: nat)
    requires
        base > 0,
        d1.len() == d2.len(),
        digits_below(d1, base),
        digits_below(d2, base),
        horner(d1, base) == horner(d2, base),
    ensures
        d1 == d2,
    decreases d1.len(),
{
    if d1.len() > 0 {
        let i1 = d1.drop_last();
        let i2 = d2.drop_last();
        let h1 = horner(i1, base) as int;
        let h2 = horner(i2, base) as int;
        let x1 = d1.last() as int;
        let x2 = d2.last() as int;
        assert(x1 < base && x2 < base);
        vstd::arithmetic::div_mod::lemma_fundamental_div_mod_converse(
            h1 * base + x1,
            base as int,
            h1,
            x1,
        );
        vstd::arithmetic::div_mod::lemma_fundamental_div_mod_converse(
            h2 * base + x2,
            base as int,
            h2,
            x2,
        );
        assert(digits_below(i1, base)) by {
            assert forall|i: int| 0 <= i < i1.len() implies #[trigger] i1[i] < base by {
                assert(i1[i] == d1[i]);
            }
        }
        assert(digits_below(i2, base)) by {
            assert forall|i: int| 0 <= i < i2.len() implies #[trigger] i2[i] < base by {
                assert(i2[i] == d2[i]);
            }
        }
        lemma_horner_injective(i1, i2, base);
        assert(d1 =~= i1.push(d1.last()));
        assert(d2 =~= i2.push(d2.last()));
    } else {
        assert(d1 =~= d2);
    }
}

} // verus!
