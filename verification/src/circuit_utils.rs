use vstd::prelude::*;

use crate::baby_bear::BabyBear;
use crate::bits::{
    bits_to_u32, bits_value, lemma_bits_all_clear, lemma_bits_bound, lemma_bits_low, lemma_bits_split, NUM_BITS,
};
use crate::radix::{
    digits_below, horner, lemma_horner_bound, lemma_horner_injective, lemma_horner_prefix_le,
    lemma_horner_take, lemma_pow_mono, lemma_pow_nat_pow2,
    pow_nat,
};
use vstd::arithmetic::power2::pow2;
use crate::sect_fr::{sect_bound, SectFr};

verus! {

/// The low 28 bits of each digest word, first word first.
pub open spec fn word_digits(digest: Seq<BabyBear>) -> Seq<nat> {
    digest.map_values(|w: BabyBear| (w.canonical() % 0x1000_0000) as nat)
}

/// The low 7 bits of each byte, first byte first.
pub open spec fn byte_digits(bytes: Seq<BabyBear>) -> Seq<nat> {
    bytes.map_values(|b: BabyBear| (b.canonical() % 0x80) as nat)
}

/// The value of a digest packed 28 bits per word, the last word lowest.
pub open spec fn packed_words(digest: Seq<BabyBear>) -> nat {
    horner(word_digits(digest), 0x1000_0000)
}

/// The value of a byte string packed 7 bits per byte, the last byte lowest.
pub open spec fn packed_bytes(bytes: Seq<BabyBear>) -> nat {
    horner(byte_digits(bytes), 0x80)
}

proof fn lemma_word_digits_below(digest: Seq<BabyBear>)
    ensures
        digits_below(word_digits(digest), 0x1000_0000),
{
}

proof fn lemma_byte_digits_below(bytes: Seq<BabyBear>)
    ensures
        digits_below(byte_digits(bytes), 0x80),
{
}

/// Converts 8 BabyBear words into a SECT field element by shifting by 28
/// bits for each word and adding its low 28 bits; the last word becomes the
/// least significant bits, and the result has at most 224 bits.
pub fn babybears_to_bn254(digest: &[BabyBear; 8]) -> (r: SectFr)
    ensures
        r@ == packed_words(digest@),
        r@ < pow2(224),
{
    let ghost digits = word_digits(digest@);
    let mut result = SectFr::zero();
    proof {
        assert(digits.take(0) =~= Seq::<nat>::empty());
        lemma_word_digits_below(digest@);
        lemma_pow_nat_pow2(28, 8);
        vstd::arithmetic::power2::lemma2_to64();
    }
    let mut i: usize = 0;
    while i < 8
        invariant
            0 <= i <= 8,
            digits == word_digits(digest@),
            digits_below(digits, 0x1000_0000),
            result@ == horner(digits.take(i as int), 0x1000_0000),
            pow_nat(0x1000_0000, 8) == sect_bound(),
        decreases 8 - i,
    {
        let word = digest[i].as_canonical_u32();
        let masked_val_u32: u32 = word & 0x0FFF_FFFF;
        proof {
            assert(word & 0x0FFF_FFFF == word % 0x1000_0000) by (bit_vector);
            assert(digits[i as int] == masked_val_u32);
            lemma_horner_take(digits, 0x1000_0000, i as int);
            let next = digits.take(i + 1);
            assert(digits_below(next, 0x1000_0000)) by {
                assert forall|j: int| 0 <= j < next.len() implies #[trigger] next[j] < 0x1000_0000 by {
                    assert(next[j] == digits[j]);
                }
            }
            lemma_horner_bound(next, 0x1000_0000);
            lemma_pow_mono(0x1000_0000, (i + 1) as nat, 8);
        }
        result = result.mul_small_add(0x1000_0000, masked_val_u32);
        i = i + 1;
    }
    proof {
        assert(digits.take(8) =~= digits);
        lemma_horner_bound(digits, 0x1000_0000);

    }
    result
}

/// Converts 32 BabyBear bytes into a SECT field element by shifting by 7
/// bits for each byte and adding its low 7 bits (the most significant bit of
/// every byte is masked); the last byte becomes the least significant bits.
pub fn babybear_bytes_to_bn254(bytes: &[BabyBear; 32]) -> (r: SectFr)
    ensures
        r@ == packed_bytes(bytes@),
        r@ < pow2(224),
{
    let ghost digits = byte_digits(bytes@);
    let mut result = SectFr::zero();
    proof {
        assert(digits.take(0) =~= Seq::<nat>::empty());
        lemma_byte_digits_below(bytes@);
        lemma_pow_nat_pow2(7, 32);
        vstd::arithmetic::power2::lemma2_to64();
    }
    let mut i: usize = 0;
    while i < 32
        invariant
            0 <= i <= 32,
            digits == byte_digits(bytes@),
            digits_below(digits, 0x80),
            result@ == horner(digits.take(i as int), 0x80),
            pow_nat(0x80, 32) == sect_bound(),
        decreases 32 - i,
    {
        let byte = bytes[i].as_canonical_u32();
        let masked: u32 = byte & 0x7f;
        proof {
            assert(byte & 0x7f == byte % 0x80) by (bit_vector);
            assert(digits[i as int] == masked);
            lemma_horner_take(digits, 0x80, i as int);
            let next = digits.take(i + 1);
            assert(digits_below(next, 0x80)) by {
                assert forall|j: int| 0 <= j < next.len() implies #[trigger] next[j] < 0x80 by {
                    assert(next[j] == digits[j]);
                }
            }
            lemma_horner_bound(next, 0x80);
            lemma_pow_mono(0x80, (i + 1) as nat, 32);
        }
        result = result.mul_small_add(0x80, masked);
        i = i + 1;
    }
    proof {
        assert(digits.take(32) =~= digits);
        lemma_horner_bound(digits, 0x80);
    }
    result
}

/// The low 28 bits of each word's bit decomposition, first word first.
pub open spec fn circuit_word_digits(digest_bits: Seq<Vec<bool>>) -> Seq<nat> {
    digest_bits.map_values(|b: Vec<bool>| bits_value(b@.take(28)))
}

/// Each byte's bit decomposition with bit 7 cleared, first byte first.
pub open spec fn circuit_byte_digits(bytes_bits: Seq<Vec<bool>>) -> Seq<nat> {
    bytes_bits.map_values(|b: Vec<bool>| bits_value(b@.update(7, false)))
}

/// Witness of the in-circuit digest packing: given the `NUM_BITS`-bit
/// little-endian decomposition of each of the 8 digest words, clears bits
/// 28, 29 and 30 of each, recomposes it, and accumulates the words 28 bits
/// apart, the last word lowest.
pub fn felts_to_bn254_var(digest_bits: &[Vec<bool>; 8]) -> (r: SectFr)
    requires
        forall|i: int| 0 <= i < 8 ==> (#[trigger] digest_bits[i])@.len() == NUM_BITS,
    ensures
        r@ == horner(circuit_word_digits(digest_bits@), 0x1000_0000),
        r@ < pow2(224),
{
    let ghost digits = circuit_word_digits(digest_bits@);
    let mut result = SectFr::zero();
    proof {
        assert(digits.take(0) =~= Seq::<nat>::empty());
        lemma_pow_nat_pow2(28, 8);
        vstd::arithmetic::power2::lemma2_to64();
        assert(digits_below(digits, 0x1000_0000)) by {
            assert forall|k: int| 0 <= k < digits.len() implies #[trigger] digits[k] < 0x1000_0000 by {
                lemma_bits_bound(digest_bits@[k]@.take(28));
            }
        }
    }
    let mut i: usize = 0;
    while i < 8
        invariant
            0 <= i <= 8,
            forall|k: int| 0 <= k < 8 ==> (#[trigger] digest_bits[k])@.len() == NUM_BITS,
            digits == circuit_word_digits(digest_bits@),
            digits_below(digits, 0x1000_0000),
            result@ == horner(digits.take(i as int), 0x1000_0000),
            pow_nat(0x1000_0000, 8) == sect_bound(),
            pow2(28) == 0x1000_0000,
        decreases 8 - i,
    {
        let mut all_bits: Vec<bool> = digest_bits[i].clone();
        proof {
            assert(all_bits@ =~= digest_bits@[i as int]@);
        }
        let ghost orig = all_bits@;
        let mut j: usize = 0;
        while j < 3
            invariant
                0 <= j <= 3,
                orig.len() == NUM_BITS,
                all_bits@.len() == NUM_BITS,
                forall|k: int| 0 <= k < NUM_BITS - j ==> all_bits@[k] == orig[k],
                forall|k: int| NUM_BITS - j <= k < NUM_BITS ==> !all_bits@[k],
            decreases 3 - j,
        {
            all_bits.set(NUM_BITS - j - 1, false);
            j = j + 1;
        }
        let word_var = bits_to_u32(&all_bits);
        proof {
            lemma_bits_split(all_bits@, 28);
            assert forall|k: int| 0 <= k < all_bits@.skip(28).len() implies !#[trigger] all_bits@.skip(
                28,
            )[k] by {
                assert(all_bits@.skip(28)[k] == all_bits@[28 + k]);
            }
            lemma_bits_all_clear(all_bits@.skip(28));
            assert(pow2(28) * bits_value(all_bits@.skip(28)) == 0);
            assert(all_bits@.take(28) =~= orig.take(28));
            assert(bits_value(all_bits@) == bits_value(orig.take(28)));
            assert(orig == digest_bits@[i as int]@);
            assert(digits[i as int] == bits_value(digest_bits@[i as int]@.take(28)));
            assert(digits[i as int] == word_var);
            lemma_horner_take(digits, 0x1000_0000, i as int);
            let next = digits.take(i + 1);
            assert(digits_below(next, 0x1000_0000)) by {
                assert forall|k: int| 0 <= k < next.len() implies #[trigger] next[k] < 0x1000_0000 by {
                    assert(next[k] == digits[k]);
                }
            }
            lemma_horner_bound(next, 0x1000_0000);
            lemma_pow_mono(0x1000_0000, (i + 1) as nat, 8);
            assert(digits.take(0) =~= Seq::<nat>::empty());
        }
        if i == 0 {
            result = SectFr::from_canonical_u32(word_var);
        } else {
            result = result.mul_small_add(0x1000_0000, word_var);
        }
        i = i + 1;
    }
    proof {
        assert(digits.take(8) =~= digits);
        lemma_horner_bound(digits, 0x1000_0000);
    }
    result
}

/// Witness of the in-circuit byte packing: given the `NUM_BITS`-bit
/// little-endian decomposition of each of the 32 bytes, clears bit 7 of each,
/// recomposes it, and accumulates the bytes 7 bits apart, the last byte
/// lowest.  The packed value must stay below `2^224`, which holds whenever
/// every input is a byte.
pub fn felt_bytes_to_bn254_var(bytes_bits: &[Vec<bool>; 32]) -> (r: SectFr)
    requires
        forall|i: int| 0 <= i < 32 ==> (#[trigger] bytes_bits[i])@.len() == NUM_BITS,
        horner(circuit_byte_digits(bytes_bits@), 0x80) < pow2(224),
    ensures
        r@ == horner(circuit_byte_digits(bytes_bits@), 0x80),
{
    let ghost digits = circuit_byte_digits(bytes_bits@);
    let mut result = SectFr::zero();
    proof {
        assert(digits.take(0) =~= Seq::<nat>::empty());
    }
    let mut i: usize = 0;
    while i < 32
        invariant
            0 <= i <= 32,
            forall|k: int| 0 <= k < 32 ==> (#[trigger] bytes_bits[k])@.len() == NUM_BITS,
            digits == circuit_byte_digits(bytes_bits@),
            horner(digits, 0x80) < sect_bound(),
            result@ == horner(digits.take(i as int), 0x80),
        decreases 32 - i,
    {
        let mut byte_bits: Vec<bool> = bytes_bits[i].clone();
        proof {
            assert(byte_bits@ =~= bytes_bits@[i as int]@);
        }
        byte_bits.set(7, false);
        let byte_var = bits_to_u32(&byte_bits);
        proof {
            assert(byte_bits@ =~= bytes_bits@[i as int]@.update(7, false));
            assert(digits[i as int] == byte_var);
            lemma_horner_take(digits, 0x80, i as int);
            lemma_horner_prefix_le(digits, 0x80, i + 1);
            assert(digits.take(0) =~= Seq::<nat>::empty());
        }
        if i == 0 {
            result = SectFr::from_canonical_u32(byte_var);
        } else {
            result = result.mul_small_add(0x80, byte_var);
        }
        i = i + 1;
    }
    proof {
        assert(digits.take(32) =~= digits);
    }
    result
}

/// Two digests pack to the same element exactly when every pair of
/// corresponding words agrees on its low 28 bits.
pub proof fn law_packed_words_injective(d1: Seq<BabyBear>, d2: Seq<BabyBear>)
    requires
        d1.len() == d2.len(),
    ensures
        packed_words(d1) == packed_words(d2) <==> word_digits(d1) == word_digits(d2),
{
    lemma_word_digits_below(d1);
    lemma_word_digits_below(d2);
    if packed_words(d1) == packed_words(d2) {
        lemma_horner_injective(word_digits(d1), word_digits(d2), 0x1000_0000);
    }
}

/// Two byte strings pack to the same element exactly when every pair of
/// corresponding bytes agrees on its low 7 bits.
pub proof fn law_packed_bytes_injective(b1: Seq<BabyBear>, b2: Seq<BabyBear>)
    requires
        b1.len() == b2.len(),
    ensures
        packed_bytes(b1) == packed_bytes(b2) <==> byte_digits(b1) == byte_digits(b2),
{
    lemma_byte_digits_below(b1);
    lemma_byte_digits_below(b2);
    if packed_bytes(b1) == packed_bytes(b2) {
        lemma_horner_injective(byte_digits(b1), byte_digits(b2), 0x80);
    }
}

/// The in-circuit digest packing computes the same element as the native
/// one when each word is given by its bit decomposition.
pub proof fn law_felts_var_matches_native(digest: Seq<BabyBear>, digest_bits: Seq<Vec<bool>>)
    requires
        digest.len() == digest_bits.len(),
        forall|i: int| 0 <= i < digest.len() ==> (#[trigger] digest_bits[i])@.len() == NUM_BITS,
        forall|i: int|
            0 <= i < digest.len() ==> bits_value((#[trigger] digest_bits[i])@)
                == digest[i].canonical(),
    ensures
        horner(circuit_word_digits(digest_bits), 0x1000_0000) == packed_words(digest),
{
    vstd::arithmetic::power2::lemma2_to64();
    assert forall|i: int| 0 <= i < digest.len() implies #[trigger] circuit_word_digits(
        digest_bits,
    )[i] == word_digits(digest)[i] by {
        lemma_bits_low(digest_bits[i]@, 28);
    }
    assert(circuit_word_digits(digest_bits) =~= word_digits(digest));
}

/// The in-circuit byte packing computes the same element as the native one
/// when each input is a byte given by its bit decomposition.
pub proof fn law_felt_bytes_var_matches_native(bytes: Seq<BabyBear>, bytes_bits: Seq<Vec<bool>>)
    requires
        bytes.len() == bytes_bits.len(),
        forall|i: int| 0 <= i < bytes.len() ==> (#[trigger] bytes_bits[i])@.len() == NUM_BITS,
        forall|i: int|
            0 <= i < bytes.len() ==> bits_value((#[trigger] bytes_bits[i])@)
                == bytes[i].canonical(),
        forall|i: int| 0 <= i < bytes.len() ==> (#[trigger] bytes[i]).canonical() < 0x100,
    ensures
        horner(circuit_byte_digits(bytes_bits), 0x80) == packed_bytes(bytes),
{
    vstd::arithmetic::power2::lemma2_to64();
    assert forall|i: int| 0 <= i < bytes.len() implies #[trigger] circuit_byte_digits(
        bytes_bits,
    )[i] == byte_digits(bytes)[i] by {
        let b = bytes_bits[i]@;
        let u = b.update(7, false);
        assert(bytes[i].canonical() < 0x100);
        lemma_bits_split(b, 8);
        lemma_bits_split(u, 8);
        assert(u.skip(8) =~= b.skip(8));
        let hi = bits_value(b.skip(8)) as int;
        assert(hi == 0) by (nonlinear_arith)
            requires
                0 <= hi,
                bits_value(b) == bits_value(b.take(8)) + 0x100 * hi,
                bits_value(b) < 0x100,
        ;
        let u8s = u.take(8);
        lemma_bits_split(u8s, 7);
        assert(u8s.skip(7) =~= seq![false]);
        assert(bits_value(seq![false]) == 0) by {
            reveal_with_fuel(bits_value, 2);
        }
        assert(u8s.take(7) =~= b.take(7));
        assert(bits_value(u8s.skip(7)) == 0);
        assert(pow2(7) * bits_value(u8s.skip(7)) == 0);
        lemma_bits_low(b, 7);
        assert(bits_value(u) == bits_value(u8s));
        assert(bits_value(u8s) == bits_value(b.take(7)));
        assert(bits_value(u) == bytes[i].canonical() % 0x80);
        assert(circuit_byte_digits(bytes_bits)[i] == bits_value(u));
    }
    assert(circuit_byte_digits(bytes_bits) =~= byte_digits(bytes));
}

/// A word of four values.
#[derive(Clone, Copy, Debug, PartialEq, Eq)]
pub struct Word<T>(pub [T; 4]);

/// The values of the words, word after word.
pub fn words_to_bytes<T: Copy>(words: &[Word<T>]) -> (r: Vec<T>)
    requires
        4 * words@.len() <= usize::MAX,
    ensures
        r@.len() == 4 * words@.len(),
        forall|i: int, j: int|
            #![trigger words@[i].0[j]]
            0 <= i < words@.len() && 0 <= j < 4 ==> r@[4 * i + j] == words@[i].0[j],
{
    let mut out: Vec<T> = Vec::new();
    let mut i: usize = 0;
    while i < words.len()
        invariant
            0 <= i <= words@.len(),
            4 * words@.len() <= usize::MAX,
            out@.len() == 4 * i,
            forall|k: int, j: int|
                #![trigger words@[k].0[j]]
                0 <= k < i && 0 <= j < 4 ==> out@[4 * k + j] == words@[k].0[j],
        decreases words@.len() - i,
    {
        let w = words[i];
        out.push(w.0[0]);
        out.push(w.0[1]);
        out.push(w.0[2]);
        out.push(w.0[3]);
        i = i + 1;
    }
    out
}

} // verus!
