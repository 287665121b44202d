use p3_field::PrimeField32;
use sp1_sect::baby_bear::{BabyBear, BABYBEAR_P};
use sp1_sect::circuit_utils::{
    babybear_bytes_to_bn254, babybears_to_bn254, felt_bytes_to_bn254_var, felts_to_bn254_var,
    words_to_bytes, Word,
};
use sp1_sect::sect_fr::SectFr;

fn bb(x: u32) -> BabyBear {
    BabyBear::from_canonical_u32(x)
}

fn bits31(x: u32) -> Vec<bool> {
    (0..31).map(|i| (x >> i) & 1 == 1).collect()
}

#[test]
fn babybears_to_bn254_places_last_word_lowest() {
    let digest = [bb(1), bb(0), bb(0), bb(0), bb(0), bb(0), bb(1), bb(2)];
    let r = babybears_to_bn254(&digest);
    // 1 * 2^196 + 1 * 2^28 + 2
    assert_eq!(r.to_limbs(), [0x1000_0002, 0, 0, 0, 0, 0, 0x10, 0]);
}

#[test]
fn babybears_to_bn254_masks_top_three_bits() {
    let digest = [bb(0), bb(0), bb(0), bb(0), bb(0), bb(0), bb(0), bb(0x7000_0005)];
    assert_eq!(babybears_to_bn254(&digest).to_limbs(), [5, 0, 0, 0, 0, 0, 0, 0]);
}

#[test]
fn babybears_to_bn254_all_max_fills_224_bits() {
    // 0x0FFF_FFFF in every word: all 224 low bits set.
    let digest = [bb(0x0FFF_FFFF); 8];
    assert_eq!(
        babybears_to_bn254(&digest).to_limbs(),
        [u32::MAX, u32::MAX, u32::MAX, u32::MAX, u32::MAX, u32::MAX, u32::MAX, 0]
    );
}

#[test]
fn babybears_to_bn254_zero_digest() {
    let digest = [bb(0); 8];
    assert_eq!(babybears_to_bn254(&digest), SectFr::zero());
}

#[test]
fn babybears_to_bn254_collides_only_on_masked_bits() {
    let a = [bb(3), bb(0), bb(0), bb(0), bb(0), bb(0), bb(0), bb(9)];
    let b = [bb(3 + 0x1000_0000), bb(0), bb(0), bb(0), bb(0), bb(0), bb(0), bb(9 + 0x3000_0000)];
    let c = [bb(3), bb(0), bb(0), bb(0), bb(0), bb(0), bb(0), bb(10)];
    assert_eq!(babybears_to_bn254(&a), babybears_to_bn254(&b));
    assert_ne!(babybears_to_bn254(&a), babybears_to_bn254(&c));
}

#[test]
fn babybear_bytes_to_bn254_packs_seven_bits() {
    let mut bytes = [bb(0); 32];
    bytes[31] = bb(0xff); // masked to 0x7f
    bytes[30] = bb(0x01); // 1 << 7
    bytes[0] = bb(0x02); // 2 << (7 * 31) = 2^218
    let r = babybear_bytes_to_bn254(&bytes);
    assert_eq!(r.to_limbs(), [0xff, 0, 0, 0, 0, 0, 1 << 26, 0]);
}

#[test]
fn babybear_bytes_to_bn254_all_ones() {
    let bytes = [bb(0x7f); 32];
    assert_eq!(
        babybear_bytes_to_bn254(&bytes).to_limbs(),
        [u32::MAX, u32::MAX, u32::MAX, u32::MAX, u32::MAX, u32::MAX, u32::MAX, 0]
    );
}

#[test]
fn canonical_values_agree_with_plonky3() {
    for x in [0u32, 1, 17, BABYBEAR_P - 1, BABYBEAR_P, BABYBEAR_P + 5, u32::MAX] {
        let ours = BabyBear::from_wrapped_u32(x).as_canonical_u32();
        let theirs = p3_baby_bear::BabyBear::new(x).as_canonical_u32();
        assert_eq!(ours, theirs);
    }
}

#[test]
fn felts_to_bn254_var_matches_native() {
    let words = [0x7800_0000u32, 5, 0x0FFF_FFFF, 0x1234_5678, 0, 1, 0x7000_0001, 42];
    let digest = words.map(bb);
    let bits = words.map(bits31);
    assert_eq!(felts_to_bn254_var(&bits), babybears_to_bn254(&digest));
}

#[test]
fn felt_bytes_to_bn254_var_matches_native_on_bytes() {
    let values: Vec<u32> = (0..32u32).map(|i| (i * 37 + 11) % 256).collect();
    let bytes: [BabyBear; 32] = std::array::from_fn(|i| bb(values[i]));
    let bits: [Vec<bool>; 32] = std::array::from_fn(|i| bits31(values[i]));
    assert_eq!(felt_bytes_to_bn254_var(&bits), babybear_bytes_to_bn254(&bytes));
}

#[test]
fn felt_bytes_to_bn254_var_keeps_bits_above_a_byte() {
    // A felt of 256 is not a byte: the circuit clears only bit 7 and keeps
    // bit 8, while the native packing masks to 7 bits.
    let mut bits: [Vec<bool>; 32] = std::array::from_fn(|_| bits31(0));
    bits[31] = bits31(256);
    assert_eq!(felt_bytes_to_bn254_var(&bits).to_limbs(), [256, 0, 0, 0, 0, 0, 0, 0]);
    let mut bytes = [bb(0); 32];
    bytes[31] = bb(256);
    assert_eq!(babybear_bytes_to_bn254(&bytes).to_limbs(), [0; 8]);
}

#[test]
fn words_to_bytes_flattens_in_order() {
    let words = [Word([1u8, 2, 3, 4]), Word([5, 6, 7, 8])];
    assert_eq!(words_to_bytes(&words), vec![1, 2, 3, 4, 5, 6, 7, 8]);
    let none: [Word<u8>; 0] = [];
    assert!(words_to_bytes(&none).is_empty());
}

#[test]
fn sect_constructors() {
    assert_eq!(SectFr::one().to_limbs(), [1, 0, 0, 0, 0, 0, 0, 0]);
    assert_eq!(SectFr::two().to_limbs(), [2, 0, 0, 0, 0, 0, 0, 0]);
    assert_eq!(
        SectFr::from_canonical_u64(1 << 40).to_limbs(),
        [0, 1 << 8, 0, 0, 0, 0, 0, 0]
    );
    let x = SectFr::from_canonical_u32(u32::MAX).mul_small_add(u32::MAX, 7);
    // (2^32 - 1)^2 + 7 = 2^64 - 2^33 + 8
    assert_eq!(x.to_limbs(), [8, 0xFFFF_FFFE, 0, 0, 0, 0, 0, 0]);
}
