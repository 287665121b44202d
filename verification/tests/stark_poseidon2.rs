use p3_field::PrimeField32;
use zkhash::ark_ff::PrimeField;
use sp1_sect::bls12_fr::{Bls12Fr, BLS12_MODULUS_LE};
use sp1_sect::sect_poseidon2::get_diffusion_matrix_3;
use sp1_sect::stark_poseidon2::{
    bn254_from_ark_ff, bn254_poseidon2_rc3, bn254_poseidon2_rc4, rc3_from_table, rc4_from_table,
};

fn le_from_hex(hex: &str) -> [u8; 32] {
    let mut out = [0u8; 32];
    let digits = hex.trim_start_matches("0x");
    for i in 0..32 {
        let byte = u8::from_str_radix(&digits[2 * i..2 * i + 2], 16).unwrap();
        out[31 - i] = byte;
    }
    out
}

#[test]
fn rc3_has_zkhash_constants() {
    let rc3 = bn254_poseidon2_rc3();
    assert_eq!(rc3.len(), 64);
    assert_eq!(
        rc3[0][0].to_repr(),
        le_from_hex("0x6f007a551156b3a449e44936b7c093644a0ed33f33eaccc628e942e836c1a875")
    );
    assert_eq!(
        rc3[1][2].to_repr(),
        le_from_hex("0x2bab94d7ae222d135dc3c6c5febfaa314908ac2f12ebe06fbdb74213bf63188b")
    );
    assert_eq!(
        rc3[63][2].to_repr(),
        le_from_hex("0x4d7f5dcd78ece9a933984de32c0b48fac2bba91f261996b8e9d1021773bd07cc")
    );
}

#[test]
fn rc4_repeats_third_constant() {
    let rc3 = bn254_poseidon2_rc3();
    let rc4 = bn254_poseidon2_rc4();
    assert_eq!(rc4.len(), rc3.len());
    for (a, b) in rc3.iter().zip(rc4.iter()) {
        assert_eq!([b[0], b[1], b[2]], *a);
        assert_eq!(b[3], b[2]);
    }
}

#[test]
fn from_repr_rejects_the_modulus() {
    assert!(Bls12Fr::from_repr(BLS12_MODULUS_LE).is_none());
    let mut below = BLS12_MODULUS_LE;
    below[0] -= 1;
    assert_eq!(Bls12Fr::from_repr(below).unwrap().to_repr(), below);
    assert!(Bls12Fr::from_repr([0xff; 32]).is_none());
    assert!(Bls12Fr::from_repr([0; 32]).is_some());
    let mut above = BLS12_MODULUS_LE;
    above[4] = 0; // lower in a middle byte, higher bytes equal: still below
    assert!(Bls12Fr::from_repr(above).is_some());
    let mut high = [0u8; 32];
    high[31] = 0x74;
    assert!(Bls12Fr::from_repr(high).is_none());
}

#[test]
fn from_ark_ff_reads_low_32_bytes() {
    let mut bytes = vec![0u8; 40];
    bytes[0] = 7;
    bytes[35] = 0xff;
    let mut expected = [0u8; 32];
    expected[0] = 7;
    assert_eq!(bn254_from_ark_ff(&bytes).to_repr(), expected);
}

#[test]
fn tables_convert_row_by_row() {
    let row = |a: u8, b: u8, c: u8| vec![vec![a; 1].into_iter().chain(vec![0u8; 31]).collect::<Vec<u8>>(),
        vec![b; 1].into_iter().chain(vec![0u8; 31]).collect(),
        vec![c; 1].into_iter().chain(vec![0u8; 31]).collect()];
    let table = vec![row(1, 2, 3), row(4, 5, 6)];
    let rc3 = rc3_from_table(&table);
    let rc4 = rc4_from_table(&table);
    assert_eq!(rc3.len(), 2);
    assert_eq!(rc3[1][1].to_repr()[0], 5);
    assert_eq!(rc4[0][3].to_repr()[0], 3);
    assert!(rc3_from_table(&vec![]).is_empty());
}

#[test]
fn diffusion_diagonal_matches_zkhash() {
    let diag = get_diffusion_matrix_3();
    let limbs: Vec<u32> = diag.iter().map(|x| x.to_limbs()[0]).collect();
    assert_eq!(limbs, vec![1, 1, 2]);
    for x in diag.iter() {
        assert_eq!(&x.to_limbs()[1..], &[0u32; 7]);
    }
    let reference: Vec<u64> = zkhash::poseidon2::poseidon2_instance_bn256::MAT_DIAG3_M_1
        .iter()
        .map(|c| c.into_bigint().0[0])
        .collect();
    assert_eq!(reference, vec![1, 1, 2]);
}

#[test]
fn plonky3_internal_layer_with_diagonal_is_the_matrix() {
    let diag: Vec<p3_baby_bear::BabyBear> = get_diffusion_matrix_3().iter().map(|x| p3_baby_bear::BabyBear::new(x.to_limbs()[0])).collect();
    let (s0, s1, s2) = (11u32, 1000, 123_456);
    let mut state = [p3_baby_bear::BabyBear::new(s0), p3_baby_bear::BabyBear::new(s1), p3_baby_bear::BabyBear::new(s2)];
    p3_poseidon2::matmul_internal::<p3_baby_bear::BabyBear, p3_baby_bear::BabyBear, 3>(&mut state, [diag[0], diag[1], diag[2]]);
    let got: Vec<u32> = state.iter().map(|x| x.as_canonical_u32()).collect();
    assert_eq!(got, vec![2 * s0 + s1 + s2, s0 + 2 * s1 + s2, s0 + s1 + 3 * s2]);
}
