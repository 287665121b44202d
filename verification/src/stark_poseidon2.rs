use vstd::prelude::*;

use crate::bls12_fr::{bls12_modulus, le_bytes_value, Bls12Fr};

verus! {

/// The little-endian bytes of the canonical representatives of row `row` of
/// zkhash's BLS12-381 width-3 Poseidon2 round constants (`RC3`).
pub uninterp spec fn zkhash_bls12_rc3(row: int) -> Seq<Seq<u8>>;

/// Reads zkhash's `poseidon2_instance_bls12::RC3` table and turns each
/// constant into the little-endian bytes of its canonical representative
/// (`into_bigint().to_bytes_le()` of ark-ff).
///
/// Trusted: the table has 64 rows of 3 constants (8 full and 56 partial
/// rounds), each constant gives 32 bytes (four 64-bit limbs) and, being
/// canonical, is below the BLS12-381 scalar field order; row `i` is
/// `zkhash_bls12_rc3(i)`.
#[verifier::external_body]
fn zkhash_rc3_bytes() -> (r: Vec<Vec<Vec<u8>>>)
    ensures
        r.len() == 64,
        forall|i: int| 0 <= i < r.len() ==> (#[trigger] r[i]).len() == 3,
        forall|i: int, j: int|
            0 <= i < r.len() && 0 <= j < 3 ==> (#[trigger] r[i][j])@.len() == 32 && le_bytes_value(
                r[i][j]@,
            ) < bls12_modulus(),
        forall|i: int| 0 <= i < r.len() ==> (#[trigger] r[i]).deep_view() == zkhash_bls12_rc3(i),
{
    zkhash::poseidon2::poseidon2_instance_bls12::RC3.iter().map(
        |row| row.iter().map(
            |c| zkhash::ark_ff::BigInteger::to_bytes_le(&zkhash::ark_ff::PrimeField::into_bigint(*c)),
        ).collect(),
    ).collect()
}

/// A constant's bytes are usable when they hold at least 32 bytes whose
/// low 32, read little-endian, are below the field order.
pub open spec fn constant_bytes_ok(bytes: Seq<u8>) -> bool {
    bytes.len() >= 32 && le_bytes_value(bytes.take(32)) < bls12_modulus()
}

/// A table is usable when every row holds three usable constants.
pub open spec fn table_ok(table: Seq<Vec<Vec<u8>>>) -> bool {
    forall|i: int|
        0 <= i < table.len() ==> (#[trigger] table[i]).len() == 3 && forall|j: int|
            0 <= j < 3 ==> constant_bytes_ok(#[trigger] table[i][j]@)
}

/// Builds the BLS12-381 element from the little-endian bytes of a canonical
/// integer, reading their low 32 bytes.
pub fn bn254_from_ark_ff(bytes: &Vec<u8>) -> (r: Bls12Fr)
    requires
        constant_bytes_ok(bytes@),
    ensures
        r@ == le_bytes_value(bytes@.take(32)),
{
    let mut res: [u8; 32] = [0u8; 32];
    let mut i: usize = 0;
    while i < 32
        invariant
            0 <= i <= 32,
            bytes@.len() >= 32,
            forall|k: int| 0 <= k < i ==> res@[k] == bytes@[k],
        decreases 32 - i,
    {
        res[i] = bytes[i];
        i = i + 1;
    }
    proof {
        assert(res@ =~= bytes@.take(32));
    }
    let value = Bls12Fr::from_repr(res);
    value.unwrap()
}

/// Converts a table of constant rows into BLS12-381 elements, row by row.
pub fn rc3_from_table(table: &Vec<Vec<Vec<u8>>>) -> (r: Vec<[Bls12Fr; 3]>)
    requires
        table_ok(table@),
    ensures
        r.len() == table.len(),
        forall|i: int, j: int|
            0 <= i < r.len() && 0 <= j < 3 ==> (#[trigger] r[i][j])@ == le_bytes_value(
                table[i][j]@.take(32),
            ),
{
    let mut out: Vec<[Bls12Fr; 3]> = Vec::new();
    let mut i: usize = 0;
    while i < table.len()
        invariant
            0 <= i <= table.len(),
            table_ok(table@),
            out.len() == i,
            forall|k: int, j: int|
                0 <= k < i && 0 <= j < 3 ==> (#[trigger] out[k][j])@ == le_bytes_value(
                    table[k][j]@.take(32),
                ),
        decreases table.len() - i,
    {
        let row = &table[i];
        proof {
            assert(constant_bytes_ok(table[i as int][0]@));
            assert(constant_bytes_ok(table[i as int][1]@));
            assert(constant_bytes_ok(table[i as int][2]@));
        }
        let a = bn254_from_ark_ff(&row[0]);
        let b = bn254_from_ark_ff(&row[1]);
        let c = bn254_from_ark_ff(&row[2]);
        out.push([a, b, c]);
        i = i + 1;
    }
    out
}

/// Converts a table of constant rows into width-4 rows, repeating the third
/// constant of each row as the fourth.
pub fn rc4_from_table(table: &Vec<Vec<Vec<u8>>>) -> (r: Vec<[Bls12Fr; 4]>)
    requires
        table_ok(table@),
    ensures
        r.len() == table.len(),
        forall|i: int, j: int|
            0 <= i < r.len() && 0 <= j < 3 ==> (#[trigger] r[i][j])@ == le_bytes_value(
                table[i][j]@.take(32),
            ),
        forall|i: int| 0 <= i < r.len() ==> (#[trigger] r[i])[3] == r[i][2],
{
    let mut out: Vec<[Bls12Fr; 4]> = Vec::new();
    let mut i: usize = 0;
    while i < table.len()
        invariant
            0 <= i <= table.len(),
            table_ok(table@),
            out.len() == i,
            forall|k: int, j: int|
                0 <= k < i && 0 <= j < 3 ==> (#[trigger] out[k][j])@ == le_bytes_value(
                    table[k][j]@.take(32),
                ),
            forall|k: int| 0 <= k < i ==> (#[trigger] out[k])[3] == out[k][2],
        decreases table.len() - i,
    {
        let row = &table[i];
        proof {
            assert(constant_bytes_ok(table[i as int][0]@));
            assert(constant_bytes_ok(table[i as int][1]@));
            assert(constant_bytes_ok(table[i as int][2]@));
        }
        let result: [Bls12Fr; 3] = [
            bn254_from_ark_ff(&row[0]),
            bn254_from_ark_ff(&row[1]),
            bn254_from_ark_ff(&row[2]),
        ];
        out.push([result[0], result[1], result[2], result[2]]);
        i = i + 1;
    }
    out
}

/// zkhash's table satisfies the conditions of the row converters.
proof fn lemma_zkhash_table_ok(table: Seq<Vec<Vec<u8>>>)
    requires
        forall|i: int| 0 <= i < table.len() ==> (#[trigger] table[i]).len() == 3,
        forall|i: int, j: int|
            0 <= i < table.len() && 0 <= j < 3 ==> (#[trigger] table[i][j])@.len() == 32
                && le_bytes_value(table[i][j]@) < bls12_modulus(),
    ensures
        table_ok(table),
{
    assert forall|i: int| 0 <= i < table.len() implies (#[trigger] table[i]).len() == 3 && forall|
        j: int,
    | 0 <= j < 3 ==> constant_bytes_ok(#[trigger] table[i][j]@) by {
        assert forall|j: int| 0 <= j < 3 implies constant_bytes_ok(#[trigger] table[i][j]@) by {
            assert(table[i][j]@.take(32) =~= table[i][j]@);
        }
    }
}

/// The Poseidon2 round constants for width 3 over BLS12-381, taken from
/// zkhash: 64 rows, entry `j` of row `i` being zkhash's constant.
pub fn bn254_poseidon2_rc3() -> (r: Vec<[Bls12Fr; 3]>)
    ensures
        r.len() == 64,
        forall|i: int, j: int|
            0 <= i < 64 && 0 <= j < 3 ==> (#[trigger] r[i][j])@ == le_bytes_value(
                zkhash_bls12_rc3(i)[j],
            ),
{
    let table = zkhash_rc3_bytes();
    proof {
        lemma_zkhash_table_ok(table@);
    }
    let r = rc3_from_table(&table);
    proof {
        assert forall|i: int, j: int| 0 <= i < 64 && 0 <= j < 3 implies (#[trigger] r[i][j])@
            == le_bytes_value(zkhash_bls12_rc3(i)[j]) by {
            assert(table[i][j]@.take(32) =~= table[i][j]@);
            assert(table[i].deep_view()[j] == table[i][j]@);
        }
    }
    r
}

/// The Poseidon2 round constants for width 4 over BLS12-381: zkhash's width-3
/// rows with the third constant repeated as the fourth.
pub fn bn254_poseidon2_rc4() -> (r: Vec<[Bls12Fr; 4]>)
    ensures
        r.len() == 64,
        forall|i: int, j: int|
            0 <= i < 64 && 0 <= j < 3 ==> (#[trigger] r[i][j])@ == le_bytes_value(
                zkhash_bls12_rc3(i)[j],
            ),
        forall|i: int| 0 <= i < 64 ==> (#[trigger] r[i])[3] == r[i][2],
{
    let table = zkhash_rc3_bytes();
    proof {
        lemma_zkhash_table_ok(table@);
    }
    let r = rc4_from_table(&table);
    proof {
        assert forall|i: int, j: int| 0 <= i < 64 && 0 <= j < 3 implies (#[trigger] r[i][j])@
            == le_bytes_value(zkhash_bls12_rc3(i)[j]) by {
            assert(table[i][j]@.take(32) =~= table[i][j]@);
            assert(table[i].deep_view()[j] == table[i][j]@);
        }
    }
    r
}

/// Every width-4 round-constant row agrees with the width-3 row on its
/// first three constants and repeats the third as the fourth.
pub proof fn law_rc4_extends_rc3(rc3: Seq<[Bls12Fr; 3]>, rc4: Seq<[Bls12Fr; 4]>)
    requires
        rc3.len() == 64,
        rc4.len() == 64,
        forall|i: int, j: int|
            0 <= i < 64 && 0 <= j < 3 ==> (#[trigger] rc3[i][j])@ == le_bytes_value(
                zkhash_bls12_rc3(i)[j],
            ),
        forall|i: int, j: int|
            0 <= i < 64 && 0 <= j < 3 ==> (#[trigger] rc4[i][j])@ == le_bytes_value(
                zkhash_bls12_rc3(i)[j],
            ),
        forall|i: int| 0 <= i < 64 ==> (#[trigger] rc4[i])[3] == rc4[i][2],
    ensures
        forall|i: int, j: int|
            0 <= i < 64 && 0 <= j < 3 ==> (#[trigger] rc4[i][j])@ == rc3[i][j]@,
        forall|i: int| 0 <= i < 64 ==> (#[trigger] rc4[i][3])@ == rc3[i][2]@,
{
    assert forall|i: int| 0 <= i < 64 implies (#[trigger] rc4[i][3])@ == rc3[i][2]@ by {
        assert(rc4[i][3] == rc4[i][2]);
        assert(rc4[i][2]@ == rc3[i][2]@);
    }
}

} // verus!
