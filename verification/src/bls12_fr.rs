use vstd::prelude::*;

use crate::radix::pow_nat;

verus! {

/// The order of the BLS12-381 scalar field.
pub open spec fn bls12_modulus() -> nat {
    0x73eda753299d7d483339d80809a1d80553bda402fffe5bfeffffffff00000001nat
}

/// The BLS12-381 scalar field order as 32 little-endian bytes.
pub const BLS12_MODULUS_LE: [u8; 32] = [
    0x01, 0x00, 0x00, 0x00, 0xff, 0xff, 0xff, 0xff, 0xfe, 0x5b, 0xfe, 0xff, 0x02, 0xa4, 0xbd, 0x53,
    0x05, 0xd8, 0xa1, 0x09, 0x08, 0xd8, 0x39, 0x33, 0x48, 0x7d, 0x9d, 0x29, 0x53, 0xa7, 0xed, 0x73,
];

/// The number denoted by little-endian bytes.
pub open spec fn le_bytes_value(bytes: Seq<u8>) -> nat
    decreases bytes.len(),
{
    if bytes.len() == 0 {
        0
    } else {
        (bytes[0] as nat) + 256 * le_bytes_value(bytes.drop_first())
    }
}

/// Splitting little-endian bytes at position `k`.
pub proof fn lemma_le_bytes_split(s: Seq<u8>, k: int)
    requires
        0 <= k <= s.len(),
    ensures
        le_bytes_value(s) == le_bytes_value(s.take(k)) + pow_nat(256, k as nat) * le_bytes_value(
            s.skip(k),
        ),
    decreases k,
{
    let goal = le_bytes_value(s.take(k)) + pow_nat(256, k as nat) * le_bytes_value(s.skip(k));
    if k == 0 {
        assert(s.take(0) =~= Seq::<u8>::empty());
        assert(s.skip(0) =~= s);
        assert(le_bytes_value(s.take(k)) == 0);
        let w = pow_nat(256, k as nat) as int;
        let v = le_bytes_value(s.skip(k)) as int;
        assert(w == 1);
        assert(w * v == v) by (nonlinear_arith)
            requires
                w == 1,
        ;
        assert(le_bytes_value(s) == goal);
    } else {
        let t = s.drop_first();
        lemma_le_bytes_split(t, k - 1);
        assert(t.skip(k - 1) =~= s.skip(k));
        assert(s.take(k).drop_first() =~= t.take(k - 1));
        let p = pow_nat(256, (k - 1) as nat) as int;
        let r = le_bytes_value(s.skip(k)) as int;
        let a = le_bytes_value(t.take(k - 1)) as int;
        let vt = le_bytes_value(t) as int;
        let s0 = s[0] as int;
        assert(le_bytes_value(s.take(k)) == s0 + 256 * a);
        assert(s0 + 256 * vt == (s0 + 256 * a) + (256 * p) * r) by (nonlinear_arith)
            requires
                vt == a + p * r,
        ;
        assert(le_bytes_value(s) == goal);
    }
}

/// `k` little-endian bytes denote a number below `256^k`.
pub proof fn lemma_le_bytes_bound(s: Seq<u8>)
    ensures
        le_bytes_value(s) < pow_nat(256, s.len()),
    decreases s.len(),
{
    if s.len() > 0 {
        lemma_le_bytes_bound(s.drop_first());
    }
}

/// Little-endian byte strings of one length compare as their highest
/// differing byte does.
proof fn lemma_le_bytes_lt(s: Seq<u8>, m: Seq<u8>, k: int)
    requires
        s.len() == m.len(),
        0 <= k < s.len(),
        s.skip(k + 1) == m.skip(k + 1),
        s[k] < m[k],
    ensures
        le_bytes_value(s) < le_bytes_value(m),
{
    lemma_le_bytes_split(s, k);
    lemma_le_bytes_split(m, k);
    lemma_le_bytes_bound(s.take(k));
    assert(s.skip(k).drop_first() =~= s.skip(k + 1));
    assert(m.skip(k).drop_first() =~= m.skip(k + 1));
    let p = pow_nat(256, k as nat) as int;
    let a = le_bytes_value(s.take(k)) as int;
    let b = le_bytes_value(m.take(k)) as int;
    let v = le_bytes_value(s.skip(k + 1)) as int;
    let x = s[k] as int;
    let y = m[k] as int;
    assert(a + p * (x + 256 * v) < b + p * (y + 256 * v)) by (nonlinear_arith)
        requires
            0 <= a < p,
            0 <= b,
            0 <= x < y,
            0 <= v,
    ;
}

/// An element of the BLS12-381 scalar field, held by its canonical
/// representative as 32 little-endian bytes.
#[derive(Clone, Copy, Debug, PartialEq, Eq)]
pub struct Bls12Fr {
    repr: [u8; 32],
}

impl View for Bls12Fr {
    type V = nat;

    closed spec fn view(&self) -> nat {
        le_bytes_value(self.repr@)
    }
}

impl Bls12Fr {
    #[verifier::type_invariant]
    spec fn is_canonical(self) -> bool {
        le_bytes_value(self.repr@) < bls12_modulus()
    }

    /// Whether `repr`, read little-endian, is below the field order.
    fn repr_is_canonical(repr: &[u8; 32]) -> (r: bool)
        ensures
            r == (le_bytes_value(repr@) < bls12_modulus()),
    {
        proof {
            reveal_with_fuel(le_bytes_value, 33);
            assert(le_bytes_value(BLS12_MODULUS_LE@) == bls12_modulus());
        }
        let mut k: usize = 32;
        proof {
            assert(repr@.skip(32) =~= BLS12_MODULUS_LE@.skip(32));
        }
        while k > 0
            invariant
                0 <= k <= 32,
                repr@.skip(k as int) == BLS12_MODULUS_LE@.skip(k as int),
                le_bytes_value(BLS12_MODULUS_LE@) == bls12_modulus(),
            decreases k,
        {
            let a = repr[k - 1];
            let b = BLS12_MODULUS_LE[k - 1];
            if a < b {
                proof {
                    lemma_le_bytes_lt(repr@, BLS12_MODULUS_LE@, k - 1);
                }
                return true;
            }
            if a > b {
                proof {
                    lemma_le_bytes_lt(BLS12_MODULUS_LE@, repr@, k - 1);
                }
                return false;
            }
            proof {
                assert(repr@.skip(k - 1) =~= seq![a] + repr@.skip(k as int));
                assert(BLS12_MODULUS_LE@.skip(k - 1) =~= seq![b] + BLS12_MODULUS_LE@.skip(k as int));
            }
            k = k - 1;
        }
        proof {
            assert(repr@ =~= repr@.skip(0));
            assert(BLS12_MODULUS_LE@ =~= BLS12_MODULUS_LE@.skip(0));
        }
        false
    }

    /// The element whose canonical little-endian representation is `repr`,
    /// or `None` when `repr` is not below the field order.
    pub fn from_repr(repr: [u8; 32]) -> (r: Option<Bls12Fr>)
        ensures
            r is Some <==> le_bytes_value(repr@) < bls12_modulus(),
            r matches Some(x) ==> x@ == le_bytes_value(repr@) && x.to_repr_spec() == repr,
    {
        if Self::repr_is_canonical(&repr) {
            Some(Bls12Fr { repr })
        } else {
            None
        }
    }

    /// The canonical little-endian representation.
    pub closed spec fn to_repr_spec(self) -> [u8; 32] {
        self.repr
    }

    /// The canonical little-endian representation.
    pub fn to_repr(&self) -> (r: [u8; 32])
        ensures
            r == self.to_repr_spec(),
            le_bytes_value(r@) == self@,
            self@ < bls12_modulus(),
    {
        proof {
            use_type_invariant(self);
        }
        self.repr
    }
}

} // verus!
