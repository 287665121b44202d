use vstd::prelude::*;

use crate::sect_fr::SectFr;

verus! {

/// Diffusion matrix for SECT: the width-3 internal layer of Poseidon2, given
/// by the diagonal of its matrix minus the identity.
#[derive(Clone, Copy, Debug, Default, PartialEq, Eq)]
pub struct DiffusionMatrixSECT;

/// The diagonal `[1, 1, 2]` of the width-3 internal matrix minus the identity.
pub fn get_diffusion_matrix_3() -> (r: [SectFr; 3])
    ensures
        r[0]@ == 1,
        r[1]@ == 1,
        r[2]@ == 2,
{
    [SectFr::one(), SectFr::one(), SectFr::two()]
}

/// The Poseidon2 internal layer with diagonal `diag` (the internal matrix
/// minus the identity): each entry is scaled by its diagonal entry, then the
/// sum of the old entries is added.
pub open spec fn internal_layer(state: Seq<int>, diag: Seq<int>) -> Seq<int> {
    Seq::new(
        state.len(),
        |i: int| state[i] * diag[i] + state.fold_left(0int, |acc: int, x: int| acc + x),
    )
}

/// With the SECT diagonal `[1, 1, 2]` the internal layer multiplies the
/// state by the matrix `[[2, 1, 1], [1, 2, 1], [1, 1, 3]]`.
pub proof fn law_diffusion_matrix_3(diag: [SectFr; 3], s0: int, s1: int, s2: int)
    requires
        diag[0]@ == 1,
        diag[1]@ == 1,
        diag[2]@ == 2,
    ensures
        internal_layer(seq![s0, s1, s2], seq![diag[0]@ as int, diag[1]@ as int, diag[2]@ as int])
            == seq![2 * s0 + s1 + s2, s0 + 2 * s1 + s2, s0 + s1 + 3 * s2],
{
    let s = seq![s0, s1, s2];
    reveal_with_fuel(Seq::fold_left, 4);
    assert(s.drop_last() =~= seq![s0, s1]);
    assert(s.drop_last().drop_last() =~= seq![s0]);
    assert(s.drop_last().drop_last().drop_last() =~= Seq::<int>::empty());
    assert(s.fold_left(0int, |acc: int, x: int| acc + x) == s0 + s1 + s2);
    let d = seq![diag[0]@ as int, diag[1]@ as int, diag[2]@ as int];
    assert(d[0] == 1 && d[1] == 1 && d[2] == 2);
    let out = internal_layer(s, d);
    assert(out[0] == s0 * 1 + (s0 + s1 + s2));
    assert(out[1] == s1 * 1 + (s0 + s1 + s2));
    assert(out[2] == s2 * 2 + (s0 + s1 + s2));
    assert(out =~= seq![
        2 * s0 + s1 + s2,
        s0 + 2 * s1 + s2,
        s0 + s1 + 3 * s2,
    ]);
}

} // verus!
