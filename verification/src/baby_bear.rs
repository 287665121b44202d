use vstd::prelude::*;

verus! {

/// The BabyBear prime `15 * 2^27 + 1`.
pub const BABYBEAR_P: u32 = 2013265921u32;

/// An element of the BabyBear field, held by its canonical representative.
#[derive(Clone, Copy, Debug, PartialEq, Eq)]
pub struct BabyBear {
    value: u32,
}

impl BabyBear {
    #[verifier::type_invariant]
    spec fn is_canonical(self) -> bool {
        self.value < BABYBEAR_P
    }

    /// The canonical representative, in `[0, p)`.
    pub closed spec fn canonical(self) -> u32 {
        self.value
    }

    /// The element whose canonical representative is `n`.
    pub fn from_canonical_u32(n: u32) -> (r: BabyBear)
        requires
            n < BABYBEAR_P,
        ensures
            r.canonical() == n,
    {
        BabyBear { value: n }
    }

    /// The element congruent to `n` modulo p.
    pub fn from_wrapped_u32(n: u32) -> (r: BabyBear)
        ensures
            r.canonical() == n % BABYBEAR_P,
    {
        BabyBear { value: n % BABYBEAR_P }
    }

    /// The canonical representative, in `[0, p)`.
    pub fn as_canonical_u32(&self) -> (r: u32)
        ensures
            r == self.canonical(),
            r < BABYBEAR_P,
    {
        proof {
            use_type_invariant(self);
        }
        self.value
    }
}

} // verus!
