use vstd::prelude::*;

verus! {

/// The recursion configuration of the outer circuit: native field SECT,
/// emulated field BabyBear, extension field the degree-4 binomial extension
/// of BabyBear.
#[derive(Clone, Copy, Debug, Default, PartialEq, Eq)]
pub struct OuterConfig;

} // verus!
