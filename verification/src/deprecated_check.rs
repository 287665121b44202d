use vstd::prelude::*;

verus! {

/// Marks the retired `cuda` feature; the CUDA prover is supported by default.
pub fn cuda_is_deprecated() {
}

/// Shows the warning for the retired `cuda` feature.
pub fn show_cuda_warning() {
    cuda_is_deprecated();
}

} // verus!
