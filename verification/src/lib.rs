//! Verified core of the SP1 recursion and SDK pieces that bridge BabyBear
//! digests into the outer SECT field, derive the BLS12-381 Poseidon2 round
//! constants, and drive the CPU prover's proving pipeline.
pub mod limbs;
pub mod sect_fr;
pub mod radix;
pub mod bits;
pub mod baby_bear;
pub mod circuit_utils;
pub mod bls12_fr;
pub mod stark_poseidon2;
pub mod prove_flow;
pub mod cpu_prover;
pub mod sect_poseidon2;
pub mod config;
pub mod deprecated_check;
pub mod fibonacci_program;
