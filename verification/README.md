# sp1_sect

Verified pieces of an SP1 recursion stack whose outer circuit works over the
SECT field, and of its CPU prover.

- `src/circuit_utils.rs`: packing a BabyBear digest (28 bits per word) or
  byte string (7 bits per byte) into one SECT element, natively and as the
  witness of the in-circuit version, with the laws relating them.
- `src/sect_fr.rs`, `src/limbs.rs`, `src/radix.rs`, `src/bits.rs`,
  `src/baby_bear.rs`: the field elements and the number representations the
  packing is proved over.
- `src/bls12_fr.rs`, `src/stark_poseidon2.rs`: canonical BLS12-381 scalars and
  the Poseidon2 round constants taken from zkhash.
- `src/sect_poseidon2.rs`: the SECT width-3 diffusion diagonal.
- `src/prove_flow.rs`, `src/cpu_prover.rs`: the decisions of the CPU prover's
  proving pipeline as a state machine, and its verification routes.
- `src/fibonacci_program.rs`: the computation of the Fibonacci guest program.
- `app/lib.rs`: conversions from Plonky3 elements, serde copies, and the
  drivers that perform the outside proving work the state machine asks for.
