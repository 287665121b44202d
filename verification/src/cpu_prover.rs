use vstd::prelude::*;

use crate::prove_flow::{prove_inputs_ok, ProveFlow, SP1ProofMode};

verus! {

/// The kind of proof held in a proof bundle.
#[derive(Clone, Copy, Debug, PartialEq, Eq)]
pub enum SP1ProofKind {
    Core,
    Compressed,
    Plonk,
    Groth16,
}

/// How a proof bundle is to be checked.
#[derive(Clone, Copy, Debug, PartialEq, Eq)]
pub enum VerifyRoute {
    /// Verify the proof itself against the verifying key.
    Full,
    /// Only check the Plonk proof's public inputs against the key and values.
    PlonkPublicInputs,
    /// Only check the Groth16 proof's public inputs against the key and values.
    Groth16PublicInputs,
    /// Accept without checking.
    Accept,
}

/// The settings of a proof request before it runs.
#[derive(Clone, Copy, Debug, PartialEq, Eq)]
pub struct ProveRequest {
    pub mode: SP1ProofMode,
    pub mock: bool,
    /// Whether stdin holds a compressed proof to wrap instead of program input.
    pub init_with_compressed: bool,
}

/// The check the mock verifier makes of a proof: Plonk and Groth16 proofs
/// by their public inputs, any other proof none.
pub open spec fn mock_route(kind: SP1ProofKind) -> VerifyRoute {
    match kind {
        SP1ProofKind::Plonk => VerifyRoute::PlonkPublicInputs,
        SP1ProofKind::Groth16 => VerifyRoute::Groth16PublicInputs,
        _ => VerifyRoute::Accept,
    }
}

/// A prover that uses the CPU to execute and prove programs.
#[derive(Clone, Copy, Debug, PartialEq, Eq)]
pub struct CpuProver {
    mock: bool,
}

impl CpuProver {
    /// Whether this prover only fakes proofs.
    pub closed spec fn is_mock(self) -> bool {
        self.mock
    }

    /// Creates a new prover that makes real proofs.
    pub fn new() -> (r: CpuProver)
        ensures
            !r.is_mock(),
    {
        CpuProver { mock: false }
    }

    /// Creates a new prover in mock mode.
    pub fn mock() -> (r: CpuProver)
        ensures
            r.is_mock(),
    {
        CpuProver { mock: true }
    }

    /// Whether this prover only fakes proofs.
    pub fn mock_mode(&self) -> (r: bool)
        ensures
            r == self.is_mock(),
    {
        self.mock
    }

    /// A new proof request: a core proof, proved from program input, mocked
    /// exactly when this prover is.
    pub fn prove(&self) -> (r: ProveRequest)
        ensures
            r == (ProveRequest {
                mode: SP1ProofMode::Core,
                mock: self.is_mock(),
                init_with_compressed: false,
            }),
    {
        ProveRequest { mode: SP1ProofMode::Core, mock: self.mock, init_with_compressed: false }
    }

    /// Starts the proving pipeline for `mode`; `input_is_compressed_proof`
    /// says that the `stdin_buffers` buffers of stdin hold a compressed proof.
    pub fn prove_impl(&self, mode: SP1ProofMode, input_is_compressed_proof: bool, stdin_buffers: usize) -> (r:
        ProveFlow)
        requires
            prove_inputs_ok(mode, input_is_compressed_proof, stdin_buffers as nat),
        ensures
            r == ProveFlow::initial(mode, self.is_mock(), input_is_compressed_proof),
    {
        ProveFlow::new(mode, self.mock, input_is_compressed_proof, stdin_buffers)
    }

    /// How the mock verifier checks a proof: Plonk and Groth16 proofs by their
    /// public inputs, any other proof not at all.
    pub fn mock_verify(kind: SP1ProofKind) -> (r: VerifyRoute)
        ensures
            r == mock_route(kind),
    {
        match kind {
            SP1ProofKind::Plonk => VerifyRoute::PlonkPublicInputs,
            SP1ProofKind::Groth16 => VerifyRoute::Groth16PublicInputs,
            _ => VerifyRoute::Accept,
        }
    }

    /// How this prover checks a proof: with the mock verifier in mock mode,
    /// by full verification otherwise.
    pub fn verify(&self, kind: SP1ProofKind) -> (r: VerifyRoute)
        ensures
            self.is_mock() ==> r == mock_route(kind),
            !self.is_mock() ==> r == VerifyRoute::Full,
    {
        if self.mock {
            return Self::mock_verify(kind);
        }
        VerifyRoute::Full
    }
}

impl ProveRequest {
    /// Asks for a proof of `mode`.
    pub fn with_mode(self, mode: SP1ProofMode) -> (r: ProveRequest)
        ensures
            r == (ProveRequest { mode, ..self }),
    {
        ProveRequest { mode, ..self }
    }

    /// Starts the pipeline of this request; stdin holds `stdin_buffers` buffers.
    pub fn start(&self, stdin_buffers: usize) -> (r: ProveFlow)
        requires
            prove_inputs_ok(self.mode, self.init_with_compressed, stdin_buffers as nat),
        ensures
            r == ProveFlow::initial(self.mode, self.mock, self.init_with_compressed),
    {
        ProveFlow::new(self.mode, self.mock, self.init_with_compressed, stdin_buffers)
    }
}

impl Default for CpuProver {
    fn default() -> (r: CpuProver)
        ensures
            !r.is_mock(),
    {
        CpuProver::new()
    }
}

} // verus!
