use sp1_sect::cpu_prover::{CpuProver, SP1ProofKind, VerifyRoute};
use sp1_sect::prove_flow::{
    ProofOutput, ProveAction, ProveEvent, ProveFlow, ProveStage, PublicValuesSource, SP1ProofMode,
};

fn run(mut flow: ProveFlow, dev: bool, fail_at: Option<ProveAction>) -> Vec<ProveAction> {
    let mut actions = Vec::new();
    let mut event = ProveEvent::Go;
    while flow.stage != ProveStage::Done {
        let action = flow.step(event);
        actions.push(action);
        event = if Some(action) == fail_at {
            ProveEvent::Failed
        } else if action == ProveAction::QueryDevMode {
            ProveEvent::DevMode(dev)
        } else {
            ProveEvent::Succeeded
        };
    }
    actions
}

#[test]
fn core_mode_stops_after_core_proof() {
    let flow = CpuProver::new().prove().start(0);
    assert_eq!(
        run(flow, false, None),
        vec![ProveAction::LoadProgram, ProveAction::ProveCore, ProveAction::Return(ProofOutput::CoreProof)]
    );
}

#[test]
fn compressed_mode_stops_after_compression() {
    let flow = CpuProver::new().prove_impl(SP1ProofMode::Compressed, false, 3);
    assert_eq!(
        run(flow, false, None),
        vec![
            ProveAction::LoadProgram,
            ProveAction::ProveCore,
            ProveAction::Compress,
            ProveAction::Return(ProofOutput::CompressedProof)
        ]
    );
}

#[test]
fn groth16_returns_empty_core_proof_with_public_values() {
    let flow = CpuProver::new().prove_impl(SP1ProofMode::Groth16, false, 1);
    assert_eq!(
        run(flow, false, None),
        vec![
            ProveAction::LoadProgram,
            ProveAction::ProveCore,
            ProveAction::Compress,
            ProveAction::Shrink,
            ProveAction::WrapOuter,
            ProveAction::WrapGroth16,
            ProveAction::Return(ProofOutput::Groth16Wrapped {
                public_values: PublicValuesSource::CoreProof
            })
        ]
    );
}

#[test]
fn plonk_uses_dev_artifacts_in_dev_mode() {
    let flow = CpuProver::new().prove().with_mode(SP1ProofMode::Plonk).start(1);
    let actions = run(flow, true, None);
    assert_eq!(actions[5], ProveAction::QueryDevMode);
    assert_eq!(actions[6], ProveAction::WrapPlonk { dev_artifacts: true });
    assert_eq!(actions[7], ProveAction::Return(ProofOutput::Plonk));
    let installed = run(flow, false, None);
    assert_eq!(installed[6], ProveAction::WrapPlonk { dev_artifacts: false });
}

#[test]
fn compressed_input_is_only_wrapped() {
    let flow = CpuProver::new().prove_impl(SP1ProofMode::Groth16, true, 1);
    assert_eq!(
        run(flow, false, None),
        vec![
            ProveAction::ReadCompressedInput,
            ProveAction::Shrink,
            ProveAction::WrapOuter,
            ProveAction::WrapGroth16,
            ProveAction::Return(ProofOutput::Groth16Wrapped { public_values: PublicValuesSource::Empty })
        ]
    );
}

#[test]
fn mock_prover_only_runs_the_mock() {
    let flow = CpuProver::mock().prove_impl(SP1ProofMode::Plonk, false, 1);
    assert_eq!(
        run(flow, false, None),
        vec![ProveAction::LoadProgram, ProveAction::MockProve, ProveAction::Return(ProofOutput::Mock)]
    );
}

#[test]
fn a_failed_step_returns_its_error() {
    let flow = CpuProver::new().prove_impl(SP1ProofMode::Plonk, false, 1);
    assert_eq!(
        run(flow, false, Some(ProveAction::Compress)),
        vec![
            ProveAction::LoadProgram,
            ProveAction::ProveCore,
            ProveAction::Compress,
            ProveAction::ReturnError
        ]
    );
    let flow = CpuProver::new().prove_impl(SP1ProofMode::Groth16, true, 1);
    assert_eq!(
        run(flow, false, Some(ProveAction::ReadCompressedInput)),
        vec![ProveAction::ReadCompressedInput, ProveAction::ReturnError]
    );
}

#[test]
fn prover_defaults() {
    let p = CpuProver::new();
    assert!(!p.mock_mode());
    assert!(!CpuProver::default().mock_mode());
    assert!(CpuProver::mock().mock_mode());
    let req = CpuProver::mock().prove();
    assert_eq!(req.mode, SP1ProofMode::Core);
    assert!(req.mock);
    assert!(!req.init_with_compressed);
}

#[test]
fn verification_routes() {
    let real = CpuProver::new();
    let mock = CpuProver::mock();
    for kind in [SP1ProofKind::Core, SP1ProofKind::Compressed, SP1ProofKind::Plonk, SP1ProofKind::Groth16] {
        assert_eq!(real.verify(kind), VerifyRoute::Full);
    }
    assert_eq!(mock.verify(SP1ProofKind::Plonk), VerifyRoute::PlonkPublicInputs);
    assert_eq!(mock.verify(SP1ProofKind::Groth16), VerifyRoute::Groth16PublicInputs);
    assert_eq!(mock.verify(SP1ProofKind::Core), VerifyRoute::Accept);
    assert_eq!(CpuProver::mock_verify(SP1ProofKind::Compressed), VerifyRoute::Accept);
}

#[test]
fn deprecated_cuda_warning_is_harmless() {
    sp1_sect::deprecated_check::show_cuda_warning();
    sp1_sect::deprecated_check::cuda_is_deprecated();
    let _ = sp1_sect::config::OuterConfig::default();
}

#[test]
fn fibonacci_program_commits_last_eight() {
    let (a, cs) = sp1_sect::fibonacci_program::fibonacci_outputs(10);
    assert_eq!(a, 55);
    assert_eq!(cs, [3, 5, 8, 13, 21, 34, 55, 89]);
}

#[test]
fn fibonacci_program_reduces_modulo() {
    // F(20) = 6765 < 7919, F(21) = 10946 -> 3027, F(22) = (6765 + 3027) % 7919 = 1873
    let (a, cs) = sp1_sect::fibonacci_program::fibonacci_outputs(21);
    assert_eq!(a, 3027);
    assert_eq!(cs[7], 1873);
    assert_eq!(cs[6], 3027);
    assert_eq!(cs[5], 6765);
}
