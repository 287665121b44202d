use vstd::prelude::*;

verus! {

/// How far the prover should take a proof.
#[derive(Clone, Copy, Debug, PartialEq, Eq)]
pub enum SP1ProofMode {
    Core,
    Compressed,
    Plonk,
    Groth16,
}

/// Where the public values returned beside a proof come from.
#[derive(Clone, Copy, Debug, PartialEq, Eq)]
pub enum PublicValuesSource {
    /// The public values committed by the core proof.
    CoreProof,
    /// Empty public values.
    Empty,
}

/// What the prover hands back when a pipeline succeeds.
#[derive(Clone, Copy, Debug, PartialEq, Eq)]
pub enum ProofOutput {
    /// The result of the mock prover, returned as it came.
    Mock,
    /// The core shard proofs, with the core public values.
    CoreProof,
    /// The compressed proof, with the core public values.
    CompressedProof,
    /// An empty core proof standing for the Groth16 wrap, with the raw
    /// public values needed to check the wrap's witness.
    Groth16Wrapped { public_values: PublicValuesSource },
    /// The Plonk proof, with empty public values.
    Plonk,
}

/// The outside work the prover asks for next, or its answer.
#[derive(Clone, Copy, Debug, PartialEq, Eq)]
pub enum ProveAction {
    /// Deserialize the compressed proof held in the single stdin buffer.
    ReadCompressedInput,
    /// Load the program from the proving key's ELF.
    LoadProgram,
    /// Run the mock prover and return its result.
    MockProve,
    /// Generate the core proof.
    ProveCore,
    /// Compress the core proof together with the deferred proofs.
    Compress,
    /// Shrink the compressed proof.
    Shrink,
    /// Wrap the shrunk proof for the outer field.
    WrapOuter,
    /// Ask whether the prover runs in development mode.
    QueryDevMode,
    /// Build the Groth16 artifacts for development and wrap into the SECT witness.
    WrapGroth16,
    /// Wrap into a Plonk proof, with development-built or installed artifacts.
    WrapPlonk { dev_artifacts: bool },
    /// Return the proof.
    Return(ProofOutput),
    /// Return the error of the step that failed.
    ReturnError,
}

/// What came back from the outside work last asked for.
#[derive(Clone, Copy, Debug, PartialEq, Eq)]
pub enum ProveEvent {
    /// Begin the pipeline.
    Go,
    /// The step asked for succeeded.
    Succeeded,
    /// The step asked for failed.
    Failed,
    /// The answer to `QueryDevMode`.
    DevMode(bool),
}

/// The point the pipeline has reached.
#[derive(Clone, Copy, Debug, PartialEq, Eq)]
pub enum ProveStage {
    Start,
    AwaitCompressedInput,
    AwaitProgram,
    AwaitMock,
    AwaitCore,
    AwaitCompress,
    AwaitShrink,
    AwaitWrap,
    AwaitDevMode,
    AwaitGroth16Wrap,
    AwaitPlonkWrap,
    Done,
}

/// The decisions of the CPU prover's proving pipeline, one outside step at a
/// time.
#[derive(Clone, Copy, Debug, PartialEq, Eq)]
pub struct ProveFlow {
    pub mode: SP1ProofMode,
    pub mock: bool,
    pub compressed_input: bool,
    pub stage: ProveStage,
}

/// Whether a pipeline can run to its end: a compressed proof given as input
/// comes alone in stdin and can only be wrapped.
pub open spec fn prove_inputs_ok(mode: SP1ProofMode, compressed_input: bool, stdin_buffers: nat) -> bool {
    compressed_input ==> stdin_buffers == 1 && (mode == SP1ProofMode::Plonk || mode
        == SP1ProofMode::Groth16)
}

impl ProveFlow {
    /// A pipeline about to start.
    pub open spec fn initial(mode: SP1ProofMode, mock: bool, compressed_input: bool) -> ProveFlow {
        ProveFlow { mode, mock, compressed_input, stage: ProveStage::Start }
    }

    /// Starts a pipeline for `mode`; `compressed_input` says that stdin holds a
    /// compressed proof to wrap instead of program input.
    pub fn new(mode: SP1ProofMode, mock: bool, compressed_input: bool, stdin_buffers: usize) -> (r:
        ProveFlow)
        requires
            prove_inputs_ok(mode, compressed_input, stdin_buffers as nat),
        ensures
            r == ProveFlow::initial(mode, mock, compressed_input),
    {
        ProveFlow { mode, mock, compressed_input, stage: ProveStage::Start }
    }

    /// The pipeline stops here.
    pub open spec fn done(self) -> (ProveFlow, ProveAction) {
        (ProveFlow { stage: ProveStage::Done, ..self }, ProveAction::ReturnError)
    }

    /// Moves to `stage` and asks for `action`.
    pub open spec fn goto(self, stage: ProveStage, action: ProveAction) -> (ProveFlow, ProveAction) {
        (ProveFlow { stage, ..self }, action)
    }

    /// Answers with `output` and stops.
    pub open spec fn finish(self, output: ProofOutput) -> (ProveFlow, ProveAction) {
        (ProveFlow { stage: ProveStage::Done, ..self }, ProveAction::Return(output))
    }

    /// The public values that go with a Groth16 wrap.
    pub open spec fn groth16_public_values(self) -> PublicValuesSource {
        if self.compressed_input {
            PublicValuesSource::Empty
        } else {
            PublicValuesSource::CoreProof
        }
    }

    /// After the outer wrap: Groth16 wraps at once, Plonk first asks for the
    /// development mode.
    pub open spec fn after_wrap(self) -> (ProveFlow, ProveAction) {
        if self.mode == SP1ProofMode::Groth16 {
            self.goto(ProveStage::AwaitGroth16Wrap, ProveAction::WrapGroth16)
        } else {
            self.goto(ProveStage::AwaitDevMode, ProveAction::QueryDevMode)
        }
    }

    /// Whether `event` is an answer the pipeline can take in its stage.
    pub open spec fn accepts(self, event: ProveEvent) -> bool {
        match self.stage {
            ProveStage::Start => event == ProveEvent::Go,
            ProveStage::Done => false,
            ProveStage::AwaitDevMode => event is DevMode,
            ProveStage::AwaitProgram => event == ProveEvent::Succeeded,
            _ => event == ProveEvent::Succeeded || event == ProveEvent::Failed,
        }
    }

    /// The transition table of the pipeline.
    pub open spec fn transition(self, event: ProveEvent) -> (ProveFlow, ProveAction) {
        match self.stage {
            ProveStage::Start => if self.compressed_input {
                self.goto(ProveStage::AwaitCompressedInput, ProveAction::ReadCompressedInput)
            } else {
                self.goto(ProveStage::AwaitProgram, ProveAction::LoadProgram)
            },
            ProveStage::AwaitDevMode => match event {
                ProveEvent::DevMode(dev) => self.goto(
                    ProveStage::AwaitPlonkWrap,
                    ProveAction::WrapPlonk { dev_artifacts: dev },
                ),
                _ => self.done(),
            },
            _ => if event == ProveEvent::Failed {
                self.done()
            } else {
                match self.stage {
                    ProveStage::AwaitCompressedInput => self.goto(
                        ProveStage::AwaitShrink,
                        ProveAction::Shrink,
                    ),
                    ProveStage::AwaitProgram => if self.mock {
                        self.goto(ProveStage::AwaitMock, ProveAction::MockProve)
                    } else {
                        self.goto(ProveStage::AwaitCore, ProveAction::ProveCore)
                    },
                    ProveStage::AwaitMock => self.finish(ProofOutput::Mock),
                    ProveStage::AwaitCore => if self.mode == SP1ProofMode::Core {
                        self.finish(ProofOutput::CoreProof)
                    } else {
                        self.goto(ProveStage::AwaitCompress, ProveAction::Compress)
                    },
                    ProveStage::AwaitCompress => if self.mode == SP1ProofMode::Compressed {
                        self.finish(ProofOutput::CompressedProof)
                    } else {
                        self.goto(ProveStage::AwaitShrink, ProveAction::Shrink)
                    },
                    ProveStage::AwaitShrink => self.goto(ProveStage::AwaitWrap, ProveAction::WrapOuter),
                    ProveStage::AwaitWrap => self.after_wrap(),
                    ProveStage::AwaitGroth16Wrap => self.finish(
                        ProofOutput::Groth16Wrapped { public_values: self.groth16_public_values() },
                    ),
                    ProveStage::AwaitPlonkWrap => self.finish(ProofOutput::Plonk),
                    _ => self.done(),
                }
            },
        }
    }

    fn goto_exec(&mut self, stage: ProveStage, action: ProveAction) -> (r: ProveAction)
        ensures
            (*final(self), r) == old(self).goto(stage, action),
    {
        self.stage = stage;
        action
    }

    fn finish_exec(&mut self, output: ProofOutput) -> (r: ProveAction)
        ensures
            (*final(self), r) == old(self).finish(output),
    {
        self.stage = ProveStage::Done;
        ProveAction::Return(output)
    }

    /// Takes the answer to the last outside step and says what to do next.
    pub fn step(&mut self, event: ProveEvent) -> (action: ProveAction)
        requires
            old(self).accepts(event),
        ensures
            (*final(self), action) == old(self).transition(event),
    {
        match self.stage {
            ProveStage::Start => {
                if self.compressed_input {
                    self.goto_exec(ProveStage::AwaitCompressedInput, ProveAction::ReadCompressedInput)
                } else {
                    self.goto_exec(ProveStage::AwaitProgram, ProveAction::LoadProgram)
                }
            },
            ProveStage::AwaitDevMode => match event {
                ProveEvent::DevMode(dev) => self.goto_exec(
                    ProveStage::AwaitPlonkWrap,
                    ProveAction::WrapPlonk { dev_artifacts: dev },
                ),
                _ => {
                    self.stage = ProveStage::Done;
                    ProveAction::ReturnError
                },
            },
            _ => {
                if let ProveEvent::Failed = event {
                    self.stage = ProveStage::Done;
                    ProveAction::ReturnError
                } else {
                    match self.stage {
                        ProveStage::AwaitCompressedInput => self.goto_exec(
                            ProveStage::AwaitShrink,
                            ProveAction::Shrink,
                        ),
                        ProveStage::AwaitProgram => {
                            if self.mock {
                                self.goto_exec(ProveStage::AwaitMock, ProveAction::MockProve)
                            } else {
                                self.goto_exec(ProveStage::AwaitCore, ProveAction::ProveCore)
                            }
                        },
                        ProveStage::AwaitMock => self.finish_exec(ProofOutput::Mock),
                        ProveStage::AwaitCore => {
                            if let SP1ProofMode::Core = self.mode {
                                self.finish_exec(ProofOutput::CoreProof)
                            } else {
                                self.goto_exec(ProveStage::AwaitCompress, ProveAction::Compress)
                            }
                        },
                        ProveStage::AwaitCompress => {
                            if let SP1ProofMode::Compressed = self.mode {
                                self.finish_exec(ProofOutput::CompressedProof)
                            } else {
                                self.goto_exec(ProveStage::AwaitShrink, ProveAction::Shrink)
                            }
                        },
                        ProveStage::AwaitShrink => self.goto_exec(
                            ProveStage::AwaitWrap,
                            ProveAction::WrapOuter,
                        ),
                        ProveStage::AwaitWrap => {
                            if let SP1ProofMode::Groth16 = self.mode {
                                self.goto_exec(ProveStage::AwaitGroth16Wrap, ProveAction::WrapGroth16)
                            } else {
                                self.goto_exec(ProveStage::AwaitDevMode, ProveAction::QueryDevMode)
                            }
                        },
                        ProveStage::AwaitGroth16Wrap => {
                            let public_values = if self.compressed_input {
                                PublicValuesSource::Empty
                            } else {
                                PublicValuesSource::CoreProof
                            };
                            self.finish_exec(ProofOutput::Groth16Wrapped { public_values })
                        },
                        ProveStage::AwaitPlonkWrap => self.finish_exec(ProofOutput::Plonk),
                        _ => {
                            self.stage = ProveStage::Done;
                            ProveAction::ReturnError
                        },
                    }
                }
            },
        }
    }
}

/// The answer every outside step gives when all of them succeed, with
/// `dev` as the development mode.
pub open spec fn succeeding_answer(stage: ProveStage, dev: bool) -> ProveEvent {
    match stage {
        ProveStage::Start => ProveEvent::Go,
        ProveStage::AwaitDevMode => ProveEvent::DevMode(dev),
        _ => ProveEvent::Succeeded,
    }
}

/// The actions the pipeline asks for, at most `fuel` of them, when every
/// outside step succeeds.
pub open spec fn run_succeeding(flow: ProveFlow, dev: bool, fuel: nat) -> Seq<ProveAction>
    decreases fuel,
{
    if fuel == 0 || flow.stage == ProveStage::Done {
        seq![]
    } else {
        let (next, action) = flow.transition(succeeding_answer(flow.stage, dev));
        seq![action] + run_succeeding(next, dev, (fuel - 1) as nat)
    }
}

/// The last steps of a proof wrapped for the outer field.
pub open spec fn wrap_steps(mode: SP1ProofMode, dev: bool, public_values: PublicValuesSource) -> Seq<
    ProveAction,
> {
    if mode == SP1ProofMode::Groth16 {
        seq![
            ProveAction::WrapGroth16,
            ProveAction::Return(ProofOutput::Groth16Wrapped { public_values }),
        ]
    } else {
        seq![
            ProveAction::QueryDevMode,
            ProveAction::WrapPlonk { dev_artifacts: dev },
            ProveAction::Return(ProofOutput::Plonk),
        ]
    }
}

/// The proving pipeline: a compressed input is read, shrunk and wrapped; a
/// mock prover only loads the program and runs the mock; otherwise the core
/// proof is made and taken as far as the mode asks.
pub open spec fn pipeline(mode: SP1ProofMode, mock: bool, compressed_input: bool, dev: bool) -> Seq<
    ProveAction,
> {
    if compressed_input {
        seq![ProveAction::ReadCompressedInput, ProveAction::Shrink, ProveAction::WrapOuter]
            + wrap_steps(mode, dev, PublicValuesSource::Empty)
    } else if mock {
        seq![ProveAction::LoadProgram, ProveAction::MockProve, ProveAction::Return(ProofOutput::Mock)]
    } else {
        match mode {
            SP1ProofMode::Core => seq![
                ProveAction::LoadProgram,
                ProveAction::ProveCore,
                ProveAction::Return(ProofOutput::CoreProof),
            ],
            SP1ProofMode::Compressed => seq![
                ProveAction::LoadProgram,
                ProveAction::ProveCore,
                ProveAction::Compress,
                ProveAction::Return(ProofOutput::CompressedProof),
            ],
            _ => seq![
                ProveAction::LoadProgram,
                ProveAction::ProveCore,
                ProveAction::Compress,
                ProveAction::Shrink,
                ProveAction::WrapOuter,
            ] + wrap_steps(mode, dev, PublicValuesSource::CoreProof),
        }
    }
}

/// When every outside step succeeds, the prover asks for exactly the steps
/// of the pipeline for its mode and returns the proof that the mode names.
pub proof fn law_pipeline(mode: SP1ProofMode, mock: bool, compressed_input: bool, dev: bool)
    requires
        prove_inputs_ok(mode, compressed_input, 1),
    ensures
        run_succeeding(ProveFlow::initial(mode, mock, compressed_input), dev, 10) == pipeline(
            mode,
            mock,
            compressed_input,
            dev,
        ),
{
    reveal_with_fuel(run_succeeding, 10);
    let f = ProveFlow::initial(mode, mock, compressed_input);
    assert(run_succeeding(f, dev, 10) =~= pipeline(mode, mock, compressed_input, dev));
}

/// Position of a stage along the pipeline.
pub open spec fn stage_rank(stage: ProveStage) -> nat {
    match stage {
        ProveStage::Start => 0,
        ProveStage::AwaitCompressedInput => 1,
        ProveStage::AwaitProgram => 1,
        ProveStage::AwaitMock => 2,
        ProveStage::AwaitCore => 2,
        ProveStage::AwaitCompress => 3,
        ProveStage::AwaitShrink => 4,
        ProveStage::AwaitWrap => 5,
        ProveStage::AwaitDevMode => 6,
        ProveStage::AwaitGroth16Wrap => 7,
        ProveStage::AwaitPlonkWrap => 7,
        ProveStage::Done => 8,
    }
}

/// Every accepted answer moves the pipeline strictly forward, so it ends
/// after at most eight steps.
pub proof fn law_step_progress(flow: ProveFlow, event: ProveEvent)
    requires
        flow.accepts(event),
    ensures
        stage_rank(flow.transition(event).0.stage) > stage_rank(flow.stage),
        flow.transition(event).0.mode == flow.mode,
        flow.transition(event).0.mock == flow.mock,
        flow.transition(event).0.compressed_input == flow.compressed_input,
{
}

/// A failed outside step ends the pipeline with that step's error.
pub proof fn law_failure_returns_error(flow: ProveFlow)
    requires
        flow.accepts(ProveEvent::Failed),
    ensures
        flow.transition(ProveEvent::Failed).1 == ProveAction::ReturnError,
        flow.transition(ProveEvent::Failed).0.stage == ProveStage::Done,
{
}

/// The pipeline answers only when it stops: a `Return` or `ReturnError`
/// action comes exactly with the `Done` stage.
pub proof fn law_answer_only_when_done(flow: ProveFlow, event: ProveEvent)
    requires
        flow.accepts(event),
    ensures
        (flow.transition(event).0.stage == ProveStage::Done) <==> (flow.transition(event).1 is Return
            || flow.transition(event).1 is ReturnError),
{
}

/// Whether the mode asks for a proof wrapped for the outer field.
pub open spec fn is_wrap_mode(mode: SP1ProofMode) -> bool {
    mode == SP1ProofMode::Plonk || mode == SP1ProofMode::Groth16
}

/// What holds of every pipeline that was started with usable inputs.
pub open spec fn flow_invariant(flow: ProveFlow) -> bool {
    let s = flow.stage;
    &&& flow.compressed_input ==> is_wrap_mode(flow.mode)
    &&& s == ProveStage::AwaitCompressedInput ==> flow.compressed_input
    &&& (s == ProveStage::AwaitProgram || s == ProveStage::AwaitMock || s == ProveStage::AwaitCore
        || s == ProveStage::AwaitCompress) ==> !flow.compressed_input
    &&& s == ProveStage::AwaitMock ==> flow.mock
    &&& (s == ProveStage::AwaitCore || s == ProveStage::AwaitCompress) ==> !flow.mock
    &&& s == ProveStage::AwaitCompress ==> flow.mode != SP1ProofMode::Core
    &&& (s == ProveStage::AwaitShrink || s == ProveStage::AwaitWrap) ==> is_wrap_mode(flow.mode)
        && (flow.compressed_input || !flow.mock)
    &&& (s == ProveStage::AwaitDevMode || s == ProveStage::AwaitPlonkWrap) ==> flow.mode
        == SP1ProofMode::Plonk
    &&& s == ProveStage::AwaitGroth16Wrap ==> flow.mode == SP1ProofMode::Groth16
}

/// A pipeline started with usable inputs begins within the invariant.
pub proof fn law_initial_flow_invariant(
    mode: SP1ProofMode,
    mock: bool,
    compressed_input: bool,
    stdin_buffers: nat,
)
    requires
        prove_inputs_ok(mode, compressed_input, stdin_buffers),
    ensures
        flow_invariant(ProveFlow::initial(mode, mock, compressed_input)),
{
}

/// Every step keeps a pipeline within the invariant: a compressed input is
/// never proved from program input, a mock prover never runs the real
/// provers, and the outer wrap is only reached in a mode that asks for it,
/// as Groth16 or Plonk according to the mode.
pub proof fn law_step_keeps_invariant(flow: ProveFlow, event: ProveEvent)
    requires
        flow_invariant(flow),
        flow.accepts(event),
    ensures
        flow_invariant(flow.transition(event).0),
{
}

} // verus!
