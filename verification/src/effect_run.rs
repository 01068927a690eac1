//! How a split scene is rastered and its graph carried out.
//!
//! The backends differ in who fills the graph's two inputs and in who owns the
//! submission. What has to come before what is the same for all.
use crate::pipeline::VelloBackend;
use vstd::prelude::*;

verus! {

/// The two inputs of an effect graph.
#[derive(Clone, Copy, Debug, PartialEq, Eq, Structural)]
pub enum EffectInput {
    Prefix,
    Content,
}

/// One step of carrying out an effect, for the host.
#[derive(Clone, Copy, Debug, PartialEq, Eq, Structural)]
pub enum RunStep {
    /// Open the batch that rasters and passes are recorded into.
    BeginBatch,
    /// Render the scene of this input over nothing, on the device.
    Paint(EffectInput),
    /// Record the scene of this input into the open batch.
    Record(EffectInput),
    /// Render the scene of this input on the CPU and upload the pixels.
    Upload(EffectInput),
    /// Carry out the graph in a batch of its own.
    Execute,
    /// Record the graph into the open batch.
    EncodeGraph,
    /// Submit the open batch.
    SubmitBatch,
    /// Read the pixels of the graph's output.
    ReadBack,
}

impl RunStep {
    /// Whether the step fills this input.
    pub open spec fn fills(self, input: EffectInput) -> bool {
        self == RunStep::Paint(input) || self == RunStep::Record(input) || self == RunStep::Upload(
            input,
        )
    }

    /// Whether the step carries out the graph.
    pub open spec fn runs_graph(self) -> bool {
        self is Execute || self is EncodeGraph
    }

    /// Whether the step needs an open batch.
    pub open spec fn needs_batch(self) -> bool {
        self is Record || self is EncodeGraph || self is SubmitBatch
    }
}

/// The steps of an effect whose inputs this backend rasters.
pub open spec fn effect_run(backend: VelloBackend) -> Seq<RunStep> {
    match backend {
        VelloBackend::Classic => seq![
            RunStep::Paint(EffectInput::Prefix),
            RunStep::Paint(EffectInput::Content),
            RunStep::Execute,
            RunStep::ReadBack,
        ],
        VelloBackend::Hybrid => seq![
            RunStep::BeginBatch,
            RunStep::Record(EffectInput::Prefix),
            RunStep::Record(EffectInput::Content),
            RunStep::EncodeGraph,
            RunStep::SubmitBatch,
            RunStep::ReadBack,
        ],
        VelloBackend::Cpu => seq![
            RunStep::Upload(EffectInput::Prefix),
            RunStep::Upload(EffectInput::Content),
            RunStep::Execute,
            RunStep::ReadBack,
        ],
    }
}

/// Lists the steps of an effect whose inputs this backend rasters.
pub fn effect_run_steps(backend: VelloBackend) -> (r: Vec<RunStep>)
    ensures
        r@ == effect_run(backend),
{
    let mut steps: Vec<RunStep> = Vec::new();
    match backend {
        VelloBackend::Classic => {
            steps.push(RunStep::Paint(EffectInput::Prefix));
            steps.push(RunStep::Paint(EffectInput::Content));
            steps.push(RunStep::Execute);
        },
        VelloBackend::Hybrid => {
            steps.push(RunStep::BeginBatch);
            steps.push(RunStep::Record(EffectInput::Prefix));
            steps.push(RunStep::Record(EffectInput::Content));
            steps.push(RunStep::EncodeGraph);
            steps.push(RunStep::SubmitBatch);
        },
        VelloBackend::Cpu => {
            steps.push(RunStep::Upload(EffectInput::Prefix));
            steps.push(RunStep::Upload(EffectInput::Content));
            steps.push(RunStep::Execute);
        },
    }
    steps.push(RunStep::ReadBack);
    proof {
        assert(steps@ == effect_run(backend));
    }
    steps
}

/// Whatever the backend, each input is filled before the graph is carried out,
/// the graph is carried out once, and the output is read last.
pub proof fn law_inputs_come_before_the_graph(backend: VelloBackend, input: EffectInput)
    ensures
        ({
            let steps = effect_run(backend);
            exists|fill: int, run: int|
                #![trigger steps[fill].fills(input), steps[run].runs_graph()]
                {
                    &&& 0 <= fill < run < steps.len() - 1
                    &&& steps[fill].fills(input)
                    &&& steps[run].runs_graph()
                    &&& forall|i: int|
                        0 <= i < steps.len() && #[trigger] steps[i].fills(input) ==> i == fill
                    &&& forall|i: int|
                        0 <= i < steps.len() && #[trigger] steps[i].runs_graph() ==> i == run
                }
        }),
        effect_run(backend).last() == RunStep::ReadBack,
{
    let steps = effect_run(backend);
    let first = if backend == VelloBackend::Hybrid {
        1int
    } else {
        0int
    };
    let fill = if input == EffectInput::Prefix {
        first
    } else {
        first + 1
    };
    let run = first + 2;
    assert(steps[fill].fills(input));
    assert(steps[run].runs_graph());
}

/// What is recorded is recorded into a batch that is open, and what is recorded
/// is submitted before the output is read.
pub proof fn law_batches_are_opened_and_submitted(backend: VelloBackend, i: int)
    requires
        0 <= i < effect_run(backend).len(),
        effect_run(backend)[i].needs_batch(),
    ensures
        ({
            let steps = effect_run(backend);
            &&& steps[0] == RunStep::BeginBatch
            &&& 0 < i <= steps.len() - 2
            &&& steps[steps.len() - 2] == RunStep::SubmitBatch
        }),
{
}

} // verus!
