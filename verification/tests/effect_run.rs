use netrender::effect_run::effect_run_steps;
use netrender::effect_run::EffectInput;
use netrender::effect_run::RunStep;
use netrender::pipeline::VelloBackend;

#[test]
fn each_backend_fills_both_inputs_before_the_graph() {
    assert_eq!(
        effect_run_steps(VelloBackend::Classic),
        [
            RunStep::Paint(EffectInput::Prefix),
            RunStep::Paint(EffectInput::Content),
            RunStep::Execute,
            RunStep::ReadBack,
        ]
    );
    assert_eq!(
        effect_run_steps(VelloBackend::Cpu),
        [
            RunStep::Upload(EffectInput::Prefix),
            RunStep::Upload(EffectInput::Content),
            RunStep::Execute,
            RunStep::ReadBack,
        ]
    );
}

#[test]
fn the_hybrid_backend_submits_one_batch() {
    assert_eq!(
        effect_run_steps(VelloBackend::Hybrid),
        [
            RunStep::BeginBatch,
            RunStep::Record(EffectInput::Prefix),
            RunStep::Record(EffectInput::Content),
            RunStep::EncodeGraph,
            RunStep::SubmitBatch,
            RunStep::ReadBack,
        ]
    );
}
