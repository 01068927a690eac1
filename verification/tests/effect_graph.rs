use netrender::combined_effect::CombinedEffectDecomposition;
use netrender::effect_graph::build_combined_effect_plan;
use netrender::effect_graph::BlurKernel;
use netrender::effect_graph::BlurPass;
use netrender::effect_graph::EffectGraph;
use netrender::effect_graph::GraphPass;
use netrender::effect_graph::ImageLoad;
use netrender::effect_graph::ImageNode;
use netrender::effect_graph::JoinSource;
use netrender::effect_graph::RasterExecution;
use netrender::pipeline::VelloBackend;
use netrender::scene::Scene;
use netrender::scene::SceneFilter;
use netrender::single::Single;

fn f(x: f32) -> Single {
    Single::from_bits(x.to_bits())
}

fn quad(q: [f32; 4]) -> [Single; 4] {
    [f(q[0]), f(q[1]), f(q[2]), f(q[3])]
}

fn execution(backend: VelloBackend) -> RasterExecution {
    RasterExecution { backend, description: format!("raster by {backend:?}") }
}

fn kernel(level: u32, passes: u32) -> BlurKernel {
    BlurKernel { level, passes, step_px: f(1.5) }
}

fn effect(radius: f32, element_filters: Vec<SceneFilter>) -> CombinedEffectDecomposition {
    CombinedEffectDecomposition {
        prefix: Scene::new(64, 64),
        content: Scene::new(64, 64),
        bounds: quad([16.0, 8.0, 48.0, 56.0]),
        alpha: f(0.6),
        backdrop_radius: f(radius),
        element_filters,
    }
}

fn labels(graph: &EffectGraph) -> Vec<&str> {
    graph.tasks.iter().map(|task| task.label.as_str()).collect()
}

#[test]
fn a_blur_goes_down_round_and_up() {
    let mut graph = EffectGraph::new();
    let input = graph.import_image("input".to_string(), 64, 64, "Rgba8Unorm".to_string());
    let output = graph.append_blur(input, 64, f(8.0), kernel(4, 2), "soft");
    assert_eq!(
        labels(&graph),
        [
            "soft downsample",
            "soft horizontal 0",
            "soft vertical 0",
            "soft horizontal 1",
            "soft vertical 1",
            "soft upsample",
        ]
    );
    assert_eq!(output, ImageNode { index: 6 });
    let sizes: Vec<u32> = graph.images.iter().map(|image| image.width).collect();
    assert_eq!(sizes, [64, 16, 16, 16, 16, 16, 64]);
    assert_eq!(
        graph.tasks[1].pass,
        GraphPass::Blur(BlurPass::Horizontal { step_px: f(1.5), dim: 16 })
    );
    assert_eq!(
        graph.tasks[2].pass,
        GraphPass::Blur(BlurPass::Vertical { step_px: f(1.5), dim: 16 })
    );
    assert_eq!(graph.tasks[0].pass, GraphPass::Blur(BlurPass::Resample));
    assert!(graph.tasks.iter().all(|task| task.load == ImageLoad::Clear));
}

#[test]
fn a_blur_at_full_size_does_not_resample() {
    let mut graph = EffectGraph::new();
    let input = graph.import_image("input".to_string(), 64, 64, "Rgba8Unorm".to_string());
    graph.append_blur(input, 64, f(8.0), kernel(1, 1), "soft");
    assert_eq!(labels(&graph), ["soft horizontal 0", "soft vertical 0"]);
}

#[test]
fn a_reduced_image_keeps_a_pixel() {
    let mut graph = EffectGraph::new();
    let input = graph.import_image("input".to_string(), 3, 3, "Rgba8Unorm".to_string());
    graph.append_blur(input, 3, f(8.0), kernel(8, 0), "soft");
    assert_eq!(graph.images[1].width, 1);
    assert_eq!(graph.images[2].width, 3);
}

#[test]
fn no_radius_is_no_blur() {
    let mut graph = EffectGraph::new();
    let input = graph.import_image("input".to_string(), 64, 64, "Rgba8Unorm".to_string());
    assert_eq!(graph.append_blur(input, 64, f(0.0), kernel(4, 2), "soft"), input);
    assert_eq!(graph.append_blur(input, 64, f(-3.0), kernel(4, 2), "soft"), input);
    assert!(graph.tasks.is_empty());
    assert_ne!(graph.append_blur(input, 64, f(f32::NAN), kernel(4, 2), "soft"), input);
}

#[test]
fn the_plan_forks_and_joins() {
    let plan = build_combined_effect_plan(
        &effect(8.0, vec![SceneFilter::Invert(f(1.0)), SceneFilter::Blur(f(2.0))]),
        &execution(VelloBackend::Classic),
        kernel(1, 1),
        &vec![kernel(1, 0), kernel(1, 1)],
    );
    assert_eq!(plan.graph.header, "raster by Classic");
    assert!(plan.graph.images.iter().all(|image| image.format == "Rgba8Unorm"));
    assert!(plan.graph.images.iter().all(|image| image.width == 64 && image.height == 64));
    assert_eq!(plan.graph.images[0].label, "rg2c Classic prefix raster");
    assert_eq!(plan.graph.images[1].label, "rg2c Classic content raster");
    assert_eq!(
        labels(&plan.graph),
        [
            "rg2c backdrop blur horizontal 0",
            "rg2c backdrop blur vertical 0",
            "rg2c element matrix 0",
            "rg2c element blur 1 horizontal 0",
            "rg2c element blur 1 vertical 0",
            "rg2c two-input layer join",
            "rg2c prefix and layer alpha composite",
        ]
    );
    // Every pass fills an image of its own from images filled before.
    for (index, task) in plan.graph.tasks.iter().enumerate() {
        assert_eq!(task.writes.index, 2 + index);
        assert!(task.reads.iter().all(|read| read.index < 2 + index));
    }
    // Every image but the output is read.
    for index in 0..plan.output.index {
        assert!(plan
            .graph
            .tasks
            .iter()
            .any(|task| task.reads.contains(&ImageNode { index })));
    }
    let join = &plan.graph.tasks[5];
    assert_eq!(join.reads, [ImageNode { index: 3 }, ImageNode { index: 6 }]);
    assert_eq!(
        join.pass,
        GraphPass::Join {
            dest: quad([16.0, 8.0, 48.0, 56.0]),
            source: JoinSource::UnderDest(64),
            opacity: f(1.0),
        }
    );
    let last = &plan.graph.tasks[6];
    assert_eq!(last.reads, [plan.prefix_input, join.writes]);
    assert_eq!(last.writes, plan.output);
    assert_eq!(
        last.pass,
        GraphPass::Join {
            dest: quad([0.0, 0.0, 64.0, 64.0]),
            source: JoinSource::Whole,
            opacity: f(0.6),
        }
    );
}

#[test]
fn without_effects_the_inputs_are_joined() {
    let plan = build_combined_effect_plan(
        &effect(0.0, vec![]),
        &execution(VelloBackend::Cpu),
        kernel(1, 1),
        &vec![],
    );
    assert_eq!(plan.graph.images[0].label, "rg2c Cpu prefix raster");
    assert_eq!(plan.graph.tasks.len(), 2);
    assert_eq!(plan.graph.tasks[0].reads, [plan.prefix_input, plan.content_input]);
}
