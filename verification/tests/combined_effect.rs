use netrender::combined_effect::decompose_combined_effect;
use netrender::combined_effect::find_candidate;
use netrender::combined_effect::CombinedEffectDecompositionError;
use netrender::scene::matching_pop;
use netrender::scene::Scene;
use netrender::scene::SceneBlendMode;
use netrender::scene::SceneClip;
use netrender::scene::SceneCompose;
use netrender::scene::SceneFilter;
use netrender::scene::SceneLayer;
use netrender::scene::SceneOp;
use netrender::single::Single;

fn f(x: f32) -> Single {
    Single::from_bits(x.to_bits())
}

fn quad(q: [f32; 4]) -> [Single; 4] {
    [f(q[0]), f(q[1]), f(q[2]), f(q[3])]
}

fn layer() -> SceneLayer {
    let mut layer = SceneLayer::clip(SceneClip::Rect {
        rect: quad([16.0, 8.0, 48.0, 56.0]),
        radii: quad([0.0; 4]),
    });
    layer.alpha = f(0.6);
    layer.backdrop_filter = Some(SceneFilter::Blur(f(8.0)));
    layer.filters.push(SceneFilter::Invert(f(1.0)));
    layer
}

fn scene_with(layer: SceneLayer) -> Scene {
    let mut scene = Scene::new(64, 64);
    scene.push_rect(quad([0.0, 0.0, 32.0, 64.0]), quad([0.0, 0.0, 1.0, 1.0]));
    scene.push_rect(quad([32.0, 0.0, 64.0, 64.0]), quad([1.0, 1.0, 0.0, 1.0]));
    scene.push_layer(layer);
    scene.push_rect(quad([16.0, 8.0, 48.0, 56.0]), quad([1.0, 0.0, 0.0, 0.35]));
    scene.pop_layer();
    scene
}

fn scene() -> Scene {
    scene_with(layer())
}

fn refusal(scene: &Scene) -> CombinedEffectDecompositionError {
    decompose_combined_effect(scene).unwrap_err()
}

#[test]
fn decomposes_one_bounded_trailing_combined_effect() {
    let effect = decompose_combined_effect(&scene()).unwrap();
    assert_eq!(effect.bounds, quad([16.0, 8.0, 48.0, 56.0]));
    assert_eq!(effect.alpha, f(0.6));
    assert_eq!(effect.backdrop_radius, f(8.0));
    assert_eq!(effect.element_filters, [SceneFilter::Invert(f(1.0))]);
    assert_eq!(effect.prefix.ops.len(), 2);
    assert_eq!(effect.content.ops.len(), 1);
    assert!(!effect
        .prefix
        .ops
        .iter()
        .any(|op| matches!(op, SceneOp::PushLayer(layer) if layer.backdrop_filter.is_some())));
    assert!(!effect
        .content
        .ops
        .iter()
        .any(|op| matches!(op, SceneOp::PushLayer(layer) if !layer.filters.is_empty())));
}

#[test]
fn refuses_a_tail_instead_of_losing_painter_order() {
    let mut scene = scene();
    scene.push_rect(quad([0.0, 0.0, 4.0, 4.0]), quad([0.0, 1.0, 0.0, 1.0]));
    assert_eq!(
        decompose_combined_effect(&scene).unwrap_err(),
        CombinedEffectDecompositionError::LayerMustBeTrailing
    );
}

#[test]
fn the_parts_put_together_are_the_scene() {
    let whole = scene();
    let effect = decompose_combined_effect(&whole).unwrap();
    assert_eq!(effect.prefix.ops[..], whole.ops[..2]);
    assert_eq!(effect.content.ops[..], whole.ops[3..4]);
    assert_eq!(effect.prefix.viewport_width, 64);
    assert_eq!(effect.content.viewport_height, 64);
}

#[test]
fn refuses_a_viewport_that_is_not_square() {
    let mut scene = scene();
    scene.viewport_height = 32;
    assert_eq!(
        refusal(&scene),
        CombinedEffectDecompositionError::NonSquareViewport { width: 64, height: 32 }
    );
}

#[test]
fn refuses_a_composited_root() {
    let mut faint = scene();
    faint.root_alpha = f(0.5);
    assert_eq!(refusal(&faint), CombinedEffectDecompositionError::UnsupportedRootComposition);
    faint.root_alpha = f(f32::NAN);
    assert_eq!(refusal(&faint), CombinedEffectDecompositionError::UnsupportedRootComposition);
    let mut blended = scene();
    blended.root_blend_mode = SceneBlendMode::Other(3);
    assert_eq!(refusal(&blended), CombinedEffectDecompositionError::UnsupportedRootComposition);
}

#[test]
fn refuses_a_scene_without_a_combined_effect() {
    let mut plain = layer();
    plain.filters.clear();
    assert_eq!(
        refusal(&scene_with(plain)),
        CombinedEffectDecompositionError::NoCombinedEffectLayer
    );
    let mut plain = layer();
    plain.backdrop_filter = None;
    assert_eq!(
        refusal(&scene_with(plain)),
        CombinedEffectDecompositionError::NoCombinedEffectLayer
    );
}

#[test]
fn refuses_two_combined_effects() {
    let mut scene = scene();
    scene.push_layer(layer());
    scene.pop_layer();
    assert_eq!(refusal(&scene), CombinedEffectDecompositionError::MultipleCombinedEffectLayers);
}

#[test]
fn refuses_a_nested_combined_effect() {
    let mut scene = Scene::new(64, 64);
    scene.push_layer(SceneLayer::clip(SceneClip::Unclipped));
    scene.push_layer(layer());
    scene.pop_layer();
    scene.pop_layer();
    assert_eq!(refusal(&scene), CombinedEffectDecompositionError::NestedCombinedEffectLayer);
    // A second one does not change the first reason.
    scene.push_layer(layer());
    scene.pop_layer();
    assert_eq!(refusal(&scene), CombinedEffectDecompositionError::NestedCombinedEffectLayer);
}

#[test]
fn a_stray_pop_opens_nothing() {
    let mut scene = Scene::new(64, 64);
    scene.pop_layer();
    scene.push_layer(layer());
    scene.pop_layer();
    let effect = decompose_combined_effect(&scene).unwrap();
    assert_eq!(effect.prefix.ops, [SceneOp::PopLayer]);
    assert_eq!(effect.content.ops, []);
}

#[test]
fn refuses_a_layer_that_is_never_closed() {
    let mut scene = scene();
    scene.ops.pop();
    assert_eq!(refusal(&scene), CombinedEffectDecompositionError::UnbalancedLayer);
}

#[test]
fn inner_layers_are_not_taken_for_the_end() {
    let mut scene = Scene::new(64, 64);
    scene.push_layer(layer());
    scene.push_layer(SceneLayer::clip(SceneClip::Unclipped));
    scene.push_op(SceneOp::Other(9));
    scene.pop_layer();
    scene.pop_layer();
    assert_eq!(matching_pop(&scene.ops, 0), Some(4));
    assert_eq!(matching_pop(&scene.ops, 1), Some(3));
    assert_eq!(find_candidate(&scene.ops), Ok(0));
    assert_eq!(decompose_combined_effect(&scene).unwrap().content.ops.len(), 3);
}

#[test]
fn refuses_other_compositions_of_the_layer() {
    let mut blended = layer();
    blended.blend_mode = SceneBlendMode::Other(1);
    assert_eq!(
        refusal(&scene_with(blended)),
        CombinedEffectDecompositionError::UnsupportedLayerComposition
    );
    let mut composed = layer();
    composed.compose = SceneCompose::Other(1);
    assert_eq!(
        refusal(&scene_with(composed)),
        CombinedEffectDecompositionError::UnsupportedLayerComposition
    );
}

#[test]
fn refuses_a_transformed_layer() {
    let mut moved = layer();
    moved.transform_id = 7;
    assert_eq!(
        refusal(&scene_with(moved)),
        CombinedEffectDecompositionError::UnsupportedLayerTransform { transform_id: 7 }
    );
}

#[test]
fn refuses_clips_that_are_not_sharp_rectangles() {
    let mut round = layer();
    round.clip = SceneClip::Rect {
        rect: quad([16.0, 8.0, 48.0, 56.0]),
        radii: quad([0.0, 0.0, 0.0, 2.0]),
    };
    assert_eq!(refusal(&scene_with(round)), CombinedEffectDecompositionError::UnsupportedClip);
    let mut path = layer();
    path.clip = SceneClip::Path(4);
    assert_eq!(refusal(&scene_with(path)), CombinedEffectDecompositionError::UnsupportedClip);
}

#[test]
fn negative_zero_radii_are_sharp() {
    let mut sharp = layer();
    sharp.clip = SceneClip::Rect {
        rect: quad([1.0, 2.0, 3.0, 4.0]),
        radii: quad([0.0, -0.0, 0.0, -0.0]),
    };
    let effect = decompose_combined_effect(&scene_with(sharp)).unwrap();
    assert_eq!(effect.bounds, quad([1.0, 2.0, 3.0, 4.0]));
}

#[test]
fn an_unclipped_layer_fills_the_viewport() {
    let mut open = layer();
    open.clip = SceneClip::Unclipped;
    let effect = decompose_combined_effect(&scene_with(open)).unwrap();
    assert_eq!(effect.bounds, quad([0.0, 0.0, 64.0, 64.0]));
}

#[test]
fn refuses_a_backdrop_filter_that_is_no_blur() {
    let mut inverted = layer();
    inverted.backdrop_filter = Some(SceneFilter::Invert(f(1.0)));
    assert_eq!(
        refusal(&scene_with(inverted)),
        CombinedEffectDecompositionError::UnsupportedBackdropFilter
    );
}

#[test]
fn opacity_is_clamped() {
    let mut bright = layer();
    bright.alpha = f(1.5);
    assert_eq!(decompose_combined_effect(&scene_with(bright)).unwrap().alpha, f(1.0));
    let mut dark = layer();
    dark.alpha = f(-0.5);
    assert_eq!(decompose_combined_effect(&scene_with(dark)).unwrap().alpha, f(0.0));
}

#[test]
fn a_split_can_be_copied_and_changed() {
    let effect = decompose_combined_effect(&scene()).unwrap();
    let mut without_backdrop = effect.clone();
    assert_eq!(without_backdrop, effect);
    without_backdrop.backdrop_radius = f(0.0);
    assert_ne!(without_backdrop, effect);
    assert_eq!(effect.backdrop_radius, f(8.0));
}
