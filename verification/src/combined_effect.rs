//! Splitting a scene round one layer that has both a backdrop filter and
//! filters of its own.
//!
//! The shape that is admitted is narrow on purpose: one such layer, outermost,
//! last in the scene, composited normally, untransformed and clipped to a sharp
//! rectangle or not at all. What does not fit is refused with the reason.
use crate::scene;
use crate::scene::duplicate_filters;
use crate::scene::matching_pop;
use crate::scene::LayerModel;
use crate::scene::OpModel;
use crate::scene::Scene;
use crate::scene::SceneBlendMode;
use crate::scene::SceneClip;
use crate::scene::SceneCompose;
use crate::scene::SceneFilter;
use crate::scene::SceneLayer;
use crate::scene::SceneModel;
use crate::scene::SceneOp;
use crate::single;
use crate::single::Single;
use vstd::prelude::*;

verus! {

/// Why a scene was not split.
#[derive(Clone, Copy, Debug, PartialEq, Eq, Structural)]
pub enum CombinedEffectDecompositionError {
    NoCombinedEffectLayer,
    MultipleCombinedEffectLayers,
    NestedCombinedEffectLayer,
    UnbalancedLayer,
    LayerMustBeTrailing,
    NonSquareViewport { width: u32, height: u32 },
    UnsupportedRootComposition,
    UnsupportedLayerComposition,
    UnsupportedLayerTransform { transform_id: u32 },
    UnsupportedClip,
    UnsupportedBackdropFilter,
}

/// A scene split round its combined-effect layer.
#[derive(Debug, PartialEq)]
pub struct CombinedEffectDecomposition {
    /// What lies below the layer.
    pub prefix: Scene,
    /// What the layer holds.
    pub content: Scene,
    /// Where the layer shows, as two corners.
    pub bounds: [Single; 4],
    /// The layer's opacity, between zero and one.
    pub alpha: Single,
    /// How far the backdrop is blurred.
    pub backdrop_radius: Single,
    /// The layer's own filters, in order.
    pub element_filters: Vec<SceneFilter>,
}

/// What a [`CombinedEffectDecomposition`] stands for.
pub struct DecompositionModel {
    pub prefix: SceneModel,
    pub content: SceneModel,
    pub bounds: Seq<Single>,
    pub alpha: Single,
    pub backdrop_radius: Single,
    pub element_filters: Seq<SceneFilter>,
}

impl View for CombinedEffectDecomposition {
    type V = DecompositionModel;

    open spec fn view(&self) -> DecompositionModel {
        DecompositionModel {
            prefix: self.prefix@,
            content: self.content@,
            bounds: self.bounds@,
            alpha: self.alpha,
            backdrop_radius: self.backdrop_radius,
            element_filters: self.element_filters@,
        }
    }
}

impl Clone for CombinedEffectDecomposition {
    fn clone(&self) -> (r: CombinedEffectDecomposition)
        ensures
            r@ == self@,
    {
        CombinedEffectDecomposition {
            prefix: self.prefix.clone(),
            content: self.content.clone(),
            bounds: self.bounds,
            alpha: self.alpha,
            backdrop_radius: self.backdrop_radius,
            element_filters: duplicate_filters(&self.element_filters),
        }
    }
}

/// Whether `op` opens a layer with both a backdrop filter and its own filters.
pub open spec fn combined(op: OpModel) -> bool {
    op matches OpModel::PushLayer(layer) && layer.backdrop_filter is Some && layer.filters.len()
        > 0
}

/// Whether `ops` opens a combined-effect layer at `i`.
pub open spec fn combined_at(ops: Seq<OpModel>, i: int) -> bool {
    0 <= i < ops.len() && combined(ops[i])
}

/// Whether `i` is the first place where `ops` opens a combined-effect layer.
pub open spec fn first_combined(ops: Seq<OpModel>, i: int) -> bool {
    combined_at(ops, i) && forall|j: int| 0 <= j < i ==> !combined_at(ops, j)
}

/// The one combined-effect layer that a scene may have, by the index of its
/// push.
pub open spec fn candidate(ops: Seq<OpModel>) -> Result<int, CombinedEffectDecompositionError> {
    if forall|i: int| !combined_at(ops, i) {
        Err(CombinedEffectDecompositionError::NoCombinedEffectLayer)
    } else {
        let push = choose|i: int| first_combined(ops, i);
        if scene::depth(ops, push) != 0 {
            Err(CombinedEffectDecompositionError::NestedCombinedEffectLayer)
        } else if exists|j: int| j != push && combined_at(ops, j) {
            Err(CombinedEffectDecompositionError::MultipleCombinedEffectLayers)
        } else {
            Ok(push)
        }
    }
}

/// Where a layer shows, if it is clipped to a sharp rectangle or not at all.
pub open spec fn layer_bounds(layer: LayerModel, width: u32, height: u32) -> Option<Seq<Single>> {
    match layer.clip {
        SceneClip::Unclipped => Some(
            seq![Single::zero(), Single::zero(), single::nearest(width as int), single::nearest(height as int)],
        ),
        SceneClip::Rect { rect, radii } => if forall|i: int|
            0 <= i < 4 ==> (#[trigger] radii@[i]).eq_number(Single::zero()) {
            Some(rect@)
        } else {
            None
        },
        SceneClip::Path(_) => None,
    }
}

/// The split of a scene whose combined-effect layer opens at `push` and ends
/// the scene.
pub open spec fn split(scene: SceneModel, push: int) -> Result<
    DecompositionModel,
    CombinedEffectDecompositionError,
> {
    let layer = scene.ops[push]->PushLayer_0;
    let bounds = layer_bounds(layer, scene.viewport_width, scene.viewport_height);
    if layer.blend_mode != SceneBlendMode::Normal || layer.compose != SceneCompose::SrcOver {
        Err(CombinedEffectDecompositionError::UnsupportedLayerComposition)
    } else if layer.transform_id != 0 {
        Err(
            CombinedEffectDecompositionError::UnsupportedLayerTransform {
                transform_id: layer.transform_id,
            },
        )
    } else if bounds is None {
        Err(CombinedEffectDecompositionError::UnsupportedClip)
    } else {
        match layer.backdrop_filter {
            Some(SceneFilter::Blur(radius)) => Ok(
                DecompositionModel {
                    prefix: scene.with_ops(scene.ops.subrange(0, push)),
                    content: scene.with_ops(
                        scene.ops.subrange(push + 1, scene.ops.len() - 1),
                    ),
                    bounds: bounds.unwrap(),
                    alpha: layer.alpha.unit(),
                    backdrop_radius: radius,
                    element_filters: layer.filters,
                },
            ),
            _ => Err(CombinedEffectDecompositionError::UnsupportedBackdropFilter),
        }
    }
}

/// The split of a scene, or the first reason against it.
pub open spec fn decomposition(scene: SceneModel) -> Result<
    DecompositionModel,
    CombinedEffectDecompositionError,
> {
    if scene.viewport_width != scene.viewport_height {
        Err(
            CombinedEffectDecompositionError::NonSquareViewport {
                width: scene.viewport_width,
                height: scene.viewport_height,
            },
        )
    } else if !scene.root_alpha.eq_number(Single::one()) || scene.root_blend_mode
        != SceneBlendMode::Normal {
        Err(CombinedEffectDecompositionError::UnsupportedRootComposition)
    } else {
        match candidate(scene.ops) {
            Err(error) => Err(error),
            Ok(push) => match scene::closing(scene.ops, push) {
                None => Err(CombinedEffectDecompositionError::UnbalancedLayer),
                Some(pop) => if pop + 1 != scene.ops.len() {
                    Err(CombinedEffectDecompositionError::LayerMustBeTrailing)
                } else {
                    split(scene, push)
                },
            },
        }
    }
}

pub proof fn lemma_one_first(ops: Seq<OpModel>, a: int, b: int)
    requires
        first_combined(ops, a),
        first_combined(ops, b),
    ensures
        a == b,
{
    if a < b {
        assert(!combined_at(ops, a));
    } else if b < a {
        assert(!combined_at(ops, b));
    }
}

/// A candidate is a combined-effect layer, the only one, opened with no layer
/// open.
proof fn lemma_candidate(ops: Seq<OpModel>)
    requires
        candidate(ops) is Ok,
    ensures
        combined_at(ops, candidate(ops)->Ok_0),
        scene::depth(ops, candidate(ops)->Ok_0) == 0,
        forall|j: int| j != candidate(ops)->Ok_0 ==> !combined_at(ops, j),
{
    let some = choose|i: int| combined_at(ops, i);
    lemma_first_exists(ops, some);
}

pub proof fn lemma_first_exists(ops: Seq<OpModel>, some: int)
    requires
        combined_at(ops, some),
    ensures
        exists|i: int| first_combined(ops, i),
    decreases some,
{
    if forall|j: int| 0 <= j < some ==> !combined_at(ops, j) {
        assert(first_combined(ops, some));
    } else {
        let earlier = choose|j: int| 0 <= j < some && combined_at(ops, j);
        lemma_first_exists(ops, earlier);
    }
}

/// A split loses nothing and reorders nothing: the scene is its prefix, the
/// push of the combined-effect layer, the content and the pop, in that order.
pub proof fn law_split_keeps_painter_order(whole: SceneModel)
    requires
        decomposition(whole) is Ok,
    ensures
        ({
            let d = decomposition(whole)->Ok_0;
            let push = d.prefix.ops.len() as int;
            &&& combined_at(whole.ops, push)
            &&& whole.ops == d.prefix.ops.push(whole.ops[push]) + d.content.ops.push(
                OpModel::PopLayer,
            )
            &&& d.prefix == whole.with_ops(d.prefix.ops)
            &&& d.content == whole.with_ops(d.content.ops)
        }),
{
    let d = decomposition(whole)->Ok_0;
    let push = candidate(whole.ops)->Ok_0;
    lemma_candidate(whole.ops);
    let pop = scene::closing(whole.ops, push)->Some_0;
    scene::law_closing_op_is_a_pop(whole.ops, push, pop);
    assert(d.prefix.ops.len() == push);
    assert(whole.ops =~= d.prefix.ops.push(whole.ops[push]) + d.content.ops.push(OpModel::PopLayer));
}

/// Neither part of a split has a combined-effect layer left in it.
pub proof fn law_split_leaves_no_combined_effect(whole: SceneModel, i: int)
    requires
        decomposition(whole) is Ok,
    ensures
        !combined_at(decomposition(whole)->Ok_0.prefix.ops, i),
        !combined_at(decomposition(whole)->Ok_0.content.ops, i),
{
    let push = candidate(whole.ops)->Ok_0;
    lemma_candidate(whole.ops);
    assert(!combined_at(whole.ops, i) || i == push);
    assert(!combined_at(whole.ops, push + 1 + i) || i == -1);
}

/// Both parts of a split stand on their own: the prefix leaves no layer open,
/// and the content closes exactly the layers that it opens.
pub proof fn law_split_parts_are_balanced(whole: SceneModel, k: int)
    requires
        decomposition(whole) is Ok,
        0 <= k <= decomposition(whole)->Ok_0.content.ops.len(),
    ensures
        ({
            let d = decomposition(whole)->Ok_0;
            &&& scene::depth(d.prefix.ops, d.prefix.ops.len() as int) == 0
            &&& scene::height(d.content.ops, 0, k) >= 0
            &&& scene::height(d.content.ops, 0, d.content.ops.len() as int) == 0
        }),
{
    let d = decomposition(whole)->Ok_0;
    let push = candidate(whole.ops)->Ok_0;
    lemma_candidate(whole.ops);
    let pop = scene::closing(whole.ops, push)->Some_0;
    scene::law_closing_op_is_a_pop(whole.ops, push, pop);
    scene::lemma_depth_of_prefix(whole.ops, d.prefix.ops, push);
    let n = d.content.ops.len() as int;
    let base = push + 1;
    scene::lemma_height_of_range(d.content.ops, whole.ops, 0, k, base);
    scene::lemma_height_of_range(d.content.ops, whole.ops, 0, n, base);
    scene::lemma_height_adds(whole.ops, push, base, base + k);
    scene::lemma_height_adds(whole.ops, push, base, base + n);
    assert(scene::height(whole.ops, push, push) == 0);
    assert(scene::height(whole.ops, push, base) == 1);
    assert(scene::height(whole.ops, push, base + k) > 0);
    assert(scene::height(whole.ops, push, pop + 1) == scene::height(whole.ops, push, pop) - 1);
}

/// A scene that could be split is refused as soon as anything is painted after
/// its combined-effect layer, instead of losing that paint's place.
pub proof fn law_a_tail_is_refused(whole: SceneModel, tail: OpModel)
    requires
        decomposition(whole) is Ok,
        !combined(tail),
    ensures
        decomposition(whole.with_ops(whole.ops.push(tail))) == Err::<
            DecompositionModel,
            CombinedEffectDecompositionError,
        >(CombinedEffectDecompositionError::LayerMustBeTrailing),
{
    let ops = whole.ops;
    let longer = ops.push(tail);
    let push = candidate(ops)->Ok_0;
    lemma_candidate(ops);
    let pop = scene::closing(ops, push)->Some_0;
    assert forall|j: int| j != push implies !combined_at(longer, j) by {
        assert(!combined_at(ops, j));
    }
    assert(combined_at(longer, push));
    assert(first_combined(longer, push));
    lemma_one_first(longer, push, choose|k: int| first_combined(longer, k));
    scene::lemma_depth_of_prefix(ops, longer, push);
    assert(candidate(longer) == Ok::<int, CombinedEffectDecompositionError>(push));
    assert forall|k: int| push < k <= pop + 1 implies #[trigger] scene::height(longer, push, k)
        == scene::height(ops, push, k) by {
        scene::lemma_height_of_range(ops, longer, push, k, 0);
    }
    assert forall|k: int| push < k <= pop implies #[trigger] scene::height(longer, push, k) > 0 by {
        assert(scene::height(ops, push, k) > 0);
    }
    assert(scene::closes(longer, push, pop));
    scene::law_one_closing_pop(longer, push, pop, scene::closing(longer, push)->Some_0);
}

/// The opacity of a split layer lies between zero and one, unless it was no
/// number to begin with.
pub proof fn law_split_alpha_is_a_fraction(whole: SceneModel)
    requires
        decomposition(whole) is Ok,
    ensures
        ({
            let alpha = decomposition(whole)->Ok_0.alpha;
            alpha.nan() || Single::zero().le(alpha) && alpha.le(Single::one())
        }),
{
    single::lemma_magnitude_increases(0, single::ONE_BITS as int);
}

fn is_combined(op: &SceneOp) -> (r: bool)
    ensures
        r == combined(op@),
{
    match op {
        SceneOp::PushLayer(layer) => layer.backdrop_filter.is_some() && layer.filters.len() > 0,
        _ => false,
    }
}

/// Finds the one combined-effect layer.
pub fn find_candidate(ops: &Vec<SceneOp>) -> (r: Result<usize, CombinedEffectDecompositionError>)
    ensures
        match (r, candidate(scene::ops_model(ops@))) {
            (Ok(push), Ok(expected)) => push == expected,
            (Err(error), Err(expected)) => error == expected,
            _ => false,
        },
        r matches Ok(push) ==> push < ops.len() && combined(ops[push as int]@),
{
    let ghost model = scene::ops_model(ops@);
    let mut open: usize = 0;
    let mut found: Option<usize> = None;
    let mut i: usize = 0;
    while i < ops.len()
        invariant
            i <= ops.len(),
            model == scene::ops_model(ops@),
            open == scene::depth(model, i as int),
            open <= i,
            match found {
                Some(push) => {
                    &&& push < i
                    &&& first_combined(model, push as int)
                    &&& scene::depth(model, push as int) == 0
                    &&& forall|j: int| 0 <= j < i && j != push ==> !combined_at(model, j)
                },
                None => forall|j: int| 0 <= j < i ==> !combined_at(model, j),
            },
        decreases ops.len() - i,
    {
        proof {
            assert(model[i as int] == ops[i as int]@);
        }
        if is_combined(&ops[i]) {
            proof {
                assert(combined_at(model, i as int));
            }
            if found.is_some() {
                proof {
                    let push = found.unwrap() as int;
                    lemma_one_first(model, push, choose|k: int| first_combined(model, k));
                }
                return Err(CombinedEffectDecompositionError::MultipleCombinedEffectLayers);
            }
            proof {
                assert(first_combined(model, i as int));
            }
            if open != 0 {
                proof {
                    lemma_one_first(model, i as int, choose|k: int| first_combined(model, k));
                }
                return Err(CombinedEffectDecompositionError::NestedCombinedEffectLayer);
            }
            found = Some(i);
        }
        match &ops[i] {
            SceneOp::PushLayer(_) => {
                open = open + 1;
            },
            SceneOp::PopLayer => {
                open = open.saturating_sub(1);
            },
            _ => {},
        }
        i = i + 1;
    }
    match found {
        Some(push) => {
            proof {
                assert(combined_at(model, push as int));
                lemma_one_first(model, push as int, choose|k: int| first_combined(model, k));
                assert(model[push as int] == ops[push as int]@);
            }
            Ok(push)
        },
        None => Err(CombinedEffectDecompositionError::NoCombinedEffectLayer),
    }
}

fn bounds_of(layer: &SceneLayer, width: u32, height: u32) -> (r: Option<[Single; 4]>)
    ensures
        match (r, layer_bounds(layer@, width, height)) {
            (Some(bounds), Some(expected)) => bounds@ == expected,
            (None, None) => true,
            _ => false,
        },
{
    match &layer.clip {
        SceneClip::Unclipped => {
            let bounds: [Single; 4] = [
                Single::zero(),
                Single::zero(),
                Single::from_u32(width),
                Single::from_u32(height),
            ];
            proof {
                assert(bounds@ == layer_bounds(layer@, width, height).unwrap());
            }
            Some(bounds)
        },
        SceneClip::Rect { rect, radii } => {
            let zero: Single = Single::zero();
            if radii[0].equals(zero) && radii[1].equals(zero) && radii[2].equals(zero)
                && radii[3].equals(zero) {
                proof {
                    assert forall|i: int| 0 <= i < 4 implies (#[trigger] radii@[i]).eq_number(
                        Single::zero(),
                    ) by {
                        assert(i == 0 || i == 1 || i == 2 || i == 3);
                    }
                }
                Some(*rect)
            } else {
                None
            }
        },
        SceneClip::Path(_) => None,
    }
}

/// Splits a scene round its one combined-effect layer, or says why it cannot.
pub fn decompose_combined_effect(scene: &Scene) -> (r: Result<
    CombinedEffectDecomposition,
    CombinedEffectDecompositionError,
>)
    ensures
        match (r, decomposition(scene@)) {
            (Ok(effect), Ok(expected)) => effect@ == expected,
            (Err(error), Err(expected)) => error == expected,
            _ => false,
        },
{
    if scene.viewport_width != scene.viewport_height {
        return Err(
            CombinedEffectDecompositionError::NonSquareViewport {
                width: scene.viewport_width,
                height: scene.viewport_height,
            },
        );
    }
    if !scene.root_alpha.equals(Single::one()) || scene.root_blend_mode != SceneBlendMode::Normal {
        return Err(CombinedEffectDecompositionError::UnsupportedRootComposition);
    }
    let push: usize = match find_candidate(&scene.ops) {
        Ok(push) => push,
        Err(error) => {
            return Err(error);
        },
    };
    let pop: usize = match matching_pop(&scene.ops, push) {
        Some(pop) => pop,
        None => {
            return Err(CombinedEffectDecompositionError::UnbalancedLayer);
        },
    };
    if pop + 1 != scene.ops.len() {
        return Err(CombinedEffectDecompositionError::LayerMustBeTrailing);
    }
    proof {
        assert(scene@.ops[push as int] == scene.ops[push as int]@);
    }
    match &scene.ops[push] {
        SceneOp::PushLayer(layer) => {
            if layer.blend_mode != SceneBlendMode::Normal || layer.compose
                != SceneCompose::SrcOver {
                return Err(CombinedEffectDecompositionError::UnsupportedLayerComposition);
            }
            if layer.transform_id != 0 {
                return Err(
                    CombinedEffectDecompositionError::UnsupportedLayerTransform {
                        transform_id: layer.transform_id,
                    },
                );
            }
            let bounds: [Single; 4] = match bounds_of(
                layer,
                scene.viewport_width,
                scene.viewport_height,
            ) {
                Some(bounds) => bounds,
                None => {
                    return Err(CombinedEffectDecompositionError::UnsupportedClip);
                },
            };
            match layer.backdrop_filter {
                Some(SceneFilter::Blur(radius)) => Ok(
                    CombinedEffectDecomposition {
                        prefix: scene.slice(0, push),
                        content: scene.slice(push + 1, pop),
                        bounds,
                        alpha: layer.alpha.clamp_unit(),
                        backdrop_radius: radius,
                        element_filters: duplicate_filters(&layer.filters),
                    },
                ),
                _ => Err(CombinedEffectDecompositionError::UnsupportedBackdropFilter),
            }
        },
        _ => Err(CombinedEffectDecompositionError::NoCombinedEffectLayer),
    }
}

} // verus!
