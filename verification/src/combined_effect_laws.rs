//! What splitting a scene gives, and when and why it is refused.
//!
//! All of it is said of the scene's own operations.
use crate::combined_effect;
use crate::combined_effect::CombinedEffectDecompositionError;
use crate::combined_effect::DecompositionModel;
use crate::scene;
use crate::scene::LayerModel;
use crate::scene::OpModel;
use crate::scene::SceneBlendMode;
use crate::scene::SceneClip;
use crate::scene::SceneCompose;
use crate::scene::SceneFilter;
use crate::scene::SceneModel;
use crate::single;
use crate::single::Single;
use vstd::prelude::*;

verus! {

/// Before the first operation no layer is open. A push opens one more, a pop one
/// less unless none is open, and nothing else changes that.
pub proof fn law_open_layers_are_counted(ops: Seq<OpModel>, n: int)
    requires
        0 <= n < ops.len(),
    ensures
        scene::depth(ops, 0) == 0,
        ops[n] is PushLayer ==> scene::depth(ops, n + 1) == scene::depth(ops, n) + 1,
        ops[n] is PopLayer && scene::depth(ops, n) > 0 ==> scene::depth(ops, n + 1) == scene::depth(
            ops,
            n,
        ) - 1,
        ops[n] is PopLayer && scene::depth(ops, n) == 0 ==> scene::depth(ops, n + 1) == 0,
        !(ops[n] is PushLayer) && !(ops[n] is PopLayer) ==> scene::depth(ops, n + 1)
            == scene::depth(ops, n),
{
}

/// Over a stretch of operations, each push counts one up and each pop one down.
pub proof fn law_pushes_and_pops_are_counted(ops: Seq<OpModel>, from: int, to: int)
    requires
        0 <= from <= to < ops.len(),
    ensures
        scene::height(ops, from, from) == 0,
        scene::height(ops, from, to + 1) == scene::height(ops, from, to) + (if ops[to] is PushLayer {
            1int
        } else if ops[to] is PopLayer {
            -1int
        } else {
            0int
        }),
{
}

/// A layer is closed where, for the first time after its push, as many layers
/// were closed as were opened.
pub proof fn law_layer_closes_at_its_own_pop(ops: Seq<OpModel>, push: int, pop: int)
    ensures
        scene::closes(ops, push, pop) <==> {
            &&& push < pop < ops.len()
            &&& scene::height(ops, push, pop + 1) == 0
            &&& forall|k: int| push < k <= pop ==> #[trigger] scene::height(ops, push, k) > 0
        },
        scene::closing(ops, push) == Some(pop) <==> scene::closes(ops, push, pop),
        scene::closing(ops, push) is None <==> forall|p: int| !scene::closes(ops, push, p),
{
    if scene::closes(ops, push, pop) {
        scene::law_one_closing_pop(ops, push, pop, scene::closing(ops, push)->Some_0);
    }
}

/// Whether an operation opens a layer that filters both what lies below it and
/// itself.
pub open spec fn filters_twice(op: OpModel) -> bool {
    match op {
        OpModel::PushLayer(layer) => layer.backdrop_filter is Some && layer.filters.len() > 0,
        _ => false,
    }
}

/// Whether a scene is square and its root composited plainly.
pub open spec fn plain_root(whole: SceneModel) -> bool {
    &&& whole.viewport_width == whole.viewport_height
    &&& whole.root_alpha == Single::one()
    &&& whole.root_blend_mode == SceneBlendMode::Normal
}

/// Whether the operation at `push`, and no other, opens a layer that filters
/// twice, and does so with no layer open.
pub open spec fn only_layer_at(ops: Seq<OpModel>, push: int) -> bool {
    &&& 0 <= push < ops.len()
    &&& filters_twice(ops[push])
    &&& scene::depth(ops, push) == 0
    &&& forall|i: int| 0 <= i < ops.len() && i != push ==> !filters_twice(#[trigger] ops[i])
}

/// Whether a layer is composited plainly.
pub open spec fn plain_layer(layer: LayerModel) -> bool {
    layer.blend_mode == SceneBlendMode::Normal && layer.compose == SceneCompose::SrcOver
}

/// Whether a number is zero, of either sign.
pub open spec fn is_zero(x: Single) -> bool {
    x.bits == 0 || x.bits == 0x8000_0000
}

/// Whether a layer is clipped to a rectangle with sharp corners, or not at all.
pub open spec fn sharp(clip: SceneClip) -> bool {
    match clip {
        SceneClip::Unclipped => true,
        SceneClip::Rect { rect, radii } => is_zero(radii@[0]) && is_zero(radii@[1]) && is_zero(
            radii@[2],
        ) && is_zero(radii@[3]),
        SceneClip::Path(_) => false,
    }
}

proof fn lemma_same_layers(op: OpModel)
    ensures
        combined_effect::combined(op) == filters_twice(op),
{
}

proof fn lemma_zero(x: Single)
    ensures
        x.eq_number(Single::zero()) <==> is_zero(x),
        x.eq_number(Single::one()) <==> x == Single::one(),
{
    single::lemma_magnitude_increases(0, single::ONE_BITS as int);
    if !x.nan() {
        let u = x.unsigned();
        if u > 0 {
            single::lemma_magnitude_increases(0, u);
        }
        if u < single::ONE_BITS {
            single::lemma_magnitude_increases(u, single::ONE_BITS as int);
        }
        if u > single::ONE_BITS {
            single::lemma_magnitude_increases(single::ONE_BITS as int, u);
        }
    }
}

proof fn lemma_sharp(layer: LayerModel, width: u32, height: u32)
    ensures
        combined_effect::layer_bounds(layer, width, height) is Some <==> sharp(layer.clip),
{
    match layer.clip {
        SceneClip::Rect { rect, radii } => {
            lemma_zero(radii@[0]);
            lemma_zero(radii@[1]);
            lemma_zero(radii@[2]);
            lemma_zero(radii@[3]);
            if sharp(layer.clip) {
                assert forall|i: int| 0 <= i < 4 implies (#[trigger] radii@[i]).eq_number(
                    Single::zero(),
                ) by {
                    assert(i == 0 || i == 1 || i == 2 || i == 3);
                }
            } else {
                assert(!(radii@[0].eq_number(Single::zero()) && radii@[1].eq_number(Single::zero())
                    && radii@[2].eq_number(Single::zero()) && radii@[3].eq_number(Single::zero())));
            }
        },
        _ => {},
    }
}

/// The first layer that filters twice, if there is one.
proof fn lemma_first(ops: Seq<OpModel>) -> (i: int)
    requires
        exists|i: int| 0 <= i < ops.len() && filters_twice(#[trigger] ops[i]),
    ensures
        combined_effect::first_combined(ops, i),
        0 <= i < ops.len(),
        filters_twice(ops[i]),
        forall|j: int| 0 <= j < i ==> !filters_twice(#[trigger] ops[j]),
        forall|j: int| combined_effect::first_combined(ops, j) ==> j == i,
{
    let some = choose|i: int| 0 <= i < ops.len() && filters_twice(#[trigger] ops[i]);
    assert(combined_effect::combined_at(ops, some));
    combined_effect::lemma_first_exists(ops, some);
    let first = choose|i: int| combined_effect::first_combined(ops, i);
    assert forall|j: int| combined_effect::first_combined(ops, j) implies j == first by {
        combined_effect::lemma_one_first(ops, j, first);
    }
    assert forall|j: int| 0 <= j < first implies !filters_twice(#[trigger] ops[j]) by {
        assert(!combined_effect::combined_at(ops, j));
    }
    first
}

/// Why a scene is refused, the first reason in this order, and what a split
/// holds. The result names the push of the layer that filters twice, or of the
/// first such one, and where it is closed.
pub proof fn law_first_reason_or_split(whole: SceneModel) -> (r: (int, int))
    ensures
        ({
            let ops = whole.ops;
            let (push, pop) = r;
            let layer = ops[push]->PushLayer_0;
            let closed = only_layer_at(ops, push) && scene::closes(ops, push, pop);
            let last = closed && pop + 1 == ops.len();
            match combined_effect::decomposition(whole) {
                Err(CombinedEffectDecompositionError::NonSquareViewport { width, height }) => {
                    &&& whole.viewport_width != whole.viewport_height
                    &&& width == whole.viewport_width
                    &&& height == whole.viewport_height
                },
                Err(CombinedEffectDecompositionError::UnsupportedRootComposition) => {
                    &&& whole.viewport_width == whole.viewport_height
                    &&& !plain_root(whole)
                },
                Err(CombinedEffectDecompositionError::NoCombinedEffectLayer) => {
                    &&& plain_root(whole)
                    &&& forall|i: int| 0 <= i < ops.len() ==> !filters_twice(#[trigger] ops[i])
                },
                Err(CombinedEffectDecompositionError::NestedCombinedEffectLayer) => {
                    &&& plain_root(whole)
                    &&& 0 <= push < ops.len()
                    &&& filters_twice(ops[push])
                    &&& scene::depth(ops, push) > 0
                    &&& forall|i: int| 0 <= i < push ==> !filters_twice(#[trigger] ops[i])
                },
                Err(CombinedEffectDecompositionError::MultipleCombinedEffectLayers) => {
                    &&& plain_root(whole)
                    &&& 0 <= push < pop < ops.len()
                    &&& filters_twice(ops[push])
                    &&& filters_twice(ops[pop])
                    &&& scene::depth(ops, push) == 0
                    &&& forall|i: int| 0 <= i < push ==> !filters_twice(#[trigger] ops[i])
                },
                Err(CombinedEffectDecompositionError::UnbalancedLayer) => {
                    &&& plain_root(whole)
                    &&& only_layer_at(ops, push)
                    &&& forall|p: int| !scene::closes(ops, push, p)
                },
                Err(CombinedEffectDecompositionError::LayerMustBeTrailing) => {
                    &&& plain_root(whole)
                    &&& closed
                    &&& pop + 1 != ops.len()
                },
                Err(CombinedEffectDecompositionError::UnsupportedLayerComposition) => {
                    &&& plain_root(whole)
                    &&& last
                    &&& !plain_layer(layer)
                },
                Err(CombinedEffectDecompositionError::UnsupportedLayerTransform { transform_id }) => {
                    &&& plain_root(whole)
                    &&& last
                    &&& plain_layer(layer)
                    &&& transform_id != 0
                    &&& transform_id == layer.transform_id
                },
                Err(CombinedEffectDecompositionError::UnsupportedClip) => {
                    &&& plain_root(whole)
                    &&& last
                    &&& plain_layer(layer)
                    &&& layer.transform_id == 0
                    &&& !sharp(layer.clip)
                },
                Err(CombinedEffectDecompositionError::UnsupportedBackdropFilter) => {
                    &&& plain_root(whole)
                    &&& last
                    &&& plain_layer(layer)
                    &&& layer.transform_id == 0
                    &&& sharp(layer.clip)
                    &&& !(layer.backdrop_filter matches Some(SceneFilter::Blur(_)))
                },
                Ok(parts) => {
                    &&& plain_root(whole)
                    &&& last
                    &&& plain_layer(layer)
                    &&& layer.transform_id == 0
                    &&& sharp(layer.clip)
                    &&& layer.backdrop_filter is Some
                    &&& parts.prefix.ops.len() == push
                },
            }
        }),
{
    let ops = whole.ops;
    lemma_zero(whole.root_alpha);
    if !plain_root(whole) {
        (0, 0)
    } else if !(exists|i: int| 0 <= i < ops.len() && filters_twice(#[trigger] ops[i])) {
        assert forall|i: int| !combined_effect::combined_at(ops, i) by {
            if 0 <= i < ops.len() {
                assert(!filters_twice(ops[i]));
            }
        }
        (0, 0)
    } else {
        let push = lemma_first(ops);
        assert(combined_effect::combined_at(ops, push));
        if scene::depth(ops, push) != 0 {
            (push, push)
        } else if exists|j: int| j != push && combined_effect::combined_at(ops, j) {
            let other = choose|j: int| j != push && combined_effect::combined_at(ops, j);
            assert(filters_twice(ops[other]));
            (push, other)
        } else {
            assert(combined_effect::candidate(ops) == Ok::<int, CombinedEffectDecompositionError>(
                push,
            ));
            assert forall|i: int| 0 <= i < ops.len() && i != push implies !filters_twice(
                #[trigger] ops[i],
            ) by {
                assert(!combined_effect::combined_at(ops, i));
            }
            assert(only_layer_at(ops, push));
            let pop = if scene::closing(ops, push) is None {
                push
            } else {
                scene::closing(ops, push)->Some_0
            };
            law_layer_closes_at_its_own_pop(ops, push, pop);
            lemma_sharp(ops[push]->PushLayer_0, whole.viewport_width, whole.viewport_height);
            (push, pop)
        }
    }
}

/// A split holds all of the layer and of the scene: what lies below the layer,
/// what the layer holds, where it shows, how strongly, how far its backdrop is
/// blurred, and every one of its own filters, in their order.
pub proof fn law_split_holds_all_of_the_layer(whole: SceneModel, parts: DecompositionModel)
    requires
        combined_effect::decomposition(whole) == Ok::<
            DecompositionModel,
            CombinedEffectDecompositionError,
        >(parts),
    ensures
        ({
            let push = parts.prefix.ops.len() as int;
            let layer = whole.ops[push]->PushLayer_0;
            &&& push < whole.ops.len()
            &&& whole.ops[push] is PushLayer
            &&& whole.ops == parts.prefix.ops.push(whole.ops[push]) + parts.content.ops.push(
                OpModel::PopLayer,
            )
            &&& parts.element_filters.len() == layer.filters.len()
            &&& forall|i: int|
                0 <= i < layer.filters.len() ==> parts.element_filters[i]
                    == #[trigger] layer.filters[i]
            &&& layer.backdrop_filter == Some(SceneFilter::Blur(parts.backdrop_radius))
            &&& parts.bounds.len() == 4
            &&& layer.clip matches SceneClip::Rect { rect, radii } ==> parts.bounds == rect@
            &&& layer.clip is Unclipped ==> {
                &&& parts.bounds[0] == Single::zero()
                &&& parts.bounds[1] == Single::zero()
                &&& parts.bounds[2] == single::nearest(whole.viewport_width as int)
                &&& parts.bounds[3] == single::nearest(whole.viewport_height as int)
            }
            &&& layer.alpha.nan() ==> parts.alpha == layer.alpha
            &&& !layer.alpha.nan() && layer.alpha.value() < 0 ==> parts.alpha == Single::zero()
            &&& !layer.alpha.nan() && layer.alpha.value() > Single::one().value() ==> parts.alpha
                == Single::one()
            &&& !layer.alpha.nan() && 0 <= layer.alpha.value() <= Single::one().value()
                ==> parts.alpha == layer.alpha
            &&& parts.prefix.viewport_width == whole.viewport_width
            &&& parts.prefix.viewport_height == whole.viewport_height
            &&& parts.prefix.root_alpha == whole.root_alpha
            &&& parts.prefix.root_blend_mode == whole.root_blend_mode
            &&& parts.content.viewport_width == whole.viewport_width
            &&& parts.content.viewport_height == whole.viewport_height
            &&& parts.content.root_alpha == whole.root_alpha
            &&& parts.content.root_blend_mode == whole.root_blend_mode
        }),
{
    combined_effect::law_split_keeps_painter_order(whole);
    let (push, pop) = law_first_reason_or_split(whole);
    assert(Single::zero().value() == 0);
    single::lemma_magnitude_increases(0, single::ONE_BITS as int);
    let layer = whole.ops[push]->PushLayer_0;
    match layer.clip {
        SceneClip::Rect { rect, radii } => {
            assert(rect@.len() == 4);
        },
        _ => {},
    }
}

/// Every scene of the admitted shape is split, into what it was made of.
pub proof fn law_every_fitting_scene_is_split(
    whole: SceneModel,
    below: Seq<OpModel>,
    layer: LayerModel,
    inside: Seq<OpModel>,
    radius: Single,
) -> (parts: DecompositionModel)
    requires
        plain_root(whole),
        whole.ops == below.push(OpModel::PushLayer(layer)) + inside.push(OpModel::PopLayer),
        layer.filters.len() > 0,
        layer.backdrop_filter == Some(SceneFilter::Blur(radius)),
        plain_layer(layer),
        layer.transform_id == 0,
        sharp(layer.clip),
        forall|i: int| 0 <= i < below.len() ==> !filters_twice(#[trigger] below[i]),
        forall|i: int| 0 <= i < inside.len() ==> !filters_twice(#[trigger] inside[i]),
        scene::depth(below, below.len() as int) == 0,
        forall|k: int| 0 <= k <= inside.len() ==> #[trigger] scene::height(inside, 0, k) >= 0,
        scene::height(inside, 0, inside.len() as int) == 0,
    ensures
        combined_effect::decomposition(whole) == Ok::<
            DecompositionModel,
            CombinedEffectDecompositionError,
        >(parts),
        parts.prefix.ops == below,
        parts.content.ops == inside,
        parts.element_filters == layer.filters,
        parts.backdrop_radius == radius,
{
    let ops = whole.ops;
    let push = below.len() as int;
    let pop = ops.len() - 1;
    assert(ops[push] == OpModel::PushLayer(layer));
    assert(ops[pop] == OpModel::PopLayer);
    assert forall|i: int| 0 <= i < ops.len() && i != push implies !filters_twice(
        #[trigger] ops[i],
    ) by {
        if i < push {
            assert(ops[i] == below[i]);
        } else if i < pop {
            assert(ops[i] == inside[i - push - 1]);
        }
    }
    scene::lemma_depth_of_prefix(below, ops, push);
    lemma_zero(whole.root_alpha);
    assert(combined_effect::combined_at(ops, push));
    assert forall|j: int| j != push implies !combined_effect::combined_at(ops, j) by {
        if 0 <= j < ops.len() {
            assert(!filters_twice(ops[j]));
        }
    }
    assert(combined_effect::first_combined(ops, push));
    combined_effect::lemma_one_first(
        ops,
        push,
        choose|k: int| combined_effect::first_combined(ops, k),
    );
    assert(combined_effect::candidate(ops) == Ok::<int, CombinedEffectDecompositionError>(push));
    assert(scene::height(ops, push, push) == 0);
    assert(scene::height(ops, push, push + 1) == 1);
    assert forall|k: int| push < k <= pop implies #[trigger] scene::height(ops, push, k) > 0 by {
        let j = k - push - 1;
        scene::lemma_height_adds(ops, push, push + 1, k);
        assert forall|i: int| 0 <= i < j implies inside[i] == #[trigger] ops[i + (push + 1)] by {}
        scene::lemma_height_of_range(inside, ops, 0, j, push + 1);
        assert(scene::height(inside, 0, j) >= 0);
    }
    assert(scene::height(ops, push, pop) == 1) by {
        let n = inside.len() as int;
        scene::lemma_height_adds(ops, push, push + 1, pop);
        assert forall|i: int| 0 <= i < n implies inside[i] == #[trigger] ops[i + (push + 1)] by {}
        scene::lemma_height_of_range(inside, ops, 0, n, push + 1);
    }
    assert(scene::closes(ops, push, pop));
    law_layer_closes_at_its_own_pop(ops, push, pop);
    lemma_sharp(layer, whole.viewport_width, whole.viewport_height);
    let parts = combined_effect::decomposition(whole)->Ok_0;
    assert(parts.prefix.ops =~= below);
    assert(parts.content.ops =~= inside);
    parts
}

} // verus!
