//! The part of a scene that the renderer's decisions read: its viewport, its
//! root composition and its list of painting operations.
use crate::single::Single;
use vstd::prelude::*;

verus! {

/// A filter function. Every filter but a blur is one colour-matrix pass.
#[derive(Clone, Copy, Debug, PartialEq, Eq, Structural)]
pub enum SceneFilter {
    /// A Gaussian blur of the given radius.
    Blur(Single),
    /// Inverts colours by the given amount.
    Invert(Single),
    /// Any other colour filter, under the number that the host keeps it by.
    Color(u64),
}

/// How a layer's colours mix with what lies below.
#[derive(Clone, Copy, Debug, PartialEq, Eq, Structural)]
pub enum SceneBlendMode {
    Normal,
    /// Any other mode, under the number that the host keeps it by.
    Other(u32),
}

/// How a layer's coverage combines with what lies below.
#[derive(Clone, Copy, Debug, PartialEq, Eq, Structural)]
pub enum SceneCompose {
    SrcOver,
    /// Any other operator, under the number that the host keeps it by.
    Other(u32),
}

/// What a layer is clipped to.
#[derive(Clone, Copy, Debug, PartialEq)]
pub enum SceneClip {
    Unclipped,
    /// A rectangle given by two corners, with a radius for each corner.
    Rect { rect: [Single; 4], radii: [Single; 4] },
    /// A path, under the number that the host keeps it by.
    Path(u64),
}

/// A group of operations that is composited as one.
#[derive(Debug, PartialEq)]
pub struct SceneLayer {
    pub clip: SceneClip,
    pub alpha: Single,
    pub blend_mode: SceneBlendMode,
    pub compose: SceneCompose,
    pub transform_id: u32,
    /// Applied to what lies below the layer.
    pub backdrop_filter: Option<SceneFilter>,
    /// Applied to the layer itself, in order.
    pub filters: Vec<SceneFilter>,
}

/// What a [`SceneLayer`] stands for.
pub struct LayerModel {
    pub clip: SceneClip,
    pub alpha: Single,
    pub blend_mode: SceneBlendMode,
    pub compose: SceneCompose,
    pub transform_id: u32,
    pub backdrop_filter: Option<SceneFilter>,
    pub filters: Seq<SceneFilter>,
}

impl View for SceneLayer {
    type V = LayerModel;

    open spec fn view(&self) -> LayerModel {
        LayerModel {
            clip: self.clip,
            alpha: self.alpha,
            blend_mode: self.blend_mode,
            compose: self.compose,
            transform_id: self.transform_id,
            backdrop_filter: self.backdrop_filter,
            filters: self.filters@,
        }
    }
}

/// One painting operation.
#[derive(Debug, PartialEq)]
pub enum SceneOp {
    /// Opens a layer.
    PushLayer(SceneLayer),
    /// Closes the innermost open layer.
    PopLayer,
    /// Fills a rectangle, given by two corners, with a colour.
    Rect { rect: [Single; 4], color: [Single; 4] },
    /// Any other operation, under the number that the host keeps it by.
    Other(u64),
}

/// What a [`SceneOp`] stands for.
pub enum OpModel {
    PushLayer(LayerModel),
    PopLayer,
    Rect { rect: [Single; 4], color: [Single; 4] },
    Other(u64),
}

impl View for SceneOp {
    type V = OpModel;

    open spec fn view(&self) -> OpModel {
        match *self {
            SceneOp::PushLayer(layer) => OpModel::PushLayer(layer@),
            SceneOp::PopLayer => OpModel::PopLayer,
            SceneOp::Rect { rect, color } => OpModel::Rect { rect, color },
            SceneOp::Other(id) => OpModel::Other(id),
        }
    }
}

/// What a list of operations stands for.
pub open spec fn ops_model(ops: Seq<SceneOp>) -> Seq<OpModel> {
    Seq::new(ops.len(), |i: int| ops[i]@)
}

/// A scene: operations painted in order, the later over the earlier.
#[derive(Debug, PartialEq)]
pub struct Scene {
    pub viewport_width: u32,
    pub viewport_height: u32,
    pub root_alpha: Single,
    pub root_blend_mode: SceneBlendMode,
    pub ops: Vec<SceneOp>,
}

/// What a [`Scene`] stands for.
pub struct SceneModel {
    pub viewport_width: u32,
    pub viewport_height: u32,
    pub root_alpha: Single,
    pub root_blend_mode: SceneBlendMode,
    pub ops: Seq<OpModel>,
}

impl View for Scene {
    type V = SceneModel;

    open spec fn view(&self) -> SceneModel {
        SceneModel {
            viewport_width: self.viewport_width,
            viewport_height: self.viewport_height,
            root_alpha: self.root_alpha,
            root_blend_mode: self.root_blend_mode,
            ops: ops_model(self.ops@),
        }
    }
}

impl SceneModel {
    /// The scene with its operations exchanged.
    pub open spec fn with_ops(self, ops: Seq<OpModel>) -> SceneModel {
        SceneModel { ops, ..self }
    }
}

/// The layers that are open before operation `n`. A pop with no layer open
/// closes nothing.
pub open spec fn depth(ops: Seq<OpModel>, n: int) -> nat
    decreases n,
{
    if n <= 0 {
        0
    } else {
        let before = depth(ops, n - 1);
        match ops[n - 1] {
            OpModel::PushLayer(_) => before + 1,
            OpModel::PopLayer => if before > 0 {
                (before - 1) as nat
            } else {
                0
            },
            _ => before,
        }
    }
}

/// The layers opened less the layers closed by the operations from `from` up
/// to, and without, `to`.
pub open spec fn height(ops: Seq<OpModel>, from: int, to: int) -> int
    decreases to - from,
{
    if to <= from {
        0
    } else {
        let before = height(ops, from, to - 1);
        match ops[to - 1] {
            OpModel::PushLayer(_) => before + 1,
            OpModel::PopLayer => before - 1,
            _ => before,
        }
    }
}

/// Whether the pop at `pop` closes the layer that the push at `push` opens.
pub open spec fn closes(ops: Seq<OpModel>, push: int, pop: int) -> bool {
    &&& push < pop < ops.len()
    &&& height(ops, push, pop + 1) == 0
    &&& forall|k: int| push < k <= pop ==> #[trigger] height(ops, push, k) > 0
}

/// Where the layer opened at `push` is closed, if it is.
pub open spec fn closing(ops: Seq<OpModel>, push: int) -> Option<int> {
    if exists|pop: int| closes(ops, push, pop) {
        Some(choose|pop: int| closes(ops, push, pop))
    } else {
        None
    }
}

/// A layer is closed in at most one place.
pub proof fn law_one_closing_pop(ops: Seq<OpModel>, push: int, a: int, b: int)
    requires
        closes(ops, push, a),
        closes(ops, push, b),
    ensures
        a == b,
{
    if a < b {
        assert(height(ops, push, a + 1) > 0);
    } else if b < a {
        assert(height(ops, push, b + 1) > 0);
    }
}

/// What closes a layer is a pop.
pub proof fn law_closing_op_is_a_pop(ops: Seq<OpModel>, push: int, pop: int)
    requires
        closes(ops, push, pop),
    ensures
        ops[pop] is PopLayer,
{
    assert(height(ops, push, pop) > 0);
}

/// [`depth`] looks only at the operations before `n`.
pub proof fn lemma_depth_of_prefix(a: Seq<OpModel>, b: Seq<OpModel>, n: int)
    requires
        n <= a.len(),
        n <= b.len(),
        forall|i: int| 0 <= i < n ==> a[i] == b[i],
    ensures
        depth(a, n) == depth(b, n),
    decreases n,
{
    if n > 0 {
        lemma_depth_of_prefix(a, b, n - 1);
    }
}

/// [`height`] looks only at the operations between its ends, wherever they
/// stand.
pub proof fn lemma_height_of_range(a: Seq<OpModel>, b: Seq<OpModel>, from: int, to: int, shift: int)
    requires
        0 <= from,
        to <= a.len(),
        0 <= from + shift,
        to + shift <= b.len(),
        forall|i: int| from <= i < to ==> a[i] == #[trigger] b[i + shift],
    ensures
        height(a, from, to) == height(b, from + shift, to + shift),
    decreases to - from,
{
    if to > from {
        lemma_height_of_range(a, b, from, to - 1, shift);
        assert(a[to - 1] == b[to - 1 + shift]);
    }
}

/// [`height`] adds up over adjoining ranges.
pub proof fn lemma_height_adds(ops: Seq<OpModel>, from: int, middle: int, to: int)
    requires
        from <= middle <= to,
    ensures
        height(ops, from, to) == height(ops, from, middle) + height(ops, middle, to),
    decreases to - middle,
{
    if to > middle {
        lemma_height_adds(ops, from, middle, to - 1);
    }
}

impl SceneLayer {
    /// A layer that does nothing but clip.
    pub fn clip(clip: SceneClip) -> (r: SceneLayer)
        ensures
            r@ == (LayerModel {
                clip,
                alpha: Single::one(),
                blend_mode: SceneBlendMode::Normal,
                compose: SceneCompose::SrcOver,
                transform_id: 0,
                backdrop_filter: None,
                filters: Seq::empty(),
            }),
    {
        SceneLayer {
            clip,
            alpha: Single::one(),
            blend_mode: SceneBlendMode::Normal,
            compose: SceneCompose::SrcOver,
            transform_id: 0,
            backdrop_filter: None,
            filters: Vec::new(),
        }
    }

}

impl Clone for SceneLayer {
    fn clone(&self) -> (r: SceneLayer)
        ensures
            r@ == self@,
    {
        SceneLayer {
            clip: self.clip,
            alpha: self.alpha,
            blend_mode: self.blend_mode,
            compose: self.compose,
            transform_id: self.transform_id,
            backdrop_filter: self.backdrop_filter,
            filters: duplicate_filters(&self.filters),
        }
    }
}

/// A list of the same filters.
pub fn duplicate_filters(filters: &Vec<SceneFilter>) -> (r: Vec<SceneFilter>)
    ensures
        r@ == filters@,
{
    let mut out: Vec<SceneFilter> = Vec::new();
    let mut i: usize = 0;
    while i < filters.len()
        invariant
            i <= filters.len(),
            out@ == filters@.take(i as int),
        decreases filters.len() - i,
    {
        out.push(filters[i]);
        i = i + 1;
    }
    out
}

impl Clone for SceneOp {
    fn clone(&self) -> (r: SceneOp)
        ensures
            r@ == self@,
    {
        match self {
            SceneOp::PushLayer(layer) => SceneOp::PushLayer(layer.clone()),
            SceneOp::PopLayer => SceneOp::PopLayer,
            SceneOp::Rect { rect, color } => SceneOp::Rect { rect: *rect, color: *color },
            SceneOp::Other(id) => SceneOp::Other(*id),
        }
    }
}

impl Scene {
    /// An empty, opaque scene.
    pub fn new(viewport_width: u32, viewport_height: u32) -> (r: Scene)
        ensures
            r@ == (SceneModel {
                viewport_width,
                viewport_height,
                root_alpha: Single::one(),
                root_blend_mode: SceneBlendMode::Normal,
                ops: Seq::empty(),
            }),
    {
        let r: Scene = Scene {
            viewport_width,
            viewport_height,
            root_alpha: Single::one(),
            root_blend_mode: SceneBlendMode::Normal,
            ops: Vec::new(),
        };
        proof {
            assert(r@.ops == Seq::<OpModel>::empty());
        }
        r
    }

    /// Appends an operation.
    pub fn push_op(&mut self, op: SceneOp)
        ensures
            final(self)@ == old(self)@.with_ops(old(self)@.ops.push(op@)),
    {
        self.ops.push(op);
        proof {
            assert(self@.ops == old(self)@.ops.push(op@));
        }
    }

    /// Fills a rectangle.
    pub fn push_rect(&mut self, rect: [Single; 4], color: [Single; 4])
        ensures
            final(self)@ == old(self)@.with_ops(
                old(self)@.ops.push(OpModel::Rect { rect, color }),
            ),
    {
        self.push_op(SceneOp::Rect { rect, color });
    }

    /// Opens a layer.
    pub fn push_layer(&mut self, layer: SceneLayer)
        ensures
            final(self)@ == old(self)@.with_ops(old(self)@.ops.push(OpModel::PushLayer(layer@))),
    {
        self.push_op(SceneOp::PushLayer(layer));
    }

    /// Closes the innermost open layer.
    pub fn pop_layer(&mut self)
        ensures
            final(self)@ == old(self)@.with_ops(old(self)@.ops.push(OpModel::PopLayer)),
    {
        self.push_op(SceneOp::PopLayer);
    }

    /// The scene with only the operations from `from` up to, and without, `to`.
    pub fn slice(&self, from: usize, to: usize) -> (r: Scene)
        requires
            from <= to <= self.ops.len(),
        ensures
            r@ == self@.with_ops(self@.ops.subrange(from as int, to as int)),
    {
        let mut ops: Vec<SceneOp> = Vec::new();
        let mut i: usize = from;
        while i < to
            invariant
                from <= i <= to <= self.ops.len(),
                ops_model(ops@) == self@.ops.subrange(from as int, i as int),
            decreases to - i,
        {
            let ghost before = ops@;
            let op: SceneOp = self.ops[i].clone();
            ops.push(op);
            i = i + 1;
            proof {
                assert(ops_model(ops@) == ops_model(before).push(op@));
                assert(self@.ops.subrange(from as int, i as int) == self@.ops.subrange(
                    from as int,
                    i - 1,
                ).push(self@.ops[i - 1]));
            }
        }
        Scene {
            viewport_width: self.viewport_width,
            viewport_height: self.viewport_height,
            root_alpha: self.root_alpha,
            root_blend_mode: self.root_blend_mode,
            ops,
        }
    }
}

impl Clone for Scene {
    fn clone(&self) -> (r: Scene)
        ensures
            r@ == self@,
    {
        proof {
            assert(self@.ops.subrange(0, self@.ops.len() as int) == self@.ops);
        }
        self.slice(0, self.ops.len())
    }
}

/// Finds the pop that closes the layer opened at `push`.
pub fn matching_pop(ops: &Vec<SceneOp>, push: usize) -> (r: Option<usize>)
    requires
        push < ops.len(),
        ops[push as int]@ is PushLayer,
    ensures
        match r {
            Some(pop) => closes(ops_model(ops@), push as int, pop as int),
            None => forall|pop: int| !closes(ops_model(ops@), push as int, pop),
        },
        r is Some <==> closing(ops_model(ops@), push as int) is Some,
        r matches Some(pop) ==> closing(ops_model(ops@), push as int) == Some(pop as int),
{
    let ghost model = ops_model(ops@);
    let mut open: usize = 1;
    let mut i: usize = push + 1;
    proof {
        assert(model[push as int] is PushLayer);
        assert(height(model, push as int, push as int) == 0);
        assert(height(model, push as int, push + 1) == 1);
    }
    while i < ops.len()
        invariant
            push < i <= ops.len(),
            model == ops_model(ops@),
            open == height(model, push as int, i as int),
            0 < open <= i - push,
            forall|k: int| push < k <= i ==> #[trigger] height(model, push as int, k) > 0,
        decreases ops.len() - i,
    {
        proof {
            assert(model[i as int] == ops[i as int]@);
            assert(height(model, push as int, i + 1) == height(model, push as int, i as int) + (
            match model[i as int] {
                OpModel::PushLayer(_) => 1int,
                OpModel::PopLayer => -1int,
                _ => 0int,
            }));
        }
        match &ops[i] {
            SceneOp::PushLayer(_) => {
                open = open + 1;
            },
            SceneOp::PopLayer => {
                if open == 1 {
                    proof {
                        assert(closes(model, push as int, i as int));
                        law_one_closing_pop(
                            model,
                            push as int,
                            i as int,
                            closing(model, push as int).unwrap(),
                        );
                    }
                    return Some(i);
                }
                open = open - 1;
            },
            _ => {},
        }
        i = i + 1;
    }
    proof {
        assert forall|pop: int| !closes(model, push as int, pop) by {
            if closes(model, push as int, pop) {
                assert(height(model, push as int, pop + 1) > 0);
            }
        }
    }
    None
}

} // verus!
