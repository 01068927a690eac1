//! The steps of one frame, in order.
//!
//! The scene is painted once into a master image. Each external texture is
//! composited over it at its boundary, and what the scene paints after that
//! boundary is drawn again on top. Then surfaces come and go, and the frame is
//! presented.
use crate::compositor_surfaces;
use crate::compositor_surfaces::Surface;
use crate::external_texture::ExternalTexturePlacement;
use crate::external_texture::SourceAlpha;
use crate::single;
use crate::single::Single;
use vstd::prelude::*;

verus! {

/// One step of a frame, for the host to carry out.
#[derive(Clone, Copy, Debug, PartialEq, Eq, Structural)]
pub enum FrameStep {
    /// Paint the whole scene into the master image.
    RenderMaster,
    /// Composite the external texture at this place of the list over the master.
    ComposeExternal(usize),
    /// Make the scratch image that tails are drawn into.
    CreateTailTarget,
    /// Draw the scene from this operation on into the cleared scratch image.
    RenderTail(usize),
    /// Composite the scratch image, which holds the scene from this operation
    /// on, over the master, at its [`tail_placement`].
    ComposeTail(usize),
    /// Tell the compositor that the surface with this key is gone.
    DestroySurface(u64),
    /// Tell the compositor of this surface.
    DeclareSurface(Surface),
    /// Hand the master image over.
    Present,
    /// Remember the surfaces of this frame for the next one.
    Commit,
}

/// A boundary within a scene of `op_count` operations.
pub open spec fn clamped(boundary: usize, op_count: usize) -> usize {
    if boundary <= op_count {
        boundary
    } else {
        op_count
    }
}

/// Whether a tail has to be drawn again over external texture `i`: some
/// operation comes after it, and the tail paints something.
pub open spec fn redraws(
    op_count: usize,
    boundaries: Seq<usize>,
    empty_tails: Seq<bool>,
    i: int,
) -> bool {
    clamped(boundaries[i], op_count) < op_count && !empty_tails[i]
}

/// Whether no external texture before `i` needed its tail drawn again.
pub open spec fn no_redraw_before(
    op_count: usize,
    boundaries: Seq<usize>,
    empty_tails: Seq<bool>,
    i: int,
) -> bool {
    forall|j: int| 0 <= j < i ==> !redraws(op_count, boundaries, empty_tails, j)
}

/// The steps for external texture `i`.
pub open spec fn overlay(
    op_count: usize,
    boundaries: Seq<usize>,
    empty_tails: Seq<bool>,
    i: int,
) -> Seq<FrameStep> {
    let compose = seq![FrameStep::ComposeExternal(i as usize)];
    if !redraws(op_count, boundaries, empty_tails, i) {
        compose
    } else {
        let boundary = clamped(boundaries[i], op_count);
        let tail = seq![FrameStep::RenderTail(boundary), FrameStep::ComposeTail(boundary)];
        if no_redraw_before(op_count, boundaries, empty_tails, i) {
            compose + seq![FrameStep::CreateTailTarget] + tail
        } else {
            compose + tail
        }
    }
}

/// The steps for the first `count` external textures.
pub open spec fn overlays(
    op_count: usize,
    boundaries: Seq<usize>,
    empty_tails: Seq<bool>,
    count: nat,
) -> Seq<FrameStep>
    decreases count,
{
    if count == 0 {
        Seq::empty()
    } else {
        overlays(op_count, boundaries, empty_tails, (count - 1) as nat) + overlay(
            op_count,
            boundaries,
            empty_tails,
            count - 1,
        )
    }
}

/// The steps that paint a frame: the scene, then the external textures.
pub open spec fn painting(
    op_count: usize,
    boundaries: Seq<usize>,
    empty_tails: Seq<bool>,
) -> Seq<FrameStep> {
    seq![FrameStep::RenderMaster] + overlays(op_count, boundaries, empty_tails, boundaries.len())
}

/// The steps that end a frame: surfaces that are gone, surfaces that are new or
/// changed, and the hand-over.
pub open spec fn handover(destroys: Seq<u64>, declares: Seq<Surface>) -> Seq<FrameStep> {
    Seq::new(destroys.len(), |i: int| FrameStep::DestroySurface(destroys[i])) + Seq::new(
        declares.len(),
        |i: int| FrameStep::DeclareSurface(declares[i]),
    ) + seq![FrameStep::Present, FrameStep::Commit]
}

/// The steps of a whole frame.
pub open spec fn frame(
    op_count: usize,
    boundaries: Seq<usize>,
    empty_tails: Seq<bool>,
    destroys: Seq<u64>,
    declares: Seq<Surface>,
) -> Seq<FrameStep> {
    painting(op_count, boundaries, empty_tails) + handover(destroys, declares)
}

/// Whether a step paints operation `op` into the master.
pub open spec fn paints(step: FrameStep, op: int) -> bool {
    match step {
        FrameStep::RenderMaster => true,
        FrameStep::ComposeTail(boundary) => boundary <= op,
        _ => false,
    }
}

/// Whether boundaries stand in the order of the scene.
pub open spec fn nondecreasing(op_count: usize, boundaries: Seq<usize>) -> bool {
    forall|i: int, j: int|
        0 <= i <= j < boundaries.len() ==> clamped(#[trigger] boundaries[i], op_count) <= clamped(
            #[trigger] boundaries[j],
            op_count,
        )
}

/// Where in a frame external texture `i` is composited.
pub open spec fn external_position(
    op_count: usize,
    boundaries: Seq<usize>,
    empty_tails: Seq<bool>,
    i: int,
) -> int {
    1 + overlays(op_count, boundaries, empty_tails, i as nat).len() as int
}

/// Clamps a boundary to the operations that a scene has.
pub fn clamp_boundary(boundary: usize, op_count: usize) -> (r: usize)
    ensures
        r == clamped(boundary, op_count),
{
    if boundary <= op_count {
        boundary
    } else {
        op_count
    }
}

/// How a redrawn tail lies over the master: all of the scratch image over all of
/// the viewport, opaque and with straight alpha.
pub fn tail_placement(viewport_width: u32, viewport_height: u32) -> (r: ExternalTexturePlacement)
    ensures
        r.dest_rect@ == seq![
            Single::zero(),
            Single::zero(),
            single::nearest(viewport_width as int),
            single::nearest(viewport_height as int),
        ],
        r.uv@ == seq![Single::zero(), Single::zero(), Single::one(), Single::one()],
        r.opacity == Single::one(),
        r.alpha == SourceAlpha::Straight,
{
    let dest: [Single; 4] = [
        Single::zero(),
        Single::zero(),
        Single::from_u32(viewport_width),
        Single::from_u32(viewport_height),
    ];
    proof {
        assert(dest@ == seq![
            Single::zero(),
            Single::zero(),
            single::nearest(viewport_width as int),
            single::nearest(viewport_height as int),
        ]);
    }
    ExternalTexturePlacement::new(dest)
}

/// Whether external textures are supplied in the order of the scene.
pub fn boundaries_in_order(op_count: usize, boundaries: &Vec<usize>) -> (r: bool)
    ensures
        r == nondecreasing(op_count, boundaries@),
{
    let mut previous: usize = 0;
    let mut i: usize = 0;
    while i < boundaries.len()
        invariant
            i <= boundaries.len(),
            i == 0 ==> previous == 0,
            i > 0 ==> previous == clamped(boundaries@[i - 1], op_count),
            forall|a: int, b: int|
                0 <= a <= b < i ==> clamped(#[trigger] boundaries@[a], op_count) <= clamped(
                    #[trigger] boundaries@[b],
                    op_count,
                ),
        decreases boundaries.len() - i,
    {
        let boundary: usize = clamp_boundary(boundaries[i], op_count);
        if boundary < previous {
            proof {
                assert(clamped(boundaries@[i - 1], op_count) > clamped(
                    boundaries@[i as int],
                    op_count,
                ));
            }
            return false;
        }
        previous = boundary;
        i = i + 1;
    }
    true
}

/// Lists the steps that paint a frame.
///
/// `boundaries` holds, for each external texture, how many scene operations
/// paint before it; `empty_tails` says of each whether the scene paints nothing
/// from there on.
pub fn paint_steps(op_count: usize, boundaries: &Vec<usize>, empty_tails: &Vec<bool>) -> (r: Vec<
    FrameStep,
>)
    requires
        empty_tails.len() == boundaries.len(),
    ensures
        r@ == painting(op_count, boundaries@, empty_tails@),
{
    let mut steps: Vec<FrameStep> = Vec::new();
    steps.push(FrameStep::RenderMaster);
    let ghost first = seq![FrameStep::RenderMaster];
    let mut have_target: bool = false;
    let mut i: usize = 0;
    proof {
        assert(first + overlays(op_count, boundaries@, empty_tails@, 0) == first);
    }
    while i < boundaries.len()
        invariant
            i <= boundaries.len(),
            empty_tails.len() == boundaries.len(),
            first == seq![FrameStep::RenderMaster],
            have_target == !no_redraw_before(op_count, boundaries@, empty_tails@, i as int),
            steps@ == first + overlays(op_count, boundaries@, empty_tails@, i as nat),
        decreases boundaries.len() - i,
    {
        let ghost before = steps@;
        let ghost target = have_target;
        let boundary: usize = clamp_boundary(boundaries[i], op_count);
        steps.push(FrameStep::ComposeExternal(i));
        if boundary < op_count && !empty_tails[i] {
            proof {
                assert(redraws(op_count, boundaries@, empty_tails@, i as int));
            }
            if !have_target {
                steps.push(FrameStep::CreateTailTarget);
                have_target = true;
            }
            steps.push(FrameStep::RenderTail(boundary));
            steps.push(FrameStep::ComposeTail(boundary));
        }
        proof {
            assert(steps@ == before + overlay(op_count, boundaries@, empty_tails@, i as int));
            assert(steps@ == first + (overlays(op_count, boundaries@, empty_tails@, i as nat)
                + overlay(op_count, boundaries@, empty_tails@, i as int)));
            if !target && have_target {
                assert(redraws(op_count, boundaries@, empty_tails@, i as int));
            }
        }
        i = i + 1;
    }
    steps
}

/// Lists the steps that end a frame, given the surfaces that are gone and those
/// that are new or changed.
pub fn handover_steps(destroys: &Vec<u64>, declares: &Vec<Surface>) -> (r: Vec<FrameStep>)
    ensures
        r@ == handover(destroys@, declares@),
{
    let mut steps: Vec<FrameStep> = Vec::new();
    let mut d: usize = 0;
    while d < destroys.len()
        invariant
            d <= destroys.len(),
            steps@ == Seq::new(d as nat, |k: int| FrameStep::DestroySurface(destroys@[k])),
        decreases destroys.len() - d,
    {
        steps.push(FrameStep::DestroySurface(destroys[d]));
        d = d + 1;
    }
    let ghost destroyed = steps@;
    let mut n: usize = 0;
    while n < declares.len()
        invariant
            n <= declares.len(),
            steps@ == destroyed + Seq::new(
                n as nat,
                |k: int| FrameStep::DeclareSurface(declares@[k]),
            ),
        decreases declares.len() - n,
    {
        steps.push(FrameStep::DeclareSurface(declares[n]));
        n = n + 1;
    }
    steps.push(FrameStep::Present);
    steps.push(FrameStep::Commit);
    proof {
        assert(steps@ == handover(destroys@, declares@));
    }
    steps
}

/// Lists the steps of a whole frame: the painting, then the hand-over.
pub fn frame_steps(
    op_count: usize,
    boundaries: &Vec<usize>,
    empty_tails: &Vec<bool>,
    destroys: &Vec<u64>,
    declares: &Vec<Surface>,
) -> (r: Vec<FrameStep>)
    requires
        empty_tails.len() == boundaries.len(),
    ensures
        r@ == frame(op_count, boundaries@, empty_tails@, destroys@, declares@),
{
    let mut steps: Vec<FrameStep> = paint_steps(op_count, boundaries, empty_tails);
    let mut ending: Vec<FrameStep> = handover_steps(destroys, declares);
    steps.append(&mut ending);
    steps
}

/// The steps for fewer external textures begin those for more.
pub proof fn lemma_overlays_prefix(
    op_count: usize,
    boundaries: Seq<usize>,
    empty_tails: Seq<bool>,
    few: nat,
    many: nat,
)
    requires
        few <= many,
    ensures
        ({
            let short = overlays(op_count, boundaries, empty_tails, few);
            let long = overlays(op_count, boundaries, empty_tails, many);
            &&& short.len() <= long.len()
            &&& long.take(short.len() as int) == short
        }),
    decreases many,
{
    let short = overlays(op_count, boundaries, empty_tails, few);
    let long = overlays(op_count, boundaries, empty_tails, many);
    if few < many {
        lemma_overlays_prefix(op_count, boundaries, empty_tails, few, (many - 1) as nat);
        let middle = overlays(op_count, boundaries, empty_tails, (many - 1) as nat);
        assert(long.take(short.len() as int) == middle.take(short.len() as int));
    } else {
        assert(long.take(short.len() as int) == short);
    }
}

/// Which external texture a step among the overlays belongs to.
proof fn lemma_overlay_of(
    op_count: usize,
    boundaries: Seq<usize>,
    empty_tails: Seq<bool>,
    count: nat,
    p: int,
) -> (i: int)
    requires
        0 <= p < overlays(op_count, boundaries, empty_tails, count).len(),
    ensures
        0 <= i < count,
        ({
            let start = overlays(op_count, boundaries, empty_tails, i as nat).len();
            let own = overlay(op_count, boundaries, empty_tails, i);
            &&& start <= p < start + own.len()
            &&& overlays(op_count, boundaries, empty_tails, count)[p] == own[p - start]
        }),
    decreases count,
{
    let before = overlays(op_count, boundaries, empty_tails, (count - 1) as nat);
    if p < before.len() {
        lemma_overlay_of(op_count, boundaries, empty_tails, (count - 1) as nat, p)
    } else {
        count - 1
    }
}

/// The steps of external texture `i` stand together, after those of the ones
/// before it.
pub proof fn lemma_overlay_at(
    op_count: usize,
    boundaries: Seq<usize>,
    empty_tails: Seq<bool>,
    count: nat,
    i: int,
    k: int,
)
    requires
        0 <= i < count,
        0 <= k < overlay(op_count, boundaries, empty_tails, i).len(),
    ensures
        ({
            let start = overlays(op_count, boundaries, empty_tails, i as nat).len();
            &&& start + k < overlays(op_count, boundaries, empty_tails, count).len()
            &&& overlays(op_count, boundaries, empty_tails, count)[start + k] == overlay(
                op_count,
                boundaries,
                empty_tails,
                i,
            )[k]
        }),
{
    let start = overlays(op_count, boundaries, empty_tails, i as nat).len();
    let upto = overlays(op_count, boundaries, empty_tails, (i + 1) as nat);
    let all = overlays(op_count, boundaries, empty_tails, count);
    lemma_overlays_prefix(op_count, boundaries, empty_tails, (i + 1) as nat, count);
    assert(upto[start + k] == overlay(op_count, boundaries, empty_tails, i)[k]);
    assert(all.take(upto.len() as int)[start + k] == all[start + k]);
}

/// Painter's order is kept. The scene is painted first. Once external texture
/// `i` is composited, nothing that belongs below it is painted any more, and
/// what belongs above it is drawn and composited again, if there is anything.
pub proof fn law_painter_order(
    op_count: usize,
    boundaries: Seq<usize>,
    empty_tails: Seq<bool>,
    destroys: Seq<u64>,
    declares: Seq<Surface>,
    i: int,
)
    requires
        0 <= i < boundaries.len(),
        nondecreasing(op_count, boundaries),
    ensures
        ({
            let steps = frame(op_count, boundaries, empty_tails, destroys, declares);
            let place = external_position(op_count, boundaries, empty_tails, i);
            let boundary = clamped(boundaries[i], op_count);
            &&& steps[0] == FrameStep::RenderMaster
            &&& 0 < place < steps.len()
            &&& steps[place] == FrameStep::ComposeExternal(i as usize)
            &&& forall|q: int, op: int|
                place < q < steps.len() && op < boundary ==> !#[trigger] paints(steps[q], op)
            &&& redraws(op_count, boundaries, empty_tails, i) ==> exists|q: int|
                place + 1 < q < steps.len() && #[trigger] steps[q] == FrameStep::ComposeTail(
                    boundary,
                ) && steps[q - 1] == FrameStep::RenderTail(boundary)
        }),
{
    let steps = frame(op_count, boundaries, empty_tails, destroys, declares);
    let place = external_position(op_count, boundaries, empty_tails, i);
    let boundary = clamped(boundaries[i], op_count);
    let all = overlays(op_count, boundaries, empty_tails, boundaries.len());
    let own = overlay(op_count, boundaries, empty_tails, i);
    let start = overlays(op_count, boundaries, empty_tails, i as nat).len() as int;
    lemma_overlay_at(op_count, boundaries, empty_tails, boundaries.len(), i, 0);
    assert(steps[place] == all[place - 1]);
    if redraws(op_count, boundaries, empty_tails, i) {
        let k = own.len() - 1;
        lemma_overlay_at(op_count, boundaries, empty_tails, boundaries.len(), i, k);
        lemma_overlay_at(op_count, boundaries, empty_tails, boundaries.len(), i, k - 1);
        assert(own[k] == FrameStep::ComposeTail(boundary));
        assert(own[k - 1] == FrameStep::RenderTail(boundary));
        assert(steps[1 + start + k] == all[start + k]);
        assert(steps[1 + start + k - 1] == all[start + k - 1]);
    }
    assert forall|q: int, op: int|
        place < q < steps.len() && op < boundary implies !#[trigger] paints(steps[q], op) by {
        if q < 1 + all.len() {
            assert(steps[q] == all[q - 1]);
            let j = lemma_overlay_of(op_count, boundaries, empty_tails, boundaries.len(), q - 1);
            if j < i {
                lemma_overlays_prefix(
                    op_count,
                    boundaries,
                    empty_tails,
                    (j + 1) as nat,
                    i as nat,
                );
            }
            assert(clamped(boundaries[i], op_count) <= clamped(boundaries[j], op_count));
        } else {
            let rest = handover(destroys, declares);
            assert(steps[q] == rest[q - 1 - all.len()]);
        }
    }
}

/// Of two external textures the later one is composited later.
pub proof fn law_externals_keep_their_order(
    op_count: usize,
    boundaries: Seq<usize>,
    empty_tails: Seq<bool>,
    i: int,
    j: int,
)
    requires
        0 <= i < j < boundaries.len(),
    ensures
        external_position(op_count, boundaries, empty_tails, i) < external_position(
            op_count,
            boundaries,
            empty_tails,
            j,
        ),
{
    lemma_overlays_prefix(op_count, boundaries, empty_tails, (i + 1) as nat, j as nat);
}

/// External textures that stay on top cost one composite each and no redraw.
pub proof fn law_topmost_externals_redraw_nothing(
    op_count: usize,
    boundaries: Seq<usize>,
    empty_tails: Seq<bool>,
    count: nat,
)
    requires
        forall|i: int| 0 <= i < count ==> #[trigger] boundaries[i] >= op_count,
    ensures
        overlays(op_count, boundaries, empty_tails, count) == Seq::new(
            count,
            |i: int| FrameStep::ComposeExternal(i as usize),
        ),
    decreases count,
{
    if count > 0 {
        law_topmost_externals_redraw_nothing(
            op_count,
            boundaries,
            empty_tails,
            (count - 1) as nat,
        );
        assert(boundaries[count - 1] >= op_count);
    }
    assert(overlays(op_count, boundaries, empty_tails, count) =~= Seq::new(
        count,
        |i: int| FrameStep::ComposeExternal(i as usize),
    ));
}

/// The scratch image is made before a tail is drawn into it, and only once.
pub proof fn law_one_tail_target(
    op_count: usize,
    boundaries: Seq<usize>,
    empty_tails: Seq<bool>,
    p: int,
    q: int,
)
    requires
        0 <= p < overlays(op_count, boundaries, empty_tails, boundaries.len()).len(),
        0 <= q < overlays(op_count, boundaries, empty_tails, boundaries.len()).len(),
        overlays(op_count, boundaries, empty_tails, boundaries.len())[p]
            == FrameStep::CreateTailTarget,
    ensures
        ({
            let all = overlays(op_count, boundaries, empty_tails, boundaries.len());
            &&& all[q] == FrameStep::CreateTailTarget ==> q == p
            &&& all[q] is RenderTail ==> p < q
        }),
{
    let n = boundaries.len();
    let a = lemma_overlay_of(op_count, boundaries, empty_tails, n, p);
    let b = lemma_overlay_of(op_count, boundaries, empty_tails, n, q);
    assert(redraws(op_count, boundaries, empty_tails, a));
    assert(no_redraw_before(op_count, boundaries, empty_tails, a));
    let all = overlays(op_count, boundaries, empty_tails, n);
    if all[q] == FrameStep::CreateTailTarget || all[q] is RenderTail {
        assert(redraws(op_count, boundaries, empty_tails, b));
        if a < b {
            lemma_overlays_prefix(op_count, boundaries, empty_tails, (a + 1) as nat, b as nat);
        }
    }
}

/// A tail that is drawn is drawn into a scratch image that was made.
pub proof fn law_tail_target_exists(
    op_count: usize,
    boundaries: Seq<usize>,
    empty_tails: Seq<bool>,
    q: int,
)
    requires
        0 <= q < overlays(op_count, boundaries, empty_tails, boundaries.len()).len(),
        overlays(op_count, boundaries, empty_tails, boundaries.len())[q] is RenderTail,
    ensures
        exists|p: int|
            0 <= p < q && #[trigger] overlays(
                op_count,
                boundaries,
                empty_tails,
                boundaries.len(),
            )[p] == FrameStep::CreateTailTarget,
{
    let n = boundaries.len();
    let all = overlays(op_count, boundaries, empty_tails, n);
    let b = lemma_overlay_of(op_count, boundaries, empty_tails, n, q);
    let a = lemma_first_redraw(op_count, boundaries, empty_tails, b);
    let start = overlays(op_count, boundaries, empty_tails, a as nat).len() as int;
    lemma_overlay_at(op_count, boundaries, empty_tails, n, a, 1);
    assert(all[start + 1] == FrameStep::CreateTailTarget);
    if a < b {
        lemma_overlays_prefix(op_count, boundaries, empty_tails, (a + 1) as nat, b as nat);
    }
}

proof fn lemma_first_redraw(
    op_count: usize,
    boundaries: Seq<usize>,
    empty_tails: Seq<bool>,
    some: int,
) -> (first: int)
    requires
        0 <= some,
        redraws(op_count, boundaries, empty_tails, some),
    ensures
        0 <= first <= some,
        redraws(op_count, boundaries, empty_tails, first),
        no_redraw_before(op_count, boundaries, empty_tails, first),
    decreases some,
{
    if no_redraw_before(op_count, boundaries, empty_tails, some) {
        some
    } else {
        let earlier = choose|j: int|
            0 <= j < some && redraws(op_count, boundaries, empty_tails, j);
        lemma_first_redraw(op_count, boundaries, empty_tails, earlier)
    }
}

/// A frame ends in order: all painting, then the surfaces that are gone, then
/// the surfaces that are new, then the hand-over, then the bookkeeping.
pub proof fn law_handover_order(
    op_count: usize,
    boundaries: Seq<usize>,
    empty_tails: Seq<bool>,
    destroys: Seq<u64>,
    declares: Seq<Surface>,
    p: int,
    q: int,
)
    requires
        0 <= p < q < frame(op_count, boundaries, empty_tails, destroys, declares).len(),
    ensures
        ({
            let steps = frame(op_count, boundaries, empty_tails, destroys, declares);
            &&& rank(steps[p]) <= rank(steps[q])
            &&& rank(steps[p]) >= 3 ==> rank(steps[p]) < rank(steps[q])
            &&& steps.last() == FrameStep::Commit
            &&& steps[steps.len() - 2] == FrameStep::Present
        }),
{
    let steps = frame(op_count, boundaries, empty_tails, destroys, declares);
    let all = overlays(op_count, boundaries, empty_tails, boundaries.len());
    let rest = handover(destroys, declares);
    assert forall|k: int| 0 < k < 1 + all.len() implies rank(#[trigger] steps[k]) == 0 by {
        assert(steps[k] == all[k - 1]);
        let i = lemma_overlay_of(op_count, boundaries, empty_tails, boundaries.len(), k - 1);
    }
    assert forall|k: int| 1 + all.len() <= k < steps.len() implies #[trigger] steps[k] == rest[k - 1
        - all.len()] by {}
}

/// What a compositor sees of a frame. Each surface that was there and is not any
/// more is destroyed once; then each one that is new or shows elsewhere is
/// declared once, with where it shows; then the frame is presented.
pub proof fn law_compositor_sees_the_changes(
    op_count: usize,
    boundaries: Seq<usize>,
    empty_tails: Seq<bool>,
    last: Seq<Surface>,
    now: Seq<Surface>,
    key: u64,
    surface: Surface,
)
    ensures
        ({
            let destroys = compositor_surfaces::destroys(last, now);
            let declares = compositor_surfaces::declares(last, now);
            let steps = frame(op_count, boundaries, empty_tails, destroys, declares);
            let start = painting(op_count, boundaries, empty_tails).len() as int;
            let middle = start + destroys.len();
            let (before, after) = (compositor_surfaces::shown(last), compositor_surfaces::shown(now));
            &&& forall|p: int|
                0 <= p < steps.len() ==> (#[trigger] steps[p] is DestroySurface <==> start <= p
                    < middle)
            &&& forall|p: int|
                0 <= p < steps.len() ==> (#[trigger] steps[p] is DeclareSurface <==> middle <= p
                    < steps.len() - 2)
            &&& forall|p: int|
                0 <= p < steps.len() ==> (#[trigger] steps[p] is Present <==> p == steps.len() - 2)
            &&& steps.contains(FrameStep::DestroySurface(key)) <==> before.contains_key(key)
                && !after.contains_key(key)
            &&& steps.contains(FrameStep::DeclareSurface(surface)) <==> {
                &&& after.contains_key(surface.key)
                &&& after[surface.key] == surface.bounds
                &&& !(before.contains_key(surface.key) && before[surface.key] == surface.bounds)
            }
            &&& forall|p: int, q: int|
                start <= p < q < steps.len() ==> #[trigger] steps[p] != #[trigger] steps[q]
        }),
{
    let destroys = compositor_surfaces::destroys(last, now);
    let declares = compositor_surfaces::declares(last, now);
    let steps = frame(op_count, boundaries, empty_tails, destroys, declares);
    let painted = painting(op_count, boundaries, empty_tails);
    let all = overlays(op_count, boundaries, empty_tails, boundaries.len());
    let rest = handover(destroys, declares);
    let start = painted.len() as int;
    let middle = start + destroys.len();
    compositor_surfaces::law_destroys_what_is_gone(last, now, key);
    compositor_surfaces::law_declares_what_is_new(last, now, surface);
    assert forall|p: int| 0 <= p < start implies rank(#[trigger] steps[p]) == 0 by {
        if p > 0 {
            assert(steps[p] == all[p - 1]);
            let i = lemma_overlay_of(op_count, boundaries, empty_tails, boundaries.len(), p - 1);
        }
    }
    assert forall|p: int| start <= p < middle implies #[trigger] steps[p]
        == FrameStep::DestroySurface(destroys[p - start]) by {
        assert(steps[p] == rest[p - start]);
    }
    assert forall|p: int| middle <= p < steps.len() - 2 implies #[trigger] steps[p]
        == FrameStep::DeclareSurface(declares[p - middle]) by {
        assert(steps[p] == rest[p - start]);
    }
    if destroys.contains(key) {
        let i = choose|i: int| 0 <= i < destroys.len() && destroys[i] == key;
        assert(steps[start + i] == FrameStep::DestroySurface(key));
    }
    if declares.contains(surface) {
        let i = choose|i: int| 0 <= i < declares.len() && declares[i] == surface;
        assert(steps[middle + i] == FrameStep::DeclareSurface(surface));
    }
    assert forall|p: int, q: int| start <= p < q < steps.len() implies #[trigger] steps[p]
        != #[trigger] steps[q] by {
        if q < middle {
            assert(destroys[p - start] != destroys[q - start]);
        } else if middle <= p && q < steps.len() - 2 {
            assert(declares[p - middle].key != declares[q - middle].key);
        }
    }
}

/// A frame with the surfaces of the last one tells the compositor of none: it is
/// painted, presented and committed.
pub proof fn law_repeated_surfaces_are_only_presented(
    op_count: usize,
    boundaries: Seq<usize>,
    empty_tails: Seq<bool>,
    surfaces: Seq<Surface>,
)
    ensures
        frame(
            op_count,
            boundaries,
            empty_tails,
            compositor_surfaces::destroys(surfaces, surfaces),
            compositor_surfaces::declares(surfaces, surfaces),
        ) == painting(op_count, boundaries, empty_tails) + seq![
            FrameStep::Present,
            FrameStep::Commit,
        ],
{
    compositor_surfaces::law_unchanged_surfaces_are_not_told(surfaces, surfaces);
    assert(handover(Seq::empty(), Seq::empty()) =~= seq![FrameStep::Present, FrameStep::Commit]);
}

/// The part of a frame that a step belongs to.
pub open spec fn rank(step: FrameStep) -> int {
    match step {
        FrameStep::DestroySurface(_) => 1,
        FrameStep::DeclareSurface(_) => 2,
        FrameStep::Present => 3,
        FrameStep::Commit => 4,
        _ => 0,
    }
}

} // verus!
