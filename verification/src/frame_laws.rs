//! What a frame does, step by step, for whatever scene and textures it is given.
use crate::compositor_surfaces;
use crate::compositor_surfaces::Bounds;
use crate::compositor_surfaces::Surface;
use crate::frame;
use crate::frame::FrameStep;
use vstd::prelude::*;

verus! {

/// A boundary that the scene reaches stays, and any other becomes the end of the
/// scene: the smaller of the two is taken.
pub proof fn law_boundary_is_the_smaller(boundary: usize, op_count: usize)
    ensures
        boundary <= op_count ==> frame::clamped(boundary, op_count) == boundary,
        boundary >= op_count ==> frame::clamped(boundary, op_count) == op_count,
{
}

/// Textures are in order exactly if none comes before one that lies lower in the
/// scene. Places beyond the end of the scene are all the same.
pub proof fn law_textures_are_in_order(op_count: usize, boundaries: Seq<usize>)
    ensures
        frame::nondecreasing(op_count, boundaries) <==> forall|i: int, j: int|
            0 <= i < j < boundaries.len() && #[trigger] boundaries[j] < op_count
                ==> #[trigger] boundaries[i] <= boundaries[j],
{
    if frame::nondecreasing(op_count, boundaries) {
        assert forall|i: int, j: int|
            0 <= i < j < boundaries.len() && #[trigger] boundaries[j]
                < op_count implies #[trigger] boundaries[i] <= boundaries[j] by {
            assert(frame::clamped(boundaries[i], op_count) <= frame::clamped(
                boundaries[j],
                op_count,
            ));
        }
    }
}

/// The steps for each external texture, in full. The first texture follows the
/// painting of the scene; each composite is followed by the redrawing of the
/// scene from the texture's place on, if the scene goes on there and paints
/// something; the scratch image is made once, by the first texture that needs it;
/// and then comes the next texture or the hand-over.
///
/// The result says where the steps of texture `i` begin, and where they end.
pub proof fn law_steps_of_each_texture(
    op_count: usize,
    boundaries: Seq<usize>,
    empty_tails: Seq<bool>,
    destroys: Seq<u64>,
    declares: Seq<Surface>,
    i: int,
) -> (r: (int, int))
    requires
        0 <= i < boundaries.len(),
    ensures
        ({
            let steps = frame::frame(op_count, boundaries, empty_tails, destroys, declares);
            let (place, next) = r;
            let needs_tail = boundaries[i] < op_count && !empty_tails[i];
            let is_first = forall|j: int|
                0 <= j < i ==> (#[trigger] boundaries[j] >= op_count || empty_tails[j]);
            &&& steps[0] == FrameStep::RenderMaster
            &&& 0 < place < next < steps.len()
            &&& i == 0 ==> place == 1
            &&& steps[place] == FrameStep::ComposeExternal(i as usize)
            &&& !needs_tail ==> next == place + 1
            &&& needs_tail ==> {
                &&& next == if is_first {
                    place + 4
                } else {
                    place + 3
                }
                &&& is_first ==> steps[place + 1] == FrameStep::CreateTailTarget
                &&& steps[next - 2] == FrameStep::RenderTail(boundaries[i])
                &&& steps[next - 1] == FrameStep::ComposeTail(boundaries[i])
            }
            &&& i + 1 < boundaries.len() ==> steps[next] == FrameStep::ComposeExternal(
                (i + 1) as usize,
            )
            &&& i + 1 == boundaries.len() ==> next == steps.len() - 2 - destroys.len()
                - declares.len()
        }),
{
    let all = frame::overlays(op_count, boundaries, empty_tails, boundaries.len());
    let steps = frame::frame(op_count, boundaries, empty_tails, destroys, declares);
    let own = frame::overlay(op_count, boundaries, empty_tails, i);
    let start = frame::overlays(op_count, boundaries, empty_tails, i as nat).len() as int;
    assert(frame::redraws(op_count, boundaries, empty_tails, i) <==> boundaries[i] < op_count
        && !empty_tails[i]);
    assert(frame::no_redraw_before(op_count, boundaries, empty_tails, i) <==> forall|j: int|
        0 <= j < i ==> (#[trigger] boundaries[j] >= op_count || empty_tails[j])) by {
        assert forall|j: int| 0 <= j < i implies (frame::redraws(
            op_count,
            boundaries,
            empty_tails,
            j,
        ) <==> !(#[trigger] boundaries[j] >= op_count || empty_tails[j])) by {}
        if frame::no_redraw_before(op_count, boundaries, empty_tails, i) {
            assert forall|j: int| 0 <= j < i implies (#[trigger] boundaries[j] >= op_count
                || empty_tails[j]) by {
                assert(!frame::redraws(op_count, boundaries, empty_tails, j));
            }
        }
    }
    assert forall|k: int| 0 <= k < own.len() implies #[trigger] steps[1 + start + k] == own[k] by {
        frame::lemma_overlay_at(op_count, boundaries, empty_tails, boundaries.len(), i, k);
        assert(steps[1 + start + k] == all[start + k]);
    }
    let place = 1 + start;
    let next = place + own.len();
    assert(steps[1 + start + 0] == own[0]);
    if boundaries[i] < op_count && !empty_tails[i] {
        assert(steps[1 + start + (own.len() - 2)] == own[own.len() - 2]);
        assert(steps[1 + start + (own.len() - 1)] == own[own.len() - 1]);
        assert(steps[1 + start + 1] == own[1]);
    }
    assert(frame::overlays(op_count, boundaries, empty_tails, (i + 1) as nat).len() == start
        + own.len());
    frame::lemma_overlay_at(op_count, boundaries, empty_tails, boundaries.len(), i, 0);
    if i + 1 < boundaries.len() {
        frame::lemma_overlay_at(op_count, boundaries, empty_tails, boundaries.len(), i + 1, 0);
        assert(steps[next] == all[next - 1]);
    } else {
        assert(all.len() == start + own.len());
    }
    frame::lemma_overlays_prefix(
        op_count,
        boundaries,
        empty_tails,
        (i + 1) as nat,
        boundaries.len(),
    );
    (place, next)
}

/// A frame without external textures is the painting of the scene and the
/// hand-over.
pub proof fn law_frame_without_textures(
    op_count: usize,
    empty_tails: Seq<bool>,
    destroys: Seq<u64>,
    declares: Seq<Surface>,
)
    ensures
        ({
            let steps = frame::frame(op_count, Seq::empty(), empty_tails, destroys, declares);
            &&& steps.len() == 3 + destroys.len() + declares.len()
            &&& steps[0] == FrameStep::RenderMaster
        }),
{
}

/// The end of each frame, in full: the surfaces that are gone and those that are
/// new, each list in its order, then the hand-over and the bookkeeping.
pub proof fn law_end_of_each_frame(
    op_count: usize,
    boundaries: Seq<usize>,
    empty_tails: Seq<bool>,
    destroys: Seq<u64>,
    declares: Seq<Surface>,
)
    ensures
        ({
            let steps = frame::frame(op_count, boundaries, empty_tails, destroys, declares);
            let n = steps.len() as int;
            let start = n - 2 - destroys.len() - declares.len();
            &&& start > 0
            &&& forall|i: int|
                0 <= i < destroys.len() ==> steps[start + i] == FrameStep::DestroySurface(
                    #[trigger] destroys[i],
                )
            &&& forall|i: int|
                0 <= i < declares.len() ==> steps[start + destroys.len() + i]
                    == FrameStep::DeclareSurface(#[trigger] declares[i])
            &&& steps[n - 2] == FrameStep::Present
            &&& steps[n - 1] == FrameStep::Commit
        }),
{
    let steps = frame::frame(op_count, boundaries, empty_tails, destroys, declares);
    let painted = frame::painting(op_count, boundaries, empty_tails);
    let rest = frame::handover(destroys, declares);
    let start = painted.len() as int;
    assert forall|i: int| 0 <= i < destroys.len() implies steps[start + i]
        == FrameStep::DestroySurface(#[trigger] destroys[i]) by {
        assert(steps[start + i] == rest[i]);
    }
    assert forall|i: int| 0 <= i < declares.len() implies steps[start + destroys.len() + i]
        == FrameStep::DeclareSurface(#[trigger] declares[i]) by {
        assert(steps[start + destroys.len() + i] == rest[destroys.len() + i]);
    }
}

/// Every operation that belongs above an external texture is painted again after
/// it, and, where textures come in the order of the scene, no operation that
/// belongs below it is.
pub proof fn law_operations_keep_their_side(
    op_count: usize,
    boundaries: Seq<usize>,
    empty_tails: Seq<bool>,
    destroys: Seq<u64>,
    declares: Seq<Surface>,
    i: int,
    op: int,
) -> (r: (int, int))
    requires
        0 <= i < boundaries.len(),
        0 <= op < op_count,
    ensures
        ({
            let steps = frame::frame(op_count, boundaries, empty_tails, destroys, declares);
            let (place, again) = r;
            &&& 0 < place < steps.len()
            &&& steps[place] == FrameStep::ComposeExternal(i as usize)
            &&& boundaries[i] <= op && !empty_tails[i] ==> {
                &&& place < again < steps.len()
                &&& steps[again - 1] == FrameStep::RenderTail(boundaries[i])
                &&& steps[again] == FrameStep::ComposeTail(boundaries[i])
            }
            &&& op < boundaries[i] && (forall|a: int, b: int|
                0 <= a < b < boundaries.len() && #[trigger] boundaries[b] < op_count
                    ==> #[trigger] boundaries[a] <= boundaries[b]) ==> forall|q: int|
                place < q < steps.len() ==> match #[trigger] steps[q] {
                    FrameStep::RenderMaster => false,
                    FrameStep::ComposeTail(from) => from > op,
                    _ => true,
                }
        }),
{
    let steps = frame::frame(op_count, boundaries, empty_tails, destroys, declares);
    let (place, next) = law_steps_of_each_texture(
        op_count,
        boundaries,
        empty_tails,
        destroys,
        declares,
        i,
    );
    if op < boundaries[i] && (forall|a: int, b: int|
        0 <= a < b < boundaries.len() && #[trigger] boundaries[b] < op_count
            ==> #[trigger] boundaries[a] <= boundaries[b]) {
        law_textures_are_in_order(op_count, boundaries);
        frame::law_painter_order(op_count, boundaries, empty_tails, destroys, declares, i);
        let own = frame::external_position(op_count, boundaries, empty_tails, i);
        frame::lemma_overlay_at(op_count, boundaries, empty_tails, boundaries.len(), i, 0);
        assert forall|q: int| own < q < steps.len() implies match #[trigger] steps[q] {
            FrameStep::RenderMaster => false,
            FrameStep::ComposeTail(from) => from > op,
            _ => true,
        } by {
            assert(!frame::paints(steps[q], op));
        }
        (own, next - 1)
    } else {
        (place, next - 1)
    }
}

/// What the compositor hears of a surface, from the two lists alone. The last
/// entry of a key says where its surface shows. A surface that the last frame
/// showed and this one does not is destroyed; one that shows where it did not
/// show is declared there; of no other is anything said.
pub proof fn law_what_is_said_of_a_surface(
    last: Seq<Surface>,
    now: Seq<Surface>,
    key: u64,
    bounds: Bounds,
)
    ensures
        compositor_surfaces::destroys(last, now).contains(key) <==> (exists|i: int|
            0 <= i < last.len() && (#[trigger] last[i]).key == key) && (forall|j: int|
            0 <= j < now.len() ==> (#[trigger] now[j]).key != key),
        compositor_surfaces::declares(last, now).contains(Surface { key, bounds })
            <==> shows_at(now, key, bounds) && !shows_at(last, key, bounds),
{
    compositor_surfaces::law_destroys_what_is_gone(last, now, key);
    compositor_surfaces::law_declares_what_is_new(last, now, Surface { key, bounds });
    law_shown_is_the_last_entry(last, key, bounds);
    law_shown_is_the_last_entry(now, key, bounds);
}

/// Surfaces that are gone are named in the order of the last frame. The result
/// says where that frame lists the two.
pub proof fn law_gone_surfaces_keep_their_order(
    last: Seq<Surface>,
    now: Seq<Surface>,
    n: nat,
    p: int,
    q: int,
) -> (r: (int, int))
    requires
        n <= last.len(),
        0 <= p < q < compositor_surfaces::destroyed(last, now, n).len(),
    ensures
        0 <= r.0 < r.1 < n,
        last[r.0].key == compositor_surfaces::destroyed(last, now, n)[p],
        last[r.1].key == compositor_surfaces::destroyed(last, now, n)[q],
    decreases n,
{
    let m = (n - 1) as nat;
    let before = compositor_surfaces::destroyed(last, now, m);
    if q < before.len() {
        law_gone_surfaces_keep_their_order(last, now, m, p, q)
    } else {
        (lemma_gone_surface_at(last, now, m, p), n - 1)
    }
}

proof fn lemma_gone_surface_at(last: Seq<Surface>, now: Seq<Surface>, n: nat, p: int) -> (i: int)
    requires
        n <= last.len(),
        0 <= p < compositor_surfaces::destroyed(last, now, n).len(),
    ensures
        0 <= i < n,
        last[i].key == compositor_surfaces::destroyed(last, now, n)[p],
    decreases n,
{
    let m = (n - 1) as nat;
    if p < compositor_surfaces::destroyed(last, now, m).len() {
        lemma_gone_surface_at(last, now, m, p)
    } else {
        n - 1
    }
}

/// Surfaces that are new are named in the order of the frame. The result says
/// where the frame lists the two.
pub proof fn law_new_surfaces_keep_their_order(
    last: Seq<Surface>,
    now: Seq<Surface>,
    n: nat,
    p: int,
    q: int,
) -> (r: (int, int))
    requires
        n <= now.len(),
        0 <= p < q < compositor_surfaces::declared(last, now, n).len(),
    ensures
        0 <= r.0 < r.1 < n,
        now[r.0] == compositor_surfaces::declared(last, now, n)[p],
        now[r.1] == compositor_surfaces::declared(last, now, n)[q],
    decreases n,
{
    let m = (n - 1) as nat;
    let before = compositor_surfaces::declared(last, now, m);
    if q < before.len() {
        law_new_surfaces_keep_their_order(last, now, m, p, q)
    } else {
        (lemma_new_surface_at(last, now, m, p), n - 1)
    }
}

proof fn lemma_new_surface_at(last: Seq<Surface>, now: Seq<Surface>, n: nat, p: int) -> (i: int)
    requires
        n <= now.len(),
        0 <= p < compositor_surfaces::declared(last, now, n).len(),
    ensures
        0 <= i < n,
        now[i] == compositor_surfaces::declared(last, now, n)[p],
    decreases n,
{
    let m = (n - 1) as nat;
    if p < compositor_surfaces::declared(last, now, m).len() {
        lemma_new_surface_at(last, now, m, p)
    } else {
        n - 1
    }
}

/// Whether the last entry of a key in a list has these bounds.
pub open spec fn shows_at(list: Seq<Surface>, key: u64, bounds: Bounds) -> bool {
    exists|i: int|
        0 <= i < list.len() && #[trigger] list[i] == (Surface { key, bounds }) && forall|j: int|
            i < j < list.len() ==> (#[trigger] list[j]).key != key
}

/// A list shows the keys that it has entries of, each where its last entry says.
pub proof fn law_shown_is_the_last_entry(list: Seq<Surface>, key: u64, bounds: Bounds)
    ensures
        compositor_surfaces::shown(list).contains_key(key) <==> exists|i: int|
            0 <= i < list.len() && (#[trigger] list[i]).key == key,
        compositor_surfaces::shown(list).contains_key(key) && compositor_surfaces::shown(list)[key]
            == bounds <==> shows_at(list, key, bounds),
    decreases list.len(),
{
    if list.len() > 0 {
        let shorter = list.drop_last();
        let n = list.len() - 1;
        law_shown_is_the_last_entry(shorter, key, bounds);
        if list.last().key == key {
            assert(list[n].key == key);
            if list.last().bounds == bounds {
                assert(list[n] == (Surface { key, bounds }));
            }
        } else {
            if exists|i: int| 0 <= i < list.len() && (#[trigger] list[i]).key == key {
                let i = choose|i: int| 0 <= i < list.len() && (#[trigger] list[i]).key == key;
                assert(shorter[i].key == key);
            }
            if exists|i: int| 0 <= i < shorter.len() && (#[trigger] shorter[i]).key == key {
                let i = choose|i: int|
                    0 <= i < shorter.len() && (#[trigger] shorter[i]).key == key;
                assert(list[i].key == key);
            }
            if shows_at(shorter, key, bounds) {
                let i = choose|i: int|
                    0 <= i < shorter.len() && #[trigger] shorter[i] == (Surface { key, bounds })
                        && forall|j: int|
                        i < j < shorter.len() ==> (#[trigger] shorter[j]).key != key;
                assert(list[i] == (Surface { key, bounds }));
                assert forall|j: int| i < j < list.len() implies (#[trigger] list[j]).key
                    != key by {
                    if j < n {
                        assert(shorter[j].key != key);
                    }
                }
            }
            if shows_at(list, key, bounds) {
                let i = choose|i: int|
                    0 <= i < list.len() && #[trigger] list[i] == (Surface { key, bounds })
                        && forall|j: int|
                        i < j < list.len() ==> (#[trigger] list[j]).key != key;
                assert(shorter[i] == (Surface { key, bounds }));
                assert forall|j: int| i < j < shorter.len() implies (#[trigger] shorter[j]).key
                    != key by {
                    assert(list[j].key != key);
                }
            }
        }
    }
}

} // verus!
