//! What is retained from frame to frame, and what is done to keep it right.
use crate::compositor_surfaces;
use crate::compositor_surfaces::Surface;
use crate::external_images;
use crate::external_images::ExternalImageState;
use crate::external_images::StageAction;
use crate::external_images::StageRun;
use crate::frame::FrameStep;
use crate::frame_laws;
use crate::renderer::Color;
use crate::renderer::ColorLoad;
use crate::renderer::Renderer;
use crate::renderer::Requirement;
use crate::surface_tiles;
use crate::surface_tiles::SurfaceTileState;
use vstd::prelude::*;

verus! {

/// A side of no pixels counts as one pixel; any other stays.
pub proof fn law_sizes_are_at_least_one(size: Seq<u32>)
    requires
        size.len() == 2,
    ensures
        size[0] > 0 ==> external_images::clamped(size).width == size[0],
        size[0] == 0 ==> external_images::clamped(size).width == 1,
        size[1] > 0 ==> external_images::clamped(size).height == size[1],
        size[1] == 0 ==> external_images::clamped(size).height == 1,
{
}

/// An image is staged already exactly if the key, both sides and the generation
/// are those that were staged.
pub proof fn law_only_the_same_is_staged_already(
    images: Map<u64, ExternalImageState>,
    key: u64,
    state: ExternalImageState,
)
    ensures
        external_images::up_to_date(images, key, state) <==> {
            &&& images.contains_key(key)
            &&& images[key].size.width == state.size.width
            &&& images[key].size.height == state.size.height
            &&& images[key].generation == state.generation
        },
{
}

/// What staging an image does, from the first action to the last, by what is
/// staged under its key. Where an image of another width or height is, that one
/// gives way first, whatever a refresh would have reported. Where there is none,
/// or one of this size, a refresh is tried, and only if it does not work is the
/// texture registered and what was derived before dropped. Tiles are dropped
/// where the image is new or has another size.
pub proof fn law_staging_by_what_is_staged(
    images: Map<u64, ExternalImageState>,
    key: u64,
    state: ExternalImageState,
    refreshed: bool,
)
    ensures
        ({
            let run = external_images::stage_run(images, key, state);
            let known = images.contains_key(key);
            let same = known && images[key].size.width == state.size.width
                && images[key].size.height == state.size.height;
            &&& run.key == key
            &&& run.state == state
            &&& run.actions(refreshed) == if known && !same {
                seq![
                    StageAction::Sample,
                    StageAction::Unregister,
                    StageAction::Register,
                    StageAction::InvalidateOverrides,
                    StageAction::ClearTiles,
                    StageAction::Record,
                ]
            } else if same && refreshed {
                seq![StageAction::Sample, StageAction::Refresh, StageAction::Record]
            } else if same {
                seq![
                    StageAction::Sample,
                    StageAction::Refresh,
                    StageAction::Register,
                    StageAction::InvalidateOverrides,
                    StageAction::Record,
                ]
            } else if refreshed {
                seq![
                    StageAction::Sample,
                    StageAction::Refresh,
                    StageAction::ClearTiles,
                    StageAction::Record,
                ]
            } else {
                seq![
                    StageAction::Sample,
                    StageAction::Refresh,
                    StageAction::Register,
                    StageAction::InvalidateOverrides,
                    StageAction::ClearTiles,
                    StageAction::Record,
                ]
            }
        }),
{
    external_images::law_stage_actions(images, key, state, refreshed);
}

/// The texture under a key is dropped exactly when an image of another width or
/// height is staged under it.
pub proof fn law_only_another_size_unregisters(
    images: Map<u64, ExternalImageState>,
    key: u64,
    state: ExternalImageState,
    refreshed: bool,
)
    ensures
        ({
            let run = external_images::stage_run(images, key, state);
            let resized = images.contains_key(key) && (images[key].size.width != state.size.width
                || images[key].size.height != state.size.height);
            &&& run.replaces == resized
            &&& run.new_identity == (!images.contains_key(key) || resized)
            &&& run.actions(refreshed).contains(StageAction::Unregister) <==> resized
        }),
{
    law_staging_by_what_is_staged(images, key, state, refreshed);
    let actions = external_images::stage_run(images, key, state).actions(refreshed);
    if external_images::stage_run(images, key, state).replaces {
        assert(actions[1] == StageAction::Unregister);
    }
}

/// What each action of a run is followed by. Only a refresh looks at what was
/// reported.
pub proof fn law_what_follows_an_action(run: StageRun, refreshed: bool)
    ensures
        ({
            let next = run.following(refreshed);
            let settled = if run.new_identity {
                StageAction::ClearTiles
            } else {
                StageAction::Record
            };
            match run.action {
                StageAction::Sample => run.replaces && next == StageAction::Unregister
                    || !run.replaces && next == StageAction::Refresh,
                StageAction::Unregister => next == StageAction::Register,
                StageAction::Refresh => refreshed && next == settled || !refreshed && next
                    == StageAction::Register,
                StageAction::Register => next == StageAction::InvalidateOverrides,
                StageAction::InvalidateOverrides => next == settled,
                StageAction::ClearTiles => next == StageAction::Record,
                StageAction::Record => next == StageAction::Done,
                StageAction::Done => next == StageAction::Done,
            }
        }),
{
}

/// What retiring does: nothing where nothing was staged; else all tiles go, and
/// before them, where there is a rasterizer, its texture and what was derived.
pub proof fn law_retiring_in_full(staged: bool, rasterizer: bool)
    ensures
        ({
            let actions = external_images::retirement(staged, rasterizer);
            &&& !staged ==> actions.len() == 0
            &&& staged && !rasterizer ==> actions == seq![StageAction::ClearTiles]
            &&& staged && rasterizer ==> actions == seq![
                StageAction::Unregister,
                StageAction::InvalidateOverrides,
                StageAction::ClearTiles,
            ]
        }),
{
}

/// The surface that gives way is one of those with state, and none was used
/// before it; 64 surfaces may have state.
pub proof fn law_oldest_surface_gives_way<C, S>(
    states: Map<u64, SurfaceTileState<C, S>>,
    surface: u64,
)
    ensures
        surface_tiles::MAX_SURFACE_TILE_STATES == 64,
        surface_tiles::least_recently_used(states, surface) <==> states.contains_key(surface) && (
        forall|other: u64| #[trigger]
            states.contains_key(other) ==> !(states[other].last_used < states[surface].last_used)),
{
}

/// A frame lacks a rasterizer exactly if there is none, and else a tile cache
/// exactly if it was made without.
pub proof fn law_what_a_frame_lacks<C, S>(renderer: Renderer<C, S>)
    ensures
        renderer.lacks() == Some(Requirement::Rasterizer) <==> !renderer.enable_vello,
        renderer.lacks() == Some(Requirement::TileCache) <==> renderer.enable_vello
            && renderer.tile_cache_size is None,
        renderer.lacks() is None <==> renderer.enable_vello && renderer.tile_cache_size is Some,
{
}

/// A frame starts from the colour that it is cleared to, and from nothing where
/// it is to be loaded.
pub proof fn law_colour_below_everything(color: Color)
    ensures
        ColorLoad::Clear(color).base() == color,
        ColorLoad::Load.base() == (Color { r: 0, g: 0, b: 0, a: 0 }),
        Color::transparent() == (Color { r: 0, g: 0, b: 0, a: 0 }),
{
}

/// What a renderer's frame says of a surface, from the surfaces that it committed
/// last and those of the frame: a surface that is gone is destroyed, and one that
/// shows where it did not show is declared there, each once.
pub proof fn law_frame_tells_of_surfaces<C, S>(
    renderer: Renderer<C, S>,
    op_count: usize,
    boundaries: Seq<usize>,
    empty_tails: Seq<bool>,
    now: Seq<Surface>,
    surface: Surface,
)
    ensures
        ({
            let last = renderer.compositor_surfaces@;
            let steps = renderer.frame_of(op_count, boundaries, empty_tails, now);
            &&& steps.contains(FrameStep::DestroySurface(surface.key)) <==> (exists|i: int|
                0 <= i < last.len() && (#[trigger] last[i]).key == surface.key) && (forall|j: int|
                0 <= j < now.len() ==> (#[trigger] now[j]).key != surface.key)
            &&& steps.contains(FrameStep::DeclareSurface(surface)) <==> frame_laws::shows_at(
                now,
                surface.key,
                surface.bounds,
            ) && !frame_laws::shows_at(last, surface.key, surface.bounds)
            &&& steps.contains(FrameStep::Present)
            &&& steps.last() == FrameStep::Commit
            &&& steps == crate::frame::frame(
                op_count,
                boundaries,
                empty_tails,
                compositor_surfaces::destroys(last, now),
                compositor_surfaces::declares(last, now),
            )
        }),
{
    let last = renderer.compositor_surfaces@;
    let steps = renderer.frame_of(op_count, boundaries, empty_tails, now);
    frame_laws::law_what_is_said_of_a_surface(last, now, surface.key, surface.bounds);
    compositor_surfaces::law_destroys_what_is_gone(last, now, surface.key);
    compositor_surfaces::law_declares_what_is_new(last, now, surface);
    crate::frame::law_compositor_sees_the_changes(
        op_count,
        boundaries,
        empty_tails,
        last,
        now,
        surface.key,
        surface,
    );
    frame_laws::law_end_of_each_frame(
        op_count,
        boundaries,
        empty_tails,
        compositor_surfaces::destroys(last, now),
        compositor_surfaces::declares(last, now),
    );
    assert(steps[steps.len() - 2] == FrameStep::Present);
}

} // verus!
