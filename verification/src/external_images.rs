//! Host-produced images that are copied into the renderer's own atlas.
//!
//! Staging an image alternates between work on the graphics device and
//! decisions. [`StageRun`] makes the decisions: it names the next action, the
//! host performs it and reports back. Retiring one needs no decision on the way,
//! so its actions are listed at once.
use crate::pipeline;
use crate::pipeline::TextureUsage;
use std::collections::HashMap;
use vstd::prelude::*;

verus! {

broadcast use vstd::std_specs::hash::group_hash_axioms;

/// The extent of an image in pixels.
#[derive(Clone, Copy, Debug, PartialEq, Eq, Structural)]
pub struct ImageSize {
    pub width: u32,
    pub height: u32,
}

/// What was last staged under a key.
#[derive(Clone, Copy, Debug, PartialEq, Eq, Structural)]
pub struct ExternalImageState {
    pub size: ImageSize,
    pub generation: u64,
}

/// What the host has to do next for an image.
#[derive(Clone, Copy, Debug, PartialEq, Eq, Structural)]
pub enum StageAction {
    /// Sample the producer's texture into a staging texture.
    Sample,
    /// Drop the texture registered under the key.
    Unregister,
    /// Try to put the staging texture in place of the one registered under the
    /// key, and report whether that worked.
    Refresh,
    /// Register the staging texture under the key.
    Register,
    /// Drop what was derived from the textures registered before.
    InvalidateOverrides,
    /// Drop all tiles, shared and per surface.
    ClearTiles,
    /// Remember what was staged.
    Record,
    /// Nothing more.
    Done,
}

/// One image on its way into the atlas.
#[derive(Clone, Copy, Debug, PartialEq, Eq, Structural)]
pub struct StageRun {
    pub key: u64,
    pub state: ExternalImageState,
    /// Whether an image of another size has to give way.
    pub replaces: bool,
    /// Whether tiles painted so far do not know this image.
    pub new_identity: bool,
    pub action: StageAction,
}

/// The image that a producer's texture is sampled into.
#[derive(Clone, Copy, Debug, PartialEq, Eq)]
pub struct StagingImage {
    pub size: ImageSize,
    /// The device's name for how pixels are stored.
    pub format: &'static str,
    pub usage: TextureUsage,
}

/// The images that are staged, by their keys.
pub struct ExternalImages {
    pub map: HashMap<u64, ExternalImageState>,
}

/// A size with neither side zero.
pub open spec fn clamped(size: Seq<u32>) -> ImageSize {
    ImageSize {
        width: if size[0] == 0 {
            1
        } else {
            size[0]
        },
        height: if size[1] == 0 {
            1
        } else {
            size[1]
        },
    }
}

/// Whether exactly this is staged under the key already.
pub open spec fn up_to_date(
    images: Map<u64, ExternalImageState>,
    key: u64,
    state: ExternalImageState,
) -> bool {
    images.contains_key(key) && images[key] == state
}

/// The run that stages an image which is not up to date.
pub open spec fn stage_run(
    images: Map<u64, ExternalImageState>,
    key: u64,
    state: ExternalImageState,
) -> StageRun {
    let known = images.contains_key(key);
    let resized = known && images[key].size != state.size;
    StageRun {
        key,
        state,
        replaces: resized,
        new_identity: !known || resized,
        action: StageAction::Sample,
    }
}

impl StageRun {
    /// What follows once the atlas holds the image.
    pub open spec fn settle(self) -> StageAction {
        if self.new_identity {
            StageAction::ClearTiles
        } else {
            StageAction::Record
        }
    }

    /// What follows the current action. `refreshed` is what a refresh reported.
    pub open spec fn following(self, refreshed: bool) -> StageAction {
        match self.action {
            StageAction::Sample => if self.replaces {
                StageAction::Unregister
            } else {
                StageAction::Refresh
            },
            StageAction::Unregister => StageAction::Register,
            StageAction::Refresh => if refreshed {
                self.settle()
            } else {
                StageAction::Register
            },
            StageAction::Register => StageAction::InvalidateOverrides,
            StageAction::InvalidateOverrides => self.settle(),
            StageAction::ClearTiles => StageAction::Record,
            StageAction::Record => StageAction::Done,
            StageAction::Done => StageAction::Done,
        }
    }

    /// How many actions are left at most.
    pub open spec fn remaining(self) -> nat {
        match self.action {
            StageAction::Sample => 6,
            StageAction::Unregister => 5,
            StageAction::Refresh => 5,
            StageAction::Register => 4,
            StageAction::InvalidateOverrides => 3,
            StageAction::ClearTiles => 2,
            StageAction::Record => 1,
            StageAction::Done => 0,
        }
    }

    /// All actions from the current one on, given what a refresh reports.
    pub open spec fn actions(self, refreshed: bool) -> Seq<StageAction>
        decreases self.remaining(),
    {
        if self.action == StageAction::Done {
            Seq::empty()
        } else {
            seq![self.action] + (StageRun {
                action: self.following(refreshed),
                ..self
            }).actions(refreshed)
        }
    }

    /// Describes the image that the producer's texture is sampled into. It can
    /// be drawn to, sampled and copied from, whatever the producer's allows.
    pub fn staging_image(&self) -> (r: StagingImage)
        ensures
            r.size == self.state.size,
            r.format@ == pipeline::effect_format(),
            r.usage == (TextureUsage {
                render_attachment: true,
                texture_binding: true,
                copy_src: true,
                copy_dst: false,
                storage_binding: false,
            }),
    {
        StagingImage {
            size: self.state.size,
            format: "Rgba8Unorm",
            usage: TextureUsage::intermediate(),
        }
    }

    /// Moves on to the next action. `refreshed` is what the refresh reported;
    /// it is not looked at after any other action.
    pub fn advance(&mut self, refreshed: bool)
        ensures
            *final(self) == (StageRun { action: old(self).following(refreshed), ..*old(self) }),
            old(self).action != StageAction::Done ==> final(self).remaining()
                < old(self).remaining(),
    {
        let settle: StageAction = if self.new_identity {
            StageAction::ClearTiles
        } else {
            StageAction::Record
        };
        self.action = match self.action {
            StageAction::Sample => if self.replaces {
                StageAction::Unregister
            } else {
                StageAction::Refresh
            },
            StageAction::Unregister => StageAction::Register,
            StageAction::Refresh => if refreshed {
                settle
            } else {
                StageAction::Register
            },
            StageAction::Register => StageAction::InvalidateOverrides,
            StageAction::InvalidateOverrides => settle,
            StageAction::ClearTiles => StageAction::Record,
            StageAction::Record => StageAction::Done,
            StageAction::Done => StageAction::Done,
        };
    }
}

/// Everything that is done for an image, from its first action to its last.
pub proof fn law_stage_actions(
    images: Map<u64, ExternalImageState>,
    key: u64,
    state: ExternalImageState,
    refreshed: bool,
)
    ensures
        ({
            let run = stage_run(images, key, state);
            run.actions(refreshed) == if run.replaces {
                seq![
                    StageAction::Sample,
                    StageAction::Unregister,
                    StageAction::Register,
                    StageAction::InvalidateOverrides,
                    StageAction::ClearTiles,
                    StageAction::Record,
                ]
            } else if run.new_identity && refreshed {
                seq![
                    StageAction::Sample,
                    StageAction::Refresh,
                    StageAction::ClearTiles,
                    StageAction::Record,
                ]
            } else if run.new_identity {
                seq![
                    StageAction::Sample,
                    StageAction::Refresh,
                    StageAction::Register,
                    StageAction::InvalidateOverrides,
                    StageAction::ClearTiles,
                    StageAction::Record,
                ]
            } else if refreshed {
                seq![StageAction::Sample, StageAction::Refresh, StageAction::Record]
            } else {
                seq![
                    StageAction::Sample,
                    StageAction::Refresh,
                    StageAction::Register,
                    StageAction::InvalidateOverrides,
                    StageAction::Record,
                ]
            }
        }),
{
    reveal_with_fuel(StageRun::actions, 8);
    let run = stage_run(images, key, state);
    let all = run.actions(refreshed);
    if run.replaces {
        assert(all == seq![
            StageAction::Sample,
            StageAction::Unregister,
            StageAction::Register,
            StageAction::InvalidateOverrides,
            StageAction::ClearTiles,
            StageAction::Record,
        ]);
    } else if run.new_identity && refreshed {
        assert(all == seq![
            StageAction::Sample,
            StageAction::Refresh,
            StageAction::ClearTiles,
            StageAction::Record,
        ]);
    } else if run.new_identity {
        assert(all == seq![
            StageAction::Sample,
            StageAction::Refresh,
            StageAction::Register,
            StageAction::InvalidateOverrides,
            StageAction::ClearTiles,
            StageAction::Record,
        ]);
    } else if refreshed {
        assert(all == seq![StageAction::Sample, StageAction::Refresh, StageAction::Record]);
    } else {
        assert(all == seq![
            StageAction::Sample,
            StageAction::Refresh,
            StageAction::Register,
            StageAction::InvalidateOverrides,
            StageAction::Record,
        ]);
    }
}

/// Tiles are dropped exactly when an image appears or changes its size. New
/// content at the same size keeps them.
pub proof fn law_tiles_are_dropped_with_the_identity(
    images: Map<u64, ExternalImageState>,
    key: u64,
    state: ExternalImageState,
    refreshed: bool,
)
    ensures
        stage_run(images, key, state).actions(refreshed).contains(StageAction::ClearTiles) <==> (
        !images.contains_key(key) || images[key].size != state.size),
{
    law_stage_actions(images, key, state, refreshed);
    let run = stage_run(images, key, state);
    let all = run.actions(refreshed);
    if run.new_identity {
        assert(all[all.len() - 2] == StageAction::ClearTiles);
    }
}

/// Staging the same content again does nothing, and staging under one key does
/// not concern another.
pub proof fn law_staging_is_idempotent(
    images: Map<u64, ExternalImageState>,
    key: u64,
    state: ExternalImageState,
    other: u64,
    other_state: ExternalImageState,
)
    requires
        other != key,
    ensures
        up_to_date(images.insert(key, state), key, state),
        up_to_date(images.insert(key, state), other, other_state) == up_to_date(
            images,
            other,
            other_state,
        ),
{
}

/// After an image was retired there is nothing more to retire, and it has to be
/// staged anew.
pub proof fn law_retiring_forgets(
    images: Map<u64, ExternalImageState>,
    key: u64,
    state: ExternalImageState,
)
    ensures
        !images.remove(key).contains_key(key),
        !up_to_date(images.remove(key), key, state),
        stage_run(images.remove(key), key, state).new_identity,
{
}

/// What is done when an image is retired, if it was staged at all: a rasterizer
/// drops its texture and what was derived from it, and all tiles are dropped.
pub open spec fn retirement(staged: bool, rasterizer: bool) -> Seq<StageAction> {
    if !staged {
        Seq::empty()
    } else if rasterizer {
        seq![StageAction::Unregister, StageAction::InvalidateOverrides, StageAction::ClearTiles]
    } else {
        seq![StageAction::ClearTiles]
    }
}

/// Lists what is done when an image is retired.
pub fn retirement_actions(staged: bool, rasterizer: bool) -> (r: Vec<StageAction>)
    ensures
        r@ == retirement(staged, rasterizer),
{
    let mut actions: Vec<StageAction> = Vec::new();
    if staged {
        if rasterizer {
            actions.push(StageAction::Unregister);
            actions.push(StageAction::InvalidateOverrides);
        }
        actions.push(StageAction::ClearTiles);
    }
    proof {
        assert(actions@ == retirement(staged, rasterizer));
    }
    actions
}

fn clamp_size(size: [u32; 2]) -> (r: ImageSize)
    ensures
        r == clamped(size@),
{
    ImageSize {
        width: if size[0] == 0 {
            1
        } else {
            size[0]
        },
        height: if size[1] == 0 {
            1
        } else {
            size[1]
        },
    }
}

impl Default for ExternalImages {
    fn default() -> (r: ExternalImages)
        ensures
            r.map@ == Map::<u64, ExternalImageState>::empty(),
    {
        ExternalImages { map: HashMap::new() }
    }
}

impl ExternalImages {
    /// Starts to stage an image, unless exactly this is staged already.
    ///
    /// The host has to advance `generation` whenever the content changes.
    pub fn begin(&self, key: u64, source_size: [u32; 2], generation: u64) -> (r: Option<StageRun>)
        ensures
            ({
                let state = ExternalImageState { size: clamped(source_size@), generation };
                r == if up_to_date(self.map@, key, state) {
                    None
                } else {
                    Some(stage_run(self.map@, key, state))
                }
            }),
    {
        let size: ImageSize = clamp_size(source_size);
        let state: ExternalImageState = ExternalImageState { size, generation };
        match self.map.get(&key) {
            Some(previous) => {
                let previous: ExternalImageState = *previous;
                if previous.size == size && previous.generation == generation {
                    None
                } else {
                    let resized: bool = previous.size != size;
                    Some(
                        StageRun {
                            key,
                            state,
                            replaces: resized,
                            new_identity: resized,
                            action: StageAction::Sample,
                        },
                    )
                }
            },
            None => Some(
                StageRun {
                    key,
                    state,
                    replaces: false,
                    new_identity: true,
                    action: StageAction::Sample,
                },
            ),
        }
    }

    /// Remembers what a run staged.
    pub fn record(&mut self, run: &StageRun)
        ensures
            final(self).map@ == old(self).map@.insert(run.key, run.state),
    {
        self.map.insert(run.key, run.state);
    }

    /// Forgets an image, and says whether there was one.
    pub fn retire(&mut self, key: u64) -> (r: bool)
        ensures
            r == old(self).map@.contains_key(key),
            final(self).map@ == old(self).map@.remove(key),
    {
        self.map.remove(&key).is_some()
    }
}

} // verus!
