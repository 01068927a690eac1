//! What a renderer retains from frame to frame, and what it refuses.
use crate::compositor_surfaces;
use crate::compositor_surfaces::duplicate_surfaces;
use crate::compositor_surfaces::surfaces_to_declare;
use crate::compositor_surfaces::surfaces_to_destroy;
use crate::compositor_surfaces::Surface;
use crate::external_images;
use crate::external_images::retirement_actions;
use crate::external_images::ExternalImageState;
use crate::external_images::ExternalImages;
use crate::external_images::StageAction;
use crate::external_images::StageRun;
use crate::external_texture::ExternalTexturePlacement;
use crate::frame;
use crate::frame::frame_steps;
use crate::frame::FrameStep;
use crate::opaque_tenant::OpaqueTenantMetadata;
use crate::single::Single;
use crate::surface_tiles;
use crate::surface_tiles::SurfaceTileState;
use crate::surface_tiles::SurfaceTiles;
use crate::uniforms;
use vstd::prelude::*;

verus! {

/// The set of features that a graphics device has or lacks. It is only carried
/// through, and nothing is claimed of it.
#[verifier::external_type_specification]
#[verifier::external_body]
pub struct ExFeatures(wgpu::Features);

/// Why a renderer could not be made.
#[derive(Debug)]
pub enum RendererError {
    /// The device lacks these features.
    WgpuFeaturesMissing(wgpu::Features),
    /// Rasterizing needs a tile cache to keep its tiles against.
    VelloRequiresTileCache,
    /// The rasterizer could not be made; the text is its own.
    VelloInit(String),
}

/// What a renderer was made without and a call needs.
#[derive(Clone, Copy, Debug, PartialEq, Eq, Structural)]
pub enum Requirement {
    Rasterizer,
    TileCache,
}

/// Why a frame with a tenant in it cannot be rendered.
#[derive(Clone, Copy, Debug, PartialEq, Eq, Structural)]
pub enum TenantRefusal {
    /// The renderer was made without this.
    Missing(Requirement),
    /// The tenant's placement draws nothing.
    EmptyPlacement,
}

/// A colour, as the bit patterns of four double-precision numbers.
#[derive(Clone, Copy, Debug, PartialEq, Eq, Structural)]
pub struct Color {
    pub r: u64,
    pub g: u64,
    pub b: u64,
    pub a: u64,
}

/// What a frame starts from.
#[derive(Clone, Copy, Debug, PartialEq, Eq, Structural)]
pub enum ColorLoad {
    /// This colour.
    Clear(Color),
    /// What was there before. The rasterizer always overwrites its whole target,
    /// so this counts as transparent.
    Load,
}

impl Color {
    /// Nothing at all.
    #[verifier::allow_in_spec]
    pub fn transparent() -> Color
        returns
            (Color { r: 0, g: 0, b: 0, a: 0 }),
    {
        Color { r: 0, g: 0, b: 0, a: 0 }
    }
}

impl Default for ColorLoad {
    fn default() -> (r: ColorLoad)
        ensures
            r == ColorLoad::Clear(Color::transparent()),
    {
        ColorLoad::Clear(Color::transparent())
    }
}

impl ColorLoad {
    /// The colour that lies below everything in a frame.
    pub open spec fn base(self) -> Color {
        match self {
            ColorLoad::Clear(color) => color,
            ColorLoad::Load => Color::transparent(),
        }
    }

    /// Gives the colour that lies below everything in a frame.
    pub fn base_color(self) -> (r: Color)
        ensures
            r == self.base(),
    {
        match self {
            ColorLoad::Clear(color) => color,
            ColorLoad::Load => Color::transparent(),
        }
    }
}

/// What the rasterizer is told of a frame, besides the scene.
#[derive(Clone, Copy, Debug, PartialEq, Eq, Structural)]
pub struct RasterPass {
    /// The colour below everything.
    pub base: Color,
    /// By how much the scene is magnified.
    pub scale: Single,
}

/// What the rasterizer is told of a frame of one surface.
#[derive(Clone, Copy, Debug, PartialEq, Eq, Structural)]
pub struct SurfacePass {
    pub pass: RasterPass,
    /// The surface that had to give way, if one had to.
    pub evicted: Option<u64>,
}

/// A frame with a tenant in it.
#[derive(Debug, PartialEq)]
pub struct TenantFrame {
    pub steps: Vec<FrameStep>,
    /// The shader parameters that the tenant is drawn with.
    pub params: [u8; 48],
}

/// What retiring an image comes to.
#[derive(Debug, PartialEq)]
pub struct Retirement {
    /// Whether there was an image.
    pub removed: bool,
    /// What the host has to do, in order.
    pub actions: Vec<StageAction>,
}

/// The retained state of a renderer. `C` and `S` are the host's invalidation
/// cache and tile scenes.
pub struct Renderer<C, S> {
    /// Whether there is a rasterizer.
    pub enable_vello: bool,
    /// The tile size of the shared cache, where there is one. Caches of single
    /// surfaces are made with the same size.
    pub tile_cache_size: Option<u32>,
    pub surface_tiles: SurfaceTiles<C, S>,
    pub external_images: ExternalImages,
    /// The compositor surfaces of the last frame.
    pub compositor_surfaces: Vec<Surface>,
}

impl<C, S> Renderer<C, S> {
    /// What every renderer keeps.
    pub open spec fn well_formed(self) -> bool {
        &&& self.enable_vello ==> self.tile_cache_size is Some
        &&& !self.enable_vello ==> self.external_images.map@ == Map::<
            u64,
            ExternalImageState,
        >::empty()
        &&& self.surface_tiles.well_formed()
    }

    /// What is missing for a frame to be rendered.
    pub open spec fn lacks(self) -> Option<Requirement> {
        if !self.enable_vello {
            Some(Requirement::Rasterizer)
        } else if self.tile_cache_size is None {
            Some(Requirement::TileCache)
        } else {
            None
        }
    }

    /// The steps of a frame after the last one.
    pub open spec fn frame_of(
        self,
        op_count: usize,
        boundaries: Seq<usize>,
        empty_tails: Seq<bool>,
        surfaces: Seq<Surface>,
    ) -> Seq<FrameStep> {
        frame::frame(
            op_count,
            boundaries,
            empty_tails,
            compositor_surfaces::destroys(self.compositor_surfaces@, surfaces),
            compositor_surfaces::declares(self.compositor_surfaces@, surfaces),
        )
    }

    /// Whether `self` and `other` differ in tiles and images at most.
    pub open spec fn same_but_tiles_and_images(self, other: Renderer<C, S>) -> bool {
        &&& self.enable_vello == other.enable_vello
        &&& self.tile_cache_size == other.tile_cache_size
        &&& self.compositor_surfaces == other.compositor_surfaces
    }

    /// A renderer that retains nothing yet.
    pub fn new(enable_vello: bool, tile_cache_size: Option<u32>) -> (r: Result<
        Renderer<C, S>,
        RendererError,
    >)
        ensures
            match r {
                Ok(renderer) => {
                    &&& !enable_vello || tile_cache_size is Some
                    &&& renderer.enable_vello == enable_vello
                    &&& renderer.tile_cache_size == tile_cache_size
                    &&& renderer.surface_tiles.map@ == Map::<u64, SurfaceTileState<C, S>>::empty()
                    &&& renderer.surface_tiles.clock == 0
                    &&& renderer.external_images.map@ == Map::<u64, ExternalImageState>::empty()
                    &&& renderer.compositor_surfaces@ == Seq::<Surface>::empty()
                    &&& renderer.well_formed()
                },
                Err(error) => {
                    &&& enable_vello && tile_cache_size is None
                    &&& error is VelloRequiresTileCache
                },
            },
    {
        if enable_vello && tile_cache_size.is_none() {
            return Err(RendererError::VelloRequiresTileCache);
        }
        Ok(
            Renderer {
                enable_vello,
                tile_cache_size,
                surface_tiles: Default::default(),
                external_images: Default::default(),
                compositor_surfaces: Vec::new(),
            },
        )
    }

    /// Says what is missing for a frame to be rendered.
    pub fn missing(&self) -> (r: Option<Requirement>)
        ensures
            r == self.lacks(),
    {
        if !self.enable_vello {
            Some(Requirement::Rasterizer)
        } else if self.tile_cache_size.is_none() {
            Some(Requirement::TileCache)
        } else {
            None
        }
    }

    /// Starts to stage a host-produced image, unless exactly this is staged
    /// already, or says what is missing.
    pub fn stage_external_image(&self, key: u64, source_size: [u32; 2], generation: u64) -> (r:
        Result<Option<StageRun>, Requirement>)
        ensures
            ({
                let images = self.external_images.map@;
                let state = ExternalImageState {
                    size: external_images::clamped(source_size@),
                    generation,
                };
                r == if external_images::up_to_date(images, key, state) {
                    Ok(None)
                } else if !self.enable_vello {
                    Err(Requirement::Rasterizer)
                } else {
                    Ok(Some(external_images::stage_run(images, key, state)))
                }
            }),
    {
        match self.external_images.begin(key, source_size, generation) {
            None => Ok(None),
            Some(run) => if self.enable_vello {
                Ok(Some(run))
            } else {
                Err(Requirement::Rasterizer)
            },
        }
    }

    /// Does the renderer's own part of a run's current action.
    pub fn perform(&mut self, run: &StageRun)
        requires
            old(self).enable_vello,
        ensures
            final(self).same_but_tiles_and_images(*old(self)),
            final(self).surface_tiles.map@ == (if run.action == StageAction::ClearTiles {
                Map::empty()
            } else {
                old(self).surface_tiles.map@
            }),
            final(self).surface_tiles.clock == old(self).surface_tiles.clock,
            final(self).external_images.map@ == (if run.action == StageAction::Record {
                old(self).external_images.map@.insert(run.key, run.state)
            } else {
                old(self).external_images.map@
            }),
            old(self).well_formed() ==> final(self).well_formed(),
    {
        match run.action {
            StageAction::ClearTiles => self.invalidate_external_image_tile_caches(),
            StageAction::Record => self.external_images.record(run),
            _ => {},
        }
    }

    /// Drops every surface's tiles, which do not know which images they were
    /// painted with.
    pub fn invalidate_external_image_tile_caches(&mut self)
        ensures
            final(self).same_but_tiles_and_images(*old(self)),
            final(self).surface_tiles.map@ == Map::<u64, SurfaceTileState<C, S>>::empty(),
            final(self).surface_tiles.clock == old(self).surface_tiles.clock,
            final(self).external_images == old(self).external_images,
            old(self).well_formed() ==> final(self).well_formed(),
    {
        self.surface_tiles.clear();
    }

    /// Retires a host-produced image, if there is one, and lists what the host
    /// has to do for it. With the image go all tiles.
    pub fn unregister_external_image(&mut self, key: u64) -> (r: Retirement)
        ensures
            r.removed == old(self).external_images.map@.contains_key(key),
            r.actions@ == external_images::retirement(r.removed, old(self).enable_vello),
            final(self).same_but_tiles_and_images(*old(self)),
            final(self).external_images.map@ == old(self).external_images.map@.remove(key),
            final(self).surface_tiles.map@ == (if r.removed {
                Map::empty()
            } else {
                old(self).surface_tiles.map@
            }),
            final(self).surface_tiles.clock == old(self).surface_tiles.clock,
            old(self).well_formed() ==> final(self).well_formed(),
    {
        let removed: bool = self.external_images.retire(key);
        if removed {
            self.invalidate_external_image_tile_caches();
        }
        proof {
            if old(self).well_formed() && !self.enable_vello {
                assert(self.external_images.map@ =~= Map::<u64, ExternalImageState>::empty());
            }
        }
        Retirement { removed, actions: retirement_actions(removed, self.enable_vello) }
    }

    /// Drops the tiles of one surface, and says whether there were any.
    ///
    /// To be called when what the surface shows is replaced; its next frame then
    /// starts afresh.
    pub fn invalidate_surface_tiles(&mut self, surface: u64) -> (r: bool)
        ensures
            r == old(self).surface_tiles.map@.contains_key(surface),
            final(self).same_but_tiles_and_images(*old(self)),
            final(self).external_images == old(self).external_images,
            final(self).surface_tiles.map@ == old(self).surface_tiles.map@.remove(surface),
            final(self).surface_tiles.clock == old(self).surface_tiles.clock,
            old(self).well_formed() ==> final(self).well_formed(),
    {
        self.surface_tiles.invalidate(surface)
    }

    /// Prepares a frame in which a scene fills its target one to one, or says
    /// what is missing.
    pub fn render_vello(&self, clear: ColorLoad) -> (r: Result<RasterPass, Requirement>)
        ensures
            match r {
                Ok(pass) => self.lacks() is None && pass == (RasterPass {
                    base: clear.base(),
                    scale: Single::one(),
                }),
                Err(requirement) => self.lacks() == Some(requirement),
            },
    {
        self.render_vello_scaled(clear, Single::one())
    }

    /// Prepares a frame in which a scene is magnified, or says what is missing.
    pub fn render_vello_scaled(&self, clear: ColorLoad, scale: Single) -> (r: Result<
        RasterPass,
        Requirement,
    >)
        ensures
            match r {
                Ok(pass) => self.lacks() is None && pass == (RasterPass {
                    base: clear.base(),
                    scale,
                }),
                Err(requirement) => self.lacks() == Some(requirement),
            },
    {
        match self.missing() {
            Some(requirement) => Err(requirement),
            None => Ok(RasterPass { base: clear.base_color(), scale }),
        }
    }

    /// The shader parameters for compositing an external texture over a target,
    /// or nothing where there is nothing to draw.
    pub fn compose_external_texture(
        &self,
        viewport_width: u32,
        viewport_height: u32,
        placement: ExternalTexturePlacement,
    ) -> (r: Option<[u8; 48]>)
        ensures
            r is Some <==> placement.visible(viewport_width, viewport_height),
            r matches Some(bytes) ==> uniforms::packs(
                bytes@,
                placement.words(viewport_width, viewport_height),
            ),
    {
        placement.draw_params(viewport_width, viewport_height)
    }

    /// Lists the steps of a frame for a compositor, or says what is missing.
    /// `surfaces` are the scene's compositor surfaces.
    pub fn render_with_compositor(&self, op_count: usize, surfaces: &Vec<Surface>) -> (r: Result<
        Vec<FrameStep>,
        Requirement,
    >)
        ensures
            match r {
                Ok(steps) => self.lacks() is None && steps@ == self.frame_of(
                    op_count,
                    Seq::empty(),
                    Seq::empty(),
                    surfaces@,
                ),
                Err(requirement) => self.lacks() == Some(requirement),
            },
    {
        let boundaries: Vec<usize> = Vec::new();
        let empty_tails: Vec<bool> = Vec::new();
        proof {
            assert(boundaries@ == Seq::<usize>::empty());
            assert(empty_tails@ == Seq::<bool>::empty());
        }
        self.render_with_compositor_and_external_textures(
            op_count,
            &boundaries,
            &empty_tails,
            surfaces,
        )
    }

    /// Lists the steps of a frame with external textures in it, or says what is
    /// missing.
    ///
    /// `boundaries` holds, for each texture, how many of the scene's `op_count`
    /// operations paint before it; `empty_tails` says of each whether the scene
    /// paints nothing from there on. `surfaces` are the scene's compositor
    /// surfaces.
    pub fn render_with_compositor_and_external_textures(
        &self,
        op_count: usize,
        boundaries: &Vec<usize>,
        empty_tails: &Vec<bool>,
        surfaces: &Vec<Surface>,
    ) -> (r: Result<Vec<FrameStep>, Requirement>)
        requires
            empty_tails.len() == boundaries.len(),
        ensures
            match r {
                Ok(steps) => self.lacks() is None && steps@ == self.frame_of(
                    op_count,
                    boundaries@,
                    empty_tails@,
                    surfaces@,
                ),
                Err(requirement) => self.lacks() == Some(requirement),
            },
    {
        match self.missing() {
            Some(requirement) => Err(requirement),
            None => {
                let destroys: Vec<u64> = surfaces_to_destroy(&self.compositor_surfaces, surfaces);
                let declares: Vec<Surface> = surfaces_to_declare(
                    &self.compositor_surfaces,
                    surfaces,
                );
                Ok(frame_steps(op_count, boundaries, empty_tails, &destroys, &declares))
            },
        }
    }

    /// Lists the steps of a frame with one tenant in it and packs the parameters
    /// that the tenant is drawn with, or says why there is no such frame.
    ///
    /// `empty_tail` says whether the scene paints nothing after the tenant.
    /// `surfaces` are the scene's compositor surfaces.
    pub fn render_with_opaque_tenant(
        &self,
        metadata: &OpaqueTenantMetadata,
        viewport_width: u32,
        viewport_height: u32,
        op_count: usize,
        empty_tail: bool,
        surfaces: &Vec<Surface>,
    ) -> (r: Result<TenantFrame, TenantRefusal>)
        ensures
            match r {
                Ok(planned) => {
                    &&& self.lacks() is None
                    &&& metadata.placement.visible(viewport_width, viewport_height)
                    &&& planned.steps@ == self.frame_of(
                        op_count,
                        seq![metadata.scene_op_boundary],
                        seq![empty_tail],
                        surfaces@,
                    )
                    &&& uniforms::packs(
                        planned.params@,
                        metadata.placement.words(viewport_width, viewport_height),
                    )
                },
                Err(TenantRefusal::Missing(requirement)) => self.lacks() == Some(requirement),
                Err(TenantRefusal::EmptyPlacement) => self.lacks() is None
                    && !metadata.placement.visible(viewport_width, viewport_height),
            },
    {
        let mut boundaries: Vec<usize> = Vec::new();
        boundaries.push(metadata.scene_op_boundary);
        let mut empty_tails: Vec<bool> = Vec::new();
        empty_tails.push(empty_tail);
        proof {
            assert(boundaries@ == seq![metadata.scene_op_boundary]);
            assert(empty_tails@ == seq![empty_tail]);
        }
        match self.render_with_compositor_and_external_textures(
            op_count,
            &boundaries,
            &empty_tails,
            surfaces,
        ) {
            Err(requirement) => Err(TenantRefusal::Missing(requirement)),
            Ok(steps) => match metadata.placement.draw_params(viewport_width, viewport_height) {
                None => Err(TenantRefusal::EmptyPlacement),
                Some(params) => Ok(TenantFrame { steps, params }),
            },
        }
    }

    /// Remembers the compositor surfaces of a frame for the next one.
    pub fn commit_compositor_state(&mut self, surfaces: &Vec<Surface>)
        ensures
            final(self).compositor_surfaces@ == surfaces@,
            final(self).enable_vello == old(self).enable_vello,
            final(self).tile_cache_size == old(self).tile_cache_size,
            final(self).surface_tiles == old(self).surface_tiles,
            final(self).external_images == old(self).external_images,
            old(self).well_formed() ==> final(self).well_formed(),
    {
        self.compositor_surfaces = duplicate_surfaces(surfaces);
    }

    /// Prepares a magnified frame of one surface and brings the surface's tile
    /// state up for it. Where the surface has none, `fresh` makes it for the
    /// renderer's tile size. The result also says which surface had to give way,
    /// if one had to; or it says what is missing.
    pub fn render_vello_scaled_for<F: FnOnce(u32) -> (C, S)>(
        &mut self,
        surface: u64,
        clear: ColorLoad,
        scale: Single,
        fresh: F,
    ) -> (r: Result<SurfacePass, Requirement>)
        requires
            old(self).surface_tiles.clock < u64::MAX,
            forall|tile_size: u32| #[trigger] fresh.requires((tile_size,)),
        ensures
            final(self).same_but_tiles_and_images(*old(self)),
            final(self).external_images == old(self).external_images,
            old(self).well_formed() ==> final(self).well_formed(),
            match r {
                Err(requirement) => {
                    &&& old(self).lacks() == Some(requirement)
                    &&& *final(self) == *old(self)
                },
                Ok(SurfacePass { pass, evicted }) => {
                    let before = old(self).surface_tiles;
                    let after = final(self).surface_tiles;
                    &&& old(self).lacks() is None
                    &&& pass == (RasterPass { base: clear.base(), scale })
                    &&& after.clock == before.clock + 1
                    &&& evicted is Some <==> !before.map@.contains_key(surface)
                        && before.map@.len() >= surface_tiles::MAX_SURFACE_TILE_STATES
                    &&& evicted matches Some(other) ==> surface_tiles::least_recently_used(
                        before.map@,
                        other,
                    )
                    &&& after.map@.contains_key(surface)
                    &&& after.map@ == (match evicted {
                        Some(other) => before.map@.remove(other),
                        None => before.map@,
                    }).insert(surface, after.map@[surface])
                    &&& after.map@[surface].last_used == after.clock
                    &&& before.map@.contains_key(surface) ==> {
                        &&& after.map@[surface].tile_cache == before.map@[surface].tile_cache
                        &&& after.map@[surface].tile_scenes == before.map@[surface].tile_scenes
                    }
                    &&& !before.map@.contains_key(surface) ==> fresh.ensures(
                        (old(self).tile_cache_size.unwrap(),),
                        (after.map@[surface].tile_cache, after.map@[surface].tile_scenes),
                    )
                },
            },
    {
        if !self.enable_vello {
            return Err(Requirement::Rasterizer);
        }
        match self.tile_cache_size {
            None => Err(Requirement::TileCache),
            Some(tile_size) => {
                let make = move || -> (pair: (C, S))
                    requires
                        fresh.requires((tile_size,)),
                    ensures
                        fresh.ensures((tile_size,), pair),
                    { fresh(tile_size) };
                let evicted: Option<u64> = self.surface_tiles.touch(surface, make);
                Ok(SurfacePass { pass: RasterPass { base: clear.base_color(), scale }, evicted })
            },
        }
    }
}

/// A renderer that could be made lacks nothing but, possibly, a rasterizer.
pub proof fn law_only_the_rasterizer_can_be_missing<C, S>(renderer: Renderer<C, S>)
    requires
        renderer.well_formed(),
    ensures
        renderer.lacks() == (if renderer.enable_vello {
            None
        } else {
            Some(Requirement::Rasterizer)
        }),
{
}

/// Without a rasterizer no image is ever staged: nothing counts as staged
/// already, so staging is refused, and there is nothing to retire.
pub proof fn law_nothing_is_staged_without_a_rasterizer<C, S>(
    renderer: Renderer<C, S>,
    key: u64,
    state: ExternalImageState,
)
    requires
        renderer.well_formed(),
        !renderer.enable_vello,
    ensures
        !external_images::up_to_date(renderer.external_images.map@, key, state),
        !renderer.external_images.map@.contains_key(key),
{
}

/// A frame with the surfaces that were committed last tells the compositor of
/// none: it is painted, presented and committed.
pub proof fn law_repeated_frame_is_only_presented<C, S>(
    renderer: Renderer<C, S>,
    op_count: usize,
    boundaries: Seq<usize>,
    empty_tails: Seq<bool>,
)
    ensures
        renderer.frame_of(op_count, boundaries, empty_tails, renderer.compositor_surfaces@)
            == frame::painting(op_count, boundaries, empty_tails) + seq![
            FrameStep::Present,
            FrameStep::Commit,
        ],
{
    frame::law_repeated_surfaces_are_only_presented(
        op_count,
        boundaries,
        empty_tails,
        renderer.compositor_surfaces@,
    );
}

} // verus!
