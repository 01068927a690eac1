use netrender::compositor_surfaces::Bounds;
use netrender::compositor_surfaces::Surface;
use netrender::external_images::StageAction;
use netrender::external_texture::ExternalTexturePlacement;
use netrender::frame::FrameStep;
use netrender::opaque_tenant::OpaqueTenantMetadata;
use netrender::renderer::Color;
use netrender::renderer::ColorLoad;
use netrender::renderer::RasterPass;
use netrender::renderer::Renderer;
use netrender::renderer::RendererError;
use netrender::renderer::Requirement;
use netrender::renderer::SurfacePass;
use netrender::renderer::TenantRefusal;
use netrender::single::Single;

type Plain = Renderer<u32, Vec<u8>>;

fn renderer() -> Plain {
    Plain::new(true, Some(16)).unwrap()
}

fn show(renderer: &mut Plain, surface: u64) {
    renderer
        .render_vello_scaled_for(surface, ColorLoad::Load, Single::one(), |size| (size, Vec::new()))
        .unwrap();
}

fn surface(key: u64) -> Surface {
    let bounds =
        Bounds { x0: Single::zero(), y0: Single::zero(), x1: Single::one(), y1: Single::one() };
    Surface { key, bounds }
}

fn stage(renderer: &mut Plain, key: u64, size: [u32; 2], generation: u64) {
    let mut run = renderer.stage_external_image(key, size, generation).unwrap().unwrap();
    while run.action != StageAction::Done {
        renderer.perform(&run);
        run.advance(false);
    }
}

#[test]
fn a_rasterizer_needs_a_tile_cache() {
    assert!(matches!(Plain::new(true, None), Err(RendererError::VelloRequiresTileCache)));
    assert!(Plain::new(false, None).is_ok());
    assert!(Plain::new(true, Some(64)).is_ok());
}

#[test]
fn rendering_says_what_is_missing() {
    assert_eq!(renderer().missing(), None);
    let mut plain = Plain::new(false, Some(16)).unwrap();
    assert_eq!(plain.missing(), Some(Requirement::Rasterizer));
    assert_eq!(
        plain.render_vello_scaled_for(1, ColorLoad::Load, Single::one(), |size| (size, Vec::new())),
        Err(Requirement::Rasterizer)
    );
    assert_eq!(plain.surface_tiles.clock, 0);
    let mut broken = renderer();
    broken.tile_cache_size = None;
    assert_eq!(broken.missing(), Some(Requirement::TileCache));
    assert_eq!(
        broken.render_vello_scaled_for(1, ColorLoad::Load, Single::one(), |size| (size, Vec::new())),
        Err(Requirement::TileCache)
    );
}

#[test]
fn a_surface_gets_tiles_of_the_renderers_size() {
    let mut renderer = renderer();
    let base = Color { r: 1, g: 2, b: 3, a: 4 };
    let scale = Single::from_bits(1.5f32.to_bits());
    assert_eq!(
        renderer
            .render_vello_scaled_for(7, ColorLoad::Clear(base), scale, |size| (size, vec![1])),
        Ok(SurfacePass { pass: RasterPass { base, scale }, evicted: None })
    );
    assert_eq!(renderer.surface_tiles.map[&7].tile_cache, 16);
    assert!(renderer
        .render_vello_scaled_for(7, ColorLoad::Load, scale, |size| (size + 1, vec![2]))
        .is_ok());
    assert_eq!(renderer.surface_tiles.map[&7].tile_cache, 16);
    assert_eq!(renderer.surface_tiles.map[&7].tile_scenes, [1]);
    assert!(renderer.invalidate_surface_tiles(7));
    assert!(!renderer.invalidate_surface_tiles(7));
}

#[test]
fn staging_an_image_drops_tiles_only_with_its_identity() {
    let mut renderer = renderer();
    show(&mut renderer, 7);
    stage(&mut renderer, 17, [4, 4], 1);
    assert!(renderer.surface_tiles.map.is_empty());
    assert_eq!(renderer.stage_external_image(17, [4, 4], 1), Ok(None));
    show(&mut renderer, 7);
    stage(&mut renderer, 17, [4, 4], 2);
    assert!(renderer.surface_tiles.map.contains_key(&7));
    stage(&mut renderer, 17, [8, 4], 3);
    assert!(renderer.surface_tiles.map.is_empty());
}

#[test]
fn retiring_an_image_drops_tiles_once() {
    let mut renderer = renderer();
    stage(&mut renderer, 17, [4, 4], 1);
    show(&mut renderer, 7);
    let retirement = renderer.unregister_external_image(17);
    assert!(retirement.removed);
    assert_eq!(
        retirement.actions,
        [StageAction::Unregister, StageAction::InvalidateOverrides, StageAction::ClearTiles]
    );
    assert!(renderer.surface_tiles.map.is_empty());
    show(&mut renderer, 7);
    let retirement = renderer.unregister_external_image(17);
    assert!(!retirement.removed);
    assert!(retirement.actions.is_empty());
    assert!(renderer.surface_tiles.map.contains_key(&7));
}

#[test]
fn a_frame_starts_transparent_unless_told_otherwise() {
    let red = Color {
        r: 1.0f64.to_bits(),
        g: 0.0f64.to_bits(),
        b: 0.0f64.to_bits(),
        a: 1.0f64.to_bits(),
    };
    assert_eq!(ColorLoad::default(), ColorLoad::Clear(Color::transparent()));
    assert_eq!(ColorLoad::default().base_color(), Color::transparent());
    assert_eq!(ColorLoad::Load.base_color(), Color::transparent());
    assert_eq!(ColorLoad::Clear(red).base_color(), red);
    assert_eq!(Color::transparent().a, 0.0f64.to_bits());
}

#[test]
fn missing_features_are_carried_through() {
    let error = RendererError::WgpuFeaturesMissing(wgpu::Features::empty());
    assert!(matches!(error, RendererError::WgpuFeaturesMissing(f) if f.is_empty()));
    assert!(matches!(
        RendererError::VelloInit("no adapter".to_string()),
        RendererError::VelloInit(text) if text == "no adapter"
    ));
}

#[test]
fn a_frame_is_magnified_only_when_asked() {
    let renderer = renderer();
    assert_eq!(
        renderer.render_vello(ColorLoad::Load),
        Ok(RasterPass { base: Color::transparent(), scale: Single::one() })
    );
    let scale = Single::from_bits(1.5f32.to_bits());
    assert_eq!(
        renderer.render_vello_scaled(ColorLoad::default(), scale),
        Ok(RasterPass { base: Color::transparent(), scale })
    );
    let plain = Plain::new(false, None).unwrap();
    assert_eq!(plain.render_vello(ColorLoad::Load), Err(Requirement::Rasterizer));
    assert_eq!(plain.render_with_compositor(3, &vec![]), Err(Requirement::Rasterizer));
}

#[test]
fn staging_needs_a_rasterizer() {
    let mut plain = Plain::new(false, Some(16)).unwrap();
    assert_eq!(plain.stage_external_image(17, [4, 4], 1), Err(Requirement::Rasterizer));
    assert!(!plain.unregister_external_image(17).removed);
}

#[test]
fn compositor_frames_list_their_steps() {
    let mut renderer = renderer();
    let surfaces = vec![surface(5)];
    assert_eq!(
        renderer.render_with_compositor(3, &surfaces),
        Ok(vec![
            FrameStep::RenderMaster,
            FrameStep::DeclareSurface(surface(5)),
            FrameStep::Present,
            FrameStep::Commit,
        ])
    );
    renderer.commit_compositor_state(&surfaces);
    assert_eq!(
        renderer.render_with_compositor(3, &surfaces),
        Ok(vec![FrameStep::RenderMaster, FrameStep::Present, FrameStep::Commit])
    );
    assert_eq!(
        renderer.render_with_compositor_and_external_textures(
            3,
            &vec![usize::MAX],
            &vec![true],
            &vec![],
        ),
        Ok(vec![
            FrameStep::RenderMaster,
            FrameStep::ComposeExternal(0),
            FrameStep::DestroySurface(5),
            FrameStep::Present,
            FrameStep::Commit,
        ])
    );
}

#[test]
fn a_tenant_is_drawn_below_its_tail() {
    let placement = ExternalTexturePlacement::new([
        Single::zero(),
        Single::zero(),
        Single::one(),
        Single::one(),
    ]);
    let metadata =
        OpaqueTenantMetadata::new("tenant".to_string(), "path".to_string(), 0, 2, placement);
    let renderer = renderer();
    let planned =
        renderer.render_with_opaque_tenant(&metadata, 4, 4, 3, false, &vec![]).unwrap();
    assert_eq!(
        planned.steps,
        [
            FrameStep::RenderMaster,
            FrameStep::ComposeExternal(0),
            FrameStep::CreateTailTarget,
            FrameStep::RenderTail(2),
            FrameStep::ComposeTail(2),
            FrameStep::Present,
            FrameStep::Commit,
        ]
    );
    assert_eq!(Some(planned.params), placement.draw_params(4, 4));
    let planned =
        renderer.render_with_opaque_tenant(&metadata, 4, 4, 2, false, &vec![]).unwrap();
    assert_eq!(
        planned.steps,
        [
            FrameStep::RenderMaster,
            FrameStep::ComposeExternal(0),
            FrameStep::Present,
            FrameStep::Commit,
        ]
    );
    assert!(renderer.compose_external_texture(4, 4, placement).is_some());
    assert!(renderer.compose_external_texture(0, 4, placement).is_none());
}

#[test]
fn a_tenant_without_a_place_is_refused() {
    let placement = ExternalTexturePlacement::new([
        Single::zero(),
        Single::zero(),
        Single::one(),
        Single::one(),
    ]);
    let metadata = |placement| {
        OpaqueTenantMetadata::new("tenant".to_string(), "path".to_string(), 0, 2, placement)
    };
    let hidden = metadata(placement.with_opacity(Single::zero()));
    let renderer = renderer();
    assert_eq!(
        renderer.render_with_opaque_tenant(&hidden, 4, 4, 3, false, &vec![]),
        Err(TenantRefusal::EmptyPlacement)
    );
    assert_eq!(
        renderer.render_with_opaque_tenant(&metadata(placement), 0, 4, 3, false, &vec![]),
        Err(TenantRefusal::EmptyPlacement)
    );
    let plain = Plain::new(false, None).unwrap();
    assert_eq!(
        plain.render_with_opaque_tenant(&hidden, 4, 4, 3, false, &vec![]),
        Err(TenantRefusal::Missing(Requirement::Rasterizer))
    );
}
