use netrender::external_texture::external_image_key;
use netrender::external_texture::ExternalTextureComposite;
use netrender::external_texture::ExternalTexturePlacement;
use netrender::external_texture::SourceAlpha;
use netrender::external_texture::EXTERNAL_IMAGE_KEY_BASE;
use netrender::external_texture::PRODUCER_KEYS;
use netrender::single::Single;
use netrender::uniforms::two_image_params;

fn f(x: f32) -> Single {
    Single::from_bits(x.to_bits())
}

fn quad(q: [f32; 4]) -> [Single; 4] {
    [f(q[0]), f(q[1]), f(q[2]), f(q[3])]
}

fn bytes_of(values: &[f32]) -> Vec<u8> {
    let mut out = Vec::new();
    for value in values {
        out.extend_from_slice(&value.to_ne_bytes());
    }
    out
}

#[test]
fn external_image_key_keeps_producer_keys_in_a_disjoint_namespace() {
    assert_eq!(external_image_key(0), EXTERNAL_IMAGE_KEY_BASE);
    assert_eq!(external_image_key((1_u64 << 62) - 1), u64::MAX,);
}

#[test]
fn producer_keys_stop_where_masking_would_alias() {
    assert_eq!(PRODUCER_KEYS, 1_u64 << 62);
    assert_eq!(external_image_key(17), 0xC000_0000_0000_0011);
    assert_ne!(external_image_key(17), external_image_key(18));
    // The first key out of range would get the image key of producer zero.
    assert_eq!(EXTERNAL_IMAGE_KEY_BASE | PRODUCER_KEYS, external_image_key(0));
}

#[test]
fn source_alpha_defaults_to_straight() {
    assert_eq!(SourceAlpha::default(), SourceAlpha::Straight);
}

#[test]
fn a_new_placement_shows_the_whole_opaque_texture() {
    let placement = ExternalTexturePlacement::new(quad([1.0, 2.0, 3.0, 4.0]));
    assert_eq!(placement.dest_rect, quad([1.0, 2.0, 3.0, 4.0]));
    assert_eq!(placement.uv, quad([0.0, 0.0, 1.0, 1.0]));
    assert_eq!(placement.opacity, f(1.0));
    assert_eq!(placement.alpha, SourceAlpha::Straight);
}

#[test]
fn placement_builders_change_one_thing_each() {
    let start = ExternalTexturePlacement::new(quad([1.0, 2.0, 3.0, 4.0]));
    let uv = start.with_uv(quad([0.25, 0.0, 0.75, 1.0]));
    assert_eq!(uv.uv, quad([0.25, 0.0, 0.75, 1.0]));
    assert_eq!(uv.dest_rect, start.dest_rect);
    let faint = uv.with_opacity(f(0.5));
    assert_eq!(faint.opacity, f(0.5));
    assert_eq!(faint.uv, uv.uv);
    let premultiplied = faint.with_alpha(SourceAlpha::Premultiplied);
    assert_eq!(premultiplied.alpha, SourceAlpha::Premultiplied);
    assert_eq!(premultiplied.opacity, f(0.5));
}

#[test]
fn composites_are_topmost_until_given_a_boundary() {
    let view = 5u8;
    let placement = ExternalTexturePlacement::new(quad([0.0, 0.0, 1.0, 1.0]));
    let top = ExternalTextureComposite::new(&view, placement);
    assert_eq!(top.scene_op_boundary, usize::MAX);
    let between = top.with_scene_op_boundary(3);
    assert_eq!(between.scene_op_boundary, 3);
    assert_eq!(*between.source_view, 5);
    assert_eq!(between.placement, placement);
}

#[test]
fn empty_and_transparent_placements_draw_nothing() {
    let placement = ExternalTexturePlacement::new(quad([0.0, 0.0, 8.0, 8.0]));
    assert!(placement.draws(16, 16));
    assert!(!placement.draws(0, 16));
    assert!(!placement.draws(16, 0));
    assert!(!placement.with_opacity(f(0.0)).draws(16, 16));
    assert!(!placement.with_opacity(f(-0.0)).draws(16, 16));
    assert!(!placement.with_opacity(f(-1.0)).draws(16, 16));
    assert!(placement.with_opacity(f(f32::NAN)).draws(16, 16));
    assert!(!ExternalTexturePlacement::new(quad([8.0, 0.0, 8.0, 8.0])).draws(16, 16));
    assert!(!ExternalTexturePlacement::new(quad([0.0, 8.0, 8.0, 8.0])).draws(16, 16));
    assert!(!ExternalTexturePlacement::new(quad([0.0, 0.0, -0.0, 8.0])).draws(16, 16));
    assert!(ExternalTexturePlacement::new(quad([f32::NAN, 0.0, f32::NAN, 8.0])).draws(16, 16));
    assert!(placement.with_opacity(f(0.0)).draw_params(16, 16).is_none());
    assert!(placement.draw_params(16, 16).is_some());
}

#[test]
fn placement_parameters_are_twelve_native_floats() {
    let placement = ExternalTexturePlacement::new(quad([1.5, -2.0, 3.25, 4.0]))
        .with_uv(quad([0.1, 0.2, 0.3, 0.4]))
        .with_opacity(f(0.75));
    let straight = bytes_of(&[
        1.5, -2.0, 3.25, 4.0, 0.1, 0.2, 0.3, 0.4, 1920.0, 1080.0, 0.75, 0.0,
    ]);
    assert_eq!(placement.params_bytes(1920, 1080).to_vec(), straight);
    let premultiplied = bytes_of(&[
        1.5, -2.0, 3.25, 4.0, 0.1, 0.2, 0.3, 0.4, 16777217u32 as f32, 7.0, 0.75, 1.0,
    ]);
    assert_eq!(
        placement
            .with_alpha(SourceAlpha::Premultiplied)
            .draw_params(16777217, 7)
            .unwrap()
            .to_vec(),
        premultiplied
    );
}

#[test]
fn two_image_parameters_end_in_zero() {
    let bytes = two_image_params(
        &[64, 64],
        &quad([16.0, 8.0, 48.0, 56.0]),
        &quad([0.25, 0.125, 0.75, 0.875]),
        f(0.6),
    );
    assert_eq!(
        bytes.to_vec(),
        bytes_of(&[
            16.0, 8.0, 48.0, 56.0, 0.25, 0.125, 0.75, 0.875, 64.0, 64.0, 0.6, 0.0,
        ])
    );
}
