use netrender::external_texture::SourceAlpha;
use netrender::pipeline::Address;
use netrender::pipeline::BindingKind;
use netrender::pipeline::BindingSlot;
use netrender::pipeline::Blend;
use netrender::pipeline::Filter;
use netrender::pipeline::PipelineKind;
use netrender::pipeline::TextureUsage;
use netrender::pipeline::Topology;
use netrender::pipeline::VelloBackend;
use netrender::pipeline::Visibility;

const ALL: [PipelineKind; 5] = [
    PipelineKind::Staging(SourceAlpha::Straight),
    PipelineKind::Staging(SourceAlpha::Premultiplied),
    PipelineKind::ExternalTexture(SourceAlpha::Straight),
    PipelineKind::ExternalTexture(SourceAlpha::Premultiplied),
    PipelineKind::TwoImage,
];

#[test]
fn bindings_are_numbered_by_their_places() {
    for kind in ALL {
        for (index, slot) in kind.bindings().iter().enumerate() {
            assert_eq!(slot.binding as usize, index);
        }
    }
    let texture = |binding| BindingSlot {
        binding,
        visibility: Visibility::Fragment,
        kind: BindingKind::Texture,
    };
    let sampler = |binding| BindingSlot {
        binding,
        visibility: Visibility::Fragment,
        kind: BindingKind::Sampler,
    };
    let uniform = |binding| BindingSlot {
        binding,
        visibility: Visibility::VertexFragment,
        kind: BindingKind::Uniform,
    };
    assert_eq!(ALL[0].bindings(), [texture(0), sampler(1)]);
    assert_eq!(ALL[1].bindings(), ALL[0].bindings());
    assert_eq!(ALL[2].bindings(), [texture(0), sampler(1), uniform(2)]);
    assert_eq!(ALL[3].bindings(), ALL[2].bindings());
    assert_eq!(ALL[4].bindings(), [texture(0), texture(1), sampler(2), uniform(3)]);
}

#[test]
fn alpha_picks_the_shader_or_the_blend() {
    assert_eq!(ALL[0].describe().fragment_entry, "fs_straight");
    assert_eq!(ALL[1].describe().fragment_entry, "fs_premultiplied");
    assert_eq!(ALL[0].describe().blend, Blend::Replace);
    assert_eq!(ALL[1].describe().vertices, 3);
    assert_eq!(ALL[2].describe().blend, Blend::Alpha);
    assert_eq!(ALL[3].describe().blend, Blend::PremultipliedAlpha);
    assert_eq!(ALL[2].describe().fragment_entry, "fs_main");
    assert_eq!(ALL[3].describe().label, "netrender external texture pipeline (premultiplied)");
    assert_eq!(ALL[4].describe().blend, Blend::Replace);
    assert_eq!(ALL[4].describe().vertices, 6);
    assert_eq!(ALL[4].describe().vertex_entry, "vs_main");
}

#[test]
fn only_the_classic_backend_writes_storage() {
    assert!(VelloBackend::Classic.target_usage().storage_binding);
    assert!(!VelloBackend::Hybrid.target_usage().storage_binding);
    assert!(!VelloBackend::Cpu.target_usage().storage_binding);
    assert!(VelloBackend::Cpu.target_usage().copy_dst);
    assert_eq!(VelloBackend::Hybrid.name(), format!("{:?}", VelloBackend::Hybrid));
    assert_eq!(
        TextureUsage::intermediate(),
        TextureUsage {
            render_attachment: true,
            texture_binding: true,
            copy_src: true,
            copy_dst: false,
            storage_binding: false,
        }
    );
}

#[test]
fn pipelines_sample_the_nearest_pixel() {
    for kind in ALL {
        assert_eq!(kind.sampler().filter, Filter::Nearest);
        assert_eq!(kind.sampler().address, Address::ClampToEdge);
        assert_eq!(kind.describe().topology, Topology::TriangleList);
    }
    assert_eq!(ALL[0].sampler().label, "netrender external image staging sampler");
    assert_eq!(ALL[2].sampler().label, "netrender external texture sampler");
    assert_eq!(ALL[4].sampler().label, "netrender RG2c two-image sampler");
}

#[test]
fn only_external_textures_go_into_any_format() {
    assert_eq!(ALL[0].fixed_format(), Some("Rgba8Unorm"));
    assert_eq!(ALL[1].fixed_format(), Some("Rgba8Unorm"));
    assert_eq!(ALL[2].fixed_format(), None);
    assert_eq!(ALL[3].fixed_format(), None);
    assert_eq!(ALL[4].fixed_format(), Some("Rgba8Unorm"));
}
