//! How the renderer's drawing pipelines are laid out.
//!
//! The shaders and the graphics device belong to the host. What they have to
//! agree on is written down here.
use crate::external_texture::SourceAlpha;
use vstd::prelude::*;

verus! {

/// What rasters the fragments of a scene.
#[derive(Clone, Copy, Debug, PartialEq, Eq, Structural)]
pub enum VelloBackend {
    Classic,
    Hybrid,
    Cpu,
}

impl VelloBackend {
    /// The backend's name.
    pub open spec fn label(self) -> Seq<char> {
        match self {
            VelloBackend::Classic => "Classic"@,
            VelloBackend::Hybrid => "Hybrid"@,
            VelloBackend::Cpu => "Cpu"@,
        }
    }

    /// Tells the backend's name.
    pub fn name(self) -> (r: &'static str)
        ensures
            r@ == self.label(),
    {
        match self {
            VelloBackend::Classic => "Classic",
            VelloBackend::Hybrid => "Hybrid",
            VelloBackend::Cpu => "Cpu",
        }
    }

    /// How an image that this backend paints into is used: every backend's image
    /// is drawn to, sampled and copied from and to, and the classic backend also
    /// writes it as storage.
    pub fn target_usage(self) -> (r: TextureUsage)
        ensures
            r == (TextureUsage {
                render_attachment: true,
                texture_binding: true,
                copy_src: true,
                copy_dst: true,
                storage_binding: self == VelloBackend::Classic,
            }),
    {
        TextureUsage {
            render_attachment: true,
            texture_binding: true,
            copy_src: true,
            copy_dst: true,
            storage_binding: self == VelloBackend::Classic,
        }
    }
}

/// The format of staging images and of every image that effects work on.
pub open spec fn effect_format() -> Seq<char> {
    "Rgba8Unorm"@
}

/// What an image may be used for.
#[derive(Clone, Copy, Debug, PartialEq, Eq, Structural)]
pub struct TextureUsage {
    pub render_attachment: bool,
    pub texture_binding: bool,
    pub copy_src: bool,
    pub copy_dst: bool,
    pub storage_binding: bool,
}

impl TextureUsage {
    /// An image that a pass fills and a later one samples or copies: staging
    /// images and the inner images of a graph.
    pub fn intermediate() -> (r: TextureUsage)
        ensures
            r == (TextureUsage {
                render_attachment: true,
                texture_binding: true,
                copy_src: true,
                copy_dst: false,
                storage_binding: false,
            }),
    {
        TextureUsage {
            render_attachment: true,
            texture_binding: true,
            copy_src: true,
            copy_dst: false,
            storage_binding: false,
        }
    }
}

/// The shader stages that see a binding.
#[derive(Clone, Copy, Debug, PartialEq, Eq, Structural)]
pub enum Visibility {
    Fragment,
    VertexFragment,
}

/// What is bound.
#[derive(Clone, Copy, Debug, PartialEq, Eq, Structural)]
pub enum BindingKind {
    /// A flat, filterable texture.
    Texture,
    /// A filtering sampler.
    Sampler,
    /// A block of parameters.
    Uniform,
}

/// One entry of a binding layout.
#[derive(Clone, Copy, Debug, PartialEq, Eq, Structural)]
pub struct BindingSlot {
    pub binding: u32,
    pub visibility: Visibility,
    pub kind: BindingKind,
}

/// How drawn colour combines with what is there.
#[derive(Clone, Copy, Debug, PartialEq, Eq, Structural)]
pub enum Blend {
    /// It replaces it.
    Replace,
    /// Straight alpha over.
    Alpha,
    /// Premultiplied alpha over.
    PremultipliedAlpha,
}

/// How vertices make up shapes.
#[derive(Clone, Copy, Debug, PartialEq, Eq, Structural)]
pub enum Topology {
    /// Each three make a triangle.
    TriangleList,
}

/// What is sampled between the pixels of a texture.
#[derive(Clone, Copy, Debug, PartialEq, Eq, Structural)]
pub enum Filter {
    /// The nearest pixel, also when the texture is made smaller or larger.
    Nearest,
}

/// What is sampled beyond the edges of a texture.
#[derive(Clone, Copy, Debug, PartialEq, Eq, Structural)]
pub enum Address {
    /// What is at the edge.
    ClampToEdge,
}

/// How a pipeline samples its textures.
#[derive(Clone, Copy, Debug, PartialEq, Eq)]
pub struct SamplerSpec {
    pub label: &'static str,
    pub filter: Filter,
    pub address: Address,
}

/// The pipelines that the renderer draws with.
#[derive(Clone, Copy, Debug, PartialEq, Eq, Structural)]
pub enum PipelineKind {
    /// Copies a producer's texture into a staging image with straight alpha.
    Staging(SourceAlpha),
    /// Composites an external texture over a target.
    ExternalTexture(SourceAlpha),
    /// Lays one image over another into a third.
    TwoImage,
}

/// What tells one pipeline from another.
#[derive(Clone, Copy, Debug, PartialEq, Eq)]
pub struct PipelineSpec {
    pub label: &'static str,
    pub vertex_entry: &'static str,
    pub fragment_entry: &'static str,
    pub blend: Blend,
    pub topology: Topology,
    /// The vertices of one draw, all made up by the vertex shader.
    pub vertices: u32,
}

impl PipelineKind {
    /// How many textures the pipeline samples.
    pub open spec fn textures(self) -> nat {
        match self {
            PipelineKind::TwoImage => 2,
            _ => 1,
        }
    }

    /// Whether the pipeline takes a block of parameters.
    pub open spec fn parameters(self) -> bool {
        !(self is Staging)
    }

    /// The bindings of the pipeline: its textures, then the sampler, then the
    /// parameters if it takes any, numbered in that order.
    pub open spec fn slots(self) -> Seq<BindingSlot> {
        let textures = Seq::new(
            self.textures(),
            |i: int|
                BindingSlot {
                    binding: i as u32,
                    visibility: Visibility::Fragment,
                    kind: BindingKind::Texture,
                },
        );
        let sampled = textures.push(
            BindingSlot {
                binding: self.textures() as u32,
                visibility: Visibility::Fragment,
                kind: BindingKind::Sampler,
            },
        );
        if self.parameters() {
            sampled.push(
                BindingSlot {
                    binding: (self.textures() + 1) as u32,
                    visibility: Visibility::VertexFragment,
                    kind: BindingKind::Uniform,
                },
            )
        } else {
            sampled
        }
    }

    /// Lists the bindings of the pipeline.
    pub fn bindings(self) -> (r: Vec<BindingSlot>)
        ensures
            r@ == self.slots(),
    {
        let textures: u32 = match self {
            PipelineKind::TwoImage => 2,
            _ => 1,
        };
        let mut out: Vec<BindingSlot> = Vec::new();
        let mut i: u32 = 0;
        while i < textures
            invariant
                i <= textures,
                textures == self.textures(),
                out@ == self.slots().take(i as int),
            decreases textures - i,
        {
            out.push(
                BindingSlot {
                    binding: i,
                    visibility: Visibility::Fragment,
                    kind: BindingKind::Texture,
                },
            );
            i = i + 1;
            proof {
                assert(out@ == self.slots().take(i as int));
            }
        }
        out.push(
            BindingSlot {
                binding: textures,
                visibility: Visibility::Fragment,
                kind: BindingKind::Sampler,
            },
        );
        let parameters: bool = match self {
            PipelineKind::Staging(_) => false,
            _ => true,
        };
        if parameters {
            out.push(
                BindingSlot {
                    binding: textures + 1,
                    visibility: Visibility::VertexFragment,
                    kind: BindingKind::Uniform,
                },
            );
        }
        proof {
            assert(out@ == self.slots());
        }
        out
    }

    /// Describes the pipeline.
    ///
    /// Staging draws one triangle over the whole image and picks the fragment
    /// shader by the source's alpha, since the outcome always has straight
    /// alpha. Compositing draws a rectangle of two triangles and picks the blend
    /// by it.
    pub fn describe(self) -> (r: PipelineSpec)
        ensures
            r.label@ == (match self {
                PipelineKind::Staging(_) => "netrender external image staging pipeline"@,
                PipelineKind::ExternalTexture(
                    SourceAlpha::Straight,
                ) => "netrender external texture pipeline (straight)"@,
                PipelineKind::ExternalTexture(
                    SourceAlpha::Premultiplied,
                ) => "netrender external texture pipeline (premultiplied)"@,
                PipelineKind::TwoImage => "netrender RG2c two-image pipeline"@,
            }),
            r.vertex_entry@ == "vs_main"@,
            r.fragment_entry@ == (match self {
                PipelineKind::Staging(SourceAlpha::Straight) => "fs_straight"@,
                PipelineKind::Staging(SourceAlpha::Premultiplied) => "fs_premultiplied"@,
                _ => "fs_main"@,
            }),
            r.blend == (match self {
                PipelineKind::ExternalTexture(SourceAlpha::Straight) => Blend::Alpha,
                PipelineKind::ExternalTexture(
                    SourceAlpha::Premultiplied,
                ) => Blend::PremultipliedAlpha,
                _ => Blend::Replace,
            }),
            r.topology == Topology::TriangleList,
            r.vertices == if self is Staging {
                3u32
            } else {
                6u32
            },
    {
        match self {
            PipelineKind::Staging(alpha) => PipelineSpec {
                label: "netrender external image staging pipeline",
                vertex_entry: "vs_main",
                fragment_entry: match alpha {
                    SourceAlpha::Straight => "fs_straight",
                    SourceAlpha::Premultiplied => "fs_premultiplied",
                },
                blend: Blend::Replace,
                topology: Topology::TriangleList,
                vertices: 3,
            },
            PipelineKind::ExternalTexture(alpha) => PipelineSpec {
                label: match alpha {
                    SourceAlpha::Straight => "netrender external texture pipeline (straight)",
                    SourceAlpha::Premultiplied => "netrender external texture pipeline (premultiplied)",
                },
                vertex_entry: "vs_main",
                fragment_entry: "fs_main",
                blend: match alpha {
                    SourceAlpha::Straight => Blend::Alpha,
                    SourceAlpha::Premultiplied => Blend::PremultipliedAlpha,
                },
                topology: Topology::TriangleList,
                vertices: 6,
            },
            PipelineKind::TwoImage => PipelineSpec {
                label: "netrender RG2c two-image pipeline",
                vertex_entry: "vs_main",
                fragment_entry: "fs_main",
                blend: Blend::Replace,
                topology: Topology::TriangleList,
                vertices: 6,
            },
        }
    }
}

impl PipelineKind {
    /// The format that the pipeline draws into. Staging images and the images of
    /// effects have one format; external textures go into targets of any format,
    /// with a pipeline for each.
    pub fn fixed_format(self) -> (r: Option<&'static str>)
        ensures
            match r {
                Some(format) => !(self is ExternalTexture) && format@ == effect_format(),
                None => self is ExternalTexture,
            },
    {
        match self {
            PipelineKind::ExternalTexture(_) => None,
            _ => Some("Rgba8Unorm"),
        }
    }

    /// Describes the sampler: every pipeline takes the nearest pixel and, beyond
    /// the edges, the pixel at the edge.
    pub fn sampler(self) -> (r: SamplerSpec)
        ensures
            r.label@ == (match self {
                PipelineKind::Staging(_) => "netrender external image staging sampler"@,
                PipelineKind::ExternalTexture(_) => "netrender external texture sampler"@,
                PipelineKind::TwoImage => "netrender RG2c two-image sampler"@,
            }),
            r.filter == Filter::Nearest,
            r.address == Address::ClampToEdge,
    {
        SamplerSpec {
            label: match self {
                PipelineKind::Staging(_) => "netrender external image staging sampler",
                PipelineKind::ExternalTexture(_) => "netrender external texture sampler",
                PipelineKind::TwoImage => "netrender RG2c two-image sampler",
            },
            filter: Filter::Nearest,
            address: Address::ClampToEdge,
        }
    }
}

/// Bindings are numbered by their places, so no two share a number, and two
/// pipelines that differ only in the source's alpha share one layout.
pub proof fn law_bindings_are_numbered(kind: PipelineKind, i: int)
    requires
        0 <= i < kind.slots().len(),
    ensures
        kind.slots()[i].binding == i,
        PipelineKind::Staging(SourceAlpha::Straight).slots() == PipelineKind::Staging(
            SourceAlpha::Premultiplied,
        ).slots(),
        PipelineKind::ExternalTexture(SourceAlpha::Straight).slots()
            == PipelineKind::ExternalTexture(SourceAlpha::Premultiplied).slots(),
{
    assert(PipelineKind::Staging(SourceAlpha::Straight).slots() =~= PipelineKind::Staging(
        SourceAlpha::Premultiplied,
    ).slots());
    assert(PipelineKind::ExternalTexture(SourceAlpha::Straight).slots()
        =~= PipelineKind::ExternalTexture(SourceAlpha::Premultiplied).slots());
}

} // verus!
