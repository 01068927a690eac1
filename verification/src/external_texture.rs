//! Textures that a host produces and the renderer only places.
use crate::single::Single;
use crate::uniforms;
use crate::uniforms::quad_bytes;
use vstd::prelude::*;

verus! {

/// How a producer texture's alpha is encoded, which selects the blend that the
/// composite uses over the target.
#[derive(Clone, Copy, Debug, PartialEq, Eq, Structural)]
pub enum SourceAlpha {
    /// Colour is straight: it is multiplied by alpha when it is blended.
    Straight,
    /// Colour already carries alpha, and opacity scales all of it.
    Premultiplied,
}

impl Default for SourceAlpha {
    fn default() -> (r: SourceAlpha)
        ensures
            r == SourceAlpha::Straight,
    {
        SourceAlpha::Straight
    }
}

/// The first image key that belongs to host producers. Ordinary document images
/// take keys below it.
pub const EXTERNAL_IMAGE_KEY_BASE: u64 = 0xC000_0000_0000_0000;

/// The number of keys that host producers can have.
pub const PRODUCER_KEYS: u64 = 0x4000_0000_0000_0000;

/// The image key of a host producer.
///
/// Producer keys are the numbers below [`PRODUCER_KEYS`]. A larger one is not
/// masked: see [`law_a_masked_key_would_alias`].
pub fn external_image_key(producer_key: u64) -> (r: u64)
    requires
        producer_key < PRODUCER_KEYS,
    ensures
        r == EXTERNAL_IMAGE_KEY_BASE + producer_key,
        r == EXTERNAL_IMAGE_KEY_BASE | producer_key,
{
    proof {
        lemma_key_is_a_sum(producer_key);
    }
    EXTERNAL_IMAGE_KEY_BASE | producer_key
}

proof fn lemma_key_is_a_sum(key: u64)
    requires
        key < PRODUCER_KEYS,
    ensures
        EXTERNAL_IMAGE_KEY_BASE | key == EXTERNAL_IMAGE_KEY_BASE + key,
{
    assert(0xC000_0000_0000_0000u64 | key == 0xC000_0000_0000_0000u64 + key) by (bit_vector)
        requires
            key < 0x4000_0000_0000_0000u64,
    ;
}

/// Two producers never share an image key, and none has the key of an ordinary
/// image.
pub proof fn law_producer_keys_are_disjoint(a: u64, b: u64, ordinary: u64)
    requires
        a < PRODUCER_KEYS,
        b < PRODUCER_KEYS,
        a != b,
        ordinary < EXTERNAL_IMAGE_KEY_BASE,
    ensures
        EXTERNAL_IMAGE_KEY_BASE | a != EXTERNAL_IMAGE_KEY_BASE | b,
        EXTERNAL_IMAGE_KEY_BASE | a != ordinary,
{
    lemma_key_is_a_sum(a);
    lemma_key_is_a_sum(b);
}

/// Were a producer key beyond the range admitted, its image key would be that
/// of a producer within the range.
pub proof fn law_a_masked_key_would_alias(key: u64)
    requires
        key >= PRODUCER_KEYS,
    ensures
        exists|other: u64|
            other < PRODUCER_KEYS && #[trigger] (EXTERNAL_IMAGE_KEY_BASE | other)
                == EXTERNAL_IMAGE_KEY_BASE | key,
{
    let other = key & 0x3FFF_FFFF_FFFF_FFFF;
    assert(other < 0x4000_0000_0000_0000u64 && 0xC000_0000_0000_0000u64 | other
        == 0xC000_0000_0000_0000u64 | key) by (bit_vector)
        requires
            other == key & 0x3FFF_FFFF_FFFF_FFFF,
    ;
    assert(EXTERNAL_IMAGE_KEY_BASE | other == EXTERNAL_IMAGE_KEY_BASE | key);
}

/// One external texture drawn into a target.
#[derive(Clone, Copy, Debug, PartialEq)]
pub struct ExternalTexturePlacement {
    /// The rectangle that it fills, as two corners in target pixels.
    pub dest_rect: [Single; 4],
    /// The part of the texture that is shown, as two corners in fractions of it.
    pub uv: [Single; 4],
    /// An opacity on top of the texture's own.
    pub opacity: Single,
    /// How the texture's alpha is encoded.
    pub alpha: SourceAlpha,
}

impl ExternalTexturePlacement {
    /// The whole texture, opaque and with straight alpha.
    pub fn new(dest_rect: [Single; 4]) -> (r: ExternalTexturePlacement)
        ensures
            r.dest_rect == dest_rect,
            r.uv@ == seq![Single::zero(), Single::zero(), Single::one(), Single::one()],
            r.opacity == Single::one(),
            r.alpha == SourceAlpha::Straight,
    {
        let uv: [Single; 4] = [Single::zero(), Single::zero(), Single::one(), Single::one()];
        proof {
            assert(uv@ == seq![Single::zero(), Single::zero(), Single::one(), Single::one()]);
        }
        ExternalTexturePlacement {
            dest_rect,
            uv,
            opacity: Single::one(),
            alpha: SourceAlpha::Straight,
        }
    }

    /// Shows another part of the texture.
    pub fn with_uv(self, uv: [Single; 4]) -> (r: ExternalTexturePlacement)
        ensures
            r == (ExternalTexturePlacement { uv, ..self }),
    {
        ExternalTexturePlacement { uv, ..self }
    }

    /// Sets the additional opacity.
    pub fn with_opacity(self, opacity: Single) -> (r: ExternalTexturePlacement)
        ensures
            r == (ExternalTexturePlacement { opacity, ..self }),
    {
        ExternalTexturePlacement { opacity, ..self }
    }

    /// Sets how the texture's alpha is encoded.
    pub fn with_alpha(self, alpha: SourceAlpha) -> (r: ExternalTexturePlacement)
        ensures
            r == (ExternalTexturePlacement { alpha, ..self }),
    {
        ExternalTexturePlacement { alpha, ..self }
    }

    /// Whether drawing this into a viewport can change anything: there is a
    /// viewport, the rectangle has width and height, and the opacity is not
    /// zero or less.
    pub open spec fn visible(self, viewport_width: u32, viewport_height: u32) -> bool {
        &&& viewport_width != 0
        &&& viewport_height != 0
        &&& !self.opacity.le(Single::zero())
        &&& !self.dest_rect@[0].eq_number(self.dest_rect@[2])
        &&& !self.dest_rect@[1].eq_number(self.dest_rect@[3])
    }

    /// Whether there is anything to draw.
    pub fn draws(&self, viewport_width: u32, viewport_height: u32) -> (r: bool)
        ensures
            r == self.visible(viewport_width, viewport_height),
    {
        !(viewport_width == 0 || viewport_height == 0 || self.opacity.at_most(Single::zero())
            || self.dest_rect[0].equals(self.dest_rect[2]) || self.dest_rect[1].equals(
            self.dest_rect[3],
        ))
    }

    /// The number by which the shader tells the encodings of alpha apart.
    pub open spec fn mode(self) -> Single {
        match self.alpha {
            SourceAlpha::Straight => Single::zero(),
            SourceAlpha::Premultiplied => Single::one(),
        }
    }

    /// The shader parameters of this placement.
    pub open spec fn words(self, viewport_width: u32, viewport_height: u32) -> Seq<Single> {
        uniforms::quad_words(
            self.dest_rect@,
            self.uv@,
            viewport_width,
            viewport_height,
            self.opacity,
            self.mode(),
        )
    }

    /// The shader parameters of this placement, packed in the machine's byte
    /// order.
    pub fn params_bytes(&self, viewport_width: u32, viewport_height: u32) -> (r: [u8; 48])
        ensures
            uniforms::packs(r@, self.words(viewport_width, viewport_height)),
    {
        let mode: Single = match self.alpha {
            SourceAlpha::Straight => Single::zero(),
            SourceAlpha::Premultiplied => Single::one(),
        };
        quad_bytes(
            &self.dest_rect,
            &self.uv,
            viewport_width,
            viewport_height,
            self.opacity,
            mode,
        )
    }

    /// The parameter block of one draw, or nothing where there is nothing to
    /// draw.
    pub fn draw_params(&self, viewport_width: u32, viewport_height: u32) -> (r: Option<[u8; 48]>)
        ensures
            r is Some <==> self.visible(viewport_width, viewport_height),
            r matches Some(bytes) ==> uniforms::packs(
                bytes@,
                self.words(viewport_width, viewport_height),
            ),
    {
        if self.draws(viewport_width, viewport_height) {
            Some(self.params_bytes(viewport_width, viewport_height))
        } else {
            None
        }
    }
}

/// One external texture scheduled into a frame. `V` is the host's handle of the
/// texture.
pub struct ExternalTextureComposite<'a, V> {
    pub source_view: &'a V,
    pub placement: ExternalTexturePlacement,
    /// The number of scene operations that paint before this texture.
    /// `usize::MAX` puts it on top of all.
    pub scene_op_boundary: usize,
}

impl<'a, V> ExternalTextureComposite<'a, V> {
    /// A texture on top of the scene.
    pub fn new(source_view: &'a V, placement: ExternalTexturePlacement) -> (r:
        ExternalTextureComposite<'a, V>)
        ensures
            r.source_view == source_view,
            r.placement == placement,
            r.scene_op_boundary == usize::MAX,
    {
        ExternalTextureComposite { source_view, placement, scene_op_boundary: usize::MAX }
    }

    /// Puts the texture between the scene's operations.
    pub fn with_scene_op_boundary(self, scene_op_boundary: usize) -> (r: ExternalTextureComposite<
        'a,
        V,
    >)
        ensures
            r.source_view == self.source_view,
            r.placement == self.placement,
            r.scene_op_boundary == scene_op_boundary,
    {
        ExternalTextureComposite { scene_op_boundary, ..self }
    }
}

} // verus!
