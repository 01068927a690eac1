//! What is drawn, with which numbers, and what the numbers are worth.
use crate::effect_graph::GraphModel;
use crate::effect_graph::ImageLoad;
use crate::effect_graph::ImageModel;
use crate::effect_graph::PassModel;
use crate::effect_graph::TaskModel;
use crate::external_texture::ExternalTexturePlacement;
use crate::external_texture::SourceAlpha;
use crate::opaque_tenant;
use crate::opaque_tenant::TenantImage;
use crate::pipeline::BindingKind;
use crate::pipeline::BindingSlot;
use crate::pipeline::PipelineKind;
use crate::pipeline::Visibility;
use crate::pixels;
use crate::single;
use crate::single::Single;
use crate::text;
use crate::uniforms;
use vstd::arithmetic::power2;
use vstd::prelude::*;

verus! {

/// When a placement is drawn: both sides of the viewport are above zero, and
/// neither is the opacity a number of zero or less, nor are the two corners'
/// numbers the same along either axis. Where the rectangle lies does not matter.
pub proof fn law_what_is_drawn(placement: ExternalTexturePlacement, width: u32, height: u32)
    ensures
        ({
            let (x0, y0) = (placement.dest_rect@[0], placement.dest_rect@[1]);
            let (x1, y1) = (placement.dest_rect@[2], placement.dest_rect@[3]);
            let opacity = placement.opacity;
            placement.visible(width, height) <==> {
                &&& width > 0
                &&& height > 0
                &&& opacity.nan() || opacity.value() > 0
                &&& x0.nan() || x1.nan() || x0.value() != x1.value()
                &&& y0.nan() || y1.nan() || y0.value() != y1.value()
            }
        }),
{
    assert(Single::zero().value() == 0);
}

/// A rectangle with a width and a height is drawn as well when it is moved, and
/// with any texture coordinates, either alpha and any opacity above zero, into
/// any viewport that is not empty.
pub proof fn law_moving_changes_nothing(
    here: ExternalTexturePlacement,
    there: ExternalTexturePlacement,
    width: u32,
    height: u32,
)
    requires
        width > 0,
        height > 0,
        forall|i: int|
            0 <= i < 4 ==> !(#[trigger] here.dest_rect@[i]).nan() && !there.dest_rect@[i].nan(),
        !here.opacity.nan() && here.opacity.value() > 0,
        !there.opacity.nan() && there.opacity.value() > 0,
        there.dest_rect@[2].value() - there.dest_rect@[0].value() == here.dest_rect@[2].value()
            - here.dest_rect@[0].value(),
        there.dest_rect@[3].value() - there.dest_rect@[1].value() == here.dest_rect@[3].value()
            - here.dest_rect@[1].value(),
    ensures
        here.visible(width, height) == there.visible(width, height),
        here.dest_rect@[0].value() != here.dest_rect@[2].value() && here.dest_rect@[1].value()
            != here.dest_rect@[3].value() ==> here.visible(width, height),
{
    law_what_is_drawn(here, width, height);
    law_what_is_drawn(there, width, height);
    let (a, b) = (here.dest_rect@, there.dest_rect@);
    assert(!a[0].nan() && !a[1].nan() && !a[2].nan() && !a[3].nan());
    assert(!b[0].nan() && !b[1].nan() && !b[2].nan() && !b[3].nan());
}

/// What the shader reads back: the rectangle, the part of the texture, the
/// viewport, the opacity, and zero or one for the alpha.
pub proof fn law_what_the_shader_reads(
    placement: ExternalTexturePlacement,
    width: u32,
    height: u32,
    little: bool,
    i: int,
)
    requires
        0 <= i < 4,
    ensures
        ({
            let bytes = uniforms::packed(placement.words(width, height), little);
            let at = |n: int| uniforms::word_value(bytes.subrange(4 * n, 4 * n + 4), little);
            &&& bytes.len() == 48
            &&& at(i) == placement.dest_rect@[i].bits
            &&& at(4 + i) == placement.uv@[i].bits
            &&& at(8) == single::nearest(width as int).bits
            &&& at(9) == single::nearest(height as int).bits
            &&& at(10) == placement.opacity.bits
            &&& placement.alpha == SourceAlpha::Straight ==> at(11) == 0
            &&& placement.alpha == SourceAlpha::Premultiplied ==> at(11) == 0x3F80_0000
        }),
{
    let words = placement.words(width, height);
    uniforms::law_packed_words_read_back(words, little, i);
    uniforms::law_packed_words_read_back(words, little, 4 + i);
    uniforms::law_packed_words_read_back(words, little, 8);
    uniforms::law_packed_words_read_back(words, little, 9);
    uniforms::law_packed_words_read_back(words, little, 10);
    uniforms::law_packed_words_read_back(words, little, 11);
}

/// The numbers of any textured rectangle stand in this order.
pub proof fn law_order_of_parameters(
    dest: Seq<Single>,
    uv: Seq<Single>,
    width: u32,
    height: u32,
    opacity: Single,
    mode: Single,
    i: int,
)
    requires
        0 <= i < 4,
    ensures
        ({
            let words = uniforms::quad_words(dest, uv, width, height, opacity, mode);
            &&& words.len() == 12
            &&& words[i] == dest[i]
            &&& words[4 + i] == uv[i]
            &&& words[8] == single::nearest(width as int)
            &&& words[9] == single::nearest(height as int)
            &&& words[10] == opacity
            &&& words[11] == mode
        }),
{
}

/// Parameters are packed in one of the two byte orders for all of them, and in
/// one that the machine reported.
pub proof fn law_packed_in_one_order(bytes: Seq<u8>, words: Seq<Single>) -> (little: bool)
    requires
        uniforms::packs(bytes, words),
    ensures
        uniforms::native_order(little),
        bytes.len() == 4 * words.len(),
        forall|i: int|
            #![trigger words[i]]
            0 <= i < words.len() ==> uniforms::word_value(
                bytes.subrange(4 * i, 4 * i + 4),
                little,
            ) == words[i].bits,
{
    let little = uniforms::native_order(true) && bytes == uniforms::packed(words, true);
    assert forall|i: int|
        #![trigger words[i]]
        0 <= i < words.len() implies uniforms::word_value(
        bytes.subrange(4 * i, 4 * i + 4),
        little,
    ) == words[i].bits by {
        uniforms::law_packed_words_read_back(words, little, i);
    }
    little
}

/// What a pattern is worth. Below the first exponent it counts in units; above,
/// the fraction with its leading bit counts in a unit that each exponent doubles.
pub proof fn law_worth_of_a_pattern(exponent: int, fraction: int)
    requires
        0 <= exponent < 256,
        0 <= fraction < 0x80_0000,
    ensures
        ({
            let worth = single::magnitude(exponent * 0x80_0000 + fraction);
            &&& exponent == 0 ==> worth == fraction
            &&& exponent > 0 ==> worth == (0x80_0000 + fraction) * power2::pow2(
                (exponent - 1) as nat,
            )
        }),
{
    let pattern = exponent * 0x80_0000 + fraction;
    assert(pattern / 0x80_0000 == exponent && pattern % 0x80_0000 == fraction) by (nonlinear_arith)
        requires
            pattern == exponent * 0x80_0000 + fraction,
            0 <= fraction < 0x80_0000,
    ;
    if exponent > 0 {
        power2::lemma_pow2_pos((exponent - 1) as nat);
        assert((0x80_0000 + fraction) * power2::pow2((exponent - 1) as nat) >= 0)
            by (nonlinear_arith)
            requires
                fraction >= 0,
                power2::pow2((exponent - 1) as nat) > 0,
        ;
    }
}

/// Numbers are ordered as their patterns are: upwards above zero, downwards below
/// it; the two zeros are the same; and what is no number is neither less than,
/// nor the same as, anything.
pub proof fn law_order_of_numbers(a: Single, b: Single)
    ensures
        a.nan() <==> 0x7F80_0000 < a.bits < 0x8000_0000 || a.bits > 0xFF80_0000,
        a.nan() || b.nan() ==> !a.lt(b) && !a.le(b) && !a.eq_number(b),
        !a.nan() && !b.nan() ==> {
            let x = if a.bits >= 0x8000_0000 {
                0x8000_0000 - a.bits
            } else {
                a.bits as int
            };
            let y = if b.bits >= 0x8000_0000 {
                0x8000_0000 - b.bits
            } else {
                b.bits as int
            };
            &&& a.lt(b) <==> x < y
            &&& a.le(b) <==> x <= y
            &&& a.eq_number(b) <==> x == y
        },
{
    let (u, v) = (a.unsigned(), b.unsigned());
    if u < v {
        single::lemma_magnitude_increases(u, v);
    }
    if v < u {
        single::lemma_magnitude_increases(v, u);
    }
    if u > 0 {
        single::lemma_magnitude_increases(0, u);
    }
    if v > 0 {
        single::lemma_magnitude_increases(0, v);
    }
    assert(single::magnitude(0) == 0);
}

/// Clamping keeps what lies between zero and one, and what is no number, and
/// takes the nearer end for anything else.
pub proof fn law_clamping(x: Single)
    ensures
        x.nan() ==> x.unit() == x,
        !x.nan() && x.value() < 0 ==> x.unit().bits == 0,
        !x.nan() && x.value() > single::magnitude(0x3F80_0000) ==> x.unit().bits == 0x3F80_0000,
        !x.nan() && 0 <= x.value() <= single::magnitude(0x3F80_0000) ==> x.unit() == x,
{
    assert(Single::zero().value() == 0);
}

/// No number is nearer to an integer than the one that it rounds to; of two that
/// are as near, the even one is taken; and an integer that is a number rounds to
/// itself.
pub proof fn law_rounding(r: Single, other: Single, x: int)
    requires
        r.rounds(x),
        !other.nan(),
    ensures
        ({
            let target = x * power2::pow2(149);
            let mine = if r.value() <= target {
                target - r.value()
            } else {
                r.value() - target
            };
            let theirs = if other.value() <= target {
                target - other.value()
            } else {
                other.value() - target
            };
            &&& r.bits < 0x7F80_0001
            &&& mine <= theirs
            &&& mine == theirs && r.value() != other.value() ==> r.bits % 2 == 0
            &&& other.value() == target ==> r.value() == target
        }),
{
    assert(r.no_worse(other, x));
}

/// The bindings of each pipeline: its textures, then the sampler, seen by the
/// fragments; then, but for staging, the parameters, seen by the vertices too.
pub proof fn law_bindings(alpha: SourceAlpha)
    ensures
        ({
            let texture = |n: u32|
                BindingSlot {
                    binding: n,
                    visibility: Visibility::Fragment,
                    kind: BindingKind::Texture,
                };
            let sampler = |n: u32|
                BindingSlot {
                    binding: n,
                    visibility: Visibility::Fragment,
                    kind: BindingKind::Sampler,
                };
            let uniform = |n: u32|
                BindingSlot {
                    binding: n,
                    visibility: Visibility::VertexFragment,
                    kind: BindingKind::Uniform,
                };
            &&& PipelineKind::Staging(alpha).slots() == seq![texture(0), sampler(1)]
            &&& PipelineKind::ExternalTexture(alpha).slots() == seq![
                texture(0),
                sampler(1),
                uniform(2),
            ]
            &&& PipelineKind::TwoImage.slots() == seq![
                texture(0),
                texture(1),
                sampler(2),
                uniform(3),
            ]
        }),
{
    let a = PipelineKind::Staging(alpha).slots();
    let b = PipelineKind::ExternalTexture(alpha).slots();
    let c = PipelineKind::TwoImage.slots();
    assert(a.len() == 2 && b.len() == 3 && c.len() == 4);
}

/// The graph of a tenant, in full.
pub proof fn law_graph_of_a_tenant(
    tenant_name: Seq<char>,
    texture: TenantImage,
    master: TenantImage,
    header: Seq<char>,
)
    ensures
        ({
            let graph = opaque_tenant::tenant_graph(tenant_name, texture, master, header);
            &&& graph.header == header
            &&& graph.images.len() == 2
            &&& graph.images[0] == (ImageModel {
                label: tenant_name,
                width: texture.width,
                height: texture.height,
                format: texture.format@,
                imported: true,
            })
            &&& graph.images[1] == (ImageModel {
                label: "netrender initialized master"@,
                width: master.width,
                height: master.height,
                format: master.format@,
                imported: true,
            })
            &&& graph.tasks == seq![
                TaskModel {
                    label: "opaque tenant composite"@,
                    reads: seq![0nat],
                    writes: 1,
                    load: ImageLoad::Load,
                    pass: PassModel::ExternalTexture,
                },
            ]
        }),
{
    let graph: GraphModel = opaque_tenant::tenant_graph(tenant_name, texture, master, header);
    assert(graph.tasks.len() == 1);
}

/// The dump of a tenant ends in the graph's, and says before it, in this order,
/// everything that the host said.
pub proof fn law_dump_of_a_tenant(
    tenant_name: Seq<char>,
    producer_path: Seq<char>,
    fallback_count: u64,
    boundary: usize,
    reported: Option<u64>,
    graph_dump: Seq<char>,
)
    ensures
        opaque_tenant::plan_dump_text(
            tenant_name,
            producer_path,
            fallback_count,
            boundary,
            reported,
            graph_dump,
        ) == "opaque_tenant tenant_name="@ + tenant_name + " producer_path="@ + producer_path
            + " fallback_count="@ + text::decimal(fallback_count as nat) + " scene_op_boundary="@
            + text::decimal(boundary as nat) + " caller_reported_physical_submission_count="@ + (
        match reported {
            None => "None"@,
            Some(count) => "Some("@ + text::decimal(count as nat) + ")"@,
        }) + "\n"@ + graph_dump,
{
}

/// What a text of decimal digits says, read from left to right.
pub open spec fn number_of(digits: Seq<char>) -> int
    decreases digits.len(),
{
    if digits.len() == 0 {
        0
    } else {
        10 * number_of(digits.drop_last()) + (digits.last() as int - '0' as int)
    }
}

/// A number that is written can be read: its text is of digits alone, says the
/// number, and begins with a zero only where it is zero.
pub proof fn law_decimal_reads_back(n: nat)
    ensures
        number_of(text::decimal(n)) == n,
        text::decimal(n).len() > 0,
        text::decimal(n)[0] == '0' ==> n == 0,
        forall|i: int|
            0 <= i < text::decimal(n).len() ==> '0' as int <= (#[trigger] text::decimal(n)[i]) as int
                <= '9' as int,
    decreases n,
{
    let digits = text::decimal(n);
    if n < 10 {
        assert(digits.drop_last() == Seq::<char>::empty());
        assert(number_of(digits.drop_last()) == 0);
        assert(digits.last() as int - '0' as int == n);
    } else {
        law_decimal_reads_back(n / 10);
        assert(digits.drop_last() == text::decimal(n / 10));
        assert(digits.last() as int - '0' as int == n % 10);
    }
}

/// Pixel `n` of an image is its four bytes from `4 * n` on: red, green, blue,
/// alpha; and there are no bytes besides.
pub proof fn law_bytes_of_a_pixel(image: Seq<(u8, u8, u8, u8)>, n: int)
    requires
        0 <= n < image.len(),
    ensures
        ({
            let bytes = pixels::flattened(image);
            &&& bytes.len() == 4 * image.len()
            &&& bytes[4 * n] == image[n].0
            &&& bytes[4 * n + 1] == image[n].1
            &&& bytes[4 * n + 2] == image[n].2
            &&& bytes[4 * n + 3] == image[n].3
        }),
{
    assert((4 * n) / 4 == n && (4 * n) % 4 == 0);
    assert((4 * n + 1) / 4 == n && (4 * n + 1) % 4 == 1);
    assert((4 * n + 2) / 4 == n && (4 * n + 2) % 4 == 2);
    assert((4 * n + 3) / 4 == n && (4 * n + 3) % 4 == 3);
}

/// Rows follow one another without gaps, and pixels within a row too.
pub proof fn law_place_of_a_pixel(width: u32, x: u32, y: u32)
    ensures
        pixels::pixel_offset(width, 0, 0) == 0,
        x < u32::MAX ==> pixels::pixel_offset(width, (x + 1) as u32, y) == pixels::pixel_offset(
            width,
            x,
            y,
        ) + 4,
        y < u32::MAX ==> pixels::pixel_offset(width, x, (y + 1) as u32) == pixels::pixel_offset(
            width,
            x,
            y,
        ) + 4 * width,
{
    assert((y + 1) * width == y * width + width) by (nonlinear_arith);
    assert(0 * width == 0) by (nonlinear_arith);
}

/// The distance of two pixels is that of their channels, added up.
pub proof fn law_distance_adds_up(a: Seq<u8>, b: Seq<u8>)
    requires
        a.len() == 4,
        b.len() == 4,
    ensures
        ({
            let apart = |i: int|
                if a[i] < b[i] {
                    b[i] - a[i]
                } else {
                    a[i] - b[i]
                };
            pixels::pixel_delta(a, b) == apart(0) + apart(1) + apart(2) + apart(3)
        }),
{
}

/// Images with sides of up to 65535 pixels can be painted on the CPU, as far as
/// their bytes can be addressed, and a new one is blank.
pub proof fn law_images_on_the_cpu(dim: u32, count: nat, i: int)
    ensures
        pixels::fits_cpu(dim) <==> dim <= 65535 && 4 * dim * dim <= isize::MAX,
        pixels::blank(count).len() == count,
        0 <= i < count ==> pixels::blank(count)[i] == (0u8, 0u8, 0u8, 0u8),
{
}

} // verus!
