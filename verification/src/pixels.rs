//! Pixels read back from an image.
use vstd::prelude::*;

verus! {

/// An image that the CPU rasterizer paints into. Its pixels have the name
/// [`pixmap_pixels`]; nothing else is claimed of it.
#[verifier::external_type_specification]
#[verifier::external_body]
pub struct ExPixmap(vello_cpu::Pixmap);

/// The pixels of a CPU image, row by row from the top: red, green, blue, alpha.
pub uninterp spec fn pixmap_pixels(pixmap: vello_cpu::Pixmap) -> Seq<(u8, u8, u8, u8)>;

/// Calls `vello_cpu::Pixmap::data`, which hands out the pixels in their order,
/// and takes each apart into its four channels.
#[verifier::external_body]
fn pixmap_data(pixmap: &vello_cpu::Pixmap) -> (r: Vec<(u8, u8, u8, u8)>)
    ensures
        r@ == pixmap_pixels(*pixmap),
{
    pixmap.data().iter().map(|p| (p.r, p.g, p.b, p.a)).collect()
}

/// Pixels that show nothing.
pub open spec fn blank(count: nat) -> Seq<(u8, u8, u8, u8)> {
    Seq::new(count, |i: int| (0u8, 0u8, 0u8, 0u8))
}

/// Calls `vello_cpu::Pixmap::new`, which makes an image of this size with every
/// pixel transparent black. The bytes of an image have to fit into memory's
/// address range.
#[verifier::external_body]
fn new_pixmap(width: u16, height: u16) -> (r: vello_cpu::Pixmap)
    requires
        4 * width * height <= isize::MAX,
    ensures
        pixmap_pixels(r) == blank((width * height) as nat),
{
    vello_cpu::Pixmap::new(width, height)
}

/// Whether the CPU rasterizer can paint a square image with sides of `dim`
/// pixels.
pub open spec fn fits_cpu(dim: u32) -> bool {
    dim <= u16::MAX && 4 * dim * dim <= isize::MAX
}

/// Makes a blank square image for the CPU rasterizer, if it is not too large for
/// it.
pub fn cpu_image(dim: u32) -> (r: Option<vello_cpu::Pixmap>)
    ensures
        r is Some <==> fits_cpu(dim),
        r matches Some(pixmap) ==> pixmap_pixels(pixmap) == blank((dim * dim) as nat),
{
    if dim > 0xFFFF {
        return None;
    }
    let side: u64 = dim as u64;
    proof {
        assert(side * side <= 0xFFFF * 0xFFFF) by (nonlinear_arith)
            requires
                side <= 0xFFFF,
        ;
        assert(4 * (side * side) == (4 * side) * side) by (nonlinear_arith);
    }
    if 4 * (side * side) > isize::MAX as u64 {
        return None;
    }
    Some(new_pixmap(dim as u16, dim as u16))
}

/// One channel of a pixel.
pub open spec fn channel(pixel: (u8, u8, u8, u8), i: int) -> u8 {
    if i == 0 {
        pixel.0
    } else if i == 1 {
        pixel.1
    } else if i == 2 {
        pixel.2
    } else {
        pixel.3
    }
}

/// Pixels as bytes, four to a pixel.
pub open spec fn flattened(pixels: Seq<(u8, u8, u8, u8)>) -> Seq<u8> {
    Seq::new(4 * pixels.len(), |i: int| channel(pixels[i / 4], i % 4))
}

/// Writes pixels as bytes, four to a pixel.
pub fn rgba_bytes(pixels: &Vec<(u8, u8, u8, u8)>) -> (r: Vec<u8>)
    ensures
        r@ == flattened(pixels@),
{
    let mut out: Vec<u8> = Vec::new();
    let mut i: usize = 0;
    while i < pixels.len()
        invariant
            i <= pixels.len(),
            out@ == flattened(pixels@.take(i as int)),
        decreases pixels.len() - i,
    {
        let pixel: (u8, u8, u8, u8) = pixels[i];
        let ghost before = out@;
        out.push(pixel.0);
        out.push(pixel.1);
        out.push(pixel.2);
        out.push(pixel.3);
        proof {
            let next = flattened(pixels@.take(i + 1));
            assert forall|j: int| 0 <= j < next.len() implies #[trigger] out@[j] == next[j] by {
                if j < 4 * i {
                    assert(before[j] == channel(pixels@[j / 4], j % 4));
                } else {
                    assert(j / 4 == i);
                }
            }
            assert(out@ == next);
        }
        i = i + 1;
    }
    proof {
        assert(pixels@.take(pixels@.len() as int) == pixels@);
    }
    out
}

/// The bytes of a CPU image, for upload to the graphics device.
pub fn pixmap_bytes(pixmap: &vello_cpu::Pixmap) -> (r: Vec<u8>)
    ensures
        r@ == flattened(pixmap_pixels(*pixmap)),
{
    rgba_bytes(&pixmap_data(pixmap))
}

/// Where the pixel at column `x` and row `y` begins among the bytes of an image
/// `width` pixels wide.
pub open spec fn pixel_offset(width: u32, x: u32, y: u32) -> int {
    (y * width + x) * 4
}

/// Reads one pixel.
pub fn pixel(bytes: &Vec<u8>, width: u32, x: u32, y: u32) -> (r: [u8; 4])
    requires
        pixel_offset(width, x, y) + 4 <= bytes.len(),
    ensures
        r@ == bytes@.subrange(pixel_offset(width, x, y), pixel_offset(width, x, y) + 4),
{
    proof {
        assert(y * width >= 0) by (nonlinear_arith);
    }
    let offset: usize = (y as usize * width as usize + x as usize) * 4;
    let r: [u8; 4] = [bytes[offset], bytes[offset + 1], bytes[offset + 2], bytes[offset + 3]];
    proof {
        assert(r@ == bytes@.subrange(offset as int, offset + 4));
    }
    r
}

/// A pixel that was written is the pixel that is read.
pub proof fn law_pixels_read_back(
    pixels: Seq<(u8, u8, u8, u8)>,
    width: u32,
    x: u32,
    y: u32,
    i: int,
)
    requires
        y * width + x < pixels.len(),
        0 <= i < 4,
    ensures
        flattened(pixels).subrange(pixel_offset(width, x, y), pixel_offset(width, x, y) + 4)[i]
            == channel(pixels[y * width + x], i),
{
    let n = y * width + x;
    assert(y * width >= 0) by (nonlinear_arith);
    assert((4 * n + i) / 4 == n && (4 * n + i) % 4 == i);
}

/// The distance between two channels.
pub open spec fn channel_delta(a: u8, b: u8) -> int {
    if a >= b {
        a - b
    } else {
        b - a
    }
}

/// How far two pixels are apart, over all channels.
pub open spec fn pixel_delta(a: Seq<u8>, b: Seq<u8>) -> int {
    channel_delta(a[0], b[0]) + channel_delta(a[1], b[1]) + channel_delta(a[2], b[2])
        + channel_delta(a[3], b[3])
}

fn abs_diff(a: u8, b: u8) -> (r: u32)
    ensures
        r == channel_delta(a, b),
        r <= 255,
{
    if a >= b {
        (a - b) as u32
    } else {
        (b - a) as u32
    }
}

/// Measures how far two pixels are apart.
pub fn delta(a: [u8; 4], b: [u8; 4]) -> (r: u32)
    ensures
        r == pixel_delta(a@, b@),
{
    abs_diff(a[0], b[0]) + abs_diff(a[1], b[1]) + abs_diff(a[2], b[2]) + abs_diff(a[3], b[3])
}

/// Pixels are no distance apart exactly if they are the same, the distance is
/// the same both ways, no way round is shorter, and four channels are at most
/// four times the range of one apart.
pub proof fn law_delta_is_a_distance(a: Seq<u8>, b: Seq<u8>, c: Seq<u8>)
    requires
        a.len() == 4,
        b.len() == 4,
    ensures
        pixel_delta(a, b) == 0 <==> a == b,
        pixel_delta(a, b) == pixel_delta(b, a),
        pixel_delta(a, c) <= pixel_delta(a, b) + pixel_delta(b, c),
        0 <= pixel_delta(a, b) <= 4 * 255,
{
    if pixel_delta(a, b) == 0 {
        assert(a =~= b);
    }
}

} // verus!
