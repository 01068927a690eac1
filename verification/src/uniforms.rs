//! Shader parameters, packed for the graphics device.
use crate::single;
use crate::single::Single;
use vstd::prelude::*;

verus! {

/// The numbers that one parameter block holds.
pub const WORDS: usize = 12;

/// The bytes that one parameter block takes.
pub const BYTES: usize = 4 * WORDS;

/// Calls `u32::to_ne_bytes`, which gives the bytes of an integer in the
/// machine's own order. What is claimed is that this is one of the two orders
/// of [`word_bytes`]; which one is the machine's affair.
#[verifier::external_body]
fn native_bytes(x: u32) -> (r: [u8; 4])
    ensures
        r@ == word_bytes(x, true) || r@ == word_bytes(x, false),
{
    x.to_ne_bytes()
}

/// Byte `i` of `x`, counted from the least significant one.
pub open spec fn byte_of(x: u32, i: int) -> u8 {
    if i == 0 {
        (x % 0x100) as u8
    } else if i == 1 {
        (x / 0x100 % 0x100) as u8
    } else if i == 2 {
        (x / 0x1_0000 % 0x100) as u8
    } else {
        (x / 0x100_0000) as u8
    }
}

/// The bytes of `x`, the least significant one first if `little`, else last.
pub open spec fn word_bytes(x: u32, little: bool) -> Seq<u8> {
    Seq::new(
        4,
        |i: int|
            byte_of(
                x,
                if little {
                    i
                } else {
                    3 - i
                },
            ),
    )
}

/// The integer that four bytes, in the given order, spell.
pub open spec fn word_value(bytes: Seq<u8>, little: bool) -> int {
    if little {
        bytes[0] + 0x100 * bytes[1] + 0x1_0000 * bytes[2] + 0x100_0000 * bytes[3]
    } else {
        bytes[3] + 0x100 * bytes[2] + 0x1_0000 * bytes[1] + 0x100_0000 * bytes[0]
    }
}

/// The bytes of a list of numbers, one after the other.
pub open spec fn packed(words: Seq<Single>, little: bool) -> Seq<u8> {
    Seq::new(4 * words.len(), |i: int| word_bytes(words[i / 4].bits, little)[i % 4])
}

/// Whether [`native_bytes`] has given the bytes of the integer one in this
/// order. That is how the machine's byte order is known.
pub closed spec fn native_order(little: bool) -> bool {
    exists|one: [u8; 4]| #[trigger]
        call_ensures(native_bytes, (1u32,), one) && one@ == word_bytes(1, little)
}

/// Whether `bytes` are a list of numbers packed in the machine's byte order.
pub open spec fn packs(bytes: Seq<u8>, words: Seq<Single>) -> bool {
    ||| native_order(true) && bytes == packed(words, true)
    ||| native_order(false) && bytes == packed(words, false)
}

/// The numbers that place a textured rectangle: its corners, the corners of the
/// part of the texture that it shows, the viewport, and two numbers more.
pub open spec fn quad_words(
    dest: Seq<Single>,
    uv: Seq<Single>,
    width: u32,
    height: u32,
    opacity: Single,
    mode: Single,
) -> Seq<Single> {
    seq![
        dest[0],
        dest[1],
        dest[2],
        dest[3],
        uv[0],
        uv[1],
        uv[2],
        uv[3],
        single::nearest(width as int),
        single::nearest(height as int),
        opacity,
        mode,
    ]
}

/// What is packed can be read back: number `i` is spelled by the four bytes
/// from `4 * i` on.
pub proof fn law_packed_words_read_back(words: Seq<Single>, little: bool, i: int)
    requires
        0 <= i < words.len(),
    ensures
        word_value(packed(words, little).subrange(4 * i, 4 * i + 4), little) == words[i].bits,
{
    let part = packed(words, little).subrange(4 * i, 4 * i + 4);
    assert((4 * i) / 4 == i && (4 * i) % 4 == 0);
    assert((4 * i + 1) / 4 == i && (4 * i + 1) % 4 == 1);
    assert((4 * i + 2) / 4 == i && (4 * i + 2) % 4 == 2);
    assert((4 * i + 3) / 4 == i && (4 * i + 3) % 4 == 3);
    assert(part[0] == word_bytes(words[i].bits, little)[0]);
    assert(part[1] == word_bytes(words[i].bits, little)[1]);
    assert(part[2] == word_bytes(words[i].bits, little)[2]);
    assert(part[3] == word_bytes(words[i].bits, little)[3]);
}

fn byte_at(x: u32, i: usize) -> (r: u8)
    requires
        i < 4,
    ensures
        r == byte_of(x, i as int),
{
    if i == 0 {
        (x % 0x100) as u8
    } else if i == 1 {
        (x / 0x100 % 0x100) as u8
    } else if i == 2 {
        (x / 0x1_0000 % 0x100) as u8
    } else {
        (x / 0x100_0000) as u8
    }
}

/// Packs a parameter block in the given byte order.
pub fn pack(words: &[Single; WORDS], little: bool) -> (r: [u8; 48])
    ensures
        r@ == packed(words@, little),
{
    let mut bytes: [u8; 48] = [0u8; 48];
    let mut i: usize = 0;
    while i < BYTES
        invariant
            i <= BYTES,
            forall|j: int| 0 <= j < i ==> bytes@[j] == packed(words@, little)[j],
        decreases BYTES - i,
    {
        let place: usize = if little {
            i % 4
        } else {
            3 - i % 4
        };
        bytes[i] = byte_at(words[i / 4].bits, place);
        i = i + 1;
    }
    proof {
        assert(bytes@ == packed(words@, little));
    }
    bytes
}

/// Whether the machine puts the least significant byte first.
fn little_endian() -> (r: bool)
    ensures
        native_order(r),
{
    let one: [u8; 4] = native_bytes(1);
    let r: bool = one[0] == 1;
    proof {
        assert(word_bytes(1, true)[0] == 1);
        assert(word_bytes(1, false)[0] == 0);
        assert(one@ == word_bytes(1, r));
        assert(call_ensures(native_bytes, (1u32,), one));
    }
    r
}

/// Packs the parameters of a textured rectangle in the machine's byte order.
pub fn quad_bytes(
    dest: &[Single; 4],
    uv: &[Single; 4],
    width: u32,
    height: u32,
    opacity: Single,
    mode: Single,
) -> (r: [u8; 48])
    ensures
        packs(r@, quad_words(dest@, uv@, width, height, opacity, mode)),
{
    let words: [Single; WORDS] = [
        dest[0],
        dest[1],
        dest[2],
        dest[3],
        uv[0],
        uv[1],
        uv[2],
        uv[3],
        Single::from_u32(width),
        Single::from_u32(height),
        opacity,
        mode,
    ];
    proof {
        assert(words@ == quad_words(dest@, uv@, width, height, opacity, mode));
    }
    pack(&words, little_endian())
}

/// Packs the parameters for laying one image over another.
pub fn two_image_params(
    viewport: &[u32; 2],
    dest: &[Single; 4],
    uv: &[Single; 4],
    opacity: Single,
) -> (r: [u8; 48])
    ensures
        packs(
            r@,
            quad_words(dest@, uv@, viewport@[0], viewport@[1], opacity, Single::zero()),
        ),
{
    quad_bytes(dest, uv, viewport[0], viewport[1], opacity, Single::zero())
}

} // verus!
