//! Turning the colour bitmap of a window icon into the RGBA pixels the
//! toolbar draws.

use vstd::prelude::*;

verus! {

/// Decoded icon bitmap, ready to hand to the UI as an image.
#[derive(Debug, Clone)]
pub struct IconRgba {
    pub width: u32,
    pub height: u32,
    /// Tightly packed RGBA8, top-down.
    pub pixels: Vec<u8>,
}

/// Number of bytes in the whole 4-byte pixels of a buffer of `len` bytes.
pub open spec fn whole_pixel_bytes(len: int) -> int {
    len - len % 4
}

/// Whether some whole pixel of `bgra` has a non-zero alpha byte.
pub open spec fn any_alpha(bgra: Seq<u8>) -> bool {
    exists|p: int| 0 <= p && 4 * p + 3 < whole_pixel_bytes(bgra.len() as int) && #[trigger] bgra[4 * p + 3] != 0
}

/// Byte `i` of the RGBA made from the BGRA bytes `bgra`: blue and red trade
/// places in every whole pixel, and when no whole pixel has any alpha the
/// alpha bytes become opaque. Bytes after the last whole pixel are kept.
pub open spec fn rgba_byte(bgra: Seq<u8>, i: int) -> u8 {
    if i >= whole_pixel_bytes(bgra.len() as int) {
        bgra[i]
    } else if i % 4 == 0 {
        bgra[i + 2]
    } else if i % 4 == 2 {
        bgra[i - 2]
    } else if i % 4 == 3 && !any_alpha(bgra) {
        0xFF
    } else {
        bgra[i]
    }
}

/// The RGBA pixels made from GDI's BGRA pixels.
pub open spec fn rgba_of(bgra: Seq<u8>) -> Seq<u8> {
    Seq::new(bgra.len(), |i: int| rgba_byte(bgra, i))
}

/// Converts GDI's BGRA pixels to RGBA in place. Some 32-bit icons carry an
/// all-zero alpha channel, which would render fully invisible; those are made
/// opaque.
pub fn bgra_to_rgba(pixels: &mut Vec<u8>)
    ensures
        final(pixels)@ == rgba_of(old(pixels)@),
{
    let ghost src = pixels@;
    let len = pixels.len();
    let whole = len - len % 4;
    let mut at: usize = 0;
    let mut opaque = false;
    while at < whole
        invariant
            len == src.len(),
            whole == whole_pixel_bytes(len as int),
            at % 4 == 0,
            at <= whole,
            pixels@.len() == len,
            forall|i: int| at <= i < len ==> #[trigger] pixels@[i] == src[i],
            forall|i: int|
                0 <= i < at ==> #[trigger] pixels@[i] == (if i % 4 == 0 {
                    src[i + 2]
                } else if i % 4 == 2 {
                    src[i - 2]
                } else {
                    src[i]
                }),
            opaque <==> exists|p: int| 0 <= p && 4 * p + 3 < at && #[trigger] src[4 * p + 3] != 0,
        decreases whole - at,
    {
        let blue = pixels[at];
        let red = pixels[at + 2];
        pixels.set(at, red);
        pixels.set(at + 2, blue);
        if pixels[at + 3] != 0 {
            opaque = true;
            proof {
                let p = at as int / 4;
                assert(4 * p + 3 == at + 3);
            }
        }
        proof {
            assert forall|p: int| 0 <= p && 4 * p + 3 < at + 4 && #[trigger] src[4 * p + 3] != 0 implies
                (4 * p + 3 < at || 4 * p + 3 == at + 3) by {}
        }
        at = at + 4;
    }
    if !opaque {
        proof {
            assert(!any_alpha(src));
        }
        let mut q: usize = 3;
        while q < whole
            invariant
                len == src.len(),
                whole == whole_pixel_bytes(len as int),
                q % 4 == 3,
                !any_alpha(src),
                pixels@.len() == len,
                forall|i: int| whole <= i < len ==> #[trigger] pixels@[i] == src[i],
                forall|i: int|
                    0 <= i < whole ==> #[trigger] pixels@[i] == (if i % 4 == 0 {
                        src[i + 2]
                    } else if i % 4 == 2 {
                        src[i - 2]
                    } else if i % 4 == 3 && i < q {
                        0xFF
                    } else {
                        src[i]
                    }),
            decreases whole + 3 - q,
        {
            pixels.set(q, 0xFF);
            q = q + 4;
        }
    } else {
        proof {
            let p = choose|p: int| 0 <= p && 4 * p + 3 < at && #[trigger] src[4 * p + 3] != 0;
            assert(any_alpha(src));
        }
    }
    assert(pixels@ =~= rgba_of(src));
}

/// Byte length of a `width` × `height` RGBA buffer.
pub fn rgba_len(width: u32, height: u32) -> (len: usize)
    requires
        width * height * 4 <= usize::MAX,
    ensures
        len == width * height * 4,
{
    (width as usize) * (height as usize) * 4
}

} // verus!
