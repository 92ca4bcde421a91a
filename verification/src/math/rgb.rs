use vstd::prelude::*;

verus! {

/// A colour made of red, green, blue and alpha components.
#[derive(Copy, Clone, Debug, PartialEq)]
pub struct TColorRGBA<T> {
    pub r: T,
    pub g: T,
    pub b: T,
    pub a: T,
}

pub type RGBAColor = TColorRGBA<u8>;

impl<T: Copy> TColorRGBA<T> {
    pub fn new(r: T, g: T, b: T, a: T) -> (c: Self)
        ensures
            c == (TColorRGBA { r, g, b, a }),
    {
        TColorRGBA { r, g, b, a }
    }

    /// The colour whose components are the four values of `c`, in the
    /// order red, green, blue, alpha.
    pub fn from_slice(c: &[T]) -> (col: Self)
        requires
            c@.len() == 4,
        ensures
            col == (TColorRGBA { r: c@[0], g: c@[1], b: c@[2], a: c@[3] }),
    {
        TColorRGBA { r: c[0], g: c[1], b: c[2], a: c[3] }
    }

    /// The components in the order red, green, blue, alpha.
    pub fn as_slice(&self) -> (s: [T; 4])
        ensures
            s@ == seq![self.r, self.g, self.b, self.a],
    {
        [self.r, self.g, self.b, self.a]
    }
}

/// Packs a colour as `0xAABBGGRR`: red in the lowest byte.
pub open spec fn pack_abgr(c: RGBAColor) -> u32 {
    (c.r as u32) | ((c.g as u32) << 8u32) | ((c.b as u32) << 16u32) | ((c.a as u32) << 24u32)
}

/// Packs a colour with red in the lowest byte and alpha in the highest.
pub fn rgba_color_to_u32(c: RGBAColor) -> (out: u32)
    ensures
        out == pack_abgr(c),
{
    let mut out = c.r as u32;
    out = out | (c.g as u32) << 8;
    out = out | (c.b as u32) << 16;
    out = out | (c.a as u32) << 24;
    out
}

/// Each component can be read back from its byte of the packed value.
pub proof fn lemma_pack_abgr_bytes(c: RGBAColor)
    ensures
        (pack_abgr(c) & 0xFFu32) as u8 == c.r,
        ((pack_abgr(c) >> 8u32) & 0xFFu32) as u8 == c.g,
        ((pack_abgr(c) >> 16u32) & 0xFFu32) as u8 == c.b,
        ((pack_abgr(c) >> 24u32) & 0xFFu32) as u8 == c.a,
{
    let (r, g, b, a) = (c.r, c.g, c.b, c.a);
    assert({
        let v = (r as u32) | ((g as u32) << 8u32) | ((b as u32) << 16u32) | ((a as u32) << 24u32);
        &&& (v & 0xFFu32) as u8 == r
        &&& ((v >> 8u32) & 0xFFu32) as u8 == g
        &&& ((v >> 16u32) & 0xFFu32) as u8 == b
        &&& ((v >> 24u32) & 0xFFu32) as u8 == a
    }) by (bit_vector);
}

} // verus!
