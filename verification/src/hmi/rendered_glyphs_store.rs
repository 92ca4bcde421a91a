use vstd::prelude::*;

verus! {

/// Identifies a glyph rendered at a size with a font.
#[derive(Copy, Clone, Debug, PartialEq, Eq, Hash)]
pub struct GlyphId {
    pub font_id: u64,
    pub font_size: i32,
    pub glyph_id: u32,
}

} // verus!
