pub use crate::hmi::base::{
    AntialiasingType, DrawVertexLayoutAttribute, DrawVertexLayoutElement, DrawVertexLayoutFormat,
    PlaceholderType, UserFont,
};
pub use crate::math::rectangle::{RectangleI16, TRectangle};
pub use crate::math::rgb::{rgba_color_to_u32, RGBAColor, TColorRGBA};
pub use crate::math::vec2::{
    are_orthogonal, dot, is_unit_length, perp, perp_vec, TVec2, Vec2I16, Vec2I32, Vec2I8, Vec2U16,
    Vec2U32, Vec2U8,
};
