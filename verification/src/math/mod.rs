pub mod colors;
pub mod component;
pub mod minmax;
pub mod rectangle;
pub mod rgb;
pub mod utility;
pub mod vec2;
