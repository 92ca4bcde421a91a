pub mod flags;
pub mod base;
pub mod panel;
pub mod input;
pub mod image;
pub mod rendered_glyphs_store;
pub mod style;
pub mod vertex_output;
pub mod commands;
pub mod window;
pub mod ui_context;
pub mod text_engine;
pub mod atlas_packing;
pub mod button;
pub mod progress;
pub mod scrollbar;
