//! Font resolution, text shaping and glyph rasterization for a GUI toolkit's
//! Linux backend, with every rule of the pipeline stated as a contract.

pub mod font;
pub mod font_ids;
pub mod geometry;
pub mod line_layout;
pub mod matching;
pub mod raster;
pub mod shaping;
pub mod text_system;
pub mod wayland;
pub mod x11;
