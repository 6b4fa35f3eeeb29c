//! Renders one board of a tile world into an RGB framebuffer, after running
//! the font, palette and colour instructions that the board's robots begin with.
pub mod board;
pub mod color;
pub mod glyph;
pub mod interp;
pub mod raster;
pub mod world;
