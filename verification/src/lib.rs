//! Renders lines of text onto a fixed-size raster with a three-row dot-matrix
//! font, filling the surface column by column.

pub mod canvas;
pub mod color;
pub mod glyph;
pub mod layout;
pub mod line;
pub mod mapper;
pub mod processor;
pub mod raster;
pub mod text;
