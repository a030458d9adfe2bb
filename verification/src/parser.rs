//! The decoders, one module for each part of the file.

pub mod characters_map;
pub mod font;
pub mod glyph;
pub mod glyph_offset;
