//! Decoding of TrueType (sfnt) font files: the table directory, the glyph
//! location index, the character map and simple glyph outlines.

pub mod error;
pub mod font_data;
pub mod font_file;
pub mod glyph_flags;
pub mod parser;
pub mod platform_id;
pub mod render;
