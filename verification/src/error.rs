use vstd::prelude::*;
use crate::font_data::TableTag;

verus! {

/// Why decoding a font stopped.
#[derive(Debug, Clone, Copy, PartialEq, Eq, Structural)]
pub enum FontError {
    /// The sfnt header or its table records end before the file says they do.
    MalformedHeader,
    /// A table that the operation needs has no entry in the directory.
    MissingTable(TableTag),
    /// No encoding subtable of the character map is acceptable.
    UnsupportedCmap,
    /// The selected encoding subtable has a format that is not decoded.
    UnsupportedCmapFormat(u16),
    /// The glyph is made of other glyphs.
    CompositeGlyphUnsupported,
    /// The character map has no mapping for the codepoint.
    GlyphNotFound,
    /// A read ran past the end of the file.
    TruncatedData,
}

} // verus!
