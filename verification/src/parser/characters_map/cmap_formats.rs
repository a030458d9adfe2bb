//! Formats of character map subtables.

use vstd::prelude::*;

verus! {

/// Format 0: Macintosh standard character to glyph mapping.
pub const FORMAT_0: u16 = 0;

/// Format 2: Mixed 8/16-bit mapping useful for Japanese, Chinese, and Korean.
pub const FORMAT_2: u16 = 2;

/// Format 4: 16-bit mappings.
pub const FORMAT_4: u16 = 4;

/// Format 6: Dense 16-bit mappings.
pub const FORMAT_6: u16 = 6;

/// Format 8: Mixed 16/32-bit mapping.
pub const FORMAT_8: u16 = 8;

/// Format 10: Mixed 16/32-bit mapping.
pub const FORMAT_10: u16 = 10;

/// Format 12: Pure 32-bit mappings.
pub const FORMAT_12: u16 = 12;

/// Format 13: Specialized use, structurally the same as format 12 but with a different interpretation of the data.
pub const FORMAT_13: u16 = 13;

/// Format 14: Specialized use for Unicode variation selectors.
pub const FORMAT_14: u16 = 14;

} // verus!
