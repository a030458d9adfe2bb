use vstd::prelude::*;

verus! {

pub const UNICODE: u16 = 0;
/// The use of the Macintosh platformID is currently discouraged.
/// Subtables with a Macintosh platformID are only required for backwards compatibility with QuickDraw
/// and will be synthesized from Unicode-based subtables if ever needed.
pub const MACINTOSH: u16 = 1;
/// Reserved; Do not use
pub const RESERVED: u16 = 2;
pub const MICROSOFT: u16 = 3;

} // verus!
