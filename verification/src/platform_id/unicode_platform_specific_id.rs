use vstd::prelude::*;

verus! {

pub const VERSION_1_0: u16 = 0;
pub const VERSION_1_1: u16 = 1;
/// ISO 10646 1993 semantics (deprecated)
pub const ISO_10646_1993: u16 = 2;
/// Unicode 2.0 or later semantics (BMP only)
pub const UNICODE_2_0_OR_LATER_BMP_ONLY: u16 = 3;
/// Unicode 2.0 or later semantics (non-BMP characters allowed)
pub const UNICODE_2_0_OR_LATER_NON_BMP_ALLOWED: u16 = 4;
pub const UNICODE_VARIATION_SEQUENCES: u16 = 5;
/// The Unicode platform's platform-specific ID 6 was intended to mark a 'cmap' subtable as one used by a last resort font.
/// This is not required by any Apple platform.
pub const LAST_RESORT: u16 = 6;

} // verus!
