use vstd::prelude::*;

verus! {

pub const SYMBOL: u16 = 0;
/// UCS-2
pub const UNICODE_BMP_ONLY: u16 = 1;
pub const SHIFT_JIS: u16 = 2;
pub const PRC: u16 = 3;
pub const BIG_FIVE: u16 = 4;
pub const JOHAB: u16 = 5;
pub const UNICODE_UCS_4: u16 = 10;

} // verus!
