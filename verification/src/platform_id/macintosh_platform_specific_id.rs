//! When the platformID is 1 (Macintosh), the platformSpecificID is a QuickDraw script code.

use vstd::prelude::*;

verus! {

pub const ROMAN: u16 = 0;
pub const JAPANESE: u16 = 1;
pub const TRADITIONAL_CHINESE: u16 = 2;
pub const KOREAN: u16 = 3;
pub const ARABIC: u16 = 4;
pub const HEBREW: u16 = 5;
pub const GREEK: u16 = 6;
pub const RUSSIAN: u16 = 7;
pub const R_SYMBOL: u16 = 8;
pub const DEVANAGARI: u16 = 9;
pub const GURMUKHI: u16 = 10;
pub const GUJARATI: u16 = 11;
pub const ORIYA: u16 = 12;
pub const BENGALI: u16 = 13;
pub const TAMIL: u16 = 14;
pub const TELUGU: u16 = 15;
pub const KANNADA: u16 = 16;
pub const MALAYALAM: u16 = 17;
pub const SINHALESE: u16 = 18;
pub const BURMESE: u16 = 19;
pub const KHMER: u16 = 20;
pub const THAI: u16 = 21;
pub const LAOTIAN: u16 = 22;
pub const GEORGIAN: u16 = 23;
pub const ARMENIAN: u16 = 24;
pub const SIMPLIFIED_CHINESE: u16 = 25;
pub const TIBETAN: u16 = 26;
pub const MONGOLIAN: u16 = 27;
pub const GEEZ: u16 = 28;
pub const SLAVIC: u16 = 29;
pub const VIETNAMESE: u16 = 30;
pub const SINDHI: u16 = 31;
pub const UNINTERPRETED: u16 = 32;

} // verus!
