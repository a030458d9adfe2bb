use vstd::prelude::*;

verus! {

/// If set, the point is on the curve; otherwise, it is off the curve.
pub const ON_CURVE: u8 = 0x01;

/// If set, the x-coordinate is 1 byte long; otherwise, 2 bytes.
pub const SHORT_VECTOR_X: u8 = 0x02;

/// If set, the y-coordinate is 1 byte long; otherwise, 2 bytes.
pub const SHORT_VECTOR_Y: u8 = 0x04;

/// If set, the next byte says how many more times this flag byte counts.
pub const REPEAT: u8 = 0x08;

/// With a short x: the sign of the value, set for positive. With a long
/// x: set where the x-coordinate is that of the previous point.
pub const IS_SAME_X: u8 = 0x10;

/// See `IS_SAME_X`.
pub const IS_POSITIVE_X: u8 = 0x10;

/// With a short y: the sign of the value, set for positive. With a long
/// y: set where the y-coordinate is that of the previous point.
pub const IS_SAME_Y: u8 = 0x20;

/// See `IS_SAME_Y`.
pub const IS_POSITIVE_Y: u8 = 0x20;

/// Set to zero.
pub const RESERVED: u8 = 0xC0;

/// How one coordinate of a point is stored.
#[derive(Debug, Clone, Copy, PartialEq, Eq, Structural)]
pub enum CoordinateDelta {
    /// A signed difference of two bytes.
    Explicit16,
    /// An unsigned difference of one byte, with its sign.
    ShortSigned { positive: bool },
    /// Nothing is stored: the coordinate of the previous point.
    SameAsPrevious,
}

impl CoordinateDelta {
    /// How many bytes the difference takes in the file.
    pub open spec fn width(self) -> int {
        match self {
            CoordinateDelta::Explicit16 => 2,
            CoordinateDelta::ShortSigned { positive } => 1,
            CoordinateDelta::SameAsPrevious => 0,
        }
    }
}

/// The flag byte of one point of a glyph. All eight bits are kept.
#[derive(Debug, Clone, Copy, PartialEq, Eq, Hash, Structural)]
pub struct GlyphFlags {
    pub bits: u8,
}

impl GlyphFlags {
    /// Whether every bit of `mask` is set.
    pub open spec fn has(self, mask: u8) -> bool {
        self.bits & mask == mask
    }

    /// Whether the point lies on the curve.
    pub open spec fn on_curve(self) -> bool {
        self.has(ON_CURVE)
    }

    /// Whether a repeat count follows the flag byte.
    pub open spec fn repeats(self) -> bool {
        self.has(REPEAT)
    }

    /// How the x-coordinate is stored.
    pub open spec fn x_delta(self) -> CoordinateDelta {
        if self.has(SHORT_VECTOR_X) {
            CoordinateDelta::ShortSigned { positive: self.has(IS_POSITIVE_X) }
        } else if self.has(IS_SAME_X) {
            CoordinateDelta::SameAsPrevious
        } else {
            CoordinateDelta::Explicit16
        }
    }

    /// How the y-coordinate is stored.
    pub open spec fn y_delta(self) -> CoordinateDelta {
        if self.has(SHORT_VECTOR_Y) {
            CoordinateDelta::ShortSigned { positive: self.has(IS_POSITIVE_Y) }
        } else if self.has(IS_SAME_Y) {
            CoordinateDelta::SameAsPrevious
        } else {
            CoordinateDelta::Explicit16
        }
    }

    /// The flags with exactly the bits of `bits`, unknown ones included.
    pub fn from_bits_retain(bits: u8) -> (flags: GlyphFlags)
        ensures
            flags.bits == bits,
    {
        GlyphFlags { bits }
    }

    /// The eight bits.
    pub fn bits(&self) -> (bits: u8)
        ensures
            bits == self.bits,
    {
        self.bits
    }

    /// Whether every bit that is set in `other` is set in `self`.
    pub fn contains(&self, other: GlyphFlags) -> (r: bool)
        ensures
            r == self.has(other.bits),
    {
        self.bits & other.bits == other.bits
    }

    /// Whether the point lies on the curve.
    pub fn is_on_curve(&self) -> (r: bool)
        ensures
            r == self.on_curve(),
    {
        self.bits & ON_CURVE == ON_CURVE
    }

    /// Whether a repeat count follows the flag byte.
    pub fn is_repeated(&self) -> (r: bool)
        ensures
            r == self.repeats(),
    {
        self.bits & REPEAT == REPEAT
    }

    /// How the x-coordinate of the point is stored.
    pub fn x_coordinate_delta(&self) -> (delta: CoordinateDelta)
        ensures
            delta == self.x_delta(),
    {
        if self.bits & SHORT_VECTOR_X == SHORT_VECTOR_X {
            CoordinateDelta::ShortSigned { positive: self.bits & IS_POSITIVE_X == IS_POSITIVE_X }
        } else if self.bits & IS_SAME_X == IS_SAME_X {
            CoordinateDelta::SameAsPrevious
        } else {
            CoordinateDelta::Explicit16
        }
    }

    /// How the y-coordinate of the point is stored.
    pub fn y_coordinate_delta(&self) -> (delta: CoordinateDelta)
        ensures
            delta == self.y_delta(),
    {
        if self.bits & SHORT_VECTOR_Y == SHORT_VECTOR_Y {
            CoordinateDelta::ShortSigned { positive: self.bits & IS_POSITIVE_Y == IS_POSITIVE_Y }
        } else if self.bits & IS_SAME_Y == IS_SAME_Y {
            CoordinateDelta::SameAsPrevious
        } else {
            CoordinateDelta::Explicit16
        }
    }
}

} // verus!
