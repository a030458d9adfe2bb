use vstd::prelude::*;
use crate::error::FontError;

verus! {

/// Whether `width` bytes starting at `at` lie inside `bytes`.
pub open spec fn readable(bytes: Seq<u8>, at: int, width: int) -> bool {
    0 <= at && at + width <= bytes.len()
}

/// The unsigned byte at `at`.
pub open spec fn be_u8(bytes: Seq<u8>, at: int) -> int {
    bytes[at] as int
}

/// The byte at `at` read as a two's complement number.
pub open spec fn be_i8(bytes: Seq<u8>, at: int) -> int {
    if bytes[at] < 128 { bytes[at] as int } else { bytes[at] - 256 }
}

/// The big-endian unsigned 16-bit number at `at`.
pub open spec fn be_u16(bytes: Seq<u8>, at: int) -> int {
    bytes[at] * 256 + bytes[at + 1]
}

/// The big-endian two's complement 16-bit number at `at`.
pub open spec fn be_i16(bytes: Seq<u8>, at: int) -> int {
    if be_u16(bytes, at) < 32768 { be_u16(bytes, at) } else { be_u16(bytes, at) - 65536 }
}

/// The big-endian unsigned 32-bit number at `at`.
pub open spec fn be_u32(bytes: Seq<u8>, at: int) -> int {
    bytes[at] * 16777216 + bytes[at + 1] * 65536 + bytes[at + 2] * 256 + bytes[at + 3]
}

/// The four bytes at `at` as characters, one character per byte.
pub open spec fn tag_at(bytes: Seq<u8>, at: int) -> Seq<char> {
    seq![bytes[at] as char, bytes[at + 1] as char, bytes[at + 2] as char, bytes[at + 3] as char]
}

/// A cursor over the bytes of a font file.
///
/// The position may lie beyond the end of the bytes; only a read there fails.
pub struct FontFile {
    pub data: Vec<u8>,
    pub position: u64,
}

impl FontFile {
    /// Same bytes as `before`, position `width` bytes further.
    pub open spec fn moved(self, before: FontFile, width: int) -> bool {
        self.data@ == before.data@ && self.position == before.position + width
    }

    /// Same bytes as `before`, position at `at`.
    pub open spec fn placed(self, before: FontFile, at: int) -> bool {
        self.data@ == before.data@ && self.position == at
    }

    /// Whether a read of `width` bytes at the position succeeds.
    pub open spec fn can_read(self, width: int) -> bool {
        readable(self.data@, self.position as int, width)
    }

    /// A cursor at the start of `data`.
    pub fn new(data: Vec<u8>) -> (file: FontFile)
        ensures
            file.data@ == data@,
            file.position == 0,
    {
        FontFile { data, position: 0 }
    }

    /// The position of the next read.
    pub fn get_location(&self) -> (location: u64)
        ensures
            location == self.position,
    {
        self.position
    }

    /// The index of the byte at `location`, if `width` bytes lie there.
    fn index_of(&self, location: u64, width: u64) -> (start: Option<usize>)
        requires
            1 <= width <= 4,
        ensures
            match start {
                Some(at) => readable(self.data@, location as int, width as int) && at == location
                    && at + width <= usize::MAX,
                None => !readable(self.data@, location as int, width as int),
            },
    {
        let len: u64 = self.data.len() as u64;
        if len >= width && location <= len - width {
            Some(location as usize)
        } else {
            None
        }
    }

    /// Steps over `width` bytes if they are all there, and gives the index
    /// of the first.
    fn take(&mut self, width: u64) -> (start: Option<usize>)
        requires
            1 <= width <= 4,
        ensures
            match start {
                Some(at) => old(self).can_read(width as int) && at == old(self).position
                    && at + width <= usize::MAX && final(self).moved(*old(self), width as int),
                None => !old(self).can_read(width as int) && final(self).moved(*old(self), 0),
            },
    {
        let start = self.index_of(self.position, width);
        if start.is_some() {
            self.position = self.position + width;
        }
        start
    }

    /// The unsigned byte at `location`; the position stays.
    pub fn peek_u8(&self, location: u64) -> (r: Result<u8, FontError>)
        ensures
            match r {
                Ok(v) => readable(self.data@, location as int, 1) && v == be_u8(self.data@, location as int),
                Err(e) => e == FontError::TruncatedData && !readable(self.data@, location as int, 1),
            },
    {
        match self.index_of(location, 1) {
            Some(at) => Ok(self.data[at]),
            None => Err(FontError::TruncatedData),
        }
    }

    /// The unsigned 16-bit number at `location`; the position stays.
    pub fn peek_u16(&self, location: u64) -> (r: Result<u16, FontError>)
        ensures
            match r {
                Ok(v) => readable(self.data@, location as int, 2) && v == be_u16(self.data@, location as int),
                Err(e) => e == FontError::TruncatedData && !readable(self.data@, location as int, 2),
            },
    {
        match self.index_of(location, 2) {
            Some(at) => Ok(self.data[at] as u16 * 256 + self.data[at + 1] as u16),
            None => Err(FontError::TruncatedData),
        }
    }

    /// The signed 16-bit number at `location`; the position stays.
    pub fn peek_i16(&self, location: u64) -> (r: Result<i16, FontError>)
        ensures
            match r {
                Ok(v) => readable(self.data@, location as int, 2) && v == be_i16(self.data@, location as int),
                Err(e) => e == FontError::TruncatedData && !readable(self.data@, location as int, 2),
            },
    {
        match self.index_of(location, 2) {
            Some(at) => {
                let v: u16 = self.data[at] as u16 * 256 + self.data[at + 1] as u16;
                if v < 32768 {
                    Ok(v as i16)
                } else {
                    Ok((v as i32 - 65536) as i16)
                }
            },
            None => Err(FontError::TruncatedData),
        }
    }

    /// The unsigned 32-bit number at `location`; the position stays.
    pub fn peek_u32(&self, location: u64) -> (r: Result<u32, FontError>)
        ensures
            match r {
                Ok(v) => readable(self.data@, location as int, 4) && v == be_u32(self.data@, location as int),
                Err(e) => e == FontError::TruncatedData && !readable(self.data@, location as int, 4),
            },
    {
        match self.index_of(location, 4) {
            Some(at) => Ok(
                self.data[at] as u32 * 16777216 + self.data[at + 1] as u32 * 65536
                    + self.data[at + 2] as u32 * 256 + self.data[at + 3] as u32,
            ),
            None => Err(FontError::TruncatedData),
        }
    }

    /// Reads one unsigned byte and steps over it.
    pub fn read_u8(&mut self) -> (r: Result<u8, FontError>)
        ensures
            match r {
                Ok(v) => old(self).can_read(1) && v == be_u8(old(self).data@, old(self).position as int)
                    && final(self).moved(*old(self), 1),
                Err(e) => e == FontError::TruncatedData && !old(self).can_read(1)
                    && final(self).moved(*old(self), 0),
            },
    {
        match self.take(1) {
            Some(at) => Ok(self.data[at]),
            None => Err(FontError::TruncatedData),
        }
    }

    /// Reads one byte of flag bits and steps over it.
    pub fn read_bitmask(&mut self) -> (r: Result<u8, FontError>)
        ensures
            match r {
                Ok(v) => old(self).can_read(1) && v == be_u8(old(self).data@, old(self).position as int)
                    && final(self).moved(*old(self), 1),
                Err(e) => e == FontError::TruncatedData && !old(self).can_read(1)
                    && final(self).moved(*old(self), 0),
            },
    {
        self.read_u8()
    }

    /// Reads one signed byte and steps over it.
    pub fn read_i8(&mut self) -> (r: Result<i8, FontError>)
        ensures
            match r {
                Ok(v) => old(self).can_read(1) && v == be_i8(old(self).data@, old(self).position as int)
                    && final(self).moved(*old(self), 1),
                Err(e) => e == FontError::TruncatedData && !old(self).can_read(1)
                    && final(self).moved(*old(self), 0),
            },
    {
        match self.take(1) {
            Some(at) => {
                let b: u8 = self.data[at];
                if b < 128 {
                    Ok(b as i8)
                } else {
                    Ok((b as i16 - 256) as i8)
                }
            },
            None => Err(FontError::TruncatedData),
        }
    }

    /// Reads an unsigned 16-bit number and steps over it.
    pub fn read_u16(&mut self) -> (r: Result<u16, FontError>)
        ensures
            match r {
                Ok(v) => old(self).can_read(2) && v == be_u16(old(self).data@, old(self).position as int)
                    && final(self).moved(*old(self), 2),
                Err(e) => e == FontError::TruncatedData && !old(self).can_read(2)
                    && final(self).moved(*old(self), 0),
            },
    {
        match self.take(2) {
            Some(at) => Ok(self.data[at] as u16 * 256 + self.data[at + 1] as u16),
            None => Err(FontError::TruncatedData),
        }
    }

    /// Reads a signed 16-bit number and steps over it.
    pub fn read_i16(&mut self) -> (r: Result<i16, FontError>)
        ensures
            match r {
                Ok(v) => old(self).can_read(2) && v == be_i16(old(self).data@, old(self).position as int)
                    && final(self).moved(*old(self), 2),
                Err(e) => e == FontError::TruncatedData && !old(self).can_read(2)
                    && final(self).moved(*old(self), 0),
            },
    {
        match self.take(2) {
            Some(at) => {
                let v: u16 = self.data[at] as u16 * 256 + self.data[at + 1] as u16;
                if v < 32768 {
                    Ok(v as i16)
                } else {
                    Ok((v as i32 - 65536) as i16)
                }
            },
            None => Err(FontError::TruncatedData),
        }
    }

    /// Reads an unsigned 32-bit number and steps over it.
    pub fn read_u32(&mut self) -> (r: Result<u32, FontError>)
        ensures
            match r {
                Ok(v) => old(self).can_read(4) && v == be_u32(old(self).data@, old(self).position as int)
                    && final(self).moved(*old(self), 4),
                Err(e) => e == FontError::TruncatedData && !old(self).can_read(4)
                    && final(self).moved(*old(self), 0),
            },
    {
        match self.take(4) {
            Some(at) => Ok(
                self.data[at] as u32 * 16777216 + self.data[at + 1] as u32 * 65536
                    + self.data[at + 2] as u32 * 256 + self.data[at + 3] as u32,
            ),
            None => Err(FontError::TruncatedData),
        }
    }

    /// Reads four bytes as the characters of a table tag.
    pub fn read_tag(&mut self) -> (r: Result<[char; 4], FontError>)
        ensures
            match r {
                Ok(tag) => old(self).can_read(4) && tag@ == tag_at(old(self).data@, old(self).position as int)
                    && final(self).moved(*old(self), 4),
                Err(e) => e == FontError::TruncatedData && !old(self).can_read(4)
                    && final(self).moved(*old(self), 0),
            },
    {
        match self.take(4) {
            Some(at) => {
                let tag: [char; 4] = [
                    self.data[at] as char,
                    self.data[at + 1] as char,
                    self.data[at + 2] as char,
                    self.data[at + 3] as char,
                ];
                Ok(tag)
            },
            None => Err(FontError::TruncatedData),
        }
    }

    /// Moves the position to `location`, which may lie beyond the end.
    pub fn seek(&mut self, location: u64)
        ensures
            final(self).placed(*old(self), location as int),
    {
        self.position = location;
    }

    /// Moves the position to `offset` bytes from the start.
    pub fn goto(&mut self, offset: u32) -> (r: Result<(), FontError>)
        ensures
            r is Ok,
            final(self).placed(*old(self), offset as int),
    {
        self.position = offset as u64;
        Ok(())
    }

    /// Moves the position forward by `num_bytes`; fails, and stays, where
    /// the new position would not fit in 64 bits.
    pub fn skip_bytes(&mut self, num_bytes: u32) -> (r: Result<(), FontError>)
        ensures
            match r {
                Ok(_) => final(self).moved(*old(self), num_bytes as int),
                Err(e) => e == FontError::TruncatedData && old(self).position + num_bytes > u64::MAX
                    && final(self).moved(*old(self), 0),
            },
    {
        if self.position <= u64::MAX - num_bytes as u64 {
            self.position = self.position + num_bytes as u64;
            Ok(())
        } else {
            Err(FontError::TruncatedData)
        }
    }

    /// Moves the position forward by the whole bytes that `num_bits` bits
    /// fill.
    pub fn skip_bits(&mut self, num_bits: u32) -> (r: Result<(), FontError>)
        ensures
            match r {
                Ok(_) => final(self).moved(*old(self), num_bits as int / 8),
                Err(e) => e == FontError::TruncatedData && old(self).position + num_bits / 8 > u64::MAX
                    && final(self).moved(*old(self), 0),
            },
    {
        self.skip_bytes(num_bits / 8)
    }
}

} // verus!
