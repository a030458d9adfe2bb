use vstd::prelude::*;
use crate::error::FontError;
use crate::font_data::{FontData, TableTag};
use crate::font_file::{be_i16, be_u16, be_u32, readable, FontFile};

verus! {

/// The number of glyphs that the `maxp` table at `maxp` announces, after
/// its version of four bytes.
pub open spec fn glyph_count(bytes: Seq<u8>, maxp: int) -> int {
    be_u16(bytes, maxp + 4)
}

/// Whether the `head` table at `head` says that locations are stored in
/// two bytes, as half the offset.
pub open spec fn short_locations(bytes: Seq<u8>, head: int) -> bool {
    be_i16(bytes, head + 50) == 0
}

/// The size of one stored location.
pub open spec fn location_size(short: bool) -> int {
    if short { 2 } else { 4 }
}

/// The offset of glyph `i` inside the glyph table, from the location
/// table at `loca`.
pub open spec fn location_value(bytes: Seq<u8>, loca: int, short: bool, i: int) -> int {
    if short {
        2 * be_u16(bytes, loca + 2 * i)
    } else {
        be_u32(bytes, loca + 4 * i)
    }
}

/// Whether the location of glyph `i` can be read, and gives an offset
/// into the file of at most 32 bits.
pub open spec fn location_fits(bytes: Seq<u8>, loca: int, glyf: int, short: bool, i: int) -> bool {
    readable(bytes, loca + location_size(short) * i, location_size(short)) && glyf + location_value(
        bytes,
        loca,
        short,
        i,
    ) <= u32::MAX
}

/// The offsets into the file of `n` glyphs.
pub open spec fn glyph_offsets(bytes: Seq<u8>, loca: int, glyf: int, short: bool, n: int) -> Seq<u32> {
    Seq::new(n as nat, |i: int| (glyf + location_value(bytes, loca, short, i)) as u32)
}

/// What resolving the glyph locations gives, from the bytes of the file
/// and its table directory.
pub open spec fn glyph_offsets_outcome(bytes: Seq<u8>, font_data: FontData) -> Result<Seq<u32>, FontError> {
    match font_data.entry(TableTag::Maxp) {
        None => Err(FontError::MissingTable(TableTag::Maxp)),
        Some(maxp) => match font_data.entry(TableTag::Head) {
            None => Err(FontError::MissingTable(TableTag::Head)),
            Some(head) => match font_data.entry(TableTag::Loca) {
                None => Err(FontError::MissingTable(TableTag::Loca)),
                Some(loca) => match font_data.entry(TableTag::Glyf) {
                    None => Err(FontError::MissingTable(TableTag::Glyf)),
                    Some(glyf) => if !readable(bytes, maxp.offset + 4, 2) {
                        Err(FontError::TruncatedData)
                    } else if !readable(bytes, head.offset + 50, 2) {
                        Err(FontError::TruncatedData)
                    } else if !(forall|i: int|
                        0 <= i < glyph_count(bytes, maxp.offset as int) ==> #[trigger] location_fits(
                            bytes,
                            loca.offset as int,
                            glyf.offset as int,
                            short_locations(bytes, head.offset as int),
                            i,
                        )) {
                        Err(FontError::TruncatedData)
                    } else {
                        Ok(
                            glyph_offsets(
                                bytes,
                                loca.offset as int,
                                glyf.offset as int,
                                short_locations(bytes, head.offset as int),
                                glyph_count(bytes, maxp.offset as int),
                            ),
                        )
                    },
                },
            },
        },
    }
}

/// Resolves, for each glyph, the offset of its outline in the file. The
/// position stays.
#[verifier::loop_isolation(false)]
pub fn parse_glyph_offsets(file: &mut FontFile, font_data: &FontData) -> (r: Result<Vec<u32>, FontError>)
    ensures
        final(file).moved(*old(file), 0),
        match r {
            Ok(locations) => glyph_offsets_outcome(old(file).data@, *font_data) == Ok::<Seq<u32>, FontError>(
                locations@,
            ),
            Err(e) => glyph_offsets_outcome(old(file).data@, *font_data) == Err::<Seq<u32>, FontError>(e),
        },
{
    let maxp: u64 = match font_data.try_get_table(TableTag::Maxp) {
        Ok(table) => table.offset as u64,
        Err(e) => { return Err(e); },
    };
    let head: u64 = match font_data.try_get_table(TableTag::Head) {
        Ok(table) => table.offset as u64,
        Err(e) => { return Err(e); },
    };
    let location_table_start: u64 = match font_data.try_get_table(TableTag::Loca) {
        Ok(table) => table.offset as u64,
        Err(e) => { return Err(e); },
    };
    let glyph_table_start: u64 = match font_data.try_get_table(TableTag::Glyf) {
        Ok(table) => table.offset as u64,
        Err(e) => { return Err(e); },
    };
    let num_glyphs: u16 = file.peek_u16(maxp + 4)?;
    let is_two_byte_entry: bool = match file.peek_i16(head + 50) {
        Ok(v) => v == 0,
        Err(e) => { return Err(e); },
    };
    let ghost bytes = file.data@;
    let mut glyph_locations: Vec<u32> = Vec::new();
    let mut i: u16 = 0;
    while i < num_glyphs
        invariant
            i <= num_glyphs,
            bytes == file.data@,
            location_table_start <= u32::MAX,
            glyph_table_start <= u32::MAX,
            forall|j: int|
                0 <= j < i ==> #[trigger] location_fits(
                    bytes,
                    location_table_start as int,
                    glyph_table_start as int,
                    is_two_byte_entry,
                    j,
                ),
            glyph_locations@ == glyph_offsets(
                bytes,
                location_table_start as int,
                glyph_table_start as int,
                is_two_byte_entry,
                i as int,
            ),
        decreases num_glyphs - i,
    {
        let glyph_data_offset: u64 = if is_two_byte_entry {
            match file.peek_u16(location_table_start + 2 * (i as u64)) {
                Ok(v) => 2 * (v as u64),
                Err(e) => {
                    assert(!location_fits(
                        bytes,
                        location_table_start as int,
                        glyph_table_start as int,
                        is_two_byte_entry,
                        i as int,
                    ));
                    return Err(e);
                },
            }
        } else {
            match file.peek_u32(location_table_start + 4 * (i as u64)) {
                Ok(v) => v as u64,
                Err(e) => {
                    assert(!location_fits(
                        bytes,
                        location_table_start as int,
                        glyph_table_start as int,
                        is_two_byte_entry,
                        i as int,
                    ));
                    return Err(e);
                },
            }
        };
        let location: u64 = glyph_table_start + glyph_data_offset;
        if location > 0xFFFF_FFFF {
            assert(!location_fits(
                bytes,
                location_table_start as int,
                glyph_table_start as int,
                is_two_byte_entry,
                i as int,
            ));
            return Err(FontError::TruncatedData);
        }
        glyph_locations.push(location as u32);
        assert(glyph_locations@ =~= glyph_offsets(
            bytes,
            location_table_start as int,
            glyph_table_start as int,
            is_two_byte_entry,
            i + 1,
        ));
        i = i + 1;
    }
    Ok(glyph_locations)
}

/// Resolves the glyph locations of a font whose directory is known to
/// hold the four tables that this takes: `maxp`, `head`, `loca`, `glyf`.
pub fn parse_all_glyph_locations(file: &mut FontFile, font_data: &FontData) -> (r: Result<
    Vec<u32>,
    FontError,
>)
    requires
        font_data.entry(TableTag::Maxp) is Some,
        font_data.entry(TableTag::Head) is Some,
        font_data.entry(TableTag::Loca) is Some,
        font_data.entry(TableTag::Glyf) is Some,
    ensures
        final(file).moved(*old(file), 0),
        match r {
            Ok(locations) => glyph_offsets_outcome(old(file).data@, *font_data) == Ok::<Seq<u32>, FontError>(
                locations@,
            ),
            Err(e) => e == FontError::TruncatedData && glyph_offsets_outcome(old(file).data@, *font_data)
                == Err::<Seq<u32>, FontError>(e),
        },
{
    parse_glyph_offsets(file, font_data)
}

} // verus!
