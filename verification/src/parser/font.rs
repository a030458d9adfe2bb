use vstd::prelude::*;
use crate::error::FontError;
use crate::font_data::{tag_of, FontData, TableData, TableTag, TtfFontData, TtfGlyphTable};
use crate::font_file::{be_u16, be_u32, readable, tag_at, FontFile};

verus! {

/// The table that record `i` of the header at `at` names, if it is one
/// that the directory keeps. Records are 16 bytes apart, whatever their
/// tags.
pub open spec fn record_tag(bytes: Seq<u8>, at: int, i: int) -> Option<TableTag> {
    tag_of(tag_at(bytes, at + 12 + 16 * i))
}

/// Where record `i` of the header at `at` says its table lies.
pub open spec fn record_data(bytes: Seq<u8>, at: int, i: int) -> TableData {
    TableData {
        checksum: be_u32(bytes, at + 16 + 16 * i) as u32,
        offset: be_u32(bytes, at + 20 + 16 * i) as u32,
        length: be_u32(bytes, at + 24 + 16 * i) as u32,
    }
}

/// The number of table records that the header at `at` announces.
pub open spec fn table_count(bytes: Seq<u8>, at: int) -> int {
    be_u16(bytes, at + 4)
}

/// The entry of `tag` after the first `n` records: that of the last
/// record with this tag.
pub open spec fn directory_entry(bytes: Seq<u8>, at: int, n: int, tag: TableTag) -> Option<TableData>
    decreases n,
{
    if n <= 0 {
        None
    } else if record_tag(bytes, at, n - 1) == Some(tag) {
        Some(record_data(bytes, at, n - 1))
    } else {
        directory_entry(bytes, at, n - 1, tag)
    }
}

/// Whether the header at `at` and all the records that it announces lie
/// inside `bytes`.
pub open spec fn header_complete(bytes: Seq<u8>, at: int) -> bool {
    readable(bytes, at, 12) && readable(bytes, at, 12 + 16 * table_count(bytes, at))
}

/// A table whose tag is known and stands in one of the first `n` records
/// has an entry.
pub proof fn lemma_known_tag_has_entry(bytes: Seq<u8>, at: int, n: int, i: int, tag: TableTag)
    requires
        0 <= i < n,
        record_tag(bytes, at, i) == Some(tag),
    ensures
        directory_entry(bytes, at, n, tag) is Some,
    decreases n,
{
    if i < n - 1 && record_tag(bytes, at, n - 1) != Some(tag) {
        lemma_known_tag_has_entry(bytes, at, n - 1, i, tag);
    }
}

/// The entry of a tag is what its last record holds, 16 bytes after the
/// record before it: records with other tags, known or unknown, before or
/// after it, change nothing of it.
pub proof fn lemma_entry_is_last_record(bytes: Seq<u8>, at: int, n: int, i: int, tag: TableTag)
    requires
        0 <= i < n,
        record_tag(bytes, at, i) == Some(tag),
        forall|j: int| i < j < n ==> record_tag(bytes, at, j) != Some(tag),
    ensures
        directory_entry(bytes, at, n, tag) == Some(record_data(bytes, at, i)),
    decreases n,
{
    if i < n - 1 {
        assert(record_tag(bytes, at, n - 1) != Some(tag));
        lemma_entry_is_last_record(bytes, at, n - 1, i, tag);
    }
}

/// A tag that none of the first `n` records names has no entry.
pub proof fn lemma_absent_tag_has_no_entry(bytes: Seq<u8>, at: int, n: int, tag: TableTag)
    requires
        forall|j: int| 0 <= j < n ==> record_tag(bytes, at, j) != Some(tag),
    ensures
        directory_entry(bytes, at, n, tag) is None,
    decreases n,
{
    if n > 0 {
        assert(record_tag(bytes, at, n - 1) != Some(tag));
        lemma_absent_tag_has_no_entry(bytes, at, n - 1, tag);
    }
}

/// A read that fails inside the header or the table records shows that
/// the header is malformed.
fn in_header<T>(read: Result<T, FontError>) -> (r: Result<T, FontError>)
    ensures
        match read {
            Ok(value) => r == Ok::<T, FontError>(value),
            Err(_) => r == Err::<T, FontError>(FontError::MalformedHeader),
        },
{
    match read {
        Ok(value) => Ok(value),
        Err(_) => Err(FontError::MalformedHeader),
    }
}

/// Reads the sfnt header at the position and the table records after it
/// into a table directory. A record with an unknown tag is read and left
/// out.
pub fn parse_font(file: &mut FontFile) -> (r: Result<FontData, FontError>)
    ensures
        final(file).data@ == old(file).data@,
        match r {
            Ok(font_data) => {
                &&& header_complete(old(file).data@, old(file).position as int)
                &&& forall|tag: TableTag| #[trigger]
                    font_data.entry(tag) == directory_entry(
                        old(file).data@,
                        old(file).position as int,
                        table_count(old(file).data@, old(file).position as int),
                        tag,
                    )
                &&& final(file).position == old(file).position + 12 + 16 * table_count(
                    old(file).data@,
                    old(file).position as int,
                )
            },
            Err(e) => e == FontError::MalformedHeader && !header_complete(
                old(file).data@,
                old(file).position as int,
            ),
        },
{
    let ghost bytes = file.data@;
    let ghost at = file.position as int;
    let _scaler_type = in_header(file.read_u32())?;
    let num_tables = in_header(file.read_u16())?;
    let _search_range = in_header(file.read_u16())?;
    let _entry_selector = in_header(file.read_u16())?;
    let _range_shift = in_header(file.read_u16())?;
    let mut font_data = FontData::new();
    let mut k: u16 = 0;
    while k < num_tables
        invariant
            bytes == old(file).data@,
            at == old(file).position,
            file.data@ == bytes,
            k <= num_tables,
            num_tables == table_count(bytes, at),
            readable(bytes, at, 12 + 16 * k),
            file.position == at + 12 + 16 * k,
            forall|tag: TableTag| #[trigger] font_data.entry(tag) == directory_entry(bytes, at, k as int, tag),
        decreases num_tables - k,
    {
        let name = in_header(file.read_tag())?;
        let checksum = in_header(file.read_u32())?;
        let offset = in_header(file.read_u32())?;
        let length = in_header(file.read_u32())?;
        match TableTag::from_bytes(name) {
            Ok(tag) => {
                font_data.set_table(tag, TableData { checksum, offset, length });
            },
            Err(_) => {},
        }
        k = k + 1;
    }
    Ok(font_data)
}

/// Whether `table` is record `i` of the header at `at`, tag and all.
pub open spec fn is_record(table: TtfGlyphTable, bytes: Seq<u8>, at: int, i: int) -> bool {
    &&& table.tag@ == tag_at(bytes, at + 12 + 16 * i)
    &&& table.checksum == record_data(bytes, at, i).checksum
    &&& table.offset == record_data(bytes, at, i).offset
    &&& table.length == record_data(bytes, at, i).length
}

/// Reads the sfnt header at the position and lists the table records
/// after it as they stand, those with unknown tags too.
pub fn parse_ttf_font(file: &mut FontFile) -> (r: Result<TtfFontData, FontError>)
    ensures
        final(file).data@ == old(file).data@,
        match r {
            Ok(font) => {
                &&& header_complete(old(file).data@, old(file).position as int)
                &&& font.num_tables == table_count(old(file).data@, old(file).position as int)
                &&& font.tables@.len() == font.num_tables
                &&& forall|i: int|
                    0 <= i < font.tables@.len() ==> is_record(
                        #[trigger] font.tables@[i],
                        old(file).data@,
                        old(file).position as int,
                        i,
                    )
                &&& final(file).position == old(file).position + 12 + 16 * font.num_tables
            },
            Err(e) => e == FontError::MalformedHeader && !header_complete(
                old(file).data@,
                old(file).position as int,
            ),
        },
{
    let ghost bytes = file.data@;
    let ghost at = file.position as int;
    let _scaler_type = in_header(file.read_u32())?;
    let num_tables = in_header(file.read_u16())?;
    let _search_range = in_header(file.read_u16())?;
    let _entry_selector = in_header(file.read_u16())?;
    let _range_shift = in_header(file.read_u16())?;
    let mut tables: Vec<TtfGlyphTable> = Vec::new();
    let mut k: u16 = 0;
    while k < num_tables
        invariant
            bytes == old(file).data@,
            at == old(file).position,
            file.data@ == bytes,
            k <= num_tables,
            num_tables == table_count(bytes, at),
            readable(bytes, at, 12 + 16 * k),
            file.position == at + 12 + 16 * k,
            tables@.len() == k,
            forall|i: int| 0 <= i < k ==> is_record(#[trigger] tables@[i], bytes, at, i),
        decreases num_tables - k,
    {
        let tag = in_header(file.read_tag())?;
        let checksum = in_header(file.read_u32())?;
        let offset = in_header(file.read_u32())?;
        let length = in_header(file.read_u32())?;
        tables.push(TtfGlyphTable { tag, checksum, offset, length });
        k = k + 1;
    }
    Ok(TtfFontData { num_tables, tables })
}

} // verus!
