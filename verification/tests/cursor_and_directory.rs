use text_render::error::FontError;
use text_render::font_data::{FontData, TableData, TableTag, TtfGlyphTable, UnknownTag};
use text_render::font_file::FontFile;
use text_render::parser::font::{parse_font, parse_ttf_font};
use text_render::parser::glyph_offset::{parse_all_glyph_locations, parse_glyph_offsets};

fn push_u16(bytes: &mut Vec<u8>, value: u16) {
    bytes.extend_from_slice(&value.to_be_bytes());
}

fn push_u32(bytes: &mut Vec<u8>, value: u32) {
    bytes.extend_from_slice(&value.to_be_bytes());
}

fn push_record(bytes: &mut Vec<u8>, tag: &str, checksum: u32, offset: u32, length: u32) {
    bytes.extend_from_slice(tag.as_bytes());
    push_u32(bytes, checksum);
    push_u32(bytes, offset);
    push_u32(bytes, length);
}

fn header(num_tables: u16) -> Vec<u8> {
    let mut bytes = Vec::new();
    push_u32(&mut bytes, 0x0001_0000);
    push_u16(&mut bytes, num_tables);
    push_u16(&mut bytes, 0);
    push_u16(&mut bytes, 0);
    push_u16(&mut bytes, 0);
    bytes
}

fn table(offset: u32) -> TableData {
    TableData { checksum: 0, offset, length: 0 }
}

#[test]
fn reads_are_big_endian() {
    let mut file = FontFile::new(vec![0x12, 0x34, 0x56, 0x78, 0xFF, 0xFE, 0x80, 0x7F, 0x81]);
    assert_eq!(file.read_u32(), Ok(0x1234_5678));
    assert_eq!(file.get_location(), 4);
    assert_eq!(file.read_i16(), Ok(-2));
    assert_eq!(file.read_u8(), Ok(0x80));
    assert_eq!(file.read_i8(), Ok(127));
    assert_eq!(file.read_i8(), Ok(-127));
    assert_eq!(file.read_u8(), Err(FontError::TruncatedData));
    assert_eq!(file.get_location(), 9);
}

#[test]
fn read_u16_and_bitmask() {
    let mut file = FontFile::new(vec![0xAB, 0xCD, 0x09]);
    assert_eq!(file.read_u16(), Ok(0xABCD));
    assert_eq!(file.read_bitmask(), Ok(0x09));
    assert_eq!(file.read_bitmask(), Err(FontError::TruncatedData));
}

#[test]
fn i16_extremes() {
    let mut file = FontFile::new(vec![0x80, 0x00, 0x7F, 0xFF, 0x00, 0x00]);
    assert_eq!(file.read_i16(), Ok(i16::MIN));
    assert_eq!(file.read_i16(), Ok(i16::MAX));
    assert_eq!(file.read_i16(), Ok(0));
}

#[test]
fn a_read_that_does_not_fit_leaves_the_position() {
    let mut file = FontFile::new(vec![1, 2, 3]);
    assert_eq!(file.read_u32(), Err(FontError::TruncatedData));
    assert_eq!(file.get_location(), 0);
    assert_eq!(file.read_u16(), Ok(0x0102));
    assert_eq!(file.read_u16(), Err(FontError::TruncatedData));
    assert_eq!(file.get_location(), 2);
    assert_eq!(file.read_tag(), Err(FontError::TruncatedData));
}

#[test]
fn peeks_do_not_move() {
    let file = FontFile::new(vec![0x00, 0x01, 0x02, 0x03, 0xFF, 0xFF]);
    assert_eq!(file.peek_u8(3), Ok(3));
    assert_eq!(file.peek_u16(1), Ok(0x0102));
    assert_eq!(file.peek_u32(0), Ok(0x0001_0203));
    assert_eq!(file.peek_i16(4), Ok(-1));
    assert_eq!(file.peek_u32(3), Err(FontError::TruncatedData));
    assert_eq!(file.peek_u16(5), Err(FontError::TruncatedData));
    assert_eq!(file.peek_u8(6), Err(FontError::TruncatedData));
    assert_eq!(file.peek_u8(u64::MAX), Err(FontError::TruncatedData));
    assert_eq!(file.get_location(), 0);
}

#[test]
fn goto_and_skips() {
    let mut file = FontFile::new(vec![10, 11, 12, 13, 14, 15, 16, 17]);
    assert_eq!(file.goto(5), Ok(()));
    assert_eq!(file.read_u8(), Ok(15));
    assert_eq!(file.goto(1), Ok(()));
    assert_eq!(file.skip_bytes(2), Ok(()));
    assert_eq!(file.read_u8(), Ok(13));
    assert_eq!(file.skip_bits(16), Ok(()));
    assert_eq!(file.read_u8(), Ok(16));
    assert_eq!(file.skip_bits(7), Ok(()));
    assert_eq!(file.get_location(), 7);
    assert_eq!(file.goto(100), Ok(()));
    assert_eq!(file.get_location(), 100);
    assert_eq!(file.read_u8(), Err(FontError::TruncatedData));
    file.seek(u64::MAX - 1);
    assert_eq!(file.skip_bytes(2), Err(FontError::TruncatedData));
    assert_eq!(file.get_location(), u64::MAX - 1);
    assert_eq!(file.skip_bytes(1), Ok(()));
}

#[test]
fn read_tag_gives_characters() {
    let mut file = FontFile::new(b"OS/2glyf".to_vec());
    assert_eq!(file.read_tag(), Ok(['O', 'S', '/', '2']));
    assert_eq!(file.read_tag(), Ok(['g', 'l', 'y', 'f']));
}

#[test]
fn known_tags() {
    let cases = [
        ("cmap", TableTag::Cmap),
        ("head", TableTag::Head),
        ("hmtx", TableTag::Hmtx),
        ("maxp", TableTag::Maxp),
        ("name", TableTag::Name),
        ("post", TableTag::Post),
        ("loca", TableTag::Loca),
        ("glyf", TableTag::Glyf),
        ("hdmx", TableTag::Hdmx),
        ("OS/2", TableTag::Os2),
        ("cvt ", TableTag::Cvt),
        ("fpgm", TableTag::Fpgm),
        ("prep", TableTag::Prep),
        ("GDIR", TableTag::GlyphDirectory),
        ("kern", TableTag::Kerning),
        ("hhea", TableTag::HorizontalHeader),
    ];
    for (name, tag) in cases {
        let chars: Vec<char> = name.chars().collect();
        assert_eq!(TableTag::from_bytes([chars[0], chars[1], chars[2], chars[3]]), Ok(tag));
    }
}

#[test]
fn unknown_tags() {
    assert_eq!(
        TableTag::from_bytes(['G', 'P', 'O', 'S']),
        Err(UnknownTag { tag: ['G', 'P', 'O', 'S'] })
    );
    assert_eq!(TableTag::from_bytes(['C', 'M', 'A', 'P']), Err(UnknownTag { tag: ['C', 'M', 'A', 'P'] }));
    assert_eq!(TableTag::from_bytes(['c', 'v', 't', 't']), Err(UnknownTag { tag: ['c', 'v', 't', 't'] }));
}

#[test]
fn slots_are_distinct() {
    let tags = [
        TableTag::Head,
        TableTag::Hhea,
        TableTag::Hmtx,
        TableTag::Maxp,
        TableTag::Name,
        TableTag::Cmap,
        TableTag::Glyf,
        TableTag::Loca,
        TableTag::Hdmx,
        TableTag::Os2,
        TableTag::Post,
        TableTag::Cvt,
        TableTag::Fpgm,
        TableTag::Prep,
        TableTag::GlyphDirectory,
        TableTag::Kerning,
        TableTag::HorizontalHeader,
        TableTag::TablesNum,
    ];
    for (i, tag) in tags.iter().enumerate() {
        assert_eq!(tag.index() as usize, i);
    }
}

#[test]
fn directory_set_and_get() {
    let mut font_data = FontData::new();
    assert_eq!(font_data.try_get_table(TableTag::Cmap), Err(FontError::MissingTable(TableTag::Cmap)));
    let first = TableData { checksum: 1, offset: 2, length: 3 };
    let second = TableData { checksum: 4, offset: 5, length: 6 };
    font_data.set_table(TableTag::Cmap, first);
    assert_eq!(font_data.try_get_table(TableTag::Cmap), Ok(first));
    assert_eq!(font_data.try_get_table(TableTag::Glyf), Err(FontError::MissingTable(TableTag::Glyf)));
    font_data.set_table(TableTag::Glyf, second);
    assert_eq!(font_data.try_get_table(TableTag::Cmap), Ok(first));
    assert_eq!(font_data.try_get_table(TableTag::Glyf), Ok(second));
    font_data.set_table(TableTag::Cmap, second);
    assert_eq!(font_data.try_get_table(TableTag::Cmap), Ok(second));
    assert_eq!(font_data.try_get_table(TableTag::TablesNum), Err(FontError::MissingTable(TableTag::TablesNum)));
}

#[test]
fn parse_font_reads_every_known_record() {
    let mut bytes = header(3);
    push_record(&mut bytes, "cmap", 0x11, 0x100, 0x20);
    push_record(&mut bytes, "glyf", 0x22, 0x200, 0x40);
    push_record(&mut bytes, "hhea", 0x33, 0x300, 0x24);
    let mut file = FontFile::new(bytes);
    let font_data = parse_font(&mut file).unwrap();
    assert_eq!(
        font_data.try_get_table(TableTag::Cmap),
        Ok(TableData { checksum: 0x11, offset: 0x100, length: 0x20 })
    );
    assert_eq!(
        font_data.try_get_table(TableTag::Glyf),
        Ok(TableData { checksum: 0x22, offset: 0x200, length: 0x40 })
    );
    assert_eq!(
        font_data.try_get_table(TableTag::HorizontalHeader),
        Ok(TableData { checksum: 0x33, offset: 0x300, length: 0x24 })
    );
    assert_eq!(font_data.try_get_table(TableTag::Hhea), Err(FontError::MissingTable(TableTag::Hhea)));
    assert_eq!(font_data.try_get_table(TableTag::Head), Err(FontError::MissingTable(TableTag::Head)));
    assert_eq!(file.get_location(), 12 + 3 * 16);
}

#[test]
fn an_unknown_tag_keeps_later_records_aligned() {
    let mut bytes = header(3);
    push_record(&mut bytes, "head", 1, 10, 100);
    push_record(&mut bytes, "GSUB", 2, 20, 200);
    push_record(&mut bytes, "maxp", 3, 30, 300);
    let mut with_unknown = FontFile::new(bytes);
    let font_data = parse_font(&mut with_unknown).unwrap();
    assert_eq!(font_data.try_get_table(TableTag::Head), Ok(TableData { checksum: 1, offset: 10, length: 100 }));
    assert_eq!(font_data.try_get_table(TableTag::Maxp), Ok(TableData { checksum: 3, offset: 30, length: 300 }));
    assert_eq!(with_unknown.get_location(), 60);
}

#[test]
fn a_later_record_replaces_an_earlier_one() {
    let mut bytes = header(2);
    push_record(&mut bytes, "loca", 1, 10, 100);
    push_record(&mut bytes, "loca", 2, 20, 200);
    let mut file = FontFile::new(bytes);
    let font_data = parse_font(&mut file).unwrap();
    assert_eq!(font_data.try_get_table(TableTag::Loca), Ok(TableData { checksum: 2, offset: 20, length: 200 }));
}

#[test]
fn parse_font_without_tables() {
    let mut file = FontFile::new(header(0));
    let font_data = parse_font(&mut file).unwrap();
    assert_eq!(font_data.try_get_table(TableTag::Head), Err(FontError::MissingTable(TableTag::Head)));
    assert_eq!(file.get_location(), 12);
}

#[test]
fn parse_font_truncated() {
    let mut short_header = FontFile::new(vec![0, 1, 0, 0, 0, 1, 0, 0, 0, 0, 0]);
    assert_eq!(parse_font(&mut short_header).err(), Some(FontError::MalformedHeader));
    let mut bytes = header(2);
    push_record(&mut bytes, "head", 1, 10, 100);
    push_record(&mut bytes, "maxp", 3, 30, 300);
    bytes.pop();
    let mut file = FontFile::new(bytes);
    assert_eq!(parse_font(&mut file).err(), Some(FontError::MalformedHeader));
    let mut unknown_last = header(1);
    push_record(&mut unknown_last, "GSUB", 2, 20, 200);
    unknown_last.truncate(12 + 4);
    let mut file = FontFile::new(unknown_last);
    assert_eq!(parse_font(&mut file).err(), Some(FontError::MalformedHeader));
    let mut empty = FontFile::new(Vec::new());
    assert_eq!(parse_font(&mut empty).err(), Some(FontError::MalformedHeader));
}

#[test]
fn parse_font_from_a_later_position() {
    let mut bytes = vec![0xEE; 5];
    bytes.extend_from_slice(&header(1));
    push_record(&mut bytes, "prep", 7, 8, 9);
    let mut file = FontFile::new(bytes);
    assert_eq!(file.goto(5), Ok(()));
    let font_data = parse_font(&mut file).unwrap();
    assert_eq!(font_data.try_get_table(TableTag::Prep), Ok(TableData { checksum: 7, offset: 8, length: 9 }));
    assert_eq!(file.get_location(), 5 + 28);
}

fn location_font(short: bool, num_glyphs: u16, locations: &[u32]) -> (Vec<u8>, FontData) {
    // maxp at 0 (6 bytes), head at 8 (52 bytes), loca at 64, glyf at 1000
    let mut bytes = vec![0u8; 64];
    bytes[4..6].copy_from_slice(&num_glyphs.to_be_bytes());
    let format: i16 = if short { 0 } else { 1 };
    bytes[58..60].copy_from_slice(&format.to_be_bytes());
    for &location in locations {
        if short {
            push_u16(&mut bytes, location as u16);
        } else {
            push_u32(&mut bytes, location);
        }
    }
    let mut font_data = FontData::new();
    font_data.set_table(TableTag::Maxp, table(0));
    font_data.set_table(TableTag::Head, table(8));
    font_data.set_table(TableTag::Loca, table(64));
    font_data.set_table(TableTag::Glyf, table(1000));
    (bytes, font_data)
}

#[test]
fn short_locations_are_doubled() {
    let (bytes, font_data) = location_font(true, 4, &[0, 5, 5, 0x7FFF]);
    let mut file = FontFile::new(bytes);
    assert_eq!(file.goto(3), Ok(()));
    assert_eq!(parse_glyph_offsets(&mut file, &font_data), Ok(vec![1000, 1010, 1010, 1000 + 0xFFFE]));
    assert_eq!(file.get_location(), 3);
}

#[test]
fn long_locations_are_taken_as_they_are() {
    let (bytes, font_data) = location_font(false, 3, &[0, 7, 0x0001_0000]);
    let mut file = FontFile::new(bytes);
    assert_eq!(parse_glyph_offsets(&mut file, &font_data), Ok(vec![1000, 1007, 1000 + 0x0001_0000]));
}

#[test]
fn any_other_format_than_zero_is_long() {
    let (mut bytes, font_data) = location_font(false, 1, &[9]);
    bytes[58..60].copy_from_slice(&(-1i16).to_be_bytes());
    let mut file = FontFile::new(bytes);
    assert_eq!(parse_glyph_offsets(&mut file, &font_data), Ok(vec![1009]));
}

#[test]
fn no_glyphs_no_locations() {
    let (bytes, font_data) = location_font(true, 0, &[]);
    let mut file = FontFile::new(bytes);
    assert_eq!(parse_glyph_offsets(&mut file, &font_data), Ok(Vec::new()));
}

#[test]
fn locations_need_four_tables() {
    let (bytes, _) = location_font(true, 1, &[0]);
    let tags = [TableTag::Maxp, TableTag::Head, TableTag::Loca, TableTag::Glyf];
    for missing in 0..4 {
        let mut font_data = FontData::new();
        for (i, tag) in tags.iter().enumerate() {
            if i != missing {
                font_data.set_table(*tag, table(0));
            }
        }
        let mut file = FontFile::new(bytes.clone());
        assert_eq!(
            parse_glyph_offsets(&mut file, &font_data),
            Err(FontError::MissingTable(tags[missing]))
        );
    }
    let mut file = FontFile::new(bytes);
    assert_eq!(
        parse_glyph_offsets(&mut file, &FontData::new()),
        Err(FontError::MissingTable(TableTag::Maxp))
    );
}

#[test]
fn locations_truncated() {
    let (mut bytes, font_data) = location_font(true, 3, &[0, 1, 2]);
    bytes.pop();
    let mut file = FontFile::new(bytes.clone());
    assert_eq!(parse_glyph_offsets(&mut file, &font_data), Err(FontError::TruncatedData));
    bytes.truncate(59);
    let mut file = FontFile::new(bytes.clone());
    assert_eq!(parse_glyph_offsets(&mut file, &font_data), Err(FontError::TruncatedData));
    bytes.truncate(5);
    let mut file = FontFile::new(bytes);
    assert_eq!(parse_glyph_offsets(&mut file, &font_data), Err(FontError::TruncatedData));
}

#[test]
fn a_location_beyond_32_bits_is_refused() {
    let (bytes, mut font_data) = location_font(false, 1, &[0x10]);
    font_data.set_table(TableTag::Glyf, table(0xFFFF_FFF0));
    let mut file = FontFile::new(bytes.clone());
    assert_eq!(parse_glyph_offsets(&mut file, &font_data), Err(FontError::TruncatedData));
    font_data.set_table(TableTag::Glyf, table(0xFFFF_FFEF));
    let mut file = FontFile::new(bytes);
    assert_eq!(parse_glyph_offsets(&mut file, &font_data), Ok(vec![0xFFFF_FFFF]));
}

#[test]
fn the_table_list_as_it_stands() {
    let mut bytes = header(3);
    push_record(&mut bytes, "head", 1, 10, 100);
    push_record(&mut bytes, "GSUB", 2, 20, 200);
    push_record(&mut bytes, "head", 3, 30, 300);
    let mut file = FontFile::new(bytes);
    let font = parse_ttf_font(&mut file).unwrap();
    assert_eq!(font.num_tables, 3);
    assert_eq!(
        font.tables,
        vec![
            TtfGlyphTable { tag: ['h', 'e', 'a', 'd'], checksum: 1, offset: 10, length: 100 },
            TtfGlyphTable { tag: ['G', 'S', 'U', 'B'], checksum: 2, offset: 20, length: 200 },
            TtfGlyphTable { tag: ['h', 'e', 'a', 'd'], checksum: 3, offset: 30, length: 300 },
        ]
    );
    assert_eq!(file.get_location(), 60);
}

#[test]
fn the_table_list_truncated() {
    let mut bytes = header(1);
    push_record(&mut bytes, "head", 1, 10, 100);
    for cut in 0..bytes.len() {
        let mut file = FontFile::new(bytes[..cut].to_vec());
        assert_eq!(parse_ttf_font(&mut file).err(), Some(FontError::MalformedHeader), "cut at {}", cut);
    }
    let mut file = FontFile::new(header(0));
    let font = parse_ttf_font(&mut file).unwrap();
    assert_eq!(font.num_tables, 0);
    assert!(font.tables.is_empty());
}

#[test]
fn locations_of_a_font_with_all_its_tables() {
    let (bytes, font_data) = location_font(true, 2, &[3, 4]);
    let mut file = FontFile::new(bytes.clone());
    assert_eq!(parse_all_glyph_locations(&mut file, &font_data), Ok(vec![1006, 1008]));
    let mut file = FontFile::new(bytes[..66].to_vec());
    assert_eq!(parse_all_glyph_locations(&mut file, &font_data), Err(FontError::TruncatedData));
}
