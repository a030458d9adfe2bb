use vstd::prelude::*;
use crate::error::FontError;

verus! {

/// Location of one table inside the font file.
#[derive(Debug, Clone, Copy, PartialEq, Eq, Structural)]
pub struct TableData {
    pub checksum: u32,
    pub offset: u32,
    pub length: u32,
}

/// The tables that the directory keeps.
#[derive(Debug, Clone, Copy, PartialEq, Eq, Hash, Structural)]
pub enum TableTag {
    Head,
    Hhea,
    Hmtx,
    Maxp,
    Name,
    Cmap,
    Glyf,
    Loca,
    Hdmx,
    Os2,
    Post,
    Cvt,
    Fpgm,
    Prep,
    GlyphDirectory,
    Kerning,
    HorizontalHeader,
    TablesNum,
}

/// A tag of four characters that names no table of the directory.
#[derive(Debug, Clone, Copy, PartialEq, Eq)]
pub struct UnknownTag {
    pub tag: [char; 4],
}

/// The table that four characters name, if any.
pub open spec fn tag_of(name: Seq<char>) -> Option<TableTag> {
    if name == seq!['c', 'm', 'a', 'p'] {
        Some(TableTag::Cmap)
    } else if name == seq!['h', 'e', 'a', 'd'] {
        Some(TableTag::Head)
    } else if name == seq!['h', 'm', 't', 'x'] {
        Some(TableTag::Hmtx)
    } else if name == seq!['m', 'a', 'x', 'p'] {
        Some(TableTag::Maxp)
    } else if name == seq!['n', 'a', 'm', 'e'] {
        Some(TableTag::Name)
    } else if name == seq!['p', 'o', 's', 't'] {
        Some(TableTag::Post)
    } else if name == seq!['l', 'o', 'c', 'a'] {
        Some(TableTag::Loca)
    } else if name == seq!['g', 'l', 'y', 'f'] {
        Some(TableTag::Glyf)
    } else if name == seq!['h', 'd', 'm', 'x'] {
        Some(TableTag::Hdmx)
    } else if name == seq!['O', 'S', '/', '2'] {
        Some(TableTag::Os2)
    } else if name == seq!['c', 'v', 't', ' '] {
        Some(TableTag::Cvt)
    } else if name == seq!['f', 'p', 'g', 'm'] {
        Some(TableTag::Fpgm)
    } else if name == seq!['p', 'r', 'e', 'p'] {
        Some(TableTag::Prep)
    } else if name == seq!['G', 'D', 'I', 'R'] {
        Some(TableTag::GlyphDirectory)
    } else if name == seq!['k', 'e', 'r', 'n'] {
        Some(TableTag::Kerning)
    } else if name == seq!['h', 'h', 'e', 'a'] {
        Some(TableTag::HorizontalHeader)
    } else {
        None
    }
}

/// Whether the four characters of `name` are `a`, `b`, `c`, `d`.
fn spells(name: &[char; 4], a: char, b: char, c: char, d: char) -> (r: bool)
    ensures
        r == (name@ == seq![a, b, c, d]),
{
    let r = name[0] == a && name[1] == b && name[2] == c && name[3] == d;
    proof {
        if r {
            assert(name@ =~= seq![a, b, c, d]);
        } else {
            assert(seq![a, b, c, d][0] == a);
            assert(seq![a, b, c, d][1] == b);
            assert(seq![a, b, c, d][2] == c);
            assert(seq![a, b, c, d][3] == d);
        }
    }
    r
}

impl TableTag {
    /// The slot of this tag in a table directory.
    pub open spec fn slot(self) -> u8 {
        match self {
            TableTag::Head => 0,
            TableTag::Hhea => 1,
            TableTag::Hmtx => 2,
            TableTag::Maxp => 3,
            TableTag::Name => 4,
            TableTag::Cmap => 5,
            TableTag::Glyf => 6,
            TableTag::Loca => 7,
            TableTag::Hdmx => 8,
            TableTag::Os2 => 9,
            TableTag::Post => 10,
            TableTag::Cvt => 11,
            TableTag::Fpgm => 12,
            TableTag::Prep => 13,
            TableTag::GlyphDirectory => 14,
            TableTag::Kerning => 15,
            TableTag::HorizontalHeader => 16,
            TableTag::TablesNum => 17,
        }
    }

    /// The slot of this tag in a table directory; no two tags share one.
    pub fn index(self) -> (slot: u8)
        ensures
            slot == self.slot(),
            slot < 18,
    {
        match self {
            TableTag::Head => 0,
            TableTag::Hhea => 1,
            TableTag::Hmtx => 2,
            TableTag::Maxp => 3,
            TableTag::Name => 4,
            TableTag::Cmap => 5,
            TableTag::Glyf => 6,
            TableTag::Loca => 7,
            TableTag::Hdmx => 8,
            TableTag::Os2 => 9,
            TableTag::Post => 10,
            TableTag::Cvt => 11,
            TableTag::Fpgm => 12,
            TableTag::Prep => 13,
            TableTag::GlyphDirectory => 14,
            TableTag::Kerning => 15,
            TableTag::HorizontalHeader => 16,
            TableTag::TablesNum => 17,
        }
    }

    /// The table that the four characters name; an unknown name comes back
    /// in the error.
    pub fn from_bytes(bytes: [char; 4]) -> (r: Result<TableTag, UnknownTag>)
        ensures
            match r {
                Ok(tag) => tag_of(bytes@) == Some(tag),
                Err(unknown) => tag_of(bytes@) is None && unknown.tag == bytes,
            },
    {
        if spells(&bytes, 'c', 'm', 'a', 'p') {
            Ok(TableTag::Cmap)
        } else if spells(&bytes, 'h', 'e', 'a', 'd') {
            Ok(TableTag::Head)
        } else if spells(&bytes, 'h', 'm', 't', 'x') {
            Ok(TableTag::Hmtx)
        } else if spells(&bytes, 'm', 'a', 'x', 'p') {
            Ok(TableTag::Maxp)
        } else if spells(&bytes, 'n', 'a', 'm', 'e') {
            Ok(TableTag::Name)
        } else if spells(&bytes, 'p', 'o', 's', 't') {
            Ok(TableTag::Post)
        } else if spells(&bytes, 'l', 'o', 'c', 'a') {
            Ok(TableTag::Loca)
        } else if spells(&bytes, 'g', 'l', 'y', 'f') {
            Ok(TableTag::Glyf)
        } else if spells(&bytes, 'h', 'd', 'm', 'x') {
            Ok(TableTag::Hdmx)
        } else if spells(&bytes, 'O', 'S', '/', '2') {
            Ok(TableTag::Os2)
        } else if spells(&bytes, 'c', 'v', 't', ' ') {
            Ok(TableTag::Cvt)
        } else if spells(&bytes, 'f', 'p', 'g', 'm') {
            Ok(TableTag::Fpgm)
        } else if spells(&bytes, 'p', 'r', 'e', 'p') {
            Ok(TableTag::Prep)
        } else if spells(&bytes, 'G', 'D', 'I', 'R') {
            Ok(TableTag::GlyphDirectory)
        } else if spells(&bytes, 'k', 'e', 'r', 'n') {
            Ok(TableTag::Kerning)
        } else if spells(&bytes, 'h', 'h', 'e', 'a') {
            Ok(TableTag::HorizontalHeader)
        } else {
            Err(UnknownTag { tag: bytes })
        }
    }
}

/// Tags in different slots are different tags, and the other way round.
pub proof fn lemma_slot_injective(a: TableTag, b: TableTag)
    ensures
        a.slot() == b.slot() <==> a == b,
{
}

/// The slots of a table directory: an `enum_map::EnumMap` with a key of
/// one byte, which holds one value for each of the 256 keys. A tag's key
/// is its slot (see `TableTag::index`). Nothing of the map itself is
/// verified: what its slots hold is known through `table_slots` alone.
#[verifier::external_body]
#[derive(Debug)]
pub struct TableStore {
    slots: enum_map::EnumMap<u8, Option<TableData>>,
}

/// What each slot of a table store holds, by key.
pub uninterp spec fn table_slots(store: TableStore) -> Map<u8, Option<TableData>>;

/// Calls `EnumMap::default`, which fills every slot with the default
/// value of its type. The contract claims that every slot of the new
/// store holds `None`, the default of `Option`.
#[verifier::external_body]
fn empty_table_store() -> (store: TableStore)
    ensures
        forall|key: u8| #[trigger] table_slots(store)[key] == None::<TableData>,
{
    TableStore { slots: enum_map::EnumMap::default() }
}

/// Assigns through `EnumMap`'s `IndexMut`. The contract claims that the
/// slot of `key` then holds `value` and that every other slot holds what
/// it held before.
#[verifier::external_body]
fn store_table(store: &mut TableStore, key: u8, value: Option<TableData>)
    ensures
        forall|other: u8| #[trigger]
            table_slots(*final(store))[other] == if other == key {
                value
            } else {
                table_slots(*old(store))[other]
            },
{
    store.slots[key] = value;
}

/// Reads through `EnumMap`'s `Index`. The contract claims that the
/// result is what the slot of `key` holds.
#[verifier::external_body]
fn fetch_table(store: &TableStore, key: u8) -> (value: Option<TableData>)
    ensures
        value == table_slots(*store)[key],
{
    store.slots[key]
}

/// The table directory of a font: for each tag, where its table lies.
#[derive(Debug)]
pub struct FontData {
    pub tables: TableStore,
}

impl FontData {
    /// The entry of `tag`, if the directory has one.
    pub open spec fn entry(self, tag: TableTag) -> Option<TableData> {
        table_slots(self.tables)[tag.slot()]
    }

    /// A directory without entries.
    pub fn new() -> (font_data: FontData)
        ensures
            forall|tag: TableTag| #[trigger] font_data.entry(tag) is None,
    {
        FontData { tables: empty_table_store() }
    }

    /// Gives `tag` the entry `table`, in place of the one it may have had.
    pub fn set_table(&mut self, tag: TableTag, table: TableData)
        ensures
            forall|other: TableTag| #[trigger]
                final(self).entry(other) == if other == tag {
                    Some(table)
                } else {
                    old(self).entry(other)
                },
    {
        store_table(&mut self.tables, tag.index(), Some(table));
    }

    /// The entry of `tag`, or which table is missing.
    pub fn try_get_table(&self, tag: TableTag) -> (r: Result<TableData, FontError>)
        ensures
            match r {
                Ok(table) => self.entry(tag) == Some(table),
                Err(e) => self.entry(tag) is None && e == FontError::MissingTable(tag),
            },
    {
        match fetch_table(&self.tables, tag.index()) {
            Some(table) => Ok(table),
            None => Err(FontError::MissingTable(tag)),
        }
    }
}

/// One record of the table list of a font file, whatever its tag.
#[derive(Debug, Clone, Copy, PartialEq, Eq)]
pub struct TtfGlyphTable {
    pub tag: [char; 4],
    pub checksum: u32,
    pub offset: u32,
    pub length: u32,
}

/// The table list of a font file as it stands in the file, record by
/// record.
#[derive(Debug)]
pub struct TtfFontData {
    pub num_tables: u16,
    pub tables: Vec<TtfGlyphTable>,
}

/// One codepoint and the glyph that draws it.
#[derive(Debug, Clone, Copy, PartialEq, Eq, Structural)]
pub struct GlyphMapping {
    pub index: usize,
    pub unicode: usize,
}

/// A point of an outline, in font units.
#[derive(Debug, Clone, Copy, PartialEq, Eq, Structural)]
pub struct GlyphPoint {
    pub x: i64,
    pub y: i64,
    pub on_curve: bool,
}

/// A decoded simple glyph: its points, and for each contour the index of
/// its last point.
#[derive(Debug)]
pub struct GlyphData {
    pub contour_end_indices: Vec<usize>,
    pub points: Vec<GlyphPoint>,
}

impl View for GlyphData {
    type V = (Seq<usize>, Seq<GlyphPoint>);

    /// The contour ends, then the points.
    open spec fn view(&self) -> (Seq<usize>, Seq<GlyphPoint>) {
        (self.contour_end_indices@, self.points@)
    }
}

} // verus!
