use vstd::prelude::*;
use crate::error::FontError;
use crate::font_data::{FontData, GlyphMapping, TableTag};
use crate::font_file::{be_u16, be_u32, readable, FontFile};
use crate::platform_id::platform_id::{MICROSOFT, UNICODE};
use crate::platform_id::unicode_platform_specific_id::{
    UNICODE_2_0_OR_LATER_BMP_ONLY, UNICODE_2_0_OR_LATER_NON_BMP_ALLOWED, VERSION_1_0, VERSION_1_1,
};
use crate::platform_id::windows_platform_specific_id::{UNICODE_BMP_ONLY, UNICODE_UCS_4};
use self::cmap_formats::{FORMAT_12, FORMAT_14, FORMAT_4};

pub mod cmap_formats;

verus! {

/// The Unicode-platform encodings that are decoded: versions 1.0 and 1.1
/// and both forms of Unicode 2.0.
pub open spec fn supported_unicode_id(id: u16) -> bool {
    id == VERSION_1_0 || id == VERSION_1_1 || id == UNICODE_2_0_OR_LATER_BMP_ONLY
        || id == UNICODE_2_0_OR_LATER_NON_BMP_ALLOWED
}

/// The Microsoft-platform encodings that are decoded: from UCS-2 up to,
/// but without, UCS-4.
pub open spec fn supported_windows_id(id: u16) -> bool {
    UNICODE_BMP_ONLY <= id < UNICODE_UCS_4
}

/// The subtable formats that count as supported.
pub open spec fn supported_format(format: u16) -> bool {
    format == FORMAT_4 || format == FORMAT_12 || format == FORMAT_14
}

/// Whether a Unicode-platform subtable with this encoding can be selected.
#[verifier::when_used_as_spec(supported_unicode_id)]
pub fn is_supported_unicode_platform_specific_id(id: u16) -> (r: bool)
    ensures
        r == supported_unicode_id(id),
{
    id == VERSION_1_0 || id == VERSION_1_1 || id == UNICODE_2_0_OR_LATER_BMP_ONLY
        || id == UNICODE_2_0_OR_LATER_NON_BMP_ALLOWED
}

/// Whether a Microsoft-platform subtable with this encoding can be selected.
#[verifier::when_used_as_spec(supported_windows_id)]
pub fn is_supported_windows_platform_specific_id(id: u16) -> (r: bool)
    ensures
        r == supported_windows_id(id),
{
    UNICODE_BMP_ONLY <= id && id < UNICODE_UCS_4
}

/// Whether a subtable of this format counts as supported. Formats 4 and
/// 12 are decoded; format 14 counts as supported, but a subtable of it is
/// refused like one of any other format.
#[verifier::when_used_as_spec(supported_format)]
pub fn is_supported_cmap_format(format: u16) -> (r: bool)
    ensures
        r == supported_format(format),
{
    format == FORMAT_4 || format == FORMAT_12 || format == FORMAT_14
}

/// One entry of the character map's list of encoding subtables.
#[derive(Debug, Clone, Copy, PartialEq, Eq, Structural)]
pub struct EncodingRecord {
    pub platform_id: u16,
    pub platform_specific_id: u16,
    pub offset: u32,
}

impl EncodingRecord {
    /// A Unicode-platform subtable with a supported encoding.
    pub open spec fn unicode_candidate(self) -> bool {
        self.platform_id == UNICODE && supported_unicode_id(self.platform_specific_id)
    }

    /// A Microsoft-platform subtable with a supported encoding.
    pub open spec fn microsoft_candidate(self) -> bool {
        self.platform_id == MICROSOFT && supported_windows_id(self.platform_specific_id)
    }
}

/// Whether any of the first `n` records is a Unicode candidate.
pub open spec fn has_unicode_candidate(records: Seq<EncodingRecord>, n: int) -> bool {
    exists|j: int| 0 <= j < n && j < records.len() && (#[trigger] records[j]).unicode_candidate()
}

/// Whether any of the first `n` records is a Microsoft candidate.
pub open spec fn has_microsoft_candidate(records: Seq<EncodingRecord>, n: int) -> bool {
    exists|j: int| 0 <= j < n && j < records.len() && (#[trigger] records[j]).microsoft_candidate()
}

/// Whether record `i` is the best Unicode candidate among the first `n`
/// records: none has a higher encoding id, and none after it the same.
pub open spec fn best_unicode(records: Seq<EncodingRecord>, n: int, i: int) -> bool {
    &&& 0 <= i < n <= records.len()
    &&& records[i].unicode_candidate()
    &&& forall|j: int|
        0 <= j < n && (#[trigger] records[j]).unicode_candidate() ==> {
            ||| records[j].platform_specific_id < records[i].platform_specific_id
            ||| (records[j].platform_specific_id == records[i].platform_specific_id && j <= i)
        }
}

/// Whether record `i` is the last Microsoft candidate among the first `n`
/// records.
pub open spec fn last_microsoft(records: Seq<EncodingRecord>, n: int, i: int) -> bool {
    &&& 0 <= i < n <= records.len()
    &&& records[i].microsoft_candidate()
    &&& forall|j: int| i < j < n ==> !(#[trigger] records[j]).microsoft_candidate()
}

/// Whether record `i` is the one to decode: the best Unicode candidate,
/// or, where there is no Unicode candidate, the last Microsoft candidate.
pub open spec fn is_selected(records: Seq<EncodingRecord>, i: int) -> bool {
    ||| best_unicode(records, records.len() as int, i)
    ||| (!has_unicode_candidate(records, records.len() as int) && last_microsoft(
        records,
        records.len() as int,
        i,
    ))
}

/// Whether some record can be selected.
pub open spec fn has_candidate(records: Seq<EncodingRecord>) -> bool {
    has_unicode_candidate(records, records.len() as int) || has_microsoft_candidate(
        records,
        records.len() as int,
    )
}

/// The index of the selected record, where there is one.
pub open spec fn selected_index(records: Seq<EncodingRecord>) -> int {
    choose|i: int| is_selected(records, i)
}

/// At most one record is selected.
pub proof fn lemma_selection_unique(records: Seq<EncodingRecord>, i: int, j: int)
    requires
        is_selected(records, i),
        is_selected(records, j),
    ensures
        i == j,
{
    let n = records.len() as int;
    if best_unicode(records, n, i) {
        assert(has_unicode_candidate(records, n));
        assert(best_unicode(records, n, j));
        assert(records[j].unicode_candidate());
        assert(records[i].unicode_candidate());
    } else {
        assert(last_microsoft(records, n, i));
        if best_unicode(records, n, j) {
            assert(has_unicode_candidate(records, n));
        }
        assert(last_microsoft(records, n, j));
        assert(records[j].microsoft_candidate());
        assert(records[i].microsoft_candidate());
    }
}

/// A Unicode candidate is selected before any Microsoft candidate,
/// wherever the two stand in the list.
pub proof fn lemma_unicode_preferred(records: Seq<EncodingRecord>, i: int, u: int)
    requires
        is_selected(records, i),
        0 <= u < records.len(),
        records[u].unicode_candidate(),
    ensures
        records[i].unicode_candidate(),
        records[i].platform_specific_id >= records[u].platform_specific_id,
{
    assert(has_unicode_candidate(records, records.len() as int));
}

/// Picks the subtable to decode.
pub fn select_subtable(records: &Vec<EncodingRecord>) -> (r: Option<usize>)
    ensures
        match r {
            Some(i) => is_selected(records@, i as int) && i as int == selected_index(records@),
            None => !has_candidate(records@),
        },
{
    let mut unicode: Option<usize> = None;
    let mut microsoft: Option<usize> = None;
    let mut k: usize = 0;
    while k < records.len()
        invariant
            k <= records.len(),
            match unicode {
                Some(i) => best_unicode(records@, k as int, i as int),
                None => !has_unicode_candidate(records@, k as int),
            },
            match microsoft {
                Some(i) => last_microsoft(records@, k as int, i as int),
                None => !has_microsoft_candidate(records@, k as int),
            },
        decreases records.len() - k,
    {
        let record = records[k];
        if record.platform_id == UNICODE {
            if is_supported_unicode_platform_specific_id(record.platform_specific_id) {
                let better = match unicode {
                    Some(i) => record.platform_specific_id >= records[i].platform_specific_id,
                    None => true,
                };
                if better {
                    unicode = Some(k);
                }
            }
        } else if record.platform_id == MICROSOFT {
            if is_supported_windows_platform_specific_id(record.platform_specific_id) {
                microsoft = Some(k);
            }
        }
        k = k + 1;
    }
    let r = match unicode {
        Some(i) => Some(i),
        None => microsoft,
    };
    proof {
        match r {
            Some(i) => {
                assert(is_selected(records@, i as int));
                lemma_selection_unique(records@, i as int, selected_index(records@));
            },
            None => {},
        }
    }
    r
}

/// Whether some mapping leads to glyph 0, the missing glyph.
pub open spec fn maps_missing_glyph(mappings: Seq<GlyphMapping>) -> bool {
    exists|k: int| 0 <= k < mappings.len() && (#[trigger] mappings[k]).index == 0
}

/// The mapping added where no codepoint leads to the missing glyph.
pub open spec fn missing_glyph_mapping() -> GlyphMapping {
    GlyphMapping { index: 0, unicode: 0xFFFF }
}

/// `mappings`, followed by the mapping to the missing glyph where it has
/// none.
pub open spec fn with_missing_glyph(mappings: Seq<GlyphMapping>) -> Seq<GlyphMapping> {
    if maps_missing_glyph(mappings) {
        mappings
    } else {
        mappings.push(missing_glyph_mapping())
    }
}

/// Appends the mapping to the missing glyph unless some codepoint already
/// leads to it.
pub fn ensure_missing_glyph(mappings: &mut Vec<GlyphMapping>)
    ensures
        final(mappings)@ == with_missing_glyph(old(mappings)@),
        maps_missing_glyph(final(mappings)@),
{
    let mut k: usize = 0;
    let mut found = false;
    while k < mappings.len() && !found
        invariant
            k <= mappings.len(),
            *mappings == *old(mappings),
            found ==> maps_missing_glyph(mappings@),
            !found ==> forall|j: int| 0 <= j < k ==> (#[trigger] mappings@[j]).index != 0,
        decreases mappings.len() - k + if found { 0int } else { 1int },
    {
        if mappings[k].index == 0 {
            found = true;
        } else {
            k = k + 1;
        }
    }
    if !found {
        mappings.push(GlyphMapping { index: 0, unicode: 0xFFFF });
        proof {
            let last = final(mappings)@.len() - 1;
            assert(final(mappings)@[last].index == 0);
        }
    }
}

/// One group of a format 12 subtable: a run of codepoints drawn by a run
/// of glyphs.
#[derive(Debug, Clone, Copy, PartialEq, Eq, Structural)]
pub struct CodeGroup {
    pub start_char_code: u32,
    pub end_char_code: u32,
    pub start_glyph_id: u32,
}

impl CodeGroup {
    /// How many codepoints the group covers; none where it ends before it
    /// starts.
    pub open spec fn codes(self) -> int {
        if self.start_char_code <= self.end_char_code {
            self.end_char_code - self.start_char_code + 1
        } else {
            0
        }
    }

    /// The mapping of the group's codepoint number `k`: glyph ids are
    /// numbers of 32 bits, and start again at 0 after the last.
    pub open spec fn mapping(self, k: int) -> GlyphMapping {
        GlyphMapping {
            index: ((self.start_glyph_id + k) % 0x1_0000_0000) as usize,
            unicode: (self.start_char_code + k) as usize,
        }
    }

    /// The group's mappings, by ascending codepoint.
    pub open spec fn mappings(self) -> Seq<GlyphMapping> {
        Seq::new(self.codes() as nat, |k: int| self.mapping(k))
    }
}

/// The mappings of the first `n` groups, group after group.
pub open spec fn groups_mappings(groups: Seq<CodeGroup>, n: int) -> Seq<GlyphMapping>
    decreases n,
{
    if n <= 0 {
        Seq::empty()
    } else {
        groups_mappings(groups, n - 1) + groups[n - 1].mappings()
    }
}

/// Lists the mappings of the groups of a format 12 subtable.
pub fn decode_groups(groups: &Vec<CodeGroup>) -> (mappings: Vec<GlyphMapping>)
    ensures
        mappings@ == with_missing_glyph(groups_mappings(groups@, groups@.len() as int)),
        maps_missing_glyph(mappings@),
{
    let mut out: Vec<GlyphMapping> = Vec::new();
    let mut g: usize = 0;
    while g < groups.len()
        invariant
            g <= groups.len(),
            out@ == groups_mappings(groups@, g as int),
        decreases groups.len() - g,
    {
        let group = groups[g];
        let ghost before = out@;
        let mut k: u64 = 0;
        while group.start_char_code as u64 + k <= group.end_char_code as u64
            invariant
                k <= group.codes(),
                out@ == before + Seq::new(k as nat, |j: int| group.mapping(j)),
            decreases group.codes() - k,
        {
            let glyph: u64 = (group.start_glyph_id as u64 + k) % 0x1_0000_0000;
            let code: u64 = group.start_char_code as u64 + k;
            out.push(GlyphMapping { index: glyph as usize, unicode: code as usize });
            assert(out@ =~= before + Seq::new((k + 1) as nat, |j: int| group.mapping(j)));
            k = k + 1;
        }
        assert(Seq::new(k as nat, |j: int| group.mapping(j)) =~= group.mappings());
        g = g + 1;
    }
    ensure_missing_glyph(&mut out);
    out
}

/// The group number `g` of the format 12 subtable that starts at `sub`.
pub open spec fn group_at(bytes: Seq<u8>, sub: int, g: int) -> CodeGroup {
    CodeGroup {
        start_char_code: be_u32(bytes, sub + 16 + 12 * g) as u32,
        end_char_code: be_u32(bytes, sub + 20 + 12 * g) as u32,
        start_glyph_id: be_u32(bytes, sub + 24 + 12 * g) as u32,
    }
}

/// The groups of the format 12 subtable that starts at `sub`, or that the
/// bytes end before the last of them.
pub open spec fn groups_outcome(bytes: Seq<u8>, sub: int) -> Result<Seq<CodeGroup>, FontError> {
    if !readable(bytes, sub + 12, 4) {
        Err(FontError::TruncatedData)
    } else if !readable(bytes, sub + 16, 12 * be_u32(bytes, sub + 12)) {
        Err(FontError::TruncatedData)
    } else {
        Ok(Seq::new(be_u32(bytes, sub + 12) as nat, |g: int| group_at(bytes, sub, g)))
    }
}

/// Reads the groups of the format 12 subtable that starts at `sub`.
fn read_groups(file: &FontFile, sub: u64) -> (r: Result<Vec<CodeGroup>, FontError>)
    requires
        sub <= 0x2_0000_0000,
    ensures
        match r {
            Ok(groups) => groups_outcome(file.data@, sub as int) == Ok::<Seq<CodeGroup>, FontError>(groups@),
            Err(e) => groups_outcome(file.data@, sub as int) == Err::<Seq<CodeGroup>, FontError>(e),
        },
{
    let count: u32 = file.peek_u32(sub + 12)?;
    let mut groups: Vec<CodeGroup> = Vec::new();
    let mut g: u32 = 0;
    while g < count
        invariant
            g <= count,
            sub <= 0x2_0000_0000,
            readable(file.data@, sub + 12, 4),
            count == be_u32(file.data@, sub + 12),
            readable(file.data@, sub + 16, 12 * g),
            groups@ == Seq::new(g as nat, |j: int| group_at(file.data@, sub as int, j)),
        decreases count - g,
    {
        let at: u64 = sub + 16 + 12 * (g as u64);
        let start_char_code = file.peek_u32(at)?;
        let end_char_code = file.peek_u32(at + 4)?;
        let start_glyph_id = file.peek_u32(at + 8)?;
        groups.push(CodeGroup { start_char_code, end_char_code, start_glyph_id });
        assert(groups@ =~= Seq::new((g + 1) as nat, |j: int| group_at(file.data@, sub as int, j)));
        g = g + 1;
    }
    Ok(groups)
}

/// One segment of a format 4 subtable: a run of codepoints with the rule
/// that gives each its glyph.
#[derive(Debug, Clone, Copy, PartialEq, Eq, Structural)]
pub struct Segment {
    pub end_code: u16,
    pub start_code: u16,
    pub id_delta: u16,
    pub id_range_offset: u16,
    /// Where in the file `id_range_offset` is stored.
    pub range_offset_location: u64,
}

impl Segment {
    /// How many codepoints the segment covers; none where it ends before
    /// it starts.
    pub open spec fn codes(self) -> int {
        if self.start_code <= self.end_code {
            self.end_code - self.start_code + 1
        } else {
            0
        }
    }

    /// Where the glyph index of `code` is stored, for a segment that
    /// looks its glyphs up.
    pub open spec fn glyph_location(self, code: int) -> int {
        self.range_offset_location + self.id_range_offset + 2 * (code - self.start_code)
    }

    /// Whether the glyph of `code` can be had from `bytes`.
    pub open spec fn glyph_readable(self, bytes: Seq<u8>, code: int) -> bool {
        self.id_range_offset == 0 || readable(bytes, self.glyph_location(code), 2)
    }

    /// The glyph of `code`.
    pub open spec fn glyph(self, bytes: Seq<u8>, code: int) -> int {
        if self.id_range_offset == 0 {
            (code + self.id_delta) % 65536
        } else if be_u16(bytes, self.glyph_location(code)) == 0 {
            0
        } else {
            (be_u16(bytes, self.glyph_location(code)) + self.id_delta) % 65536
        }
    }

    /// Whether the glyph of each codepoint of the segment can be had.
    pub open spec fn all_readable(self, bytes: Seq<u8>) -> bool {
        forall|k: int| 0 <= k < self.codes() ==> #[trigger] self.glyph_readable(bytes, self.start_code + k)
    }

    /// The mapping of the segment's codepoint number `k`.
    pub open spec fn mapping(self, bytes: Seq<u8>, k: int) -> GlyphMapping {
        GlyphMapping {
            index: self.glyph(bytes, self.start_code + k) as usize,
            unicode: (self.start_code + k) as usize,
        }
    }

    /// The segment's mappings, by ascending codepoint.
    pub open spec fn mappings(self, bytes: Seq<u8>) -> Seq<GlyphMapping> {
        Seq::new(self.codes() as nat, |k: int| self.mapping(bytes, k))
    }
}

/// Whether decoding stops before segment `cut`: it is the first that
/// starts at 0xFFFF, or there is none and `cut` is the number of segments.
pub open spec fn is_cut(segments: Seq<Segment>, cut: int) -> bool {
    &&& 0 <= cut <= segments.len()
    &&& forall|i: int| 0 <= i < cut ==> (#[trigger] segments[i]).start_code != 0xFFFF
    &&& (cut == segments.len() || segments[cut].start_code == 0xFFFF)
}

/// The number of segments that are decoded.
pub open spec fn cut_of(segments: Seq<Segment>) -> int {
    choose|cut: int| is_cut(segments, cut)
}

/// Decoding stops at one place only.
pub proof fn lemma_cut_unique(segments: Seq<Segment>, a: int, b: int)
    requires
        is_cut(segments, a),
        is_cut(segments, b),
    ensures
        a == b,
{
    if a < b {
        assert(segments[a].start_code != 0xFFFF);
    } else if b < a {
        assert(segments[b].start_code != 0xFFFF);
    }
}

/// The mappings of the first `n` segments, segment after segment.
pub open spec fn segments_mappings(bytes: Seq<u8>, segments: Seq<Segment>, n: int) -> Seq<GlyphMapping>
    decreases n,
{
    if n <= 0 {
        Seq::empty()
    } else {
        segments_mappings(bytes, segments, n - 1) + segments[n - 1].mappings(bytes)
    }
}

/// Whether every glyph of the first `n` segments can be had.
pub open spec fn segments_readable(bytes: Seq<u8>, segments: Seq<Segment>, n: int) -> bool {
    forall|i: int| 0 <= i < n ==> (#[trigger] segments[i]).all_readable(bytes)
}

/// What decoding the segments gives: the mappings of the segments before
/// the cut, or that a glyph index lies beyond the end of `bytes`.
pub open spec fn segments_outcome(bytes: Seq<u8>, segments: Seq<Segment>) -> Result<
    Seq<GlyphMapping>,
    FontError,
> {
    if segments_readable(bytes, segments, cut_of(segments)) {
        Ok(with_missing_glyph(segments_mappings(bytes, segments, cut_of(segments))))
    } else {
        Err(FontError::TruncatedData)
    }
}

/// The glyph of `code` in `segment`.
fn segment_glyph(file: &FontFile, segment: &Segment, code: u32) -> (r: Result<u32, FontError>)
    requires
        segment.start_code <= code <= segment.end_code,
    ensures
        match r {
            Ok(glyph) => segment.glyph_readable(file.data@, code as int) && glyph == segment.glyph(
                file.data@,
                code as int,
            ),
            Err(e) => e == FontError::TruncatedData && !segment.glyph_readable(file.data@, code as int),
        },
{
    if segment.id_range_offset == 0 {
        Ok((code + segment.id_delta as u32) % 65536)
    } else {
        assert(file.data.len() <= usize::MAX);
        let delta: u64 = segment.id_range_offset as u64 + 2 * ((code - segment.start_code as u32) as u64);
        if segment.range_offset_location > u64::MAX - delta {
            return Err(FontError::TruncatedData);
        }
        match file.peek_u16(segment.range_offset_location + delta) {
            Ok(stored) => {
                if stored == 0 {
                    Ok(0)
                } else {
                    Ok((stored as u32 + segment.id_delta as u32) % 65536)
                }
            },
            Err(e) => Err(e),
        }
    }
}

/// Lists the mappings of the segments of a format 4 subtable; `file`
/// holds the glyph indices that segments look up.
pub fn decode_segments(file: &FontFile, segments: &Vec<Segment>) -> (r: Result<
    Vec<GlyphMapping>,
    FontError,
>)
    ensures
        match r {
            Ok(mappings) => segments_outcome(file.data@, segments@) == Ok::<Seq<GlyphMapping>, FontError>(
                mappings@,
            ) && maps_missing_glyph(mappings@),
            Err(e) => segments_outcome(file.data@, segments@) == Err::<Seq<GlyphMapping>, FontError>(e),
        },
{
    let mut out: Vec<GlyphMapping> = Vec::new();
    let mut i: usize = 0;
    while i < segments.len() && segments[i].start_code != 0xFFFF
        invariant
            i <= segments.len(),
            forall|j: int| 0 <= j < i ==> (#[trigger] segments@[j]).start_code != 0xFFFF,
            segments_readable(file.data@, segments@, i as int),
            out@ == segments_mappings(file.data@, segments@, i as int),
        decreases segments.len() - i,
    {
        let segment = segments[i];
        let ghost before = out@;
        let mut code: u32 = segment.start_code as u32;
        while code <= segment.end_code as u32
            invariant
                segment == segments@[i as int],
                i < segments.len(),
                segment.start_code <= code,
                code - segment.start_code <= segment.codes(),
                forall|j: int| 0 <= j < i ==> (#[trigger] segments@[j]).start_code != 0xFFFF,
                segment.start_code != 0xFFFF,
                forall|k: int|
                    0 <= k < code - segment.start_code ==> #[trigger] segment.glyph_readable(
                        file.data@,
                        segment.start_code + k,
                    ),
                out@ == before + Seq::new(
                    (code - segment.start_code) as nat,
                    |k: int| segment.mapping(file.data@, k),
                ),
            decreases segment.codes() - (code - segment.start_code),
        {
            let glyph = match segment_glyph(file, &segment, code) {
                Ok(glyph) => glyph,
                Err(e) => {
                    proof {
                        let k = code - segment.start_code;
                        assert(!segment.glyph_readable(file.data@, segment.start_code + k));
                        assert(!segment.all_readable(file.data@));
                        assert(!segments@[i as int].all_readable(file.data@));
                        let cut = cut_of(segments@);
                        lemma_cut_exists(segments@);
                        if cut <= i {
                            assert(cut < segments@.len());
                            assert(segments@[cut].start_code == 0xFFFF);
                        }
                        assert(!segments_readable(file.data@, segments@, cut));
                    }
                    return Err(e);
                },
            };
            out.push(GlyphMapping { index: glyph as usize, unicode: code as usize });
            assert(out@ =~= before + Seq::new(
                (code + 1 - segment.start_code) as nat,
                |k: int| segment.mapping(file.data@, k),
            ));
            code = code + 1;
        }
        assert(Seq::new((code - segment.start_code) as nat, |k: int| segment.mapping(file.data@, k))
            =~= segment.mappings(file.data@));
        assert(segment.all_readable(file.data@));
        i = i + 1;
    }
    proof {
        assert(is_cut(segments@, i as int));
        lemma_cut_unique(segments@, i as int, cut_of(segments@));
    }
    ensure_missing_glyph(&mut out);
    Ok(out)
}

/// Decoding stops somewhere.
pub proof fn lemma_cut_exists(segments: Seq<Segment>)
    ensures
        is_cut(segments, cut_of(segments)),
{
    lemma_cut_within(segments, segments.len() as int);
    if !(exists|cut: int| is_cut(segments, cut)) {
        assert(is_cut(segments, segments.len() as int));
    }
}

/// Among the first `n` segments either one starts at 0xFFFF, and the
/// first such is a cut, or none does.
proof fn lemma_cut_within(segments: Seq<Segment>, n: int)
    requires
        0 <= n <= segments.len(),
    ensures
        (exists|cut: int| is_cut(segments, cut)) || forall|i: int|
            0 <= i < n ==> (#[trigger] segments[i]).start_code != 0xFFFF,
    decreases n,
{
    if n > 0 {
        lemma_cut_within(segments, n - 1);
        if !(exists|cut: int| is_cut(segments, cut)) {
            if segments[n - 1].start_code == 0xFFFF {
                assert(is_cut(segments, n - 1));
            }
        }
    }
}

/// The segment number `i` of the format 4 subtable of `n` segments that
/// starts at `sub`.
pub open spec fn segment_at(bytes: Seq<u8>, sub: int, n: int, i: int) -> Segment {
    Segment {
        end_code: be_u16(bytes, sub + 14 + 2 * i) as u16,
        start_code: be_u16(bytes, sub + 16 + 2 * n + 2 * i) as u16,
        id_delta: be_u16(bytes, sub + 16 + 4 * n + 2 * i) as u16,
        id_range_offset: be_u16(bytes, sub + 16 + 6 * n + 2 * i) as u16,
        range_offset_location: (sub + 16 + 6 * n + 2 * i) as u64,
    }
}

/// The number of segments of the format 4 subtable that starts at `sub`.
pub open spec fn segment_count(bytes: Seq<u8>, sub: int) -> int {
    be_u16(bytes, sub + 6) / 2
}

/// The segments of the format 4 subtable that starts at `sub`, or that
/// the bytes end before the last of its four arrays does.
pub open spec fn segments_at_outcome(bytes: Seq<u8>, sub: int) -> Result<Seq<Segment>, FontError> {
    if !readable(bytes, sub + 6, 2) {
        Err(FontError::TruncatedData)
    } else if segment_count(bytes, sub) > 0 && !readable(bytes, sub, 16 + 8 * segment_count(bytes, sub)) {
        Err(FontError::TruncatedData)
    } else {
        Ok(
            Seq::new(
                segment_count(bytes, sub) as nat,
                |i: int| segment_at(bytes, sub, segment_count(bytes, sub), i),
            ),
        )
    }
}

/// Reads the segments of the format 4 subtable that starts at `sub`.
fn read_segments(file: &FontFile, sub: u64) -> (r: Result<Vec<Segment>, FontError>)
    requires
        sub <= 0x2_0000_0000,
    ensures
        match r {
            Ok(segments) => segments_at_outcome(file.data@, sub as int) == Ok::<Seq<Segment>, FontError>(
                segments@,
            ),
            Err(e) => segments_at_outcome(file.data@, sub as int) == Err::<Seq<Segment>, FontError>(e),
        },
{
    let doubled: u16 = file.peek_u16(sub + 6)?;
    let n: u64 = (doubled / 2) as u64;
    let mut segments: Vec<Segment> = Vec::new();
    let mut i: u64 = 0;
    while i < n
        invariant
            i <= n,
            n == segment_count(file.data@, sub as int),
            n < 0x8000,
            sub <= 0x2_0000_0000,
            readable(file.data@, sub + 6, 2),
            i > 0 ==> readable(file.data@, sub as int, 16 + 6 * n + 2 * i),
            segments@ == Seq::new(i as nat, |j: int| segment_at(file.data@, sub as int, n as int, j)),
        decreases n - i,
    {
        let end_code = file.peek_u16(sub + 14 + 2 * i)?;
        let start_code = file.peek_u16(sub + 16 + 2 * n + 2 * i)?;
        let id_delta = file.peek_u16(sub + 16 + 4 * n + 2 * i)?;
        let range_offset_location: u64 = sub + 16 + 6 * n + 2 * i;
        let id_range_offset = file.peek_u16(range_offset_location)?;
        segments.push(Segment { end_code, start_code, id_delta, id_range_offset, range_offset_location });
        assert(segments@ =~= Seq::new(
            (i + 1) as nat,
            |j: int| segment_at(file.data@, sub as int, n as int, j),
        ));
        i = i + 1;
    }
    Ok(segments)
}

/// The entry number `k` of the list of encoding subtables of the
/// character map that starts at `table`.
pub open spec fn encoding_record_at(bytes: Seq<u8>, table: int, k: int) -> EncodingRecord {
    EncodingRecord {
        platform_id: be_u16(bytes, table + 4 + 8 * k) as u16,
        platform_specific_id: be_u16(bytes, table + 6 + 8 * k) as u16,
        offset: be_u32(bytes, table + 8 + 8 * k) as u32,
    }
}

/// The list of encoding subtables of the character map that starts at
/// `table`, or that the bytes end before the list does.
pub open spec fn records_outcome(bytes: Seq<u8>, table: int) -> Result<Seq<EncodingRecord>, FontError> {
    if !readable(bytes, table, 4) {
        Err(FontError::TruncatedData)
    } else if !readable(bytes, table, 4 + 8 * be_u16(bytes, table + 2)) {
        Err(FontError::TruncatedData)
    } else {
        Ok(Seq::new(be_u16(bytes, table + 2) as nat, |k: int| encoding_record_at(bytes, table, k)))
    }
}

/// Reads the list of encoding subtables of the character map that
/// starts at `table`.
fn read_encoding_records(file: &FontFile, table: u32) -> (r: Result<Vec<EncodingRecord>, FontError>)
    ensures
        match r {
            Ok(records) => records_outcome(file.data@, table as int) == Ok::<Seq<EncodingRecord>, FontError>(
                records@,
            ),
            Err(e) => records_outcome(file.data@, table as int) == Err::<Seq<EncodingRecord>, FontError>(e),
        },
{
    let start: u64 = table as u64;
    let _version = file.peek_u16(start)?;
    let num_subtables = file.peek_u16(start + 2)?;
    let mut records: Vec<EncodingRecord> = Vec::new();
    let mut k: u16 = 0;
    while k < num_subtables
        invariant
            k <= num_subtables,
            start == table,
            readable(file.data@, table as int, 4 + 8 * k),
            num_subtables == be_u16(file.data@, table + 2),
            records@ == Seq::new(k as nat, |j: int| encoding_record_at(file.data@, table as int, j)),
        decreases num_subtables - k,
    {
        let at: u64 = start + 4 + 8 * (k as u64);
        let platform_id = file.peek_u16(at)?;
        let platform_specific_id = file.peek_u16(at + 2)?;
        let offset = file.peek_u32(at + 4)?;
        records.push(EncodingRecord { platform_id, platform_specific_id, offset });
        assert(records@ =~= Seq::new(
            (k + 1) as nat,
            |j: int| encoding_record_at(file.data@, table as int, j),
        ));
        k = k + 1;
    }
    Ok(records)
}

/// What decoding the subtable that starts at `sub` gives.
pub open spec fn subtable_outcome(bytes: Seq<u8>, sub: int) -> Result<Seq<GlyphMapping>, FontError> {
    if !readable(bytes, sub, 2) {
        Err(FontError::TruncatedData)
    } else if be_u16(bytes, sub) == FORMAT_4 {
        match segments_at_outcome(bytes, sub) {
            Ok(segments) => segments_outcome(bytes, segments),
            Err(e) => Err(e),
        }
    } else if be_u16(bytes, sub) == FORMAT_12 {
        match groups_outcome(bytes, sub) {
            Ok(groups) => Ok(with_missing_glyph(groups_mappings(groups, groups.len() as int))),
            Err(e) => Err(e),
        }
    } else {
        Err(FontError::UnsupportedCmapFormat(be_u16(bytes, sub) as u16))
    }
}

/// What decoding the character map of a font gives, from the bytes of
/// the file and its table directory.
pub open spec fn cmap_outcome(bytes: Seq<u8>, font_data: FontData) -> Result<Seq<GlyphMapping>, FontError> {
    match font_data.entry(TableTag::Cmap) {
        None => Err(FontError::MissingTable(TableTag::Cmap)),
        Some(table) => match records_outcome(bytes, table.offset as int) {
            Err(e) => Err(e),
            Ok(records) => if !has_candidate(records) {
                Err(FontError::UnsupportedCmap)
            } else {
                subtable_outcome(bytes, table.offset + records[selected_index(records)].offset)
            },
        },
    }
}

/// Decodes the character map: finds the `cmap` table, selects the
/// encoding subtable and lists its mappings. The position is left at the
/// start of the table.
pub fn parse_cmap(file: &mut FontFile, font_data: &FontData) -> (r: Result<Vec<GlyphMapping>, FontError>)
    ensures
        final(file).data@ == old(file).data@,
        final(file).position == match font_data.entry(TableTag::Cmap) {
            Some(table) => table.offset as u64,
            None => old(file).position,
        },
        match r {
            Ok(mappings) => cmap_outcome(old(file).data@, *font_data) == Ok::<Seq<GlyphMapping>, FontError>(
                mappings@,
            ) && maps_missing_glyph(mappings@),
            Err(e) => cmap_outcome(old(file).data@, *font_data) == Err::<Seq<GlyphMapping>, FontError>(e),
        },
{
    let cmap_offset: u32 = match font_data.try_get_table(TableTag::Cmap) {
        Ok(table) => table.offset,
        Err(e) => { return Err(e); },
    };
    let _ = file.goto(cmap_offset);
    let records = read_encoding_records(file, cmap_offset)?;
    let selected: usize = match select_subtable(&records) {
        Some(i) => i,
        None => { return Err(FontError::UnsupportedCmap); },
    };
    let sub: u64 = cmap_offset as u64 + records[selected].offset as u64;
    let format: u16 = file.peek_u16(sub)?;
    if !is_supported_cmap_format(format) {
        return Err(FontError::UnsupportedCmapFormat(format));
    }
    if format == FORMAT_4 {
        let segments = read_segments(file, sub)?;
        decode_segments(file, &segments)
    } else if format == FORMAT_12 {
        let groups = read_groups(file, sub)?;
        Ok(decode_groups(&groups))
    } else {
        Err(FontError::UnsupportedCmapFormat(format))
    }
}

/// Whether mapping `k` is the first for `unicode`.
pub open spec fn first_mapping_of(mappings: Seq<GlyphMapping>, unicode: usize, k: int) -> bool {
    &&& 0 <= k < mappings.len()
    &&& mappings[k].unicode == unicode
    &&& forall|j: int| 0 <= j < k ==> (#[trigger] mappings[j]).unicode != unicode
}

/// Whether some mapping is for `unicode`.
pub open spec fn maps_codepoint(mappings: Seq<GlyphMapping>, unicode: usize) -> bool {
    exists|k: int| 0 <= k < mappings.len() && (#[trigger] mappings[k]).unicode == unicode
}

/// A codepoint has one first mapping at most.
pub proof fn lemma_first_mapping_unique(mappings: Seq<GlyphMapping>, unicode: usize, a: int, b: int)
    requires
        first_mapping_of(mappings, unicode, a),
        first_mapping_of(mappings, unicode, b),
    ensures
        a == b,
{
    if a < b {
        assert(mappings[a].unicode != unicode);
    } else if b < a {
        assert(mappings[b].unicode != unicode);
    }
}

/// The glyph of a codepoint: that of its first mapping, where it has
/// one.
pub open spec fn glyph_of(mappings: Seq<GlyphMapping>, unicode: usize) -> Option<usize> {
    if maps_codepoint(mappings, unicode) {
        Some(mappings[choose|k: int| first_mapping_of(mappings, unicode, k)].index)
    } else {
        None
    }
}

/// Looks up the glyph of a codepoint.
pub fn find_glyph(mappings: &Vec<GlyphMapping>, unicode: usize) -> (r: Result<usize, FontError>)
    ensures
        r == match glyph_of(mappings@, unicode) {
            Some(index) => Ok::<usize, FontError>(index),
            None => Err::<usize, FontError>(FontError::GlyphNotFound),
        },
{
    let mut k: usize = 0;
    while k < mappings.len()
        invariant
            k <= mappings.len(),
            forall|j: int| 0 <= j < k ==> (#[trigger] mappings@[j]).unicode != unicode,
        decreases mappings.len() - k,
    {
        if mappings[k].unicode == unicode {
            proof {
                assert(first_mapping_of(mappings@, unicode, k as int));
                lemma_first_mapping_unique(
                    mappings@,
                    unicode,
                    k as int,
                    choose|j: int| first_mapping_of(mappings@, unicode, j),
                );
            }
            return Ok(mappings[k].index);
        }
        k = k + 1;
    }
    Err(FontError::GlyphNotFound)
}

/// Whether the codepoints never descend from one mapping to the next.
pub open spec fn codepoints_ascend(mappings: Seq<GlyphMapping>) -> bool {
    forall|a: int, b: int| 0 <= a < b < mappings.len() ==> mappings[a].unicode <= mappings[b].unicode
}

/// Whether the codepoints never descend from one mapping to the next.
pub fn is_sorted_by_codepoint(mappings: &Vec<GlyphMapping>) -> (r: bool)
    ensures
        r == codepoints_ascend(mappings@),
{
    let mut i: usize = 1;
    while i < mappings.len()
        invariant
            1 <= i,
            forall|a: int, b: int| 0 <= a < b < i && b < mappings@.len() ==> mappings@[a].unicode <= mappings@[b].unicode,
        decreases mappings.len() - i,
    {
        if mappings[i - 1].unicode > mappings[i].unicode {
            return false;
        }
        assert forall|a: int, b: int| 0 <= a < b < i + 1 implies mappings@[a].unicode <= mappings@[b].unicode by {
            if b == i && a < i - 1 {
                assert(mappings@[a].unicode <= mappings@[i - 1].unicode);
            }
        }
        i = i + 1;
    }
    true
}

/// Looks up the glyph of a codepoint by bisection, in mappings whose
/// codepoints never descend. Where several mappings are for the
/// codepoint, the glyph of one of them is given.
pub fn search_glyph(mappings: &Vec<GlyphMapping>, unicode: usize) -> (r: Result<usize, FontError>)
    requires
        codepoints_ascend(mappings@),
    ensures
        match r {
            Ok(index) => exists|k: int|
                0 <= k < mappings@.len() && (#[trigger] mappings@[k]).unicode == unicode && mappings@[k].index
                    == index,
            Err(e) => e == FontError::GlyphNotFound && !maps_codepoint(mappings@, unicode),
        },
{
    let mut low: usize = 0;
    let mut high: usize = mappings.len();
    while low < high
        invariant
            low <= high <= mappings@.len(),
            codepoints_ascend(mappings@),
            forall|j: int| 0 <= j < low ==> (#[trigger] mappings@[j]).unicode < unicode,
            forall|j: int| high <= j < mappings@.len() ==> (#[trigger] mappings@[j]).unicode > unicode,
        decreases high - low,
    {
        let middle: usize = low + (high - low) / 2;
        let found: usize = mappings[middle].unicode;
        if found == unicode {
            return Ok(mappings[middle].index);
        } else if found < unicode {
            assert forall|j: int| 0 <= j < middle + 1 implies (#[trigger] mappings@[j]).unicode < unicode by {
                if j < middle {
                    assert(mappings@[j].unicode <= mappings@[middle as int].unicode);
                }
            }
            low = middle + 1;
        } else {
            assert forall|j: int| middle <= j < mappings@.len() implies (#[trigger] mappings@[j]).unicode
                > unicode by {
                if middle < j {
                    assert(mappings@[middle as int].unicode <= mappings@[j].unicode);
                }
            }
            high = middle;
        }
    }
    Err(FontError::GlyphNotFound)
}

/// Whether each of the first `n` segments holds a codepoint and starts
/// after the one before it ends, as in a well-formed font.
pub open spec fn segments_ascend(segments: Seq<Segment>, n: int) -> bool {
    &&& forall|i: int| 0 <= i < n ==> (#[trigger] segments[i]).start_code <= segments[i].end_code
    &&& forall|i: int| 0 < i < n ==> segments[i - 1].end_code < (#[trigger] segments[i]).start_code
}

/// Whether each of the first `n` groups holds a codepoint and starts
/// after the one before it ends, as in a well-formed font.
pub open spec fn groups_ascend(groups: Seq<CodeGroup>, n: int) -> bool {
    &&& forall|i: int| 0 <= i < n ==> (#[trigger] groups[i]).start_char_code <= groups[i].end_char_code
    &&& forall|i: int| 0 < i < n ==> groups[i - 1].end_char_code < (#[trigger] groups[i]).start_char_code
}

/// The mappings of ascending segments ascend, and none goes beyond the
/// end of the last segment.
proof fn lemma_segments_codepoints(bytes: Seq<u8>, segments: Seq<Segment>, n: int)
    requires
        0 <= n <= segments.len(),
        segments_ascend(segments, n),
    ensures
        codepoints_ascend(segments_mappings(bytes, segments, n)),
        forall|a: int|
            0 <= a < segments_mappings(bytes, segments, n).len() ==> n > 0 && (#[trigger] segments_mappings(
                bytes,
                segments,
                n,
            )[a]).unicode <= segments[n - 1].end_code,
    decreases n,
{
    if n > 0 {
        lemma_segments_codepoints(bytes, segments, n - 1);
        let head = segments_mappings(bytes, segments, n - 1);
        let tail = segments[n - 1].mappings(bytes);
        let all = segments_mappings(bytes, segments, n);
        assert(all == head + tail);
        assert forall|a: int| 0 <= a < all.len() implies (#[trigger] all[a]).unicode <= segments[n
            - 1].end_code by {
            if a < head.len() {
                assert(head[a].unicode <= segments[n - 2].end_code);
            } else {
                assert(all[a] == tail[a - head.len()]);
            }
        }
        assert forall|a: int, b: int| 0 <= a < b < all.len() implies all[a].unicode <= all[b].unicode by {
            if b < head.len() {
            } else if a < head.len() {
                assert(head[a].unicode <= segments[n - 2].end_code);
                assert(all[b] == tail[b - head.len()]);
            } else {
                assert(all[a] == tail[a - head.len()]);
                assert(all[b] == tail[b - head.len()]);
            }
        }
    }
}

/// In a format 4 subtable whose decoded segments ascend, the codepoints
/// of the mappings never descend, the added mapping to the missing glyph
/// included.
pub proof fn lemma_format4_codepoints_ascend(bytes: Seq<u8>, segments: Seq<Segment>)
    requires
        segments_ascend(segments, cut_of(segments)),
    ensures
        codepoints_ascend(with_missing_glyph(segments_mappings(bytes, segments, cut_of(segments)))),
        match segments_outcome(bytes, segments) {
            Ok(mappings) => codepoints_ascend(mappings),
            Err(_) => true,
        },
{
    lemma_cut_exists(segments);
    lemma_segments_codepoints(bytes, segments, cut_of(segments));
}

/// The mappings of ascending groups ascend, and none goes beyond the end
/// of the last group.
proof fn lemma_groups_codepoints(groups: Seq<CodeGroup>, n: int)
    requires
        0 <= n <= groups.len(),
        groups_ascend(groups, n),
    ensures
        codepoints_ascend(groups_mappings(groups, n)),
        forall|a: int|
            0 <= a < groups_mappings(groups, n).len() ==> n > 0 && (#[trigger] groups_mappings(
                groups,
                n,
            )[a]).unicode <= groups[n - 1].end_char_code,
    decreases n,
{
    if n > 0 {
        lemma_groups_codepoints(groups, n - 1);
        let head = groups_mappings(groups, n - 1);
        let tail = groups[n - 1].mappings();
        let all = groups_mappings(groups, n);
        assert(all == head + tail);
        assert forall|a: int| 0 <= a < all.len() implies (#[trigger] all[a]).unicode <= groups[n
            - 1].end_char_code by {
            if a < head.len() {
                assert(head[a].unicode <= groups[n - 2].end_char_code);
            } else {
                assert(all[a] == tail[a - head.len()]);
            }
        }
        assert forall|a: int, b: int| 0 <= a < b < all.len() implies all[a].unicode <= all[b].unicode by {
            if b < head.len() {
            } else if a < head.len() {
                assert(head[a].unicode <= groups[n - 2].end_char_code);
                assert(all[b] == tail[b - head.len()]);
            } else {
                assert(all[a] == tail[a - head.len()]);
                assert(all[b] == tail[b - head.len()]);
            }
        }
    }
}

/// In a format 12 subtable whose groups ascend, the codepoints of the
/// mappings never descend. The added mapping to the missing glyph, which
/// comes last with codepoint 0xFFFF, is included where no group goes
/// beyond 0xFFFF.
pub proof fn lemma_format12_codepoints_ascend(groups: Seq<CodeGroup>)
    requires
        groups_ascend(groups, groups.len() as int),
    ensures
        codepoints_ascend(groups_mappings(groups, groups.len() as int)),
        groups.len() == 0 || groups[groups.len() - 1].end_char_code <= 0xFFFF ==> codepoints_ascend(
            with_missing_glyph(groups_mappings(groups, groups.len() as int)),
        ),
{
    lemma_groups_codepoints(groups, groups.len() as int);
}

/// After the missing-glyph step some mapping leads to glyph 0, and where
/// none did before, the codepoint 0xFFFF is mapped: to glyph 0, unless an
/// earlier mapping gives it another glyph.
pub proof fn lemma_missing_glyph_mapped(mappings: Seq<GlyphMapping>)
    ensures
        maps_missing_glyph(with_missing_glyph(mappings)),
        !maps_missing_glyph(mappings) ==> glyph_of(with_missing_glyph(mappings), 0xFFFF) is Some,
        !maps_missing_glyph(mappings) && !maps_codepoint(mappings, 0xFFFF) ==> glyph_of(
            with_missing_glyph(mappings),
            0xFFFF,
        ) == Some(0usize),
{
    if !maps_missing_glyph(mappings) {
        let all = with_missing_glyph(mappings);
        let last = mappings.len() as int;
        assert(all[last] == missing_glyph_mapping());
        assert(maps_codepoint(all, 0xFFFF));
        if !maps_codepoint(mappings, 0xFFFF) {
            assert forall|j: int| 0 <= j < last implies (#[trigger] all[j]).unicode != 0xFFFF by {
                assert(all[j] == mappings[j]);
            }
            assert(first_mapping_of(all, 0xFFFF, last));
            lemma_first_mapping_unique(all, 0xFFFF, last, choose|j: int| first_mapping_of(all, 0xFFFF, j));
        }
    }
}

} // verus!
