use vstd::prelude::*;
use crate::error::FontError;
use crate::font_data::{GlyphData, GlyphMapping, GlyphPoint};
use crate::font_file::{be_i16, be_u16, be_u8, readable, FontFile};
use crate::glyph_flags::{CoordinateDelta, GlyphFlags};
use crate::parser::characters_map::{
    find_glyph, glyph_of, lemma_missing_glyph_mapped, maps_codepoint, maps_missing_glyph, with_missing_glyph,
};

verus! {

/// The flag byte at `at`.
pub open spec fn flag_at(bytes: Seq<u8>, at: int) -> GlyphFlags {
    GlyphFlags { bits: bytes[at] }
}

/// How many bytes the flag at `at` takes: one more where a repeat count
/// follows it.
pub open spec fn flag_width(bytes: Seq<u8>, at: int) -> int {
    if flag_at(bytes, at).repeats() { 2 } else { 1 }
}

/// How many points the flag at `at` stands for.
pub open spec fn flag_run(bytes: Seq<u8>, at: int) -> int {
    if flag_at(bytes, at).repeats() { 1 + bytes[at + 1] } else { 1 }
}

/// The smaller of two numbers.
pub open spec fn least(a: int, b: int) -> int {
    if a <= b { a } else { b }
}

/// `head` put before the flags of `tail`.
pub open spec fn prepend_flags(head: Seq<GlyphFlags>, tail: Option<(Seq<GlyphFlags>, int)>) -> Option<
    (Seq<GlyphFlags>, int),
> {
    match tail {
        None => None,
        Some((rest, end)) => Some((head + rest, end)),
    }
}

/// The flags of `need` points, read from `at`, with the place where the
/// flag bytes end; `None` where the bytes end first. A run that would go
/// beyond `need` is cut there.
pub open spec fn flags_from(bytes: Seq<u8>, at: int, need: int) -> Option<(Seq<GlyphFlags>, int)>
    decreases need,
{
    if need <= 0 {
        Some((Seq::empty(), at))
    } else if !readable(bytes, at, flag_width(bytes, at)) {
        None
    } else {
        prepend_flags(
            Seq::new(least(flag_run(bytes, at), need) as nat, |i: int| flag_at(bytes, at)),
            flags_from(bytes, at + flag_width(bytes, at), need - least(flag_run(bytes, at), need)),
        )
    }
}

/// However the flag bytes repeat, the flags that come out are as many as
/// the points asked for: never more, never fewer.
pub proof fn lemma_flags_exact(bytes: Seq<u8>, at: int, need: int)
    requires
        0 <= need,
    ensures
        match flags_from(bytes, at, need) {
            Some((flags, end)) => flags.len() == need && at <= end,
            None => true,
        },
    decreases need,
{
    if need > 0 && readable(bytes, at, flag_width(bytes, at)) {
        lemma_flags_exact(bytes, at + flag_width(bytes, at), need - least(flag_run(bytes, at), need));
    }
}

/// Reads the flags of `num_points` points at the position.
pub fn read_flags(file: &mut FontFile, num_points: usize) -> (r: Result<Vec<GlyphFlags>, FontError>)
    ensures
        final(file).data@ == old(file).data@,
        match r {
            Ok(flags) => flags_from(old(file).data@, old(file).position as int, num_points as int) == Some(
                (flags@, final(file).position as int),
            ) && flags@.len() == num_points,
            Err(e) => e == FontError::TruncatedData && flags_from(
                old(file).data@,
                old(file).position as int,
                num_points as int,
            ) is None,
        },
{
    let ghost bytes = file.data@;
    let ghost start = file.position as int;
    let mut all_masks: Vec<GlyphFlags> = Vec::new();
    while all_masks.len() < num_points
        invariant
            bytes == old(file).data@,
            start == old(file).position,
            file.data@ == bytes,
            all_masks.len() <= num_points,
            flags_from(bytes, start, num_points as int) == prepend_flags(
                all_masks@,
                flags_from(bytes, file.position as int, num_points - all_masks.len()),
            ),
        decreases num_points - all_masks.len(),
    {
        let ghost at = file.position as int;
        let ghost before = all_masks@;
        let ghost need = num_points - all_masks.len();
        let glyph_mask = match file.read_bitmask() {
            Ok(bits) => GlyphFlags::from_bits_retain(bits),
            Err(e) => { return Err(e); },
        };
        assert(glyph_mask == flag_at(bytes, at));
        all_masks.push(glyph_mask);
        if glyph_mask.is_repeated() {
            let repeat_times: u8 = file.read_u8()?;
            let mut k: u8 = 0;
            while k < repeat_times && all_masks.len() < num_points
                invariant
                    k <= repeat_times,
                    1 + k <= need,
                    need == num_points - before.len(),
                    all_masks@ == before + Seq::new((1 + k) as nat, |i: int| glyph_mask),
                decreases repeat_times - k,
            {
                all_masks.push(glyph_mask);
                k = k + 1;
                assert(all_masks@ =~= before + Seq::new((1 + k) as nat, |i: int| glyph_mask));
            }
            assert(1 + k == least(flag_run(bytes, at), need));
        } else {
            assert(all_masks@ =~= before + Seq::new(1, |i: int| glyph_mask));
        }
        proof {
            let run = least(flag_run(bytes, at), need);
            let head = Seq::new(run as nat, |i: int| flag_at(bytes, at));
            assert(head =~= Seq::new(run as nat, |i: int| glyph_mask));
            let tail = flags_from(bytes, at + flag_width(bytes, at), need - run);
            assert(flags_from(bytes, at, need) == prepend_flags(head, tail));
            match tail {
                Some((rest, end)) => {
                    assert(before + (head + rest) =~= (before + head) + rest);
                },
                None => {},
            }
        }
    }
    assert(all_masks@ + Seq::<GlyphFlags>::empty() =~= all_masks@);
    Ok(all_masks)
}

/// How many bytes the first `n` of `deltas` take.
pub open spec fn deltas_width(deltas: Seq<CoordinateDelta>, n: int) -> int
    decreases n,
{
    if n <= 0 {
        0
    } else {
        deltas_width(deltas, n - 1) + deltas[n - 1].width()
    }
}

/// The difference that is stored at `at` in the way `delta` says.
pub open spec fn delta_value(bytes: Seq<u8>, at: int, delta: CoordinateDelta) -> int {
    match delta {
        CoordinateDelta::Explicit16 => be_i16(bytes, at),
        CoordinateDelta::ShortSigned { positive } => if positive {
            be_u8(bytes, at)
        } else {
            -be_u8(bytes, at)
        },
        CoordinateDelta::SameAsPrevious => 0,
    }
}

/// The coordinate after the first `n` differences, which are stored one
/// after the other from `at`: their sum, counted from 0.
pub open spec fn coordinate(bytes: Seq<u8>, at: int, deltas: Seq<CoordinateDelta>, n: int) -> int
    decreases n,
{
    if n <= 0 {
        0
    } else {
        coordinate(bytes, at, deltas, n - 1) + delta_value(
            bytes,
            at + deltas_width(deltas, n - 1),
            deltas[n - 1],
        )
    }
}

/// The coordinates of all points along one axis.
pub open spec fn coordinates(bytes: Seq<u8>, at: int, deltas: Seq<CoordinateDelta>) -> Seq<i64> {
    Seq::new(deltas.len(), |i: int| coordinate(bytes, at, deltas, i + 1) as i64)
}

/// How the coordinates along one axis are stored, point by point.
pub open spec fn axis_deltas(flags: Seq<GlyphFlags>, vertical: bool) -> Seq<CoordinateDelta> {
    Seq::new(flags.len(), |i: int| if vertical { flags[i].y_delta() } else { flags[i].x_delta() })
}

/// Whether the differences of `deltas` can all be read from `at`.
pub open spec fn deltas_readable(bytes: Seq<u8>, at: int, deltas: Seq<CoordinateDelta>) -> bool {
    deltas_width(deltas, deltas.len() as int) == 0 || readable(
        bytes,
        at,
        deltas_width(deltas, deltas.len() as int),
    )
}

/// More differences take no fewer bytes.
proof fn lemma_width_grows(deltas: Seq<CoordinateDelta>, i: int, n: int)
    requires
        0 <= i <= n,
    ensures
        0 <= deltas_width(deltas, i) <= deltas_width(deltas, n),
    decreases n,
{
    if n > 0 {
        if i < n {
            lemma_width_grows(deltas, i, n - 1);
        } else {
            lemma_width_grows(deltas, i - 1, n - 1);
        }
    }
}

/// Reads the coordinates along one axis at the position.
fn parse_axis(file: &mut FontFile, all_masks: &[GlyphFlags], vertical: bool) -> (r: Result<
    Vec<i64>,
    FontError,
>)
    requires
        all_masks@.len() <= 65536,
    ensures
        final(file).data@ == old(file).data@,
        match r {
            Ok(values) => {
                &&& deltas_readable(
                    old(file).data@,
                    old(file).position as int,
                    axis_deltas(all_masks@, vertical),
                )
                &&& values@ == coordinates(
                    old(file).data@,
                    old(file).position as int,
                    axis_deltas(all_masks@, vertical),
                )
                &&& final(file).position == old(file).position + deltas_width(
                    axis_deltas(all_masks@, vertical),
                    all_masks@.len() as int,
                )
            },
            Err(e) => e == FontError::TruncatedData && !deltas_readable(
                old(file).data@,
                old(file).position as int,
                axis_deltas(all_masks@, vertical),
            ),
        },
{
    let ghost bytes = file.data@;
    let ghost start = file.position as int;
    let ghost deltas = axis_deltas(all_masks@, vertical);
    let n: usize = all_masks.len();
    let mut previous: i64 = 0;
    let mut values: Vec<i64> = Vec::new();
    let mut i: usize = 0;
    while i < n
        invariant
            i <= n,
            n == all_masks@.len(),
            n <= 65536,
            deltas == axis_deltas(all_masks@, vertical),
            bytes == old(file).data@,
            start == old(file).position,
            file.data@ == bytes,
            file.position == start + deltas_width(deltas, i as int),
            deltas_width(deltas, i as int) == 0 || readable(bytes, start, deltas_width(deltas, i as int)),
            previous == coordinate(bytes, start, deltas, i as int),
            -32768 * i <= previous <= 32768 * i,
            values@ == Seq::new(i as nat, |j: int| coordinate(bytes, start, deltas, j + 1) as i64),
        decreases n - i,
    {
        let mask = all_masks[i];
        let delta = if vertical {
            mask.y_coordinate_delta()
        } else {
            mask.x_coordinate_delta()
        };
        assert(delta == deltas[i as int]);
        proof {
            lemma_width_grows(deltas, i as int, i as int);
            lemma_width_grows(deltas, i + 1, n as int);
        }
        let offset: i64 = match delta {
            CoordinateDelta::ShortSigned { positive } => {
                let magnitude = file.read_u8()?;
                if positive {
                    magnitude as i64
                } else {
                    -(magnitude as i64)
                }
            },
            CoordinateDelta::SameAsPrevious => 0,
            CoordinateDelta::Explicit16 => {
                match file.read_i16() {
                    Ok(v) => v as i64,
                    Err(e) => { return Err(e); },
                }
            },
        };
        previous = previous + offset;
        values.push(previous);
        assert(values@ =~= Seq::new((i + 1) as nat, |j: int| coordinate(bytes, start, deltas, j + 1) as i64));
        i = i + 1;
    }
    assert(values@ =~= coordinates(bytes, start, deltas));
    Ok(values)
}

/// Reads the x-coordinates of the points whose flags are `all_masks`, at
/// the position. A glyph has at most 65536 points.
pub fn parse_glyph_x(file: &mut FontFile, all_masks: &[GlyphFlags]) -> (r: Result<Vec<i64>, FontError>)
    requires
        all_masks@.len() <= 65536,
    ensures
        axis_decoded(*old(file), *final(file), all_masks@, false, r),
{
    parse_axis(file, all_masks, false)
}

/// Reads the y-coordinates of the points whose flags are `all_masks`, at
/// the position. A glyph has at most 65536 points.
pub fn parse_glyph_y(file: &mut FontFile, all_masks: &[GlyphFlags]) -> (r: Result<Vec<i64>, FontError>)
    requires
        all_masks@.len() <= 65536,
    ensures
        axis_decoded(*old(file), *final(file), all_masks@, true, r),
{
    parse_axis(file, all_masks, true)
}

/// The number of contours that the glyph at `at` says it has; negative
/// for a glyph made of other glyphs.
pub open spec fn contour_count(bytes: Seq<u8>, at: int) -> int {
    be_i16(bytes, at)
}

/// The index of the last point of each contour of the glyph at `at`.
pub open spec fn contour_ends(bytes: Seq<u8>, at: int) -> Seq<usize> {
    Seq::new(contour_count(bytes, at) as nat, |i: int| be_u16(bytes, at + 10 + 2 * i) as usize)
}

/// Where the flags of the glyph at `at` start: after the header, the
/// contour ends and the instructions.
pub open spec fn flags_start(bytes: Seq<u8>, at: int) -> int {
    at + 12 + 2 * contour_count(bytes, at) + be_u16(bytes, at + 10 + 2 * contour_count(bytes, at))
}

/// The number of points of the glyph at `at`: one more than the last
/// contour end, and 1 for a glyph without contours.
pub open spec fn point_count(bytes: Seq<u8>, at: int) -> int {
    if contour_count(bytes, at) <= 0 {
        1
    } else {
        be_u16(bytes, at + 10 + 2 * (contour_count(bytes, at) - 1)) + 1
    }
}

/// The points with the given flags, whose x-coordinates are stored from
/// `xs_at` and whose y-coordinates are stored from `ys_at`.
pub open spec fn glyph_points(bytes: Seq<u8>, flags: Seq<GlyphFlags>, xs_at: int, ys_at: int) -> Seq<
    GlyphPoint,
> {
    Seq::new(
        flags.len(),
        |i: int|
            GlyphPoint {
                x: coordinate(bytes, xs_at, axis_deltas(flags, false), i + 1) as i64,
                y: coordinate(bytes, ys_at, axis_deltas(flags, true), i + 1) as i64,
                on_curve: flags[i].on_curve(),
            },
    )
}

/// What decoding the glyph at `at` gives: its contour ends and points,
/// or why there are none.
pub open spec fn glyph_outcome(bytes: Seq<u8>, at: int) -> Result<(Seq<usize>, Seq<GlyphPoint>), FontError> {
    if !readable(bytes, at, 2) {
        Err(FontError::TruncatedData)
    } else if contour_count(bytes, at) < 0 {
        Err(FontError::CompositeGlyphUnsupported)
    } else if !readable(bytes, at, 12 + 2 * contour_count(bytes, at)) {
        Err(FontError::TruncatedData)
    } else {
        match flags_from(bytes, flags_start(bytes, at), point_count(bytes, at)) {
            None => Err(FontError::TruncatedData),
            Some((flags, xs_at)) => if !deltas_readable(bytes, xs_at, axis_deltas(flags, false)) {
                Err(FontError::TruncatedData)
            } else if !deltas_readable(
                bytes,
                xs_at + deltas_width(axis_deltas(flags, false), flags.len() as int),
                axis_deltas(flags, true),
            ) {
                Err(FontError::TruncatedData)
            } else {
                Ok(
                    (
                        contour_ends(bytes, at),
                        glyph_points(
                            bytes,
                            flags,
                            xs_at,
                            xs_at + deltas_width(axis_deltas(flags, false), flags.len() as int),
                        ),
                    ),
                )
            },
        }
    }
}

/// Where the glyph at `at` ends: after the y-coordinates of its points.
pub open spec fn glyph_end(bytes: Seq<u8>, at: int) -> int {
    match flags_from(bytes, flags_start(bytes, at), point_count(bytes, at)) {
        None => at,
        Some((flags, xs_at)) => xs_at + deltas_width(axis_deltas(flags, false), flags.len() as int)
            + deltas_width(axis_deltas(flags, true), flags.len() as int),
    }
}

/// A decoded glyph has as many points as the file says: one more than
/// its last contour end, so that the last contour ends with the last
/// point; and one point where it has no contours.
pub proof fn lemma_glyph_point_count(bytes: Seq<u8>, at: int)
    ensures
        match glyph_outcome(bytes, at) {
            Ok((ends, points)) => points.len() == point_count(bytes, at) && ends.len() == contour_count(
                bytes,
                at,
            ) && if ends.len() == 0 {
                points.len() == 1
            } else {
                ends[ends.len() - 1] + 1 == points.len()
            },
            Err(_) => true,
        },
{
    if contour_count(bytes, at) >= 0 {
        lemma_flags_exact(bytes, flags_start(bytes, at), point_count(bytes, at));
    }
}

/// Decodes the simple glyph at the position, and leaves the position
/// after it.
pub fn parse_glyph(file: &mut FontFile) -> (r: Result<GlyphData, FontError>)
    ensures
        final(file).data@ == old(file).data@,
        match r {
            Ok(glyph) => final(file).position == glyph_end(old(file).data@, old(file).position as int)
                && glyph_outcome(old(file).data@, old(file).position as int) == Ok::<
                (Seq<usize>, Seq<GlyphPoint>),
                FontError,
            >(glyph@),
            Err(e) => glyph_outcome(old(file).data@, old(file).position as int) == Err::<
                (Seq<usize>, Seq<GlyphPoint>),
                FontError,
            >(e),
        },
{
    let ghost bytes = file.data@;
    let ghost at = file.position as int;
    assert(file.data.len() <= usize::MAX);
    let i_contours_num = file.read_i16()?;
    if i_contours_num < 0 {
        return Err(FontError::CompositeGlyphUnsupported);
    }
    let contours_num: usize = i_contours_num as usize;
    let _x_min = file.read_i16()?;
    let _y_min = file.read_i16()?;
    let _x_max = file.read_i16()?;
    let _y_max = file.read_i16()?;
    let mut contour_end_indices: Vec<usize> = Vec::new();
    let mut num_points: usize = 1;
    while contour_end_indices.len() < contours_num
        invariant
            bytes == old(file).data@,
            at == old(file).position,
            file.data@ == bytes,
            contours_num == contour_count(bytes, at),
            contour_end_indices.len() <= contours_num,
            file.position == at + 10 + 2 * contour_end_indices.len(),
            readable(bytes, at, 10 + 2 * contour_end_indices.len()),
            contour_end_indices@ == Seq::new(
                contour_end_indices.len() as nat,
                |i: int| be_u16(bytes, at + 10 + 2 * i) as usize,
            ),
            num_points == if contour_end_indices.len() == 0 {
                1
            } else {
                be_u16(bytes, at + 10 + 2 * (contour_end_indices.len() - 1)) + 1
            },
        decreases contours_num - contour_end_indices.len(),
    {
        let ghost done = contour_end_indices.len();
        let end = file.read_u16()?;
        contour_end_indices.push(end as usize);
        num_points = end as usize + 1;
        assert(contour_end_indices@ =~= Seq::new(
            (done + 1) as nat,
            |i: int| be_u16(bytes, at + 10 + 2 * i) as usize,
        ));
    }
    assert(contour_end_indices@ =~= contour_ends(bytes, at));
    let instructions_size = file.read_u16()?;
    match file.skip_bytes(instructions_size as u32) {
        Ok(_) => {},
        Err(e) => { return Err(e); },
    }
    assert(file.position == flags_start(bytes, at));
    let all_masks = read_flags(file, num_points)?;
    let ghost xs_at = file.position as int;
    let x_coordinates = parse_glyph_x(file, all_masks.as_slice())?;
    let ghost ys_at = file.position as int;
    let y_coordinates = parse_glyph_y(file, all_masks.as_slice())?;
    let mut points: Vec<GlyphPoint> = Vec::new();
    let mut i: usize = 0;
    while i < all_masks.len()
        invariant
            i <= all_masks.len(),
            x_coordinates@.len() == all_masks@.len(),
            y_coordinates@.len() == all_masks@.len(),
            x_coordinates@ == coordinates(bytes, xs_at, axis_deltas(all_masks@, false)),
            y_coordinates@ == coordinates(bytes, ys_at, axis_deltas(all_masks@, true)),
            points@ == Seq::new(i as nat, |j: int| glyph_points(bytes, all_masks@, xs_at, ys_at)[j]),
        decreases all_masks.len() - i,
    {
        points.push(
            GlyphPoint { x: x_coordinates[i], y: y_coordinates[i], on_curve: all_masks[i].is_on_curve() },
        );
        assert(points@ =~= Seq::new(
            (i + 1) as nat,
            |j: int| glyph_points(bytes, all_masks@, xs_at, ys_at)[j],
        ));
        i = i + 1;
    }
    assert(points@ =~= glyph_points(bytes, all_masks@, xs_at, ys_at));
    Ok(GlyphData { contour_end_indices, points })
}

/// Whether glyph `index` has no outline: the next glyph starts where it
/// starts.
pub open spec fn empty_glyph(locations: Seq<u32>, index: int) -> bool {
    index + 1 < locations.len() && locations[index] == locations[index + 1]
}

/// What decoding glyph `index` gives. There is no such glyph beyond the
/// last location; a glyph without an outline, such as a space, has no
/// points and no contours; any other is decoded at its location.
pub open spec fn glyph_at_outcome(bytes: Seq<u8>, locations: Seq<u32>, index: int) -> Result<
    (Seq<usize>, Seq<GlyphPoint>),
    FontError,
> {
    if index >= locations.len() {
        Err(FontError::GlyphNotFound)
    } else if empty_glyph(locations, index) {
        Ok((Seq::empty(), Seq::empty()))
    } else {
        glyph_outcome(bytes, locations[index] as int)
    }
}

/// Decodes glyph `index` of a font whose glyphs lie at `glyph_locations`.
/// Nothing is read for a glyph without an outline, nor where there is no
/// such glyph; for any other the position is moved to its location and
/// left after it.
pub fn parse_glyph_at(file: &mut FontFile, glyph_locations: &Vec<u32>, index: usize) -> (r: Result<
    GlyphData,
    FontError,
>)
    ensures
        final(file).data@ == old(file).data@,
        index >= glyph_locations@.len() || empty_glyph(glyph_locations@, index as int)
            ==> final(file).position == old(file).position,
        match r {
            Ok(glyph) => glyph_at_outcome(old(file).data@, glyph_locations@, index as int) == Ok::<
                (Seq<usize>, Seq<GlyphPoint>),
                FontError,
            >(glyph@) && (!empty_glyph(glyph_locations@, index as int) ==> final(file).position
                == glyph_end(old(file).data@, glyph_locations@[index as int] as int)),
            Err(e) => glyph_at_outcome(old(file).data@, glyph_locations@, index as int) == Err::<
                (Seq<usize>, Seq<GlyphPoint>),
                FontError,
            >(e),
        },
{
    if index >= glyph_locations.len() {
        return Err(FontError::GlyphNotFound);
    }
    if index < glyph_locations.len() - 1 && glyph_locations[index] == glyph_locations[index + 1] {
        return Ok(GlyphData { contour_end_indices: Vec::new(), points: Vec::new() });
    }
    let _ = file.goto(glyph_locations[index]);
    parse_glyph(file)
}

/// What looking a codepoint up and decoding its glyph gives.
pub open spec fn glyph_for_outcome(
    bytes: Seq<u8>,
    mappings: Seq<GlyphMapping>,
    locations: Seq<u32>,
    unicode: usize,
) -> Result<(Seq<usize>, Seq<GlyphPoint>), FontError> {
    match glyph_of(mappings, unicode) {
        None => Err(FontError::GlyphNotFound),
        Some(index) => glyph_at_outcome(bytes, locations, index as int),
    }
}

/// Decodes the glyph that draws a codepoint: looks the codepoint up in
/// the mappings, finds the glyph's location and decodes the glyph there.
pub fn parse_glyph_for(
    file: &mut FontFile,
    mappings: &Vec<GlyphMapping>,
    glyph_locations: &Vec<u32>,
    unicode: usize,
) -> (r: Result<GlyphData, FontError>)
    ensures
        final(file).data@ == old(file).data@,
        match r {
            Ok(glyph) => glyph_for_outcome(old(file).data@, mappings@, glyph_locations@, unicode) == Ok::<
                (Seq<usize>, Seq<GlyphPoint>),
                FontError,
            >(glyph@),
            Err(e) => glyph_for_outcome(old(file).data@, mappings@, glyph_locations@, unicode) == Err::<
                (Seq<usize>, Seq<GlyphPoint>),
                FontError,
            >(e),
        },
{
    match find_glyph(mappings, unicode) {
        Ok(index) => parse_glyph_at(file, glyph_locations, index),
        Err(e) => Err(e),
    }
}

/// The codepoint 0xFFFF of a character map that maps no other codepoint
/// to the missing glyph leads to glyph 0, and where the font has a glyph
/// 0, looking it up never fails for want of a glyph: it gives what
/// decoding glyph 0 gives.
pub proof fn lemma_missing_glyph_resolves(bytes: Seq<u8>, mappings: Seq<GlyphMapping>, locations: Seq<u32>)
    requires
        !maps_missing_glyph(mappings),
        !maps_codepoint(mappings, 0xFFFF),
        locations.len() > 0,
    ensures
        glyph_for_outcome(bytes, with_missing_glyph(mappings), locations, 0xFFFF) == glyph_at_outcome(
            bytes,
            locations,
            0,
        ),
        empty_glyph(locations, 0) ==> glyph_for_outcome(bytes, with_missing_glyph(mappings), locations, 0xFFFF)
            == Ok::<(Seq<usize>, Seq<GlyphPoint>), FontError>((Seq::empty(), Seq::empty())),
{
    lemma_missing_glyph_mapped(mappings);
}

/// What reading the coordinates along one axis leaves behind: `r` and
/// the cursor `after`, from the cursor `before` and the flags.
pub open spec fn axis_decoded(
    before: FontFile,
    after: FontFile,
    flags: Seq<GlyphFlags>,
    vertical: bool,
    r: Result<Vec<i64>, FontError>,
) -> bool {
    &&& after.data@ == before.data@
    &&& match r {
        Ok(values) => {
            &&& deltas_readable(before.data@, before.position as int, axis_deltas(flags, vertical))
            &&& values@ == coordinates(before.data@, before.position as int, axis_deltas(flags, vertical))
            &&& after.position == before.position + deltas_width(
                axis_deltas(flags, vertical),
                flags.len() as int,
            )
        },
        Err(e) => e == FontError::TruncatedData && !deltas_readable(
            before.data@,
            before.position as int,
            axis_deltas(flags, vertical),
        ),
    }
}

/// Reading the coordinates twice from the same bytes, place and flags
/// gives the same twice: both readings fail, or both give the same
/// coordinates and leave the cursor at the same place.
pub proof fn lemma_decoding_repeatable(
    before: FontFile,
    flags: Seq<GlyphFlags>,
    vertical: bool,
    first_after: FontFile,
    first: Result<Vec<i64>, FontError>,
    second_after: FontFile,
    second: Result<Vec<i64>, FontError>,
)
    requires
        axis_decoded(before, first_after, flags, vertical, first),
        axis_decoded(before, second_after, flags, vertical, second),
    ensures
        first_after.data@ == second_after.data@,
        first is Ok <==> second is Ok,
        first is Ok ==> first->Ok_0@ == second->Ok_0@ && first_after.position == second_after.position,
        first is Err ==> first->Err_0 == second->Err_0,
{
}

} // verus!
