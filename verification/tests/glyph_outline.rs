use text_render::error::FontError;
use text_render::font_data::{GlyphData, GlyphPoint};
use text_render::font_file::FontFile;
use text_render::glyph_flags::{
    CoordinateDelta, GlyphFlags, IS_POSITIVE_X, IS_POSITIVE_Y, IS_SAME_X, IS_SAME_Y, ON_CURVE, REPEAT, RESERVED,
    SHORT_VECTOR_X, SHORT_VECTOR_Y,
};
use text_render::parser::characters_map::{decode_groups, find_glyph, CodeGroup};
use text_render::parser::glyph::{
    parse_glyph, parse_glyph_at, parse_glyph_for, parse_glyph_x, parse_glyph_y, read_flags,
};
use text_render::render::outline::{build_outline, try_build_outline, PathSegment};
use text_render::render::render_error::RenderError;

fn flags(bits: u8) -> GlyphFlags {
    GlyphFlags::from_bits_retain(bits)
}

fn point(x: i64, y: i64, on_curve: bool) -> GlyphPoint {
    GlyphPoint { x, y, on_curve }
}

/// The bytes of a glyph: contour count, bounding box, contour ends, instructions, then `rest`.
fn glyph_bytes(contours: i16, ends: &[u16], instructions: &[u8], rest: &[u8]) -> Vec<u8> {
    let mut bytes = Vec::new();
    bytes.extend_from_slice(&contours.to_be_bytes());
    bytes.extend_from_slice(&[0, 1, 0, 2, 0, 3, 0, 4]);
    for end in ends {
        bytes.extend_from_slice(&end.to_be_bytes());
    }
    bytes.extend_from_slice(&(instructions.len() as u16).to_be_bytes());
    bytes.extend_from_slice(instructions);
    bytes.extend_from_slice(rest);
    bytes
}

const TRIANGLE: [u8; 9] = [0x37, 0x01, 0x30, 10, 0xFF, 0xFB, 20, 0x01, 0x2C];

#[test]
fn flag_bits() {
    let all = flags(0xFF);
    assert_eq!(all.bits(), 0xFF);
    assert!(all.contains(flags(RESERVED)));
    let some = flags(ON_CURVE | REPEAT);
    assert!(some.contains(flags(ON_CURVE)));
    assert!(some.contains(flags(REPEAT)));
    assert!(some.contains(flags(ON_CURVE | REPEAT)));
    assert!(some.contains(flags(0)));
    assert!(!some.contains(flags(SHORT_VECTOR_X)));
    assert!(!some.contains(flags(ON_CURVE | SHORT_VECTOR_Y)));
    assert!(some.is_on_curve());
    assert!(some.is_repeated());
    assert!(!flags(SHORT_VECTOR_X).is_on_curve());
    assert!(!flags(ON_CURVE).is_repeated());
    assert_eq!(IS_SAME_X, IS_POSITIVE_X);
    assert_eq!(IS_SAME_Y, IS_POSITIVE_Y);
}

#[test]
fn how_coordinates_are_stored() {
    assert_eq!(flags(0).x_coordinate_delta(), CoordinateDelta::Explicit16);
    assert_eq!(flags(0).y_coordinate_delta(), CoordinateDelta::Explicit16);
    assert_eq!(flags(IS_SAME_X).x_coordinate_delta(), CoordinateDelta::SameAsPrevious);
    assert_eq!(flags(IS_SAME_X).y_coordinate_delta(), CoordinateDelta::Explicit16);
    assert_eq!(flags(IS_SAME_Y).y_coordinate_delta(), CoordinateDelta::SameAsPrevious);
    assert_eq!(flags(SHORT_VECTOR_X).x_coordinate_delta(), CoordinateDelta::ShortSigned { positive: false });
    assert_eq!(
        flags(SHORT_VECTOR_X | IS_POSITIVE_X).x_coordinate_delta(),
        CoordinateDelta::ShortSigned { positive: true }
    );
    assert_eq!(flags(SHORT_VECTOR_Y).y_coordinate_delta(), CoordinateDelta::ShortSigned { positive: false });
    assert_eq!(
        flags(SHORT_VECTOR_Y | IS_POSITIVE_Y).y_coordinate_delta(),
        CoordinateDelta::ShortSigned { positive: true }
    );
    assert_eq!(flags(SHORT_VECTOR_Y | IS_POSITIVE_Y).x_coordinate_delta(), CoordinateDelta::Explicit16);
}

#[test]
fn a_repeat_count_of_five_gives_six_flags() {
    let mut file = FontFile::new(vec![ON_CURVE | REPEAT, 5, SHORT_VECTOR_X, 0xAA]);
    let decoded = read_flags(&mut file, 7).unwrap();
    assert_eq!(decoded.len(), 7);
    for flag in &decoded[..6] {
        assert_eq!(*flag, flags(ON_CURVE | REPEAT));
        assert!(flag.is_on_curve());
    }
    assert_eq!(decoded[6], flags(SHORT_VECTOR_X));
    assert_eq!(file.get_location(), 3);
}

#[test]
fn a_run_is_cut_at_the_number_of_points() {
    let mut file = FontFile::new(vec![ON_CURVE | REPEAT, 200, 0x55]);
    let decoded = read_flags(&mut file, 4).unwrap();
    assert_eq!(decoded, vec![flags(ON_CURVE | REPEAT); 4]);
    assert_eq!(file.get_location(), 2);
    let mut file = FontFile::new(vec![REPEAT, 0, REPEAT, 1, 0]);
    assert_eq!(read_flags(&mut file, 4), Ok(vec![flags(REPEAT), flags(REPEAT), flags(REPEAT), flags(0)]));
    assert_eq!(file.get_location(), 5);
}

#[test]
fn flags_without_points_read_nothing() {
    let mut file = FontFile::new(vec![1, 2, 3]);
    assert_eq!(read_flags(&mut file, 0), Ok(Vec::new()));
    assert_eq!(file.get_location(), 0);
}

#[test]
fn flags_truncated() {
    let mut file = FontFile::new(vec![ON_CURVE, ON_CURVE]);
    assert_eq!(read_flags(&mut file, 3), Err(FontError::TruncatedData));
    let mut file = FontFile::new(vec![ON_CURVE | REPEAT]);
    assert_eq!(read_flags(&mut file, 1), Err(FontError::TruncatedData));
    let mut file = FontFile::new(Vec::new());
    assert_eq!(read_flags(&mut file, 1), Err(FontError::TruncatedData));
}

#[test]
fn x_coordinates_are_running_sums() {
    let masks = [
        flags(SHORT_VECTOR_X | IS_POSITIVE_X),
        flags(SHORT_VECTOR_X),
        flags(IS_SAME_X),
        flags(0),
        flags(0),
        flags(SHORT_VECTOR_Y | IS_SAME_Y | IS_SAME_X),
    ];
    let mut file = FontFile::new(vec![200, 255, 0x80, 0x00, 0x7F, 0xFF, 0xEE]);
    assert_eq!(parse_glyph_x(&mut file, &masks), Ok(vec![200, -55, -55, -55 - 32768, -56, -56]));
    assert_eq!(file.get_location(), 6);
}

#[test]
fn y_coordinates_use_the_y_bits() {
    let masks = [flags(SHORT_VECTOR_Y | IS_POSITIVE_Y | SHORT_VECTOR_X), flags(SHORT_VECTOR_Y), flags(IS_SAME_Y), flags(IS_SAME_X)];
    let mut file = FontFile::new(vec![9, 10, 0xFF, 0xFF]);
    assert_eq!(parse_glyph_y(&mut file, &masks), Ok(vec![9, -1, -1, -2]));
    assert_eq!(file.get_location(), 4);
}

#[test]
fn coordinates_truncated() {
    let masks = [flags(SHORT_VECTOR_X), flags(0)];
    let mut file = FontFile::new(vec![1, 2]);
    assert_eq!(parse_glyph_x(&mut file, &masks), Err(FontError::TruncatedData));
    let mut file = FontFile::new(vec![1, 2]);
    assert_eq!(parse_glyph_y(&mut file, &masks), Err(FontError::TruncatedData));
    let mut file = FontFile::new(vec![1, 2, 3, 4]);
    assert_eq!(parse_glyph_y(&mut file, &masks), Ok(vec![258, 258 + 772]));
}

#[test]
fn coordinates_that_store_nothing_need_no_bytes() {
    let masks = [flags(IS_SAME_X), flags(IS_SAME_X)];
    let mut file = FontFile::new(Vec::new());
    assert_eq!(file.goto(50), Ok(()));
    assert_eq!(parse_glyph_x(&mut file, &masks), Ok(vec![0, 0]));
    assert_eq!(file.get_location(), 50);
    assert_eq!(parse_glyph_x(&mut file, &[]), Ok(Vec::new()));
}

#[test]
fn decoding_twice_gives_the_same_coordinates() {
    let masks = [flags(SHORT_VECTOR_X | IS_POSITIVE_X), flags(0), flags(SHORT_VECTOR_X)];
    let bytes = vec![5, 0xFF, 0x00, 7];
    let mut file = FontFile::new(bytes.clone());
    let first = parse_glyph_x(&mut file, &masks);
    assert_eq!(file.goto(0), Ok(()));
    let second = parse_glyph_x(&mut file, &masks);
    assert_eq!(first, Ok(vec![5, 5 - 256, 5 - 256 - 7]));
    assert_eq!(first, second);
    let mut other = FontFile::new(bytes);
    assert_eq!(parse_glyph_x(&mut other, &masks), first);
}

#[test]
fn a_simple_glyph() {
    let bytes = glyph_bytes(1, &[2], &[0xB0, 0x01], &TRIANGLE);
    let mut file = FontFile::new(bytes);
    let glyph = parse_glyph(&mut file).unwrap();
    assert_eq!(glyph.contour_end_indices, vec![2]);
    assert_eq!(glyph.points, vec![point(10, 20, true), point(5, 320, true), point(5, 320, false)]);
    assert_eq!(file.get_location(), 10 + 2 + 2 + 2 + 9);
}

#[test]
fn a_glyph_at_a_later_position_with_two_contours() {
    let mut bytes = vec![0xEE; 3];
    bytes.extend_from_slice(&glyph_bytes(
        2,
        &[1, 3],
        &[],
        &[ON_CURVE | SHORT_VECTOR_X | SHORT_VECTOR_Y | IS_POSITIVE_X | IS_POSITIVE_Y | REPEAT, 3, 1, 2, 3, 4, 10, 20, 30, 40],
    ));
    let mut file = FontFile::new(bytes);
    assert_eq!(file.goto(3), Ok(()));
    let glyph = parse_glyph(&mut file).unwrap();
    assert_eq!(glyph.contour_end_indices, vec![1, 3]);
    assert_eq!(
        glyph.points,
        vec![point(1, 10, true), point(3, 30, true), point(6, 60, true), point(10, 100, true)]
    );
}

#[test]
fn a_composite_glyph_is_refused() {
    let mut file = FontFile::new(glyph_bytes(-1, &[], &[], &TRIANGLE));
    assert_eq!(parse_glyph(&mut file).err(), Some(FontError::CompositeGlyphUnsupported));
    let mut file = FontFile::new(vec![0x80, 0x00]);
    assert_eq!(parse_glyph(&mut file).err(), Some(FontError::CompositeGlyphUnsupported));
}

#[test]
fn a_glyph_without_contours_reads_one_point() {
    let mut file = FontFile::new(glyph_bytes(0, &[], &[], &[ON_CURVE | SHORT_VECTOR_X | IS_POSITIVE_X | IS_SAME_Y, 4]));
    let glyph = parse_glyph(&mut file).unwrap();
    assert_eq!(glyph.contour_end_indices, Vec::<usize>::new());
    assert_eq!(glyph.points, vec![point(4, 0, true)]);
    assert_eq!(try_build_outline(&glyph), Some(Vec::new()));
}

#[test]
fn glyph_truncated() {
    let bytes = glyph_bytes(1, &[2], &[0xB0, 0x01], &TRIANGLE);
    for cut in 0..bytes.len() {
        let mut file = FontFile::new(bytes[..cut].to_vec());
        assert_eq!(parse_glyph(&mut file).err(), Some(FontError::TruncatedData), "cut at {}", cut);
    }
}

#[test]
fn an_empty_glyph_has_no_points_and_no_contours() {
    let bytes = glyph_bytes(1, &[2], &[], &TRIANGLE);
    let locations = vec![0, 0, bytes.len() as u32];
    let mut file = FontFile::new(bytes);
    assert_eq!(file.goto(7), Ok(()));
    let glyph = parse_glyph_at(&mut file, &locations, 0).unwrap();
    assert_eq!(glyph.contour_end_indices, Vec::<usize>::new());
    assert_eq!(glyph.points, Vec::new());
    assert_eq!(file.get_location(), 7);
    assert_eq!(build_outline(&glyph), Vec::new());
    let glyph = parse_glyph_at(&mut file, &locations, 1).unwrap();
    assert_eq!(glyph.contour_end_indices, vec![2]);
    assert_eq!(glyph.points.len(), 3);
}

#[test]
fn glyph_by_index() {
    let mut bytes = glyph_bytes(1, &[0], &[], &[ON_CURVE | IS_SAME_X | IS_SAME_Y]);
    let second = bytes.len() as u32;
    bytes.extend_from_slice(&glyph_bytes(1, &[2], &[], &TRIANGLE));
    let locations = vec![0, second];
    let mut file = FontFile::new(bytes);
    let glyph = parse_glyph_at(&mut file, &locations, 1).unwrap();
    assert_eq!(glyph.points, vec![point(10, 20, true), point(5, 320, true), point(5, 320, false)]);
    let glyph = parse_glyph_at(&mut file, &locations, 0).unwrap();
    assert_eq!(glyph.points, vec![point(0, 0, true)]);
    assert_eq!(parse_glyph_at(&mut file, &locations, 2).err(), Some(FontError::GlyphNotFound));
    assert_eq!(parse_glyph_at(&mut file, &Vec::new(), 0).err(), Some(FontError::GlyphNotFound));
    let beyond = vec![1000];
    assert_eq!(parse_glyph_at(&mut file, &beyond, 0).err(), Some(FontError::TruncatedData));
}

#[test]
fn the_missing_glyph_resolves_to_an_outline() {
    let mappings = decode_groups(&vec![CodeGroup { start_char_code: 0x41, end_char_code: 0x41, start_glyph_id: 1 }]);
    let index = find_glyph(&mappings, 0xFFFF).unwrap();
    assert_eq!(index, 0);
    let bytes = glyph_bytes(1, &[2], &[], &TRIANGLE);
    let locations = vec![0, 0];
    let mut file = FontFile::new(bytes.clone());
    let empty = parse_glyph_at(&mut file, &locations, index).unwrap();
    assert!(empty.points.is_empty());
    assert!(empty.is_well_formed());
    let locations = vec![0, bytes.len() as u32];
    let drawn = parse_glyph_at(&mut file, &locations, index).unwrap();
    assert_eq!(drawn.points.len(), 3);
    assert!(drawn.is_well_formed());
}

#[test]
fn contours_become_closed_paths() {
    let glyph = GlyphData {
        contour_end_indices: vec![2, 3, 7],
        points: vec![
            point(0, 0, true),
            point(1, 1, false),
            point(2, 0, true),
            point(9, 9, true),
            point(10, 10, true),
            point(11, 11, false),
            point(12, 12, true),
            point(13, 13, false),
        ],
    };
    assert!(glyph.is_well_formed());
    let expected = vec![
        PathSegment::MoveTo { x: 0, y: 0 },
        PathSegment::QuadTo { x1: 1, y1: 1, x: 2, y: 0 },
        PathSegment::Close,
        PathSegment::MoveTo { x: 9, y: 9 },
        PathSegment::Close,
        PathSegment::MoveTo { x: 10, y: 10 },
        PathSegment::QuadTo { x1: 11, y1: 11, x: 12, y: 12 },
        PathSegment::QuadTo { x1: 13, y1: 13, x: 10, y: 10 },
        PathSegment::Close,
    ];
    assert_eq!(build_outline(&glyph), expected);
    assert_eq!(try_build_outline(&glyph), Some(expected));
}

#[test]
fn contours_must_divide_the_points() {
    let points = vec![point(0, 0, true), point(1, 1, false), point(2, 0, true)];
    let too_short = GlyphData { contour_end_indices: vec![1], points: points.clone() };
    assert!(!too_short.is_well_formed());
    assert_eq!(try_build_outline(&too_short), None);
    let too_long = GlyphData { contour_end_indices: vec![3], points: points.clone() };
    assert!(!too_long.is_well_formed());
    let descending = GlyphData { contour_end_indices: vec![2, 2], points: points.clone() };
    assert!(!descending.is_well_formed());
    assert_eq!(try_build_outline(&descending), None);
    let fine = GlyphData { contour_end_indices: vec![0, 2], points };
    assert!(fine.is_well_formed());
    let huge = GlyphData { contour_end_indices: vec![usize::MAX], points: Vec::new() };
    assert!(!huge.is_well_formed());
}

#[test]
fn render_errors_in_words() {
    assert_eq!(RenderError::FontNotLoaded.message(), "font not loaded");
    assert_eq!(RenderError::GlyphNotFound.message(), "glyph not found");
    assert_eq!(RenderError::OutlineError.message(), "could not outline glyph");
}

#[test]
fn from_codepoint_to_outline() {
    let mut bytes = glyph_bytes(1, &[0], &[], &[ON_CURVE | IS_SAME_X | IS_SAME_Y]);
    let second = bytes.len() as u32;
    bytes.extend_from_slice(&glyph_bytes(1, &[2], &[], &TRIANGLE));
    let locations = vec![0, second];
    let mappings = decode_groups(&vec![CodeGroup { start_char_code: 0x41, end_char_code: 0x42, start_glyph_id: 1 }]);
    let mut file = FontFile::new(bytes);
    let drawn = parse_glyph_for(&mut file, &mappings, &locations, 0x41).unwrap();
    assert_eq!(drawn.points, vec![point(10, 20, true), point(5, 320, true), point(5, 320, false)]);
    let missing = parse_glyph_for(&mut file, &mappings, &locations, 0xFFFF).unwrap();
    assert_eq!(missing.points, vec![point(0, 0, true)]);
    assert_eq!(parse_glyph_for(&mut file, &mappings, &locations, 0x42).err(), Some(FontError::GlyphNotFound));
    assert_eq!(parse_glyph_for(&mut file, &mappings, &locations, 0x43).err(), Some(FontError::GlyphNotFound));
}
