use fonterator::{
    crop_shaped, direction, emit_glyph_ops, find_table,
    get_font_offset_for_index, is_font, licenses, line_split, microsoft_eid, platform_id,
    read_i16_be, read_i32_be, read_u16_be, read_u32_be, render_shaped, visual_order, Direction,
    Font, FontError, FontInfo, MicrosoftEid, OutlineError, PathOp, PlatformId, ShapedGlyph,
    StyleState, TextAlign, Vertex, VertexType, BOLD, ITALIC, NONE,
};

fn push16(v: &mut Vec<u8>, x: u16) {
    v.extend_from_slice(&x.to_be_bytes());
}

fn push32(v: &mut Vec<u8>, x: u32) {
    v.extend_from_slice(&x.to_be_bytes());
}

fn pushi16(v: &mut Vec<u8>, x: i16) {
    v.extend_from_slice(&x.to_be_bytes());
}

/// Assemble a bare font from (tag, contents) pairs.
fn build_font(tables: &[(&[u8; 4], Vec<u8>)]) -> Vec<u8> {
    let n = tables.len();
    let mut font = Vec::new();
    push32(&mut font, 0x00010000);
    push16(&mut font, n as u16);
    push16(&mut font, 0);
    push16(&mut font, 0);
    push16(&mut font, 0);
    let mut offset = 12 + 16 * n as u32;
    let mut bodies: Vec<u8> = Vec::new();
    for (tag, body) in tables {
        font.extend_from_slice(&tag[..]);
        push32(&mut font, 0);
        push32(&mut font, offset);
        push32(&mut font, body.len() as u32);
        offset += body.len() as u32;
        bodies.extend_from_slice(body);
    }
    font.extend_from_slice(&bodies);
    font
}

fn make_head(upem: u16, index_to_loc_format: u16) -> Vec<u8> {
    let mut t = vec![0u8; 54];
    t[18..20].copy_from_slice(&upem.to_be_bytes());
    t[50..52].copy_from_slice(&index_to_loc_format.to_be_bytes());
    t
}

fn make_hhea(ascent: i16, descent: i16, line_gap: i16, num_long: u16) -> Vec<u8> {
    let mut t = vec![0u8; 36];
    t[4..6].copy_from_slice(&ascent.to_be_bytes());
    t[6..8].copy_from_slice(&descent.to_be_bytes());
    t[8..10].copy_from_slice(&line_gap.to_be_bytes());
    t[34..36].copy_from_slice(&num_long.to_be_bytes());
    t
}

fn make_maxp(num_glyphs: u16) -> Vec<u8> {
    let mut t = vec![0u8; 6];
    t[4..6].copy_from_slice(&num_glyphs.to_be_bytes());
    t
}

fn make_hmtx(long_metrics: &[(i16, i16)], trailing_lsb: &[i16]) -> Vec<u8> {
    let mut t = Vec::new();
    for (adv, lsb) in long_metrics {
        pushi16(&mut t, *adv);
        pushi16(&mut t, *lsb);
    }
    for lsb in trailing_lsb {
        pushi16(&mut t, *lsb);
    }
    t
}

fn make_loca(offsets: &[u32]) -> Vec<u8> {
    let mut t = Vec::new();
    for o in offsets {
        push32(&mut t, *o);
    }
    t
}

/// A cmap with one encoding record (Unicode platform) and one subtable.
fn make_cmap(subtable: Vec<u8>) -> Vec<u8> {
    let mut t = Vec::new();
    push16(&mut t, 0);
    push16(&mut t, 1);
    push16(&mut t, 0);
    push16(&mut t, 3);
    push32(&mut t, 12);
    t.extend_from_slice(&subtable);
    t
}

/// A format 4 subtable from (start, end, delta) segments.
fn make_cmap4(segments: &[(u16, u16, u16)]) -> Vec<u8> {
    let seg = segments.len() as u16;
    let mut t = Vec::new();
    push16(&mut t, 4);
    push16(&mut t, 16 + 8 * seg);
    push16(&mut t, 0);
    push16(&mut t, 2 * seg);
    push16(&mut t, 2);
    push16(&mut t, 1);
    push16(&mut t, 2 * seg - 2);
    for (_, end, _) in segments {
        push16(&mut t, *end);
    }
    push16(&mut t, 0);
    for (start, _, _) in segments {
        push16(&mut t, *start);
    }
    for (_, _, delta) in segments {
        push16(&mut t, *delta);
    }
    for _ in segments {
        push16(&mut t, 0);
    }
    t
}

/// A format 13 subtable from (start, end, glyph) groups.
fn make_cmap13(groups: &[(u32, u32, u32)]) -> Vec<u8> {
    let mut t = Vec::new();
    push16(&mut t, 13);
    push16(&mut t, 0);
    push32(&mut t, 0);
    push32(&mut t, 16 + 12 * groups.len() as u32);
    push32(&mut t, groups.len() as u32);
    for (start, end, glyph) in groups {
        push32(&mut t, *start);
        push32(&mut t, *end);
        push32(&mut t, *glyph);
    }
    t
}

/// A format 12 subtable from (start, end, start_glyph) groups.
fn make_cmap12(groups: &[(u32, u32, u32)]) -> Vec<u8> {
    let mut t = make_cmap13(groups);
    t[0..2].copy_from_slice(&12u16.to_be_bytes());
    t
}

/// A `kern` table with one horizontal format 0 subtable from
/// (left, right, value) pairs, which must be sorted by packed key.
fn make_kern(pairs: &[(u16, u16, i16)]) -> Vec<u8> {
    let mut t = Vec::new();
    push16(&mut t, 0);
    push16(&mut t, 1);
    push16(&mut t, 0);
    push16(&mut t, 14 + 6 * pairs.len() as u16);
    push16(&mut t, 1);
    push16(&mut t, pairs.len() as u16);
    push16(&mut t, 0);
    push16(&mut t, 0);
    push16(&mut t, 0);
    for (l, r, v) in pairs {
        push16(&mut t, *l);
        push16(&mut t, *r);
        pushi16(&mut t, *v);
    }
    t
}

/// A simple glyph: a 100x100 square of four on-curve points.
fn square_glyph() -> Vec<u8> {
    let mut g = Vec::new();
    pushi16(&mut g, 1);
    g.extend_from_slice(&[0u8; 8]);
    push16(&mut g, 3);
    push16(&mut g, 0);
    g.extend_from_slice(&[0x31, 0x33, 0x35, 0x23]);
    g.extend_from_slice(&[100, 100]);
    g.extend_from_slice(&[100]);
    g
}

fn square_vertices() -> Vec<(i16, i16, i16, i16, VertexType)> {
    vec![
        (0, 0, 0, 0, VertexType::MoveTo),
        (100, 0, 0, 0, VertexType::LineTo),
        (100, 100, 0, 0, VertexType::LineTo),
        (0, 100, 0, 0, VertexType::LineTo),
        (0, 0, 0, 0, VertexType::LineTo),
    ]
}

fn assert_vertices(vs: &[Vertex], expected: &[(i16, i16, i16, i16, VertexType)]) {
    assert_eq!(vs.len(), expected.len());
    for (v, e) in vs.iter().zip(expected.iter()) {
        assert_eq!((v.x, v.y, v.cx, v.cy, v.vertex_type()), *e);
    }
}

/// A composite glyph with one component: identity transform, zero offset.
fn identity_composite(component: u16) -> Vec<u8> {
    let mut g = Vec::new();
    pushi16(&mut g, -1);
    g.extend_from_slice(&[0u8; 8]);
    push16(&mut g, 0x0003);
    push16(&mut g, component);
    pushi16(&mut g, 0);
    pushi16(&mut g, 0);
    g
}

/// A glyph with one off-curve point: move, quadratic curve, closing line.
fn quad_glyph() -> Vec<u8> {
    let mut g = Vec::new();
    pushi16(&mut g, 1);
    g.extend_from_slice(&[0u8; 8]);
    push16(&mut g, 2);
    push16(&mut g, 0);
    g.extend_from_slice(&[0x31, 0x36, 0x17]);
    g.extend_from_slice(&[50, 50]);
    g.extend_from_slice(&[100, 100]);
    g
}

/// The standard test font: glyph 0 empty, glyph 1 a square, glyph 2 a
/// composite of glyph 1, glyph 3 a quadratic glyph.
fn test_font_bytes(cmap_sub: Vec<u8>, kern: Option<Vec<u8>>) -> Vec<u8> {
    let g1 = square_glyph();
    let g2 = identity_composite(1);
    let g3 = quad_glyph();
    let l1 = g1.len() as u32;
    let l2 = g2.len() as u32;
    let l3 = g3.len() as u32;
    let mut glyf = Vec::new();
    glyf.extend_from_slice(&g1);
    glyf.extend_from_slice(&g2);
    glyf.extend_from_slice(&g3);
    let loca = make_loca(&[0, 0, l1, l1 + l2, l1 + l2 + l3]);
    let mut tables: Vec<(&[u8; 4], Vec<u8>)> = vec![
        (b"cmap", make_cmap(cmap_sub)),
        (b"glyf", glyf),
        (b"head", make_head(1000, 1)),
        (b"hhea", make_hhea(800, -200, 20, 4)),
        (b"hmtx", make_hmtx(&[(400, 0), (500, 10), (600, 0), (700, 0)], &[])),
        (b"loca", loca),
        (b"maxp", make_maxp(4)),
    ];
    if let Some(k) = kern {
        tables.push((b"kern", k));
    }
    build_font(&tables)
}

fn all_chars_cmap() -> Vec<u8> {
    make_cmap13(&[(0x20, 0x7a, 1), (0xfffd, 0xfffd, 1)])
}

fn parse_test_font() -> FontInfo {
    FontInfo::new(test_font_bytes(all_chars_cmap(), None), 0).unwrap()
}

#[test]
fn readers_read_big_endian() {
    let d = [0x12u8, 0x34, 0xff, 0xfe, 0x80, 0x00, 0x01, 0x02];
    assert_eq!(read_u16_be(&d, 0), 0x1234);
    assert_eq!(read_u16_be(&d, 2), 0xfffe);
    assert_eq!(read_i16_be(&d, 2), -2);
    assert_eq!(read_i16_be(&d, 4), -32768);
    assert_eq!(read_u32_be(&d, 0), 0x1234fffe);
    assert_eq!(read_i32_be(&d, 2), i32::from_be_bytes([0xff, 0xfe, 0x80, 0x00]));
}

#[test]
fn recognizes_font_signatures() {
    assert!(is_font(b"OTTO rest"));
    assert!(is_font(b"true rest"));
    assert!(is_font(&[0x00, 0x01, 0x00, 0x00, 9, 9]));
    assert!(is_font(b"typ1"));
    assert!(is_font(&[b'1', 0, 0, 0]));
    assert!(!is_font(b"ttcf"));
    assert!(!is_font(b"ab"));
}

#[test]
fn font_offsets_in_collections() {
    let bare = test_font_bytes(all_chars_cmap(), None);
    assert_eq!(get_font_offset_for_index(&bare, 0), Some(0));
    assert_eq!(get_font_offset_for_index(&bare, 1), None);
    let mut ttc = Vec::new();
    ttc.extend_from_slice(b"ttcf");
    push32(&mut ttc, 0x00010000);
    push32(&mut ttc, 2);
    push32(&mut ttc, 0x20);
    push32(&mut ttc, 0x400);
    assert_eq!(get_font_offset_for_index(&ttc, 0), Some(0x20));
    assert_eq!(get_font_offset_for_index(&ttc, 1), Some(0x400));
    assert_eq!(get_font_offset_for_index(&ttc, 2), None);
    assert_eq!(get_font_offset_for_index(&ttc, -1), None);
    assert_eq!(get_font_offset_for_index(b"junk data here", 0), None);
}

#[test]
fn locates_tables_by_tag() {
    let font = test_font_bytes(all_chars_cmap(), None);
    // head is the third table: 12 + 16*7 header + cmap + glyf before it.
    let head = find_table(&font, 0, u32::from_be_bytes(*b"head")).unwrap();
    assert!(head != 0);
    assert_eq!(read_u16_be(&font, head as usize + 18), 1000);
    let absent = find_table(&font, 0, u32::from_be_bytes(*b"name")).unwrap();
    assert_eq!(absent, 0);
    assert_eq!(find_table(&[1, 2, 3], 0, 42), None);
}

#[test]
fn platform_and_encoding_ids() {
    assert_eq!(platform_id(0), Some(PlatformId::Unicode));
    assert_eq!(platform_id(3), Some(PlatformId::Microsoft));
    assert_eq!(platform_id(7), None);
    assert_eq!(microsoft_eid(1), Some(MicrosoftEid::UnicodeBMP));
    assert_eq!(microsoft_eid(10), Some(MicrosoftEid::UnicodeFull));
    assert_eq!(microsoft_eid(3), None);
}

#[test]
fn parses_a_well_formed_font() {
    let info = parse_test_font();
    assert_eq!(info.get_num_glyphs(), 4);
    assert_eq!(info.units_per_em(), 1000);
    assert_eq!(info.index_to_loc_format, 1);
    assert!(info.kern == 0);
}

#[test]
fn rejects_missing_required_table() {
    let font = build_font(&[
        (b"cmap", make_cmap(all_chars_cmap())),
        (b"head", make_head(1000, 1)),
        (b"hhea", make_hhea(800, -200, 20, 1)),
        (b"hmtx", make_hmtx(&[(400, 0)], &[])),
        (b"loca", make_loca(&[0, 0])),
        (b"maxp", make_maxp(1)),
    ]);
    assert_eq!(FontInfo::new(font, 0).unwrap_err(), FontError::IllFormed);
}

#[test]
fn rejects_unsupported_cmap_format() {
    let mut sub = Vec::new();
    push16(&mut sub, 2);
    sub.extend_from_slice(&[0u8; 16]);
    let font = test_font_bytes(sub, None);
    assert_eq!(FontInfo::new(font, 0).unwrap_err(), FontError::IllFormed);
}

#[test]
fn cmap_format4_lookup() {
    let sub = make_cmap4(&[
        (0x41, 0x5a, 0u16.wrapping_sub(0x40)),
        (0xfffd, 0xfffd, 2u16.wrapping_sub(0xfffd)),
        (0xffff, 0xffff, 1),
    ]);
    let info = FontInfo::new(test_font_bytes(sub, None), 0).unwrap();
    assert_eq!(info.find_glyph_index('A' as u32), 1);
    assert_eq!(info.find_glyph_index('B' as u32), 2);
    assert_eq!(info.find_glyph_index('Z' as u32), 26);
    assert_eq!(info.find_glyph_index(0x40), 0);
    assert_eq!(info.find_glyph_index(0x5b), 0);
    assert_eq!(info.find_glyph_index(0xfffd), 2);
    assert_eq!(info.find_glyph_index(0x10000), 0);
    assert_eq!(info.find_glyph_index(0xffffffff), 0);
}

#[test]
fn cmap_format0_lookup() {
    let mut sub = Vec::new();
    push16(&mut sub, 0);
    push16(&mut sub, 6 + 256);
    push16(&mut sub, 0);
    let mut map = [0u8; 256];
    map[b'A' as usize] = 1;
    map[b'q' as usize] = 3;
    sub.extend_from_slice(&map);
    let info = FontInfo::new(test_font_bytes(sub, None), 0).unwrap();
    assert_eq!(info.find_glyph_index('A' as u32), 1);
    assert_eq!(info.find_glyph_index('q' as u32), 3);
    assert_eq!(info.find_glyph_index('B' as u32), 0);
    assert_eq!(info.find_glyph_index(0x1234), 0);
}

#[test]
fn cmap_format6_lookup() {
    let mut sub = Vec::new();
    push16(&mut sub, 6);
    push16(&mut sub, 0);
    push16(&mut sub, 0);
    push16(&mut sub, 0x41);
    push16(&mut sub, 3);
    push16(&mut sub, 1);
    push16(&mut sub, 2);
    push16(&mut sub, 3);
    let info = FontInfo::new(test_font_bytes(sub, None), 0).unwrap();
    assert_eq!(info.find_glyph_index(0x41), 1);
    assert_eq!(info.find_glyph_index(0x43), 3);
    assert_eq!(info.find_glyph_index(0x44), 0);
    assert_eq!(info.find_glyph_index(0x40), 0);
}

#[test]
fn cmap_format12_lookup() {
    let sub = make_cmap12(&[(0x41, 0x44, 7), (0x1f600, 0x1f603, 100)]);
    let info = FontInfo::new(test_font_bytes(sub, None), 0).unwrap();
    assert_eq!(info.find_glyph_index(0x41), 7);
    assert_eq!(info.find_glyph_index(0x44), 10);
    assert_eq!(info.find_glyph_index(0x45), 0);
    assert_eq!(info.find_glyph_index(0x1f602), 102);
    assert_eq!(info.find_glyph_index(0x2f602), 0);
}

#[test]
fn cmap_lookup_is_deterministic() {
    let info = parse_test_font();
    for cp in [0x20u32, 0x41, 0x7a, 0x7b, 0xfffd, 0x10ffff] {
        let a = info.find_glyph_index(cp);
        let b = info.find_glyph_index(cp);
        assert_eq!(a, b);
    }
    assert_eq!(info.find_glyph_index(0x7b), 0);
}

#[test]
fn square_outline_decodes_exactly() {
    let info = parse_test_font();
    let vs = info.get_glyph_shape(1).unwrap().unwrap();
    assert_vertices(&vs, &square_vertices());
}

#[test]
fn quadratic_outline_decodes_exactly() {
    let info = parse_test_font();
    let vs = info.get_glyph_shape(3).unwrap().unwrap();
    assert_vertices(
        &vs,
        &[
            (0, 0, 0, 0, VertexType::MoveTo),
            (100, 0, 50, 100, VertexType::CurveTo),
            (0, 0, 0, 0, VertexType::LineTo),
        ],
    );
}

#[test]
fn empty_glyph_has_no_outline() {
    let info = parse_test_font();
    assert!(info.get_glyph_shape(0).unwrap().is_none());
}

#[test]
fn out_of_range_glyph_has_no_outline() {
    let info = parse_test_font();
    assert!(info.get_glyph_shape(99).unwrap().is_none());
}

#[test]
fn identity_composite_matches_component() {
    let info = parse_test_font();
    let component = info.get_glyph_shape(1).unwrap().unwrap();
    let composite = info.get_glyph_shape(2).unwrap().unwrap();
    assert_eq!(composite.len(), component.len());
    for (a, b) in composite.iter().zip(component.iter()) {
        assert_eq!(
            (a.x, a.y, a.cx, a.cy, a.vertex_type()),
            (b.x, b.y, b.cx, b.cy, b.vertex_type())
        );
    }
}

#[test]
fn every_glyph_index_decodes_or_reports() {
    let info = parse_test_font();
    for gi in 0..info.get_num_glyphs() {
        let shape = info.get_glyph_shape(gi);
        assert!(shape.is_ok());
        if let Ok(Some(vs)) = shape {
            // Every contour starts with a MoveTo and closes on its start.
            assert_eq!(vs[0].vertex_type(), VertexType::MoveTo);
            let mut start = (vs[0].x, vs[0].y);
            for i in 0..vs.len() {
                if vs[i].vertex_type() == VertexType::MoveTo {
                    start = (vs[i].x, vs[i].y);
                }
                let end_of_contour =
                    i + 1 == vs.len() || vs[i + 1].vertex_type() == VertexType::MoveTo;
                if end_of_contour {
                    assert!(vs[i].vertex_type() != VertexType::MoveTo);
                    assert_eq!((vs[i].x, vs[i].y), start);
                }
            }
        }
    }
}

#[test]
fn unsupported_contour_count_is_reported() {
    let mut bad = Vec::new();
    pushi16(&mut bad, -2);
    bad.extend_from_slice(&[0u8; 8]);
    let loca = make_loca(&[0, bad.len() as u32]);
    let font = build_font(&[
        (b"cmap", make_cmap(all_chars_cmap())),
        (b"glyf", bad),
        (b"head", make_head(1000, 1)),
        (b"hhea", make_hhea(800, -200, 20, 1)),
        (b"hmtx", make_hmtx(&[(400, 0)], &[])),
        (b"loca", loca),
        (b"maxp", make_maxp(1)),
    ]);
    let info = FontInfo::new(font, 0).unwrap();
    assert_eq!(info.get_glyph_shape(0).unwrap_err(), OutlineError::Unsupported);
}

#[test]
fn truncated_glyph_is_reported_not_panicked() {
    let mut bad = Vec::new();
    pushi16(&mut bad, 2);
    let loca = make_loca(&[0, 64]);
    let font = build_font(&[
        (b"cmap", make_cmap(all_chars_cmap())),
        (b"glyf", bad),
        (b"head", make_head(1000, 1)),
        (b"hhea", make_hhea(800, -200, 20, 1)),
        (b"hmtx", make_hmtx(&[(400, 0)], &[])),
        (b"loca", loca),
        (b"maxp", make_maxp(1)),
    ]);
    let info = FontInfo::new(font, 0).unwrap();
    assert_eq!(info.get_glyph_shape(0).unwrap_err(), OutlineError::Malformed);
}

#[test]
fn horizontal_metrics_with_trailing_bearings() {
    let g1 = square_glyph();
    let loca = make_loca(&[0, 0, g1.len() as u32, g1.len() as u32, g1.len() as u32]);
    let font = build_font(&[
        (b"cmap", make_cmap(all_chars_cmap())),
        (b"glyf", g1),
        (b"head", make_head(1000, 1)),
        (b"hhea", make_hhea(800, -200, 20, 2)),
        (b"hmtx", make_hmtx(&[(400, 1), (500, 2)], &[33, 44])),
        (b"loca", loca),
        (b"maxp", make_maxp(4)),
    ]);
    let info = FontInfo::new(font, 0).unwrap();
    let m0 = info.get_glyph_h_metrics(0);
    assert_eq!((m0.advance_width, m0.left_side_bearing), (400, 1));
    let m1 = info.get_glyph_h_metrics(1);
    assert_eq!((m1.advance_width, m1.left_side_bearing), (500, 2));
    let m2 = info.get_glyph_h_metrics(2);
    assert_eq!((m2.advance_width, m2.left_side_bearing), (500, 33));
    let m3 = info.get_glyph_h_metrics(3);
    assert_eq!((m3.advance_width, m3.left_side_bearing), (500, 44));
}

#[test]
fn vertical_metrics() {
    let info = parse_test_font();
    let vm = info.get_v_metrics();
    assert_eq!((vm.ascent, vm.descent, vm.line_gap), (800, -200, 20));
}

#[test]
fn kerning_exact_pair_and_no_symmetry() {
    let kern = make_kern(&[(1, 2, 50), (3, 1, -20)]);
    let info = FontInfo::new(test_font_bytes(all_chars_cmap(), Some(kern)), 0).unwrap();
    assert_eq!(info.get_glyph_kern_advance(1, 2), 50);
    assert_eq!(info.get_glyph_kern_advance(2, 1), 0);
    assert_eq!(info.get_glyph_kern_advance(3, 1), -20);
    assert_eq!(info.get_glyph_kern_advance(1, 3), 0);
}

#[test]
fn absent_kern_reports_zero() {
    let info = parse_test_font();
    assert_eq!(info.get_glyph_kern_advance(1, 2), 0);
}

#[test]
fn direction_classes() {
    assert_eq!(direction('A'), Direction::LeftRight);
    assert_eq!(direction('\u{5d0}'), Direction::RightLeft);
    assert_eq!(direction('\u{627}'), Direction::RightLeft);
    assert_eq!(direction(' '), Direction::CheckNext);
    assert_eq!(direction('3'), Direction::CheckNext);
}

#[test]
fn rtl_run_is_reversed_in_place() {
    let text = vec!['A', '\u{5d0}', '\u{5d1}', 'B'];
    let vis = visual_order(&text);
    assert_eq!(vis, vec!['A', '\u{5d1}', '\u{5d0}', 'B']);
}

#[test]
fn ltr_text_keeps_its_order() {
    let text: Vec<char> = "Hi there".chars().collect();
    assert_eq!(visual_order(&text), text);
}

#[test]
fn trailing_rtl_run_is_flushed_reversed() {
    let text = vec!['A', '\u{5d0}', '\u{5d1}'];
    assert_eq!(visual_order(&text), vec!['A', '\u{5d1}', '\u{5d0}']);
}

fn layout_font() -> Font {
    Font::new().push(test_font_bytes(all_chars_cmap(), None)).unwrap()
}

#[test]
fn glyph_fallback_prefers_earliest_font() {
    // Font 0 maps only 'A' (and the replacement character); font 1 maps 'Z'.
    let f0 = test_font_bytes(
        make_cmap4(&[
            (0x41, 0x41, 1u16.wrapping_sub(0x41)),
            (0xfffd, 0xfffd, 2u16.wrapping_sub(0xfffd)),
            (0xffff, 0xffff, 1),
        ]),
        None,
    );
    let f1 = test_font_bytes(
        make_cmap4(&[(0x5a, 0x5a, 3u16.wrapping_sub(0x5a)), (0xffff, 0xffff, 1)]),
        None,
    );
    let font = Font::new().push(f0).unwrap().push(f1).unwrap();
    assert_eq!(font.resolve_glyph('A').unwrap(), (0, 1));
    assert_eq!(font.resolve_glyph('Z').unwrap(), (1, 3));
    // Absent from every font: the primary font's replacement glyph.
    assert_eq!(font.resolve_glyph('Q').unwrap(), (0, 2));
}

#[test]
fn missing_replacement_is_an_error() {
    let f0 = test_font_bytes(
        make_cmap4(&[(0x41, 0x41, 1u16.wrapping_sub(0x41)), (0xffff, 0xffff, 1)]),
        None,
    );
    let font = Font::new().push(f0).unwrap();
    assert!(font.resolve_glyph('A').is_ok());
    assert!(font.resolve_glyph('Q').is_err());
}

#[test]
fn push_rejects_unsorted_cmap() {
    // Segment end counts out of order.
    let sub = make_cmap4(&[(0x50, 0x50, 1), (0x41, 0x41, 1), (0xffff, 0xffff, 1)]);
    let bytes = test_font_bytes(sub, None);
    assert!(FontInfo::new(bytes.clone(), 0).is_ok());
    assert!(Font::new().push(bytes).is_none());
}

#[test]
fn push_rejects_non_font_bytes() {
    assert!(Font::new().push(b"not a font at all".to_vec()).is_none());
}

#[test]
fn line_wrap_prefers_the_space() {
    let font = layout_font();
    let text: Vec<char> = "hello world".chars().collect();
    // Each glyph advances 500/1000 of the character size: 32768 at 1 px.
    let wh = (65536, 65536);
    let width = 6 * 32768;
    let (brk, len) = font.measure_line(&text, wh, width).unwrap();
    assert_eq!(brk, Some(6));
    assert_eq!(len, 7 * 32768);
    // The remainder fits on its own line.
    let rest: Vec<char> = text[6..].to_vec();
    let (brk2, len2) = font.measure_line(&rest, wh, width).unwrap();
    assert_eq!(brk2, None);
    assert_eq!(len2, 5 * 32768);
}

#[test]
fn render_consumes_and_resumes() {
    let font = layout_font();
    let text: Vec<char> = "hello world".chars().collect();
    let bbox = (0i64, 0i64, 6 * 32768i64, 10 * 65536i64);
    let wh = (65536i64, 65536i64);
    let (_, consumed) = font.render(&text, bbox, wh, TextAlign::Left).unwrap();
    assert_eq!(consumed, 6);
    let rest: Vec<char> = text[consumed..].to_vec();
    let (_, consumed2) = font.render(&rest, bbox, wh, TextAlign::Left).unwrap();
    assert_eq!(consumed2, rest.len());
}

#[test]
fn newline_splits_the_line() {
    let font = layout_font();
    let text: Vec<char> = "ab\ncd".chars().collect();
    let (brk, _) = font.measure_line(&text, (65536, 65536), 100 * 65536).unwrap();
    assert_eq!(brk, Some(2));
}

#[test]
fn centered_line_starts_at_half_the_slack() {
    let font = layout_font();
    let text: Vec<char> = "AB".chars().collect();
    let w = 10 * 65536i64;
    let measured = 2 * 32768i64;
    let bbox = (0i64, 0i64, w, 5 * 65536i64);
    let wh = (65536i64, 65536i64);
    let (mut it, _) = font.render(&text, bbox, wh, TextAlign::Center).unwrap();
    // Glyph 1's outline starts at (0, 0), so the first Move is the pen start.
    match it.next_op().unwrap() {
        PathOp::Move(x, _) => assert_eq!(x, (w - measured) / 2),
        other => panic!("expected a Move, got {:?}", other),
    }
}

#[test]
fn right_alignment_flushes_right() {
    let font = layout_font();
    let text: Vec<char> = "AB".chars().collect();
    let w = 10 * 65536i64;
    let bbox = (0i64, 0i64, w, 5 * 65536i64);
    let wh = (65536i64, 65536i64);
    let (mut it, _) = font.render(&text, bbox, wh, TextAlign::Right).unwrap();
    match it.next_op().unwrap() {
        PathOp::Move(x, _) => assert_eq!(x, w - 2 * 32768),
        other => panic!("expected a Move, got {:?}", other),
    }
}

#[test]
fn rendered_ops_are_closed_contours() {
    let font = layout_font();
    let text: Vec<char> = "AB".chars().collect();
    let bbox = (0i64, 0i64, 100 * 65536i64, 5 * 65536i64);
    let wh = (65536i64, 65536i64);
    let (mut it, _) = font.render(&text, bbox, wh, TextAlign::Left).unwrap();
    let mut ops = Vec::new();
    while let Some(op) = it.next_op() {
        ops.push(op);
    }
    assert!(!ops.is_empty());
    assert!(matches!(ops[0], PathOp::Move(_, _)));
    assert!(matches!(ops[ops.len() - 1], PathOp::Close));
    for i in 0..ops.len() {
        if i > 0 && matches!(ops[i], PathOp::Move(_, _)) {
            assert!(matches!(ops[i - 1], PathOp::Close));
        }
        if matches!(ops[i], PathOp::Close) && i + 1 < ops.len() {
            assert!(matches!(ops[i + 1], PathOp::Move(_, _)));
        }
    }
}

#[test]
fn mixed_direction_render_emits_reversed_run() {
    // Four distinguishable glyphs through four fonts is overkill; instead
    // check via advances: all glyphs advance equally, so the emitted x
    // positions are increasing regardless of logical order, while the
    // logical-to-visual order itself is covered by visual_order tests.
    let font = layout_font();
    let text = vec!['A', '\u{5d0}', '\u{5d1}', 'B'];
    // The Hebrew range is absent from the font, so it falls back to the
    // replacement glyph; rendering must still succeed.
    let bbox = (0i64, 0i64, 100 * 65536i64, 5 * 65536i64);
    let wh = (65536i64, 65536i64);
    let (_, consumed) = font.render(&text, bbox, wh, TextAlign::Left).unwrap();
    assert_eq!(consumed, 4);
}

#[test]
fn vertical_mode_advances_downward() {
    let font = layout_font();
    let text: Vec<char> = "AB".chars().collect();
    let bbox = (0i64, 0i64, 100 * 65536i64, 100 * 65536i64);
    let wh = (65536i64, 65536i64);
    let (mut it, _) = font.render(&text, bbox, wh, TextAlign::Vertical).unwrap();
    let mut moves = Vec::new();
    while let Some(op) = it.next_op() {
        if let PathOp::Move(x, y) = op {
            moves.push((x, y));
        }
    }
    assert_eq!(moves.len(), 2);
    assert_eq!(moves[0].0, moves[1].0);
    assert_eq!(moves[1].1 - moves[0].1, 65536);
}

#[test]
fn style_flags_toggle_per_control_codepoint() {
    let s = StyleState::start();
    assert!(!s.bold && !s.italic);
    let s = s.apply_control(BOLD);
    assert!(s.bold && !s.italic);
    let s = s.apply_control(ITALIC);
    assert!(s.bold && s.italic);
    let s = s.apply_control('x');
    assert!(s.bold && s.italic);
    let s = s.apply_control(NONE);
    assert!(!s.bold && !s.italic);
}

#[test]
fn control_codepoints_consume_no_advance() {
    let font = layout_font();
    let plain: Vec<char> = "AB".chars().collect();
    let styled = vec![BOLD, 'A', ITALIC, 'B', NONE];
    let (_, len_plain) = font.measure_line(&plain, (65536, 65536), 1 << 40).unwrap();
    let (_, len_styled) = font.measure_line(&styled, (65536, 65536), 1 << 40).unwrap();
    assert_eq!(len_plain, len_styled);
}

#[test]
fn line_split_at_newline() {
    let text: Vec<char> = "ab\ncd".chars().collect();
    assert_eq!(line_split(&text), (2, Some(3)));
    let text2: Vec<char> = "abcd".chars().collect();
    assert_eq!(line_split(&text2), (4, None));
}

#[test]
fn crop_against_row_limit() {
    let mk = |x_offset: i32, cluster: u32| ShapedGlyph {
        glyph_id: 1,
        cluster,
        x_advance: 500,
        y_advance: 0,
        x_offset,
        y_offset: 0,
    };
    let glyphs = vec![mk(0, 0), mk(500, 1), mk(1000, 2)];
    assert_eq!(crop_shaped(&glyphs, 700), (2, Some(2)));
    assert_eq!(crop_shaped(&glyphs, 5000), (3, None));
}

#[test]
fn shaped_run_renders_with_accumulated_advances() {
    let font = layout_font();
    let f = &font.fonts[0];
    let mk = |cluster: u32| ShapedGlyph {
        glyph_id: 1,
        cluster,
        x_advance: 500,
        y_advance: 0,
        x_offset: 0,
        y_offset: 0,
    };
    let glyphs = vec![mk(0), mk(1), mk(2)];
    let (mut it, adv_x, adv_y) = render_shaped(f, &glyphs, 3, (65536, 65536));
    assert_eq!((adv_x, adv_y), (1500, 0));
    let mut moves = Vec::new();
    while let Some(op) = it.next_op() {
        if let PathOp::Move(x, y) = op {
            moves.push((x, y));
        }
    }
    // Glyph origins at 0, 500, 1000 font units, scaled by 65536/1000.
    assert_eq!(moves.len(), 3);
    assert_eq!(moves[0].0, 0);
    assert_eq!(moves[1].0, 500 * 65536 / 1000);
    assert_eq!(moves[2].0, 1000 * 65536 / 1000);
}

#[test]
fn emitted_glyph_ops_scale_vertices() {
    let info = parse_test_font();
    let vs = info.get_glyph_shape(1).unwrap().unwrap();
    let mut ops = Vec::new();
    emit_glyph_ops(&vs, 65536, -65536, 1000, 7, 9, &mut ops);
    assert_eq!(ops.len(), 6);
    assert!(matches!(ops[0], PathOp::Move(7, 9)));
    // (100, 0) scales to (6553, 0), flipped in y, plus the base.
    assert!(matches!(ops[1], PathOp::Line(x, y) if x == 6553 + 7 && y == 9));
    assert!(matches!(ops[5], PathOp::Close));
}

#[test]
fn licenses_text_is_empty() {
    assert_eq!(licenses(), "");
}

#[test]
fn big_endian_spec_consistency() {
    // The exec readers agree with std's big-endian decoding on a sample.
    let d = [0x01u8, 0x80, 0x7f, 0xff, 0x00, 0x10, 0xab, 0xcd];
    assert_eq!(read_u32_be(&d, 4), u32::from_be_bytes([0x00, 0x10, 0xab, 0xcd]));
    assert_eq!(read_i16_be(&d, 1), i16::from_be_bytes([0x80, 0x7f]));
}

#[test]
fn kerning_shortens_measured_length() {
    // Every character maps to glyph 1; the pair (1, 1) kerns by -100.
    let kern = make_kern(&[(1, 1, -100)]);
    let font = Font::new()
        .push(test_font_bytes(all_chars_cmap(), Some(kern)))
        .unwrap();
    let text: Vec<char> = "AA".chars().collect();
    let (_, len) = font.measure_line(&text, (65536, 65536), 1 << 40).unwrap();
    // First A: 500 units; second A: 500 - 100 units; scaled by 65536/1000.
    assert_eq!(len, 32768 + 400 * 65536 / 1000);
}

/// A format 4 subtable whose only real segment reads the glyph through the
/// indexed glyph array (a nonzero idRangeOffset).
fn make_cmap4_with_range_offset(range_offset: u16, glyph: u16) -> Vec<u8> {
    let mut t = Vec::new();
    push16(&mut t, 4);
    push16(&mut t, 34);
    push16(&mut t, 0);
    push16(&mut t, 4);
    push16(&mut t, 4);
    push16(&mut t, 1);
    push16(&mut t, 0);
    push16(&mut t, 0x41);
    push16(&mut t, 0xffff);
    push16(&mut t, 0);
    push16(&mut t, 0x41);
    push16(&mut t, 0xffff);
    push16(&mut t, 0);
    push16(&mut t, 1);
    push16(&mut t, range_offset);
    push16(&mut t, 0);
    push16(&mut t, glyph);
    t
}

#[test]
fn cmap_format4_indexed_glyph_array() {
    // The glyph array entry sits 4 bytes after its idRangeOffset entry.
    let info = FontInfo::new(
        test_font_bytes(make_cmap4_with_range_offset(4, 3), None),
        0,
    )
    .unwrap();
    assert_eq!(info.find_glyph_index(0x41), 3);
    assert_eq!(info.find_glyph_index(0x42), 0);
}

#[test]
fn cmap_format4_range_offset_out_of_bounds() {
    let info = FontInfo::new(
        test_font_bytes(make_cmap4_with_range_offset(60000, 3), None),
        0,
    )
    .unwrap();
    assert_eq!(info.find_glyph_index(0x41), 0);
}

/// A contour that starts on an off-curve point, whose next point is on.
fn off_curve_start_glyph() -> Vec<u8> {
    let mut g = Vec::new();
    pushi16(&mut g, 1);
    g.extend_from_slice(&[0u8; 8]);
    push16(&mut g, 2);
    push16(&mut g, 0);
    g.extend_from_slice(&[0x36, 0x07, 0x33]);
    g.extend_from_slice(&[50, 50, 100]);
    g.extend_from_slice(&[100, 100]);
    g
}

/// A contour that starts on two off-curve points, forcing a synthesized
/// on-curve midpoint start.
fn double_off_start_glyph() -> Vec<u8> {
    let mut g = Vec::new();
    pushi16(&mut g, 1);
    g.extend_from_slice(&[0u8; 8]);
    push16(&mut g, 2);
    push16(&mut g, 0);
    g.extend_from_slice(&[0x34, 0x32, 0x07]);
    g.extend_from_slice(&[100, 50]);
    g.extend_from_slice(&[100, 100]);
    g
}

/// A composite of glyph 1 with a plain scale of one half.
fn scaled_composite(component: u16) -> Vec<u8> {
    let mut g = Vec::new();
    pushi16(&mut g, -1);
    g.extend_from_slice(&[0u8; 8]);
    push16(&mut g, 0x000b);
    push16(&mut g, component);
    pushi16(&mut g, 0);
    pushi16(&mut g, 0);
    pushi16(&mut g, 8192);
    g
}

fn one_glyph_font(glyph: Vec<u8>) -> Vec<u8> {
    let square = square_glyph();
    let l1 = square.len() as u32;
    let l2 = glyph.len() as u32;
    let mut glyf = square.clone();
    glyf.extend_from_slice(&glyph);
    build_font(&[
        (b"cmap", make_cmap(all_chars_cmap())),
        (b"glyf", glyf),
        (b"head", make_head(1000, 1)),
        (b"hhea", make_hhea(800, -200, 20, 3)),
        (b"hmtx", make_hmtx(&[(400, 0), (500, 0), (600, 0)], &[])),
        (b"loca", make_loca(&[0, l1, l1 + l2])),
        (b"maxp", make_maxp(2)),
    ])
}

#[test]
fn off_curve_start_uses_next_on_point() {
    // Glyph 1 here is the square; glyph 1 of this font is the off-curve one.
    let font = build_font(&[
        (b"cmap", make_cmap(all_chars_cmap())),
        (b"glyf", off_curve_start_glyph()),
        (b"head", make_head(1000, 1)),
        (b"hhea", make_hhea(800, -200, 20, 1)),
        (b"hmtx", make_hmtx(&[(400, 0)], &[])),
        (b"loca", make_loca(&[0, off_curve_start_glyph().len() as u32])),
        (b"maxp", make_maxp(1)),
    ]);
    let info = FontInfo::new(font, 0).unwrap();
    let vs = info.get_glyph_shape(0).unwrap().unwrap();
    assert_vertices(
        &vs,
        &[
            (0, 0, 0, 0, VertexType::MoveTo),
            (100, 0, 0, 0, VertexType::LineTo),
            (0, 0, 50, 100, VertexType::CurveTo),
        ],
    );
}

#[test]
fn double_off_curve_start_synthesizes_midpoint() {
    let font = build_font(&[
        (b"cmap", make_cmap(all_chars_cmap())),
        (b"glyf", double_off_start_glyph()),
        (b"head", make_head(1000, 1)),
        (b"hhea", make_hhea(800, -200, 20, 1)),
        (b"hmtx", make_hmtx(&[(400, 0)], &[])),
        (b"loca", make_loca(&[0, double_off_start_glyph().len() as u32])),
        (b"maxp", make_maxp(1)),
    ]);
    let info = FontInfo::new(font, 0).unwrap();
    let vs = info.get_glyph_shape(0).unwrap().unwrap();
    assert_vertices(
        &vs,
        &[
            (50, 100, 0, 0, VertexType::MoveTo),
            (50, 0, 100, 100, VertexType::CurveTo),
            (50, 100, 0, 100, VertexType::CurveTo),
        ],
    );
}

#[test]
fn scaled_composite_applies_fixed_point_transform() {
    // The component transform applies the matrix and the column magnitude,
    // so a half scale contributes a quarter-size square.
    let info = FontInfo::new(one_glyph_font(scaled_composite(0)), 0).unwrap();
    let vs = info.get_glyph_shape(1).unwrap().unwrap();
    assert_vertices(
        &vs,
        &[
            (0, 0, 0, 0, VertexType::MoveTo),
            (25, 0, 0, 0, VertexType::LineTo),
            (25, 25, 0, 0, VertexType::LineTo),
            (0, 25, 0, 0, VertexType::LineTo),
            (0, 0, 0, 0, VertexType::LineTo),
        ],
    );
}

#[test]
fn parses_collection_member() {
    let bare = test_font_bytes(all_chars_cmap(), None);
    // A collection holding one font: header, one offset, then the font with
    // its directory offsets shifted by the header size.
    let shift = 16u32;
    let mut ttc = Vec::new();
    ttc.extend_from_slice(b"ttcf");
    push32(&mut ttc, 0x00010000);
    push32(&mut ttc, 1);
    push32(&mut ttc, shift);
    let mut shifted = bare.clone();
    let num_tables = u16::from_be_bytes([bare[4], bare[5]]) as usize;
    for t in 0..num_tables {
        let rec = 12 + 16 * t + 8;
        let off = u32::from_be_bytes([bare[rec], bare[rec + 1], bare[rec + 2], bare[rec + 3]]);
        shifted[rec..rec + 4].copy_from_slice(&(off + shift).to_be_bytes());
    }
    ttc.extend_from_slice(&shifted);
    let start = get_font_offset_for_index(&ttc, 0).unwrap();
    assert_eq!(start, shift);
    let info = FontInfo::new(ttc, start as usize).unwrap();
    assert_eq!(info.get_num_glyphs(), 4);
    assert_eq!(info.find_glyph_index('A' as u32), 1);
}

#[test]
fn hard_break_without_a_space() {
    let font = layout_font();
    let text: Vec<char> = "AB".chars().collect();
    let (brk, _) = font.measure_line(&text, (65536, 65536), 1).unwrap();
    assert_eq!(brk, Some(0));
}

#[test]
fn empty_text_renders_nothing() {
    let font = layout_font();
    let text: Vec<char> = Vec::new();
    let bbox = (0i64, 0i64, 65536i64, 65536i64);
    let (mut it, consumed) = font.render(&text, bbox, (65536, 65536), TextAlign::Left).unwrap();
    assert_eq!(consumed, 0);
    assert!(it.next_op().is_none());
}

#[test]
fn style_codepoints_render_no_geometry() {
    let font = layout_font();
    let plain: Vec<char> = "A".chars().collect();
    let styled = vec![BOLD, 'A', NONE];
    let bbox = (0i64, 0i64, 100 * 65536i64, 5 * 65536i64);
    let wh = (65536i64, 65536i64);
    let (mut a, _) = font.render(&plain, bbox, wh, TextAlign::Left).unwrap();
    let (mut b, _) = font.render(&styled, bbox, wh, TextAlign::Left).unwrap();
    let mut ops_a = Vec::new();
    while let Some(op) = a.next_op() {
        ops_a.push(op);
    }
    let mut ops_b = Vec::new();
    while let Some(op) = b.next_op() {
        ops_b.push(op);
    }
    assert_eq!(ops_a, ops_b);
}

#[test]
fn tab_advances_without_geometry() {
    let font = layout_font();
    let text = vec!['\t', 'A'];
    let wh = (65536i64, 65536i64);
    let (brk, len) = font.measure_line(&text, wh, 1 << 40).unwrap();
    assert_eq!(brk, None);
    // Four vertical-metric units for the tab, half a pixel for the glyph.
    assert_eq!(len, 4 * 65536 + 32768);
    let bbox = (0i64, 0i64, 100 * 65536i64, 5 * 65536i64);
    let (mut it, _) = font.render(&text, bbox, wh, TextAlign::Left).unwrap();
    match it.next_op().unwrap() {
        PathOp::Move(x, _) => assert_eq!(x, 4 * 65536),
        other => panic!("expected a Move, got {:?}", other),
    }
}

/// Two square contours; the second starts with a signed 16-bit x delta.
fn two_contour_glyph() -> Vec<u8> {
    let mut g = Vec::new();
    pushi16(&mut g, 2);
    g.extend_from_slice(&[0u8; 8]);
    push16(&mut g, 3);
    push16(&mut g, 7);
    push16(&mut g, 0);
    g.extend_from_slice(&[0x31, 0x33, 0x35, 0x23, 0x05, 0x33, 0x35, 0x23]);
    g.extend_from_slice(&[100, 100]);
    pushi16(&mut g, 200);
    g.extend_from_slice(&[100, 100]);
    g.extend_from_slice(&[100, 100, 100]);
    g
}

#[test]
fn two_contours_decode_in_order() {
    let font = build_font(&[
        (b"cmap", make_cmap(all_chars_cmap())),
        (b"glyf", two_contour_glyph()),
        (b"head", make_head(1000, 1)),
        (b"hhea", make_hhea(800, -200, 20, 1)),
        (b"hmtx", make_hmtx(&[(400, 0)], &[])),
        (b"loca", make_loca(&[0, two_contour_glyph().len() as u32])),
        (b"maxp", make_maxp(1)),
    ]);
    let info = FontInfo::new(font, 0).unwrap();
    let vs = info.get_glyph_shape(0).unwrap().unwrap();
    let mut expected = square_vertices();
    expected.extend_from_slice(&[
        (200, 0, 0, 0, VertexType::MoveTo),
        (300, 0, 0, 0, VertexType::LineTo),
        (300, 100, 0, 0, VertexType::LineTo),
        (200, 100, 0, 0, VertexType::LineTo),
        (200, 0, 0, 0, VertexType::LineTo),
    ]);
    assert_vertices(&vs, &expected);
}

/// A composite of glyph 1 with a word offset and no scale.
fn offset_composite(component: u16, dx: i16, dy: i16) -> Vec<u8> {
    let mut g = Vec::new();
    pushi16(&mut g, -1);
    g.extend_from_slice(&[0u8; 8]);
    push16(&mut g, 0x0003);
    push16(&mut g, component);
    pushi16(&mut g, dx);
    pushi16(&mut g, dy);
    g
}

#[test]
fn offset_composite_translates_component() {
    let info = FontInfo::new(one_glyph_font(offset_composite(0, 30, 40)), 0).unwrap();
    let vs = info.get_glyph_shape(1).unwrap().unwrap();
    let base = square_vertices();
    assert_eq!(vs.len(), base.len());
    for (v, e) in vs.iter().zip(base.iter()) {
        assert_eq!((v.x, v.y), (e.0 + 30, e.1 + 40));
        assert_eq!(v.vertex_type(), e.4);
    }
}

#[test]
fn composite_without_xy_flag_is_unsupported() {
    let mut g = Vec::new();
    pushi16(&mut g, -1);
    g.extend_from_slice(&[0u8; 8]);
    push16(&mut g, 0x0001);
    push16(&mut g, 0);
    pushi16(&mut g, 0);
    pushi16(&mut g, 0);
    let info = FontInfo::new(one_glyph_font(g), 0).unwrap();
    assert_eq!(info.get_glyph_shape(1).unwrap_err(), OutlineError::Unsupported);
}
