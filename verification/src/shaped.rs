//! Layout of pre-shaped glyph runs: the interface for text that an external
//! shaping engine has already turned into positioned glyphs (one record per
//! glyph: id, source cluster, advances and offsets, all in font design
//! units).  The crate decides where a line ends, where rendering is cropped
//! against the row limit, and emits each glyph's outline at its accumulated
//! position.

use vstd::prelude::*;
use crate::layout::{StyledFont, TextPathIterator, styled_wf};
use crate::glyf::{spec_glyph_shape, tdiv, COMPONENT_DEPTH};
use crate::ops::{emit_glyph_ops, spec_glyph_ops, wf_ops, PathOp};

verus! {

/// One glyph of a shaped run, in font design units.
#[derive(Clone, Copy, Debug, PartialEq, Eq, Structural)]
pub struct ShapedGlyph {
    /// The glyph to draw.
    pub glyph_id: u32,
    /// The character position this glyph came from.
    pub cluster: u32,
    /// Pen advance in x after this glyph.
    pub x_advance: i32,
    /// Pen advance in y after this glyph.
    pub y_advance: i32,
    /// Drawing offset in x, not accumulated.
    pub x_offset: i32,
    /// Drawing offset in y, not accumulated.
    pub y_offset: i32,
}

/// The position of the first newline at or after `i`, or the length.
pub open spec fn spec_first_newline(chars: Seq<char>, i: int) -> int
    decreases chars.len() - i,
{
    if i < 0 || i >= chars.len() {
        chars.len() as int
    } else if chars[i] == '\n' {
        i
    } else {
        spec_first_newline(chars, i + 1)
    }
}

/// Split one line off the text: the prefix before the first newline is
/// shaped and rendered, and rendering resumes after the newline.  Returns
/// the prefix length and, when a newline was found, the resume position.
pub fn line_split(text: &Vec<char>) -> (r: (usize, Option<usize>))
    ensures
        r.0 == spec_first_newline(text@, 0),
        spec_first_newline(text@, 0) < text@.len() ==> r.1 == Some((r.0 + 1) as usize),
        spec_first_newline(text@, 0) == text@.len() ==> r.1 is None,
{
    let n = text.len();
    let mut i: usize = 0;
    while i < n
        invariant
            n == text@.len(),
            i <= n,
            spec_first_newline(text@, 0) == spec_first_newline(text@, i as int),
        decreases n - i,
    {
        if text[i] == '\n' {
            return (i, Some(i + 1));
        }
        i = i + 1;
    }
    (n, None)
}

/// The first glyph whose x offset passes the row limit, at or after `g`, or
/// the run length: rendering stops there.
pub open spec fn spec_crop_point(glyphs: Seq<ShapedGlyph>, row: int, g: int) -> int
    decreases glyphs.len() - g,
{
    if g < 0 || g >= glyphs.len() {
        glyphs.len() as int
    } else if glyphs[g].x_offset > row {
        g
    } else {
        spec_crop_point(glyphs, row, g + 1)
    }
}

/// Find where a shaped run must be cropped against the fixed row limit:
/// the number of glyphs to draw and, when the run was cropped, the cluster
/// (character position) where rendering should resume.
pub fn crop_shaped(glyphs: &Vec<ShapedGlyph>, row: i32) -> (r: (usize, Option<u32>))
    ensures
        r.0 == spec_crop_point(glyphs@, row as int, 0),
        spec_crop_point(glyphs@, row as int, 0) < glyphs@.len() ==> r.1 == Some(
            glyphs@[spec_crop_point(glyphs@, row as int, 0)].cluster,
        ),
        spec_crop_point(glyphs@, row as int, 0) == glyphs@.len() ==> r.1 is None,
{
    let n = glyphs.len();
    let mut g: usize = 0;
    while g < n
        invariant
            n == glyphs@.len(),
            g <= n,
            spec_crop_point(glyphs@, row as int, 0) == spec_crop_point(glyphs@, row as int,
                g as int),
        decreases n - g,
    {
        if glyphs[g].x_offset > row {
            return (g, Some(glyphs[g].cluster));
        }
        g = g + 1;
    }
    (n, None)
}

/// The pen position after the first `k` glyphs: the sum of their advances.
pub open spec fn spec_advance_sum(glyphs: Seq<ShapedGlyph>, k: int) -> (int, int)
    decreases k,
{
    if k <= 0 {
        (0, 0)
    } else {
        let (x, y) = spec_advance_sum(glyphs, k - 1);
        (x + glyphs[k - 1].x_advance, y + glyphs[k - 1].y_advance)
    }
}

/// Whether every record of a shaped run is within the bounds layout
/// arithmetic needs: advances and offsets at most one em-square in
/// magnitude.
pub open spec fn shaped_in_range(glyphs: Seq<ShapedGlyph>) -> bool {
    forall|k: int|
        0 <= k < glyphs.len() ==> {
            let g = #[trigger] glyphs[k];
            &&& -0x10000 <= g.x_advance <= 0x10000
            &&& -0x10000 <= g.y_advance <= 0x10000
            &&& -0x10000 <= g.x_offset <= 0x10000
            &&& -0x10000 <= g.y_offset <= 0x10000
        }
}

/// The operations the first `until` glyphs of a shaped run emit, from
/// glyph `k` on: each glyph's outline (when it decodes to one), scaled by
/// `wh / units-per-em`, at the accumulated advance plus the record's own
/// offset.
pub open spec fn spec_shaped_ops(
    f: StyledFont,
    glyphs: Seq<ShapedGlyph>,
    k: int,
    until: int,
    wh0: int,
    wh1: int,
) -> Seq<PathOp>
    decreases until - k,
{
    if k < 0 || k >= until || k >= glyphs.len() {
        Seq::empty()
    } else {
        let (ax, ay) = spec_advance_sum(glyphs, k);
        let g = glyphs[k];
        let bx = tdiv((ax + g.x_offset) * wh0, f.upem as int);
        let by = tdiv((ay + g.y_offset) * wh1, f.upem as int);
        let here = match spec_glyph_shape(f.info.data@, f.info.loca as int, f.info.glyf as int,
            f.info.index_to_loc_format as int, f.info.num_glyphs as int, g.glyph_id as int,
            COMPONENT_DEPTH as int) {
            Ok(Some(vs)) => spec_glyph_ops(vs, wh0, -wh1, f.upem as int, bx, by),
            _ => Seq::empty(),
        };
        here + spec_shaped_ops(f, glyphs, k + 1, until, wh0, wh1)
    }
}

/// Render the first `until` glyphs of a shaped run at character scale
/// `wh / units-per-em`, each glyph drawn at the accumulated advance plus
/// its own offset, as closed contours.  Glyphs without an outline draw
/// nothing but still advance.  Returns the operations and the final pen
/// position in font units, per `spec_advance_sum`; the operations are per
/// `spec_shaped_ops`.
#[verifier::loop_isolation(false)]
#[verifier::rlimit(100)]
pub fn render_shaped(f: &StyledFont, glyphs: &Vec<ShapedGlyph>, until: usize, wh: (i64, i64))
    -> (r: (TextPathIterator, i64, i64))
    requires
        styled_wf(*f),
        f.upem >= 1,
        until <= glyphs@.len(),
        glyphs@.len() <= 0x10000,
        shaped_in_range(glyphs@),
        0 <= wh.0 <= 0x100_0000,
        0 <= wh.1 <= 0x100_0000,
    ensures
        wf_ops(r.0.ops@),
        r.0.pos == 0,
        (r.1 as int, r.2 as int) == spec_advance_sum(glyphs@, until as int),
        r.0.ops@ == spec_shaped_ops(*f, glyphs@, 0, until as int, wh.0 as int, wh.1 as int),
{
    let mut ops: Vec<PathOp> = Vec::new();
    let mut adv_x: i64 = 0;
    let mut adv_y: i64 = 0;
    let mut k: usize = 0;
    let den: i64 = f.upem as i64;
    let ghost total = spec_shaped_ops(*f, glyphs@, 0, until as int, wh.0 as int, wh.1 as int);
    proof {
        assert(Seq::<PathOp>::empty() + total =~= total);
    }
    while k < until
        invariant
            k <= until,
            wf_ops(ops@),
            (adv_x as int, adv_y as int) == spec_advance_sum(glyphs@, k as int),
            -0x10000 * (k as int) <= adv_x <= 0x10000 * (k as int),
            -0x10000 * (k as int) <= adv_y <= 0x10000 * (k as int),
            total == ops@ + spec_shaped_ops(*f, glyphs@, k as int, until as int, wh.0 as int,
                wh.1 as int),
        decreases until - k,
    {
        let ghost k0 = k as int;
        let ghost ops0 = ops@;
        let g = glyphs[k];
        let gx: i64 = adv_x + g.x_offset as i64;
        let gy: i64 = adv_y + g.y_offset as i64;
        proof {
            assert(-0x2_0000_0000 * 0x100_0000 <= (gx as int) * (wh.0 as int) <= 0x2_0000_0000
                * 0x100_0000) by (nonlinear_arith)
                requires -0x2_0000_0000 <= gx <= 0x2_0000_0000 && 0 <= wh.0 <= 0x100_0000;
            assert(-0x2_0000_0000 * 0x100_0000 <= (gy as int) * (wh.1 as int) <= 0x2_0000_0000
                * 0x100_0000) by (nonlinear_arith)
                requires -0x2_0000_0000 <= gy <= 0x2_0000_0000 && 0 <= wh.1 <= 0x100_0000;
            crate::glyf::lemma_tdiv_magnitude(gx as int * wh.0 as int, den as int);
            crate::glyf::lemma_tdiv_magnitude(gy as int * wh.1 as int, den as int);
        }
        let bx = crate::glyf::tdiv64(gx * wh.0, den);
        let by = crate::glyf::tdiv64(gy * wh.1, den);
        let ghost here = match spec_glyph_shape(f.info.data@, f.info.loca as int,
            f.info.glyf as int, f.info.index_to_loc_format as int, f.info.num_glyphs as int,
            g.glyph_id as int, COMPONENT_DEPTH as int) {
            Ok(Some(svs)) => spec_glyph_ops(svs, wh.0 as int, -wh.1 as int, den as int,
                bx as int, by as int),
            _ => Seq::<PathOp>::empty(),
        };
        match f.info.get_glyph_shape(g.glyph_id) {
            Ok(Some(vs)) => {
                emit_glyph_ops(&vs, wh.0, -wh.1, den, bx, by, &mut ops);
            },
            _ => {
                proof {
                    assert(here =~= Seq::<PathOp>::empty());
                }
            },
        }
        proof {
            assert(ops@ =~= ops0 + here);
        }
        adv_x = adv_x + g.x_advance as i64;
        adv_y = adv_y + g.y_advance as i64;
        k = k + 1;
        proof {
            let rest = spec_shaped_ops(*f, glyphs@, k0 + 1, until as int, wh.0 as int,
                wh.1 as int);
            assert(spec_shaped_ops(*f, glyphs@, k0, until as int, wh.0 as int, wh.1 as int)
                == here + rest);
            assert(ops0 + (here + rest) =~= ops@ + rest);
        }
    }
    proof {
        assert(spec_shaped_ops(*f, glyphs@, until as int, until as int, wh.0 as int,
            wh.1 as int) =~= Seq::<PathOp>::empty());
        assert(ops@ =~= total);
    }
    (TextPathIterator { ops, pos: 0 }, adv_x, adv_y)
}

} // verus!
