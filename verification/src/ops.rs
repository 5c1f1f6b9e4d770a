//! The public path output: drawing operations in fixed-point pixel
//! coordinates (1/65536 of a pixel), and the per-glyph conversion from
//! decoded outline vertices into closed `Move .. Close` contours.

use vstd::prelude::*;
use crate::glyf::tdiv;
use crate::outline::{wf_outline, Vertex, VertexType};

verus! {

/// One drawing operation, in fixed-point pixel coordinates.
#[derive(Clone, Copy, Debug, PartialEq, Eq, Structural)]
pub enum PathOp {
    /// Begin a contour at `(x, y)`.
    Move(i64, i64),
    /// Straight segment to `(x, y)`.
    Line(i64, i64),
    /// Quadratic segment via control `(cx, cy)` to `(x, y)`.
    Quad(i64, i64, i64, i64),
    /// Cubic segment via two controls to `(x, y)`.
    Cubic(i64, i64, i64, i64, i64, i64),
    /// Close the current contour.
    Close,
    /// Set the pen width for subsequent strokes.
    PenWidth(i64),
}

/// Whether an operation begins a contour.
pub open spec fn op_is_move(op: PathOp) -> bool {
    op matches PathOp::Move(_, _)
}

/// Whether an operation closes a contour.
pub open spec fn op_is_close(op: PathOp) -> bool {
    op matches PathOp::Close
}

/// The contour discipline of an emitted operation sequence: it starts with a
/// `Move` and ends with a `Close`, every later `Move` directly follows a
/// `Close`, and every `Close` is followed by a `Move` or ends the sequence.
pub open spec fn wf_ops(ops: Seq<PathOp>) -> bool {
    &&& ops.len() > 0 ==> op_is_move(ops[0]) && op_is_close(ops.last())
    &&& forall|i: int| 0 < i < ops.len() && op_is_move(ops[i]) ==> op_is_close(ops[i - 1])
    &&& forall|i: int| 0 <= i < ops.len() - 1 && op_is_close(ops[i]) ==> op_is_move(ops[i + 1])
}

/// Concatenating two well-formed operation runs keeps the discipline.
pub proof fn lemma_wf_ops_append(a: Seq<PathOp>, b: Seq<PathOp>)
    requires
        wf_ops(a),
        wf_ops(b),
    ensures
        wf_ops(a + b),
{
    let u = a + b;
    if a.len() == 0 {
        assert(u =~= b);
    } else if b.len() == 0 {
        assert(u =~= a);
    } else {
        assert(u[0] == a[0]);
        assert(u.last() == b.last());
        assert forall|i: int| 0 < i < u.len() && op_is_move(u[i]) implies op_is_close(u[i
            - 1]) by {
            if i < a.len() {
                assert(u[i] == a[i] && u[i - 1] == a[i - 1]);
            } else if i == a.len() {
                assert(u[i] == b[0] && u[i - 1] == a[a.len() - 1]);
            } else {
                assert(u[i] == b[i - a.len()] && u[i - 1] == b[i - a.len() - 1]);
            }
        }
        assert forall|i: int| 0 <= i < u.len() - 1 && op_is_close(u[i]) implies op_is_move(u[i
            + 1]) by {
            if i + 1 < a.len() {
                assert(u[i] == a[i] && u[i + 1] == a[i + 1]);
            } else if i + 1 == a.len() {
                assert(u[i] == a[i] && u[i + 1] == b[0]);
            } else {
                assert(u[i] == b[i - a.len()] && u[i + 1] == b[i - a.len() + 1]);
            }
        }
    }
}

/// The scaled x position of a vertex coordinate: font units scaled by
/// `num / den` and offset by the pen.
pub open spec fn spec_px(coord: int, num: int, den: int, base: int) -> int {
    tdiv(coord * num, den) + base
}

/// The operations one glyph contributes from vertex `i` on: each `MoveTo`
/// closes the previous contour (except the first) and begins the next, and
/// the sequence ends by closing the last contour.
pub open spec fn spec_glyph_ops_from(
    vs: Seq<Vertex>,
    i: int,
    xnum: int,
    ynum: int,
    den: int,
    bx: int,
    by: int,
) -> Seq<PathOp>
    decreases vs.len() - i,
{
    if i < 0 || i >= vs.len() {
        if vs.len() == 0 {
            Seq::empty()
        } else {
            seq![PathOp::Close]
        }
    } else {
        let v = vs[i];
        let x = spec_px(v.x as int, xnum, den, bx);
        let y = spec_px(v.y as int, ynum, den, by);
        let cx = spec_px(v.cx as int, xnum, den, bx);
        let cy = spec_px(v.cy as int, ynum, den, by);
        let here = match v.kind {
            VertexType::MoveTo => if i == 0 {
                seq![PathOp::Move(x as i64, y as i64)]
            } else {
                seq![PathOp::Close, PathOp::Move(x as i64, y as i64)]
            },
            VertexType::LineTo => seq![PathOp::Line(x as i64, y as i64)],
            VertexType::CurveTo => seq![
                PathOp::Quad(cx as i64, cy as i64, x as i64, y as i64),
            ],
        };
        here + spec_glyph_ops_from(vs, i + 1, xnum, ynum, den, bx, by)
    }
}

/// The operations one glyph contributes.
pub open spec fn spec_glyph_ops(vs: Seq<Vertex>, xnum: int, ynum: int, den: int, bx: int,
    by: int) -> Seq<PathOp> {
    spec_glyph_ops_from(vs, 0, xnum, ynum, den, bx, by)
}

/// Scale one coordinate into fixed-point pixels.
fn px(coord: i16, num: i64, den: i64, base: i64) -> (r: i64)
    requires
        1 <= den,
        -0x1_0000_0000 <= num <= 0x1_0000_0000,
        -0x1000_0000_0000_0000 <= base <= 0x1000_0000_0000_0000,
    ensures
        r == spec_px(coord as int, num as int, den as int, base as int),
        -0x1008_0000_0000_0000 <= r <= 0x1008_0000_0000_0000,
{
    proof {
        assert(-0x8_0000_0000_0000 <= (coord as int) * (num as int) <= 0x8_0000_0000_0000)
            by (nonlinear_arith)
            requires -0x8000 <= coord <= 0x8000 && -0x1_0000_0000 <= num <= 0x1_0000_0000;
        crate::glyf::lemma_tdiv_magnitude(coord as int * num as int, den as int);
    }
    let scaled = crate::glyf::tdiv64((coord as i64) * num, den);
    scaled + base
}

/// Emit the operations of one glyph outline, appending to `out`.
pub fn emit_glyph_ops(
    vs: &Vec<Vertex>,
    xnum: i64,
    ynum: i64,
    den: i64,
    bx: i64,
    by: i64,
    out: &mut Vec<PathOp>,
)
    requires
        1 <= den,
        -0x1_0000_0000 <= xnum <= 0x1_0000_0000,
        -0x1_0000_0000 <= ynum <= 0x1_0000_0000,
        -0x1000_0000_0000_0000 <= bx <= 0x1000_0000_0000_0000,
        -0x1000_0000_0000_0000 <= by <= 0x1000_0000_0000_0000,
        wf_outline(vs@),
        wf_ops(old(out)@),
    ensures
        final(out)@ == old(out)@ + spec_glyph_ops(vs@, xnum as int, ynum as int, den as int,
            bx as int, by as int),
        wf_ops(final(out)@),
{
    let ghost orig = out@;
    let ghost total = spec_glyph_ops(vs@, xnum as int, ynum as int, den as int, bx as int,
        by as int);
    let n = vs.len();
    let mut i: usize = 0;
    let mut emitted: Vec<PathOp> = Vec::new();
    proof {
        assert(emitted@ + spec_glyph_ops_from(vs@, 0, xnum as int, ynum as int, den as int,
            bx as int, by as int) =~= total);
    }
    while i < n
        invariant
            n == vs@.len(),
            i <= n,
            1 <= den,
            -0x1_0000_0000 <= xnum <= 0x1_0000_0000,
            -0x1_0000_0000 <= ynum <= 0x1_0000_0000,
            -0x1000_0000_0000_0000 <= bx <= 0x1000_0000_0000_0000,
            -0x1000_0000_0000_0000 <= by <= 0x1000_0000_0000_0000,
            total == emitted@ + spec_glyph_ops_from(vs@, i as int, xnum as int, ynum as int,
                den as int, bx as int, by as int),
        decreases n - i,
    {
        let ghost i0 = i as int;
        let ghost before = emitted@;
        let v = vs[i];
        let x = px(v.x, xnum, den, bx);
        let y = px(v.y, ynum, den, by);
        match v.kind {
            VertexType::MoveTo => {
                if i != 0 {
                    emitted.push(PathOp::Close);
                }
                emitted.push(PathOp::Move(x, y));
            },
            VertexType::LineTo => {
                emitted.push(PathOp::Line(x, y));
            },
            VertexType::CurveTo => {
                let cx = px(v.cx, xnum, den, bx);
                let cy = px(v.cy, ynum, den, by);
                emitted.push(PathOp::Quad(cx, cy, x, y));
            },
        }
        i = i + 1;
        proof {
            let rest = spec_glyph_ops_from(vs@, i0 + 1, xnum as int, ynum as int, den as int,
                bx as int, by as int);
            let here = spec_glyph_ops_from(vs@, i0, xnum as int, ynum as int, den as int,
                bx as int, by as int);
            assert(emitted@ + rest =~= before + here);
        }
    }
    if n > 0 {
        emitted.push(PathOp::Close);
    }
    proof {
        if n > 0 {
            assert(spec_glyph_ops_from(vs@, n as int, xnum as int, ynum as int, den as int,
                bx as int, by as int) =~= seq![PathOp::Close]);
            assert(emitted@ =~= total);
        } else {
            assert(emitted@ =~= total);
        }
        lemma_glyph_ops_wf(vs@, xnum as int, ynum as int, den as int, bx as int, by as int);
        assert(wf_ops(emitted@));
        lemma_wf_ops_append(orig, emitted@);
    }
    out.append(&mut emitted);
}

/// The tail shape of the emitted run, from vertex `i` on: it ends with a
/// `Close`, begins with one only when the outline goes on from an earlier
/// vertex, and keeps the `Move`/`Close` adjacency discipline.
proof fn lemma_glyph_ops_tail(vs: Seq<Vertex>, i: int, xnum: int, ynum: int, den: int, bx: int,
    by: int)
    requires
        0 <= i <= vs.len(),
    ensures
        ({
            let ops = spec_glyph_ops_from(vs, i, xnum, ynum, den, bx, by);
            &&& vs.len() > 0 ==> ops.len() > 0 && op_is_close(ops.last())
            &&& i >= 1 && ops.len() > 0 ==> !op_is_move(ops[0])
            &&& i == 0 && vs.len() > 0 && vs[0].kind == VertexType::MoveTo ==> op_is_move(
                ops[0])
            &&& forall|k: int|
                0 < k < ops.len() && op_is_move(ops[k]) ==> op_is_close(ops[k - 1])
            &&& forall|k: int|
                0 <= k < ops.len() - 1 && op_is_close(ops[k]) ==> op_is_move(ops[k + 1])
        }),
    decreases vs.len() - i,
{
    let ops = spec_glyph_ops_from(vs, i, xnum, ynum, den, bx, by);
    if i >= vs.len() {
    } else {
        lemma_glyph_ops_tail(vs, i + 1, xnum, ynum, den, bx, by);
        let rest = spec_glyph_ops_from(vs, i + 1, xnum, ynum, den, bx, by);
        let hl = ops.len() - rest.len();
        assert(rest.len() > 0);
        assert(1 <= hl <= 2);
        assert(ops.last() == rest.last());
        assert(!op_is_move(rest[0]));
        assert forall|k: int| 0 < k < ops.len() && op_is_move(ops[k]) implies op_is_close(ops[k
            - 1]) by {
            if k < hl {
                assert(hl == 2 && ops[0] == PathOp::Close);
            } else if k == hl {
                assert(ops[k] == rest[0]);
            } else {
                assert(ops[k] == rest[k - hl] && ops[k - 1] == rest[k - hl - 1]);
            }
        }
        assert forall|k: int| 0 <= k < ops.len() - 1 && op_is_close(ops[k]) implies op_is_move(
            ops[k + 1]) by {
            if k < hl {
                if hl == 2 {
                    assert(ops[1] is Move);
                    if k == 1 {
                        assert(!op_is_close(ops[1]));
                    }
                } else {
                    assert(ops[0] == (match vs[i].kind {
                        VertexType::MoveTo => if i == 0 {
                            PathOp::Move(spec_px(vs[i].x as int, xnum, den, bx) as i64,
                                spec_px(vs[i].y as int, ynum, den, by) as i64)
                        } else {
                            PathOp::Close
                        },
                        VertexType::LineTo => PathOp::Line(spec_px(vs[i].x as int, xnum, den,
                            bx) as i64, spec_px(vs[i].y as int, ynum, den, by) as i64),
                        VertexType::CurveTo => PathOp::Quad(spec_px(vs[i].cx as int, xnum, den,
                            bx) as i64, spec_px(vs[i].cy as int, ynum, den, by) as i64,
                            spec_px(vs[i].x as int, xnum, den, bx) as i64, spec_px(
                            vs[i].y as int, ynum, den, by) as i64),
                    }));
                }
            } else {
                assert(ops[k] == rest[k - hl] && ops[k + 1] == rest[k - hl + 1]);
            }
        }
    }
}

/// A well-formed outline emits a well-formed operation run.
proof fn lemma_glyph_ops_wf(vs: Seq<Vertex>, xnum: int, ynum: int, den: int, bx: int, by: int)
    requires
        wf_outline(vs),
    ensures
        wf_ops(spec_glyph_ops(vs, xnum, ynum, den, bx, by)),
{
    lemma_glyph_ops_tail(vs, 0, xnum, ynum, den, bx, by);
}

} // verus!
