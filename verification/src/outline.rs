//! Decoded glyph outlines: typed vertices and the closed-contour shape that
//! every decoded outline has.
//!
//! An outline is a flat vertex sequence.  Each contour starts with one
//! `MoveTo`; the following vertices are `LineTo`/`CurveTo`; the contour's
//! last vertex lands back on the coordinates of its `MoveTo`, which is how
//! the decoder closes every contour.

use vstd::prelude::*;

verus! {

/// What a vertex contributes to the path.
#[derive(Clone, Copy, Debug, PartialEq, Eq, Structural)]
pub enum VertexType {
    /// Start of a contour.
    MoveTo,
    /// Straight segment to `(x, y)`.
    LineTo,
    /// Quadratic segment to `(x, y)` with control point `(cx, cy)`.
    CurveTo,
}

/// One outline vertex, in font design units.
#[derive(Clone, Copy, Debug, PartialEq, Eq, Structural)]
pub struct Vertex {
    /// Target x coordinate.
    pub x: i16,
    /// Target y coordinate.
    pub y: i16,
    /// Control point x coordinate, 0 unless the vertex is a `CurveTo`.
    pub cx: i16,
    /// Control point y coordinate, 0 unless the vertex is a `CurveTo`.
    pub cy: i16,
    /// The segment kind.
    pub kind: VertexType,
}

impl Vertex {
    /// The segment kind of this vertex.
    pub fn vertex_type(&self) -> (r: VertexType)
        ensures
            r == self.kind,
    {
        self.kind
    }
}

/// Whether index `i` ends a contour: it is the last vertex, or the next
/// vertex starts a new contour.
pub open spec fn outline_is_end(vs: Seq<Vertex>, i: int) -> bool {
    i + 1 == vs.len() || vs[i + 1].kind == VertexType::MoveTo
}

/// The index of the `MoveTo` that opens the contour `i` belongs to.
pub open spec fn contour_start(vs: Seq<Vertex>, i: int) -> int
    decreases i,
{
    if i <= 0 {
        0
    } else if vs[i].kind == VertexType::MoveTo {
        i
    } else {
        contour_start(vs, i - 1)
    }
}

/// The closed-contour shape of a decoded outline: it begins with a `MoveTo`,
/// no contour is a bare `MoveTo`, and each contour's last vertex returns to
/// the coordinates of the `MoveTo` that opened it.
pub open spec fn wf_outline(vs: Seq<Vertex>) -> bool {
    &&& vs.len() > 0 ==> vs[0].kind == VertexType::MoveTo
    &&& forall|i: int|
        0 <= i < vs.len() && outline_is_end(vs, i) ==> i > contour_start(vs, i)
    &&& forall|i: int|
        0 <= i < vs.len() && outline_is_end(vs, i) ==> vs[i].x == vs[contour_start(vs, i)].x
            && vs[i].y == vs[contour_start(vs, i)].y
}

/// One whole contour as a vertex run: a `MoveTo`, at least one drawing
/// vertex, no interior `MoveTo`, ending on the `MoveTo`'s coordinates.
pub open spec fn wf_contour(c: Seq<Vertex>) -> bool {
    &&& c.len() >= 2
    &&& c[0].kind == VertexType::MoveTo
    &&& forall|i: int| 1 <= i < c.len() ==> c[i].kind != VertexType::MoveTo
    &&& c.last().x == c[0].x
    &&& c.last().y == c[0].y
}

/// The number of contours of an outline: its `MoveTo` count.
pub open spec fn count_moveto(vs: Seq<Vertex>) -> int
    decreases vs.len(),
{
    if vs.len() == 0 {
        0
    } else {
        count_moveto(vs.drop_last()) + if vs.last().kind == VertexType::MoveTo {
            1int
        } else {
            0int
        }
    }
}

/// `MoveTo` counts add up over concatenation.
pub proof fn lemma_count_moveto_append(vs: Seq<Vertex>, ws: Seq<Vertex>)
    ensures
        count_moveto(vs + ws) == count_moveto(vs) + count_moveto(ws),
    decreases ws.len(),
{
    if ws.len() == 0 {
        assert(vs + ws =~= vs);
    } else {
        assert((vs + ws).drop_last() =~= vs + ws.drop_last());
        assert((vs + ws).last() == ws.last());
        lemma_count_moveto_append(vs, ws.drop_last());
    }
}

/// A sequence whose only `MoveTo` is its first vertex has one contour.
pub proof fn lemma_count_moveto_single(c: Seq<Vertex>)
    requires
        c.len() >= 1,
        c[0].kind == VertexType::MoveTo,
        forall|j: int| 1 <= j < c.len() ==> c[j].kind != VertexType::MoveTo,
    ensures
        count_moveto(c) == 1,
    decreases c.len(),
{
    if c.len() == 1 {
        assert(c.drop_last() =~= Seq::<Vertex>::empty());
        assert(count_moveto(c.drop_last()) == 0);
        assert(c.last() == c[0]);
        assert(count_moveto(c) == count_moveto(c.drop_last()) + 1);
    } else {
        assert(c.drop_last()[0] == c[0]);
        assert forall|j: int| 1 <= j < c.drop_last().len() implies c.drop_last()[j].kind
            != VertexType::MoveTo by {
            assert(c.drop_last()[j] == c[j]);
        }
        lemma_count_moveto_single(c.drop_last());
        assert(c.last() == c[c.len() - 1]);
        assert(c.last().kind != VertexType::MoveTo);
        assert(count_moveto(c) == count_moveto(c.drop_last()));
    }
}

/// The `MoveTo` count depends only on the vertex kinds.
pub proof fn lemma_count_moveto_same_kinds(vs: Seq<Vertex>, ws: Seq<Vertex>)
    requires
        vs.len() == ws.len(),
        forall|j: int| 0 <= j < vs.len() ==> ws[j].kind == vs[j].kind,
    ensures
        count_moveto(ws) == count_moveto(vs),
    decreases vs.len(),
{
    if vs.len() > 0 {
        lemma_count_moveto_same_kinds(vs.drop_last(), ws.drop_last());
    }
}

/// A contour's `MoveTo` stands at or before the vertex that names it.
pub proof fn lemma_contour_start_bounds(vs: Seq<Vertex>, i: int)
    requires
        0 <= i < vs.len(),
    ensures
        0 <= contour_start(vs, i) <= i,
    decreases i,
{
    if i > 0 && vs[i].kind != VertexType::MoveTo {
        lemma_contour_start_bounds(vs, i - 1);
    }
}

/// `contour_start` only looks at a prefix, so appending on the right does
/// not move it.
pub proof fn lemma_contour_start_prefix(vs: Seq<Vertex>, ws: Seq<Vertex>, i: int)
    requires
        0 <= i < vs.len(),
    ensures
        contour_start(vs + ws, i) == contour_start(vs, i),
    decreases i,
{
    assert((vs + ws)[i] == vs[i]);
    if i > 0 && vs[i].kind != VertexType::MoveTo {
        lemma_contour_start_prefix(vs, ws, i - 1);
    }
}

/// In the appended part of `vs + ws`, a contour can start no earlier than
/// `vs.len()`, because `ws` opens with its own `MoveTo`.
pub proof fn lemma_contour_start_suffix(vs: Seq<Vertex>, ws: Seq<Vertex>, i: int)
    requires
        ws.len() > 0,
        ws[0].kind == VertexType::MoveTo,
        vs.len() <= i < vs.len() + ws.len(),
    ensures
        contour_start(vs + ws, i) == vs.len() + contour_start(ws, i - vs.len()),
    decreases i,
{
    assert((vs + ws)[i] == ws[i - vs.len()]);
    if i == vs.len() {
        assert(contour_start(vs + ws, i) == i);
    } else if (vs + ws)[i].kind != VertexType::MoveTo {
        lemma_contour_start_suffix(vs, ws, i - 1);
    }
}

/// Concatenating two well-formed outlines gives a well-formed outline.
pub proof fn lemma_append_wf(vs: Seq<Vertex>, ws: Seq<Vertex>)
    requires
        wf_outline(vs),
        wf_outline(ws),
    ensures
        wf_outline(vs + ws),
{
    let u = vs + ws;
    if ws.len() == 0 {
        assert(u =~= vs);
    } else if vs.len() == 0 {
        assert(u =~= ws);
    } else {
        assert(u[0] == vs[0]);
        assert forall|i: int|
            0 <= i < u.len() && outline_is_end(u, i) implies i > contour_start(u, i) && u[i].x
            == u[contour_start(u, i)].x && u[i].y == u[contour_start(u, i)].y by {
            if i < vs.len() {
                lemma_contour_start_prefix(vs, ws, i);
                lemma_contour_start_bounds(vs, i);
                assert(u[i] == vs[i]);
                assert(u[contour_start(vs, i)] == vs[contour_start(vs, i)]);
                if i + 1 < vs.len() {
                    assert(u[i + 1] == vs[i + 1]);
                    assert(outline_is_end(vs, i));
                } else {
                    assert(outline_is_end(vs, i));
                }
            } else {
                lemma_contour_start_suffix(vs, ws, i);
                let j = i - vs.len();
                lemma_contour_start_bounds(ws, j);
                assert(u[i] == ws[j]);
                if i + 1 < u.len() {
                    assert(u[i + 1] == ws[j + 1]);
                }
                assert(outline_is_end(ws, j));
                assert(u[vs.len() + contour_start(ws, j)] == ws[contour_start(ws, j)]);
            }
        }
    }
}

/// A single well-formed contour is a well-formed outline.
pub proof fn lemma_contour_wf(c: Seq<Vertex>)
    requires
        wf_contour(c),
    ensures
        wf_outline(c),
{
    assert forall|i: int| 0 <= i < c.len() implies contour_start(c, i) == 0 by {
        lemma_contour_start_zero(c, i);
    }
    assert forall|i: int| 0 <= i < c.len() && outline_is_end(c, i) implies i + 1 == c.len() by {
        if i + 1 < c.len() {
            assert(c[i + 1].kind != VertexType::MoveTo);
        }
    }
    assert(c.last() == c[c.len() - 1]);
}

/// In a sequence with no `MoveTo` after index 0, every contour starts at 0.
proof fn lemma_contour_start_zero(c: Seq<Vertex>, i: int)
    requires
        0 <= i < c.len(),
        forall|j: int| 1 <= j < c.len() ==> c[j].kind != VertexType::MoveTo,
    ensures
        contour_start(c, i) == 0,
    decreases i,
{
    if i > 0 {
        lemma_contour_start_zero(c, i - 1);
    }
}

/// `contour_start` depends only on the vertex kinds.
proof fn lemma_contour_start_same_kinds(vs: Seq<Vertex>, ws: Seq<Vertex>, i: int)
    requires
        vs.len() == ws.len(),
        forall|j: int| 0 <= j < vs.len() ==> ws[j].kind == vs[j].kind,
        0 <= i < vs.len(),
    ensures
        contour_start(ws, i) == contour_start(vs, i),
    decreases i,
{
    if i > 0 && vs[i].kind != VertexType::MoveTo {
        lemma_contour_start_same_kinds(vs, ws, i - 1);
    }
}

/// Mapping every vertex through a coordinate transform keeps an outline
/// well-formed: kinds are unchanged and equal coordinates stay equal.
pub proof fn lemma_map_wf(vs: Seq<Vertex>, ws: Seq<Vertex>)
    requires
        wf_outline(vs),
        vs.len() == ws.len(),
        forall|j: int| 0 <= j < vs.len() ==> ws[j].kind == vs[j].kind,
        forall|j: int, k: int|
            0 <= j < vs.len() && 0 <= k < vs.len() && vs[j].x == vs[k].x && vs[j].y == vs[k].y
                ==> ws[j].x == ws[k].x && ws[j].y == ws[k].y,
    ensures
        wf_outline(ws),
{
    assert forall|i: int|
        0 <= i < ws.len() && outline_is_end(ws, i) implies i > contour_start(ws, i) && ws[i].x
        == ws[contour_start(ws, i)].x && ws[i].y == ws[contour_start(ws, i)].y by {
        lemma_contour_start_same_kinds(vs, ws, i);
        lemma_contour_start_bounds(vs, i);
        if i + 1 < vs.len() {
            assert(vs[i + 1].kind == ws[i + 1].kind);
        }
        assert(outline_is_end(vs, i));
        let cs = contour_start(vs, i);
        assert(vs[i].x == vs[cs].x && vs[i].y == vs[cs].y);
        assert(0 <= cs < vs.len());
    }
}

} // verus!
