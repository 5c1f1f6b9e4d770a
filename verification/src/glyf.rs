//! Decoding glyph outlines from the `glyf` table: locating a glyph through
//! `loca`, run-length flag decoding, delta-coded coordinate decoding, the
//! on/off-curve walk that closes every contour, and composite glyphs
//! assembled recursively under a fixed-point 2x2 transform.

use vstd::prelude::*;
use crate::reader::{be_i16, be_u16, be_u32, read_i16_be, read_u16_be, read_u32_be, read_u8_at};
use crate::face::FontInfo;
use crate::outline::{
    count_moveto, lemma_append_wf, lemma_contour_wf, lemma_count_moveto_append,
    lemma_count_moveto_same_kinds, lemma_count_moveto_single, lemma_map_wf, wf_contour,
    wf_outline, Vertex, VertexType,
};

verus! {

/// Why an outline could not be decoded.
#[derive(Clone, Copy, Debug, PartialEq, Eq, Structural)]
pub enum OutlineError {
    /// The glyph uses a feature the crate does not decode: point-matching
    /// composite offsets, a contour count below -1, or components nested
    /// deeper than the recursion bound.
    Unsupported,
    /// A read required by the glyph description leaves the font data.
    Malformed,
}

/// The 16-bit two's-complement wrap of `v`.
#[verifier::opaque]
pub open spec fn wrap16(v: int) -> int {
    ((v + 0x8000) % 0x10000) - 0x8000
}

/// Truncating division: the quotient of `n` and `d` rounded toward zero.
pub open spec fn tdiv(n: int, d: int) -> int {
    if n >= 0 {
        n / d
    } else {
        -((-n) / d)
    }
}

/// The byte offset of glyph `gi`'s `glyf` entry: the `loca` entry in the
/// width `index_to_loc_format` selects, `None` for an out-of-range glyph, an
/// unknown `loca` format, or an empty entry (no outline).
pub open spec fn spec_glyf_offset(s: Seq<u8>, loca: int, glyf: int, ilf: int, ng: int, gi: int)
    -> Option<int> {
    if gi >= ng || ilf >= 2 {
        None
    } else {
        let g1 = if ilf == 0 {
            glyf + 2 * be_u16(s, loca + 2 * gi)
        } else {
            glyf + be_u32(s, loca + 4 * gi)
        };
        let g2 = if ilf == 0 {
            glyf + 2 * be_u16(s, loca + 2 * gi + 2)
        } else {
            glyf + be_u32(s, loca + 4 * gi + 4)
        };
        if g1 == g2 {
            None
        } else {
            Some(g1)
        }
    }
}

/// The decoded per-point flags from `pos` on, with the repeat bit expanded,
/// and the position after them; `None` when they run out of data.
pub open spec fn spec_decode_flags(s: Seq<u8>, pos: int, n: int) -> Option<(Seq<u8>, int)>
    decreases n,
{
    if n <= 0 {
        Some((Seq::empty(), pos))
    } else if pos >= s.len() {
        None
    } else {
        let f = s[pos];
        if f & 8 != 0 {
            if pos + 1 >= s.len() {
                None
            } else {
                let c = s[pos + 1] as int;
                let take = if c + 1 <= n {
                    c + 1
                } else {
                    n
                };
                match spec_decode_flags(s, pos + 2, n - take) {
                    None => None,
                    Some((rest, e)) => Some((Seq::new(take as nat, |k: int| f) + rest, e)),
                }
            }
        } else {
            match spec_decode_flags(s, pos + 1, n - 1) {
                None => None,
                Some((rest, e)) => Some((seq![f] + rest, e)),
            }
        }
    }
}

/// The decoded coordinate array for one axis from `pos` on: flag bit
/// `bit_short` selects a one-byte delta whose sign is bit `bit_same`, an
/// absent short with `bit_same` clear is a signed 16-bit delta, and an
/// absent short with `bit_same` set repeats the previous coordinate.  Values
/// accumulate with 16-bit wrap.  `None` when the data runs out.
pub open spec fn spec_decode_coords(
    s: Seq<u8>,
    pos: int,
    flags: Seq<u8>,
    i: int,
    bit_short: u8,
    bit_same: u8,
    prev: int,
) -> Option<(Seq<i16>, int)>
    decreases flags.len() - i,
{
    if i < 0 || i >= flags.len() {
        Some((Seq::empty(), pos))
    } else {
        let f = flags[i];
        if f & bit_short != 0 {
            if pos >= s.len() {
                None
            } else {
                let d = if f & bit_same != 0 {
                    s[pos] as int
                } else {
                    -(s[pos] as int)
                };
                let x = wrap16(prev + d);
                match spec_decode_coords(s, pos + 1, flags, i + 1, bit_short, bit_same, x) {
                    None => None,
                    Some((rest, e)) => Some((seq![x as i16] + rest, e)),
                }
            }
        } else if f & bit_same == 0 {
            if pos + 2 > s.len() {
                None
            } else {
                let x = wrap16(prev + be_i16(s, pos));
                match spec_decode_coords(s, pos + 2, flags, i + 1, bit_short, bit_same, x) {
                    None => None,
                    Some((rest, e)) => Some((seq![x as i16] + rest, e)),
                }
            }
        } else {
            let x = wrap16(prev);
            match spec_decode_coords(s, pos, flags, i + 1, bit_short, bit_same, x) {
                None => None,
                Some((rest, e)) => Some((seq![x as i16] + rest, e)),
            }
        }
    }
}

/// `o` with `p` prepended to its decoded sequence.
pub open spec fn prepend_coords(p: Seq<i16>, o: Option<(Seq<i16>, int)>) -> Option<(Seq<i16>, int)> {
    match o {
        None => None,
        Some((rest, e)) => Some((p + rest, e)),
    }
}

/// Add a bounded delta to a coordinate with 16-bit wrap.
fn wrap_add(a: i16, d: i32) -> (r: i16)
    requires
        -0x8000 <= d <= 0x7fff,
    ensures
        r as int == wrap16(a + d),
{
    proof {
        reveal(wrap16);
    }
    let sum: i32 = a as i32 + d;
    if sum > 32767 {
        (sum - 65536) as i16
    } else if sum < -32768 {
        (sum + 65536) as i16
    } else {
        sum as i16
    }
}

/// Expand the run-length-coded point flags.
#[verifier::rlimit(100)]
fn decode_flags(s: &[u8], start: usize, n: usize) -> (r: Option<(Vec<u8>, usize)>)
    requires
        start <= s@.len(),
        n <= 0x10000,
    ensures
        r is Some <==> spec_decode_flags(s@, start as int, n as int) is Some,
        r matches Some((flags, pos)) ==> spec_decode_flags(s@, start as int, n as int)
            == Some((flags@, pos as int)) && flags@.len() == n && pos <= s@.len(),
{
    let slen: usize = s.len();
    let mut flags: Vec<u8> = Vec::new();
    let mut pos: usize = start;
    proof {
        assert(flags@ + (spec_decode_flags(s@, pos as int, n as int)->0).0
            =~= (spec_decode_flags(s@, pos as int, n as int)->0).0);
    }
    while flags.len() < n
        invariant
            slen == s@.len(),
            flags@.len() <= n,
            n <= 0x10000,
            pos <= slen,
            ({
                let tot = spec_decode_flags(s@, start as int, n as int);
                let sub = spec_decode_flags(s@, pos as int, n - flags@.len());
                match sub {
                    None => tot is None,
                    Some((rest, e)) => tot == Some((flags@ + rest, e)),
                }
            }),
        decreases n - flags@.len(),
    {
        if pos >= slen {
            return None;
        }
        let f = s[pos];
        if f & 8 != 0 {
            if pos + 1 >= slen {
                return None;
            }
            let c = s[pos + 1] as usize;
            let take: usize = if c + 1 <= n - flags.len() {
                c + 1
            } else {
                n - flags.len()
            };
            pos = pos + 2;
            let ghost before = flags@;
            let mut t: usize = 0;
            while t < take
                invariant
                    t <= take,
                    flags@ == before + Seq::new(t as nat, |k: int| f),
                decreases take - t,
            {
                proof {
                    assert(before + Seq::new((t + 1) as nat, |k: int| f) =~= (before + Seq::new(
                        t as nat,
                        |k: int| f,
                    )).push(f));
                }
                flags.push(f);
                t = t + 1;
            }
            proof {
                let sub = spec_decode_flags(s@, pos as int, n - flags@.len());
                if sub is Some {
                    assert(before + (Seq::new(take as nat, |k: int| f) + (sub->0).0) =~= flags@
                        + (sub->0).0);
                }
            }
        } else {
            pos = pos + 1;
            let ghost before = flags@;
            flags.push(f);
            proof {
                let sub = spec_decode_flags(s@, pos as int, n - flags@.len());
                if sub is Some {
                    assert(before + (seq![f] + (sub->0).0) =~= flags@ + (sub->0).0);
                }
            }
        }
    }
    proof {
        assert(flags@ + Seq::<u8>::empty() =~= flags@);
    }
    Some((flags, pos))
}

/// Decode one axis of the point coordinates.
#[verifier::rlimit(100)]
fn decode_coords(s: &[u8], start: usize, flags: &Vec<u8>, bit_short: u8, bit_same: u8) -> (r:
    Option<(Vec<i16>, usize)>)
    requires
        start <= s@.len(),
    ensures
        r is Some <==> spec_decode_coords(s@, start as int, flags@, 0, bit_short, bit_same, 0)
            is Some,
        r matches Some((xs, pos)) ==> spec_decode_coords(s@, start as int, flags@, 0, bit_short,
            bit_same, 0) == Some((xs@, pos as int)) && xs@.len() == flags@.len() && pos
            <= s@.len(),
{
    let slen: usize = s.len();
    let mut xs: Vec<i16> = Vec::new();
    let mut pos: usize = start;
    let mut x: i16 = 0;
    let n = flags.len();
    proof {
        assert(xs@ + (spec_decode_coords(s@, pos as int, flags@, 0, bit_short, bit_same, 0)->0).0
            =~= (spec_decode_coords(s@, pos as int, flags@, 0, bit_short, bit_same, 0)->0).0);
    }
    while xs.len() < n
        invariant
            slen == s@.len(),
            n == flags@.len(),
            xs@.len() <= n,
            pos <= slen,
            spec_decode_coords(s@, start as int, flags@, 0, bit_short, bit_same, 0)
                == prepend_coords(xs@, spec_decode_coords(s@, pos as int, flags@,
                xs@.len() as int, bit_short, bit_same, x as int)),
        decreases n - xs@.len(),
    {
        let ghost i0 = xs@.len() as int;
        let ghost pos0 = pos as int;
        let ghost x0 = x as int;
        let ghost sub0 = spec_decode_coords(s@, pos0, flags@, i0, bit_short, bit_same, x0);
        let f = flags[xs.len()];
        let ghost before = xs@;
        if f & bit_short != 0 {
            if pos >= slen {
                proof {
                    assert(sub0 is None);
                }
                return None;
            }
            let d = s[pos] as i32;
            let nx = if f & bit_same != 0 {
                wrap_add(x, d)
            } else {
                wrap_add(x, -d)
            };
            pos = pos + 1;
            x = nx;
            xs.push(nx);
        } else if f & bit_same == 0 {
            if slen - pos < 2 {
                proof {
                    assert(sub0 is None);
                }
                return None;
            }
            let d = read_i16_be(s, pos) as i32;
            let nx = wrap_add(x, d);
            pos = pos + 2;
            x = nx;
            xs.push(nx);
        } else {
            let nx = wrap_add(x, 0);
            x = nx;
            xs.push(nx);
        }
        proof {
            let sub = spec_decode_coords(s@, pos as int, flags@, xs@.len() as int, bit_short,
                bit_same, x as int);
            assert(sub0 == match sub {
                None => None::<(Seq<i16>, int)>,
                Some((rest, e)) => Some((seq![x] + rest, e)),
            });
            if sub is Some {
                assert(before + (seq![x] + (sub->0).0) =~= xs@ + (sub->0).0);
            }
        }
    }
    Some((xs, pos))
}

/// Clamp to the 16-bit signed range, as coordinates are stored.
pub open spec fn clamp16(v: int) -> int {
    if v < -0x8000 {
        -0x8000
    } else if v > 0x7fff {
        0x7fff
    } else {
        v
    }
}

/// One composite-glyph component transform: a 2x2 matrix in 1/16384 units,
/// an offset in font units, and the per-axis magnitudes `m = |(a, b)|` and
/// `n = |(c, d)|`, also in 1/16384 units.
#[derive(Clone, Copy, Debug, PartialEq, Eq, Structural)]
pub struct CompXf {
    /// Matrix entry scaling x into x.
    pub a: i32,
    /// Matrix entry scaling x into y.
    pub b: i32,
    /// Matrix entry scaling y into x.
    pub c: i32,
    /// Matrix entry scaling y into y.
    pub d: i32,
    /// X offset in font units.
    pub e: i32,
    /// Y offset in font units.
    pub f: i32,
    /// Magnitude of the (a, b) column.
    pub m: u32,
    /// Magnitude of the (c, d) column.
    pub n: u32,
}

/// The field ranges a component transform read from a font satisfies.
pub open spec fn xf_bounded(xf: CompXf) -> bool {
    &&& -0x8000 <= xf.a <= 0x7fff
    &&& -0x8000 <= xf.b <= 0x7fff
    &&& -0x8000 <= xf.c <= 0x7fff
    &&& -0x8000 <= xf.d <= 0x7fff
    &&& -0x8000 <= xf.e <= 0x7fff
    &&& -0x8000 <= xf.f <= 0x7fff
    &&& 0 <= xf.m <= 0x10000
    &&& 0 <= xf.n <= 0x10000
}

/// One transformed coordinate: the matrix row applied in 1/16384 fixed
/// point, offset, scaled by the column magnitude, clamped to storage range.
pub open spec fn spec_xform_coord(a: int, c: int, off: int, mag: int, x: int, y: int) -> int {
    clamp16(tdiv(mag * (tdiv(a * x + c * y, 16384) + off), 16384))
}

/// A vertex carried through a component transform: both the point and the
/// control point move; the segment kind stays.
pub open spec fn spec_xform_vertex(xf: CompXf, v: Vertex) -> Vertex {
    Vertex {
        x: spec_xform_coord(xf.a as int, xf.c as int, xf.e as int, xf.m as int, v.x as int,
            v.y as int) as i16,
        y: spec_xform_coord(xf.b as int, xf.d as int, xf.f as int, xf.n as int, v.x as int,
            v.y as int) as i16,
        cx: spec_xform_coord(xf.a as int, xf.c as int, xf.e as int, xf.m as int, v.cx as int,
            v.cy as int) as i16,
        cy: spec_xform_coord(xf.b as int, xf.d as int, xf.f as int, xf.n as int, v.cx as int,
            v.cy as int) as i16,
        kind: v.kind,
    }
}

/// Truncating division of a bounded value by a positive divisor.
pub(crate) fn tdiv64(n: i64, d: i64) -> (r: i64)
    requires
        d > 0,
        -0x4000_0000_0000_0000 < n < 0x4000_0000_0000_0000,
    ensures
        r == tdiv(n as int, d as int),
{
    if n >= 0 {
        n / d
    } else {
        -((-n) / d)
    }
}

/// The integer square root: the largest `r` with `r * r <= v`.
fn isqrt(v: u32) -> (r: u32)
    ensures
        r * r <= v,
        v < (r + 1) * (r + 1),
        r <= 0x10000,
        r == spec_isqrt(v as int),
{
    let mut lo: u32 = 0;
    let mut hi: u32 = 0x10000;
    while lo + 1 < hi
        invariant
            lo < hi <= 0x10000,
            lo * lo <= v,
            (hi as u64) * (hi as u64) > v,
        decreases hi - lo,
    {
        let mid = lo + (hi - lo) / 2;
        proof {
            assert((mid as u64) * (mid as u64) <= 0x1_0000_0000) by (nonlinear_arith)
                requires mid <= 0x10000;
        }
        if ((mid as u64) * (mid as u64)) <= v as u64 {
            lo = mid;
        } else {
            hi = mid;
        }
    }
    proof {
        lemma_isqrt_is(v as int, lo as int);
    }
    lo
}

/// Apply a component transform to one vertex.
fn transform_vertex(xf: &CompXf, v: &Vertex) -> (r: Vertex)
    requires
        xf_bounded(*xf),
    ensures
        r == spec_xform_vertex(*xf, *v),
{
    let x = xform_coord(xf.a, xf.c, xf.e, xf.m, v.x, v.y);
    let y = xform_coord(xf.b, xf.d, xf.f, xf.n, v.x, v.y);
    let cx = xform_coord(xf.a, xf.c, xf.e, xf.m, v.cx, v.cy);
    let cy = xform_coord(xf.b, xf.d, xf.f, xf.n, v.cx, v.cy);
    Vertex { x, y, cx, cy, kind: v.kind }
}

/// Apply one row of a component transform to a coordinate pair.
fn xform_coord(a: i32, c: i32, off: i32, mag: u32, x: i16, y: i16) -> (r: i16)
    requires
        -0x8000 <= a <= 0x7fff,
        -0x8000 <= c <= 0x7fff,
        -0x8000 <= off <= 0x7fff,
        mag <= 0x10000,
    ensures
        r == spec_xform_coord(a as int, c as int, off as int, mag as int, x as int, y as int),
{
    proof {
        assert(-0x4000_0000 <= (a as int) * (x as int) <= 0x4000_0000) by (nonlinear_arith)
            requires -0x8000 <= a <= 0x7fff && -0x8000 <= x <= 0x7fff;
        assert(-0x4000_0000 <= (c as int) * (y as int) <= 0x4000_0000) by (nonlinear_arith)
            requires -0x8000 <= c <= 0x7fff && -0x8000 <= y <= 0x7fff;
    }
    let inner: i64 = (a as i64) * (x as i64) + (c as i64) * (y as i64);
    proof {
        lemma_tdiv_bound(inner as int, 16384, 0x20000);
    }
    let scaled: i64 = tdiv64(inner, 16384) + (off as i64);
    proof {
        assert((mag as int) * (scaled as int) <= 0x10000 * 0x28000 && -0x10000 * 0x28000
            <= (mag as int) * (scaled as int)) by (nonlinear_arith)
            requires 0 <= mag <= 0x10000 && -0x28000 <= scaled <= 0x28000;
    }
    let out: i64 = tdiv64((mag as i64) * scaled, 16384);
    if out < -0x8000 {
        -0x8000
    } else if out > 0x7fff {
        0x7fff
    } else {
        out as i16
    }
}

/// A truncating quotient is no larger in magnitude than its dividend.
pub(crate) proof fn lemma_tdiv_magnitude(n: int, d: int)
    requires
        d >= 1,
    ensures
        n >= 0 ==> 0 <= tdiv(n, d) <= n,
        n < 0 ==> n <= tdiv(n, d) <= 0,
{
    if n >= 0 {
        assert(n * d >= n && -(n * d) <= n) by (nonlinear_arith)
            requires d >= 1 && n >= 0;
        lemma_tdiv_bound(n, d, n);
    } else {
        assert(-((-n) * d) <= n && -n <= (-n) * d) by (nonlinear_arith)
            requires d >= 1 && n < 0;
        lemma_tdiv_bound(n, d, -n);
    }
}

/// A truncating quotient is bounded when its dividend is.
pub(crate) proof fn lemma_tdiv_bound(n: int, d: int, b: int)
    requires
        d > 0,
        b >= 0,
        -(b * d) <= n <= b * d,
    ensures
        -b <= tdiv(n, d) <= b,
{
    if n >= 0 {
        assert(n / d <= b && n / d >= 0) by (nonlinear_arith)
            requires d > 0 && b >= 0 && 0 <= n && n <= b * d;
    } else {
        assert((-n) / d <= b && (-n) / d >= 0) by (nonlinear_arith)
            requires d > 0 && b >= 0 && n < 0 && -(b * d) <= n;
    }
}

/// Multiplying by 16384 and truncating-dividing by 16384 cancel.
proof fn lemma_tdiv_cancel(x: int)
    ensures
        tdiv(16384 * x, 16384) == x,
{
    if x >= 0 {
        assert(16384 * x >= 0) by (nonlinear_arith)
            requires x >= 0;
        assert((16384 * x) / 16384 == x) by (nonlinear_arith);
    } else {
        assert(16384 * x < 0) by (nonlinear_arith)
            requires x < 0;
        assert(-(16384 * x) == 16384 * (-x));
        assert((16384 * (-x)) / 16384 == -x) by (nonlinear_arith);
    }
}

/// An identity component transform moves no vertex: the identity matrix in
/// 1/16384 units, zero offset, and unit column magnitudes give every vertex
/// back unchanged.
pub proof fn lemma_identity_transform(xf: CompXf, v: Vertex)
    requires
        xf.a == 16384,
        xf.b == 0,
        xf.c == 0,
        xf.d == 16384,
        xf.e == 0,
        xf.f == 0,
        xf.m == 16384,
        xf.n == 16384,
    ensures
        spec_xform_vertex(xf, v) == v,
{
    lemma_identity_coord(xf, v.x as int, v.y as int);
    lemma_identity_coord(xf, v.cx as int, v.cy as int);
}

/// Mapping the identity component transform over a whole outline yields the
/// outline unchanged: a composite glyph with an identity matrix and zero
/// offset contributes exactly its component's vertices.
pub proof fn lemma_identity_transform_outline(xf: CompXf, vs: Seq<Vertex>)
    requires
        xf.a == 16384,
        xf.b == 0,
        xf.c == 0,
        xf.d == 16384,
        xf.e == 0,
        xf.f == 0,
        xf.m == 16384,
        xf.n == 16384,
    ensures
        vs.map_values(|v: Vertex| spec_xform_vertex(xf, v)) =~= vs,
{
    let ws = vs.map_values(|v: Vertex| spec_xform_vertex(xf, v));
    assert forall|i: int| 0 <= i < vs.len() implies ws[i] == vs[i] by {
        lemma_identity_transform(xf, vs[i]);
    }
}

/// A composite record with the identity transform and zero offset
/// (word arguments, no scale bits, no further components) contributes
/// exactly its component's decoded outline: composite assembly is the
/// identity on such a record.
pub proof fn lemma_identity_composite_record(
    s: Seq<u8>,
    loca: int,
    glyf: int,
    ilf: int,
    ng: int,
    comp: int,
    depth: int,
)
    requires
        depth >= 1,
        0 <= comp,
        comp + 8 <= s.len(),
        be_u16(s, comp) == 3,
        be_i16(s, comp + 4) == 0,
        be_i16(s, comp + 6) == 0,
    ensures
        ({
            let sub = spec_glyph_shape(s, loca, glyf, ilf, ng, be_u16(s, comp + 2), depth - 1);
            sub matches Ok(Some(vs)) ==> spec_composite_rec(s, loca, glyf, ilf, ng, comp,
                depth) == Ok::<Seq<Vertex>, OutlineError>(vs)
        }),
{
    let sub = spec_glyph_shape(s, loca, glyf, ilf, ng, be_u16(s, comp + 2), depth - 1);
    match sub {
        Ok(Some(vs)) => {
            assert(is_isqrt(16384int * 16384, 16384int)) by (nonlinear_arith);
            lemma_isqrt_is(16384int * 16384, 16384int);
            let xf = CompXf {
                a: 16384,
                b: 0,
                c: 0,
                d: 16384,
                e: 0,
                f: 0,
                m: 16384,
                n: 16384,
            };
            lemma_identity_transform_outline(xf, vs);
            assert((3u16 & 2) != 0 && (3u16 & 1) != 0 && (3u16 & 8) == 0 && (3u16 & 64) == 0
                && (3u16 & 128) == 0 && (3u16 & 32) == 0) by (bit_vector);
            assert(spec_composite_rec(s, loca, glyf, ilf, ng, comp, depth) == Ok::<
                Seq<Vertex>,
                OutlineError,
            >(vs.map_values(|v: Vertex| spec_xform_vertex(xf, v))));
        },
        _ => {},
    }
}

/// Both rows of the identity transform return their own coordinate.
proof fn lemma_identity_coord(xf: CompXf, x: int, y: int)
    requires
        xf.a == 16384,
        xf.b == 0,
        xf.c == 0,
        xf.d == 16384,
        xf.e == 0,
        xf.f == 0,
        xf.m == 16384,
        xf.n == 16384,
    ensures
        -0x8000 <= x <= 0x7fff ==> spec_xform_coord(16384, 0, 0, 16384, x, y) == x,
        -0x8000 <= y <= 0x7fff ==> spec_xform_coord(0, 16384, 0, 16384, x, y) == y,
{
    lemma_tdiv_cancel(x);
    lemma_tdiv_cancel(y);
    assert(16384 * x + 0 * y == 16384 * x) by (nonlinear_arith);
    assert(0 * x + 16384 * y == 16384 * y) by (nonlinear_arith);
}

/// A `MoveTo` vertex.
pub open spec fn v_move(x: int, y: int) -> Vertex {
    Vertex { x: x as i16, y: y as i16, cx: 0, cy: 0, kind: VertexType::MoveTo }
}

/// A `LineTo` vertex.
pub open spec fn v_line(x: int, y: int) -> Vertex {
    Vertex { x: x as i16, y: y as i16, cx: 0, cy: 0, kind: VertexType::LineTo }
}

/// A `CurveTo` vertex.
pub open spec fn v_curve(x: int, y: int, cx: int, cy: int) -> Vertex {
    Vertex { x: x as i16, y: y as i16, cx: cx as i16, cy: cy as i16, kind: VertexType::CurveTo }
}

/// The floor of the average of two coordinates: the implied on-curve point
/// between two off-curve control points.
pub open spec fn mid2(a: int, b: int) -> int {
    (a + b) / 2
}

/// The vertices that close a contour: back to the start point `(sx, sy)`,
/// through the pending control point and, for a contour that began
/// off-curve, through the saved starting control point `(scx, scy)`.
pub open spec fn spec_close_contour(
    was_off: bool,
    cx: int,
    cy: int,
    sx: int,
    sy: int,
    scx: int,
    scy: int,
    start_off: bool,
) -> Seq<Vertex> {
    if start_off {
        (if was_off {
            seq![v_curve(mid2(cx, scx), mid2(cy, scy), cx, cy)]
        } else {
            Seq::empty()
        }) + seq![v_curve(sx, sy, scx, scy)]
    } else {
        if was_off {
            seq![v_curve(sx, sy, cx, cy)]
        } else {
            seq![v_line(sx, sy)]
        }
    }
}

/// The vertices the on/off-curve walk emits from point `i` through `p1`,
/// then closing: an on-curve point after an off-curve one ends a quadratic
/// segment, two off-curve points in a row imply an on-curve midpoint, and
/// runs of on-curve points draw lines.
pub open spec fn spec_contour_walk(
    flags: Seq<u8>,
    xs: Seq<i16>,
    ys: Seq<i16>,
    i: int,
    p1: int,
    was_off: bool,
    cx: int,
    cy: int,
    sx: int,
    sy: int,
    scx: int,
    scy: int,
    start_off: bool,
) -> Seq<Vertex>
    decreases p1 + 1 - i,
{
    if i < 0 || i > p1 {
        spec_close_contour(was_off, cx, cy, sx, sy, scx, scy, start_off)
    } else {
        if flags[i] & 1 == 0 {
            (if was_off {
                seq![v_curve(mid2(cx, xs[i] as int), mid2(cy, ys[i] as int), cx, cy)]
            } else {
                Seq::empty()
            }) + spec_contour_walk(flags, xs, ys, i + 1, p1, true, xs[i] as int, ys[i] as int,
                sx, sy, scx, scy, start_off)
        } else {
            (if was_off {
                seq![v_curve(xs[i] as int, ys[i] as int, cx, cy)]
            } else {
                seq![v_line(xs[i] as int, ys[i] as int)]
            }) + spec_contour_walk(flags, xs, ys, i + 1, p1, false, cx, cy, sx, sy, scx, scy,
                start_off)
        }
    }
}

/// The whole decoded contour over points `p0 ..= p1`: the starting on-curve
/// point is the first point itself, the on-curve point that follows an
/// off-curve start, or a midpoint synthesized between two off-curve points,
/// and the walk closes back onto it.
pub open spec fn spec_contour(flags: Seq<u8>, xs: Seq<i16>, ys: Seq<i16>, p0: int, p1: int)
    -> Seq<Vertex> {
    if flags[p0] & 1 != 0 {
        seq![v_move(xs[p0] as int, ys[p0] as int)] + spec_contour_walk(flags, xs, ys, p0 + 1,
            p1, false, 0, 0, xs[p0] as int, ys[p0] as int, 0, 0, false)
    } else {
        let nxt = if p0 + 1 <= p1 {
            p0 + 1
        } else {
            p0
        };
        if flags[nxt] & 1 == 0 {
            let sx = mid2(xs[p0] as int, xs[nxt] as int);
            let sy = mid2(ys[p0] as int, ys[nxt] as int);
            seq![v_move(sx, sy)] + spec_contour_walk(flags, xs, ys, p0 + 1, p1, false, 0, 0, sx,
                sy, xs[p0] as int, ys[p0] as int, true)
        } else {
            seq![v_move(xs[nxt] as int, ys[nxt] as int)] + spec_contour_walk(flags, xs, ys, p0
                + 2, p1, false, 0, 0, xs[nxt] as int, ys[nxt] as int, xs[p0] as int,
                ys[p0] as int, true)
        }
    }
}

/// Floor of the average of two stored coordinates, the implied on-curve
/// midpoint between two off-curve control points.
fn mid16(a: i16, b: i16) -> (r: i16)
    ensures
        r as int == (a + b) / 2,
{
    let sum: i32 = a as i32 + b as i32;
    if sum >= 0 {
        (sum / 2) as i16
    } else {
        let q: i32 = ((-sum) + 1) / 2;
        (-q) as i16
    }
}

/// Walk the decoded points of one contour, turning on/off-curve runs into
/// vertices, per `spec_contour`: a synthesized or explicit starting
/// `MoveTo`, `LineTo` for on-curve runs, `CurveTo` with an implied midpoint
/// between consecutive off-curve points, and a final vertex that lands back
/// on the start.
fn decode_contour(
    flags: &Vec<u8>,
    xs: &Vec<i16>,
    ys: &Vec<i16>,
    p0: usize,
    p1: usize,
    out: &mut Vec<Vertex>,
)
    requires
        flags@.len() <= 0x10000,
        flags@.len() == xs@.len(),
        flags@.len() == ys@.len(),
        p0 <= p1 < flags@.len(),
        wf_outline(old(out)@),
    ensures
        final(out)@ == old(out)@ + spec_contour(flags@, xs@, ys@, p0 as int, p1 as int),
        wf_outline(final(out)@),
        count_moveto(final(out)@) == count_moveto(old(out)@) + 1,
        final(out)@.len() >= old(out)@.len() + 2,
{
    let ghost total = spec_contour(flags@, xs@, ys@, p0 as int, p1 as int);
    let mut c: Vec<Vertex> = Vec::new();
    let sx: i16;
    let sy: i16;
    let mut scx: i16 = 0;
    let mut scy: i16 = 0;
    let mut i: usize;
    let start_off = flags[p0] & 1 == 0;
    if !start_off {
        sx = xs[p0];
        sy = ys[p0];
        i = p0 + 1;
    } else {
        scx = xs[p0];
        scy = ys[p0];
        let nxt: usize = if p0 + 1 <= p1 {
            p0 + 1
        } else {
            p0
        };
        if flags[nxt] & 1 == 0 {
            sx = mid16(xs[p0], xs[nxt]);
            sy = mid16(ys[p0], ys[nxt]);
            i = p0 + 1;
        } else {
            sx = xs[nxt];
            sy = ys[nxt];
            i = p0 + 2;
        }
    }
    c.push(Vertex { x: sx, y: sy, cx: 0, cy: 0, kind: VertexType::MoveTo });
    let mut was_off = false;
    let mut cx: i16 = 0;
    let mut cy: i16 = 0;
    proof {
        assert(total == c@ + spec_contour_walk(flags@, xs@, ys@, i as int, p1 as int, was_off,
            cx as int, cy as int, sx as int, sy as int, scx as int, scy as int, start_off))
            by {
            assert(seq![c@[0]] + spec_contour_walk(flags@, xs@, ys@, i as int, p1 as int,
                was_off, cx as int, cy as int, sx as int, sy as int, scx as int, scy as int,
                start_off) =~= c@ + spec_contour_walk(flags@, xs@, ys@, i as int, p1 as int,
                was_off, cx as int, cy as int, sx as int, sy as int, scx as int, scy as int,
                start_off));
        }
    }
    while i <= p1
        invariant
            flags@.len() <= 0x10000,
            p1 < flags@.len(),
            flags@.len() == xs@.len(),
            flags@.len() == ys@.len(),
            c@.len() >= 1,
            c@[0].kind == VertexType::MoveTo,
            c@[0].x == sx,
            c@[0].y == sy,
            forall|j: int| 1 <= j < c@.len() ==> c@[j].kind != VertexType::MoveTo,
            total == c@ + spec_contour_walk(flags@, xs@, ys@, i as int, p1 as int, was_off,
                cx as int, cy as int, sx as int, sy as int, scx as int, scy as int, start_off),
        decreases p1 + 1 - i,
    {
        let ghost i0 = i as int;
        let ghost before = c@;
        let ghost walk0 = spec_contour_walk(flags@, xs@, ys@, i0, p1 as int, was_off, cx as int,
            cy as int, sx as int, sy as int, scx as int, scy as int, start_off);
        let x = xs[i];
        let y = ys[i];
        if flags[i] & 1 == 0 {
            if was_off {
                c.push(Vertex {
                    x: mid16(cx, x),
                    y: mid16(cy, y),
                    cx,
                    cy,
                    kind: VertexType::CurveTo,
                });
            }
            cx = x;
            cy = y;
            was_off = true;
        } else {
            if was_off {
                c.push(Vertex { x, y, cx, cy, kind: VertexType::CurveTo });
            } else {
                c.push(Vertex { x, y, cx: 0, cy: 0, kind: VertexType::LineTo });
            }
            was_off = false;
        }
        i = i + 1;
        proof {
            let walk1 = spec_contour_walk(flags@, xs@, ys@, i0 + 1, p1 as int, was_off,
                cx as int, cy as int, sx as int, sy as int, scx as int, scy as int, start_off);
            assert(before + walk0 =~= c@ + walk1);
        }
    }
    let ghost before_close = c@;
    if start_off {
        if was_off {
            c.push(Vertex {
                x: mid16(cx, scx),
                y: mid16(cy, scy),
                cx,
                cy,
                kind: VertexType::CurveTo,
            });
        }
        c.push(Vertex { x: sx, y: sy, cx: scx, cy: scy, kind: VertexType::CurveTo });
    } else {
        if was_off {
            c.push(Vertex { x: sx, y: sy, cx, cy, kind: VertexType::CurveTo });
        } else {
            c.push(Vertex { x: sx, y: sy, cx: 0, cy: 0, kind: VertexType::LineTo });
        }
    }
    proof {
        assert(before_close + spec_close_contour(was_off, cx as int, cy as int, sx as int,
            sy as int, scx as int, scy as int, start_off) =~= c@);
        assert(c@ =~= total);
        assert(c@.last() == c@[c@.len() - 1]);
        assert(wf_contour(c@));
        lemma_contour_wf(c@);
        lemma_append_wf(out@, c@);
        lemma_count_moveto_append(out@, c@);
        lemma_count_moveto_single(c@);
    }
    out.append(&mut c);
}

/// The contour end-point indices of a simple glyph at `g`.
pub open spec fn spec_read_ends(s: Seq<u8>, g: int, nc: int) -> Seq<int> {
    Seq::new(nc as nat, |j: int| be_u16(s, g + 10 + 2 * j))
}

/// The concatenated contours over the decoded point arrays, from contour
/// `j` on: each contour covers the points from just past the previous end
/// through its own end.
pub open spec fn spec_contours_cat(
    flags: Seq<u8>,
    xs: Seq<i16>,
    ys: Seq<i16>,
    ends: Seq<int>,
    j: int,
) -> Seq<Vertex>
    decreases ends.len() - j,
{
    if j < 0 || j >= ends.len() {
        Seq::empty()
    } else {
        let pp0 = if j == 0 {
            0
        } else {
            ends[j - 1] + 1
        };
        spec_contour(flags, xs, ys, pp0, ends[j]) + spec_contours_cat(flags, xs, ys, ends, j + 1)
    }
}

/// The full decode of a simple glyph with `nc` contours at `g`: flags,
/// x and y coordinates, then one closed contour per declared contour;
/// `None` when the point data runs out of the buffer.
pub open spec fn spec_simple_glyph(s: Seq<u8>, g: int, nc: int) -> Option<Seq<Vertex>> {
    let ends = spec_read_ends(s, g, nc);
    let n_pts = ends[nc - 1] + 1;
    let ps = g + 10 + 2 * nc + 2 + be_u16(s, g + 10 + 2 * nc);
    match spec_decode_flags(s, ps, n_pts) {
        None => None,
        Some((fl, xp)) => match spec_decode_coords(s, xp, fl, 0, 2, 16, 0) {
            None => None,
            Some((gxs, yp)) => match spec_decode_coords(s, yp, fl, 0, 4, 32, 0) {
                None => None,
                Some((gys, e)) => Some(spec_contours_cat(fl, gxs, gys, ends, 0)),
            },
        },
    }
}

/// How deep component references are followed before a composite glyph is
/// rejected, guarding against reference cycles.
pub const COMPONENT_DEPTH: u32 = 8;

/// Whether `r` is the integer square root of `v`.
pub open spec fn is_isqrt(v: int, r: int) -> bool {
    0 <= r && r * r <= v && v < (r + 1) * (r + 1)
}

/// The integer square root of `v`.
pub open spec fn spec_isqrt(v: int) -> int {
    choose|r: int| is_isqrt(v, r)
}

/// The integer square root is unique, so any witness names it.
pub proof fn lemma_isqrt_is(v: int, r: int)
    requires
        is_isqrt(v, r),
    ensures
        spec_isqrt(v) == r,
{
    assert(exists|x: int| is_isqrt(v, x)) by {
        assert(is_isqrt(v, r));
    }
    let c = spec_isqrt(v);
    assert(is_isqrt(v, c));
    assert(c == r) by (nonlinear_arith)
        requires is_isqrt(v, c) && is_isqrt(v, r);
}

/// When a simple glyph's description is well formed: the contour ends and
/// instruction length lie inside the buffer, the contour ends strictly
/// increase, the point data starts inside the buffer, and the flag and
/// coordinate arrays decode without running out.
pub open spec fn spec_simple_ok(s: Seq<u8>, g: int, nc: int) -> bool {
    &&& g + 12 + 2 * nc <= s.len()
    &&& forall|j: int|
        1 <= j < nc ==> #[trigger] be_u16(s, g + 10 + 2 * j) > be_u16(s, g + 10 + 2 * (j - 1))
    &&& g + 12 + 2 * nc + be_u16(s, g + 10 + 2 * nc) <= s.len()
    &&& spec_simple_glyph(s, g, nc) is Some
}

/// An executable outline result as its ghost value.
pub open spec fn spec_shape_result(r: Result<Option<Vec<Vertex>>, OutlineError>) -> Result<
    Option<Seq<Vertex>>,
    OutlineError,
> {
    match r {
        Ok(None) => Ok(None),
        Ok(Some(vs)) => Ok(Some(vs@)),
        Err(e) => Err(e),
    }
}

/// An executable component-run result as its ghost value.
pub open spec fn spec_comp_result(r: Result<Vec<Vertex>, OutlineError>) -> Result<
    Seq<Vertex>,
    OutlineError,
> {
    match r {
        Ok(vs) => Ok(vs@),
        Err(e) => Err(e),
    }
}

/// The decoded vertices of the component records from `comp` on: each
/// record names a component glyph, an offset (words or unsigned bytes), and
/// an optional scale, x/y scale or full 2x2 matrix in 1/16384 units; the
/// component's recursively decoded outline is mapped through
/// `spec_xform_vertex` and concatenated in record order, until a record
/// without the more-components bit.  `Err(Unsupported)` for point-matching
/// records (no x/y-values bit) or exhausted recursion depth,
/// `Err(Malformed)` for a record that runs out of the buffer.
pub open spec fn spec_composite_rec(
    s: Seq<u8>,
    loca: int,
    glyf: int,
    ilf: int,
    ng: int,
    comp: int,
    depth: int,
) -> Result<Seq<Vertex>, OutlineError>
    decreases depth, 1int, s.len() - comp,
{
    if depth <= 0 {
        Err(OutlineError::Unsupported)
    } else if comp < 0 || comp + 4 > s.len() {
        Err(OutlineError::Malformed)
    } else {
        let fl = be_u16(s, comp) as u16;
        let gidx = be_u16(s, comp + 2);
        if fl & 2 == 0 {
            Err(OutlineError::Unsupported)
        } else {
            let has_words = fl & 1 != 0;
            let off_end = if has_words {
                comp + 8
            } else {
                comp + 6
            };
            if off_end > s.len() {
                Err(OutlineError::Malformed)
            } else {
                let e = if has_words {
                    be_i16(s, comp + 4)
                } else {
                    s[comp + 4] as int
                };
                let f = if has_words {
                    be_i16(s, comp + 6)
                } else {
                    s[comp + 5] as int
                };
                let scale_len = if fl & 8 != 0 {
                    2int
                } else if fl & 64 != 0 {
                    4int
                } else if fl & 128 != 0 {
                    8int
                } else {
                    0int
                };
                if off_end + scale_len > s.len() {
                    Err(OutlineError::Malformed)
                } else {
                    let a = if fl & 8 != 0 || fl & 64 != 0 || fl & 128 != 0 {
                        be_i16(s, off_end)
                    } else {
                        16384
                    };
                    let b = if fl & 8 == 0 && fl & 64 == 0 && fl & 128 != 0 {
                        be_i16(s, off_end + 2)
                    } else {
                        0
                    };
                    let c = if fl & 8 == 0 && fl & 64 == 0 && fl & 128 != 0 {
                        be_i16(s, off_end + 4)
                    } else {
                        0
                    };
                    let d = if fl & 8 != 0 {
                        be_i16(s, off_end)
                    } else if fl & 64 != 0 {
                        be_i16(s, off_end + 2)
                    } else if fl & 128 != 0 {
                        be_i16(s, off_end + 6)
                    } else {
                        16384
                    };
                    let xf = CompXf {
                        a: a as i32,
                        b: b as i32,
                        c: c as i32,
                        d: d as i32,
                        e: e as i32,
                        f: f as i32,
                        m: spec_isqrt(a * a + b * b) as u32,
                        n: spec_isqrt(c * c + d * d) as u32,
                    };
                    let cpos = off_end + scale_len;
                    match spec_glyph_shape(s, loca, glyf, ilf, ng, gidx, depth - 1) {
                        Err(err) => Err(err),
                        Ok(sub) => {
                            let part = match sub {
                                None => Seq::empty(),
                                Some(vs) => vs.map_values(|v: Vertex| spec_xform_vertex(xf, v)),
                            };
                            if fl & 32 != 0 {
                                match spec_composite_rec(s, loca, glyf, ilf, ng, cpos, depth) {
                                    Err(err) => Err(err),
                                    Ok(rest) => Ok(part + rest),
                                }
                            } else {
                                Ok(part)
                            }
                        },
                    }
                }
            }
        }
    }
}

/// The decoded outline of glyph `gi`, to component depth `depth`: `Ok(None)`
/// for an absent, empty or zero-contour entry; the exact simple-glyph
/// decode for a positive contour count, `Err(Malformed)` when that
/// description is ill-formed; the transformed component concatenation for a
/// composite; `Err(Unsupported)` for a contour count below -1.
pub open spec fn spec_glyph_shape(
    s: Seq<u8>,
    loca: int,
    glyf: int,
    ilf: int,
    ng: int,
    gi: int,
    depth: int,
) -> Result<Option<Seq<Vertex>>, OutlineError>
    decreases depth, 2int, 0int,
{
    match spec_glyf_offset(s, loca, glyf, ilf, ng, gi) {
        None => Ok(None),
        Some(g) => {
            if g + 2 > s.len() {
                Err(OutlineError::Malformed)
            } else {
                let nc = be_i16(s, g);
                if nc == 0 {
                    Ok(None)
                } else if nc < -1 {
                    Err(OutlineError::Unsupported)
                } else if nc > 0 {
                    if spec_simple_ok(s, g, nc) {
                        Ok(Some(spec_simple_glyph(s, g, nc)->0))
                    } else {
                        Err(OutlineError::Malformed)
                    }
                } else if depth <= 0 {
                    Err(OutlineError::Unsupported)
                } else if g + 14 > s.len() {
                    Err(OutlineError::Malformed)
                } else {
                    match spec_composite_rec(s, loca, glyf, ilf, ng, g + 10, depth) {
                        Err(err) => Err(err),
                        Ok(vs) => Ok(Some(vs)),
                    }
                }
            }
        },
    }
}

impl FontInfo {
    /// The `glyf` entry offset for a glyph, through `loca`; `None` for an
    /// out-of-range glyph, an unknown `loca` format, or an empty entry.
    fn get_glyf_offset(&self, glyph_index: u32) -> (r: Option<u64>)
        requires
            self.wf(),
        ensures
            ({
                let sp = spec_glyf_offset(self.data@, self.loca as int, self.glyf as int,
                    self.index_to_loc_format as int, self.num_glyphs as int, glyph_index as int);
                &&& r is Some <==> sp is Some
                &&& r matches Some(g) ==> Some(g as int) == sp && g <= 0x2_0000_0000
            }),
    {
        let n: usize = self.data.len();
        let s = self.data.as_slice();
        if glyph_index >= self.num_glyphs || self.index_to_loc_format >= 2 {
            return None;
        }
        let gi = glyph_index as usize;
        let loca = self.loca as usize;
        let g1: u64;
        let g2: u64;
        if self.index_to_loc_format == 0 {
            g1 = self.glyf as u64 + 2 * (read_u16_be(s, loca + 2 * gi) as u64);
            g2 = self.glyf as u64 + 2 * (read_u16_be(s, loca + 2 * gi + 2) as u64);
        } else {
            g1 = self.glyf as u64 + read_u32_be(s, loca + 4 * gi) as u64;
            g2 = self.glyf as u64 + read_u32_be(s, loca + 4 * gi + 4) as u64;
        }
        if g1 == g2 {
            None
        } else {
            Some(g1)
        }
    }
    /// Decode the outline of a glyph, exactly as `spec_glyph_shape` states
    /// at the component recursion bound: `Ok(None)` when the glyph has no
    /// outline entry or an empty one, `Ok(Some(..))` with the closed-contour
    /// vertex sequence, `Err` when the description is truncated or uses an
    /// unsupported feature.  A simple glyph decodes if and only if its
    /// description is well formed, to one closed contour per declared
    /// contour; a composite glyph concatenates its components' outlines,
    /// each mapped through its record's fixed-point transform, in record
    /// order.
    pub fn get_glyph_shape(&self, glyph_index: u32) -> (r: Result<Option<Vec<Vertex>>,
        OutlineError>)
        requires
            self.wf(),
        ensures
            spec_shape_result(r) == spec_glyph_shape(self.data@, self.loca as int,
                self.glyf as int, self.index_to_loc_format as int, self.num_glyphs as int,
                glyph_index as int, COMPONENT_DEPTH as int),
            r matches Ok(Some(vs)) ==> wf_outline(vs@),
            ({
                let sp = spec_glyf_offset(self.data@, self.loca as int, self.glyf as int,
                    self.index_to_loc_format as int, self.num_glyphs as int, glyph_index as int);
                sp matches Some(g) ==> (g + 2 <= self.data@.len() && be_i16(self.data@, g) > 0
                    ==> (r matches Ok(Some(vs)) ==> count_moveto(vs@) == be_i16(self.data@, g)
                    && vs@.len() >= 2 * be_i16(self.data@, g)))
            }),
    {
        self.glyph_shape_rec(glyph_index, COMPONENT_DEPTH)
    }

    /// `get_glyph_shape` with the component recursion bound made explicit.
    #[verifier::loop_isolation(false)]
    #[verifier::rlimit(100)]
    fn glyph_shape_rec(&self, glyph_index: u32, depth: u32) -> (r: Result<Option<Vec<Vertex>>,
        OutlineError>)
        requires
            self.wf(),
        ensures
            spec_shape_result(r) == spec_glyph_shape(self.data@, self.loca as int,
                self.glyf as int, self.index_to_loc_format as int, self.num_glyphs as int,
                glyph_index as int, depth as int),
            r matches Ok(Some(vs)) ==> wf_outline(vs@),
            ({
                let sp = spec_glyf_offset(self.data@, self.loca as int, self.glyf as int,
                    self.index_to_loc_format as int, self.num_glyphs as int, glyph_index as int);
                sp matches Some(g) ==> (g + 2 <= self.data@.len() && be_i16(self.data@, g) > 0
                    ==> (r matches Ok(Some(vs)) ==> count_moveto(vs@) == be_i16(self.data@, g)
                    && vs@.len() >= 2 * be_i16(self.data@, g)))
            }),
        decreases depth, 2int, 0int,
    {
        let n: usize = self.data.len();
        let len64: u64 = n as u64;
        let s = self.data.as_slice();
        let g64 = match self.get_glyf_offset(glyph_index) {
            Some(g) => g,
            None => {
                return Ok(None);
            },
        };
        if g64 + 2 > len64 {
            return Err(OutlineError::Malformed);
        }
        let g = g64 as usize;
        let nc = read_i16_be(s, g);
        if nc == 0 {
            return Ok(None);
        }
        if nc < -1 {
            return Err(OutlineError::Unsupported);
        }
        if nc > 0 {
            return match self.decode_simple(g64, nc) {
                Ok(vs) => Ok(Some(vs)),
                Err(err) => Err(err),
            };
        }
        // composite glyph
        if depth == 0 {
            return Err(OutlineError::Unsupported);
        }
        if g64 + 14 > len64 {
            return Err(OutlineError::Malformed);
        }
        match self.composite_components(g64 + 10, depth) {
            Err(err) => Err(err),
            Ok(vs) => Ok(Some(vs)),
        }
    }

    /// Decode a simple glyph with `nc` contours at `g`, exactly when its
    /// description is well formed, per `spec_simple_ok`/`spec_simple_glyph`.
    #[verifier::loop_isolation(false)]
    #[verifier::rlimit(100)]
    fn decode_simple(&self, g64: u64, nc: i16) -> (r: Result<Vec<Vertex>, OutlineError>)
        requires
            self.wf(),
            0 < nc,
            g64 + 2 <= self.data@.len(),
            g64 <= 0x2_0000_0000,
        ensures
            ({
                let sq = self.data@;
                match r {
                    Ok(vs) => {
                        &&& spec_simple_ok(sq, g64 as int, nc as int)
                        &&& spec_simple_glyph(sq, g64 as int, nc as int) == Some(vs@)
                        &&& wf_outline(vs@)
                        &&& count_moveto(vs@) == nc
                        &&& vs@.len() >= 2 * nc
                    },
                    Err(err) => err == OutlineError::Malformed && !spec_simple_ok(sq,
                        g64 as int, nc as int),
                }
            }),
    {
        let n: usize = self.data.len();
        let len64: u64 = n as u64;
        let s = self.data.as_slice();
        let g = g64 as usize;
        {
            let ncont = nc as usize;
            if (g as u64) + 12 + 2 * (ncont as u64) > len64 {
                return Err(OutlineError::Malformed);
            }
            let mut ends: Vec<usize> = Vec::new();
            let mut prev: usize = 0;
            let mut j: usize = 0;
            while j < ncont
                invariant
                    n == self.data@.len(),
                    s@ == self.data@,
                    j <= ncont,
                    1 <= ncont <= 0x7fff,
                    g + 12 + 2 * ncont <= n,
                    ends@.len() == j,
                    j >= 1 ==> prev == ends@[j - 1],
                    forall|k1: int, k2: int| 0 <= k1 < k2 < j ==> ends@[k1] < ends@[k2],
                    forall|k: int| 0 <= k < j ==> ends@[k] <= 0xffff,
                    forall|k: int|
                        0 <= k < j ==> ends@[k] == be_u16(self.data@, g + 10 + 2 * k),
                decreases ncont - j,
            {
                let e = read_u16_be(s, g + 10 + 2 * j) as usize;
                if j > 0 && e <= prev {
                    proof {
                        assert(be_u16(self.data@, g + 10 + 2 * (j as int)) <= be_u16(
                            self.data@,
                            g + 10 + 2 * (j as int - 1),
                        ));
                        assert(!spec_simple_ok(self.data@, g as int, nc as int));
                    }
                    return Err(OutlineError::Malformed);
                }
                ends.push(e);
                prev = e;
                j = j + 1;
            }
            let npts: usize = prev + 1;
            let ins = read_u16_be(s, g + 10 + 2 * ncont) as u64;
            let ps64: u64 = (g as u64) + 10 + 2 * (ncont as u64) + 2 + ins;
            if ps64 > len64 {
                return Err(OutlineError::Malformed);
            }
            let ghost ends_spec = spec_read_ends(self.data@, g as int, nc as int);
            proof {
                assert(ends_spec =~= Seq::new(ncont as nat, |k: int| ends@[k] as int));
            }
            let (flags, xpos) = match decode_flags(s, ps64 as usize, npts) {
                Some(v) => v,
                None => {
                    proof {
                        assert(spec_simple_glyph(self.data@, g as int, nc as int) is None);
                    }
                    return Err(OutlineError::Malformed);
                },
            };
            let (xs, ypos) = match decode_coords(s, xpos, &flags, 2, 16) {
                Some(v) => v,
                None => {
                    proof {
                        assert(spec_simple_glyph(self.data@, g as int, nc as int) is None);
                    }
                    return Err(OutlineError::Malformed);
                },
            };
            let (ys, _yend) = match decode_coords(s, ypos, &flags, 4, 32) {
                Some(v) => v,
                None => {
                    proof {
                        assert(spec_simple_glyph(self.data@, g as int, nc as int) is None);
                    }
                    return Err(OutlineError::Malformed);
                },
            };
            let mut out: Vec<Vertex> = Vec::new();
            let mut p0: usize = 0;
            let mut jj: usize = 0;
            proof {
                assert(Seq::<Vertex>::empty() + spec_contours_cat(flags@, xs@, ys@, ends_spec,
                    0) =~= spec_contours_cat(flags@, xs@, ys@, ends_spec, 0));
            }
            while jj < ncont
                invariant
                    jj <= ncont,
                    ends@.len() == ncont,
                    1 <= ncont <= 0x7fff,
                    flags@.len() == npts,
                    xs@.len() == npts,
                    ys@.len() == npts,
                    npts <= 0x10000,
                    npts == ends@[ncont - 1] + 1,
                    forall|k1: int, k2: int| 0 <= k1 < k2 < ncont ==> ends@[k1] < ends@[k2],
                    forall|k: int| 0 <= k < ncont ==> ends@[k] <= 0xffff,
                    ends_spec.len() == ncont,
                    forall|k: int| 0 <= k < ncont ==> ends_spec[k] == ends@[k],
                    jj == 0 ==> p0 == 0,
                    jj >= 1 ==> p0 == ends@[jj - 1] + 1,
                    wf_outline(out@),
                    count_moveto(out@) == jj,
                    out@.len() >= 2 * jj,
                    spec_contours_cat(flags@, xs@, ys@, ends_spec, 0) == out@
                        + spec_contours_cat(flags@, xs@, ys@, ends_spec, jj as int),
                decreases ncont - jj,
            {
                let ghost before = out@;
                let ghost jj0 = jj as int;
                let p1 = ends[jj];
                proof {
                    if jj < ncont - 1 {
                        assert(ends@[jj as int] < ends@[ncont - 1]);
                    }
                }
                decode_contour(&flags, &xs, &ys, p0, p1, &mut out);
                p0 = p1 + 1;
                jj = jj + 1;
                proof {
                    assert(before + (spec_contour(flags@, xs@, ys@, if jj0 == 0 {
                        0int
                    } else {
                        ends_spec[jj0 - 1] + 1
                    }, ends_spec[jj0]) + spec_contours_cat(flags@, xs@, ys@, ends_spec, jj0
                        + 1)) =~= out@ + spec_contours_cat(flags@, xs@, ys@, ends_spec, jj0
                        + 1));
                }
            }
            proof {
                assert forall|jx: int|
                    1 <= jx < nc implies #[trigger] be_u16(self.data@, g + 10 + 2 * jx)
                    > be_u16(self.data@, g + 10 + 2 * (jx - 1)) by {
                    assert(ends@[jx - 1] < ends@[jx]);
                }
                assert(spec_simple_ok(self.data@, g as int, nc as int));
                assert(spec_simple_glyph(self.data@, g as int, nc as int) == Some(out@));
            }
            Ok(out)
        }
    }

    /// Decode the component records at `comp`, per `spec_composite_rec`:
    /// one record per call, its referenced glyph decoded one level deeper
    /// and mapped through the record's transform, then the remaining
    /// records while the more-components bit is set.
    #[verifier::loop_isolation(false)]
    #[verifier::rlimit(100)]
    fn composite_components(&self, comp: u64, depth: u32) -> (r: Result<Vec<Vertex>,
        OutlineError>)
        requires
            self.wf(),
            depth >= 1,
            comp + 4 <= self.data@.len(),
        ensures
            spec_comp_result(r) == spec_composite_rec(self.data@, self.loca as int,
                self.glyf as int, self.index_to_loc_format as int, self.num_glyphs as int,
                comp as int, depth as int),
            r matches Ok(vs) ==> wf_outline(vs@),
        decreases depth, 1int, self.data@.len() - comp,
    {
        let n: usize = self.data.len();
        let len64: u64 = n as u64;
        let s = self.data.as_slice();
        let fl = read_u16_be(s, comp as usize);
        let gidx = read_u16_be(s, (comp + 2) as usize);
        if fl & 2 == 0 {
            return Err(OutlineError::Unsupported);
        }
        let has_words = fl & 1 != 0;
        if has_words && len64 - comp < 8 {
            return Err(OutlineError::Malformed);
        }
        if !has_words && len64 - comp < 6 {
            return Err(OutlineError::Malformed);
        }
        let off_end: u64 = if has_words {
            comp + 8
        } else {
            comp + 6
        };
        let e_off: i32;
        let f_off: i32;
        if has_words {
            e_off = read_i16_be(s, (comp + 4) as usize) as i32;
            f_off = read_i16_be(s, (comp + 6) as usize) as i32;
        } else {
            e_off = read_u8_at(s, (comp + 4) as usize) as i32;
            f_off = read_u8_at(s, (comp + 5) as usize) as i32;
        }
        let scale_len: u64 = if fl & 8 != 0 {
            2
        } else if fl & 64 != 0 {
            4
        } else if fl & 128 != 0 {
            8
        } else {
            0
        };
        if len64 - off_end < scale_len {
            return Err(OutlineError::Malformed);
        }
        let mut a: i32 = 16384;
        let mut b: i32 = 0;
        let mut c2: i32 = 0;
        let mut d: i32 = 16384;
        if fl & 8 != 0 {
            a = read_i16_be(s, off_end as usize) as i32;
            d = a;
        } else if fl & 64 != 0 {
            a = read_i16_be(s, off_end as usize) as i32;
            d = read_i16_be(s, (off_end + 2) as usize) as i32;
        } else if fl & 128 != 0 {
            a = read_i16_be(s, off_end as usize) as i32;
            b = read_i16_be(s, (off_end + 2) as usize) as i32;
            c2 = read_i16_be(s, (off_end + 4) as usize) as i32;
            d = read_i16_be(s, (off_end + 6) as usize) as i32;
        }
        proof {
            assert(0 <= (a as int) * (a as int) <= 0x4000_0000) by (nonlinear_arith)
                requires -0x8000 <= a <= 0x7fff;
            assert(0 <= (b as int) * (b as int) <= 0x4000_0000) by (nonlinear_arith)
                requires -0x8000 <= b <= 0x7fff;
            assert(0 <= (c2 as int) * (c2 as int) <= 0x4000_0000) by (nonlinear_arith)
                requires -0x8000 <= c2 <= 0x7fff;
            assert(0 <= (d as int) * (d as int) <= 0x4000_0000) by (nonlinear_arith)
                requires -0x8000 <= d <= 0x7fff;
        }
        let mm: i64 = (a as i64) * (a as i64) + (b as i64) * (b as i64);
        let nn: i64 = (c2 as i64) * (c2 as i64) + (d as i64) * (d as i64);
        let m = isqrt(mm as u32);
        let n2 = isqrt(nn as u32);
        let xf = CompXf { a, b, c: c2, d, e: e_off, f: f_off, m, n: n2 };
        let cpos: u64 = off_end + scale_len;
        let part: Vec<Vertex> = match self.glyph_shape_rec(gidx as u32, depth - 1) {
            Err(err) => {
                return Err(err);
            },
            Ok(None) => Vec::new(),
            Ok(Some(sv)) => {
                let mut tmp: Vec<Vertex> = Vec::new();
                let mut k: usize = 0;
                while k < sv.len()
                    invariant
                        k <= sv@.len(),
                        xf_bounded(xf),
                        tmp@.len() == k,
                        forall|q: int| 0 <= q < k ==> tmp@[q] == spec_xform_vertex(xf, sv@[q]),
                    decreases sv@.len() - k,
                {
                    tmp.push(transform_vertex(&xf, &sv[k]));
                    k = k + 1;
                }
                proof {
                    assert(tmp@ =~= sv@.map_values(|v: Vertex| spec_xform_vertex(xf, v)));
                    assert forall|q: int| 0 <= q < sv@.len() implies tmp@[q].kind
                        == sv@[q].kind by {
                        assert(tmp@[q] == spec_xform_vertex(xf, sv@[q]));
                    }
                    assert forall|q1: int, q2: int|
                        0 <= q1 < sv@.len() && 0 <= q2 < sv@.len() && sv@[q1].x == sv@[q2].x
                            && sv@[q1].y == sv@[q2].y implies tmp@[q1].x == tmp@[q2].x
                        && tmp@[q1].y == tmp@[q2].y by {
                        assert(tmp@[q1] == spec_xform_vertex(xf, sv@[q1]));
                        assert(tmp@[q2] == spec_xform_vertex(xf, sv@[q2]));
                    }
                    lemma_map_wf(sv@, tmp@);
                }
                tmp
            },
        };
        if fl & 32 != 0 {
            if len64 - cpos < 4 {
                proof {
                    assert(spec_composite_rec(self.data@, self.loca as int, self.glyf as int,
                        self.index_to_loc_format as int, self.num_glyphs as int, cpos as int,
                        depth as int) == Err::<Seq<Vertex>, OutlineError>(
                        OutlineError::Malformed));
                }
                return Err(OutlineError::Malformed);
            }
            match self.composite_components(cpos, depth) {
                Err(err) => Err(err),
                Ok(rest_vec) => {
                    let mut result = part;
                    let mut rest = rest_vec;
                    proof {
                        lemma_append_wf(result@, rest@);
                    }
                    result.append(&mut rest);
                    Ok(result)
                },
            }
        } else {
            Ok(part)
        }
    }
}

} // verus!
