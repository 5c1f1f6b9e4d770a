//! Horizontal and vertical metrics: advance widths and bearings from `hmtx`,
//! ascent/descent/line-gap from `hhea`, and pairwise kerning from `kern`.

use vstd::prelude::*;
use crate::reader::{be_i16, be_u16, be_u32, read_i16_be, read_u16_be, read_u32_be};
use crate::face::FontInfo;

verus! {

/// Advance width and left side bearing of one glyph, in font design units.
#[derive(Clone, Copy, Debug, PartialEq, Eq, Structural)]
pub struct HMetrics {
    /// Pen advance after the glyph.
    pub advance_width: i32,
    /// Offset from the pen position to the glyph's left edge.
    pub left_side_bearing: i32,
}

/// Vertical extent of the font, in font design units.
#[derive(Clone, Copy, Debug, PartialEq, Eq, Structural)]
pub struct VMetrics {
    /// Height of the font above the baseline.
    pub ascent: i32,
    /// Extent below the baseline, typically negative.
    pub descent: i32,
    /// Spacing between one row's descent and the next row's ascent.
    pub line_gap: i32,
}

/// The advance width of glyph `gi`: its own long metric, or the last long
/// metric's advance for glyphs beyond `numOfLongHorMetrics`.
pub open spec fn spec_h_advance(s: Seq<u8>, hhea: int, hmtx: int, gi: int) -> int {
    let num_long = be_u16(s, hhea + 34);
    if gi < num_long {
        be_i16(s, hmtx + 4 * gi)
    } else {
        be_i16(s, hmtx + 4 * (num_long - 1))
    }
}

/// The left side bearing of glyph `gi`: from its long metric, or from the
/// trailing bearing array for glyphs beyond `numOfLongHorMetrics`.
pub open spec fn spec_left_side_bearing(s: Seq<u8>, hhea: int, hmtx: int, gi: int) -> int {
    let num_long = be_u16(s, hhea + 34);
    if gi < num_long {
        be_i16(s, hmtx + 4 * gi + 2)
    } else {
        be_i16(s, hmtx + 4 * num_long + 2 * (gi - num_long))
    }
}

/// Whether the `kern` table at `k` is consulted at all: present, with at
/// least one subtable, whose first subtable is format 0 with the horizontal
/// coverage bit set.
pub open spec fn spec_kern_usable(s: Seq<u8>, k: int) -> bool {
    k != 0 && be_u16(s, k + 2) >= 1 && be_u16(s, k + 8) == 1
}

/// The packed key of kerning pair `m`: left glyph in the high 16 bits, right
/// glyph in the low 16 bits.
pub open spec fn spec_kern_key(s: Seq<u8>, k: int, m: int) -> int {
    be_u32(s, k + 18 + 6 * m)
}

/// The adjustment of kerning pair `m`.
pub open spec fn spec_kern_value(s: Seq<u8>, k: int, m: int) -> int {
    be_i16(s, k + 22 + 6 * m)
}

/// Whether the pair array is sorted strictly by key, as the format requires
/// for its binary search.
pub open spec fn spec_kern_sorted(s: Seq<u8>, k: int) -> bool {
    forall|m1: int, m2: int|
        0 <= m1 < m2 < be_u16(s, k + 10) ==> spec_kern_key(s, k, m1) < spec_kern_key(s, k, m2)
}

/// The listed kerning adjustment for the packed pair `g1:g2`, 0 when the
/// table is unusable or the pair is absent.
pub open spec fn spec_kern_lookup(s: Seq<u8>, k: int, g1: int, g2: int) -> int {
    if !spec_kern_usable(s, k) {
        0
    } else {
        let np = be_u16(s, k + 10);
        let needle = g1 * 0x10000 + g2;
        if exists|m: int| 0 <= m < np && spec_kern_key(s, k, m) == needle {
            spec_kern_value(s, k, choose|m: int| 0 <= m < np && spec_kern_key(s, k, m) == needle)
        } else {
            0
        }
    }
}

impl FontInfo {
    /// Advance width and left side bearing of a glyph, from `hmtx`.
    pub fn get_glyph_h_metrics(&self, glyph_index: u32) -> (r: HMetrics)
        requires
            self.wf(),
            glyph_index < self.num_glyphs,
        ensures
            r.advance_width == spec_h_advance(self.data@, self.hhea as int, self.hmtx as int,
                glyph_index as int),
            r.left_side_bearing == spec_left_side_bearing(self.data@, self.hhea as int,
                self.hmtx as int, glyph_index as int),
    {
        let n: usize = self.data.len();
        let s = self.data.as_slice();
        let num_long = read_u16_be(s, (self.hhea as usize) + 34) as usize;
        let gi = glyph_index as usize;
        if gi < num_long {
            HMetrics {
                advance_width: read_i16_be(s, (self.hmtx as usize) + 4 * gi) as i32,
                left_side_bearing: read_i16_be(s, (self.hmtx as usize) + 4 * gi + 2) as i32,
            }
        } else {
            HMetrics {
                advance_width: read_i16_be(s, (self.hmtx as usize) + 4 * (num_long - 1)) as i32,
                left_side_bearing: read_i16_be(
                    s,
                    (self.hmtx as usize) + 4 * num_long + 2 * (gi - num_long),
                ) as i32,
            }
        }
    }

    /// The kerning adjustment for the pair `(glyph_1, glyph_2)`, from the
    /// first `kern` subtable, by binary search over the sorted pair array.
    /// Returns 0 when `kern` is absent or unusable or, on a sorted table,
    /// when the pair is not listed.
    pub fn get_glyph_kern_advance(&self, glyph_1: u32, glyph_2: u32) -> (r: i32)
        requires
            self.wf(),
            glyph_1 < 0x10000,
            glyph_2 < 0x10000,
        ensures
            !spec_kern_usable(self.data@, self.kern as int) ==> r == 0,
            spec_kern_usable(self.data@, self.kern as int) && spec_kern_sorted(self.data@,
                self.kern as int) ==> {
                let np = be_u16(self.data@, self.kern + 10);
                let needle = glyph_1 * 0x10000 + glyph_2;
                &&& forall|m: int|
                    0 <= m < np && spec_kern_key(self.data@, self.kern as int, m) == needle
                        ==> r == spec_kern_value(self.data@, self.kern as int, m)
                &&& (forall|m: int|
                    0 <= m < np ==> spec_kern_key(self.data@, self.kern as int, m) != needle)
                    ==> r == 0
                &&& r == spec_kern_lookup(self.data@, self.kern as int, glyph_1 as int,
                    glyph_2 as int)
            },
    {
        let n: usize = self.data.len();
        let s = self.data.as_slice();
        let k = self.kern as usize;
        if self.kern == 0 {
            return 0;
        }
        if read_u16_be(s, k + 2) < 1 || read_u16_be(s, k + 8) != 1 {
            return 0;
        }
        let np = read_u16_be(s, k + 10) as i32;
        let needle: u32 = glyph_1 * 0x10000 + glyph_2;
        let mut l: i32 = 0;
        let mut r: i32 = np - 1;
        let ghost sq = self.data@;
        let ghost ki = self.kern as int;
        while l <= r
            invariant
                self.wf(),
                sq == self.data@,
                s@ == self.data@,
                ki == self.kern,
                n == sq.len(),
                spec_kern_usable(sq, ki),
                k == ki,
                np == be_u16(sq, ki + 10),
                needle == glyph_1 * 0x10000 + glyph_2,
                0 <= l,
                r < np,
                l <= np,
                spec_kern_sorted(sq, ki) ==> forall|j: int|
                    0 <= j < np && spec_kern_key(sq, ki, j) == needle ==> l <= j <= r,
            decreases r + 1 - l,
        {
            let m = (l + r) / 2;
            let straw = read_u32_be(s, k + 18 + 6 * (m as usize));
            if needle < straw {
                proof {
                    if spec_kern_sorted(sq, ki) {
                        assert forall|j: int|
                            0 <= j < np && spec_kern_key(sq, ki, j) == needle implies j <= m
                            - 1 by {
                            if j >= m {
                                if j > m {
                                    assert(spec_kern_key(sq, ki, m as int) < spec_kern_key(sq, ki, j));
                                }
                            }
                        }
                    }
                }
                r = m - 1;
            } else if needle > straw {
                proof {
                    if spec_kern_sorted(sq, ki) {
                        assert forall|j: int|
                            0 <= j < np && spec_kern_key(sq, ki, j) == needle implies m + 1
                            <= j by {
                            if j <= m {
                                if j < m {
                                    assert(spec_kern_key(sq, ki, j) < spec_kern_key(sq, ki, m as int));
                                }
                            }
                        }
                    }
                }
                l = m + 1;
            } else {
                proof {
                    if spec_kern_sorted(sq, ki) {
                        assert forall|j: int|
                            0 <= j < np && spec_kern_key(sq, ki, j) == needle implies j
                            == m by {
                            if j < m {
                                assert(spec_kern_key(sq, ki, j) < spec_kern_key(sq, ki, m as int));
                            }
                            if j > m {
                                assert(spec_kern_key(sq, ki, m as int) < spec_kern_key(sq, ki, j));
                            }
                        }
                    }
                }
                proof {
                    if spec_kern_sorted(sq, ki) {
                        assert(spec_kern_key(sq, ki, m as int) == needle);
                        let m0 = choose|mm: int|
                            0 <= mm < np && spec_kern_key(sq, ki, mm) == needle;
                        assert(m0 == m);
                    }
                }
                return read_i16_be(s, k + 22 + 6 * (m as usize)) as i32;
            }
        }
        0
    }

    /// Ascent, descent and line gap, from `hhea`.
    pub fn get_v_metrics(&self) -> (r: VMetrics)
        requires
            self.wf(),
        ensures
            r.ascent == be_i16(self.data@, self.hhea + 4),
            r.descent == be_i16(self.data@, self.hhea + 6),
            r.line_gap == be_i16(self.data@, self.hhea + 8),
    {
        let n: usize = self.data.len();
        let s = self.data.as_slice();
        VMetrics {
            ascent: read_i16_be(s, (self.hhea as usize) + 4) as i32,
            descent: read_i16_be(s, (self.hhea as usize) + 6) as i32,
            line_gap: read_i16_be(s, (self.hhea as usize) + 8) as i32,
        }
    }
}

} // verus!
