//! The text layout engine: an ordered collection of parsed fonts used as a
//! fallback chain, glyph resolution, line measurement with soft wrapping,
//! alignment, and the two-pass `render` that turns a string into path
//! operations.
//!
//! Pixel positions are fixed-point: 1 pixel = 65536 units.

use vstd::prelude::*;
use crate::bidi::{spec_visual_order, visual_order};
use crate::cmap::{
    fmt12_ends, fmt4_ends, keys_nondecreasing, lemma_increasing_from_adjacent,
    lemma_nondecreasing_from_adjacent, spec_cmap_orderly, spec_glyph_index,
};
use crate::face::{spec_font_ok, spec_index_map, spec_kern_field, spec_num_glyphs, FontInfo};
use crate::glyf::{spec_glyph_shape, tdiv, COMPONENT_DEPTH};
use crate::metrics::{
    spec_h_advance, spec_kern_key, spec_kern_lookup, spec_kern_sorted, spec_kern_usable,
};
use crate::ops::{emit_glyph_ops, spec_glyph_ops, wf_ops, PathOp};
use crate::reader::{be_i16, be_u16, be_u32, read_u16_be, read_u32_be};
use crate::tables::{
    get_font_offset_for_index, spec_find_table, spec_font_offset_for_index, TAG_GLYF, TAG_HEAD,
    TAG_HHEA, TAG_HMTX, TAG_LOCA,
};

verus! {

/// Text alignment within the target box.
#[derive(Clone, Copy, Debug, PartialEq, Eq, Structural)]
pub enum TextAlign {
    /// Align text to the left.
    Left,
    /// Align text to the center.
    Center,
    /// Align text to the right.
    Right,
    /// Justify text.
    Justified,
    /// Vertical text.
    Vertical,
}

/// Control codepoint that resets the style flags.
pub const NONE: char = '\x01';

/// Control codepoint that sets the bold style flag.
pub const BOLD: char = '\x02';

/// Control codepoint that sets the italic style flag.
pub const ITALIC: char = '\x03';

/// Why a render call failed.
#[derive(Clone, Copy, Debug, PartialEq, Eq, Structural)]
pub enum LayoutError {
    /// A codepoint is in no font of the chain, and the primary font has no
    /// replacement-character glyph either.
    NoGlyph,
}

/// One font of the fallback chain, with the scalars layout divides by.
#[derive(Clone, Debug)]
pub struct StyledFont {
    /// The parsed font.
    pub info: FontInfo,
    /// Ascent minus descent, the em-box height layout scales against.
    pub height: i32,
    /// Units per em, from `head`.
    pub upem: u16,
}

/// What layout relies on of one chain entry: a valid parsed font whose
/// searched tables are really sorted, and a positive height.
pub open spec fn styled_wf(f: StyledFont) -> bool {
    &&& f.info.wf()
    &&& 1 <= f.height <= 0x20000
    &&& f.height == be_i16(f.info.data@, f.info.hhea + 4) - be_i16(f.info.data@, f.info.hhea
        + 6)
    &&& f.upem == be_u16(f.info.data@, f.info.head + 18)
    &&& spec_cmap_orderly(f.info.data@, f.info.index_map as int)
    &&& spec_kern_usable(f.info.data@, f.info.kern as int) ==> spec_kern_sorted(f.info.data@,
        f.info.kern as int)
}

/// A collection of TTF/OTF fonts used as a single font with fallback.
#[derive(Debug)]
pub struct Font {
    /// The fallback chain; index 0 is the primary font.
    pub fonts: Vec<StyledFont>,
}

impl Font {
    /// Every chain entry is usable for layout.
    pub open spec fn wf(self) -> bool {
        forall|i: int| 0 <= i < self.fonts@.len() ==> #[trigger] styled_wf(self.fonts@[i])
    }

    /// Create a new empty `Font`.  Add fonts with `push()`.
    pub fn new() -> (r: Font)
        ensures
            r.fonts@.len() == 0,
            r.wf(),
    {
        Font { fonts: Vec::new() }
    }
}

impl Default for Font {
    /// An empty fallback chain.
    fn default() -> (r: Font)
        ensures
            r.fonts@.len() == 0,
            r.wf(),
    {
        Font { fonts: Vec::new() }
    }
}

/// Whether the keys `be_u16(base + 2 i)`, `i < count`, never decrease.
fn nondec_u16_keys(s: &[u8], base: usize, count: usize) -> (r: bool)
    requires
        base + 2 * count <= s@.len(),
        count <= 0x10000,
    ensures
        r == keys_nondecreasing(Seq::new(count as nat, |i: int| be_u16(s@, base + 2 * i))),
{
    let ghost keys = Seq::new(count as nat, |i: int| be_u16(s@, base + 2 * i));
    let slen = s.len();
    let mut i: usize = 1;
    while i < count
        invariant
            1 <= i,
            i <= count || count == 0,
            slen == s@.len(),
            base + 2 * count <= slen,
            count <= 0x10000,
            keys == Seq::new(count as nat, |j: int| be_u16(s@, base + 2 * j)),
            forall|m: int| 0 <= m < i - 1 ==> #[trigger] keys[m] <= keys[m + 1],
        decreases count - i,
    {
        let prev = read_u16_be(s, base + 2 * (i - 1));
        let cur = read_u16_be(s, base + 2 * i);
        if prev > cur {
            proof {
                assert(keys[i - 1] == prev && keys[i as int] == cur);
                assert(!keys_nondecreasing(keys));
            }
            return false;
        }
        proof {
            assert(keys[i - 1] == prev && keys[i as int] == cur);
        }
        i = i + 1;
    }
    proof {
        lemma_nondecreasing_from_adjacent(keys);
    }
    true
}

/// Whether the keys `be_u32(base + 12 g)`, `g < count`, never decrease.
fn nondec_u32_keys12(s: &[u8], base: usize, count: usize) -> (r: bool)
    requires
        count > 0 ==> base + 12 * (count - 1) + 4 <= s@.len(),
    ensures
        r == keys_nondecreasing(Seq::new(count as nat, |g: int| be_u32(s@, base + 12 * g))),
{
    let ghost keys = Seq::new(count as nat, |g: int| be_u32(s@, base + 12 * g));
    let slen = s.len();
    let mut i: usize = 1;
    while i < count
        invariant
            1 <= i,
            i <= count || count == 0,
            slen == s@.len(),
            count > 0 ==> base + 12 * (count - 1) + 4 <= slen,
            keys == Seq::new(count as nat, |g: int| be_u32(s@, base + 12 * g)),
            forall|m: int| 0 <= m < i - 1 ==> #[trigger] keys[m] <= keys[m + 1],
        decreases count - i,
    {
        let prev = read_u32_be(s, base + 12 * (i - 1));
        let cur = read_u32_be(s, base + 12 * i);
        if prev > cur {
            proof {
                assert(keys[i - 1] == prev && keys[i as int] == cur);
                assert(!keys_nondecreasing(keys));
            }
            return false;
        }
        proof {
            assert(keys[i - 1] == prev && keys[i as int] == cur);
        }
        i = i + 1;
    }
    proof {
        lemma_nondecreasing_from_adjacent(keys);
    }
    true
}

/// Whether a font's searched tables are sorted as their formats require: the
/// `cmap` subtable's search keys never decrease and, when the `kern` table
/// is usable, its pair keys strictly increase.
fn font_orderly(info: &FontInfo) -> (r: bool)
    requires
        info.wf(),
    ensures
        r == (spec_cmap_orderly(info.data@, info.index_map as int) && (spec_kern_usable(
            info.data@,
            info.kern as int,
        ) ==> spec_kern_sorted(info.data@, info.kern as int))),
{
    let n: usize = info.data.len();
    let s = info.data.as_slice();
    let im = info.index_map as usize;
    let format = read_u16_be(s, im);
    let cmap_ok: bool;
    if format == 4 {
        let segcount = (read_u16_be(s, im + 6) / 2) as usize;
        cmap_ok = nondec_u16_keys(s, im + 14, segcount);
        proof {
            assert(fmt4_ends(info.data@, im as int) =~= Seq::new(segcount as nat, |i: int|
                be_u16(info.data@, im + 14 + 2 * i)));
        }
    } else if format == 12 || format == 13 {
        let ngroups64 = read_u32_be(s, im + 12) as u64;
        let ngroups = ngroups64 as usize;
        if ngroups == 0 {
            cmap_ok = true;
            proof {
                assert(fmt12_ends(info.data@, im as int) =~= Seq::<int>::empty());
            }
        } else {
            cmap_ok = nondec_u32_keys12(s, im + 20, ngroups);
            proof {
                assert(fmt12_ends(info.data@, im as int) =~= Seq::new(ngroups as nat, |g: int|
                    be_u32(info.data@, im + 20 + 12 * g)));
            }
        }
    } else {
        cmap_ok = true;
    }
    if !cmap_ok {
        return false;
    }
    let k = info.kern as usize;
    if info.kern != 0 {
        if read_u16_be(s, k + 2) >= 1 && read_u16_be(s, k + 8) == 1 {
            let np = read_u16_be(s, k + 10) as usize;
            let ghost keys = Seq::new(np as nat, |m: int| spec_kern_key(info.data@,
                info.kern as int, m));
            let mut m: usize = 1;
            while m < np
                invariant
                    1 <= m,
                    m <= np || np == 0,
                    n == info.data@.len(),
                    s@ == info.data@,
                    k == info.kern,
                    info.wf(),
                    spec_kern_usable(info.data@, info.kern as int),
                    np == be_u16(info.data@, info.kern + 10),
                    keys == Seq::new(np as nat, |q: int| spec_kern_key(info.data@,
                        info.kern as int, q)),
                    forall|q: int| 0 <= q < m - 1 ==> #[trigger] keys[q] < keys[q + 1],
                decreases np - m,
            {
                let prev = read_u32_be(s, k + 18 + 6 * (m - 1));
                let cur = read_u32_be(s, k + 18 + 6 * m);
                if prev >= cur {
                    proof {
                        assert(keys[m - 1] == prev && keys[m as int] == cur);
                        assert(!spec_kern_sorted(info.data@, info.kern as int));
                    }
                    return false;
                }
                proof {
                    assert(keys[m - 1] == prev && keys[m as int] == cur);
                }
                m = m + 1;
            }
            proof {
                lemma_increasing_from_adjacent(keys);
                assert forall|m1: int, m2: int|
                    0 <= m1 < m2 < be_u16(info.data@, info.kern + 10) implies spec_kern_key(
                    info.data@,
                    info.kern as int,
                    m1,
                ) < spec_kern_key(info.data@, info.kern as int, m2) by {
                    assert(keys[m1] < keys[m2]);
                }
            }
        }
    }
    true
}

/// Ascent minus descent of the font at `off`.
pub open spec fn spec_face_height(s: Seq<u8>, off: int) -> int {
    let hhea = spec_find_table(s, off, TAG_HHEA as int);
    be_i16(s, hhea + 4) - be_i16(s, hhea + 6)
}

/// When `push` accepts a buffer: it is a bare font or a collection whose
/// first font parses, its height is positive, and its searched tables are
/// sorted.
pub open spec fn spec_push_ok(s: Seq<u8>) -> bool {
    &&& spec_font_offset_for_index(s, 0) is Some
    &&& {
        let off = spec_font_offset_for_index(s, 0)->0;
        &&& spec_font_ok(s, off)
        &&& 1 <= spec_face_height(s, off)
        &&& spec_cmap_orderly(s, spec_index_map(s, off))
        &&& spec_kern_usable(s, spec_kern_field(s, off)) ==> spec_kern_sorted(s,
            spec_kern_field(s, off))
    }
}

impl Font {
    /// Add a TTF or OTF font's glyphs to this `Font`.  The buffer must parse
    /// as a font with a positive height and sorted search tables; otherwise
    /// the chain is dropped and `None` is returned.
    pub fn push(self, font_data: Vec<u8>) -> (r: Option<Font>)
        requires
            self.wf(),
        ensures
            r is Some <==> spec_push_ok(font_data@),
            r matches Some(f) ==> {
                let off = spec_font_offset_for_index(font_data@, 0)->0;
                let last = f.fonts@.last();
                &&& f.wf()
                &&& f.fonts@.len() == self.fonts@.len() + 1
                &&& f.fonts@.subrange(0, self.fonts@.len() as int) == self.fonts@
                &&& last.info.data@ == font_data@
                &&& last.height == spec_face_height(font_data@, off)
                &&& last.upem == be_u16(font_data@, spec_find_table(font_data@, off,
                    TAG_HEAD as int) + 18)
                &&& last.info.loca == spec_find_table(font_data@, off, TAG_LOCA as int)
                &&& last.info.head == spec_find_table(font_data@, off, TAG_HEAD as int)
                &&& last.info.glyf == spec_find_table(font_data@, off, TAG_GLYF as int)
                &&& last.info.hhea == spec_find_table(font_data@, off, TAG_HHEA as int)
                &&& last.info.hmtx == spec_find_table(font_data@, off, TAG_HMTX as int)
                &&& last.info.kern == spec_kern_field(font_data@, off)
                &&& last.info.num_glyphs == spec_num_glyphs(font_data@, off)
                &&& last.info.index_map == spec_index_map(font_data@, off)
                &&& last.info.index_to_loc_format == be_u16(font_data@, last.info.head + 50)
            },
    {
        let off = match get_font_offset_for_index(font_data.as_slice(), 0) {
            Some(o) => o,
            None => {
                return None;
            },
        };
        let info = match FontInfo::new(font_data, off as usize) {
            Ok(i) => i,
            Err(_) => {
                return None;
            },
        };
        let vm = info.get_v_metrics();
        let height = vm.ascent - vm.descent;
        if height < 1 {
            return None;
        }
        let upem = info.units_per_em();
        if !font_orderly(&info) {
            return None;
        }
        let mut fonts = self.fonts;
        let ghost before = fonts@;
        fonts.push(StyledFont { info, height, upem });
        proof {
            assert(fonts@.subrange(0, before.len() as int) =~= before);
            assert forall|i: int| 0 <= i < fonts@.len() implies #[trigger] styled_wf(
                fonts@[i],
            ) by {
                if i < before.len() {
                    assert(fonts@[i] == before[i]);
                }
            }
        }
        Some(Font { fonts })
    }
}

/// The index of the first font whose character map has the codepoint, from
/// `i` on; the chain length when none does.
pub open spec fn spec_first_supporting(fonts: Seq<StyledFont>, cp: int, i: int) -> int
    decreases fonts.len() - i,
{
    if i < 0 || i >= fonts.len() {
        fonts.len() as int
    } else if spec_glyph_index(fonts[i].info.data@, fonts[i].info.index_map as int, cp) != 0 {
        i
    } else {
        spec_first_supporting(fonts, cp, i + 1)
    }
}

/// How a codepoint resolves against the fallback chain: the first font with
/// a glyph for it wins; a codepoint in no font falls back to the primary
/// font's replacement-character glyph; `None` when that is absent too.
pub open spec fn spec_resolve(fonts: Seq<StyledFont>, cp: int) -> Option<(int, int)> {
    let i = spec_first_supporting(fonts, cp, 0);
    if i < fonts.len() {
        Some((i, spec_glyph_index(fonts[i].info.data@, fonts[i].info.index_map as int, cp)))
    } else {
        let rg = spec_glyph_index(fonts[0].info.data@, fonts[0].info.index_map as int, 0xfffd);
        if rg != 0 {
            Some((0, rg))
        } else {
            None
        }
    }
}

impl Font {
    /// Resolve a character against the fallback chain: the first font that
    /// maps it wins, else the primary font's replacement-character glyph.
    pub fn resolve_glyph(&self, c: char) -> (r: Result<(usize, u32), LayoutError>)
        requires
            self.wf(),
            self.fonts@.len() >= 1,
        ensures
            r matches Ok((fi, gi)) ==> Some((fi as int, gi as int)) == spec_resolve(
                self.fonts@,
                c as int,
            ),
            r is Err ==> spec_resolve(self.fonts@, c as int) is None && r == Err::<(usize, u32),
                LayoutError>(LayoutError::NoGlyph),
    {
        let n = self.fonts.len();
        let mut i: usize = 0;
        while i < n
            invariant
                n == self.fonts@.len(),
                i <= n,
                self.wf(),
                spec_first_supporting(self.fonts@, c as int, 0) == spec_first_supporting(
                    self.fonts@,
                    c as int,
                    i as int,
                ),
            decreases n - i,
        {
            assert(styled_wf(self.fonts@[i as int]));
            let gi = self.fonts[i].info.find_glyph_index(c as u32);
            if gi != 0 {
                return Ok((i, gi));
            }
            i = i + 1;
        }
        assert(styled_wf(self.fonts@[0]));
        let rg = self.fonts[0].info.find_glyph_index(0xfffd);
        if rg != 0 {
            Ok((0, rg))
        } else {
            Err(LayoutError::NoGlyph)
        }
    }
}

/// `Some(v)` as a ghost integer option.
pub open spec fn opt_u32_int(o: Option<u32>) -> Option<int> {
    match o {
        None => None,
        Some(v) => Some(v as int),
    }
}

/// `Some(v)` as a ghost integer option.
pub open spec fn opt_usize_int(o: Option<usize>) -> Option<int> {
    match o {
        None => None,
        Some(v) => Some(v as int),
    }
}

/// The kerning applied before glyph `gi` when `last` preceded it: the
/// listed pair adjustment, or 0 with no predecessor or out-of-range ids.
pub open spec fn spec_char_kern(f: StyledFont, gi: int, last: Option<int>) -> int {
    match last {
        None => 0,
        Some(l) => if 0 <= l < 0x10000 && 0 <= gi < 0x10000 {
            spec_kern_lookup(f.info.data@, f.info.kern as int, gi, l)
        } else {
            0
        },
    }
}

/// The fixed-point pixel advance of glyph `gi` in font `f` at character
/// width `wh0`: the advance width plus kerning, scaled by `wh0 / height`.
/// A glyph outside the font's declared range advances by nothing.
pub open spec fn spec_advance(f: StyledFont, gi: int, last: Option<int>, wh0: int) -> int {
    if 0 <= gi < f.info.num_glyphs {
        tdiv(
            (spec_h_advance(f.info.data@, f.info.hhea as int, f.info.hmtx as int, gi)
                + spec_char_kern(f, gi, last)) * wh0,
            f.height as int,
        )
    } else {
        0
    }
}

/// The measuring pass from character `i` on, with the running glyph,
/// accumulated length and soft-break candidate: the break position (`None`
/// when the whole text fits) and the accumulated fixed-point length.  A
/// newline breaks at its own position; a tab advances four vertical-metric
/// units; a character that pushes the length past `width` breaks just after
/// the last space when one was seen, else at the character itself.
/// The whole result is `None` when some character cannot be resolved.
pub open spec fn spec_measure(
    fonts: Seq<StyledFont>,
    chars: Seq<char>,
    wh0: int,
    wh1: int,
    width: int,
    i: int,
    last: Option<int>,
    acc: int,
    last_space: int,
) -> Option<(Option<int>, int)>
    decreases chars.len() - i,
{
    if i < 0 || i >= chars.len() {
        Some((None, acc))
    } else {
        let c = chars[i];
        if c == '\n' {
            Some((Some(i), acc))
        } else if c == NONE || c == BOLD || c == ITALIC {
            spec_measure(fonts, chars, wh0, wh1, width, i + 1, last, acc, last_space)
        } else if c == '\t' {
            let acc2 = acc + 4 * wh1;
            if acc2 > width {
                Some((Some(if last_space != 0 {
                    last_space + 1
                } else {
                    i
                }), acc2))
            } else {
                spec_measure(fonts, chars, wh0, wh1, width, i + 1, last, acc2, last_space)
            }
        } else {
            let ls = if c == ' ' {
                i
            } else {
                last_space
            };
            match spec_resolve(fonts, c as int) {
                None => None,
                Some((fi, gi)) => {
                    let acc2 = acc + spec_advance(fonts[fi], gi, last, wh0);
                    if acc2 > width {
                        Some((Some(if ls != 0 {
                            ls + 1
                        } else {
                            i
                        }), acc2))
                    } else {
                        spec_measure(fonts, chars, wh0, wh1, width, i + 1, Some(gi), acc2, ls)
                    }
                },
            }
        }
    }
}

impl Font {
    /// Measure how much of `text` fits a line of fixed-point width `width`
    /// at character size `wh`: the break position, if any, and the
    /// accumulated length, per `spec_measure`.
    pub fn measure_line(&self, text: &Vec<char>, wh: (i64, i64), width: i64) -> (r: Result<(
        Option<usize>, i64), LayoutError>)
        requires
            self.wf(),
            self.fonts@.len() >= 1,
            0 <= wh.0 <= 0x100_0000,
            0 <= wh.1 <= 0x100_0000,
            -0x4000_0000 <= width <= 0x4000_0000,
            text@.len() <= 0x10000,
        ensures
            r matches Ok((lo, acc)) ==> spec_measure(self.fonts@, text@, wh.0 as int,
                wh.1 as int, width as int, 0, None, 0, 0) == Some((opt_usize_int(lo),
                acc as int)) && -0x400_0000_0000_0000 <= acc <= 0x400_0000_0000_0000 && (
            lo matches Some(v) ==> v <= text@.len()),
            r is Err ==> spec_measure(self.fonts@, text@, wh.0 as int, wh.1 as int, width as int,
                0, None, 0, 0) is None && r == Err::<(Option<usize>, i64), LayoutError>(
                LayoutError::NoGlyph),
    {
        let n = text.len();
        let mut i: usize = 0;
        let mut last: Option<u32> = None;
        let mut acc: i64 = 0;
        let mut last_space: usize = 0;
        while i < n
            invariant
                n == text@.len(),
                n <= 0x10000,
                i <= n,
                self.wf(),
                self.fonts@.len() >= 1,
                0 <= wh.0 <= 0x100_0000,
                0 <= wh.1 <= 0x100_0000,
                -0x4000_0000 <= width <= 0x4000_0000,
                acc <= width || acc <= 0,
                -0x100_0000_0000 * (i as int) <= acc,
                last_space <= i,
                last matches Some(g) ==> g < 0x1_0000_0000,
                spec_measure(self.fonts@, text@, wh.0 as int, wh.1 as int, width as int, 0,
                    None, 0, 0) == spec_measure(self.fonts@, text@, wh.0 as int, wh.1 as int,
                    width as int, i as int, opt_u32_int(last), acc as int, last_space as int),
            decreases n - i,
        {
            let c = text[i];
            if c == '\n' {
                return Ok((Some(i), acc));
            }
            if c == NONE || c == BOLD || c == ITALIC {
                i = i + 1;
                continue;
            }
            if c == '\t' {
                let acc2 = acc + 4 * wh.1;
                if acc2 > width {
                    let brk: usize = if last_space != 0 {
                        last_space + 1
                    } else {
                        i
                    };
                    return Ok((Some(brk), acc2));
                }
                acc = acc2;
                i = i + 1;
                continue;
            }
            let ls: usize = if c == ' ' {
                i
            } else {
                last_space
            };
            let (fi, gi) = match self.resolve_glyph(c) {
                Ok(v) => v,
                Err(_) => {
                    return Err(LayoutError::NoGlyph);
                },
            };
            assert(styled_wf(self.fonts@[fi as int]));
            let adv = self.char_advance(fi, gi, last, wh.0);
            let acc2 = acc + adv;
            if acc2 > width {
                let brk: usize = if ls != 0 {
                    ls + 1
                } else {
                    i
                };
                return Ok((Some(brk), acc2));
            }
            last = Some(gi);
            acc = acc2;
            last_space = ls;
            i = i + 1;
        }
        Ok((None, acc))
    }

    /// The fixed-point advance of one resolved glyph, per `spec_advance`.
    fn char_advance(&self, fi: usize, gi: u32, last: Option<u32>, wh0: i64) -> (r: i64)
        requires
            self.wf(),
            fi < self.fonts@.len(),
            0 <= wh0 <= 0x100_0000,
            last matches Some(g) ==> g < 0x1_0000_0000,
        ensures
            r == spec_advance(self.fonts@[fi as int], gi as int, opt_u32_int(last), wh0 as int),
            -0x100_0000_0000 <= r <= 0x100_0000_0000,
    {
        proof {
            assert(styled_wf(self.fonts@[fi as int]));
        }
        let f = &self.fonts[fi];
        if gi >= f.info.num_glyphs {
            return 0;
        }
        let hm = f.info.get_glyph_h_metrics(gi);
        let kern: i32 = match last {
            None => 0,
            Some(l) => {
                if l < 0x10000 && gi < 0x10000 {
                    f.info.get_glyph_kern_advance(gi, l)
                } else {
                    0
                }
            },
        };
        proof {
            assert(-0x100_0000_0000 <= ((hm.advance_width + kern) as int) * (wh0 as int)
                <= 0x100_0000_0000) by (nonlinear_arith)
                requires -0x10000 <= hm.advance_width + kern <= 0x10000 && 0 <= wh0
                    <= 0x100_0000;
        }
        let num: i64 = (hm.advance_width as i64 + kern as i64) * wh0;
        proof {
            crate::glyf::lemma_tdiv_magnitude(num as int, f.height as int);
        }
        crate::glyf::tdiv64(num, f.height as i64)
    }
}

/// The start coordinate each alignment chooses: unchanged for `Left`,
/// `Justified` and `Vertical`, flushed right for `Right`, centered for
/// `Center` as `(x + (x + width) - length) / 2` truncated toward zero.
pub open spec fn spec_align_start(text_align: TextAlign, bbox_x: int, width: int, length: int)
    -> int {
    match text_align {
        TextAlign::Center => tdiv(bbox_x + bbox_x + width - length, 2),
        TextAlign::Right => bbox_x + width - length,
        _ => bbox_x,
    }
}

/// The fixed-point start coordinate for one line, per `spec_align_start`.
pub fn align_start(text_align: TextAlign, bbox_x: i64, width: i64, length: i64) -> (r: i64)
    requires
        -0x4000_0000 <= bbox_x <= 0x4000_0000,
        -0x4000_0000 <= width <= 0x4000_0000,
        -0x400_0000_0000_0000 <= length <= 0x400_0000_0000_0000,
    ensures
        r == spec_align_start(text_align, bbox_x as int, width as int, length as int),
        text_align is Center ==> r == tdiv(bbox_x + bbox_x + width - length, 2),
        text_align is Right ==> r == bbox_x + width - length,
        text_align is Left || text_align is Justified || text_align is Vertical ==> r == bbox_x,
        -0x500_0000_0000_0000 <= r <= 0x500_0000_0000_0000,
    {
    match text_align {
        TextAlign::Left => bbox_x,
        TextAlign::Justified => bbox_x,
        TextAlign::Vertical => bbox_x,
        TextAlign::Right => bbox_x + width - length,
        TextAlign::Center => crate::glyf::tdiv64(bbox_x + bbox_x + width - length, 2),
    }
}

/// The operations the second pass emits from visual position `j` on, with
/// the running pen and previous glyph: control codepoints contribute
/// nothing, a tab moves the pen, and every other character resolves through
/// the fallback chain and contributes its glyph's outline (when it decodes
/// to one) scaled by `wh / height` at the pen, the pen then advancing by
/// the glyph's advance plus kerning, or by one line in vertical mode.
pub open spec fn spec_render_ops(
    fonts: Seq<StyledFont>,
    vis: Seq<char>,
    j: int,
    pen_x: int,
    pen_y: int,
    wh0: int,
    wh1: int,
    vertical: bool,
    last: Option<int>,
) -> Seq<PathOp>
    decreases vis.len() - j,
{
    if j < 0 || j >= vis.len() {
        Seq::empty()
    } else {
        let c = vis[j];
        if c == NONE || c == BOLD || c == ITALIC {
            spec_render_ops(fonts, vis, j + 1, pen_x, pen_y, wh0, wh1, vertical, last)
        } else if c == '\t' {
            if vertical {
                spec_render_ops(fonts, vis, j + 1, pen_x, pen_y + wh1, wh0, wh1, vertical, last)
            } else {
                spec_render_ops(fonts, vis, j + 1, pen_x + 4 * wh1, pen_y, wh0, wh1, vertical,
                    last)
            }
        } else {
            match spec_resolve(fonts, c as int) {
                None => spec_render_ops(fonts, vis, j + 1, pen_x, pen_y, wh0, wh1, vertical,
                    last),
                Some((fi, gi)) => {
                    let f = fonts[fi];
                    let base_y = pen_y + tdiv(wh1 * f.upem, f.height as int) - wh1;
                    let here = match spec_glyph_shape(f.info.data@, f.info.loca as int,
                        f.info.glyf as int, f.info.index_to_loc_format as int,
                        f.info.num_glyphs as int, gi, COMPONENT_DEPTH as int) {
                        Ok(Some(vs)) => spec_glyph_ops(vs, wh0, -wh1, f.height as int, pen_x,
                            base_y),
                        _ => Seq::empty(),
                    };
                    let pen2_x = if vertical {
                        pen_x
                    } else {
                        pen_x + spec_advance(f, gi, last, wh0)
                    };
                    let pen2_y = if vertical {
                        pen_y + wh1
                    } else {
                        pen_y
                    };
                    here + spec_render_ops(fonts, vis, j + 1, pen2_x, pen2_y, wh0, wh1,
                        vertical, Some(gi))
                },
            }
        }
    }
}

/// The bold/italic flags that the in-band control codepoints toggle.  The
/// flags are tracked per render call but have no geometric effect; they are
/// a placeholder hook of the format.
#[derive(Clone, Copy, Debug, PartialEq, Eq, Structural)]
pub struct StyleState {
    /// Bold requested.
    pub bold: bool,
    /// Italic requested.
    pub italic: bool,
}

impl StyleState {
    /// Both flags clear.
    pub fn start() -> (r: StyleState)
        ensures
            r == (StyleState { bold: false, italic: false }),
    {
        StyleState { bold: false, italic: false }
    }

    /// The state after one control codepoint: `BOLD` and `ITALIC` set their
    /// flag, `NONE` clears both, and any other character changes nothing.
    pub fn apply_control(self, c: char) -> (r: StyleState)
        ensures
            c == BOLD ==> r == (StyleState { bold: true, italic: self.italic }),
            c == ITALIC ==> r == (StyleState { bold: self.bold, italic: true }),
            c == NONE ==> r == (StyleState { bold: false, italic: false }),
            c != BOLD && c != ITALIC && c != NONE ==> r == self,
    {
        if c == BOLD {
            StyleState { bold: true, italic: self.italic }
        } else if c == ITALIC {
            StyleState { bold: self.bold, italic: true }
        } else if c == NONE {
            StyleState { bold: false, italic: false }
        } else {
            self
        }
    }
}

/// The path operations of one render call, handed out one at a time: an
/// explicit cursor over the finished operation list, restartable per line
/// through the consumed-count contract of `render`.
#[derive(Debug)]
pub struct TextPathIterator {
    /// The operations of the rendered line.
    pub ops: Vec<PathOp>,
    /// How many operations were already handed out.
    pub pos: usize,
}

impl TextPathIterator {
    /// The next path operation, or `None` at the end of the line.
    pub fn next_op(&mut self) -> (r: Option<PathOp>)
        ensures
            old(self).pos < old(self).ops@.len() ==> r == Some(old(self).ops@[old(
                self,
            ).pos as int]) && final(self).pos == old(self).pos + 1 && final(self).ops == old(
                self,
            ).ops,
            old(self).pos >= old(self).ops@.len() ==> r is None && *final(self) == *old(self),
    {
        if self.pos < self.ops.len() {
            let op = self.ops[self.pos];
            self.pos = self.pos + 1;
            Some(op)
        } else {
            None
        }
    }
}

impl Font {
    /// Render one line of text.  The first pass measures how much of `text`
    /// fits `bbox`'s width at character size `wh` (`spec_measure`), the
    /// start position follows the alignment, and the second pass replays the
    /// consumed characters in visual order (see `bidi`), emitting
    /// each resolved glyph's outline as closed contours and advancing the
    /// pen by the glyph's advance plus kerning, or line by line in vertical
    /// mode.  Returns the operations and how many characters were consumed;
    /// rendering the remainder continues the text on a next line.  Fails
    /// exactly when some character resolves to no glyph at all.  All
    /// coordinates are fixed-point: 65536 to the pixel.
    #[verifier::loop_isolation(false)]
    #[verifier::rlimit(100)]
    pub fn render(&self, text: &Vec<char>, bbox: (i64, i64, i64, i64), wh: (i64, i64),
        text_align: TextAlign) -> (r: Result<(TextPathIterator, usize), LayoutError>)
        requires
            self.wf(),
            self.fonts@.len() >= 1,
            0 <= wh.0 <= 0x100_0000,
            0 <= wh.1 <= 0x100_0000,
            -0x4000_0000 <= bbox.0 <= 0x4000_0000,
            -0x4000_0000 <= bbox.1 <= 0x4000_0000,
            -0x4000_0000 <= bbox.2 <= 0x4000_0000,
            -0x4000_0000 <= bbox.3 <= 0x4000_0000,
            text@.len() <= 0x10000,
        ensures
            r is Ok <==> spec_measure(self.fonts@, text@, wh.0 as int, wh.1 as int,
                bbox.2 as int, 0, None, 0, 0) is Some,
            r is Err ==> r == Err::<(TextPathIterator, usize), LayoutError>(
                LayoutError::NoGlyph),
            r matches Ok((it, consumed)) ==> {
                let sp = spec_measure(self.fonts@, text@, wh.0 as int, wh.1 as int,
                    bbox.2 as int, 0, None, 0, 0)->0;
                &&& it.pos == 0
                &&& wf_ops(it.ops@)
                &&& consumed as int == (match sp.0 {
                    Some(v) => v,
                    None => text@.len() as int,
                })
                &&& it.ops@ == spec_render_ops(self.fonts@, spec_visual_order(text@.subrange(
                    0,
                    consumed as int,
                )), 0, spec_align_start(text_align, bbox.0 as int, bbox.2 as int, sp.1),
                    bbox.1 + wh.1, wh.0 as int, wh.1 as int, text_align is Vertical, None)
            },
    {
        let n = text.len();
        let (left_over, length) = match self.measure_line(text, wh, bbox.2) {
            Ok(v) => v,
            Err(_) => {
                return Err(LayoutError::NoGlyph);
            },
        };
        let consumed: usize = match left_over {
            Some(i) => i,
            None => n,
        };
        let vertical = match text_align {
            TextAlign::Vertical => true,
            _ => false,
        };
        let start_x = align_start(text_align, bbox.0, bbox.2, length);
        let start_y = bbox.1 + wh.1;
        let mut line: Vec<char> = Vec::new();
        let mut ci: usize = 0;
        while ci < consumed
            invariant
                consumed <= text@.len(),
                ci <= consumed,
                line@ == text@.subrange(0, ci as int),
            decreases consumed - ci,
        {
            line.push(text[ci]);
            ci = ci + 1;
            proof {
                assert(line@ =~= text@.subrange(0, ci as int));
            }
        }
        let vis = visual_order(&line);
        let mut ops: Vec<PathOp> = Vec::new();
        let mut pen_x: i64 = start_x;
        let mut pen_y: i64 = start_y;
        let mut last: Option<u32> = None;
        let mut style = StyleState::start();
        let mut j: usize = 0;
        let vn = vis.len();
        let ghost total = spec_render_ops(self.fonts@, vis@, 0, start_x as int, start_y as int,
            wh.0 as int, wh.1 as int, vertical, None);
        proof {
            assert(Seq::<PathOp>::empty() + total =~= total);
        }
        while j < vn
            invariant
                wf_ops(ops@),
                j <= vn,
                last matches Some(g) ==> g < 0x1_0000_0000,
                -0x500_0000_0000_0000 - 0x100_0000_0000 * (j as int) <= pen_x,
                pen_x <= 0x500_0000_0000_0000 + 0x100_0000_0000 * (j as int),
                -0x500_0000_0000_0000 - 0x100_0000_0000 * (j as int) <= pen_y,
                pen_y <= 0x500_0000_0000_0000 + 0x100_0000_0000 * (j as int),
                total == ops@ + spec_render_ops(self.fonts@, vis@, j as int, pen_x as int,
                    pen_y as int, wh.0 as int, wh.1 as int, vertical, opt_u32_int(last)),
            decreases vn - j,
        {
            let ghost j0 = j as int;
            let ghost ops0 = ops@;
            let ghost penx0 = pen_x as int;
            let ghost peny0 = pen_y as int;
            let ghost last0 = opt_u32_int(last);
            let c = vis[j];
            if c == NONE || c == BOLD || c == ITALIC {
                style = style.apply_control(c);
                j = j + 1;
                continue;
            }
            if c == '\t' {
                if vertical {
                    pen_y = pen_y + wh.1;
                } else {
                    pen_x = pen_x + 4 * wh.1;
                }
                j = j + 1;
                continue;
            }
            let (fi, gi) = match self.resolve_glyph(c) {
                Ok(v) => v,
                Err(_) => {
                    // Cannot occur: measuring resolved these same characters.
                    j = j + 1;
                    continue;
                },
            };
            proof {
                assert(styled_wf(self.fonts@[fi as int]));
            }
            let den: i64 = self.fonts[fi].height as i64;
            let upem: i64 = self.fonts[fi].upem as i64;
            proof {
                assert(0 <= (wh.1 as int) * (upem as int) <= 0x100_0000_0000_0000)
                    by (nonlinear_arith)
                    requires 0 <= wh.1 <= 0x100_0000 && 0 <= upem <= 0x10000;
            }
            let h = crate::glyf::tdiv64(wh.1 * upem, den);
            proof {
                crate::glyf::lemma_tdiv_magnitude(wh.1 * upem, den as int);
            }
            let base_y = pen_y + (h - wh.1);
            let ghost here = match spec_glyph_shape(self.fonts@[fi as int].info.data@,
                self.fonts@[fi as int].info.loca as int, self.fonts@[fi as int].info.glyf as int,
                self.fonts@[fi as int].info.index_to_loc_format as int,
                self.fonts@[fi as int].info.num_glyphs as int, gi as int,
                COMPONENT_DEPTH as int) {
                Ok(Some(svs)) => spec_glyph_ops(svs, wh.0 as int, -wh.1 as int, den as int,
                    pen_x as int, base_y as int),
                _ => Seq::<PathOp>::empty(),
            };
            match self.fonts[fi].info.get_glyph_shape(gi) {
                Ok(Some(vs)) => {
                    emit_glyph_ops(&vs, wh.0, -wh.1, den, pen_x, base_y, &mut ops);
                },
                _ => {
                    proof {
                        assert(here =~= Seq::<PathOp>::empty());
                    }
                },
            }
            proof {
                assert(ops@ =~= ops0 + here);
            }
            if vertical {
                pen_y = pen_y + wh.1;
            } else {
                let adv = self.char_advance(fi, gi, last, wh.0);
                pen_x = pen_x + adv;
            }
            last = Some(gi);
            j = j + 1;
            proof {
                let rest = spec_render_ops(self.fonts@, vis@, j0 + 1, pen_x as int,
                    pen_y as int, wh.0 as int, wh.1 as int, vertical, opt_u32_int(last));
                assert(spec_render_ops(self.fonts@, vis@, j0, penx0, peny0, wh.0 as int,
                    wh.1 as int, vertical, last0) == here + rest);
                assert(ops0 + (here + rest) =~= ops@ + rest);
            }
        }
        proof {
            assert(spec_render_ops(self.fonts@, vis@, vn as int, pen_x as int, pen_y as int,
                wh.0 as int, wh.1 as int, vertical, opt_u32_int(last)) =~= Seq::<
                PathOp,
            >::empty());
            assert(ops@ =~= total);
            assert(line@ =~= text@.subrange(0, consumed as int));
        }
        Ok((TextPathIterator { ops, pos: 0 }, consumed))
    }
}

} // verus!
