//! A parsed font: the owned font bytes plus the cached table offsets that the
//! rest of the crate keys its reads off.
//!
//! Construction validates every offset that later lookups rely on, so that
//! the per-glyph operations can state exact contracts and never fail on
//! bounds.  A font whose required tables are absent, whose chosen character
//! map has an unsupported format, or whose tables are truncated is rejected
//! here, not discovered mid-render.

use vstd::prelude::*;
use crate::reader::{be_u16, be_u32, read_u16_be, read_u32_be};
use crate::tables::{
    find_table, microsoft_eid, platform_id, spec_directory_in_bounds, spec_find_table,
    MicrosoftEid, PlatformId, TAG_CMAP, TAG_GLYF, TAG_HEAD, TAG_HHEA, TAG_HMTX, TAG_KERN,
    TAG_LOCA, TAG_MAXP, TAG_NAME,
};

verus! {

/// Why a buffer was rejected as a font.
#[derive(Clone, Copy, Debug, PartialEq, Eq, Structural)]
pub enum FontError {
    /// A required table is absent, truncated, or in an unsupported format.
    IllFormed,
    /// The leading signature matches neither a bare font nor a collection.
    UnrecognizedFormat,
}

/// A parsed TrueType font: the raw bytes and the byte offsets of its tables.
#[derive(Clone, Debug)]
pub struct FontInfo {
    /// The font file contents.
    pub data: Vec<u8>,
    /// Number of glyphs, for range checks.
    pub num_glyphs: u32,
    /// Offset of the `loca` table.
    pub loca: u32,
    /// Offset of the `head` table.
    pub head: u32,
    /// Offset of the `glyf` table.
    pub glyf: u32,
    /// Offset of the `hhea` table.
    pub hhea: u32,
    /// Offset of the `hmtx` table.
    pub hmtx: u32,
    /// Offset of the `name` table, 0 when absent.
    pub name: u32,
    /// Offset of the `kern` table, 0 when absent or unusable.
    pub kern: u32,
    /// Offset of the chosen `cmap` subtable.
    pub index_map: u32,
    /// 0 for 16-bit `loca` entries, 1 for 32-bit ones.
    pub index_to_loc_format: u32,
}

/// Whether the `cmap` encoding record at `rec` names an encoding the crate
/// understands: a Microsoft Unicode encoding (BMP or full) or any Unicode
/// platform encoding.
pub open spec fn spec_encoding_supported(s: Seq<u8>, rec: int) -> bool {
    let p = be_u16(s, rec);
    let e = be_u16(s, rec + 2);
    p == 0 || (p == 3 && (e == 1 || e == 10))
}

/// The chosen `cmap` subtable offset after scanning the first `n` encoding
/// records: the last supported record wins, 0 when none is supported.
pub open spec fn spec_pick_index_map(s: Seq<u8>, cmap: int, n: int) -> int
    decreases n,
{
    if n <= 0 {
        0
    } else {
        let rec = cmap + 4 + 8 * (n - 1);
        if spec_encoding_supported(s, rec) {
            cmap + be_u32(s, rec + 4)
        } else {
            spec_pick_index_map(s, cmap, n - 1)
        }
    }
}

/// Bounds for a format 0 (byte encoding) `cmap` subtable.
pub open spec fn spec_cmap0_wf(s: Seq<u8>, im: int) -> bool {
    &&& im + 4 <= s.len()
    &&& be_u16(s, im + 2) >= 6
    &&& im + be_u16(s, im + 2) <= s.len()
}

/// Bounds for a format 4 (segment mapping) `cmap` subtable: the fixed header
/// and the four per-segment arrays lie inside the buffer.
pub open spec fn spec_cmap4_wf(s: Seq<u8>, im: int) -> bool {
    &&& im + 14 <= s.len()
    &&& be_u16(s, im + 6) % 2 == 0
    &&& be_u16(s, im + 6) >= 2
    &&& im + 14 + 4 * be_u16(s, im + 6) + 2 <= s.len()
}

/// Bounds for a format 6 (trimmed table) `cmap` subtable.
pub open spec fn spec_cmap6_wf(s: Seq<u8>, im: int) -> bool {
    &&& im + 10 <= s.len()
    &&& im + 10 + 2 * be_u16(s, im + 8) <= s.len()
}

/// Bounds for a format 12 or 13 (grouped) `cmap` subtable.
pub open spec fn spec_cmap12_wf(s: Seq<u8>, im: int) -> bool {
    &&& im + 16 <= s.len()
    &&& im + 16 + 12 * be_u32(s, im + 12) <= s.len()
}

/// Whether the chosen `cmap` subtable has a supported format and is fully in
/// bounds for every lookup that format performs against its fixed arrays.
pub open spec fn spec_cmap_wf(s: Seq<u8>, im: int) -> bool {
    &&& im + 2 <= s.len()
    &&& {
        let format = be_u16(s, im);
        ||| (format == 0 && spec_cmap0_wf(s, im))
        ||| (format == 4 && spec_cmap4_wf(s, im))
        ||| (format == 6 && spec_cmap6_wf(s, im))
        ||| ((format == 12 || format == 13) && spec_cmap12_wf(s, im))
    }
}

/// Bounds for the horizontal metrics: `hhea` names at least one long metric
/// and `hmtx` holds the long metrics plus the trailing bearings that glyphs
/// beyond the last long metric read.
pub open spec fn spec_hmtx_wf(s: Seq<u8>, hhea: int, hmtx: int, num_glyphs: int) -> bool {
    let num_long = be_u16(s, hhea + 34);
    &&& num_long >= 1
    &&& hmtx + 4 * num_long <= s.len()
    &&& num_glyphs > num_long ==> hmtx + 4 * num_long + 2 * (num_glyphs - num_long) <= s.len()
}

/// Bounds for the `loca` table: one entry per glyph plus the final sentinel,
/// in the width that `index_to_loc_format` selects.  Formats above 1 are
/// unknown; no glyph is then located, so no bound is needed.
pub open spec fn spec_loca_wf(s: Seq<u8>, loca: int, ilf: int, num_glyphs: int) -> bool {
    &&& ilf == 0 ==> loca + 2 * num_glyphs + 2 <= s.len()
    &&& ilf == 1 ==> loca + 4 * num_glyphs + 4 <= s.len()
}

/// Whether the `kern` table at `k` can be read safely: its header is in
/// bounds and, when its first subtable is a usable horizontal format 0 one,
/// so is the whole pair array.  Offset 0 means the table is absent.
pub open spec fn spec_kern_wf(s: Seq<u8>, k: int) -> bool {
    k == 0 || (k + 12 <= s.len() && (be_u16(s, k + 2) >= 1 && be_u16(s, k + 8) == 1
        ==> k + 18 + 6 * be_u16(s, k + 10) <= s.len()))
}

/// The glyph count the font declares in `maxp`, or the 0xffff fallback when
/// `maxp` is absent.
pub open spec fn spec_num_glyphs(s: Seq<u8>, start: int) -> int {
    let t = spec_find_table(s, start, TAG_MAXP as int);
    if t != 0 {
        be_u16(s, t + 4)
    } else {
        0xffff
    }
}

/// The `cmap` subtable offset that construction picks: the last encoding
/// record the crate understands, resolved against the `cmap` table offset.
pub open spec fn spec_index_map(s: Seq<u8>, start: int) -> int {
    let cmap = spec_find_table(s, start, TAG_CMAP as int);
    spec_pick_index_map(s, cmap, be_u16(s, cmap + 2))
}

/// The `kern` offset that construction stores: the located table when it can
/// be read safely, else 0 so kerning reports no adjustment.
pub open spec fn spec_kern_field(s: Seq<u8>, start: int) -> int {
    let k = spec_find_table(s, start, TAG_KERN as int);
    if spec_kern_wf(s, k) {
        k
    } else {
        0
    }
}

/// When construction of a font at `start` succeeds: the directory and every
/// required table are present and large enough for the lookups the crate
/// performs, and the chosen character map has a supported format.
pub open spec fn spec_font_ok(s: Seq<u8>, start: int) -> bool {
    let cmap = spec_find_table(s, start, TAG_CMAP as int);
    let loca = spec_find_table(s, start, TAG_LOCA as int);
    let head = spec_find_table(s, start, TAG_HEAD as int);
    let glyf = spec_find_table(s, start, TAG_GLYF as int);
    let hhea = spec_find_table(s, start, TAG_HHEA as int);
    let hmtx = spec_find_table(s, start, TAG_HMTX as int);
    let maxp = spec_find_table(s, start, TAG_MAXP as int);
    let ng = spec_num_glyphs(s, start);
    let im = spec_index_map(s, start);
    &&& spec_directory_in_bounds(s, start)
    &&& cmap != 0
    &&& loca != 0
    &&& head != 0
    &&& glyf != 0
    &&& hhea != 0
    &&& hmtx != 0
    &&& head + 52 <= s.len()
    &&& hhea + 36 <= s.len()
    &&& glyf <= s.len()
    &&& maxp != 0 ==> maxp + 6 <= s.len()
    &&& cmap + 4 <= s.len()
    &&& cmap + 4 + 8 * be_u16(s, cmap + 2) <= s.len()
    &&& im != 0
    &&& im <= u32::MAX
    &&& spec_cmap_wf(s, im)
    &&& spec_hmtx_wf(s, hhea, hmtx, ng)
    &&& spec_loca_wf(s, loca, be_u16(s, head + 50), ng)
}

impl FontInfo {
    /// The well-formedness that construction establishes: every offset that a
    /// later lookup reads through is inside the font data.
    pub open spec fn wf(self) -> bool {
        let s = self.data@;
        &&& self.head + 52 <= s.len()
        &&& self.hhea + 36 <= s.len()
        &&& self.loca != 0
        &&& self.glyf != 0
        &&& self.glyf <= s.len()
        &&& self.num_glyphs <= 0xffff
        &&& spec_cmap_wf(s, self.index_map as int)
        &&& spec_hmtx_wf(s, self.hhea as int, self.hmtx as int, self.num_glyphs as int)
        &&& spec_loca_wf(s, self.loca as int, self.index_to_loc_format as int,
            self.num_glyphs as int)
        &&& spec_kern_wf(s, self.kern as int)
        &&& self.index_to_loc_format == be_u16(s, self.head + 50)
    }

    /// Parse the font that starts at byte `fontstart`, locating its tables,
    /// its glyph count, and a supported character-map subtable, and checking
    /// every bound that later lookups rely on.
    pub fn new(data: Vec<u8>, fontstart: usize) -> (r: Result<FontInfo, FontError>)
        ensures
            r is Ok <==> spec_font_ok(data@, fontstart as int),
            r matches Ok(f) ==> {
                &&& f.wf()
                &&& f.data@ == data@
                &&& f.loca == spec_find_table(data@, fontstart as int, TAG_LOCA as int)
                &&& f.head == spec_find_table(data@, fontstart as int, TAG_HEAD as int)
                &&& f.glyf == spec_find_table(data@, fontstart as int, TAG_GLYF as int)
                &&& f.hhea == spec_find_table(data@, fontstart as int, TAG_HHEA as int)
                &&& f.hmtx == spec_find_table(data@, fontstart as int, TAG_HMTX as int)
                &&& f.name == spec_find_table(data@, fontstart as int, TAG_NAME as int)
                &&& f.kern == spec_kern_field(data@, fontstart as int)
                &&& f.num_glyphs == spec_num_glyphs(data@, fontstart as int)
                &&& f.index_map == spec_index_map(data@, fontstart as int)
                &&& f.index_to_loc_format == be_u16(data@, f.head + 50)
            },
            r matches Err(e) ==> e == FontError::IllFormed,
    {
        let len: usize = data.len();
        let len64: u64 = len as u64;
        let s = data.as_slice();
        let cmap = match find_table(s, fontstart, TAG_CMAP) {
            Some(v) => v,
            None => return Err(FontError::IllFormed),
        };
        let loca = find_table(s, fontstart, TAG_LOCA).unwrap();
        let head = find_table(s, fontstart, TAG_HEAD).unwrap();
        let glyf = find_table(s, fontstart, TAG_GLYF).unwrap();
        let hhea = find_table(s, fontstart, TAG_HHEA).unwrap();
        let hmtx = find_table(s, fontstart, TAG_HMTX).unwrap();
        let name = find_table(s, fontstart, TAG_NAME).unwrap();
        let kern0 = find_table(s, fontstart, TAG_KERN).unwrap();
        let maxp = find_table(s, fontstart, TAG_MAXP).unwrap();
        if cmap == 0 || loca == 0 || head == 0 || glyf == 0 || hhea == 0 || hmtx == 0 {
            return Err(FontError::IllFormed);
        }
        if (head as u64) + 52 > len64 || (hhea as u64) + 36 > len64 || (glyf as u64) > len64 {
            return Err(FontError::IllFormed);
        }
        let num_glyphs: u32 = if maxp != 0 {
            if (maxp as u64) + 6 > len64 {
                return Err(FontError::IllFormed);
            }
            read_u16_be(s, (maxp as usize) + 4) as u32
        } else {
            0xffff
        };
        if (cmap as u64) + 4 > len64 {
            return Err(FontError::IllFormed);
        }
        let num_enc: u16 = read_u16_be(s, (cmap as usize) + 2);
        if (cmap as u64) + 4 + 8 * (num_enc as u64) > len64 {
            return Err(FontError::IllFormed);
        }
        let mut index_map: u64 = 0;
        let mut i: usize = 0;
        while i < num_enc as usize
            invariant
                i <= num_enc,
                len == data@.len(),
                len64 == len,
                s@ == data@,
                cmap + 4 + 8 * num_enc <= len,
                index_map == spec_pick_index_map(data@, cmap as int, i as int),
            decreases num_enc as int - i,
        {
            let rec: usize = (cmap as usize) + 4 + 8 * i;
            let supported = match platform_id(read_u16_be(s, rec)) {
                Some(PlatformId::Microsoft) => match microsoft_eid(read_u16_be(s, rec + 2)) {
                    Some(MicrosoftEid::UnicodeBMP) | Some(MicrosoftEid::UnicodeFull) => true,
                    _ => false,
                },
                Some(PlatformId::Unicode) => true,
                _ => false,
            };
            if supported {
                index_map = (cmap as u64) + (read_u32_be(s, rec + 4) as u64);
            }
            i = i + 1;
        }
        if index_map == 0 || index_map > u32::MAX as u64 {
            return Err(FontError::IllFormed);
        }
        let im: usize = index_map as usize;
        if (im as u64) + 2 > len64 {
            return Err(FontError::IllFormed);
        }
        let format = read_u16_be(s, im);
        let cmap_ok: bool = if format == 0 {
            (im as u64) + 4 <= len64 && {
                let bytes = read_u16_be(s, im + 2);
                bytes >= 6 && (im as u64) + (bytes as u64) <= len64
            }
        } else if format == 4 {
            (im as u64) + 14 <= len64 && {
                let segx2 = read_u16_be(s, im + 6);
                segx2 % 2 == 0 && segx2 >= 2 && (im as u64) + 14 + 4 * (segx2 as u64) + 2 <= len64
            }
        } else if format == 6 {
            (im as u64) + 10 <= len64 && {
                let count = read_u16_be(s, im + 8);
                (im as u64) + 10 + 2 * (count as u64) <= len64
            }
        } else if format == 12 || format == 13 {
            (im as u64) + 16 <= len64 && {
                let ngroups = read_u32_be(s, im + 12);
                (im as u64) + 16 + 12 * (ngroups as u64) <= len64
            }
        } else {
            false
        };
        if !cmap_ok {
            return Err(FontError::IllFormed);
        }
        let num_long = read_u16_be(s, (hhea as usize) + 34);
        if num_long < 1 || (hmtx as u64) + 4 * (num_long as u64) > len64 {
            return Err(FontError::IllFormed);
        }
        if num_glyphs > num_long as u32 && (hmtx as u64) + 4 * (num_long as u64) + 2 * ((
        num_glyphs - num_long as u32) as u64) > len64 {
            return Err(FontError::IllFormed);
        }
        let index_to_loc_format = read_u16_be(s, (head as usize) + 50) as u32;
        if index_to_loc_format == 0 && (loca as u64) + 2 * (num_glyphs as u64) + 2 > len64 {
            return Err(FontError::IllFormed);
        }
        if index_to_loc_format == 1 && (loca as u64) + 4 * (num_glyphs as u64) + 4 > len64 {
            return Err(FontError::IllFormed);
        }
        let kern: u32 = if kern0 == 0 {
            0
        } else if (kern0 as u64) + 12 > len64 {
            0
        } else {
            let nt = read_u16_be(s, (kern0 as usize) + 2);
            let cov = read_u16_be(s, (kern0 as usize) + 8);
            if nt >= 1 && cov == 1 {
                let npairs = read_u16_be(s, (kern0 as usize) + 10);
                if (kern0 as u64) + 18 + 6 * (npairs as u64) <= len64 {
                    kern0
                } else {
                    0
                }
            } else {
                kern0
            }
        };
        Ok(FontInfo {
            data,
            num_glyphs,
            loca,
            head,
            glyf,
            hhea,
            hmtx,
            name,
            kern,
            index_map: index_map as u32,
            index_to_loc_format,
        })
    }

    /// The number of glyphs the font declares.
    pub fn get_num_glyphs(&self) -> (r: u32)
        ensures
            r == self.num_glyphs,
    {
        self.num_glyphs
    }

    /// The units-per-em of the font's design grid, from `head`.
    pub fn units_per_em(&self) -> (r: u16)
        requires
            self.wf(),
        ensures
            r == be_u16(self.data@, self.head + 18),
    {
        let n: usize = self.data.len();
        read_u16_be(self.data.as_slice(), (self.head as usize) + 18)
    }
}

} // verus!
