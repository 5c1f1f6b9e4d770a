//! The table directory of a TrueType/OpenType font or collection.
//!
//! A font starts with a signature, a table count at byte 4, and 16-byte
//! directory records from byte 12 on: a 4-byte tag, a checksum, the table's
//! byte offset, and its length.  Absent tables are reported as offset 0.

use vstd::prelude::*;
use crate::reader::{be_u16, be_u32, be_i32, read_u16_be, read_u32_be, read_i32_be};

verus! {

/// Tag of the `cmap` table, as a big-endian 32-bit value.
pub const TAG_CMAP: u32 = 0x636d_6170;
/// Tag of the `loca` table.
pub const TAG_LOCA: u32 = 0x6c6f_6361;
/// Tag of the `head` table.
pub const TAG_HEAD: u32 = 0x6865_6164;
/// Tag of the `glyf` table.
pub const TAG_GLYF: u32 = 0x676c_7966;
/// Tag of the `hhea` table.
pub const TAG_HHEA: u32 = 0x6868_6561;
/// Tag of the `hmtx` table.
pub const TAG_HMTX: u32 = 0x686d_7478;
/// Tag of the `name` table.
pub const TAG_NAME: u32 = 0x6e61_6d65;
/// Tag of the `kern` table.
pub const TAG_KERN: u32 = 0x6b65_726e;
/// Tag of the `maxp` table.
pub const TAG_MAXP: u32 = 0x6d61_7870;

/// Platform identifier of a `cmap` encoding record.
#[derive(Clone, Copy, Debug, PartialEq, Eq, Structural)]
pub enum PlatformId {
    /// Unicode platform.
    Unicode,
    /// Macintosh platform.
    Mac,
    /// Deprecated ISO platform.
    Iso,
    /// Microsoft platform.
    Microsoft,
}

/// Encoding identifier for the Microsoft platform.
#[derive(Clone, Copy, Debug, PartialEq, Eq, Structural)]
pub enum MicrosoftEid {
    /// Symbol encoding.
    Symbol,
    /// Unicode BMP-only encoding.
    UnicodeBMP,
    /// Shift-JIS encoding.
    Shiftjis,
    /// Full Unicode repertoire encoding.
    UnicodeFull,
}

/// The platform that a `cmap` platform identifier value names.
pub open spec fn spec_platform_id(v: int) -> Option<PlatformId> {
    if v == 0 {
        Some(PlatformId::Unicode)
    } else if v == 1 {
        Some(PlatformId::Mac)
    } else if v == 2 {
        Some(PlatformId::Iso)
    } else if v == 3 {
        Some(PlatformId::Microsoft)
    } else {
        None
    }
}

/// Decode a `cmap` platform identifier.
pub fn platform_id(v: u16) -> (r: Option<PlatformId>)
    ensures
        r == spec_platform_id(v as int),
{
    match v {
        0 => Some(PlatformId::Unicode),
        1 => Some(PlatformId::Mac),
        2 => Some(PlatformId::Iso),
        3 => Some(PlatformId::Microsoft),
        _ => None,
    }
}

/// The encoding that a Microsoft-platform encoding identifier names.
pub open spec fn spec_microsoft_eid(v: int) -> Option<MicrosoftEid> {
    if v == 0 {
        Some(MicrosoftEid::Symbol)
    } else if v == 1 {
        Some(MicrosoftEid::UnicodeBMP)
    } else if v == 2 {
        Some(MicrosoftEid::Shiftjis)
    } else if v == 10 {
        Some(MicrosoftEid::UnicodeFull)
    } else {
        None
    }
}

/// Decode a Microsoft-platform encoding identifier.
pub fn microsoft_eid(v: u16) -> (r: Option<MicrosoftEid>)
    ensures
        r == spec_microsoft_eid(v as int),
{
    match v {
        0 => Some(MicrosoftEid::Symbol),
        1 => Some(MicrosoftEid::UnicodeBMP),
        2 => Some(MicrosoftEid::Shiftjis),
        10 => Some(MicrosoftEid::UnicodeFull),
        _ => None,
    }
}

/// Whether the buffer starts with the signature of a single font: the
/// TrueType version 1.0 tag, the Macintosh `true` tag or its legacy
/// `1\0\0\0` form, the `typ1` tag, or the OpenType-with-CFF tag `OTTO`.
pub open spec fn spec_is_font(s: Seq<u8>) -> bool {
    s.len() >= 4 && {
        let tag = be_u32(s, 0);
        ||| tag == 0x3100_0000
        ||| tag == 0x7472_7565
        ||| tag == 0x7479_7031
        ||| tag == 0x4f54_544f
        ||| tag == 0x0001_0000
    }
}

/// Recognize the signature of a bare (non-collection) font file.
pub fn is_font(font: &[u8]) -> (r: bool)
    ensures
        r == spec_is_font(font@),
{
    if font.len() >= 4 {
        let tag = read_u32_be(font, 0);
        tag == 0x3100_0000 || tag == 0x7472_7565 || tag == 0x7479_7031 || tag == 0x4f54_544f
            || tag == 0x0001_0000
    } else {
        false
    }
}

/// The offset of the first directory record from `i` on whose tag is `tag`,
/// searching `n` records in all; 0 when no record matches.
pub open spec fn spec_find_table_from(s: Seq<u8>, start: int, tag: int, i: int, n: int) -> int
    decreases n - i,
{
    if i >= n {
        0
    } else if be_u32(s, start + 12 + 16 * i) == tag {
        be_u32(s, start + 12 + 16 * i + 8)
    } else {
        spec_find_table_from(s, start, tag, i + 1, n)
    }
}

/// The offset of table `tag` in the font at `start`, or 0 when absent.
pub open spec fn spec_find_table(s: Seq<u8>, start: int, tag: int) -> int {
    spec_find_table_from(s, start, tag, 0, be_u16(s, start + 4))
}

/// Whether the directory of the font at `start` lies inside the buffer, so
/// that a directory scan stays in bounds.
pub open spec fn spec_directory_in_bounds(s: Seq<u8>, start: int) -> bool {
    &&& start + 12 <= s.len()
    &&& start + 12 + 16 * be_u16(s, start + 4) <= s.len()
}

/// Scan the table directory of the font at `start` for the table named by the
/// big-endian tag value `tag`; `None` when the directory itself runs past the
/// end of the buffer.
pub fn find_table(data: &[u8], start: usize, tag: u32) -> (r: Option<u32>)
    ensures
        r is Some <==> spec_directory_in_bounds(data@, start as int),
        r is Some ==> r->0 == spec_find_table(data@, start as int, tag as int),
{
    let len = data.len();
    if !(start <= len && len - start >= 12) {
        return None;
    }
    let num_tables = read_u16_be(data, start + 4) as usize;
    if !(len - start - 12 >= 16 * num_tables) {
        return None;
    }
    let mut i: usize = 0;
    while i < num_tables
        invariant
            i <= num_tables,
            len == data@.len(),
            start + 12 + 16 * num_tables <= data@.len(),
            num_tables == be_u16(data@, start + 4),
            spec_find_table(data@, start as int, tag as int) == spec_find_table_from(
                data@,
                start as int,
                tag as int,
                i as int,
                num_tables as int,
            ),
        decreases num_tables - i,
    {
        let loc = start + 12 + 16 * i;
        if read_u32_be(data, loc) == tag {
            return Some(read_u32_be(data, loc + 8));
        }
        i = i + 1;
    }
    Some(0)
}

/// The byte offset of the font with the given index: 0 for index 0 of a bare
/// font, an entry of the `ttcf` collection header for a collection, `None`
/// for an out-of-range index or an unrecognized or truncated header.
pub open spec fn spec_font_offset_for_index(s: Seq<u8>, index: int) -> Option<int> {
    if spec_is_font(s) {
        if index == 0 {
            Some(0)
        } else {
            None
        }
    } else if s.len() >= 12 && be_u32(s, 0) == 0x7474_6366 && (be_u32(s, 4) == 0x0001_0000
        || be_u32(s, 4) == 0x0002_0000) {
        if 0 <= index < be_i32(s, 8) && 12 + 4 * index + 4 <= s.len() {
            Some(be_u32(s, 12 + 4 * index))
        } else {
            None
        }
    } else {
        None
    }
}

/// Locate the font with sequential `index` inside a bare font or a `ttcf`
/// collection.  A bare font holds one font, at offset 0.
pub fn get_font_offset_for_index(font_collection: &[u8], index: i32) -> (r: Option<u32>)
    ensures
        r is Some <==> spec_font_offset_for_index(font_collection@, index as int) is Some,
        r is Some ==> Some(r->0 as int) == spec_font_offset_for_index(
            font_collection@,
            index as int,
        ),
{
    let len = font_collection.len();
    if is_font(font_collection) {
        if index == 0 {
            return Some(0);
        } else {
            return None;
        }
    }
    if len >= 12 && read_u32_be(font_collection, 0) == 0x7474_6366 {
        let version = read_u32_be(font_collection, 4);
        if version == 0x0001_0000 || version == 0x0002_0000 {
            let n = read_i32_be(font_collection, 8);
            if index >= 0 && index < n && 4 * (index as u64) + 16 <= len as u64 {
                return Some(read_u32_be(font_collection, 12 + 4 * (index as usize)));
            }
        }
    }
    None
}

} // verus!
