//! Codepoint-to-glyph lookup through the `cmap` subtable chosen at parse
//! time.  Formats 0 (byte table), 6 (trimmed table), 4 (segmented, binary
//! searched) and 12/13 (grouped, binary searched) are supported; any other
//! format was already rejected when the font was constructed.

use vstd::prelude::*;
use crate::reader::{be_i16, be_u16, be_u32, read_i16_be, read_u16_be, read_u32_be};
use crate::face::FontInfo;

verus! {

/// Whether `keys` never decreases, the order both binary searches need.
pub open spec fn keys_nondecreasing(keys: Seq<int>) -> bool {
    forall|i: int, j: int| 0 <= i < j < keys.len() ==> keys[i] <= keys[j]
}

/// Keys that never decrease step to step never decrease at all.
pub proof fn lemma_nondecreasing_from_adjacent(keys: Seq<int>)
    requires
        forall|m: int| 0 <= m < keys.len() - 1 ==> #[trigger] keys[m] <= keys[m + 1],
    ensures
        keys_nondecreasing(keys),
{
    assert forall|i: int, j: int| 0 <= i < j < keys.len() implies keys[i] <= keys[j] by {
        lemma_adjacent_le_span(keys, i, j);
    }
}

/// Chains the adjacent bound from `i` to `j`.
proof fn lemma_adjacent_le_span(keys: Seq<int>, i: int, j: int)
    requires
        forall|m: int| 0 <= m < keys.len() - 1 ==> #[trigger] keys[m] <= keys[m + 1],
        0 <= i <= j < keys.len(),
    ensures
        keys[i] <= keys[j],
    decreases j - i,
{
    if i < j {
        lemma_adjacent_le_span(keys, i + 1, j);
    }
}

/// Keys that strictly grow step to step grow over any span.
pub proof fn lemma_increasing_from_adjacent(keys: Seq<int>)
    requires
        forall|m: int| 0 <= m < keys.len() - 1 ==> #[trigger] keys[m] < keys[m + 1],
    ensures
        forall|i: int, j: int|
            #![trigger keys[i], keys[j]]
            0 <= i < j < keys.len() ==> keys[i] < keys[j],
{
    assert forall|i: int, j: int| 0 <= i < j < keys.len() implies keys[i] < keys[j] by {
        lemma_adjacent_lt_span(keys, i, j);
    }
}

/// Chains the strict adjacent bound from `i` to `j`.
proof fn lemma_adjacent_lt_span(keys: Seq<int>, i: int, j: int)
    requires
        forall|m: int| 0 <= m < keys.len() - 1 ==> #[trigger] keys[m] < keys[m + 1],
        0 <= i < j < keys.len(),
    ensures
        keys[i] < keys[j],
    decreases j - i,
{
    if i + 1 < j {
        lemma_adjacent_lt_span(keys, i + 1, j);
    }
}

/// The least index at or after `i` whose key is at least `key`; `keys.len()`
/// when every remaining key is smaller.
pub open spec fn least_index_ge_from(keys: Seq<int>, key: int, i: int) -> int
    decreases keys.len() - i,
{
    if i < 0 || i >= keys.len() {
        keys.len() as int
    } else if keys[i] >= key {
        i
    } else {
        least_index_ge_from(keys, key, i + 1)
    }
}

/// The least index whose key is at least `key`.
pub open spec fn least_index_ge(keys: Seq<int>, key: int) -> int {
    least_index_ge_from(keys, key, 0)
}

/// `least_index_ge_from` is the unique `r` with nothing smaller before it
/// and a large-enough key at it.
proof fn lemma_least_index_ge_char(keys: Seq<int>, key: int, i: int, r: int)
    requires
        0 <= i <= r <= keys.len(),
        forall|j: int| i <= j < r ==> keys[j] < key,
        r < keys.len() ==> keys[r] >= key,
    ensures
        least_index_ge_from(keys, key, i) == r,
    decreases r - i,
{
    if i < r {
        lemma_least_index_ge_char(keys, key, i + 1, r);
    }
}

/// The lower-bound binary search itself: halve `[lo, hi)` until it is
/// empty, keeping keys below `key` to the left.  On sorted keys this finds
/// `least_index_ge`; on arbitrary keys it still names the exact index the
/// search lands on.
pub open spec fn spec_bin_search(keys: Seq<int>, key: int, lo: int, hi: int) -> int
    decreases hi - lo,
{
    if lo < 0 || hi > keys.len() || lo >= hi {
        lo
    } else {
        let mid = lo + (hi - lo) / 2;
        if keys[mid] < key {
            spec_bin_search(keys, key, mid + 1, hi)
        } else {
            spec_bin_search(keys, key, lo, mid)
        }
    }
}

/// The `endCount` entry of segment `i` of a format 4 subtable.
pub open spec fn fmt4_end(s: Seq<u8>, im: int, i: int) -> int {
    be_u16(s, im + 14 + 2 * i)
}

/// The number of segments of a format 4 subtable.
pub open spec fn fmt4_segcount(s: Seq<u8>, im: int) -> int {
    be_u16(s, im + 6) / 2
}

/// The `endCount` array of a format 4 subtable, as a sequence of keys.
pub open spec fn fmt4_ends(s: Seq<u8>, im: int) -> Seq<int> {
    Seq::new(fmt4_segcount(s, im) as nat, |i: int| fmt4_end(s, im, i))
}

/// The `startCount` entry of segment `i`.
pub open spec fn fmt4_start(s: Seq<u8>, im: int, i: int) -> int {
    be_u16(s, im + 14 + 2 * fmt4_segcount(s, im) + 2 + 2 * i)
}

/// The `idDelta` entry of segment `i`.
pub open spec fn fmt4_delta(s: Seq<u8>, im: int, i: int) -> int {
    be_i16(s, im + 14 + 4 * fmt4_segcount(s, im) + 2 + 2 * i)
}

/// The `idRangeOffset` entry of segment `i`.
pub open spec fn fmt4_range_offset(s: Seq<u8>, im: int, i: int) -> int {
    be_u16(s, im + 14 + 6 * fmt4_segcount(s, im) + 2 + 2 * i)
}

/// A format 4 lookup through segment `seg`: the glyph is absent when `cp`
/// precedes the segment's start, mapped through `idDelta` modulo 2^16 when
/// the segment has no range offset, and read from the indexed glyph array
/// otherwise (0 when that read would leave the buffer).
pub open spec fn spec_fmt4_lookup_at(s: Seq<u8>, im: int, cp: int, seg: int) -> int {
    let segcount = fmt4_segcount(s, im);
    if seg >= segcount {
        0
    } else if cp < fmt4_start(s, im, seg) {
        0
    } else if fmt4_range_offset(s, im, seg) == 0 {
        (cp + fmt4_delta(s, im, seg)) % 0x10000
    } else {
        let addr = im + 14 + 6 * segcount + 2 + 2 * seg + fmt4_range_offset(s, im, seg) + 2 * (
        cp - fmt4_start(s, im, seg));
        if addr + 2 <= s.len() {
            be_u16(s, addr)
        } else {
            0
        }
    }
}

/// A format 4 lookup at the first segment whose end is at least `cp`.
pub open spec fn spec_fmt4_lookup(s: Seq<u8>, im: int, cp: int) -> int {
    spec_fmt4_lookup_at(s, im, cp, least_index_ge(fmt4_ends(s, im), cp))
}

/// The number of groups of a format 12 or 13 subtable.
pub open spec fn fmt12_ngroups(s: Seq<u8>, im: int) -> int {
    be_u32(s, im + 12)
}

/// The start codepoint of group `g`.
pub open spec fn fmt12_start(s: Seq<u8>, im: int, g: int) -> int {
    be_u32(s, im + 16 + 12 * g)
}

/// The end codepoint of group `g`.
pub open spec fn fmt12_end(s: Seq<u8>, im: int, g: int) -> int {
    be_u32(s, im + 16 + 12 * g + 4)
}

/// The start glyph of group `g`.
pub open spec fn fmt12_glyph(s: Seq<u8>, im: int, g: int) -> int {
    be_u32(s, im + 16 + 12 * g + 8)
}

/// The end codepoints of a format 12/13 subtable, as a sequence of keys.
pub open spec fn fmt12_ends(s: Seq<u8>, im: int) -> Seq<int> {
    Seq::new(fmt12_ngroups(s, im) as nat, |g: int| fmt12_end(s, im, g))
}

/// A format 12 or 13 lookup through group `g`: the glyph is absent when
/// `cp` precedes the group's start, the group's start glyph plus the offset
/// within the group for format 12 (modulo 2^32), and the start glyph alone
/// for format 13.
pub open spec fn spec_fmt12_lookup_at(s: Seq<u8>, im: int, cp: int, format: int, g: int)
    -> int {
    let ngroups = fmt12_ngroups(s, im);
    if g >= ngroups {
        0
    } else if cp < fmt12_start(s, im, g) {
        0
    } else if format == 12 {
        (fmt12_glyph(s, im, g) + cp - fmt12_start(s, im, g)) % 0x1_0000_0000
    } else {
        fmt12_glyph(s, im, g)
    }
}

/// A format 12 or 13 lookup at the first group whose end is at least `cp`.
pub open spec fn spec_fmt12_lookup(s: Seq<u8>, im: int, cp: int, format: int) -> int {
    spec_fmt12_lookup_at(s, im, cp, format, least_index_ge(fmt12_ends(s, im), cp))
}

/// The glyph index for codepoint `cp` through the subtable at `im`, for
/// every supported subtable format; 0 reports an unmapped codepoint.
pub open spec fn spec_glyph_index(s: Seq<u8>, im: int, cp: int) -> int {
    let format = be_u16(s, im);
    if format == 0 {
        if cp + 6 < be_u16(s, im + 2) {
            s[im + 6 + cp] as int
        } else {
            0
        }
    } else if format == 4 {
        if cp > 0xffff {
            0
        } else {
            spec_fmt4_lookup(s, im, cp)
        }
    } else if format == 6 {
        let first = be_u16(s, im + 6);
        let count = be_u16(s, im + 8);
        if first <= cp < first + count {
            be_u16(s, im + 10 + 2 * (cp - first))
        } else {
            0
        }
    } else if format == 12 || format == 13 {
        spec_fmt12_lookup(s, im, cp, format)
    } else {
        0
    }
}

/// The glyph index the lookup lands on whatever order the subtable's keys
/// are in: the same as `spec_glyph_index`, but through the raw binary
/// search, so the result is a function of the font bytes and the codepoint
/// alone, sorted or not.
pub open spec fn spec_glyph_index_search(s: Seq<u8>, im: int, cp: int) -> int {
    let format = be_u16(s, im);
    if format == 4 {
        if cp > 0xffff {
            0
        } else {
            spec_fmt4_lookup_at(s, im, cp, spec_bin_search(fmt4_ends(s, im), cp, 0,
                fmt4_segcount(s, im)))
        }
    } else if format == 12 || format == 13 {
        spec_fmt12_lookup_at(s, im, cp, format, spec_bin_search(fmt12_ends(s, im), cp, 0,
            fmt12_ngroups(s, im)))
    } else {
        spec_glyph_index(s, im, cp)
    }
}

/// Whether the subtable's search keys are in nondecreasing order, as the
/// format requires; always true for the formats that are not searched.
pub open spec fn spec_cmap_orderly(s: Seq<u8>, im: int) -> bool {
    let format = be_u16(s, im);
    if format == 4 {
        keys_nondecreasing(fmt4_ends(s, im))
    } else if format == 12 || format == 13 {
        keys_nondecreasing(fmt12_ends(s, im))
    } else {
        true
    }
}

/// Binary search for the first format 4 segment whose end is at least `cp`.
fn fmt4_lower_bound(s: &[u8], im: usize, segcount: usize, cp: u16) -> (r: usize)
    requires
        im + 14 + 2 * segcount <= s@.len(),
        segcount == fmt4_segcount(s@, im as int),
    ensures
        r <= segcount,
        r == spec_bin_search(fmt4_ends(s@, im as int), cp as int, 0, segcount as int),
        keys_nondecreasing(fmt4_ends(s@, im as int)) ==> r == least_index_ge(
            fmt4_ends(s@, im as int),
            cp as int,
        ),
{
    let ghost keys = fmt4_ends(s@, im as int);
    let slen: usize = s.len();
    let mut lo: usize = 0;
    let mut hi: usize = segcount;
    while lo < hi
        invariant
            0 <= lo <= hi <= segcount,
            slen == s@.len(),
            im + 14 + 2 * segcount <= s@.len(),
            keys == fmt4_ends(s@, im as int),
            keys.len() == segcount,
            spec_bin_search(keys, cp as int, 0, segcount as int) == spec_bin_search(keys,
                cp as int, lo as int, hi as int),
            keys_nondecreasing(keys) ==> forall|j: int| 0 <= j < lo ==> keys[j] < cp,
            keys_nondecreasing(keys) && hi < segcount ==> keys[hi as int] >= cp,
        decreases hi - lo,
    {
        let mid = lo + (hi - lo) / 2;
        let end = read_u16_be(s, im + 14 + 2 * mid);
        assert(end == keys[mid as int]);
        if end < cp {
            proof {
                if keys_nondecreasing(keys) {
                    assert forall|j: int| 0 <= j < mid + 1 implies keys[j] < cp by {
                        if j < mid {
                            assert(keys[j] <= keys[mid as int]);
                        }
                    }
                }
            }
            lo = mid + 1;
        } else {
            hi = mid;
        }
    }
    proof {
        if keys_nondecreasing(keys) {
            lemma_least_index_ge_char(keys, cp as int, 0, lo as int);
        }
    }
    lo
}

/// Binary search for the first format 12/13 group whose end is at least `cp`.
fn fmt12_lower_bound(s: &[u8], im: usize, ngroups: usize, cp: u32) -> (r: usize)
    requires
        im + 16 + 12 * ngroups <= s@.len(),
        ngroups == fmt12_ngroups(s@, im as int),
    ensures
        r <= ngroups,
        r == spec_bin_search(fmt12_ends(s@, im as int), cp as int, 0, ngroups as int),
        keys_nondecreasing(fmt12_ends(s@, im as int)) ==> r == least_index_ge(
            fmt12_ends(s@, im as int),
            cp as int,
        ),
{
    let ghost keys = fmt12_ends(s@, im as int);
    let slen: usize = s.len();
    let mut lo: usize = 0;
    let mut hi: usize = ngroups;
    while lo < hi
        invariant
            0 <= lo <= hi <= ngroups,
            slen == s@.len(),
            im + 16 + 12 * ngroups <= s@.len(),
            keys == fmt12_ends(s@, im as int),
            keys.len() == ngroups,
            spec_bin_search(keys, cp as int, 0, ngroups as int) == spec_bin_search(keys,
                cp as int, lo as int, hi as int),
            keys_nondecreasing(keys) ==> forall|j: int| 0 <= j < lo ==> keys[j] < cp,
            keys_nondecreasing(keys) && hi < ngroups ==> keys[hi as int] >= cp,
        decreases hi - lo,
    {
        let mid = lo + (hi - lo) / 2;
        let end = read_u32_be(s, im + 16 + 12 * mid + 4);
        assert(end == keys[mid as int]);
        if end < cp {
            proof {
                if keys_nondecreasing(keys) {
                    assert forall|j: int| 0 <= j < mid + 1 implies keys[j] < cp by {
                        if j < mid {
                            assert(keys[j] <= keys[mid as int]);
                        }
                    }
                }
            }
            lo = mid + 1;
        } else {
            hi = mid;
        }
    }
    proof {
        if keys_nondecreasing(keys) {
            lemma_least_index_ge_char(keys, cp as int, 0, lo as int);
        }
    }
    lo
}

impl FontInfo {
    /// Resolve a Unicode codepoint to its glyph index through the chosen
    /// `cmap` subtable; 0 reports an unmapped codepoint.  The result is a
    /// function of the font bytes and the codepoint alone, so repeated calls
    /// agree.
    #[verifier::rlimit(100)]
    pub fn find_glyph_index(&self, unicode_codepoint: u32) -> (r: u32)
        requires
            self.wf(),
        ensures
            r == spec_glyph_index_search(self.data@, self.index_map as int,
                unicode_codepoint as int),
            spec_cmap_orderly(self.data@, self.index_map as int) ==> r == spec_glyph_index(
                self.data@,
                self.index_map as int,
                unicode_codepoint as int,
            ),
    {
        let n: usize = self.data.len();
        let len64: u64 = n as u64;
        let s = self.data.as_slice();
        let im = self.index_map as usize;
        let cp = unicode_codepoint;
        let format = read_u16_be(s, im);
        if format == 0 {
            let bytes = read_u16_be(s, im + 2);
            if (cp as u64) + 6 < bytes as u64 {
                read_u8_at_cmap(s, im + 6 + cp as usize)
            } else {
                0
            }
        } else if format == 4 {
            if cp > 0xffff {
                return 0;
            }
            let segcount = (read_u16_be(s, im + 6) / 2) as usize;
            let seg = fmt4_lower_bound(s, im, segcount, cp as u16);
            if seg >= segcount {
                return 0;
            }
            let start = read_u16_be(s, im + 14 + 2 * segcount + 2 + 2 * seg);
            if cp < start as u32 {
                return 0;
            }
            let offset = read_u16_be(s, im + 14 + 6 * segcount + 2 + 2 * seg);
            if offset == 0 {
                let delta = read_i16_be(s, im + 14 + 4 * segcount + 2 + 2 * seg);
                let sum: i32 = cp as i32 + delta as i32;
                let g: i32 = if sum >= 0 {
                    sum % 0x10000
                } else {
                    sum + 0x10000
                };
                assert(g == (cp + delta) % 0x10000);
                g as u32
            } else {
                let addr64: u64 = (im as u64) + 14 + 6 * (segcount as u64) + 2 + 2 * (seg as u64)
                    + (offset as u64) + 2 * ((cp - start as u32) as u64);
                if addr64 + 2 <= len64 {
                    read_u16_be(s, addr64 as usize) as u32
                } else {
                    0
                }
            }
        } else if format == 6 {
            let first = read_u16_be(s, im + 6) as u32;
            let count = read_u16_be(s, im + 8) as u32;
            if first <= cp && cp < first + count {
                read_u16_be(s, im + 10 + 2 * ((cp - first) as usize)) as u32
            } else {
                0
            }
        } else {
            let ngroups64 = read_u32_be(s, im + 12) as u64;
            let ngroups = ngroups64 as usize;
            let g = fmt12_lower_bound(s, im, ngroups, cp);
            if g >= ngroups {
                return 0;
            }
            let start = read_u32_be(s, im + 16 + 12 * g);
            if cp < start {
                return 0;
            }
            let glyph = read_u32_be(s, im + 16 + 12 * g + 8);
            if format == 12 {
                (((glyph as u64) + ((cp - start) as u64)) % 0x1_0000_0000) as u32
            } else {
                glyph
            }
        }
    }
}

/// The byte at `i`, as a glyph index.
fn read_u8_at_cmap(s: &[u8], i: usize) -> (r: u32)
    requires
        i < s@.len(),
    ensures
        r == s@[i as int],
{
    s[i] as u32
}

} // verus!
