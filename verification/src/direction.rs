//! A lightweight per-character direction classifier: enough bidi to reverse
//! right-to-left runs during layout.  Characters from the right-to-left
//! scripts' blocks are `RightLeft`, spacing and punctuation are neutral
//! (`CheckNext`, inheriting the surrounding run), everything else is
//! `LeftRight`.

use vstd::prelude::*;

verus! {

/// The direction a character imposes on its run.
#[derive(Clone, Copy, Debug, PartialEq, Eq, Structural)]
pub enum Direction {
    /// Neutral: the character joins whichever run surrounds it.
    CheckNext,
    /// Left-to-right.
    LeftRight,
    /// Right-to-left.
    RightLeft,
}

/// Whether the codepoint lies in a right-to-left block: Hebrew through
/// Arabic and their extensions, the presentation forms, and the historic and
/// supplemental right-to-left planes.
pub open spec fn spec_is_rtl(c: int) -> bool {
    ||| 0x0590 <= c < 0x0900
    ||| 0xfb1d <= c < 0xfe00
    ||| 0xfe70 <= c < 0xff00
    ||| 0x1_0800 <= c < 0x1_1000
    ||| 0x1_e800 <= c < 0x1_f000
}

/// Whether the codepoint is neutral: controls, spacing, ASCII punctuation
/// and digits, and general punctuation.
pub open spec fn spec_is_neutral(c: int) -> bool {
    ||| c < 0x41
    ||| 0x5b <= c < 0x61
    ||| 0x7b <= c < 0xa1
    ||| 0x2000 <= c < 0x2070
}

/// The direction of one character.
pub open spec fn spec_direction(c: char) -> Direction {
    if spec_is_rtl(c as int) {
        Direction::RightLeft
    } else if spec_is_neutral(c as int) {
        Direction::CheckNext
    } else {
        Direction::LeftRight
    }
}

/// Classify one character.
pub fn direction(c: char) -> (r: Direction)
    ensures
        r == spec_direction(c),
{
    let v = c as u32;
    if (0x0590 <= v && v < 0x0900) || (0xfb1d <= v && v < 0xfe00) || (0xfe70 <= v && v < 0xff00)
        || (0x1_0800 <= v && v < 0x1_1000) || (0x1_e800 <= v && v < 0x1_f000) {
        Direction::RightLeft
    } else if v < 0x41 || (0x5b <= v && v < 0x61) || (0x7b <= v && v < 0xa1) || (0x2000 <= v && v
        < 0x2070) {
        Direction::CheckNext
    } else {
        Direction::LeftRight
    }
}

} // verus!
