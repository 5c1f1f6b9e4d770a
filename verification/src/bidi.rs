//! Logical-to-visual reordering: right-to-left runs are buffered and played
//! back reversed, so that left-to-right runs keep their order, right-to-left
//! runs are reversed in place, and the runs themselves stay in their
//! original relative order.

use vstd::prelude::*;
use crate::direction::{direction, spec_direction, Direction};

verus! {

/// The visual character order from position `i` on, given the buffered
/// right-to-left run `temp` and whether a right-to-left character has been
/// seen (`back`, which neutral characters inherit).  A right-to-left
/// character joins the buffer; a left-to-right character first drains the
/// buffer in reverse, then follows it.
pub open spec fn spec_visual_from(chars: Seq<char>, i: int, temp: Seq<char>, back: bool)
    -> Seq<char>
    decreases chars.len() - i,
{
    if i < 0 || i >= chars.len() {
        temp.reverse()
    } else {
        let d0 = spec_direction(chars[i]);
        let d = if d0 == Direction::CheckNext {
            if back {
                Direction::RightLeft
            } else {
                Direction::LeftRight
            }
        } else {
            d0
        };
        if d == Direction::RightLeft {
            spec_visual_from(chars, i + 1, temp.push(chars[i]), true)
        } else {
            temp.reverse() + seq![chars[i]] + spec_visual_from(chars, i + 1, Seq::empty(), back)
        }
    }
}

/// The visual order of a whole string.
pub open spec fn spec_visual_order(chars: Seq<char>) -> Seq<char> {
    spec_visual_from(chars, 0, Seq::empty(), false)
}

/// Reordering permutes characters, so the length is kept.
pub proof fn lemma_visual_from_len(chars: Seq<char>, i: int, temp: Seq<char>, back: bool)
    requires
        0 <= i <= chars.len(),
    ensures
        spec_visual_from(chars, i, temp, back).len() == chars.len() - i + temp.len(),
    decreases chars.len() - i,
{
    if i < chars.len() {
        let d0 = spec_direction(chars[i]);
        let d = if d0 == Direction::CheckNext {
            if back {
                Direction::RightLeft
            } else {
                Direction::LeftRight
            }
        } else {
            d0
        };
        if d == Direction::RightLeft {
            lemma_visual_from_len(chars, i + 1, temp.push(chars[i]), true);
        } else {
            lemma_visual_from_len(chars, i + 1, Seq::empty(), back);
        }
    }
}

/// Compute the visual order of `text`.
pub fn visual_order(text: &Vec<char>) -> (r: Vec<char>)
    ensures
        r@ == spec_visual_order(text@),
        r@.len() == text@.len(),
{
    let n = text.len();
    let mut out: Vec<char> = Vec::new();
    let mut temp: Vec<char> = Vec::new();
    let mut back = false;
    let mut i: usize = 0;
    proof {
        assert(out@ + spec_visual_from(text@, 0, temp@, back) =~= spec_visual_from(
            text@,
            0,
            temp@,
            back,
        ));
    }
    while i < n
        invariant
            n == text@.len(),
            i <= n,
            spec_visual_order(text@) == out@ + spec_visual_from(text@, i as int, temp@, back),
        decreases n - i,
    {
        let ghost i0 = i as int;
        let ghost temp_in = temp@;
        let ghost back_in = back;
        let c = text[i];
        let d0 = direction(c);
        let rtl = match d0 {
            Direction::RightLeft => true,
            Direction::CheckNext => back,
            Direction::LeftRight => false,
        };
        if rtl {
            temp.push(c);
            back = true;
            proof {
                assert(spec_visual_from(text@, i0, temp_in, back_in) == spec_visual_from(
                    text@,
                    i0 + 1,
                    temp_in.push(c),
                    true,
                ));
            }
        } else {
            let ghost temp0 = temp@;
            let ghost out0 = out@;
            while temp.len() > 0
                invariant
                    out@ + temp@.reverse() =~= out0 + temp0.reverse(),
                decreases temp@.len(),
            {
                proof {
                    assert(temp@.reverse() =~= seq![temp@.last()] + temp@.drop_last().reverse());
                }
                let ch = temp.pop().unwrap();
                out.push(ch);
            }
            proof {
                assert(temp@ =~= Seq::<char>::empty());
                assert(temp@.reverse() =~= Seq::<char>::empty());
                assert(out@ =~= out0 + temp0.reverse());
            }
            out.push(c);
            proof {
                assert(spec_visual_from(text@, i0, temp_in, back_in) == temp_in.reverse()
                    + seq![c] + spec_visual_from(text@, i0 + 1, Seq::empty(), back_in));
                assert((out0 + temp0.reverse()).push(c) + spec_visual_from(
                    text@,
                    i + 1,
                    Seq::empty(),
                    back,
                ) =~= out0 + (temp0.reverse() + seq![c] + spec_visual_from(
                    text@,
                    i + 1,
                    Seq::empty(),
                    back,
                )));
            }
        }
        i = i + 1;
    }
    let ghost temp1 = temp@;
    let ghost out1 = out@;
    while temp.len() > 0
        invariant
            out@ + temp@.reverse() =~= out1 + temp1.reverse(),
        decreases temp@.len(),
    {
        proof {
            assert(temp@.reverse() =~= seq![temp@.last()] + temp@.drop_last().reverse());
        }
        let ch = temp.pop().unwrap();
        out.push(ch);
    }
    proof {
        assert(temp@ =~= Seq::<char>::empty());
        assert(out@ =~= out1 + temp1.reverse());
        lemma_visual_from_len(text@, 0, Seq::empty(), false);
    }
    out
}

/// A two-character right-to-left run between left-to-right characters is
/// reversed in place: the visual order of `a r1 r2 b` is `a r2 r1 b`.
pub proof fn lemma_rtl_run_reversed(a: char, r1: char, r2: char, b: char)
    requires
        spec_direction(a) == Direction::LeftRight,
        spec_direction(b) == Direction::LeftRight,
        spec_direction(r1) == Direction::RightLeft,
        spec_direction(r2) == Direction::RightLeft,
    ensures
        spec_visual_order(seq![a, r1, r2, b]) =~= seq![a, r2, r1, b],
{
    let s = seq![a, r1, r2, b];
    assert(s[0] == a && s[1] == r1 && s[2] == r2 && s[3] == b);
    assert(Seq::<char>::empty().reverse() =~= Seq::<char>::empty());
    assert(spec_visual_from(s, 4, seq![r1, r2], true) =~= seq![r2, r1]);
    assert(spec_visual_from(s, 3, seq![r1, r2], true) =~= seq![r2, r1] + seq![b]
        + spec_visual_from(s, 4, Seq::empty(), true));
    assert(spec_visual_from(s, 4, Seq::empty(), true) =~= Seq::<char>::empty());
    assert(seq![r1].push(r2) =~= seq![r1, r2]);
    assert(spec_visual_from(s, 2, seq![r1], true) == spec_visual_from(s, 3, seq![r1, r2], true));
    assert(Seq::<char>::empty().push(r1) =~= seq![r1]);
    assert(spec_visual_from(s, 1, Seq::empty(), false) == spec_visual_from(s, 2, seq![r1], true));
    assert(spec_visual_order(s) =~= Seq::<char>::empty().reverse() + seq![a]
        + spec_visual_from(s, 1, Seq::empty(), false));
    assert(spec_visual_order(s) =~= seq![a, r2, r1, b]);
}

} // verus!
