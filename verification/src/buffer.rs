//! A buffer's text as lines of characters, and which protocol positions lie in it.

use vstd::prelude::*;
use crate::inlay_hints::Position;
use crate::text::{char_len_utf16, utf16_size, lemma_utf8_size_step};

verus! {

/// The point `p` lies in the text: its line exists and its UTF-16 column falls on a
/// character boundary of that line (at most at the line's end). Such a point is left
/// unchanged when it is clipped to the text.
pub open spec fn valid_point(lines: Seq<Vec<char>>, p: Position) -> bool {
    &&& p.line < lines.len()
    &&& exists|k: int| 0 <= k <= lines[p.line as int]@.len()
            && #[trigger] utf16_size(lines[p.line as int]@.take(k)) == p.character
}

/// The UTF-16 length of a prefix grows with the prefix.
pub proof fn lemma_utf16_prefix_monotone(s: Seq<char>, i: int, k: int)
    requires
        0 <= i <= k <= s.len(),
    ensures
        utf16_size(s.take(i)) + (k - i) <= utf16_size(s.take(k)),
    decreases k - i,
{
    if i < k {
        lemma_utf16_prefix_monotone(s, i, k - 1);
        lemma_utf8_size_step(s, k - 1);
    }
}

/// Whether the point `p` lies in the text.
pub fn is_valid_point(lines: &Vec<Vec<char>>, p: Position) -> (b: bool)
    ensures
        b == valid_point(lines@, p),
{
    let row = p.line as usize;
    if row >= lines.len() {
        return false;
    }
    let line = &lines[row];
    let target = p.character as u64;
    let mut acc: u64 = 0;
    let mut i: usize = 0;
    while i < line.len() && acc < target
        invariant
            line@ == lines@[row as int]@,
            target == p.character,
            i <= line@.len(),
            acc == utf16_size(line@.take(i as int)),
            acc <= target + 1,
            forall|k: int| 0 <= k < i ==> #[trigger] utf16_size(line@.take(k)) < target,
        decreases line@.len() - i,
    {
        proof {
            lemma_utf8_size_step(line@, i as int);
        }
        acc = acc + char_len_utf16(line[i]) as u64;
        i = i + 1;
    }
    proof {
        if acc == target {
            assert(utf16_size(line@.take(i as int)) == p.character);
        } else {
            assert forall|k: int| 0 <= k <= line@.len() implies #[trigger] utf16_size(line@.take(k)) != p.character by {
                if k >= i {
                    lemma_utf16_prefix_monotone(line@, i as int, k);
                }
            }
        }
    }
    acc == target
}


/// Which way a point inside a character moves when it is clipped, and which side of
/// its position an anchor sticks to.
#[derive(Clone, Copy, Debug, PartialEq, Eq, Structural)]
pub enum Bias {
    Left,
    Right,
}

/// A position in a buffer that sticks to the text before it (`Left`) or after it (`Right`).
#[derive(Clone, Copy, Debug, PartialEq, Eq, Structural)]
pub struct Anchor {
    pub point: Position,
    pub bias: Bias,
}

/// A range of a buffer between two anchors.
#[derive(Clone, Copy, Debug, PartialEq, Eq, Structural)]
pub struct AnchorRange {
    pub start: Anchor,
    pub end: Anchor,
}

/// `o` is the UTF-16 offset of a character boundary of `s`.
pub open spec fn is_boundary(s: Seq<char>, o: nat) -> bool {
    exists|k: int| 0 <= k <= s.len() && #[trigger] utf16_size(s.take(k)) == o
}

/// Every line's UTF-16 length, and the index of every line, fit the 32-bit coordinates
/// of a point.
pub open spec fn lines_fit(lines: Seq<Vec<char>>) -> bool {
    &&& lines.len() <= u32::MAX
    &&& forall|i: int| 0 <= i < lines.len() ==> #[trigger] utf16_size(lines[i]@) <= u32::MAX
}

/// `r` is `p` clipped to the text: a point past the last line becomes the end of the
/// text; a column past the end of its line becomes the line's end; a column inside a
/// character moves to the character's start (`Left`) or end (`Right`).
pub open spec fn clipped(lines: Seq<Vec<char>>, p: Position, bias: Bias, r: Position) -> bool {
    if lines.len() == 0 {
        r == Position { line: 0, character: 0 }
    } else if p.line >= lines.len() {
        &&& r.line == lines.len() - 1
        &&& r.character == utf16_size(lines[lines.len() - 1]@)
    } else {
        let s = lines[p.line as int]@;
        &&& r.line == p.line
        &&& is_boundary(s, r.character as nat)
        &&& match bias {
            Bias::Left => {
                &&& r.character <= p.character
                &&& forall|o: nat| is_boundary(s, o) && o <= p.character ==> o <= r.character
            },
            Bias::Right => {
                let c = if p.character <= utf16_size(s) { p.character as nat } else { utf16_size(s) };
                &&& c <= r.character
                &&& forall|o: nat| is_boundary(s, o) && c <= o ==> r.character <= o
            },
        }
    }
}

/// Every boundary of a line is at most its end.
proof fn lemma_boundary_le_end(s: Seq<char>, o: nat)
    requires
        is_boundary(s, o),
    ensures
        o <= utf16_size(s),
{
    let k = choose|k: int| 0 <= k <= s.len() && #[trigger] utf16_size(s.take(k)) == o;
    lemma_utf16_prefix_monotone(s, k, s.len() as int);
    assert(s.take(s.len() as int) =~= s);
}

/// `p` clipped to the text, moving a column inside a character the way `bias` says.
pub fn clip_point(lines: &Vec<Vec<char>>, p: Position, bias: Bias) -> (r: Position)
    requires
        lines_fit(lines@),
    ensures
        clipped(lines@, p, bias, r),
{
    if lines.len() == 0 {
        return Position { line: 0, character: 0 };
    }
    let row = p.line as usize;
    let last = lines.len() - 1;
    let (row, target) = if row > last {
        (last, u64::MAX)
    } else {
        (row, p.character as u64)
    };
    let line = &lines[row];
    proof {
        assert(utf16_size(lines@[row as int]@) <= u32::MAX);
    }
    // The largest boundary at most `target`, and the boundary after it.
    let mut acc: u64 = 0;
    let mut i: usize = 0;
    while i < line.len() && acc + (char_len_utf16(line[i]) as u64) <= target
        invariant
            line@ == lines@[row as int]@,
            utf16_size(line@) <= u32::MAX,
            i <= line@.len(),
            acc == utf16_size(line@.take(i as int)),
            acc <= target,
            acc <= u32::MAX,
        decreases line@.len() - i,
    {
        proof {
            lemma_utf8_size_step(line@, i as int);
            lemma_utf16_prefix_monotone(line@, i + 1, line@.len() as int);
            assert(line@.take(line@.len() as int) =~= line@);
        }
        acc = acc + char_len_utf16(line[i]) as u64;
        i = i + 1;
    }
    proof {
        lemma_utf16_prefix_monotone(line@, i as int, line@.len() as int);
        assert(line@.take(line@.len() as int) =~= line@);
        assert(is_boundary(line@, acc as nat));
    }
    let floor = acc as u32;
    let result_col = if bias == Bias::Left || i == line.len() || acc == target {
        floor
    } else {
        proof {
            lemma_utf8_size_step(line@, i as int);
            lemma_utf16_prefix_monotone(line@, i + 1, line@.len() as int);
        }
        (acc + char_len_utf16(line[i]) as u64) as u32
    };
    let r = Position { line: row as u32, character: result_col };
    proof {
        let s = line@;
        if p.line >= lines@.len() {
            assert(i == s.len()) by {
                if i < s.len() {
                    lemma_utf8_size_step(s, i as int);
                    lemma_utf16_prefix_monotone(s, i + 1, s.len() as int);
                    assert(s.take(s.len() as int) =~= s);
                }
            }
            assert(s.take(i as int) =~= s);
        } else {
            // Boundaries before `i` are at most `acc`; those after it exceed `target`.
            assert forall|o: nat| is_boundary(s, o) && o <= p.character implies o <= acc by {
                let k = choose|k: int| 0 <= k <= s.len() && #[trigger] utf16_size(s.take(k)) == o;
                if k > i {
                    lemma_utf8_size_step(s, i as int);
                    lemma_utf16_prefix_monotone(s, i + 1, k);
                } else {
                    lemma_utf16_prefix_monotone(s, k, i as int);
                }
            }
            match bias {
                Bias::Left => {},
                Bias::Right => {
                    let c = if p.character <= utf16_size(s) { p.character as nat } else { utf16_size(s) };
                    if i == s.len() {
                        assert(s.take(i as int) =~= s);
                        assert forall|o: nat| is_boundary(s, o) && c <= o implies r.character <= o by {
                            lemma_boundary_le_end(s, o);
                        }
                    } else if acc == target {
                    } else {
                        lemma_utf8_size_step(s, i as int);
                        assert(is_boundary(s, r.character as nat));
                        assert forall|o: nat| is_boundary(s, o) && c <= o implies r.character <= o by {
                            let k = choose|k: int| 0 <= k <= s.len() && #[trigger] utf16_size(s.take(k)) == o;
                            if k <= i {
                                lemma_utf16_prefix_monotone(s, k, i as int);
                            } else {
                                lemma_utf16_prefix_monotone(s, i + 1, k);
                            }
                        }
                    }
                },
            }
        }
    }
    r
}


/// A point lies in the text exactly when clipping it leaves it where it is, with either bias.
pub proof fn law_valid_points_are_unclipped(lines: Seq<Vec<char>>, p: Position)
    requires
        lines.len() > 0,
    ensures
        valid_point(lines, p) <==> clipped(lines, p, Bias::Left, p),
        valid_point(lines, p) <==> clipped(lines, p, Bias::Right, p),
{
    if valid_point(lines, p) {
        let s = lines[p.line as int]@;
        let k = choose|k: int| 0 <= k <= s.len() && #[trigger] utf16_size(s.take(k)) == p.character;
        assert(is_boundary(s, p.character as nat));
        lemma_boundary_le_end(s, p.character as nat);
    }
    if clipped(lines, p, Bias::Left, p) || clipped(lines, p, Bias::Right, p) {
        if p.line >= lines.len() {
            assert(false);
        }
    }
}

} // verus!
