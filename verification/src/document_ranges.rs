//! Replies that mark ranges of a document: highlights of a symbol, linked editing
//! ranges, folding ranges, colors and semantic tokens.

use vstd::prelude::*;
use crate::buffer::{Anchor, AnchorRange, Bias, clip_point, clipped, lines_fit};
use crate::inlay_hints::Position;
use crate::lsp_responses::LspRange;
use crate::vec_util::reversed;

verus! {

broadcast use vstd::seq_lib::to_multiset_insert, vstd::seq_lib::to_multiset_build;

/// `a` comes no later than `b`: by line, then by column.
pub open spec fn pos_le(a: Position, b: Position) -> bool {
    a.line < b.line || (a.line == b.line && a.character <= b.character)
}

pub fn position_le(a: Position, b: Position) -> (r: bool)
    ensures
        r == pos_le(a, b),
{
    a.line < b.line || (a.line == b.line && a.character <= b.character)
}

/// How a highlight uses the symbol.
#[derive(Clone, Copy, Debug, PartialEq, Eq, Structural)]
pub enum DocumentHighlightKind {
    Text,
    Read,
    Write,
}

#[derive(Clone, Copy, Debug, PartialEq, Eq, Structural)]
pub struct LspDocumentHighlight {
    pub range: LspRange,
    pub kind: Option<DocumentHighlightKind>,
}

/// A highlight of the symbol under the cursor, in buffer coordinates.
#[derive(Clone, Copy, Debug, PartialEq, Eq, Structural)]
pub struct DocumentHighlight {
    pub range: AnchorRange,
    pub kind: DocumentHighlightKind,
}

/// `a` sorts no later than `b`: by start, and at equal starts the longer range first.
pub open spec fn highlight_le(a: LspDocumentHighlight, b: LspDocumentHighlight) -> bool {
    ||| !pos_le(b.range.start, a.range.start)
    ||| (a.range.start == b.range.start && pos_le(b.range.end, a.range.end))
}

/// Where `x` goes in `s`: after the last element that sorts no later than it.
pub open spec fn highlight_slot(s: Seq<LspDocumentHighlight>, x: LspDocumentHighlight) -> int
    decreases s.len(),
{
    if s.len() == 0 {
        0
    } else if highlight_le(s.last(), x) {
        s.len() as int
    } else {
        highlight_slot(s.drop_last(), x)
    }
}

/// The highlights in sorted order, equal ones in their order in `s`.
pub open spec fn sorted_highlights(s: Seq<LspDocumentHighlight>) -> Seq<LspDocumentHighlight>
    decreases s.len(),
{
    if s.len() == 0 {
        s
    } else {
        let t = sorted_highlights(s.drop_last());
        t.insert(highlight_slot(t, s.last()), s.last())
    }
}

/// The sequence is in highlight order.
pub open spec fn highlights_in_order(s: Seq<LspDocumentHighlight>) -> bool {
    forall|i: int, j: int| 0 <= i < j < s.len() ==> highlight_le(#[trigger] s[i], #[trigger] s[j])
}

proof fn lemma_highlight_slot(s: Seq<LspDocumentHighlight>, x: LspDocumentHighlight)
    requires
        highlights_in_order(s),
    ensures
        0 <= highlight_slot(s, x) <= s.len(),
        highlights_in_order(s.insert(highlight_slot(s, x), x)),
    decreases s.len(),
{
    let j = highlight_slot(s, x);
    if s.len() > 0 && !highlight_le(s.last(), x) {
        lemma_highlight_slot(s.drop_last(), x);
        assert(s.drop_last().insert(j, x).push(s.last()) =~= s.insert(j, x));
    }
    let t = s.insert(j, x);
    assert forall|a: int, b: int| 0 <= a < b < t.len() implies highlight_le(#[trigger] t[a], #[trigger] t[b]) by {
        if s.len() > 0 && !highlight_le(s.last(), x) {
            if b == t.len() - 1 {
                if a == j {
                    assert(!highlight_le(s.last(), x));
                } else if a < j {
                    assert(t[a] == s[a]);
                } else {
                    assert(t[a] == s[a - 1]);
                }
            }
        } else {
            if a < j && b == j {
                assert(t[a] == s[a]);
                if a < s.len() - 1 {
                    assert(highlight_le(s[a], s[s.len() - 1]));
                }
            } else if a < j && b > j {
                assert(t[a] == s[a]);
                assert(t[b] == s[b - 1]);
            } else if a > j {
                assert(t[a] == s[a - 1]);
                assert(t[b] == s[b - 1]);
            } else if a < j {
                assert(t[a] == s[a]);
                assert(t[b] == s[b]);
            }
        }
    }
}

/// Sorting highlights puts them in highlight order and keeps every one of them.
pub proof fn law_sorted_highlights(s: Seq<LspDocumentHighlight>)
    ensures
        highlights_in_order(sorted_highlights(s)),
        sorted_highlights(s).to_multiset() == s.to_multiset(),
    decreases s.len(),
{
    if s.len() > 0 {
        law_sorted_highlights(s.drop_last());
        let t = sorted_highlights(s.drop_last());
        lemma_highlight_slot(t, s.last());
        assert(s.drop_last().push(s.last()) =~= s);
    }
}

/// The index at which `x` goes into `sorted`.
fn find_highlight_slot(sorted: &Vec<LspDocumentHighlight>, x: LspDocumentHighlight) -> (j: usize)
    ensures
        j == highlight_slot(sorted@, x),
{
    let mut j = sorted.len();
    proof {
        assert(sorted@.take(sorted@.len() as int) =~= sorted@);
    }
    while j > 0 && !(highlight_is_le(sorted[j - 1], x))
        invariant
            j <= sorted@.len(),
            highlight_slot(sorted@, x) == highlight_slot(sorted@.take(j as int), x),
        decreases j,
    {
        proof {
            assert(sorted@.take(j as int).drop_last() =~= sorted@.take(j - 1));
        }
        j = j - 1;
    }
    proof {
        if j > 0 {
            assert(sorted@.take(j as int).last() == sorted@[j - 1]);
        }
    }
    j
}

fn highlight_is_le(a: LspDocumentHighlight, b: LspDocumentHighlight) -> (r: bool)
    ensures
        r == highlight_le(a, b),
{
    !position_le(b.range.start, a.range.start)
        || (a.range.start == b.range.start && position_le(b.range.end, a.range.end))
}

/// The highlights sorted by start, longer ranges first at equal starts.
pub fn sort_highlights(v: Vec<LspDocumentHighlight>) -> (r: Vec<LspDocumentHighlight>)
    ensures
        r@ == sorted_highlights(v@),
{
    let ghost s = v@;
    let mut out: Vec<LspDocumentHighlight> = Vec::new();
    let mut i: usize = 0;
    proof {
        assert(s.take(0) =~= Seq::<LspDocumentHighlight>::empty());
    }
    while i < v.len()
        invariant
            s == v@,
            i <= s.len(),
            out@ == sorted_highlights(s.take(i as int)),
        decreases s.len() - i,
    {
        let x = v[i];
        let j = find_highlight_slot(&out, x);
        proof {
            assert(s.take(i + 1).drop_last() =~= s.take(i as int));
            assert(s.take(i + 1).last() == x);
            lemma_slot_bound(out@, x);
        }
        out.insert(j, x);
        i = i + 1;
    }
    proof {
        assert(s.take(s.len() as int) =~= s);
    }
    out
}

proof fn lemma_slot_bound(s: Seq<LspDocumentHighlight>, x: LspDocumentHighlight)
    ensures
        0 <= highlight_slot(s, x) <= s.len(),
    decreases s.len(),
{
    if s.len() > 0 {
        lemma_slot_bound(s.drop_last(), x);
    }
}

/// A highlight in buffer coordinates: its ends clipped to the text, the start anchored
/// after and the end before; a highlight of no stated kind reads the symbol.
pub open spec fn highlight_in_buffer(lines: Seq<Vec<char>>, h: LspDocumentHighlight, r: DocumentHighlight) -> bool {
    &&& clipped(lines, h.range.start, Bias::Left, r.range.start.point)
    &&& clipped(lines, h.range.end, Bias::Left, r.range.end.point)
    &&& r.range.start.bias == Bias::Right
    &&& r.range.end.bias == Bias::Left
    &&& r.kind == match h.kind {
        Some(k) => k,
        None => DocumentHighlightKind::Read,
    }
}

/// The highlights of a reply in buffer coordinates, sorted by start, longer ranges
/// first at equal starts.
pub fn document_highlights_from_lsp(
    lsp_highlights: Option<Vec<LspDocumentHighlight>>,
    lines: &Vec<Vec<char>>,
) -> (r: Vec<DocumentHighlight>)
    requires
        lines_fit(lines@),
    ensures
        r@.len() == sorted_highlights(match lsp_highlights { Some(v) => v@, None => Seq::empty() }).len(),
        forall|i: int| 0 <= i < r@.len() ==> highlight_in_buffer(
            lines@,
            sorted_highlights(match lsp_highlights { Some(v) => v@, None => Seq::empty() })[i],
            #[trigger] r@[i],
        ),
{
    let highlights = match lsp_highlights {
        Some(v) => v,
        None => Vec::new(),
    };
    let sorted = sort_highlights(highlights);
    let mut out: Vec<DocumentHighlight> = Vec::new();
    let mut i: usize = 0;
    while i < sorted.len()
        invariant
            lines_fit(lines@),
            i <= sorted@.len(),
            out@.len() == i,
            forall|k: int| 0 <= k < i ==> highlight_in_buffer(lines@, sorted@[k], #[trigger] out@[k]),
        decreases sorted@.len() - i,
    {
        let h = sorted[i];
        let start = clip_point(lines, h.range.start, Bias::Left);
        let end = clip_point(lines, h.range.end, Bias::Left);
        let kind = match h.kind {
            Some(k) => k,
            None => DocumentHighlightKind::Read,
        };
        out.push(DocumentHighlight {
            range: AnchorRange {
                start: Anchor { point: start, bias: Bias::Right },
                end: Anchor { point: end, bias: Bias::Left },
            },
            kind,
        });
        i = i + 1;
    }
    out
}


/// Where `x` goes in `s`: after the last range that starts no later than it.
pub open spec fn range_slot(s: Seq<LspRange>, x: LspRange) -> int
    decreases s.len(),
{
    if s.len() == 0 {
        0
    } else if pos_le(s.last().start, x.start) {
        s.len() as int
    } else {
        range_slot(s.drop_last(), x)
    }
}

/// The ranges sorted by start, ranges with equal starts in their order in `s`.
pub open spec fn sorted_by_start(s: Seq<LspRange>) -> Seq<LspRange>
    decreases s.len(),
{
    if s.len() == 0 {
        s
    } else {
        let t = sorted_by_start(s.drop_last());
        t.insert(range_slot(t, s.last()), s.last())
    }
}

/// The ranges are in order of their starts.
pub open spec fn starts_in_order(s: Seq<LspRange>) -> bool {
    forall|i: int, j: int| 0 <= i < j < s.len() ==> pos_le((#[trigger] s[i]).start, (#[trigger] s[j]).start)
}

proof fn lemma_range_slot(s: Seq<LspRange>, x: LspRange)
    requires
        starts_in_order(s),
    ensures
        0 <= range_slot(s, x) <= s.len(),
        starts_in_order(s.insert(range_slot(s, x), x)),
    decreases s.len(),
{
    let j = range_slot(s, x);
    if s.len() > 0 && !pos_le(s.last().start, x.start) {
        lemma_range_slot(s.drop_last(), x);
        assert(s.drop_last().insert(j, x).push(s.last()) =~= s.insert(j, x));
    }
    let t = s.insert(j, x);
    assert forall|a: int, b: int| 0 <= a < b < t.len() implies pos_le((#[trigger] t[a]).start, (#[trigger] t[b]).start) by {
        if s.len() > 0 && !pos_le(s.last().start, x.start) {
            if b == t.len() - 1 {
                if a < j {
                    assert(t[a] == s[a]);
                } else if a > j {
                    assert(t[a] == s[a - 1]);
                }
            }
        } else {
            if a < j && b == j {
                assert(t[a] == s[a]);
                if a < s.len() - 1 {
                    assert(pos_le(s[a].start, s[s.len() - 1].start));
                }
            } else if a < j && b > j {
                assert(t[a] == s[a]);
                assert(t[b] == s[b - 1]);
            } else if a > j {
                assert(t[a] == s[a - 1]);
                assert(t[b] == s[b - 1]);
            } else if a < j {
                assert(t[a] == s[a]);
                assert(t[b] == s[b]);
            }
        }
    }
}

/// Sorting ranges by start puts them in order of their starts and keeps every one of them.
pub proof fn law_sorted_by_start(s: Seq<LspRange>)
    ensures
        starts_in_order(sorted_by_start(s)),
        sorted_by_start(s).to_multiset() == s.to_multiset(),
    decreases s.len(),
{
    if s.len() > 0 {
        law_sorted_by_start(s.drop_last());
        let t = sorted_by_start(s.drop_last());
        lemma_range_slot(t, s.last());
        assert(s.drop_last().push(s.last()) =~= s);
    }
}

proof fn lemma_range_slot_bound(s: Seq<LspRange>, x: LspRange)
    ensures
        0 <= range_slot(s, x) <= s.len(),
    decreases s.len(),
{
    if s.len() > 0 {
        lemma_range_slot_bound(s.drop_last(), x);
    }
}

fn find_range_slot(sorted: &Vec<LspRange>, x: LspRange) -> (j: usize)
    ensures
        j == range_slot(sorted@, x),
{
    let mut j = sorted.len();
    proof {
        assert(sorted@.take(sorted@.len() as int) =~= sorted@);
    }
    while j > 0 && !position_le(sorted[j - 1].start, x.start)
        invariant
            j <= sorted@.len(),
            range_slot(sorted@, x) == range_slot(sorted@.take(j as int), x),
        decreases j,
    {
        proof {
            assert(sorted@.take(j as int).drop_last() =~= sorted@.take(j - 1));
        }
        j = j - 1;
    }
    proof {
        if j > 0 {
            assert(sorted@.take(j as int).last() == sorted@[j - 1]);
        }
    }
    j
}

/// The ranges sorted by start; ranges with equal starts keep their order.
pub fn sort_by_start(v: Vec<LspRange>) -> (r: Vec<LspRange>)
    ensures
        r@ == sorted_by_start(v@),
{
    let ghost s = v@;
    let mut out: Vec<LspRange> = Vec::new();
    let mut i: usize = 0;
    proof {
        assert(s.take(0) =~= Seq::<LspRange>::empty());
    }
    while i < v.len()
        invariant
            s == v@,
            i <= s.len(),
            out@ == sorted_by_start(s.take(i as int)),
        decreases s.len() - i,
    {
        let x = v[i];
        let j = find_range_slot(&out, x);
        proof {
            assert(s.take(i + 1).drop_last() =~= s.take(i as int));
            assert(s.take(i + 1).last() == x);
            lemma_range_slot_bound(out@, x);
        }
        out.insert(j, x);
        i = i + 1;
    }
    proof {
        assert(s.take(s.len() as int) =~= s);
    }
    out
}

/// A linked editing range in buffer coordinates: its ends clipped to the text, the
/// start anchored before and the end after.
pub open spec fn linked_range_in_buffer(lines: Seq<Vec<char>>, range: LspRange, r: AnchorRange) -> bool {
    &&& clipped(lines, range.start, Bias::Left, r.start.point)
    &&& clipped(lines, range.end, Bias::Left, r.end.point)
    &&& r.start.bias == Bias::Left
    &&& r.end.bias == Bias::Right
}

/// A request for the ranges linked to the one at a position, edited together with it.
#[derive(Debug, Clone, Copy)]
pub struct LinkedEditingRange {
    pub position: Anchor,
}

/// A linked editing reply: its ranges.
#[derive(Debug, PartialEq, Eq)]
pub struct LinkedEditingRanges {
    pub ranges: Vec<LspRange>,
    pub word_pattern: Option<String>,
}

/// The linked editing ranges of a reply in buffer coordinates, sorted by start (ranges
/// with equal starts keep their order); none without a reply.
pub fn linked_editing_ranges_from_lsp(
    message: Option<LinkedEditingRanges>,
    lines: &Vec<Vec<char>>,
) -> (r: Vec<AnchorRange>)
    requires
        lines_fit(lines@),
    ensures
        r@.len() == sorted_by_start(match message { Some(m) => m.ranges@, None => Seq::empty() }).len(),
        forall|i: int| 0 <= i < r@.len() ==> linked_range_in_buffer(
            lines@,
            sorted_by_start(match message { Some(m) => m.ranges@, None => Seq::empty() })[i],
            #[trigger] r@[i],
        ),
{
    let ranges = match message {
        Some(m) => m.ranges,
        None => Vec::new(),
    };
    let sorted = sort_by_start(ranges);
    let mut out: Vec<AnchorRange> = Vec::new();
    let mut i: usize = 0;
    while i < sorted.len()
        invariant
            lines_fit(lines@),
            i <= sorted@.len(),
            out@.len() == i,
            forall|k: int| 0 <= k < i ==> linked_range_in_buffer(lines@, sorted@[k], #[trigger] out@[k]),
        decreases sorted@.len() - i,
    {
        let range = sorted[i];
        let start = clip_point(lines, range.start, Bias::Left);
        let end = clip_point(lines, range.end, Bias::Left);
        out.push(AnchorRange {
            start: Anchor { point: start, bias: Bias::Left },
            end: Anchor { point: end, bias: Bias::Right },
        });
        i = i + 1;
    }
    out
}

/// A folding range of the protocol.
#[derive(Debug, PartialEq, Eq)]
pub struct FoldingRange {
    pub start_line: u32,
    pub start_character: Option<u32>,
    pub end_line: u32,
    pub end_character: Option<u32>,
    pub collapsed_text: Option<String>,
}

/// A folding range in buffer coordinates, with the text shown while it is folded.
#[derive(Debug)]
pub struct LspFoldingRange {
    pub range: AnchorRange,
    pub collapsed_text: Option<String>,
}

/// The folding ranges are in order of where they start.
pub open spec fn folds_in_order(s: Seq<LspFoldingRange>) -> bool {
    forall|i: int, j: int| 0 <= i < j < s.len() ==>
        pos_le((#[trigger] s[i]).range.start.point, (#[trigger] s[j]).range.start.point)
}

/// The folding ranges sorted by where they start; ranges that start at the same point
/// keep their order.
pub fn sort_folding_ranges_by_start<'a>(v: Vec<&'a LspFoldingRange>) -> (r: Vec<&'a LspFoldingRange>)
    ensures
        folds_in_order(r@.unref()),
        r@.unref().to_multiset() == v@.unref().to_multiset(),
{
    let ghost s = v@.unref();
    let mut out: Vec<&LspFoldingRange> = Vec::new();
    let mut i: usize = 0;
    proof {
        assert(out@.unref() =~= s.take(0));
    }
    while i < v.len()
        invariant
            i <= v@.len(),
            s == v@.unref(),
            folds_in_order(out@.unref()),
            out@.unref().to_multiset() == s.take(i as int).to_multiset(),
        decreases v@.len() - i,
    {
        let x = v[i];
        let mut j = out.len();
        while j > 0 && !position_le(out[j - 1].range.start.point, x.range.start.point)
            invariant
                j <= out@.len(),
                forall|k: int| j <= k < out@.len() ==> !pos_le((#[trigger] out@[k]).range.start.point, x.range.start.point),
            decreases j,
        {
            j = j - 1;
        }
        let ghost before = out@.unref();
        out.insert(j, x);
        proof {
            assert(out@.unref() =~= before.insert(j as int, *x));
            assert(s.take(i + 1) =~= s.take(i as int).push(*x));
            let t = out@.unref();
            assert forall|a: int, b: int| 0 <= a < b < t.len() implies
                pos_le((#[trigger] t[a]).range.start.point, (#[trigger] t[b]).range.start.point) by {
                if a < j && b == j {
                    assert(pos_le(before[j - 1].range.start.point, x.range.start.point));
                    if a < j - 1 {
                        assert(pos_le(before[a].range.start.point, before[j - 1].range.start.point));
                    }
                } else if a == j {
                    assert(!pos_le(before[b - 1].range.start.point, x.range.start.point));
                } else if a < j && b > j {
                    assert(t[a] == before[a]);
                    assert(t[b] == before[b - 1]);
                } else if a > j {
                    assert(t[a] == before[a - 1]);
                    assert(t[b] == before[b - 1]);
                } else {
                    assert(t[a] == before[a]);
                    assert(t[b] == before[b]);
                }
            }
        }
        i = i + 1;
    }
    proof {
        assert(s.take(v@.len() as int) =~= s);
    }
    out
}

/// The last row of the text.
pub open spec fn max_row(lines: Seq<Vec<char>>) -> int {
    if lines.len() == 0 { 0 } else { lines.len() - 1 }
}

/// A folding range is kept when it spans more than one line and both its lines exist.
pub open spec fn folding_range_kept(lines: Seq<Vec<char>>, f: FoldingRange) -> bool {
    f.start_line < f.end_line && f.start_line <= max_row(lines) && f.end_line <= max_row(lines)
}

/// The kept folding ranges, in order.
pub open spec fn kept_folding_ranges(lines: Seq<Vec<char>>, s: Seq<FoldingRange>) -> Seq<FoldingRange>
    decreases s.len(),
{
    if s.len() == 0 {
        s
    } else {
        let prev = kept_folding_ranges(lines, s.drop_last());
        if folding_range_kept(lines, s.last()) { prev.push(s.last()) } else { prev }
    }
}

/// A kept folding range in buffer coordinates: a missing column is the end of its line;
/// the start is clipped rightwards and anchored after, the end clipped leftwards and
/// anchored before; an empty collapsed text counts as none.
pub open spec fn folding_range_in_buffer(lines: Seq<Vec<char>>, f: FoldingRange, r: LspFoldingRange) -> bool {
    let start_col = match f.start_character { Some(c) => c, None => u32::MAX };
    let end_col = match f.end_character { Some(c) => c, None => u32::MAX };
    &&& clipped(lines, Position { line: f.start_line, character: start_col }, Bias::Right, r.range.start.point)
    &&& clipped(lines, Position { line: f.end_line, character: end_col }, Bias::Left, r.range.end.point)
    &&& r.range.start.bias == Bias::Right
    &&& r.range.end.bias == Bias::Left
    &&& match f.collapsed_text {
        Some(t) => if t@.len() == 0 { r.collapsed_text is None } else {
            r.collapsed_text matches Some(u) && u@ == t@
        },
        None => r.collapsed_text is None,
    }
}

/// The folding ranges of a reply that span more than one line of the text, in buffer
/// coordinates and in the reply's order; none without a reply.
pub fn folding_ranges_from_lsp(message: Option<Vec<FoldingRange>>, lines: &Vec<Vec<char>>) -> (r: Vec<LspFoldingRange>)
    requires
        lines_fit(lines@),
    ensures
        r@.len() == kept_folding_ranges(lines@, match message { Some(v) => v@, None => Seq::empty() }).len(),
        forall|i: int| 0 <= i < r@.len() ==> folding_range_in_buffer(
            lines@,
            kept_folding_ranges(lines@, match message { Some(v) => v@, None => Seq::empty() })[i],
            #[trigger] r@[i],
        ),
{
    let ranges = match message {
        Some(v) => v,
        None => Vec::new(),
    };
    let ghost s = ranges@;
    let last_row: u32 = if lines.len() == 0 { 0 } else { (lines.len() - 1) as u32 };
    let mut rest = reversed(ranges);
    let mut out: Vec<LspFoldingRange> = Vec::new();
    while rest.len() > 0
        invariant
            lines_fit(lines@),
            last_row == max_row(lines@),
            rest@.len() <= s.len(),
            rest@ == s.skip(s.len() - rest@.len()).reverse(),
            out@.len() == kept_folding_ranges(lines@, s.take(s.len() - rest@.len())).len(),
            forall|k: int| 0 <= k < out@.len() ==> folding_range_in_buffer(
                lines@,
                kept_folding_ranges(lines@, s.take(s.len() - rest@.len()))[k],
                #[trigger] out@[k],
            ),
        decreases rest@.len(),
    {
        let ghost n = s.len() - rest@.len();
        let ghost old_out = out@;
        let f = rest.pop().unwrap();
        proof {
            assert(f == s[n]);
            assert(s.take(n + 1).drop_last() =~= s.take(n));
            assert(s.take(n + 1).last() == s[n]);
            assert(s.skip(n + 1).reverse() =~= rest@);
        }
        if f.start_line < f.end_line && f.start_line <= last_row && f.end_line <= last_row {
            let start_col = match f.start_character { Some(c) => c, None => u32::MAX };
            let end_col = match f.end_character { Some(c) => c, None => u32::MAX };
            let start = clip_point(lines, Position { line: f.start_line, character: start_col }, Bias::Right);
            let end = clip_point(lines, Position { line: f.end_line, character: end_col }, Bias::Left);
            let collapsed_text = match f.collapsed_text {
                Some(t) => if t.as_str().is_empty() { None } else { Some(t) },
                None => None,
            };
            out.push(LspFoldingRange {
                range: AnchorRange {
                    start: Anchor { point: start, bias: Bias::Right },
                    end: Anchor { point: end, bias: Bias::Left },
                },
                collapsed_text,
            });
            proof {
                assert forall|k: int| 0 <= k < out@.len() implies folding_range_in_buffer(
                    lines@,
                    kept_folding_ranges(lines@, s.take(n + 1))[k],
                    #[trigger] out@[k],
                ) by {
                    if k < old_out.len() {
                        assert(out@[k] == old_out[k]);
                    }
                }
            }
        }
    }
    proof {
        assert(s.take(s.len() as int) =~= s);
    }
    out
}

/// A color found in a document; `C` is the color's value.
#[derive(Debug, PartialEq, Eq)]
pub struct ColorInformation<C> {
    pub range: LspRange,
    pub color: C,
}

/// A document color; `P` is a way the color can be written, filled in by a later
/// resolve request.
#[derive(Debug, PartialEq, Eq)]
pub struct DocumentColor<C, P> {
    pub lsp_range: LspRange,
    pub color: C,
    pub resolved: bool,
    pub color_presentations: Vec<P>,
}

/// The colors of a reply, in order, none of them resolved yet.
pub fn document_colors_from_lsp<C, P>(message: Vec<ColorInformation<C>>) -> (r: Vec<DocumentColor<C, P>>)
    ensures
        r@.len() == message@.len(),
        forall|i: int| 0 <= i < r@.len() ==> {
            let c = #[trigger] r@[i];
            &&& c.lsp_range == message@[i].range
            &&& c.color == message@[i].color
            &&& !c.resolved
            &&& c.color_presentations@.len() == 0
        },
{
    let ghost s = message@;
    let mut rest = reversed(message);
    let mut out: Vec<DocumentColor<C, P>> = Vec::new();
    while rest.len() > 0
        invariant
            rest@.len() <= s.len(),
            out@.len() == s.len() - rest@.len(),
            rest@ == s.skip(out@.len() as int).reverse(),
            forall|i: int| 0 <= i < out@.len() ==> {
                let c = #[trigger] out@[i];
                &&& c.lsp_range == s[i].range
                &&& c.color == s[i].color
                &&& !c.resolved
                &&& c.color_presentations@.len() == 0
            },
        decreases rest@.len(),
    {
        let ghost k = out@.len() as int;
        let info = rest.pop().unwrap();
        proof {
            assert(info == s[k]);
            assert(s.skip(k + 1).reverse() =~= rest@);
        }
        out.push(DocumentColor { lsp_range: info.range, color: info.color, resolved: false, color_presentations: Vec::new() });
    }
    out
}


/// A way of writing a color that a server offers; `E` is a text edit.
#[derive(Debug, PartialEq, Eq)]
pub struct LspColorPresentation<E> {
    pub label: String,
    pub text_edit: Option<E>,
    pub additional_text_edits: Option<Vec<E>>,
}

/// A way of writing a color, with the edits that apply it.
#[derive(Debug, PartialEq, Eq)]
pub struct ColorPresentation<E> {
    pub label: String,
    pub text_edit: Option<E>,
    pub additional_text_edits: Vec<E>,
}

/// `r` is the presentation `p` with missing additional edits read as none.
pub open spec fn presentation_from_lsp<E>(p: LspColorPresentation<E>, r: ColorPresentation<E>) -> bool {
    &&& r.label == p.label
    &&& r.text_edit == p.text_edit
    &&& r.additional_text_edits@ == match p.additional_text_edits { Some(e) => e@, None => Seq::empty() }
}

/// The color resolved with the presentations a server offered for it, in order.
pub fn resolved_color<C, E>(
    color: DocumentColor<C, ColorPresentation<E>>,
    presentations: Vec<LspColorPresentation<E>>,
) -> (r: DocumentColor<C, ColorPresentation<E>>)
    ensures
        r.lsp_range == color.lsp_range,
        r.color == color.color,
        r.resolved,
        r.color_presentations@.len() == presentations@.len(),
        forall|i: int| 0 <= i < presentations@.len() ==>
            presentation_from_lsp(presentations@[i], #[trigger] r.color_presentations@[i]),
{
    let ghost s = presentations@;
    let mut rest = reversed(presentations);
    let mut out: Vec<ColorPresentation<E>> = Vec::new();
    while rest.len() > 0
        invariant
            rest@.len() <= s.len(),
            out@.len() == s.len() - rest@.len(),
            rest@ == s.skip(out@.len() as int).reverse(),
            forall|i: int| 0 <= i < out@.len() ==> presentation_from_lsp(s[i], #[trigger] out@[i]),
        decreases rest@.len(),
    {
        let ghost k = out@.len() as int;
        let p = rest.pop().unwrap();
        proof {
            assert(p == s[k]);
            assert(s.skip(k + 1).reverse() =~= rest@);
        }
        let additional_text_edits = match p.additional_text_edits {
            Some(e) => e,
            None => Vec::new(),
        };
        out.push(ColorPresentation { label: p.label, text_edit: p.text_edit, additional_text_edits });
    }
    DocumentColor { lsp_range: color.lsp_range, color: color.color, resolved: true, color_presentations: out }
}

/// The arguments of a request for the ways a color can be written: the document's URI,
/// the color and the range it spans.
#[derive(Debug, PartialEq, Eq)]
pub struct ColorPresentationParams<C> {
    pub uri: String,
    pub color: C,
    pub range: LspRange,
}

/// The presentation request's arguments for a document color of the document at `uri`.
pub fn color_presentation_params<C: Copy, P>(color: &DocumentColor<C, P>, uri: String) -> (params: ColorPresentationParams<C>)
    ensures
        params.uri == uri,
        params.color == color.color,
        params.range == color.lsp_range,
{
    ColorPresentationParams { uri, color: color.color, range: color.lsp_range }
}

/// What resolving a document color takes next.
#[derive(Debug, PartialEq, Eq)]
pub enum ColorResolution<C, P> {
    /// Nothing to ask for: the color as it is.
    Ready(DocumentColor<C, P>),
    /// The buffer has no file of its own: resolving fails.
    MissingPath,
    /// Ask the server with these arguments; its reply resolves the color.
    Request(DocumentColor<C, P>, ColorPresentationParams<C>),
}

/// The next step of resolving `color` in a buffer whose file has the URI `file_uri`
/// (none for a buffer without a file), when the color's server is (or is not) running
/// for the buffer: a resolved color is returned as it is; then a buffer without a file
/// fails; then, without the server, the color is returned unresolved; otherwise the server
/// is asked for the color over its range in that file.
pub fn plan_color_resolution<C: Copy, P>(
    color: DocumentColor<C, P>,
    file_uri: Option<String>,
    server_running: bool,
) -> (r: ColorResolution<C, P>)
    ensures
        color.resolved ==> r == ColorResolution::Ready(color),
        !color.resolved && file_uri is None ==> r == ColorResolution::<C, P>::MissingPath,
        !color.resolved && file_uri is Some && !server_running ==> r == ColorResolution::Ready(color),
        !color.resolved && server_running ==> (file_uri matches Some(uri) ==> (r matches ColorResolution::Request(c, params) && {
            &&& c == color
            &&& params.uri == uri
            &&& params.color == color.color
            &&& params.range == color.lsp_range
        })),
{
    if color.resolved {
        return ColorResolution::Ready(color);
    }
    match file_uri {
        None => ColorResolution::MissingPath,
        Some(uri) => if !server_running {
            ColorResolution::Ready(color)
        } else {
            let params = color_presentation_params(&color, uri);
            ColorResolution::Request(color, params)
        },
    }
}

/// The color after the server's reply to a presentation request: resolved with the
/// presentations offered, in order, or the request's error.
pub fn finish_color_resolution<C, E, F>(
    color: DocumentColor<C, ColorPresentation<E>>,
    reply: Result<Vec<LspColorPresentation<E>>, F>,
) -> (r: Result<DocumentColor<C, ColorPresentation<E>>, F>)
    ensures
        reply is Err ==> r == Err::<DocumentColor<C, ColorPresentation<E>>, F>(reply->Err_0),
        reply is Ok ==> (r matches Ok(c) && {
            &&& c.lsp_range == color.lsp_range
            &&& c.color == color.color
            &&& c.resolved
            &&& c.color_presentations@.len() == reply->Ok_0@.len()
            &&& forall|i: int| 0 <= i < reply->Ok_0@.len() ==>
                presentation_from_lsp(reply->Ok_0@[i], #[trigger] c.color_presentations@[i])
        }),
{
    match reply {
        Ok(presentations) => Ok(resolved_color(color, presentations)),
        Err(e) => Err(e),
    }
}

} // verus!
