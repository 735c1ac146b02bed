//! Locations, links and call hierarchy items of replies, placed in the buffers they
//! belong to.

use vstd::prelude::*;
use crate::buffer::{Anchor, AnchorRange, Bias, clip_point, clipped, lines_fit};
use crate::lsp_responses::LspRange;
use crate::server::{LanguageServerId, clone_opt_string};

verus! {

/// `r` is the range in buffer coordinates: both ends clipped leftwards, the start
/// anchored after and the end before.
pub open spec fn anchor_range_of(lines: Seq<Vec<char>>, range: LspRange, r: AnchorRange) -> bool {
    &&& clipped(lines, range.start, Bias::Left, r.start.point)
    &&& clipped(lines, range.end, Bias::Left, r.end.point)
    &&& r.start.bias == Bias::Right
    &&& r.end.bias == Bias::Left
}

/// A range of the protocol in buffer coordinates.
pub fn anchor_range_from_lsp(range: LspRange, lines: &Vec<Vec<char>>) -> (r: AnchorRange)
    requires
        lines_fit(lines@),
    ensures
        anchor_range_of(lines@, range, r),
{
    let start = clip_point(lines, range.start, Bias::Left);
    let end = clip_point(lines, range.end, Bias::Left);
    AnchorRange {
        start: Anchor { point: start, bias: Bias::Right },
        end: Anchor { point: end, bias: Bias::Left },
    }
}

/// A call hierarchy item of the protocol; `K` is its symbol kind and `J` the server's data.
#[derive(Debug, PartialEq, Eq)]
pub struct LspCallHierarchyItem<K, J> {
    pub name: String,
    pub kind: K,
    pub detail: Option<String>,
    pub uri: String,
    pub range: LspRange,
    pub selection_range: LspRange,
    pub data: Option<J>,
}

/// A call hierarchy item placed in its buffer `B`.
#[derive(Debug, PartialEq, Eq)]
pub struct CallHierarchyItem<B, K, J> {
    pub buffer: B,
    pub server_id: LanguageServerId,
    pub name: String,
    pub kind: K,
    pub detail: Option<String>,
    pub range: AnchorRange,
    pub selection_range: AnchorRange,
    pub data: Option<J>,
}

/// `r` is the item `item` placed in `buffer`, whose text is `lines`.
pub open spec fn item_in_buffer<B, K, J>(
    lines: Seq<Vec<char>>,
    item: LspCallHierarchyItem<K, J>,
    buffer: B,
    server_id: LanguageServerId,
    r: CallHierarchyItem<B, K, J>,
) -> bool {
    &&& r.buffer == buffer
    &&& r.server_id == server_id
    &&& r.name == item.name
    &&& r.kind == item.kind
    &&& r.detail == item.detail
    &&& anchor_range_of(lines, item.range, r.range)
    &&& anchor_range_of(lines, item.selection_range, r.selection_range)
    &&& r.data == item.data
}

/// The item placed in the buffer its URI opened, whose text is `lines`.
pub fn call_hierarchy_item_from_lsp<B, K, J>(
    item: LspCallHierarchyItem<K, J>,
    server_id: LanguageServerId,
    buffer: B,
    lines: &Vec<Vec<char>>,
) -> (r: CallHierarchyItem<B, K, J>)
    requires
        lines_fit(lines@),
    ensures
        item_in_buffer(lines@, item, buffer, server_id, r),
{
    let range = anchor_range_from_lsp(item.range, lines);
    let selection_range = anchor_range_from_lsp(item.selection_range, lines);
    CallHierarchyItem {
        buffer,
        server_id,
        name: item.name,
        kind: item.kind,
        detail: item.detail,
        range,
        selection_range,
        data: item.data,
    }
}

/// The protocol item of an item whose ranges are at the given protocol ranges, in the
/// document with the given URI; it carries no tags.
pub fn call_hierarchy_item_to_lsp<B, K: Copy, J: Clone>(
    item: &CallHierarchyItem<B, K, J>,
    uri: String,
    range: LspRange,
    selection_range: LspRange,
) -> (r: LspCallHierarchyItem<K, J>)
    ensures
        r.name@ == item.name@,
        r.kind == item.kind,
        r.detail == item.detail,
        r.uri == uri,
        r.range == range,
        r.selection_range == selection_range,
        match item.data {
            Some(d) => r.data matches Some(e) && cloned(d, e),
            None => r.data is None,
        },
{
    LspCallHierarchyItem {
        name: item.name.clone(),
        kind: item.kind,
        detail: clone_opt_string(&item.detail),
        uri,
        range,
        selection_range,
        data: item.data.clone(),
    }
}

/// A range of a call within a buffer.
#[derive(Debug, PartialEq, Eq)]
pub struct Location<B> {
    pub buffer: B,
    pub range: AnchorRange,
}

/// The call ranges in `buffer`, whose text is `lines`, in order.
pub fn call_ranges_in_buffer<B: Copy>(ranges: Vec<LspRange>, buffer: B, lines: &Vec<Vec<char>>) -> (r: Vec<Location<B>>)
    requires
        lines_fit(lines@),
    ensures
        r@.len() == ranges@.len(),
        forall|i: int| 0 <= i < r@.len() ==> {
            let l = #[trigger] r@[i];
            l.buffer == buffer && anchor_range_of(lines@, ranges@[i], l.range)
        },
{
    let mut out: Vec<Location<B>> = Vec::new();
    let mut i: usize = 0;
    while i < ranges.len()
        invariant
            lines_fit(lines@),
            i <= ranges@.len(),
            out@.len() == i,
            forall|k: int| 0 <= k < i ==> {
                let l = #[trigger] out@[k];
                l.buffer == buffer && anchor_range_of(lines@, ranges@[k], l.range)
            },
        decreases ranges@.len() - i,
    {
        out.push(Location { buffer, range: anchor_range_from_lsp(ranges[i], lines) });
        i = i + 1;
    }
    out
}


/// A link from a range of the queried buffer (if the server gave one) to a target range.
#[derive(Debug, PartialEq, Eq)]
pub struct LocationLink<B> {
    pub origin: Option<Location<B>>,
    pub target: Location<B>,
}

/// The link from the origin range in the queried buffer to the target range in the
/// buffer the target URI opened.
pub fn location_link_from_lsp<B>(
    origin_range: Option<LspRange>,
    origin_buffer: B,
    origin_lines: &Vec<Vec<char>>,
    target_range: LspRange,
    target_buffer: B,
    target_lines: &Vec<Vec<char>>,
) -> (r: LocationLink<B>)
    requires
        lines_fit(origin_lines@),
        lines_fit(target_lines@),
    ensures
        match origin_range {
            Some(o) => r.origin matches Some(l) && l.buffer == origin_buffer && anchor_range_of(origin_lines@, o, l.range),
            None => r.origin is None,
        },
        r.target.buffer == target_buffer,
        anchor_range_of(target_lines@, target_range, r.target.range),
{
    let origin = match origin_range {
        Some(o) => Some(Location { buffer: origin_buffer, range: anchor_range_from_lsp(o, origin_lines) }),
        None => None,
    };
    LocationLink {
        origin,
        target: Location { buffer: target_buffer, range: anchor_range_from_lsp(target_range, target_lines) },
    }
}


/// Where a definition's file lies in the project: the worktree holding it, whether that
/// worktree is visible and whether it is a single file; `P` is the path within it.
#[derive(Debug, PartialEq, Eq)]
pub struct WorktreeMatch<P> {
    pub worktree_id: u64,
    pub visible: bool,
    pub single_file: bool,
    pub relative_path: P,
}

/// A definition that edit predictions may read: a path in a worktree and a range.
#[derive(Debug, PartialEq, Eq)]
pub struct EditPredictionDefinition<P> {
    pub worktree_id: u64,
    pub path: P,
    pub range: LspRange,
}

/// The definitions edit predictions read: of the targets, in order, those whose file lies
/// in a visible worktree that is not a single file (each target's range goes with where
/// its file lies, `None` when it is in no worktree or is no file).
pub open spec fn prediction_definitions<P>(
    targets: Seq<(LspRange, Option<WorktreeMatch<P>>)>,
) -> Seq<EditPredictionDefinition<P>>
    decreases targets.len(),
{
    if targets.len() == 0 {
        Seq::empty()
    } else {
        let prev = prediction_definitions(targets.drop_last());
        match targets.last().1 {
            Some(m) => if m.visible && !m.single_file {
                prev.push(EditPredictionDefinition { worktree_id: m.worktree_id, path: m.relative_path, range: targets.last().0 })
            } else {
                prev
            },
            None => prev,
        }
    }
}

/// The definitions edit predictions read, given each definition's target range with
/// where its file lies in the project.
pub fn edit_prediction_definitions<P>(
    targets: Vec<(LspRange, Option<WorktreeMatch<P>>)>,
) -> (r: Vec<EditPredictionDefinition<P>>)
    ensures
        r@ == prediction_definitions(targets@),
{
    let ghost t0 = targets@;
    let mut rest = crate::vec_util::reversed(targets);
    let mut out: Vec<EditPredictionDefinition<P>> = Vec::new();
    while rest.len() > 0
        invariant
            rest@.len() <= t0.len(),
            rest@ == t0.skip(t0.len() - rest@.len()).reverse(),
            out@ == prediction_definitions(t0.take(t0.len() - rest@.len())),
        decreases rest@.len(),
    {
        let ghost k = t0.len() - rest@.len();
        let (range, found) = rest.pop().unwrap();
        proof {
            assert((range, found) == t0[k]);
            assert(t0.skip(k + 1).reverse() =~= rest@);
            assert(t0.take(k + 1).drop_last() =~= t0.take(k));
            assert(t0.take(k + 1).last() == t0[k]);
        }
        match found {
            Some(m) => {
                if m.visible && !m.single_file {
                    out.push(EditPredictionDefinition { worktree_id: m.worktree_id, path: m.relative_path, range });
                }
            },
            None => {},
        }
    }
    proof {
        assert(t0.take(t0.len() as int) =~= t0);
    }
    out
}


/// A request for the call hierarchy items at a position.
#[derive(Debug, Clone, Copy)]
pub struct PrepareCallHierarchy {
    pub position: crate::inlay_hints::Position,
}

/// A call of an item: the calling item, and the ranges of the calls in its buffer.
#[derive(Debug, PartialEq, Eq)]
pub struct IncomingCall<B, K, J> {
    pub from: CallHierarchyItem<B, K, J>,
    pub from_ranges: Vec<Location<B>>,
}

/// A call made by an item: the called item, and the ranges of the calls in the caller's
/// buffer.
#[derive(Debug, PartialEq, Eq)]
pub struct OutgoingCall<B, K, J> {
    pub to: CallHierarchyItem<B, K, J>,
    pub from_ranges: Vec<Location<B>>,
}

/// A request for the calls of an item.
#[derive(Debug)]
pub struct GetIncomingCalls<B, K, J> {
    pub item: CallHierarchyItem<B, K, J>,
}

/// A request for the calls an item makes.
#[derive(Debug)]
pub struct GetOutgoingCalls<B, K, J> {
    pub item: CallHierarchyItem<B, K, J>,
}

/// A call of the protocol's incoming-calls reply: the calling item, and the ranges of the
/// calls in its document.
#[derive(Debug, PartialEq, Eq)]
pub struct LspIncomingCall<K, J> {
    pub from: LspCallHierarchyItem<K, J>,
    pub from_ranges: Vec<LspRange>,
}

/// A call of the protocol's outgoing-calls reply: the called item, and the ranges of the
/// calls in the queried document.
#[derive(Debug, PartialEq, Eq)]
pub struct LspOutgoingCall<K, J> {
    pub to: LspCallHierarchyItem<K, J>,
    pub from_ranges: Vec<LspRange>,
}

/// The buffer a URI of a reply opened, with its text.
#[derive(Debug, PartialEq, Eq)]
pub struct OpenedBuffer<B> {
    pub buffer: B,
    pub lines: Vec<Vec<char>>,
}

/// `locs` are the ranges in `buffer`, whose text is `lines`, in order.
pub open spec fn locations_in<B>(lines: Seq<Vec<char>>, ranges: Seq<LspRange>, buffer: B, locs: Seq<Location<B>>) -> bool {
    &&& locs.len() == ranges.len()
    &&& forall|k: int| 0 <= k < locs.len() ==> {
        let l = #[trigger] locs[k];
        l.buffer == buffer && anchor_range_of(lines, ranges[k], l.range)
    }
}

impl<B: Copy, K, J> GetIncomingCalls<B, K, J> {
    /// The calls of a reply, in order, each given with the buffer its caller's URI opened:
    /// the caller placed in that buffer, and the call ranges in it.
    pub fn response_from_lsp(
        &self,
        calls: Vec<(LspIncomingCall<K, J>, OpenedBuffer<B>)>,
        server_id: LanguageServerId,
    ) -> (r: Vec<IncomingCall<B, K, J>>)
        requires
            forall|i: int| 0 <= i < calls@.len() ==> lines_fit((#[trigger] calls@[i]).1.lines@),
        ensures
            r@.len() == calls@.len(),
            forall|i: int| 0 <= i < r@.len() ==> {
                let (call, opened) = calls@[i];
                &&& item_in_buffer(opened.lines@, call.from, opened.buffer, server_id, (#[trigger] r@[i]).from)
                &&& locations_in(opened.lines@, call.from_ranges@, opened.buffer, r@[i].from_ranges@)
            },
    {
        let ghost c0 = calls@;
        let mut rest = crate::vec_util::reversed(calls);
        let mut out: Vec<IncomingCall<B, K, J>> = Vec::new();
        while rest.len() > 0
            invariant
                forall|i: int| 0 <= i < c0.len() ==> lines_fit((#[trigger] c0[i]).1.lines@),
                rest@.len() <= c0.len(),
                out@.len() == c0.len() - rest@.len(),
                rest@ == c0.skip(out@.len() as int).reverse(),
                forall|i: int| 0 <= i < out@.len() ==> {
                    let (call, opened) = c0[i];
                    &&& item_in_buffer(opened.lines@, call.from, opened.buffer, server_id, (#[trigger] out@[i]).from)
                    &&& locations_in(opened.lines@, call.from_ranges@, opened.buffer, out@[i].from_ranges@)
                },
            decreases rest@.len(),
        {
            let ghost k = out@.len() as int;
            let (call, opened) = rest.pop().unwrap();
            proof {
                assert((call, opened) == c0[k]);
                assert(c0.skip(k + 1).reverse() =~= rest@);
            }
            let OpenedBuffer { buffer, lines } = opened;
            let LspIncomingCall { from, from_ranges } = call;
            let from = call_hierarchy_item_from_lsp(from, server_id, buffer, &lines);
            let from_ranges = call_ranges_in_buffer(from_ranges, buffer, &lines);
            out.push(IncomingCall { from, from_ranges });
        }
        out
    }
}

impl<B: Copy, K, J> GetOutgoingCalls<B, K, J> {
    /// The calls of a reply, in order, each given with the buffer its called item's URI
    /// opened: the called item placed in that buffer, and the call ranges in the queried
    /// buffer `queried`, whose text is `queried_lines`.
    pub fn response_from_lsp(
        &self,
        calls: Vec<(LspOutgoingCall<K, J>, OpenedBuffer<B>)>,
        queried: B,
        queried_lines: &Vec<Vec<char>>,
        server_id: LanguageServerId,
    ) -> (r: Vec<OutgoingCall<B, K, J>>)
        requires
            lines_fit(queried_lines@),
            forall|i: int| 0 <= i < calls@.len() ==> lines_fit((#[trigger] calls@[i]).1.lines@),
        ensures
            r@.len() == calls@.len(),
            forall|i: int| 0 <= i < r@.len() ==> {
                let (call, opened) = calls@[i];
                &&& item_in_buffer(opened.lines@, call.to, opened.buffer, server_id, (#[trigger] r@[i]).to)
                &&& locations_in(queried_lines@, call.from_ranges@, queried, r@[i].from_ranges@)
            },
    {
        let ghost c0 = calls@;
        let mut rest = crate::vec_util::reversed(calls);
        let mut out: Vec<OutgoingCall<B, K, J>> = Vec::new();
        while rest.len() > 0
            invariant
                lines_fit(queried_lines@),
                forall|i: int| 0 <= i < c0.len() ==> lines_fit((#[trigger] c0[i]).1.lines@),
                rest@.len() <= c0.len(),
                out@.len() == c0.len() - rest@.len(),
                rest@ == c0.skip(out@.len() as int).reverse(),
                forall|i: int| 0 <= i < out@.len() ==> {
                    let (call, opened) = c0[i];
                    &&& item_in_buffer(opened.lines@, call.to, opened.buffer, server_id, (#[trigger] out@[i]).to)
                    &&& locations_in(queried_lines@, call.from_ranges@, queried, out@[i].from_ranges@)
                },
            decreases rest@.len(),
        {
            let ghost k = out@.len() as int;
            let (call, opened) = rest.pop().unwrap();
            proof {
                assert((call, opened) == c0[k]);
                assert(c0.skip(k + 1).reverse() =~= rest@);
            }
            let OpenedBuffer { buffer, lines } = opened;
            let LspOutgoingCall { to, from_ranges } = call;
            let to = call_hierarchy_item_from_lsp(to, server_id, buffer, &lines);
            let from_ranges = call_ranges_in_buffer(from_ranges, queried, queried_lines);
            out.push(OutgoingCall { to, from_ranges });
        }
        out
    }
}

/// A request for the definitions of the symbol at a position.
#[derive(Debug, Clone, Copy)]
pub struct GetDefinitions {
    pub position: crate::inlay_hints::Position,
}

} // verus!
