//! Inlay hints: conversion between the protocol's hints and the project's hints.

use vstd::prelude::*;
use crate::server::LanguageServerId;
use crate::signature_help::MarkupKind;
use crate::vec_util::reversed;
use crate::buffer::{Anchor, AnchorRange, Bias, clip_point, clipped, is_boundary, lines_fit, valid_point};
use crate::text::{chars_of, utf16_size};

verus! {

/// The protocol's hint kind code for type hints.
pub const LSP_INLAY_HINT_KIND_TYPE: i32 = 1;
/// The protocol's hint kind code for parameter hints.
pub const LSP_INLAY_HINT_KIND_PARAMETER: i32 = 2;

/// A position in a document: line and UTF-16 column.
#[derive(Clone, Copy, Debug, PartialEq, Eq, Structural, PartialOrd, Ord)]
pub struct Position {
    pub line: u32,
    pub character: u32,
}

#[derive(Debug, PartialEq, Eq)]
pub struct MarkupContent {
    pub kind: MarkupKind,
    pub value: String,
}

/// A tooltip of the protocol, for a hint or one of its label parts.
#[derive(Debug, PartialEq, Eq)]
pub enum LspTooltip {
    String(String),
    MarkupContent(MarkupContent),
}

/// A label part of the protocol; `L` is a location, `C` a command.
#[derive(Debug, PartialEq, Eq)]
pub struct LspInlayHintLabelPart<L, C> {
    pub value: String,
    pub tooltip: Option<LspTooltip>,
    pub location: Option<L>,
    pub command: Option<C>,
}

#[derive(Debug, PartialEq, Eq)]
pub enum LspInlayHintLabel<L, C> {
    String(String),
    LabelParts(Vec<LspInlayHintLabelPart<L, C>>),
}

/// An inlay hint of the protocol; `X` is the data a server attaches for resolving.
#[derive(Debug, PartialEq, Eq)]
pub struct LspInlayHint<L, C, X> {
    pub position: Position,
    pub label: LspInlayHintLabel<L, C>,
    pub kind: Option<i32>,
    pub tooltip: Option<LspTooltip>,
    pub padding_left: Option<bool>,
    pub padding_right: Option<bool>,
    pub data: Option<X>,
}

#[derive(Clone, Copy, Debug, PartialEq, Eq, Structural)]
pub enum InlayHintKind {
    Type,
    Parameter,
}

#[derive(Debug, PartialEq, Eq)]
pub enum HoverBlockKind {
    PlainText,
    Markdown,
    Code { language: String },
}

#[derive(Debug, PartialEq, Eq)]
pub struct ProjectMarkupContent {
    pub kind: HoverBlockKind,
    pub value: String,
}

/// A tooltip of the project, for a hint or one of its label parts.
#[derive(Debug, PartialEq, Eq)]
pub enum InlayHintTooltip {
    String(String),
    MarkupContent(ProjectMarkupContent),
}

#[derive(Debug, PartialEq, Eq)]
pub struct InlayHintLabelPart<L, C> {
    pub value: String,
    pub tooltip: Option<InlayHintTooltip>,
    pub location: Option<(LanguageServerId, L)>,
    pub command: Option<(LanguageServerId, C)>,
}

#[derive(Debug, PartialEq, Eq)]
pub enum InlayHintLabel<L, C> {
    String(String),
    LabelParts(Vec<InlayHintLabelPart<L, C>>),
}

/// Whether a hint still needs a resolve request.
#[derive(Debug, PartialEq, Eq)]
pub enum ResolveState<X> {
    Resolved,
    CanResolve(LanguageServerId, Option<X>),
    Resolving,
}

/// An inlay hint of the project; `P` is its anchored position.
#[derive(Debug, PartialEq, Eq)]
pub struct InlayHint<P, L, C, X> {
    pub position: P,
    pub padding_left: bool,
    pub padding_right: bool,
    pub label: InlayHintLabel<L, C>,
    pub kind: Option<InlayHintKind>,
    pub tooltip: Option<InlayHintTooltip>,
    pub resolve_state: ResolveState<X>,
}

/// The project kind of a protocol kind code: only the type and parameter codes have one.
pub open spec fn spec_hint_kind(kind: Option<i32>) -> Option<InlayHintKind> {
    match kind {
        Some(k) => if k == LSP_INLAY_HINT_KIND_TYPE {
            Some(InlayHintKind::Type)
        } else if k == LSP_INLAY_HINT_KIND_PARAMETER {
            Some(InlayHintKind::Parameter)
        } else {
            None
        },
        None => None,
    }
}

pub fn hint_kind(kind: Option<i32>) -> (r: Option<InlayHintKind>)
    ensures
        r == spec_hint_kind(kind),
{
    match kind {
        Some(k) => if k == LSP_INLAY_HINT_KIND_TYPE {
            Some(InlayHintKind::Type)
        } else if k == LSP_INLAY_HINT_KIND_PARAMETER {
            Some(InlayHintKind::Parameter)
        } else {
            None
        },
        None => None,
    }
}

/// Parameter hints stick to the text after them: their anchor is placed before the position;
/// other hints are anchored after it.
pub fn anchor_before_position(kind: Option<InlayHintKind>) -> (b: bool)
    ensures
        b == (kind == Some(InlayHintKind::Parameter)),
{
    match kind {
        Some(InlayHintKind::Parameter) => true,
        _ => false,
    }
}

/// The project tooltip of a protocol tooltip: markup keeps its kind and text.
pub open spec fn tooltip_to_project(t: LspTooltip) -> InlayHintTooltip {
    match t {
        LspTooltip::String(s) => InlayHintTooltip::String(s),
        LspTooltip::MarkupContent(m) => InlayHintTooltip::MarkupContent(ProjectMarkupContent {
            kind: match m.kind {
                MarkupKind::PlainText => HoverBlockKind::PlainText,
                MarkupKind::Markdown => HoverBlockKind::Markdown,
            },
            value: m.value,
        }),
    }
}

/// The protocol tooltip of a project tooltip; code blocks have none.
pub open spec fn tooltip_to_lsp(t: InlayHintTooltip) -> Option<LspTooltip> {
    match t {
        InlayHintTooltip::String(s) => Some(LspTooltip::String(s)),
        InlayHintTooltip::MarkupContent(m) => match m.kind {
            HoverBlockKind::PlainText => Some(LspTooltip::MarkupContent(MarkupContent { kind: MarkupKind::PlainText, value: m.value })),
            HoverBlockKind::Markdown => Some(LspTooltip::MarkupContent(MarkupContent { kind: MarkupKind::Markdown, value: m.value })),
            HoverBlockKind::Code { .. } => None,
        },
    }
}

pub open spec fn opt_tooltip_to_project(t: Option<LspTooltip>) -> Option<InlayHintTooltip> {
    match t {
        Some(t) => Some(tooltip_to_project(t)),
        None => None,
    }
}

pub open spec fn opt_tooltip_to_lsp(t: Option<InlayHintTooltip>) -> Option<LspTooltip> {
    match t {
        Some(t) => tooltip_to_lsp(t),
        None => None,
    }
}

fn convert_tooltip_to_project(t: Option<LspTooltip>) -> (r: Option<InlayHintTooltip>)
    ensures
        r == opt_tooltip_to_project(t),
{
    match t {
        Some(LspTooltip::String(s)) => Some(InlayHintTooltip::String(s)),
        Some(LspTooltip::MarkupContent(m)) => Some(InlayHintTooltip::MarkupContent(ProjectMarkupContent {
            kind: match m.kind {
                MarkupKind::PlainText => HoverBlockKind::PlainText,
                MarkupKind::Markdown => HoverBlockKind::Markdown,
            },
            value: m.value,
        })),
        None => None,
    }
}

fn convert_tooltip_to_lsp(t: Option<InlayHintTooltip>) -> (r: Option<LspTooltip>)
    ensures
        r == opt_tooltip_to_lsp(t),
{
    match t {
        Some(InlayHintTooltip::String(s)) => Some(LspTooltip::String(s)),
        Some(InlayHintTooltip::MarkupContent(m)) => match m.kind {
            HoverBlockKind::PlainText => Some(LspTooltip::MarkupContent(MarkupContent { kind: MarkupKind::PlainText, value: m.value })),
            HoverBlockKind::Markdown => Some(LspTooltip::MarkupContent(MarkupContent { kind: MarkupKind::Markdown, value: m.value })),
            HoverBlockKind::Code { .. } => None,
        },
        None => None,
    }
}

/// The project label part of a protocol label part: its location and command are
/// tagged with the server they came from.
pub open spec fn part_to_project<L, C>(p: LspInlayHintLabelPart<L, C>, server_id: LanguageServerId) -> InlayHintLabelPart<L, C> {
    InlayHintLabelPart {
        value: p.value,
        tooltip: opt_tooltip_to_project(p.tooltip),
        location: match p.location { Some(l) => Some((server_id, l)), None => None },
        command: match p.command { Some(c) => Some((server_id, c)), None => None },
    }
}

/// The protocol label part of a project label part: the server tags are dropped.
pub open spec fn part_to_lsp<L, C>(p: InlayHintLabelPart<L, C>) -> LspInlayHintLabelPart<L, C> {
    LspInlayHintLabelPart {
        value: p.value,
        tooltip: opt_tooltip_to_lsp(p.tooltip),
        location: match p.location { Some((_, l)) => Some(l), None => None },
        command: match p.command { Some((_, c)) => Some(c), None => None },
    }
}

/// `proj` is the project label of `lsp`.
pub open spec fn label_to_project<L, C>(lsp: LspInlayHintLabel<L, C>, proj: InlayHintLabel<L, C>, server_id: LanguageServerId) -> bool {
    match (lsp, proj) {
        (LspInlayHintLabel::String(a), InlayHintLabel::String(b)) => a == b,
        (LspInlayHintLabel::LabelParts(a), InlayHintLabel::LabelParts(b)) => b@ == a@.map_values(|p| part_to_project(p, server_id)),
        _ => false,
    }
}

/// `lsp` is the protocol label of `proj`.
pub open spec fn label_to_lsp<L, C>(proj: InlayHintLabel<L, C>, lsp: LspInlayHintLabel<L, C>) -> bool {
    match (proj, lsp) {
        (InlayHintLabel::String(a), LspInlayHintLabel::String(b)) => a == b,
        (InlayHintLabel::LabelParts(a), LspInlayHintLabel::LabelParts(b)) => b@ == a@.map_values(|p| part_to_lsp(p)),
        _ => false,
    }
}

fn convert_label_to_project<L, C>(label: LspInlayHintLabel<L, C>, server_id: LanguageServerId) -> (r: InlayHintLabel<L, C>)
    ensures
        label_to_project(label, r, server_id),
{
    match label {
        LspInlayHintLabel::String(s) => InlayHintLabel::String(s),
        LspInlayHintLabel::LabelParts(parts) => {
            let ghost p0 = parts@;
            let mut rest = reversed(parts);
            let mut out: Vec<InlayHintLabelPart<L, C>> = Vec::new();
            while rest.len() > 0
                invariant
                    rest@.len() <= p0.len(),
                    rest@ == p0.skip(p0.len() - rest@.len()).reverse(),
                    out@ == p0.take(p0.len() - rest@.len()).map_values(|p| part_to_project(p, server_id)),
                decreases rest@.len(),
            {
                let ghost k = p0.len() - rest@.len();
                let part = rest.pop().unwrap();
                proof {
                    assert(part == p0[k]);
                    assert(p0.skip(k + 1).reverse() =~= rest@);
                }
                let LspInlayHintLabelPart { value, tooltip, location, command } = part;
                out.push(InlayHintLabelPart {
                    value,
                    tooltip: convert_tooltip_to_project(tooltip),
                    location: match location { Some(l) => Some((server_id, l)), None => None },
                    command: match command { Some(c) => Some((server_id, c)), None => None },
                });
                proof {
                    assert(out@ =~= p0.take(k + 1).map_values(|p| part_to_project(p, server_id)));
                }
            }
            proof {
                assert(p0.take(p0.len() as int) =~= p0);
            }
            InlayHintLabel::LabelParts(out)
        },
    }
}

fn convert_label_to_lsp<L, C>(label: InlayHintLabel<L, C>) -> (r: LspInlayHintLabel<L, C>)
    ensures
        label_to_lsp(label, r),
{
    match label {
        InlayHintLabel::String(s) => LspInlayHintLabel::String(s),
        InlayHintLabel::LabelParts(parts) => {
            let ghost p0 = parts@;
            let mut rest = reversed(parts);
            let mut out: Vec<LspInlayHintLabelPart<L, C>> = Vec::new();
            while rest.len() > 0
                invariant
                    rest@.len() <= p0.len(),
                    rest@ == p0.skip(p0.len() - rest@.len()).reverse(),
                    out@ == p0.take(p0.len() - rest@.len()).map_values(|p| part_to_lsp(p)),
                decreases rest@.len(),
            {
                let ghost k = p0.len() - rest@.len();
                let part = rest.pop().unwrap();
                proof {
                    assert(part == p0[k]);
                    assert(p0.skip(k + 1).reverse() =~= rest@);
                }
                let InlayHintLabelPart { value, tooltip, location, command } = part;
                out.push(LspInlayHintLabelPart {
                    value,
                    tooltip: convert_tooltip_to_lsp(tooltip),
                    location: match location { Some((_, l)) => Some(l), None => None },
                    command: match command { Some((_, c)) => Some(c), None => None },
                });
                proof {
                    assert(out@ =~= p0.take(k + 1).map_values(|p| part_to_lsp(p)));
                }
            }
            proof {
                assert(p0.take(p0.len() as int) =~= p0);
            }
            LspInlayHintLabel::LabelParts(out)
        },
    }
}

/// `hint` is the project hint of `lsp`: kind from the known codes, left padding dropped
/// for type hints when `force_no_type_left_padding`, absent paddings off.
pub open spec fn hint_to_project<P, L, C, X>(
    lsp: LspInlayHint<L, C, X>,
    hint: InlayHint<P, L, C, X>,
    position: P,
    server_id: LanguageServerId,
    resolve_state: ResolveState<X>,
    force_no_type_left_padding: bool,
) -> bool {
    let kind = spec_hint_kind(lsp.kind);
    &&& hint.position == position
    &&& hint.kind == kind
    &&& hint.padding_left == if force_no_type_left_padding && kind == Some(InlayHintKind::Type) {
        false
    } else {
        lsp.padding_left == Some(true)
    }
    &&& hint.padding_right == (lsp.padding_right == Some(true))
    &&& label_to_project(lsp.label, hint.label, server_id)
    &&& hint.tooltip == opt_tooltip_to_project(lsp.tooltip)
    &&& hint.resolve_state == resolve_state
}



/// `lsp` is the protocol hint of `hint` at `position`: paddings always given, resolve
/// data kept only while the hint can still be resolved.
pub open spec fn hint_to_lsp<P, L, C, X>(hint: InlayHint<P, L, C, X>, lsp: LspInlayHint<L, C, X>, position: Position) -> bool {
    &&& lsp.position == position
    &&& lsp.kind == match hint.kind {
        Some(InlayHintKind::Type) => Some(LSP_INLAY_HINT_KIND_TYPE),
        Some(InlayHintKind::Parameter) => Some(LSP_INLAY_HINT_KIND_PARAMETER),
        None => None,
    }
    &&& lsp.tooltip == opt_tooltip_to_lsp(hint.tooltip)
    &&& label_to_lsp(hint.label, lsp.label)
    &&& lsp.padding_left == Some(hint.padding_left)
    &&& lsp.padding_right == Some(hint.padding_right)
    &&& lsp.data == match hint.resolve_state {
        ResolveState::CanResolve(_, data) => data,
        _ => None,
    }
}



/// The two protocol labels are the same text, or label parts with the same contents.
pub open spec fn same_lsp_label<L, C>(a: LspInlayHintLabel<L, C>, b: LspInlayHintLabel<L, C>) -> bool {
    match (a, b) {
        (LspInlayHintLabel::String(x), LspInlayHintLabel::String(y)) => x == y,
        (LspInlayHintLabel::LabelParts(x), LspInlayHintLabel::LabelParts(y)) => x@ == y@,
        _ => false,
    }
}

/// A protocol hint converted to a project hint and back is the hint it was, when its kind
/// is one the project knows, both paddings are given, type-hint padding is not forced
/// off, and the project hint is kept resolvable with the hint's data.
pub proof fn law_inlay_hint_round_trip<P, L, C, X>(
    lsp: LspInlayHint<L, C, X>,
    hint: InlayHint<P, L, C, X>,
    back: LspInlayHint<L, C, X>,
    position: P,
    server_id: LanguageServerId,
)
    requires
        lsp.kind is None || lsp.kind == Some(LSP_INLAY_HINT_KIND_TYPE) || lsp.kind == Some(LSP_INLAY_HINT_KIND_PARAMETER),
        lsp.padding_left is Some,
        lsp.padding_right is Some,
        hint_to_project(lsp, hint, position, server_id, ResolveState::CanResolve(server_id, lsp.data), false),
        hint_to_lsp(hint, back, lsp.position),
    ensures
        back.position == lsp.position,
        back.kind == lsp.kind,
        back.tooltip == lsp.tooltip,
        back.padding_left == lsp.padding_left,
        back.padding_right == lsp.padding_right,
        back.data == lsp.data,
        same_lsp_label(back.label, lsp.label),
{
    match lsp.label {
        LspInlayHintLabel::String(_) => {},
        LspInlayHintLabel::LabelParts(parts) => {
            match (hint.label, back.label) {
                (InlayHintLabel::LabelParts(mid), LspInlayHintLabel::LabelParts(out)) => {
                    assert forall|i: int| 0 <= i < parts@.len() implies #[trigger] out@[i] == parts@[i] by {
                        assert(mid@[i] == part_to_project(parts@[i], server_id));
                    }
                    assert(out@ =~= parts@);
                },
                _ => {},
            }
        },
    }
}


/// Converting a protocol tooltip keeps what it is: plain text stays the same text, and
/// markup keeps its text and its kind (markdown stays markdown, plain text stays plain
/// text).
pub open spec fn tooltip_kept_from_lsp(t: LspTooltip, p: InlayHintTooltip) -> bool {
    match t {
        LspTooltip::String(s) => p == InlayHintTooltip::String(s),
        LspTooltip::MarkupContent(m) => p matches InlayHintTooltip::MarkupContent(pm) && {
            &&& pm.value == m.value
            &&& (m.kind == MarkupKind::Markdown <==> pm.kind == HoverBlockKind::Markdown)
            &&& (m.kind == MarkupKind::PlainText <==> pm.kind == HoverBlockKind::PlainText)
        },
    }
}

/// A project hint converted from a protocol hint keeps the kind and text of its tooltip
/// and of each label part's tooltip.
pub proof fn law_hint_tooltips_keep_markup_kind_to_project<P, L, C, X>(
    lsp: LspInlayHint<L, C, X>,
    hint: InlayHint<P, L, C, X>,
    position: P,
    server_id: LanguageServerId,
    resolve_state: ResolveState<X>,
    force_no_type_left_padding: bool,
)
    requires
        hint_to_project(lsp, hint, position, server_id, resolve_state, force_no_type_left_padding),
    ensures
        lsp.tooltip is None <==> hint.tooltip is None,
        lsp.tooltip matches Some(t) ==> tooltip_kept_from_lsp(t, hint.tooltip.unwrap()),
        (lsp.label, hint.label) matches (LspInlayHintLabel::LabelParts(a), InlayHintLabel::LabelParts(b)) ==> {
            &&& a@.len() == b@.len()
            &&& forall|i: int| 0 <= i < a@.len() ==> {
                &&& ((#[trigger] a@[i]).tooltip is None <==> b@[i].tooltip is None)
                &&& (a@[i].tooltip matches Some(t) ==> tooltip_kept_from_lsp(t, b@[i].tooltip.unwrap()))
            }
        },
{
    match (lsp.label, hint.label) {
        (LspInlayHintLabel::LabelParts(a), InlayHintLabel::LabelParts(b)) => {
            assert forall|i: int| 0 <= i < a@.len() implies {
                &&& ((#[trigger] a@[i]).tooltip is None <==> b@[i].tooltip is None)
                &&& (a@[i].tooltip matches Some(t) ==> tooltip_kept_from_lsp(t, b@[i].tooltip.unwrap()))
            } by {
                assert(b@[i] == part_to_project(a@[i], server_id));
            }
        },
        _ => {},
    }
}

/// Converting a project tooltip to the protocol keeps what it is: plain text stays the
/// same text, markdown and plain-text markup keep their text and kind, and a code block
/// has no protocol form.
pub open spec fn tooltip_kept_to_lsp(p: InlayHintTooltip, t: Option<LspTooltip>) -> bool {
    match p {
        InlayHintTooltip::String(s) => t == Some(LspTooltip::String(s)),
        InlayHintTooltip::MarkupContent(pm) => match pm.kind {
            HoverBlockKind::Code { .. } => t is None,
            _ => t matches Some(LspTooltip::MarkupContent(m)) && {
                &&& m.value == pm.value
                &&& (m.kind == MarkupKind::Markdown <==> pm.kind == HoverBlockKind::Markdown)
                &&& (m.kind == MarkupKind::PlainText <==> pm.kind == HoverBlockKind::PlainText)
            },
        },
    }
}

/// A protocol hint converted from a project hint keeps the kind and text of its tooltip
/// and of each label part's tooltip.
pub proof fn law_hint_tooltips_keep_markup_kind_to_lsp<P, L, C, X>(
    hint: InlayHint<P, L, C, X>,
    lsp: LspInlayHint<L, C, X>,
    position: Position,
)
    requires
        hint_to_lsp(hint, lsp, position),
    ensures
        hint.tooltip is None ==> lsp.tooltip is None,
        hint.tooltip matches Some(p) ==> tooltip_kept_to_lsp(p, lsp.tooltip),
        (hint.label, lsp.label) matches (InlayHintLabel::LabelParts(b), LspInlayHintLabel::LabelParts(a)) ==> {
            &&& a@.len() == b@.len()
            &&& forall|i: int| 0 <= i < b@.len() ==> {
                &&& ((#[trigger] b@[i]).tooltip is None ==> a@[i].tooltip is None)
                &&& (b@[i].tooltip matches Some(p) ==> tooltip_kept_to_lsp(p, a@[i].tooltip))
            }
        },
{
    match (hint.label, lsp.label) {
        (InlayHintLabel::LabelParts(b), LspInlayHintLabel::LabelParts(a)) => {
            assert forall|i: int| 0 <= i < b@.len() implies {
                &&& ((#[trigger] b@[i]).tooltip is None ==> a@[i].tooltip is None)
                &&& (b@[i].tooltip matches Some(p) ==> tooltip_kept_to_lsp(p, a@[i].tooltip))
            } by {
                assert(a@[i] == part_to_lsp(b@[i]));
            }
        },
        _ => {},
    }
}

/// The language server whose type hints come with a left padding of their own, which
/// the editor drops.
pub const TYPESCRIPT_LANGUAGE_SERVER: &'static str = "typescript-language-server";

/// The resolve state of a hint from a server that can (or cannot) resolve hints: with
/// a clone of the hint's data when it can.
pub open spec fn resolve_state_for<X: Clone>(
    can_resolve: bool,
    server_id: LanguageServerId,
    data: Option<X>,
    r: ResolveState<X>,
) -> bool {
    if can_resolve {
        r matches ResolveState::CanResolve(id, d) && id == server_id && match data {
            Some(x) => d matches Some(y) && cloned(x, y),
            None => d is None,
        }
    } else {
        r == ResolveState::<X>::Resolved
    }
}

/// `a` is where the hint `lsp` goes in a buffer with text `lines`: at its position clipped
/// leftwards, anchored before it for parameter hints and after it otherwise.
pub open spec fn hint_anchor<L, C, X>(lines: Seq<Vec<char>>, lsp: LspInlayHint<L, C, X>, a: Anchor) -> bool {
    &&& clipped(lines, lsp.position, Bias::Left, a.point)
    &&& a.bias == if spec_hint_kind(lsp.kind) == Some(InlayHintKind::Parameter) { Bias::Left } else { Bias::Right }
}

/// `hint` is the project hint of `lsp` in a buffer with text `lines`, with the resolve
/// state of a server that can (or cannot) resolve hints.
pub open spec fn hint_in_buffer<L, C, X: Clone>(
    lines: Seq<Vec<char>>,
    lsp: LspInlayHint<L, C, X>,
    hint: InlayHint<Anchor, L, C, X>,
    server_id: LanguageServerId,
    can_resolve: bool,
    force_no_type_left_padding: bool,
) -> bool {
    &&& hint_anchor(lines, lsp, hint.position)
    &&& resolve_state_for(can_resolve, server_id, lsp.data, hint.resolve_state)
    &&& hint_to_project(lsp, hint, hint.position, server_id, hint.resolve_state, force_no_type_left_padding)
}

/// The tooltip has a protocol form: it is no code block.
pub open spec fn tooltip_has_lsp_form(t: Option<InlayHintTooltip>) -> bool {
    match t {
        Some(InlayHintTooltip::MarkupContent(m)) => !(m.kind is Code),
        _ => true,
    }
}

/// The label part's tooltip has a protocol form, and its location and command, where it
/// has them, came from the server `server_id`.
pub open spec fn part_from_server<L, C>(p: InlayHintLabelPart<L, C>, server_id: LanguageServerId) -> bool {
    &&& tooltip_has_lsp_form(p.tooltip)
    &&& (p.location matches Some((id, _)) ==> id == server_id)
    &&& (p.command matches Some((id, _)) ==> id == server_id)
}

/// The label's parts, where it has them, all satisfy `part_from_server`.
pub open spec fn label_from_server<L, C>(label: InlayHintLabel<L, C>, server_id: LanguageServerId) -> bool {
    match label {
        InlayHintLabel::String(_) => true,
        InlayHintLabel::LabelParts(parts) => forall|i: int| 0 <= i < parts@.len() ==> #[trigger] part_from_server(parts@[i], server_id),
    }
}

/// The two project labels are the same text, or label parts with the same contents.
pub open spec fn same_label<L, C>(a: InlayHintLabel<L, C>, b: InlayHintLabel<L, C>) -> bool {
    match (a, b) {
        (InlayHintLabel::String(x), InlayHintLabel::String(y)) => x == y,
        (InlayHintLabel::LabelParts(x), InlayHintLabel::LabelParts(y)) => x@ == y@,
        _ => false,
    }
}

/// Clipping leaves a point of the text where it is: leftwards, the only result is the point.
proof fn lemma_clip_left_of_valid_point(lines: Seq<Vec<char>>, p: Position, r: Position)
    requires
        valid_point(lines, p),
        clipped(lines, p, Bias::Left, r),
    ensures
        r == p,
{
    let s = lines[p.line as int]@;
    let k = choose|k: int| 0 <= k <= s.len() && #[trigger] utf16_size(s.take(k)) == p.character;
    assert(is_boundary(s, p.character as nat));
}

/// A project hint of a buffer, converted to the protocol's hint at its point and back,
/// keeps its point, label, kind, tooltip and paddings, and is anchored as its kind says,
/// when its point lies in the text, no tooltip of it is a code block, the locations and
/// commands of its label parts came from the server it is converted back for, and
/// type-hint padding is not forced off.
pub proof fn law_project_hint_round_trip<L, C, X>(
    lines: Seq<Vec<char>>,
    hint: InlayHint<Anchor, L, C, X>,
    lsp: LspInlayHint<L, C, X>,
    back: InlayHint<Anchor, L, C, X>,
    server_id: LanguageServerId,
    resolve_state: ResolveState<X>,
)
    requires
        valid_point(lines, hint.position.point),
        tooltip_has_lsp_form(hint.tooltip),
        label_from_server(hint.label, server_id),
        hint_to_lsp(hint, lsp, hint.position.point),
        hint_anchor(lines, lsp, back.position),
        hint_to_project(lsp, back, back.position, server_id, resolve_state, false),
    ensures
        back.position.point == hint.position.point,
        back.position.bias == if hint.kind == Some(InlayHintKind::Parameter) { Bias::Left } else { Bias::Right },
        same_label(back.label, hint.label),
        back.kind == hint.kind,
        back.tooltip == hint.tooltip,
        back.padding_left == hint.padding_left,
        back.padding_right == hint.padding_right,
        back.resolve_state == resolve_state,
{
    lemma_clip_left_of_valid_point(lines, hint.position.point, back.position.point);
    match hint.label {
        InlayHintLabel::String(_) => {},
        InlayHintLabel::LabelParts(parts) => {
            match (lsp.label, back.label) {
                (LspInlayHintLabel::LabelParts(mid), InlayHintLabel::LabelParts(out)) => {
                    assert forall|i: int| 0 <= i < parts@.len() implies #[trigger] out@[i] == parts@[i] by {
                        assert(mid@[i] == part_to_lsp(parts@[i]));
                        assert(part_from_server(parts@[i], server_id));
                    }
                    assert(out@ =~= parts@);
                },
                _ => {},
            }
        },
    }
}

/// A request for the inlay hints of a range of a buffer.
#[derive(Debug, Clone, Copy)]
pub struct InlayHints {
    pub range: AnchorRange,
}

impl InlayHints {
    /// The project hint for a protocol hint in a buffer with text `lines`: at the hint's
    /// position clipped leftwards, anchored before it for parameter hints and after it
    /// otherwise.
    pub fn lsp_to_project_hint<L, C, X>(
        lsp_hint: LspInlayHint<L, C, X>,
        lines: &Vec<Vec<char>>,
        server_id: LanguageServerId,
        resolve_state: ResolveState<X>,
        force_no_type_left_padding: bool,
    ) -> (hint: InlayHint<Anchor, L, C, X>)
        requires
            lines_fit(lines@),
        ensures
            hint_anchor(lines@, lsp_hint, hint.position),
            hint_to_project(lsp_hint, hint, hint.position, server_id, resolve_state, force_no_type_left_padding),
    {
        let LspInlayHint { position, label, kind, tooltip, padding_left, padding_right, data: _ } = lsp_hint;
        let kind = hint_kind(kind);
        let point = clip_point(lines, position, Bias::Left);
        let bias = match kind {
            Some(InlayHintKind::Parameter) => Bias::Left,
            _ => Bias::Right,
        };
        let is_type = match kind {
            Some(InlayHintKind::Type) => true,
            _ => false,
        };
        let padding_left = if force_no_type_left_padding && is_type {
            false
        } else {
            match padding_left {
                Some(p) => p,
                None => false,
            }
        };
        let padding_right = match padding_right {
            Some(p) => p,
            None => false,
        };
        InlayHint {
            position: Anchor { point, bias },
            padding_left,
            padding_right,
            label: convert_label_to_project(label, server_id),
            kind,
            tooltip: convert_tooltip_to_project(tooltip),
            resolve_state,
        }
    }

    /// The protocol hint for a project hint, at the point its anchor resolves to.
    pub fn project_to_lsp_hint<L, C, X>(hint: InlayHint<Anchor, L, C, X>) -> (lsp: LspInlayHint<L, C, X>)
        ensures
            lsp.position == hint.position.point,
            hint_to_lsp(hint, lsp, hint.position.point),
    {
        let position = hint.position.point;
        let InlayHint { position: _, padding_left, padding_right, label, kind, tooltip, resolve_state } = hint;
        LspInlayHint {
            position,
            kind: match kind {
                Some(InlayHintKind::Type) => Some(LSP_INLAY_HINT_KIND_TYPE),
                Some(InlayHintKind::Parameter) => Some(LSP_INLAY_HINT_KIND_PARAMETER),
                None => None,
            },
            tooltip: convert_tooltip_to_lsp(tooltip),
            label: convert_label_to_lsp(label),
            padding_left: Some(padding_left),
            padding_right: Some(padding_right),
            data: match resolve_state {
                ResolveState::CanResolve(_, data) => data,
                _ => None,
            },
        }
    }

    /// The project hints of a reply, in order, for a server with the given adapter name
    /// that can (or cannot) resolve hints; none without a reply. Type hints from the
    /// TypeScript server lose their left padding.
    pub fn response_from_lsp<L, C, X: Clone>(
        &self,
        message: Option<Vec<LspInlayHint<L, C, X>>>,
        lines: &Vec<Vec<char>>,
        server_id: LanguageServerId,
        adapter_name: &str,
        can_resolve: bool,
    ) -> (r: Vec<InlayHint<Anchor, L, C, X>>)
        requires
            lines_fit(lines@),
        ensures
            r@.len() == (match message { Some(v) => v@, None => Seq::empty() }).len(),
            forall|i: int| 0 <= i < r@.len() ==> hint_in_buffer(
                lines@,
                (match message { Some(v) => v@, None => Seq::empty() })[i],
                #[trigger] r@[i],
                server_id,
                can_resolve,
                adapter_name@ == TYPESCRIPT_LANGUAGE_SERVER@,
            ),
    {
        let force = is_typescript_server(adapter_name);
        let hints = match message {
            Some(v) => v,
            None => Vec::new(),
        };
        let ghost s0 = hints@;
        let mut rest = reversed(hints);
        let mut out: Vec<InlayHint<Anchor, L, C, X>> = Vec::new();
        while rest.len() > 0
            invariant
                lines_fit(lines@),
                force == (adapter_name@ == TYPESCRIPT_LANGUAGE_SERVER@),
                rest@.len() <= s0.len(),
                out@.len() == s0.len() - rest@.len(),
                rest@ == s0.skip(out@.len() as int).reverse(),
                forall|i: int| 0 <= i < out@.len() ==>
                    hint_in_buffer(lines@, s0[i], #[trigger] out@[i], server_id, can_resolve, force),
            decreases rest@.len(),
        {
            let ghost k = out@.len() as int;
            let lsp_hint = rest.pop().unwrap();
            proof {
                assert(lsp_hint == s0[k]);
                assert(s0.skip(k + 1).reverse() =~= rest@);
            }
            let resolve_state = if can_resolve {
                ResolveState::CanResolve(server_id, lsp_hint.data.clone())
            } else {
                ResolveState::Resolved
            };
            let hint = InlayHints::lsp_to_project_hint(lsp_hint, lines, server_id, resolve_state, force);
            out.push(hint);
        }
        out
    }
}

fn is_typescript_server(name: &str) -> (b: bool)
    ensures
        b == (name@ == TYPESCRIPT_LANGUAGE_SERVER@),
{
    let a = chars_of(name);
    let b = chars_of(TYPESCRIPT_LANGUAGE_SERVER);
    if a.len() != b.len() {
        return false;
    }
    let mut i: usize = 0;
    while i < a.len()
        invariant
            a@ == name@,
            b@ == TYPESCRIPT_LANGUAGE_SERVER@,
            a@.len() == b@.len(),
            i <= a@.len(),
            forall|j: int| 0 <= j < i ==> a@[j] == b@[j],
        decreases a@.len() - i,
    {
        if a[i] != b[i] {
            proof {
                assert(a@[i as int] != b@[i as int]);
            }
            return false;
        }
        i = i + 1;
    }
    proof {
        assert(a@ =~= b@);
    }
    true
}

} // verus!
