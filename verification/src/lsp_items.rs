//! Replies that list items of a document: symbols, links, code lenses, and the range a
//! rename would change.

use vstd::prelude::*;
use crate::buffer::{Anchor, AnchorRange, Bias, clip_point, clipped, lines_fit, valid_point, is_valid_point};
use crate::code_actions::ActionCommand;
use crate::inlay_hints::Position;
use crate::lsp_responses::LspRange;
use crate::server::LanguageServerId;
use crate::vec_util::reversed;

verus! {

/// A symbol of a flat symbol reply; `K` is the symbol's kind.
#[derive(Debug, PartialEq, Eq)]
pub struct SymbolInformation<K> {
    pub name: String,
    pub kind: K,
    pub uri: String,
    pub range: LspRange,
}

/// A symbol of a nested symbol reply, with the symbols inside it.
#[derive(Debug, PartialEq, Eq)]
pub struct LspDocumentSymbol<K> {
    pub name: String,
    pub kind: K,
    pub range: LspRange,
    pub selection_range: LspRange,
    pub children: Option<Vec<LspDocumentSymbol<K>>>,
}

#[derive(Debug, PartialEq, Eq)]
pub enum DocumentSymbolResponse<K> {
    Flat(Vec<SymbolInformation<K>>),
    Nested(Vec<LspDocumentSymbol<K>>),
}

/// A symbol of the outline of a document.
#[derive(Debug, PartialEq, Eq)]
pub struct DocumentSymbol<K> {
    pub name: String,
    pub kind: K,
    pub range: LspRange,
    pub selection_range: LspRange,
    pub children: Vec<DocumentSymbol<K>>,
}

/// `d` is the outline symbol of `s`: the same name, kind and ranges, and the outline
/// symbols of its children in order (none when it has none).
pub open spec fn symbol_converted<K>(s: LspDocumentSymbol<K>, d: DocumentSymbol<K>) -> bool
    decreases s,
{
    &&& d.name@ == s.name@
    &&& d.kind == s.kind
    &&& d.range == s.range
    &&& d.selection_range == s.selection_range
    &&& match s.children {
        Some(children) => {
            &&& d.children@.len() == children@.len()
            &&& forall|i: int| 0 <= i < children@.len() ==>
                    symbol_converted(#[trigger] children@[i], d.children@[i])
        },
        None => d.children@.len() == 0,
    }
}

/// The outline symbol of a nested symbol.
pub fn convert_symbol<K>(s: LspDocumentSymbol<K>) -> (d: DocumentSymbol<K>)
    ensures
        symbol_converted(s, d),
    decreases s,
{
    let ghost s0 = s;
    let LspDocumentSymbol { name, kind, range, selection_range, children } = s;
    let children = match children {
        Some(cs) => {
            let ghost c0 = cs@;
            let mut rest = reversed(cs);
            let mut out: Vec<DocumentSymbol<K>> = Vec::new();
            while rest.len() > 0
                invariant
                    rest@.len() <= c0.len(),
                    out@.len() == c0.len() - rest@.len(),
                    rest@ == c0.skip(out@.len() as int).reverse(),
                    forall|i: int| 0 <= i < out@.len() ==> symbol_converted(c0[i], #[trigger] out@[i]),
                    forall|i: int| 0 <= i < c0.len() ==> #[trigger] c0[i] == s0.children.unwrap()@[i],
                    s0 == s,
                    s0.children is Some,
                    s0.children.unwrap()@.len() == c0.len(),
                decreases rest@.len(),
            {
                let ghost k = out@.len() as int;
                let c = rest.pop().unwrap();
                proof {
                    assert(c == c0[k]);
                    assert(c0.skip(k + 1).reverse() =~= rest@);
                    assert(c == s0.children.unwrap()@[k]);
                    let ch = s0.children.unwrap();
                    assert(decreases_to!(s0 => s0.children));
                    assert(decreases_to!(s0.children => ch));
                    assert(decreases_to!(ch => ch@));
                    assert(decreases_to!(ch@ => ch@[k]));
                    assert(decreases_to!(s0 => c));
                }
                let d = convert_symbol(c);
                out.push(d);
            }
            out
        },
        None => Vec::new(),
    };
    DocumentSymbol { name, kind, range, selection_range, children }
}

/// The outline of a symbol reply: a flat reply's symbols with their location range as
/// both ranges and no children; a nested reply's symbols converted as trees; none
/// without a reply.
pub fn document_symbols_from_lsp<K>(lsp_symbols: Option<DocumentSymbolResponse<K>>) -> (r: Vec<DocumentSymbol<K>>)
    ensures
        match lsp_symbols {
            None => r@.len() == 0,
            Some(DocumentSymbolResponse::Flat(symbols)) => {
                &&& r@.len() == symbols@.len()
                &&& forall|i: int| 0 <= i < r@.len() ==> {
                    let d = #[trigger] r@[i];
                    &&& d.name@ == symbols@[i].name@
                    &&& d.kind == symbols@[i].kind
                    &&& d.range == symbols@[i].range
                    &&& d.selection_range == symbols@[i].range
                    &&& d.children@.len() == 0
                }
            },
            Some(DocumentSymbolResponse::Nested(symbols)) => {
                &&& r@.len() == symbols@.len()
                &&& forall|i: int| 0 <= i < r@.len() ==> symbol_converted(symbols@[i], #[trigger] r@[i])
            },
        },
{
    match lsp_symbols {
        None => Vec::new(),
        Some(DocumentSymbolResponse::Flat(symbols)) => {
            let ghost s0 = symbols@;
            let mut rest = reversed(symbols);
            let mut out: Vec<DocumentSymbol<K>> = Vec::new();
            while rest.len() > 0
                invariant
                    rest@.len() <= s0.len(),
                    out@.len() == s0.len() - rest@.len(),
                    rest@ == s0.skip(out@.len() as int).reverse(),
                    forall|i: int| 0 <= i < out@.len() ==> {
                        let d = #[trigger] out@[i];
                        &&& d.name@ == s0[i].name@
                        &&& d.kind == s0[i].kind
                        &&& d.range == s0[i].range
                        &&& d.selection_range == s0[i].range
                        &&& d.children@.len() == 0
                    },
                decreases rest@.len(),
            {
                let ghost k = out@.len() as int;
                let s = rest.pop().unwrap();
                proof {
                    assert(s == s0[k]);
                    assert(s0.skip(k + 1).reverse() =~= rest@);
                }
                out.push(DocumentSymbol { name: s.name, kind: s.kind, range: s.range, selection_range: s.range, children: Vec::new() });
            }
            out
        },
        Some(DocumentSymbolResponse::Nested(symbols)) => {
            let ghost s0 = symbols@;
            let mut rest = reversed(symbols);
            let mut out: Vec<DocumentSymbol<K>> = Vec::new();
            while rest.len() > 0
                invariant
                    rest@.len() <= s0.len(),
                    out@.len() == s0.len() - rest@.len(),
                    rest@ == s0.skip(out@.len() as int).reverse(),
                    forall|i: int| 0 <= i < out@.len() ==> symbol_converted(s0[i], #[trigger] out@[i]),
                decreases rest@.len(),
            {
                let ghost k = out@.len() as int;
                let s = rest.pop().unwrap();
                proof {
                    assert(s == s0[k]);
                    assert(s0.skip(k + 1).reverse() =~= rest@);
                }
                out.push(convert_symbol(s));
            }
            out
        },
    }
}

/// A link of a document reply; `D` is the server's own data.
#[derive(Debug, PartialEq, Eq)]
pub struct DocumentLink<D> {
    pub range: LspRange,
    pub target: Option<String>,
    pub tooltip: Option<String>,
    pub data: Option<D>,
}

/// A link of a document in buffer coordinates, to be resolved later.
#[derive(Debug, PartialEq, Eq)]
pub struct LspDocumentLink<D> {
    pub range: AnchorRange,
    pub target: Option<String>,
    pub tooltip: Option<String>,
    pub data: Option<D>,
    pub resolved: bool,
}

/// `r` is the link `l` in buffer coordinates: its start clipped leftwards and anchored
/// after, its end clipped rightwards and anchored before, not resolved yet.
pub open spec fn link_in_buffer<D>(lines: Seq<Vec<char>>, l: DocumentLink<D>, r: LspDocumentLink<D>) -> bool {
    &&& clipped(lines, l.range.start, Bias::Left, r.range.start.point)
    &&& clipped(lines, l.range.end, Bias::Right, r.range.end.point)
    &&& r.range.start.bias == Bias::Right
    &&& r.range.end.bias == Bias::Left
    &&& r.target == l.target
    &&& r.tooltip == l.tooltip
    &&& r.data == l.data
    &&& !r.resolved
}

/// The links of a reply in buffer coordinates, in order; none without a reply.
pub fn document_links_from_lsp<D>(message: Option<Vec<DocumentLink<D>>>, lines: &Vec<Vec<char>>) -> (r: Vec<LspDocumentLink<D>>)
    requires
        lines_fit(lines@),
    ensures
        r@.len() == (match message { Some(v) => v@, None => Seq::empty() }).len(),
        forall|i: int| 0 <= i < r@.len() ==>
            link_in_buffer(lines@, (match message { Some(v) => v@, None => Seq::empty() })[i], #[trigger] r@[i]),
{
    let links = match message {
        Some(v) => v,
        None => Vec::new(),
    };
    let ghost s0 = links@;
    let mut rest = reversed(links);
    let mut out: Vec<LspDocumentLink<D>> = Vec::new();
    while rest.len() > 0
        invariant
            lines_fit(lines@),
            rest@.len() <= s0.len(),
            out@.len() == s0.len() - rest@.len(),
            rest@ == s0.skip(out@.len() as int).reverse(),
            forall|i: int| 0 <= i < out@.len() ==> link_in_buffer(lines@, s0[i], #[trigger] out@[i]),
        decreases rest@.len(),
    {
        let ghost k = out@.len() as int;
        let link = rest.pop().unwrap();
        proof {
            assert(link == s0[k]);
            assert(s0.skip(k + 1).reverse() =~= rest@);
        }
        let start = clip_point(lines, link.range.start, Bias::Left);
        let end = clip_point(lines, link.range.end, Bias::Right);
        out.push(LspDocumentLink {
            range: AnchorRange {
                start: Anchor { point: start, bias: Bias::Right },
                end: Anchor { point: end, bias: Bias::Left },
            },
            target: link.target,
            tooltip: link.tooltip,
            data: link.data,
            resolved: false,
        });
    }
    out
}

/// A request for the code lenses of a document.
#[derive(Debug, Clone, Copy)]
pub struct GetCodeLens;

/// A code lens of a reply; `L` holds its data.
#[derive(Debug)]
pub struct LspCodeLens<L, C> {
    pub range: LspRange,
    pub command: Option<ActionCommand<C>>,
    pub data: L,
}

/// A code lens offered as an action: resolved when it already has its command.
#[derive(Debug)]
pub struct CodeLensAction<L, C> {
    pub server_id: LanguageServerId,
    pub range: AnchorRange,
    pub lens: LspCodeLens<L, C>,
    pub resolved: bool,
}

/// `r` is the lens `l` offered as an action: its start clipped leftwards and anchored
/// before, its end clipped rightwards and anchored after.
pub open spec fn lens_action<L, C>(lines: Seq<Vec<char>>, server_id: LanguageServerId, l: LspCodeLens<L, C>, r: CodeLensAction<L, C>) -> bool {
    &&& clipped(lines, l.range.start, Bias::Left, r.range.start.point)
    &&& clipped(lines, l.range.end, Bias::Right, r.range.end.point)
    &&& r.range.start.bias == Bias::Left
    &&& r.range.end.bias == Bias::Right
    &&& r.server_id == server_id
    &&& r.lens == l
    &&& r.resolved == l.command is Some
}

/// The code lenses of a reply as actions, in order; none without a reply.
pub fn code_lens_from_lsp<L, C>(
    message: Option<Vec<LspCodeLens<L, C>>>,
    lines: &Vec<Vec<char>>,
    server_id: LanguageServerId,
) -> (r: Vec<CodeLensAction<L, C>>)
    requires
        lines_fit(lines@),
    ensures
        r@.len() == (match message { Some(v) => v@, None => Seq::empty() }).len(),
        forall|i: int| 0 <= i < r@.len() ==>
            lens_action(lines@, server_id, (match message { Some(v) => v@, None => Seq::empty() })[i], #[trigger] r@[i]),
{
    let lenses = match message {
        Some(v) => v,
        None => Vec::new(),
    };
    let ghost s0 = lenses@;
    let mut rest = reversed(lenses);
    let mut out: Vec<CodeLensAction<L, C>> = Vec::new();
    while rest.len() > 0
        invariant
            lines_fit(lines@),
            rest@.len() <= s0.len(),
            out@.len() == s0.len() - rest@.len(),
            rest@ == s0.skip(out@.len() as int).reverse(),
            forall|i: int| 0 <= i < out@.len() ==> lens_action(lines@, server_id, s0[i], #[trigger] out@[i]),
        decreases rest@.len(),
    {
        let ghost k = out@.len() as int;
        let lens = rest.pop().unwrap();
        proof {
            assert(lens == s0[k]);
            assert(s0.skip(k + 1).reverse() =~= rest@);
        }
        let start = clip_point(lines, lens.range.start, Bias::Left);
        let end = clip_point(lines, lens.range.end, Bias::Right);
        let resolved = lens.command.is_some();
        out.push(CodeLensAction {
            server_id,
            range: AnchorRange {
                start: Anchor { point: start, bias: Bias::Left },
                end: Anchor { point: end, bias: Bias::Right },
            },
            lens,
            resolved,
        });
    }
    out
}

/// A reply to a prepare-rename request.
#[derive(Debug, PartialEq, Eq)]
pub enum LspPrepareRenameResponse {
    Range(LspRange),
    RangeWithPlaceholder { range: LspRange, placeholder: String },
    DefaultBehavior { default_behavior: bool },
}

/// Whether and where a rename can happen.
#[derive(Debug, PartialEq, Eq, Clone, Copy, Structural)]
pub enum PrepareRenameResponse {
    Success { range: AnchorRange, language_server_id: Option<LanguageServerId> },
    OnlyUnpreparedRenameSupported,
    InvalidPosition,
}

/// The rename range of a prepare-rename reply: a range from the server when both its
/// ends lie in the text (else an invalid position); the word at the position when the
/// server defers to the editor; an invalid position without a reply. A range starts
/// anchored after and ends anchored before.
pub open spec fn prepared_rename(
    lines: Seq<Vec<char>>,
    message: Option<LspPrepareRenameResponse>,
    word: LspRange,
    server_id: LanguageServerId,
) -> PrepareRenameResponse {
    let success = |r: LspRange| PrepareRenameResponse::Success {
        range: AnchorRange {
            start: Anchor { point: r.start, bias: Bias::Right },
            end: Anchor { point: r.end, bias: Bias::Left },
        },
        language_server_id: Some(server_id),
    };
    match message {
        Some(LspPrepareRenameResponse::Range(range)) =>
            if valid_point(lines, range.start) && valid_point(lines, range.end) { success(range) } else { PrepareRenameResponse::InvalidPosition },
        Some(LspPrepareRenameResponse::RangeWithPlaceholder { range, .. }) =>
            if valid_point(lines, range.start) && valid_point(lines, range.end) { success(range) } else { PrepareRenameResponse::InvalidPosition },
        Some(LspPrepareRenameResponse::DefaultBehavior { .. }) => success(word),
        None => PrepareRenameResponse::InvalidPosition,
    }
}

/// A request for the range a rename at the position would change.
#[derive(Debug, Clone, Copy)]
pub struct PrepareRename {
    pub position: Position,
}

impl PrepareRename {
    /// The rename range of a reply; `word` is the word around the position.
    pub fn response_from_lsp(
        &self,
        message: Option<LspPrepareRenameResponse>,
        lines: &Vec<Vec<char>>,
        word: LspRange,
        server_id: LanguageServerId,
    ) -> (r: PrepareRenameResponse)
        ensures
            r == prepared_rename(lines@, message, word, server_id),
    {
        let range = match message {
            Some(LspPrepareRenameResponse::Range(range)) => range,
            Some(LspPrepareRenameResponse::RangeWithPlaceholder { range, .. }) => range,
            Some(LspPrepareRenameResponse::DefaultBehavior { .. }) => {
                return PrepareRenameResponse::Success {
                    range: AnchorRange {
                        start: Anchor { point: word.start, bias: Bias::Right },
                        end: Anchor { point: word.end, bias: Bias::Left },
                    },
                    language_server_id: Some(server_id),
                };
            },
            None => return PrepareRenameResponse::InvalidPosition,
        };
        if is_valid_point(lines, range.start) && is_valid_point(lines, range.end) {
            PrepareRenameResponse::Success {
                range: AnchorRange {
                    start: Anchor { point: range.start, bias: Bias::Right },
                    end: Anchor { point: range.end, bias: Bias::Left },
                },
                language_server_id: Some(server_id),
            }
        } else {
            PrepareRenameResponse::InvalidPosition
        }
    }
}

} // verus!
