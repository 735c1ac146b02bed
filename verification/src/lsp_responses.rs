//! Conversions of language-server responses that need no buffer: hover contents and
//! definition targets.

use vstd::prelude::*;
use crate::inlay_hints::{HoverBlockKind, MarkupContent, Position};
use crate::signature_help::MarkupKind;
use crate::vec_util::reversed;
use crate::buffer::{AnchorRange, lines_fit};
use crate::locations::{anchor_range_from_lsp, anchor_range_of};

verus! {

/// A range in a document, in protocol coordinates.
#[derive(Clone, Copy, Debug, PartialEq, Eq, Structural)]
pub struct LspRange {
    pub start: Position,
    pub end: Position,
}

/// A piece of hover text: markdown, or code in a language.
#[derive(Debug, PartialEq, Eq)]
pub enum MarkedString {
    String(String),
    LanguageString { language: String, value: String },
}

#[derive(Debug, PartialEq, Eq)]
pub enum HoverContents {
    Scalar(MarkedString),
    Array(Vec<MarkedString>),
    Markup(MarkupContent),
}

#[derive(Debug, PartialEq, Eq)]
pub struct HoverBlock {
    pub text: String,
    pub kind: HoverBlockKind,
}

/// What a hover shows; `R` is the anchored range of the hovered token, `G` the buffer's language.
#[derive(Debug)]
pub struct Hover<R, G> {
    pub contents: Vec<HoverBlock>,
    pub range: Option<R>,
    pub language: Option<G>,
}

/// The block of a marked string: markdown for plain strings, code for language strings;
/// none when its text is empty.
pub open spec fn marked_block(m: MarkedString) -> Option<HoverBlock> {
    let block = match m {
        MarkedString::String(content) => HoverBlock { text: content, kind: HoverBlockKind::Markdown },
        MarkedString::LanguageString { language, value } => HoverBlock { text: value, kind: HoverBlockKind::Code { language } },
    };
    if block.text@.len() == 0 { None } else { Some(block) }
}

/// The blocks of the marked strings, in order, without empty ones.
pub open spec fn marked_blocks(ms: Seq<MarkedString>) -> Seq<HoverBlock>
    decreases ms.len(),
{
    if ms.len() == 0 {
        Seq::empty()
    } else {
        let prev = marked_blocks(ms.drop_last());
        match marked_block(ms.last()) {
            Some(b) => prev.push(b),
            None => prev,
        }
    }
}

/// The blocks a hover shows for its contents; markup is one block, even when empty.
pub open spec fn hover_blocks(contents: HoverContents) -> Seq<HoverBlock> {
    match contents {
        HoverContents::Scalar(m) => match marked_block(m) {
            Some(b) => seq![b],
            None => Seq::empty(),
        },
        HoverContents::Array(ms) => marked_blocks(ms@),
        HoverContents::Markup(markup) => seq![HoverBlock {
            text: markup.value,
            kind: if markup.kind == MarkupKind::Markdown { HoverBlockKind::Markdown } else { HoverBlockKind::PlainText },
        }],
    }
}

/// Markup is shown as one block with the markup's text, markdown as markdown and plain
/// text as plain text.
pub proof fn law_markup_hover_keeps_its_kind(markup: MarkupContent)
    ensures
        hover_blocks(HoverContents::Markup(markup)).len() == 1,
        hover_blocks(HoverContents::Markup(markup))[0].text == markup.value,
        markup.kind == MarkupKind::Markdown ==> hover_blocks(HoverContents::Markup(markup))[0].kind == HoverBlockKind::Markdown,
        markup.kind == MarkupKind::PlainText ==> hover_blocks(HoverContents::Markup(markup))[0].kind == HoverBlockKind::PlainText,
{
}

/// A marked string with text is shown as one block with its text: a plain string as
/// markdown, a language string as code in its language; one without text is not shown.
pub proof fn law_marked_string_hover(m: MarkedString)
    ensures
        match m {
            MarkedString::String(s) => hover_blocks(HoverContents::Scalar(m)) == if s@.len() == 0 {
                Seq::<HoverBlock>::empty()
            } else {
                seq![HoverBlock { text: s, kind: HoverBlockKind::Markdown }]
            },
            MarkedString::LanguageString { language, value } => hover_blocks(HoverContents::Scalar(m)) == if value@.len() == 0 {
                Seq::<HoverBlock>::empty()
            } else {
                seq![HoverBlock { text: value, kind: HoverBlockKind::Code { language } }]
            },
        },
{
}

/// An array of marked strings is shown as the blocks of those with text, in order.
pub proof fn law_marked_strings_hover_in_order(ms: Seq<MarkedString>)
    ensures
        marked_blocks(ms).len() <= ms.len(),
        forall|i: int| 0 <= i < ms.len() ==> (#[trigger] marked_block(ms[i]) matches Some(b) ==> marked_blocks(ms).contains(b)),
    decreases ms.len(),
{
    if ms.len() > 0 {
        law_marked_strings_hover_in_order(ms.drop_last());
        let prev = marked_blocks(ms.drop_last());
        assert forall|i: int| 0 <= i < ms.len() implies (#[trigger] marked_block(ms[i]) matches Some(b) ==> marked_blocks(ms).contains(b)) by {
            if i < ms.len() - 1 {
                assert(ms[i] == ms.drop_last()[i]);
                if marked_block(ms[i]) is Some {
                    let b = marked_block(ms[i]).unwrap();
                    let j = choose|j: int| 0 <= j < prev.len() && prev[j] == b;
                    assert(marked_blocks(ms)[j] == b);
                }
            } else {
                if marked_block(ms[i]) is Some {
                    assert(marked_blocks(ms)[prev.len() as int] == marked_block(ms[i]).unwrap());
                }
            }
        }
    }
}

fn hover_block_from_marked_string(m: MarkedString) -> (r: Option<HoverBlock>)
    ensures
        r == marked_block(m),
{
    let block = match m {
        MarkedString::String(content) => HoverBlock { text: content, kind: HoverBlockKind::Markdown },
        MarkedString::LanguageString { language, value } => HoverBlock { text: value, kind: HoverBlockKind::Code { language } },
    };
    if block.text.as_str().is_empty() { None } else { Some(block) }
}

/// The hover blocks for the response's contents.
pub fn hover_blocks_from_lsp(contents: HoverContents) -> (r: Vec<HoverBlock>)
    ensures
        r@ == hover_blocks(contents),
{
    match contents {
        HoverContents::Scalar(m) => {
            let mut v = Vec::new();
            match hover_block_from_marked_string(m) {
                Some(b) => v.push(b),
                None => {},
            }
            proof {
                assert(v@ =~= hover_blocks(contents));
            }
            v
        },
        HoverContents::Array(ms) => {
            let ghost m0 = ms@;
            let mut rest = reversed(ms);
            let mut out: Vec<HoverBlock> = Vec::new();
            while rest.len() > 0
                invariant
                    rest@.len() <= m0.len(),
                    rest@ == m0.skip(m0.len() - rest@.len()).reverse(),
                    out@ == marked_blocks(m0.take(m0.len() - rest@.len())),
                decreases rest@.len(),
            {
                let ghost k = m0.len() - rest@.len();
                let m = rest.pop().unwrap();
                proof {
                    assert(m == m0[k]);
                    assert(m0.take(k + 1).drop_last() =~= m0.take(k));
                    assert(m0.skip(k + 1).reverse() =~= rest@);
                }
                match hover_block_from_marked_string(m) {
                    Some(b) => out.push(b),
                    None => {},
                }
            }
            proof {
                assert(m0.take(m0.len() as int) =~= m0);
            }
            out
        },
        HoverContents::Markup(markup) => {
            let kind = match markup.kind {
                MarkupKind::Markdown => HoverBlockKind::Markdown,
                MarkupKind::PlainText => HoverBlockKind::PlainText,
            };
            let mut v = Vec::new();
            v.push(HoverBlock { text: markup.value, kind });
            proof {
                assert(v@ =~= hover_blocks(contents));
            }
            v
        },
    }
}

/// The hover for a response (`None` when there was none), with the hovered token's
/// range and the buffer's language.
pub fn hover_from_lsp<R, G>(contents: Option<HoverContents>, range: Option<R>, language: Option<G>) -> (r: Option<Hover<R, G>>)
    ensures
        match contents {
            None => r is None,
            Some(c) => r matches Some(h) && h.contents@ == hover_blocks(c) && h.range == range && h.language == language,
        },
{
    match contents {
        None => None,
        Some(c) => Some(Hover { contents: hover_blocks_from_lsp(c), range, language }),
    }
}

#[derive(Debug, PartialEq, Eq)]
pub struct Location {
    pub uri: String,
    pub range: LspRange,
}

#[derive(Debug, PartialEq, Eq)]
pub struct LocationLink {
    pub origin_selection_range: Option<LspRange>,
    pub target_uri: String,
    pub target_range: LspRange,
    pub target_selection_range: LspRange,
}

#[derive(Debug, PartialEq, Eq)]
pub enum GotoDefinitionResponse {
    Scalar(Location),
    Array(Vec<Location>),
    Link(Vec<LocationLink>),
}

/// A definition target still to be opened: the origin range (links only), the target's
/// URI, and the target range (for links, the selection range).
pub open spec fn location_target(l: Location) -> (Option<LspRange>, String, LspRange) {
    (None, l.uri, l.range)
}

pub open spec fn link_target(l: LocationLink) -> (Option<LspRange>, String, LspRange) {
    (l.origin_selection_range, l.target_uri, l.target_selection_range)
}

pub open spec fn definition_targets(message: Option<GotoDefinitionResponse>) -> Seq<(Option<LspRange>, String, LspRange)> {
    match message {
        None => Seq::empty(),
        Some(GotoDefinitionResponse::Scalar(l)) => seq![location_target(l)],
        Some(GotoDefinitionResponse::Array(ls)) => ls@.map_values(|l| location_target(l)),
        Some(GotoDefinitionResponse::Link(ls)) => ls@.map_values(|l| link_target(l)),
    }
}

/// The targets of a definition response, in order.
pub fn definition_locations_from_lsp(message: Option<GotoDefinitionResponse>) -> (r: Vec<(Option<LspRange>, String, LspRange)>)
    ensures
        r@ == definition_targets(message),
{
    let mut out: Vec<(Option<LspRange>, String, LspRange)> = Vec::new();
    match message {
        None => {},
        Some(GotoDefinitionResponse::Scalar(l)) => {
            out.push((None, l.uri, l.range));
            proof {
                assert(out@ =~= definition_targets(message));
            }
        },
        Some(GotoDefinitionResponse::Array(ls)) => {
            let ghost l0 = ls@;
            let mut rest = reversed(ls);
            while rest.len() > 0
                invariant
                    rest@.len() <= l0.len(),
                    rest@ == l0.skip(l0.len() - rest@.len()).reverse(),
                    out@ == l0.take(l0.len() - rest@.len()).map_values(|l| location_target(l)),
                decreases rest@.len(),
            {
                let ghost k = l0.len() - rest@.len();
                let l = rest.pop().unwrap();
                proof {
                    assert(l == l0[k]);
                    assert(l0.skip(k + 1).reverse() =~= rest@);
                }
                out.push((None, l.uri, l.range));
                proof {
                    assert(out@ =~= l0.take(k + 1).map_values(|l| location_target(l)));
                }
            }
            proof {
                assert(l0.take(l0.len() as int) =~= l0);
            }
        },
        Some(GotoDefinitionResponse::Link(ls)) => {
            let ghost l0 = ls@;
            let mut rest = reversed(ls);
            while rest.len() > 0
                invariant
                    rest@.len() <= l0.len(),
                    rest@ == l0.skip(l0.len() - rest@.len()).reverse(),
                    out@ == l0.take(l0.len() - rest@.len()).map_values(|l| link_target(l)),
                decreases rest@.len(),
            {
                let ghost k = l0.len() - rest@.len();
                let l = rest.pop().unwrap();
                proof {
                    assert(l == l0[k]);
                    assert(l0.skip(k + 1).reverse() =~= rest@);
                }
                out.push((l.origin_selection_range, l.target_uri, l.target_selection_range));
                proof {
                    assert(out@ =~= l0.take(k + 1).map_values(|l| link_target(l)));
                }
            }
            proof {
                assert(l0.take(l0.len() as int) =~= l0);
            }
        },
    }
    out
}


/// A hover reply: what to show, and the range of the hovered token if the server gave one.
#[derive(Debug, PartialEq, Eq)]
pub struct LspHover {
    pub contents: HoverContents,
    pub range: Option<LspRange>,
}

/// A request for the hover at a position.
#[derive(Debug, Clone, Copy)]
pub struct GetHover {
    pub position: Position,
}

impl GetHover {
    /// The hover of a reply in a buffer with text `lines` and language `language`: its
    /// blocks, and its token range in buffer coordinates; none without a reply.
    pub fn response_from_lsp<G>(
        &self,
        message: Option<LspHover>,
        lines: &Vec<Vec<char>>,
        language: Option<G>,
    ) -> (r: Option<Hover<AnchorRange, G>>)
        requires
            lines_fit(lines@),
        ensures
            match message {
                None => r is None,
                Some(hover) => r matches Some(h) && {
                    &&& h.contents@ == hover_blocks(hover.contents)
                    &&& h.language == language
                    &&& match hover.range {
                        Some(range) => h.range matches Some(ar) && anchor_range_of(lines@, range, ar),
                        None => h.range is None,
                    }
                },
            },
    {
        match message {
            None => None,
            Some(hover) => {
                let range = match hover.range {
                    Some(range) => Some(anchor_range_from_lsp(range, lines)),
                    None => None,
                };
                hover_from_lsp(Some(hover.contents), range, language)
            },
        }
    }
}

} // verus!
