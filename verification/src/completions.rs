//! Completion replies: which items of a language server's reply are kept, the edit each
//! kept item makes in the buffer, and whether the list has to be asked for again.

use vstd::prelude::*;
use crate::buffer::{valid_point, is_valid_point};
use crate::inlay_hints::Position;
use crate::lsp_responses::LspRange;
use crate::server::{LanguageServerId, clone_opt_string};
use crate::text::{normalized_line_endings, normalize_line_endings};
use crate::vec_util::reversed;

verus! {

#[derive(Debug, PartialEq, Eq)]
pub struct TextEdit {
    pub range: LspRange,
    pub new_text: String,
}

#[derive(Debug, PartialEq, Eq)]
pub struct InsertReplaceEdit {
    pub new_text: String,
    pub insert: LspRange,
    pub replace: LspRange,
}

/// The edit a completion item asks for: one range, or a range to insert into and a
/// range to replace.
#[derive(Debug, PartialEq, Eq)]
pub enum CompletionTextEdit {
    Edit(TextEdit),
    InsertAndReplace(InsertReplaceEdit),
}

/// The edit range a completion list gives its items that have no edit of their own.
#[derive(Clone, Copy, Debug, PartialEq, Eq, Structural)]
pub enum CompletionListItemDefaultsEditRange {
    Range(LspRange),
    InsertAndReplace { insert: LspRange, replace: LspRange },
}

/// What a completion list gives the items that lack it; `D` is the server's own data.
#[derive(Debug)]
pub struct CompletionItemDefaults<D> {
    pub edit_range: Option<CompletionListItemDefaultsEditRange>,
    pub data: Option<D>,
}

/// A completion item of the protocol, as far as the reply's handling reads it; `D` is
/// the server's own data and `X` the item's other fields, carried unchanged.
#[derive(Debug)]
pub struct LspCompletionItem<D, X> {
    pub label: String,
    pub text_edit: Option<CompletionTextEdit>,
    pub text_edit_text: Option<String>,
    pub insert_text: Option<String>,
    pub data: Option<D>,
    pub rest: X,
}

#[derive(Debug)]
pub struct CompletionList<D, X> {
    pub is_incomplete: bool,
    pub item_defaults: Option<CompletionItemDefaults<D>>,
    pub items: Vec<LspCompletionItem<D, X>>,
}

/// A completion reply: a bare array of items, or a list.
#[derive(Debug)]
pub enum CompletionResponse<D, X> {
    Array(Vec<LspCompletionItem<D, X>>),
    List(CompletionList<D, X>),
}

/// How a completion was triggered.
#[derive(Clone, Copy, Debug, PartialEq, Eq, Structural)]
pub enum CompletionTriggerKind {
    Invoked,
    TriggerCharacter,
    TriggerForIncompleteCompletions,
}

#[derive(Debug, PartialEq, Eq)]
pub struct CompletionContext {
    pub trigger_kind: CompletionTriggerKind,
    pub trigger_character: Option<String>,
}

/// Completions at a position of a buffer.
#[derive(Debug)]
pub struct GetCompletions {
    pub position: Position,
    pub context: CompletionContext,
    pub server_id: Option<LanguageServerId>,
}

/// The arguments of a completion request.
#[derive(Debug, PartialEq, Eq)]
pub struct CompletionParams {
    pub uri: String,
    pub position: Position,
    pub context: Option<CompletionContext>,
}

/// A buffer range from a point (anchored before it) to a point (anchored after it).
#[derive(Clone, Copy, Debug, PartialEq, Eq, Structural)]
pub struct EditRange {
    pub start: Position,
    pub end: Position,
}

/// A completion's edit in buffer coordinates.
#[derive(Debug)]
pub struct ParsedCompletionEdit {
    pub replace_range: EditRange,
    pub insert_range: Option<EditRange>,
    pub new_text: String,
}

impl View for ParsedCompletionEdit {
    type V = (EditRange, Option<EditRange>, Seq<char>);

    open spec fn view(&self) -> (EditRange, Option<EditRange>, Seq<char>) {
        (self.replace_range, self.insert_range, self.new_text@)
    }
}

/// Kept completions waiting for the language server's adapter to adjust them; each
/// item goes with the edit at the same index.
#[derive(Debug)]
pub struct PendingCompletions<D, X> {
    pub completions: Vec<LspCompletionItem<D, X>>,
    pub edits: Vec<ParsedCompletionEdit>,
    pub is_incomplete: bool,
    pub lsp_defaults: Option<CompletionItemDefaults<D>>,
}

/// A completion offered to the user.
#[derive(Debug)]
pub struct CoreCompletion<D, X> {
    pub replace_range: EditRange,
    pub new_text: String,
    pub insert_range: Option<EditRange>,
    pub server_id: LanguageServerId,
    pub lsp_completion: LspCompletionItem<D, X>,
    pub resolved: bool,
}

/// The completions of a reply; the list's defaults are shared by all of them.
#[derive(Debug)]
pub struct CoreCompletionResponse<D, X> {
    pub completions: Vec<CoreCompletion<D, X>>,
    pub is_incomplete: bool,
    pub lsp_defaults: Option<CompletionItemDefaults<D>>,
}

/// The items of a reply; none without a reply.
pub open spec fn response_items<D, X>(r: Option<CompletionResponse<D, X>>) -> Seq<LspCompletionItem<D, X>> {
    match r {
        Some(CompletionResponse::Array(items)) => items@,
        Some(CompletionResponse::List(list)) => list.items@,
        None => Seq::empty(),
    }
}

/// Whether the reply says that its list is incomplete.
pub open spec fn response_incomplete<D, X>(r: Option<CompletionResponse<D, X>>) -> bool {
    match r {
        Some(CompletionResponse::List(list)) => list.is_incomplete,
        _ => false,
    }
}

/// The item defaults of the reply, if it is a list that has them.
pub open spec fn response_defaults<D, X>(r: Option<CompletionResponse<D, X>>) -> Option<CompletionItemDefaults<D>> {
    match r {
        Some(CompletionResponse::List(list)) => list.item_defaults,
        _ => None,
    }
}

pub open spec fn edit_range_of(r: LspRange) -> EditRange {
    EditRange { start: r.start, end: r.end }
}

/// Both ends of the range lie in the text.
pub open spec fn range_in_text(lines: Seq<Vec<char>>, r: LspRange) -> bool {
    valid_point(lines, r.start) && valid_point(lines, r.end)
}

/// The replace range, insert range and text of an item's edit.
pub open spec fn text_edit_parts(e: CompletionTextEdit) -> (LspRange, Option<LspRange>, Seq<char>) {
    match e {
        CompletionTextEdit::Edit(edit) => (edit.range, None, edit.new_text@),
        CompletionTextEdit::InsertAndReplace(edit) => (edit.replace, Some(edit.insert), edit.new_text@),
    }
}

/// An edit in buffer coordinates, when its ranges lie in the text.
pub open spec fn parsed_edit(
    lines: Seq<Vec<char>>,
    parts: (LspRange, Option<LspRange>, Seq<char>),
) -> Option<(EditRange, Option<EditRange>, Seq<char>)> {
    let (replace, insert, text) = parts;
    if !range_in_text(lines, replace) {
        None
    } else {
        match insert {
            None => Some((edit_range_of(replace), None, text)),
            Some(ins) => if range_in_text(lines, ins) {
                Some((edit_range_of(replace), Some(edit_range_of(ins)), text))
            } else {
                None
            },
        }
    }
}

/// The text an edit built from the list's default range inserts: the item's edit text,
/// else its label.
pub open spec fn default_edit_text<D, X>(item: LspCompletionItem<D, X>) -> Seq<char> {
    match item.text_edit_text {
        Some(t) => t@,
        None => item.label@,
    }
}

/// The text inserted when neither the item nor the list gives a range: the item's
/// insert text, else its label.
pub open spec fn plain_insert_text<D, X>(item: LspCompletionItem<D, X>) -> Seq<char> {
    match item.insert_text {
        Some(t) => t@,
        None => item.label@,
    }
}

/// The edit the server asks for: the item's own, else one over the list's default range.
pub open spec fn requested_edit<D, X>(
    item: LspCompletionItem<D, X>,
    defaults: Option<CompletionItemDefaults<D>>,
) -> Option<(LspRange, Option<LspRange>, Seq<char>)> {
    match item.text_edit {
        Some(e) => Some(text_edit_parts(e)),
        None => match defaults {
            Some(d) => match d.edit_range {
                Some(CompletionListItemDefaultsEditRange::Range(r)) => Some((r, None, default_edit_text(item))),
                Some(CompletionListItemDefaultsEditRange::InsertAndReplace { insert, replace }) =>
                    Some((replace, Some(insert), default_edit_text(item))),
                None => None,
            },
            None => None,
        },
    }
}

/// The edit of an item: the requested one when its ranges lie in the text (else the item
/// is dropped); without a requested edit, the word range at the position, when the
/// position lies in the text (else the item is dropped).
pub open spec fn completion_edit<D, X>(
    item: LspCompletionItem<D, X>,
    defaults: Option<CompletionItemDefaults<D>>,
    lines: Seq<Vec<char>>,
    position: Position,
    word_range: EditRange,
) -> Option<(EditRange, Option<EditRange>, Seq<char>)> {
    match requested_edit(item, defaults) {
        Some(parts) => parsed_edit(lines, parts),
        None => if valid_point(lines, position) {
            Some((word_range, None, plain_insert_text(item)))
        } else {
            None
        },
    }
}

/// The items that have an edit, in order.
pub open spec fn kept_items<D, X>(
    items: Seq<LspCompletionItem<D, X>>,
    defaults: Option<CompletionItemDefaults<D>>,
    lines: Seq<Vec<char>>,
    position: Position,
    word_range: EditRange,
) -> Seq<LspCompletionItem<D, X>>
    decreases items.len(),
{
    if items.len() == 0 {
        Seq::empty()
    } else {
        let prev = kept_items(items.drop_last(), defaults, lines, position, word_range);
        if completion_edit(items.last(), defaults, lines, position, word_range) is Some {
            prev.push(items.last())
        } else {
            prev
        }
    }
}

/// The edits of the kept items, in order.
pub open spec fn kept_edits<D, X>(
    items: Seq<LspCompletionItem<D, X>>,
    defaults: Option<CompletionItemDefaults<D>>,
    lines: Seq<Vec<char>>,
    position: Position,
    word_range: EditRange,
) -> Seq<(EditRange, Option<EditRange>, Seq<char>)>
    decreases items.len(),
{
    if items.len() == 0 {
        Seq::empty()
    } else {
        let prev = kept_edits(items.drop_last(), defaults, lines, position, word_range);
        match completion_edit(items.last(), defaults, lines, position, word_range) {
            Some(e) => prev.push(e),
            None => prev,
        }
    }
}

/// `after` is `before` with its data filled from the defaults: the item's own data is
/// kept; an item without data gets a clone of the default data, if there is one.
pub open spec fn data_filled<D: Clone, X>(
    before: LspCompletionItem<D, X>,
    defaults: Option<CompletionItemDefaults<D>>,
    after: LspCompletionItem<D, X>,
) -> bool {
    &&& after.label == before.label
    &&& after.text_edit == before.text_edit
    &&& after.text_edit_text == before.text_edit_text
    &&& after.insert_text == before.insert_text
    &&& after.rest == before.rest
    &&& match before.data {
        Some(_) => after.data == before.data,
        None => match defaults {
            Some(d) => match d.data {
                Some(dd) => match after.data {
                    Some(x) => cloned(dd, x),
                    None => false,
                },
                None => after.data is None,
            },
            None => after.data is None,
        },
    }
}

fn clone_range_text_edit(r: LspRange, text: &String) -> (e: CompletionTextEdit)
    ensures
        text_edit_parts(e) == (r, Option::<LspRange>::None, text@),
{
    CompletionTextEdit::Edit(TextEdit { range: r, new_text: text.clone() })
}

/// The edit of an item in buffer coordinates; `None` when a range does not lie in the text.
pub fn parse_completion_text_edit(edit: &CompletionTextEdit, lines: &Vec<Vec<char>>) -> (r: Option<ParsedCompletionEdit>)
    ensures
        match r {
            Some(e) => parsed_edit(lines@, text_edit_parts(*edit)) == Some(e@),
            None => parsed_edit(lines@, text_edit_parts(*edit)) is None,
        },
{
    let (replace, insert, new_text) = match edit {
        CompletionTextEdit::Edit(e) => (e.range, None, &e.new_text),
        CompletionTextEdit::InsertAndReplace(e) => (e.replace, Some(e.insert), &e.new_text),
    };
    if !(is_valid_point(lines, replace.start) && is_valid_point(lines, replace.end)) {
        return None;
    }
    let replace_range = EditRange { start: replace.start, end: replace.end };
    let insert_range = match insert {
        None => None,
        Some(ins) => {
            if !(is_valid_point(lines, ins.start) && is_valid_point(lines, ins.end)) {
                return None;
            }
            Some(EditRange { start: ins.start, end: ins.end })
        },
    };
    Some(ParsedCompletionEdit { replace_range, insert_range, new_text: new_text.clone() })
}

/// The edit of one item, or `None` when the item is dropped.
fn completion_edit_of<D, X>(
    item: &LspCompletionItem<D, X>,
    defaults: &Option<CompletionItemDefaults<D>>,
    lines: &Vec<Vec<char>>,
    position: Position,
    word_range: EditRange,
) -> (r: Option<ParsedCompletionEdit>)
    ensures
        match r {
            Some(e) => completion_edit(*item, *defaults, lines@, position, word_range) == Some(e@),
            None => completion_edit(*item, *defaults, lines@, position, word_range) is None,
        },
{
    match &item.text_edit {
        Some(e) => return parse_completion_text_edit(e, lines),
        None => {},
    }
    let default_range = match defaults {
        Some(d) => d.edit_range,
        None => None,
    };
    match default_range {
        Some(range) => {
            let new_text = match &item.text_edit_text {
                Some(t) => t,
                None => &item.label,
            };
            let edit = match range {
                CompletionListItemDefaultsEditRange::Range(r) => clone_range_text_edit(r, new_text),
                CompletionListItemDefaultsEditRange::InsertAndReplace { insert, replace } =>
                    CompletionTextEdit::InsertAndReplace(InsertReplaceEdit { new_text: new_text.clone(), insert, replace }),
            };
            parse_completion_text_edit(&edit, lines)
        },
        None => {
            if !is_valid_point(lines, position) {
                return None;
            }
            let text = match &item.insert_text {
                Some(t) => t.clone(),
                None => item.label.clone(),
            };
            Some(ParsedCompletionEdit { replace_range: word_range, insert_range: None, new_text: text })
        },
    }
}

impl GetCompletions {
    /// The request arguments for the document with the given URI.
    pub fn to_lsp(&self, uri: String) -> (params: CompletionParams)
        ensures
            params.uri == uri,
            params.position == self.position,
            params.context == Some(self.context),
    {
        CompletionParams {
            uri,
            position: self.position,
            context: Some(CompletionContext {
                trigger_kind: self.context.trigger_kind,
                trigger_character: clone_opt_string(&self.context.trigger_character),
            }),
        }
    }

    /// Keeps the items of a reply that have an edit in the buffer whose text is `lines`,
    /// with their edits; `word_range` is the word around the requested position. The
    /// result is incomplete when the reply says so or when an item was dropped.
    pub fn response_from_lsp<D, X>(
        &self,
        completions: Option<CompletionResponse<D, X>>,
        lines: &Vec<Vec<char>>,
        word_range: EditRange,
    ) -> (p: PendingCompletions<D, X>)
        ensures
            p.completions@ == kept_items(response_items(completions), response_defaults(completions), lines@, self.position, word_range),
            p.edits@.len() == p.completions@.len(),
            forall|i: int| 0 <= i < p.edits@.len() ==>
                #[trigger] p.edits@[i]@ == kept_edits(response_items(completions), response_defaults(completions), lines@, self.position, word_range)[i],
            kept_edits(response_items(completions), response_defaults(completions), lines@, self.position, word_range).len() == p.edits@.len(),
            p.is_incomplete == (response_incomplete(completions)
                || p.completions@.len() != response_items(completions).len()),
            p.lsp_defaults == response_defaults(completions),
    {
        let ghost all = response_items(completions);
        let ghost defaults0 = response_defaults(completions);
        let (items, listed_incomplete, defaults) = match completions {
            Some(CompletionResponse::Array(items)) => (items, false, None),
            Some(CompletionResponse::List(list)) => (list.items, list.is_incomplete, list.item_defaults),
            None => (Vec::new(), false, None),
        };
        let total = items.len();
        let position = self.position;
        let mut rest = reversed(items);
        let mut kept: Vec<LspCompletionItem<D, X>> = Vec::new();
        let mut edits: Vec<ParsedCompletionEdit> = Vec::new();
        while rest.len() > 0
            invariant
                all.len() == total,
                defaults == defaults0,
                rest@.len() <= all.len(),
                rest@ == all.skip(all.len() - rest@.len()).reverse(),
                kept@ == kept_items(all.take(all.len() - rest@.len()), defaults0, lines@, position, word_range),
                edits@.len() == kept@.len(),
                kept_edits(all.take(all.len() - rest@.len()), defaults0, lines@, position, word_range).len() == edits@.len(),
                forall|i: int| 0 <= i < edits@.len() ==>
                    #[trigger] edits@[i]@ == kept_edits(all.take(all.len() - rest@.len()), defaults0, lines@, position, word_range)[i],
            decreases rest@.len(),
        {
            let ghost k = all.len() - rest@.len();
            let ghost old_edits = edits@;
            let item = rest.pop().unwrap();
            proof {
                assert(item == all[k]);
                assert(all.take(k + 1).drop_last() =~= all.take(k));
                assert(all.take(k + 1).last() == all[k]);
                assert(all.skip(k + 1).reverse() =~= rest@);
            }
            match completion_edit_of(&item, &defaults, lines, position, word_range) {
                Some(edit) => {
                    kept.push(item);
                    edits.push(edit);
                },
                None => {},
            }
            proof {
                assert forall|i: int| 0 <= i < edits@.len() implies
                    #[trigger] edits@[i]@ == kept_edits(all.take(k + 1), defaults0, lines@, position, word_range)[i] by {
                    if i < old_edits.len() {
                        assert(edits@[i] == old_edits[i]);
                    }
                }
            }
        }
        proof {
            assert(all.take(all.len() as int) =~= all);
        }
        let is_incomplete = listed_incomplete || kept.len() != total;
        PendingCompletions { completions: kept, edits, is_incomplete, lsp_defaults: defaults }
    }
}

/// Fills an item's missing data from the list's default data.
fn fill_data<D: Clone, X>(item: LspCompletionItem<D, X>, defaults: &Option<CompletionItemDefaults<D>>) -> (r: LspCompletionItem<D, X>)
    ensures
        data_filled(item, *defaults, r),
{
    let mut item = item;
    if item.data.is_none() {
        match defaults {
            Some(d) => match &d.data {
                Some(dd) => {
                    item.data = Some(dd.clone());
                },
                None => {},
            },
            None => {},
        }
    }
    item
}

impl<D: Clone, X> PendingCompletions<D, X> {
    /// The completions offered: each item with the edit at its index (as many as both
    /// lists have), its edit text with normalized line endings and its data filled from
    /// the list's default data.
    pub fn finish(self, server_id: LanguageServerId) -> (r: CoreCompletionResponse<D, X>)
        ensures
            r.is_incomplete == self.is_incomplete,
            r.lsp_defaults == self.lsp_defaults,
            r.completions@.len() == if self.completions@.len() <= self.edits@.len() {
                self.completions@.len()
            } else {
                self.edits@.len()
            },
            forall|i: int| 0 <= i < r.completions@.len() ==> {
                let c = #[trigger] r.completions@[i];
                &&& c.replace_range == self.edits@[i].replace_range
                &&& c.insert_range == self.edits@[i].insert_range
                &&& c.new_text@ == normalized_line_endings(self.edits@[i].new_text@)
                &&& c.server_id == server_id
                &&& !c.resolved
                &&& data_filled(self.completions@[i], self.lsp_defaults, c.lsp_completion)
            },
    {
        let ghost items0 = self.completions@;
        let ghost edits0 = self.edits@;
        let defaults = self.lsp_defaults;
        let mut items = reversed(self.completions);
        let mut edits = reversed(self.edits);
        let mut out: Vec<CoreCompletion<D, X>> = Vec::new();
        while items.len() > 0 && edits.len() > 0
            invariant
                out@.len() <= items0.len(),
                out@.len() <= edits0.len(),
                items@ == items0.skip(out@.len() as int).reverse(),
                edits@ == edits0.skip(out@.len() as int).reverse(),
                defaults == self.lsp_defaults,
                forall|i: int| 0 <= i < out@.len() ==> {
                    let c = #[trigger] out@[i];
                    &&& c.replace_range == edits0[i].replace_range
                    &&& c.insert_range == edits0[i].insert_range
                    &&& c.new_text@ == normalized_line_endings(edits0[i].new_text@)
                    &&& c.server_id == server_id
                    &&& !c.resolved
                    &&& data_filled(items0[i], self.lsp_defaults, c.lsp_completion)
                },
            decreases items@.len(),
        {
            let ghost k = out@.len() as int;
            let item = items.pop().unwrap();
            let edit = edits.pop().unwrap();
            proof {
                assert(item == items0[k]);
                assert(edit == edits0[k]);
                assert(items0.skip(k + 1).reverse() =~= items@);
                assert(edits0.skip(k + 1).reverse() =~= edits@);
            }
            let ParsedCompletionEdit { replace_range, insert_range, new_text } = edit;
            let mut new_text = new_text;
            normalize_line_endings(&mut new_text);
            let lsp_completion = fill_data(item, &defaults);
            out.push(CoreCompletion { replace_range, new_text, insert_range, server_id, lsp_completion, resolved: false });
        }
        CoreCompletionResponse { completions: out, is_incomplete: self.is_incomplete, lsp_defaults: defaults }
    }
}


/// Every kept completion edits the text where it lies: its replace range (and its insert
/// range, if any) has both ends in the text, unless it is the word range at the requested
/// position, which is used only when that position lies in the text.
pub proof fn law_kept_edits_lie_in_text<D, X>(
    items: Seq<LspCompletionItem<D, X>>,
    defaults: Option<CompletionItemDefaults<D>>,
    lines: Seq<Vec<char>>,
    position: Position,
    word_range: EditRange,
)
    ensures
        forall|i: int| 0 <= i < kept_edits(items, defaults, lines, position, word_range).len() ==> {
            let e = #[trigger] kept_edits(items, defaults, lines, position, word_range)[i];
            &&& (e.0 == word_range && e.1 is None && valid_point(lines, position))
                || (valid_point(lines, e.0.start) && valid_point(lines, e.0.end))
            &&& e.1 matches Some(ins) ==> valid_point(lines, ins.start) && valid_point(lines, ins.end)
        },
    decreases items.len(),
{
    if items.len() > 0 {
        law_kept_edits_lie_in_text(items.drop_last(), defaults, lines, position, word_range);
    }
}

/// An item that carries its own edit gets exactly that edit, whatever range the list
/// gives by default: its range (and insert range) as they are, and its text; the item is
/// dropped when a range of its edit does not lie in the text.
pub proof fn law_item_edit_wins_over_list_default<D, X>(
    item: LspCompletionItem<D, X>,
    defaults: Option<CompletionItemDefaults<D>>,
    lines: Seq<Vec<char>>,
    position: Position,
    word_range: EditRange,
)
    requires
        item.text_edit is Some,
    ensures
        match item.text_edit.unwrap() {
            CompletionTextEdit::Edit(e) => completion_edit(item, defaults, lines, position, word_range) == if valid_point(lines, e.range.start) && valid_point(lines, e.range.end) {
                Some((EditRange { start: e.range.start, end: e.range.end }, None::<EditRange>, e.new_text@))
            } else {
                None
            },
            CompletionTextEdit::InsertAndReplace(e) => completion_edit(item, defaults, lines, position, word_range) == if valid_point(lines, e.replace.start) && valid_point(lines, e.replace.end)
                && valid_point(lines, e.insert.start) && valid_point(lines, e.insert.end) {
                Some((EditRange { start: e.replace.start, end: e.replace.end }, Some(EditRange { start: e.insert.start, end: e.insert.end }), e.new_text@))
            } else {
                None
            },
        },
{
}

/// The list's default range applies only to an item without an edit of its own: such an
/// item replaces the default range (inserting into its insert range, if it gives one) with
/// the item's edit text, else its label.
pub proof fn law_list_default_range_for_items_without_edit<D, X>(
    item: LspCompletionItem<D, X>,
    defaults: CompletionItemDefaults<D>,
    lines: Seq<Vec<char>>,
    position: Position,
    word_range: EditRange,
)
    requires
        item.text_edit is None,
        defaults.edit_range is Some,
    ensures
        ({
            let text = match item.text_edit_text { Some(t) => t@, None => item.label@ };
            match defaults.edit_range.unwrap() {
                CompletionListItemDefaultsEditRange::Range(r) => completion_edit(item, Some(defaults), lines, position, word_range) == if valid_point(lines, r.start) && valid_point(lines, r.end) {
                    Some((EditRange { start: r.start, end: r.end }, None::<EditRange>, text))
                } else {
                    None
                },
                CompletionListItemDefaultsEditRange::InsertAndReplace { insert, replace } => completion_edit(item, Some(defaults), lines, position, word_range) == if valid_point(lines, replace.start) && valid_point(lines, replace.end)
                    && valid_point(lines, insert.start) && valid_point(lines, insert.end) {
                    Some((EditRange { start: replace.start, end: replace.end }, Some(EditRange { start: insert.start, end: insert.end }), text))
                } else {
                    None
                },
            }
        }),
{
}

/// Without an edit of its own and without a default range, an item replaces the word at
/// the position with its insert text, else its label, when the position lies in the text.
pub proof fn law_word_range_for_items_without_any_edit<D, X>(
    item: LspCompletionItem<D, X>,
    defaults: Option<CompletionItemDefaults<D>>,
    lines: Seq<Vec<char>>,
    position: Position,
    word_range: EditRange,
)
    requires
        item.text_edit is None,
        defaults matches Some(d) ==> d.edit_range is None,
    ensures
        completion_edit(item, defaults, lines, position, word_range) == if valid_point(lines, position) {
            Some((word_range, None::<EditRange>, match item.insert_text { Some(t) => t@, None => item.label@ }))
        } else {
            None
        },
{
}

/// The kept items and their edits go together: the edit at each index is the edit of the
/// item kept at that index.
pub proof fn law_kept_items_carry_their_edits<D, X>(
    items: Seq<LspCompletionItem<D, X>>,
    defaults: Option<CompletionItemDefaults<D>>,
    lines: Seq<Vec<char>>,
    position: Position,
    word_range: EditRange,
)
    ensures
        kept_items(items, defaults, lines, position, word_range).len() == kept_edits(items, defaults, lines, position, word_range).len(),
        forall|i: int| 0 <= i < kept_items(items, defaults, lines, position, word_range).len() ==>
            completion_edit(#[trigger] kept_items(items, defaults, lines, position, word_range)[i], defaults, lines, position, word_range)
                == Some(kept_edits(items, defaults, lines, position, word_range)[i]),
    decreases items.len(),
{
    if items.len() > 0 {
        law_kept_items_carry_their_edits(items.drop_last(), defaults, lines, position, word_range);
        let pi = kept_items(items.drop_last(), defaults, lines, position, word_range);
        let pe = kept_edits(items.drop_last(), defaults, lines, position, word_range);
        let ki = kept_items(items, defaults, lines, position, word_range);
        assert forall|i: int| 0 <= i < ki.len() implies
            completion_edit(#[trigger] ki[i], defaults, lines, position, word_range)
                == Some(kept_edits(items, defaults, lines, position, word_range)[i]) by {
            if i < pi.len() {
                assert(ki[i] == pi[i]);
                assert(kept_edits(items, defaults, lines, position, word_range)[i] == pe[i]);
            }
        }
    }
}

} // verus!
