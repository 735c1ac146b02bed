use light_code::completions::{
    parse_completion_text_edit, CompletionContext, CompletionItemDefaults, CompletionList,
    CompletionListItemDefaultsEditRange, CompletionResponse, CompletionTextEdit,
    CompletionTriggerKind, EditRange, GetCompletions, InsertReplaceEdit, LspCompletionItem,
    TextEdit,
};
use light_code::inlay_hints::Position;
use light_code::lsp_responses::LspRange;
use light_code::server::LanguageServerId;
use light_code::text::normalize_line_endings;

fn lines(text: &str) -> Vec<Vec<char>> {
    text.split('\n').map(|l| l.chars().collect()).collect()
}

fn pos(line: u32, character: u32) -> Position {
    Position { line, character }
}

fn range(a: (u32, u32), b: (u32, u32)) -> LspRange {
    LspRange { start: pos(a.0, a.1), end: pos(b.0, b.1) }
}

fn item(label: &str) -> LspCompletionItem<u32, ()> {
    LspCompletionItem {
        label: label.to_string(),
        text_edit: None,
        text_edit_text: None,
        insert_text: None,
        data: None,
        rest: (),
    }
}

fn request(line: u32, character: u32) -> GetCompletions {
    GetCompletions {
        position: pos(line, character),
        context: CompletionContext { trigger_kind: CompletionTriggerKind::Invoked, trigger_character: None },
        server_id: None,
    }
}

#[test]
fn completion_params_carry_position_and_context() {
    let params = request(1, 2).to_lsp("file:///a.rs".to_string());
    assert_eq!(params.uri, "file:///a.rs");
    assert_eq!(params.position, pos(1, 2));
    assert_eq!(params.context.unwrap().trigger_kind, CompletionTriggerKind::Invoked);
}

#[test]
fn item_without_edit_replaces_the_word() {
    let text = lines("let foo = fo");
    let word = EditRange { start: pos(0, 10), end: pos(0, 12) };
    let mut with_insert = item("foo");
    with_insert.insert_text = Some("foo()".to_string());
    let pending = request(0, 12).response_from_lsp(
        Some(CompletionResponse::Array(vec![item("foo"), with_insert])),
        &text,
        word,
    );
    assert!(!pending.is_incomplete);
    assert_eq!(pending.edits.len(), 2);
    assert_eq!(pending.edits[0].replace_range, word);
    assert_eq!(pending.edits[0].new_text, "foo");
    assert_eq!(pending.edits[1].new_text, "foo()");
    assert_eq!(pending.edits[1].insert_range, None);
}

#[test]
fn items_outside_the_text_are_dropped_and_mark_the_list_incomplete() {
    let text = lines("ab\ncd");
    let word = EditRange { start: pos(0, 0), end: pos(0, 0) };
    let mut good = item("good");
    good.text_edit = Some(CompletionTextEdit::Edit(TextEdit { range: range((1, 0), (1, 2)), new_text: "xy".to_string() }));
    let mut bad = item("bad");
    bad.text_edit = Some(CompletionTextEdit::Edit(TextEdit { range: range((1, 0), (1, 3)), new_text: "zz".to_string() }));
    let pending = request(0, 0).response_from_lsp(Some(CompletionResponse::Array(vec![good, bad])), &text, word);
    assert_eq!(pending.completions.len(), 1);
    assert_eq!(pending.completions[0].label, "good");
    assert!(pending.is_incomplete);
}

#[test]
fn position_outside_the_text_drops_items_without_edits() {
    let text = lines("ab");
    let word = EditRange { start: pos(0, 0), end: pos(0, 2) };
    let pending = request(3, 0).response_from_lsp(Some(CompletionResponse::Array(vec![item("x")])), &text, word);
    assert!(pending.completions.is_empty());
    assert!(pending.is_incomplete);
}

#[test]
fn list_defaults_give_the_edit_range_and_data() {
    let text = lines("hello world");
    let word = EditRange { start: pos(0, 0), end: pos(0, 0) };
    let mut own_data = item("b");
    own_data.data = Some(7);
    own_data.text_edit_text = Some("beta".to_string());
    let list = CompletionList {
        is_incomplete: true,
        item_defaults: Some(CompletionItemDefaults {
            edit_range: Some(CompletionListItemDefaultsEditRange::InsertAndReplace {
                insert: range((0, 6), (0, 8)),
                replace: range((0, 6), (0, 11)),
            }),
            data: Some(42),
        }),
        items: vec![item("a"), own_data],
    };
    let pending = request(0, 8).response_from_lsp(Some(CompletionResponse::List(list)), &text, word);
    assert!(pending.is_incomplete);
    assert_eq!(pending.edits[0].replace_range, EditRange { start: pos(0, 6), end: pos(0, 11) });
    assert_eq!(pending.edits[0].insert_range, Some(EditRange { start: pos(0, 6), end: pos(0, 8) }));
    assert_eq!(pending.edits[0].new_text, "a");
    assert_eq!(pending.edits[1].new_text, "beta");
    let response = pending.finish(LanguageServerId(5));
    assert_eq!(response.completions.len(), 2);
    assert_eq!(response.completions[0].lsp_completion.data, Some(42));
    assert_eq!(response.completions[1].lsp_completion.data, Some(7));
    assert_eq!(response.completions[0].server_id, LanguageServerId(5));
    assert!(!response.completions[0].resolved);
}

#[test]
fn finished_text_has_normalized_line_endings() {
    let text = lines("x");
    let word = EditRange { start: pos(0, 0), end: pos(0, 1) };
    let mut multi = item("m");
    multi.insert_text = Some("a\r\nb\rc".to_string());
    let pending = request(0, 1).response_from_lsp(Some(CompletionResponse::Array(vec![multi])), &text, word);
    let response = pending.finish(LanguageServerId(1));
    assert_eq!(response.completions[0].new_text, "a\nb\nc");
}

#[test]
fn no_reply_gives_no_completions() {
    let text = lines("");
    let word = EditRange { start: pos(0, 0), end: pos(0, 0) };
    let pending = request(0, 0).response_from_lsp(None::<CompletionResponse<u32, ()>>, &text, word);
    assert!(pending.completions.is_empty());
    assert!(!pending.is_incomplete);
    assert!(pending.finish(LanguageServerId(1)).completions.is_empty());
}

#[test]
fn insert_and_replace_edit_checks_both_ranges() {
    let text = lines("abc");
    let edit = CompletionTextEdit::InsertAndReplace(InsertReplaceEdit {
        new_text: "z".to_string(),
        insert: range((0, 0), (0, 4)),
        replace: range((0, 0), (0, 3)),
    });
    assert!(parse_completion_text_edit(&edit, &text).is_none());
    let edit = CompletionTextEdit::InsertAndReplace(InsertReplaceEdit {
        new_text: "z".to_string(),
        insert: range((0, 0), (0, 1)),
        replace: range((0, 0), (0, 3)),
    });
    let parsed = parse_completion_text_edit(&edit, &text).unwrap();
    assert_eq!(parsed.insert_range, Some(EditRange { start: pos(0, 0), end: pos(0, 1) }));
}

#[test]
fn columns_inside_a_surrogate_pair_are_outside_the_text() {
    let text = lines("a😀b");
    let inside = CompletionTextEdit::Edit(TextEdit { range: range((0, 2), (0, 2)), new_text: String::new() });
    assert!(parse_completion_text_edit(&inside, &text).is_none());
    let after = CompletionTextEdit::Edit(TextEdit { range: range((0, 3), (0, 4)), new_text: String::new() });
    assert!(parse_completion_text_edit(&after, &text).is_some());
}

#[test]
fn normalizing_twice_changes_nothing_more() {
    let mut s = "one\r\ntwo\rthree\n".to_string();
    normalize_line_endings(&mut s);
    assert_eq!(s, "one\ntwo\nthree\n");
    let once = s.clone();
    normalize_line_endings(&mut s);
    assert_eq!(s, once);
    assert!(!s.contains('\r'));
}
