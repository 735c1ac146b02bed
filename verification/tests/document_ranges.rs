use light_code::buffer::{clip_point, is_valid_point, Anchor, AnchorRange, Bias};
use light_code::document_ranges::{
    document_colors_from_lsp, document_highlights_from_lsp, folding_ranges_from_lsp,
    linked_editing_ranges_from_lsp, sort_by_start, sort_highlights, ColorInformation,
    DocumentColor, DocumentHighlightKind, FoldingRange, LinkedEditingRanges, LspDocumentHighlight,
    finish_color_resolution, plan_color_resolution, ColorPresentation, ColorPresentationParams,
    ColorResolution, LspColorPresentation,
};
use light_code::inlay_hints::Position;
use light_code::lsp_responses::LspRange;
use light_code::semantic_tokens::{
    LspSemanticTokens, LspSemanticTokensDelta, LspSemanticTokensEdit, SemanticTokensDelta,
    SemanticTokensError, SemanticTokensFull, SemanticTokensFullDeltaResult,
    SemanticTokensResponse, SemanticTokensResult,
};

fn lines(text: &str) -> Vec<Vec<char>> {
    text.split('\n').map(|l| l.chars().collect()).collect()
}

fn pos(line: u32, character: u32) -> Position {
    Position { line, character }
}

fn range(a: (u32, u32), b: (u32, u32)) -> LspRange {
    LspRange { start: pos(a.0, a.1), end: pos(b.0, b.1) }
}

#[test]
fn clipping_moves_points_into_the_text() {
    let text = lines("a😀b\nxy");
    assert_eq!(clip_point(&text, pos(0, 2), Bias::Left), pos(0, 1));
    assert_eq!(clip_point(&text, pos(0, 2), Bias::Right), pos(0, 3));
    assert_eq!(clip_point(&text, pos(0, 99), Bias::Left), pos(0, 4));
    assert_eq!(clip_point(&text, pos(9, 0), Bias::Left), pos(1, 2));
    assert_eq!(clip_point(&text, pos(1, 1), Bias::Right), pos(1, 1));
    assert!(is_valid_point(&text, pos(1, 2)));
    assert!(!is_valid_point(&text, pos(1, 3)));
    assert!(!is_valid_point(&text, pos(0, 2)));
}

fn highlight(a: (u32, u32), b: (u32, u32), kind: Option<DocumentHighlightKind>) -> LspDocumentHighlight {
    LspDocumentHighlight { range: range(a, b), kind }
}

#[test]
fn highlights_sort_by_start_then_longest_first() {
    let sorted = sort_highlights(vec![
        highlight((2, 0), (2, 3), None),
        highlight((0, 4), (0, 5), None),
        highlight((0, 4), (0, 9), None),
        highlight((0, 1), (0, 2), None),
    ]);
    let starts: Vec<(u32, u32, u32)> = sorted.iter().map(|h| (h.range.start.line, h.range.start.character, h.range.end.character)).collect();
    assert_eq!(starts, vec![(0, 1, 2), (0, 4, 9), (0, 4, 5), (2, 0, 3)]);
}

#[test]
fn highlights_default_to_read_and_are_clipped() {
    let text = lines("abc\nde");
    let result = document_highlights_from_lsp(
        Some(vec![
            highlight((1, 0), (1, 9), Some(DocumentHighlightKind::Write)),
            highlight((0, 0), (0, 3), None),
        ]),
        &text,
    );
    assert_eq!(result.len(), 2);
    assert_eq!(result[0].kind, DocumentHighlightKind::Read);
    assert_eq!(result[0].range.start, Anchor { point: pos(0, 0), bias: Bias::Right });
    assert_eq!(result[1].kind, DocumentHighlightKind::Write);
    assert_eq!(result[1].range.end, Anchor { point: pos(1, 2), bias: Bias::Left });
    assert!(document_highlights_from_lsp(None, &text).is_empty());
}

#[test]
fn linked_ranges_sort_stably_by_start() {
    let sorted = sort_by_start(vec![range((1, 0), (1, 1)), range((0, 2), (0, 5)), range((0, 2), (0, 3))]);
    assert_eq!(sorted, vec![range((0, 2), (0, 5)), range((0, 2), (0, 3)), range((1, 0), (1, 1))]);
    let text = lines("<div></div>");
    let result = linked_editing_ranges_from_lsp(
        Some(LinkedEditingRanges { ranges: vec![range((0, 7), (0, 10)), range((0, 1), (0, 4))], word_pattern: None }),
        &text,
    );
    assert_eq!(
        result[0],
        AnchorRange { start: Anchor { point: pos(0, 1), bias: Bias::Left }, end: Anchor { point: pos(0, 4), bias: Bias::Right } }
    );
    assert_eq!(result[1].start.point, pos(0, 7));
    assert!(linked_editing_ranges_from_lsp(None, &text).is_empty());
}

fn fold(start: u32, start_char: Option<u32>, end: u32, end_char: Option<u32>, collapsed: Option<&str>) -> FoldingRange {
    FoldingRange {
        start_line: start,
        start_character: start_char,
        end_line: end,
        end_character: end_char,
        collapsed_text: collapsed.map(|s| s.to_string()),
    }
}

#[test]
fn folding_ranges_keep_multi_line_ranges_inside_the_text() {
    let text = lines("fn main() {\n    x;\n}");
    let result = folding_ranges_from_lsp(
        Some(vec![
            fold(0, None, 2, None, Some("...")),
            fold(1, None, 1, None, None),
            fold(0, Some(10), 5, None, None),
            fold(0, Some(11), 1, Some(2), Some("")),
        ]),
        &text,
    );
    assert_eq!(result.len(), 2);
    assert_eq!(result[0].range.start, Anchor { point: pos(0, 11), bias: Bias::Right });
    assert_eq!(result[0].range.end, Anchor { point: pos(2, 1), bias: Bias::Left });
    assert_eq!(result[0].collapsed_text.as_deref(), Some("..."));
    assert_eq!(result[1].range.end.point, pos(1, 2));
    assert_eq!(result[1].collapsed_text, None);
    assert!(folding_ranges_from_lsp(None, &text).is_empty());
}

#[test]
fn colors_start_unresolved() {
    let colors: Vec<DocumentColor<(u8, u8, u8), String>> = document_colors_from_lsp(vec![
        ColorInformation { range: range((0, 0), (0, 7)), color: (255, 0, 0) },
        ColorInformation { range: range((1, 0), (1, 7)), color: (0, 0, 255) },
    ]);
    assert_eq!(colors.len(), 2);
    assert_eq!(colors[1].color, (0, 0, 255));
    assert!(!colors[0].resolved);
    assert!(colors[0].color_presentations.is_empty());
}

#[test]
fn full_tokens_and_their_errors() {
    let full = SemanticTokensFull { for_server: None };
    let tokens = full
        .response_from_lsp(Some(SemanticTokensResult::Tokens(LspSemanticTokens { result_id: Some("1".to_string()), data: vec![1, 2, 3, 4, 5] })))
        .unwrap();
    assert_eq!(tokens, SemanticTokensResponse::Full { data: vec![1, 2, 3, 4, 5], result_id: Some("1".to_string()) });
    let err = full.response_from_lsp(Some(SemanticTokensResult::Partial(vec![1]))).unwrap_err();
    assert_eq!(err, SemanticTokensError::PartialResult);
    assert_eq!(err.message(), "Unexpected semantic tokens response with partial result for inlay hints");
    assert_eq!(full.response_from_lsp(None).unwrap(), SemanticTokensResponse::Delta { edits: vec![], result_id: None });
}

#[test]
fn token_deltas_read_missing_data_as_empty() {
    let delta = SemanticTokensDelta { previous_result_id: "7".to_string() };
    let params = delta.to_lsp("file:///x".to_string());
    assert_eq!(params.previous_result_id.as_deref(), Some("7"));
    let response = delta
        .response_from_lsp(Some(SemanticTokensFullDeltaResult::TokensDelta(LspSemanticTokensDelta {
            result_id: Some("8".to_string()),
            edits: vec![
                LspSemanticTokensEdit { start: 0, delete_count: 5, data: None },
                LspSemanticTokensEdit { start: 10, delete_count: 0, data: Some(vec![1, 1, 1, 1, 1]) },
            ],
        })))
        .unwrap();
    match response {
        SemanticTokensResponse::Delta { edits, result_id } => {
            assert_eq!(result_id.as_deref(), Some("8"));
            assert_eq!(edits.len(), 2);
            assert!(edits[0].data.is_empty());
            assert_eq!(edits[0].delete_count, 5);
            assert_eq!(edits[1].data, vec![1, 1, 1, 1, 1]);
        }
        other => panic!("unexpected {other:?}"),
    }
    assert_eq!(
        delta.response_from_lsp(Some(SemanticTokensFullDeltaResult::PartialTokensDelta(vec![]))),
        Err(SemanticTokensError::PartialResult)
    );
}

fn unresolved_color(resolved: bool) -> DocumentColor<u32, ColorPresentation<u8>> {
    DocumentColor { lsp_range: range((1, 2), (1, 9)), color: 7, resolved, color_presentations: Vec::new() }
}

#[test]
fn resolving_a_color_asks_the_server_for_its_range_in_the_file() {
    match plan_color_resolution(unresolved_color(false), Some("file:///a.css".to_string()), true) {
        ColorResolution::Request(color, params) => {
            assert_eq!(params, ColorPresentationParams { uri: "file:///a.css".to_string(), color: 7, range: range((1, 2), (1, 9)) });
            let reply: Result<Vec<LspColorPresentation<u8>>, String> = Ok(vec![
                LspColorPresentation { label: "#070707".to_string(), text_edit: Some(1), additional_text_edits: None },
                LspColorPresentation { label: "rgb(7,7,7)".to_string(), text_edit: None, additional_text_edits: Some(vec![2, 3]) },
            ]);
            let done = finish_color_resolution(color, reply).unwrap();
            assert!(done.resolved);
            assert_eq!(done.color, 7);
            assert_eq!(done.color_presentations, vec![
                ColorPresentation { label: "#070707".to_string(), text_edit: Some(1), additional_text_edits: vec![] },
                ColorPresentation { label: "rgb(7,7,7)".to_string(), text_edit: None, additional_text_edits: vec![2, 3] },
            ]);
        }
        other => panic!("expected a request, got {:?}", other),
    }
}

#[test]
fn resolving_a_color_without_request() {
    assert_eq!(plan_color_resolution(unresolved_color(true), None, false), ColorResolution::Ready(unresolved_color(true)));
    assert_eq!(plan_color_resolution(unresolved_color(false), None, true), ColorResolution::MissingPath);
    assert_eq!(plan_color_resolution(unresolved_color(false), Some("file:///a.css".to_string()), false), ColorResolution::Ready(unresolved_color(false)));
    let failed: Result<Vec<LspColorPresentation<u8>>, String> = Err("timeout".to_string());
    assert_eq!(finish_color_resolution(unresolved_color(false), failed), Err("timeout".to_string()));
}
