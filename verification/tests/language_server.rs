use light_code::code_actions::{DiagnosticMessage, GetCodeActions, LspDiagnostic, RangeDiagnostic};
use light_code::lsp_responses::{GetHover, LspHover};
use light_code::locations::{edit_prediction_definitions, WorktreeMatch};
use light_code::document_ranges::{resolved_color, ColorPresentation, DocumentColor, LspColorPresentation};
use light_code::capabilities::{
    check_capabilities, AdapterServerCapabilities, BoolOrOptions, CodeActionProvider, LspRequestKind,
    OnTypeFormattingOptions, RenameOptions, RenameProvider, ResolveOptions, SemanticTokensFull, SemanticTokensOptions,
    ServerCapabilities,
};
use light_code::code_actions::{
    code_action_kind_matches, code_actions_from_lsp, ActionCommand, CodeActionKind,
    CodeActionOrCommand, LspAction, LspCodeAction,
};
use light_code::emmet::{ExpandAbbreviation, ExpandAbbreviationError, EMMET_SERVER_NAME};
use light_code::inlay_hints::Position;
use light_code::lsp_items::{
    code_lens_from_lsp, document_links_from_lsp, document_symbols_from_lsp, DocumentLink,
    DocumentSymbolResponse, LspCodeLens, LspDocumentSymbol, LspPrepareRenameResponse,
    PrepareRename, PrepareRenameResponse, SymbolInformation,
};
use light_code::lsp_responses::{
    definition_locations_from_lsp, hover_from_lsp, GotoDefinitionResponse, HoverContents,
    Location, LocationLink, LspRange, MarkedString,
};
use light_code::pull_diagnostics::{
    process_full_diagnostics_report, process_unchanged_diagnostics_report,
    FullDocumentDiagnosticReport, GetDocumentDiagnostics, LspPullDiagnostics, PulledDiagnostics,
    UnchangedDocumentDiagnosticReport, WorkspaceDiagnosticReportResult, WorkspaceDocumentDiagnosticReport,
    WorkspaceLspPullDiagnostics,
};
use light_code::requests::{lsp_formatting_options, FormattingSettings, GetReferences, OnTypeFormatting};
use light_code::completions::GetCompletions;
use light_code::buffer::{Anchor, AnchorRange, Bias};
use light_code::server::LanguageServerId;
use light_code::uri_map::UriMap;

fn pos(line: u32, character: u32) -> Position {
    Position { line, character }
}

fn range(a: (u32, u32), b: (u32, u32)) -> LspRange {
    LspRange { start: pos(a.0, a.1), end: pos(b.0, b.1) }
}

fn kind(s: &str) -> CodeActionKind {
    CodeActionKind(s.to_string())
}

#[test]
fn code_action_kinds_match_by_hierarchy() {
    assert!(code_action_kind_matches(&kind("refactor"), &kind("refactor")));
    assert!(code_action_kind_matches(&kind("refactor"), &kind("refactor.extract")));
    assert!(!code_action_kind_matches(&kind("refactor"), &kind("refactorx")));
    assert!(!code_action_kind_matches(&kind("refactor.extract"), &kind("refactor")));
    assert!(code_action_kind_matches(&kind(""), &kind(".x")));
}

#[test]
fn code_actions_are_filtered_by_command_and_kind() {
    let entries: Vec<CodeActionOrCommand<&str, ()>> = vec![
        CodeActionOrCommand::CodeAction(LspCodeAction { kind: Some(kind("quickfix")), command: None, payload: "fix" }),
        CodeActionOrCommand::CodeAction(LspCodeAction { kind: Some(kind("refactor.inline")), command: None, payload: "inline" }),
        CodeActionOrCommand::Command(ActionCommand { command: "run".to_string(), payload: () }),
        CodeActionOrCommand::Command(ActionCommand { command: "unknown".to_string(), payload: () }),
    ];
    let available = vec!["run".to_string()];
    let requested = Some(vec![kind("quickfix"), kind("command")]);
    let actions = code_actions_from_lsp(Some(entries), &available, &requested, LanguageServerId(1), (0u32, 1u32));
    assert_eq!(actions.len(), 2);
    assert!(matches!(actions[0].lsp_action, LspAction::Action(ref a) if a.payload == "fix"));
    assert!(!actions[0].resolved);
    assert!(matches!(actions[1].lsp_action, LspAction::Command(_)));
    assert!(actions[1].resolved);
}

#[test]
fn capability_checks() {
    let mut caps = ServerCapabilities::default();
    assert!(!check_capabilities(LspRequestKind::Hover, &caps));
    caps.hover_provider = Some(BoolOrOptions::Options);
    assert!(check_capabilities(LspRequestKind::Hover, &caps));
    caps.definition_provider = Some(BoolOrOptions::Simple(false));
    assert!(!check_capabilities(LspRequestKind::Definitions, &caps));
    caps.semantic_tokens_provider = Some(SemanticTokensOptions { full: Some(SemanticTokensFull::Bool(true)) });
    assert!(check_capabilities(LspRequestKind::SemanticTokensFull, &caps));
    assert!(!check_capabilities(LspRequestKind::SemanticTokensDelta, &caps));
    caps.completion_provider = Some(ResolveOptions { resolve_provider: Some(true) });
    assert!(GetCompletions::can_resolve_completions(&caps));
    caps.document_on_type_formatting_provider = Some(OnTypeFormattingOptions {
        first_trigger_character: "}".to_string(),
        more_trigger_character: Some(vec![";".to_string()]),
    });
    assert!(OnTypeFormatting::supports_on_type_formatting(";", &caps));
    assert!(!OnTypeFormatting::supports_on_type_formatting("{", &caps));
}

#[test]
fn code_actions_need_a_supported_kind() {
    let mut caps = AdapterServerCapabilities::default();
    caps.server_capabilities.code_action_provider = Some(CodeActionProvider::Options {
        code_action_kinds: Some(vec![kind("quickfix")]),
        resolve_provider: None,
    });
    let whole = AnchorRange { start: Anchor { point: pos(0, 0), bias: Bias::Left }, end: Anchor { point: pos(0, 0), bias: Bias::Right } };
    assert!(GetCodeActions { range: whole, kinds: Some(vec![kind("quickfix")]) }.check_capabilities(&caps));
    assert!(!GetCodeActions { range: whole, kinds: Some(vec![kind("refactor")]) }.check_capabilities(&caps));
    assert!(GetCodeActions { range: whole, kinds: None }.check_capabilities(&caps));
}

#[test]
fn emmet_expansion_asks_only_the_emmet_server() {
    let cmd = ExpandAbbreviation {
        abbreviation: "ul>li*2".to_string(),
        text: Some(vec!["a".to_string(), "b".to_string()]),
        language: "html".to_string(),
        server_id: LanguageServerId(3),
        indent: "  ".to_string(),
        base_indent: String::new(),
        comment_filter: true,
        bem_filter: false,
    };
    let params = cmd.to_lsp(EMMET_SERVER_NAME).unwrap();
    assert_eq!(params.abbreviation, "ul>li*2");
    assert_eq!(params.options.options.inline_break, Some(1));
    assert_eq!(params.options.options.comment_enabled, Some(true));
    assert_eq!(params.options.options.bem_enabled, None);
    assert_eq!(
        cmd.to_lsp("rust-analyzer"),
        Err(ExpandAbbreviationError::WrongServer { server_name: "rust-analyzer".to_string() })
    );
    assert_eq!(cmd.response_from_lsp(Some(String::new())), None);
}

#[test]
fn pulled_reports_merge_per_document() {
    let mut map: UriMap<LspPullDiagnostics<u32>> = UriMap::new();
    let server = LanguageServerId(1);
    process_full_diagnostics_report(&mut map, server, "file:///a".to_string(), FullDocumentDiagnosticReport { result_id: Some("1".to_string()), items: vec![1, 2] }, None);
    process_full_diagnostics_report(&mut map, server, "file:///a".to_string(), FullDocumentDiagnosticReport { result_id: None, items: vec![3] }, None);
    process_unchanged_diagnostics_report(&mut map, server, "file:///a".to_string(), UnchangedDocumentDiagnosticReport { result_id: "2".to_string() }, None);
    process_unchanged_diagnostics_report(&mut map, server, "file:///b".to_string(), UnchangedDocumentDiagnosticReport { result_id: "9".to_string() }, None);
    let entries = map.into_entries();
    assert_eq!(entries.len(), 2);
    match &entries[0].1 {
        LspPullDiagnostics::Response { diagnostics: PulledDiagnostics::Changed { result_id, diagnostics }, .. } => {
            assert_eq!(result_id.as_deref(), Some("1"));
            assert_eq!(diagnostics, &vec![1, 2, 3]);
        }
        other => panic!("unexpected {other:?}"),
    }
    assert!(matches!(&entries[1].1, LspPullDiagnostics::Response { diagnostics: PulledDiagnostics::Unchanged { result_id }, .. } if result_id == "9"));
}

#[test]
fn hover_skips_empty_strings() {
    let hover = hover_from_lsp::<(), ()>(
        Some(HoverContents::Array(vec![
            MarkedString::String(String::new()),
            MarkedString::String("docs".to_string()),
        ])),
        None,
        None,
    )
    .unwrap();
    assert_eq!(hover.contents.len(), 1);
    assert_eq!(hover.contents[0].text, "docs");
}

#[test]
fn definition_targets_keep_their_order() {
    let targets = definition_locations_from_lsp(Some(GotoDefinitionResponse::Link(vec![LocationLink {
        origin_selection_range: Some(range((0, 0), (0, 1))),
        target_uri: "file:///t".to_string(),
        target_range: range((1, 0), (5, 0)),
        target_selection_range: range((1, 4), (1, 8)),
    }])));
    assert_eq!(targets, vec![(Some(range((0, 0), (0, 1))), "file:///t".to_string(), range((1, 4), (1, 8)))]);
    let scalar = definition_locations_from_lsp(Some(GotoDefinitionResponse::Scalar(Location { uri: "u".to_string(), range: range((2, 0), (2, 1)) })));
    assert_eq!(scalar, vec![(None, "u".to_string(), range((2, 0), (2, 1)))]);
}

#[test]
fn nested_symbols_keep_their_children() {
    let response = DocumentSymbolResponse::Nested(vec![LspDocumentSymbol {
        name: "Outer".to_string(),
        kind: 5u8,
        range: range((0, 0), (9, 0)),
        selection_range: range((0, 4), (0, 9)),
        children: Some(vec![LspDocumentSymbol {
            name: "inner".to_string(),
            kind: 6u8,
            range: range((1, 0), (2, 0)),
            selection_range: range((1, 4), (1, 9)),
            children: None,
        }]),
    }]);
    let symbols = document_symbols_from_lsp(Some(response));
    assert_eq!(symbols.len(), 1);
    assert_eq!(symbols[0].children.len(), 1);
    assert_eq!(symbols[0].children[0].name, "inner");
    assert!(symbols[0].children[0].children.is_empty());
    let flat = document_symbols_from_lsp(Some(DocumentSymbolResponse::Flat(vec![SymbolInformation {
        name: "f".to_string(),
        kind: 12u8,
        uri: "file:///f".to_string(),
        range: range((3, 0), (4, 1)),
    }])));
    assert_eq!(flat[0].selection_range, range((3, 0), (4, 1)));
    assert!(document_symbols_from_lsp::<u8>(None).is_empty());
}

#[test]
fn links_and_lenses_are_clipped() {
    let text: Vec<Vec<char>> = vec!["abc".chars().collect()];
    let links = document_links_from_lsp(
        Some(vec![DocumentLink { range: range((0, 1), (0, 10)), target: Some("https://x".to_string()), tooltip: None, data: None::<u8> }]),
        &text,
    );
    assert_eq!(links[0].range.end.point, pos(0, 3));
    assert!(!links[0].resolved);
    let lenses = code_lens_from_lsp(
        Some(vec![
            LspCodeLens { range: range((0, 0), (0, 1)), command: Some(ActionCommand { command: "run".to_string(), payload: () }), data: () },
            LspCodeLens { range: range((0, 0), (0, 1)), command: None, data: () },
        ]),
        &text,
        LanguageServerId(2),
    );
    assert!(lenses[0].resolved);
    assert!(!lenses[1].resolved);
}

#[test]
fn prepare_rename_checks_the_range() {
    let text: Vec<Vec<char>> = vec!["let abc = 1;".chars().collect()];
    let request = PrepareRename { position: pos(0, 5) };
    let word = range((0, 4), (0, 7));
    let ok = request.response_from_lsp(Some(LspPrepareRenameResponse::Range(range((0, 4), (0, 7)))), &text, word, LanguageServerId(1));
    assert!(matches!(ok, PrepareRenameResponse::Success { language_server_id: Some(LanguageServerId(1)), .. }));
    let bad = request.response_from_lsp(Some(LspPrepareRenameResponse::Range(range((0, 4), (0, 70)))), &text, word, LanguageServerId(1));
    assert_eq!(bad, PrepareRenameResponse::InvalidPosition);
    let default = request.response_from_lsp(Some(LspPrepareRenameResponse::DefaultBehavior { default_behavior: true }), &text, word, LanguageServerId(1));
    match default {
        PrepareRenameResponse::Success { range, .. } => assert_eq!(range.start.point, pos(0, 4)),
        other => panic!("unexpected {other:?}"),
    }
    assert_eq!(request.response_from_lsp(None, &text, word, LanguageServerId(1)), PrepareRenameResponse::InvalidPosition);
    let mut preparing = AdapterServerCapabilities::default();
    preparing.server_capabilities.rename_provider = Some(RenameProvider::Options(RenameOptions { prepare_provider: Some(true) }));
    assert_eq!(request.response_without_request(&vec![AdapterServerCapabilities::default(), preparing]), None);
    assert_eq!(
        request.response_without_request(&vec![AdapterServerCapabilities::default()]),
        Some(PrepareRenameResponse::OnlyUnpreparedRenameSupported)
    );
}

#[test]
fn request_arguments() {
    let params = GetReferences { position: pos(4, 2) }.to_lsp("file:///r".to_string());
    assert!(params.include_declaration);
    assert_eq!(params.text_document_position.position, pos(4, 2));
    let options = lsp_formatting_options(&FormattingSettings {
        tab_size: 4,
        hard_tabs: false,
        remove_trailing_whitespace_on_save: true,
        ensure_final_newline_on_save: false,
    });
    assert_eq!(options.tab_size, 4);
    assert!(options.insert_spaces);
    assert_eq!(options.trim_trailing_whitespace, Some(true));
    assert_eq!(options.insert_final_newline, Some(false));
}

#[test]
fn code_action_requests_downgrade_foreign_markup() {
    let request = GetCodeActions {
        range: AnchorRange { start: Anchor { point: pos(0, 0), bias: Bias::Left }, end: Anchor { point: pos(0, 5), bias: Bias::Right } },
        kinds: Some(vec![kind("quickfix")]),
    };
    let diagnostics = vec![
        RangeDiagnostic {
            source_server_id: LanguageServerId(1),
            diagnostic: LspDiagnostic { message: DiagnosticMessage::Markup("**bad**".to_string()), rest: 1u8 },
            message_text: "bad".to_string(),
            has_markup: true,
        },
        RangeDiagnostic {
            source_server_id: LanguageServerId(2),
            diagnostic: LspDiagnostic { message: DiagnosticMessage::Markup("*own*".to_string()), rest: 2u8 },
            message_text: "own".to_string(),
            has_markup: true,
        },
    ];
    let params = request.to_lsp("file:///a".to_string(), range((0, 0), (0, 5)), diagnostics, LanguageServerId(2));
    assert_eq!(params.diagnostics[0], LspDiagnostic { message: DiagnosticMessage::String("bad".to_string()), rest: 1u8 });
    assert_eq!(params.diagnostics[1], LspDiagnostic { message: DiagnosticMessage::Markup("*own*".to_string()), rest: 2u8 });
    assert_eq!(params.only, Some(vec![kind("quickfix")]));
}

#[test]
fn hover_range_is_placed_in_the_buffer() {
    let text: Vec<Vec<char>> = vec!["fn main".chars().collect()];
    let hover = GetHover { position: pos(0, 4) }
        .response_from_lsp(
            Some(LspHover { contents: HoverContents::Scalar(MarkedString::String("main".to_string())), range: Some(range((0, 3), (0, 20))) }),
            &text,
            Some("rust"),
        )
        .unwrap();
    let r = hover.range.unwrap();
    assert_eq!(r.start.point, pos(0, 3));
    assert_eq!(r.end.point, pos(0, 7));
    assert_eq!(hover.language, Some("rust"));
    assert!(GetHover { position: pos(0, 0) }.response_from_lsp::<&str>(None, &text, None).is_none());
}

#[test]
fn edit_prediction_definitions_skip_hidden_worktrees() {
    let found = |visible, single_file| Some(WorktreeMatch { worktree_id: 1, visible, single_file, relative_path: "src/lib.rs" });
    let defs = edit_prediction_definitions(vec![
        (range((1, 0), (1, 1)), found(true, false)),
        (range((2, 0), (2, 1)), found(false, false)),
        (range((3, 0), (3, 1)), found(true, true)),
        (range((4, 0), (4, 1)), None),
    ]);
    assert_eq!(defs.len(), 1);
    assert_eq!(defs[0].range, range((1, 0), (1, 1)));
    assert_eq!(defs[0].path, "src/lib.rs");
}

#[test]
fn resolving_a_color_fills_its_presentations() {
    let color: DocumentColor<u32, ColorPresentation<u8>> = DocumentColor { lsp_range: range((0, 0), (0, 7)), color: 0xff0000, resolved: false, color_presentations: vec![] };
    let resolved = resolved_color(color, vec![
        LspColorPresentation { label: "#ff0000".to_string(), text_edit: Some(1), additional_text_edits: None },
        LspColorPresentation { label: "red".to_string(), text_edit: None, additional_text_edits: Some(vec![2, 3]) },
    ]);
    assert!(resolved.resolved);
    assert_eq!(resolved.color, 0xff0000);
    assert!(resolved.color_presentations[0].additional_text_edits.is_empty());
    assert_eq!(resolved.color_presentations[1].additional_text_edits, vec![2, 3]);
}

fn workspace_items() -> Vec<WorkspaceDocumentDiagnosticReport<u32>> {
    vec![
        WorkspaceDocumentDiagnosticReport::Full {
            uri: "file:///a.rs".to_string(),
            version: Some(1),
            report: FullDocumentDiagnosticReport { result_id: Some("r1".to_string()), items: vec![1] },
        },
        WorkspaceDocumentDiagnosticReport::Unchanged {
            uri: "file:///b.rs".to_string(),
            version: None,
            report: UnchangedDocumentDiagnosticReport { result_id: "rb".to_string() },
        },
        WorkspaceDocumentDiagnosticReport::Full {
            uri: "file:///a.rs".to_string(),
            version: Some(2),
            report: FullDocumentDiagnosticReport { result_id: None, items: vec![2, 3] },
        },
    ]
}

fn summary(entries: Vec<WorkspaceLspPullDiagnostics<u32>>) -> Vec<(String, Option<i32>, String, Option<String>, Vec<u32>)> {
    let mut out: Vec<_> = entries
        .into_iter()
        .map(|e| match e.diagnostics {
            LspPullDiagnostics::Response { server_id, uri, diagnostics, registration_id } => {
                assert_eq!(server_id, LanguageServerId(5));
                assert_eq!(registration_id, Some("reg".to_string()));
                match diagnostics {
                    PulledDiagnostics::Changed { result_id, diagnostics } => (uri, e.version, "changed".to_string(), result_id, diagnostics),
                    PulledDiagnostics::Unchanged { result_id } => (uri, e.version, "unchanged".to_string(), Some(result_id), vec![]),
                }
            }
            LspPullDiagnostics::Default => panic!("a workspace entry is a response"),
        })
        .collect();
    out.sort();
    out
}

#[test]
fn workspace_report_and_partial_result_give_the_same_entries() {
    let full = GetDocumentDiagnostics::deserialize_workspace_diagnostics_report(
        WorkspaceDiagnosticReportResult::Report(workspace_items()),
        LanguageServerId(5),
        Some("reg".to_string()),
    );
    let partial = GetDocumentDiagnostics::deserialize_workspace_diagnostics_report(
        WorkspaceDiagnosticReportResult::Partial(workspace_items()),
        LanguageServerId(5),
        Some("reg".to_string()),
    );
    let expected = vec![
        ("file:///a.rs".to_string(), Some(2), "changed".to_string(), None, vec![2, 3]),
        ("file:///b.rs".to_string(), None, "unchanged".to_string(), Some("rb".to_string()), vec![]),
    ];
    assert_eq!(summary(full), expected);
    assert_eq!(summary(partial), expected);
}
