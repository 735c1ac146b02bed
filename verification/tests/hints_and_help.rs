use light_code::buffer::{Anchor, AnchorRange, Bias};
use light_code::cloud_api_types::{OrganizationId, SystemSettings, ZED_SYSTEM_ID_HEADER_NAME};
use light_code::git_notifications::{git_error_toast_message, git_output_title, trim_chars};
use light_code::inlay_hints::{
    HoverBlockKind, InlayHint, InlayHintKind, InlayHintLabel, InlayHintLabelPart, InlayHintTooltip, InlayHints,
    LspInlayHint, ProjectMarkupContent, LspInlayHintLabel, Position, ResolveState, TYPESCRIPT_LANGUAGE_SERVER,
};
use light_code::locations::{
    anchor_range_from_lsp, call_hierarchy_item_from_lsp, location_link_from_lsp, CallHierarchyItem, GetIncomingCalls,
    GetOutgoingCalls, LspCallHierarchyItem, LspIncomingCall, LspOutgoingCall, OpenedBuffer,
};
use light_code::lsp_responses::LspRange;
use light_code::server::LanguageServerId;
use light_code::signature_help::{
    GetSignatureHelp, LspSignatureHelp, ParameterInformation, ParameterLabel, SignatureHelp,
    SignatureInformation,
};

fn pos(line: u32, character: u32) -> Position {
    Position { line, character }
}

fn type_hint(padding_left: Option<bool>) -> LspInlayHint<(), (), u32> {
    LspInlayHint {
        position: pos(0, 3),
        label: LspInlayHintLabel::String(": i32".to_string()),
        kind: Some(1),
        tooltip: None,
        padding_left,
        padding_right: None,
        data: Some(11),
    }
}

#[test]
fn typescript_type_hints_lose_left_padding() {
    let text: Vec<Vec<char>> = vec!["let x = 1;".chars().collect()];
    let request = InlayHints { range: AnchorRange { start: Anchor { point: pos(0, 0), bias: Bias::Left }, end: Anchor { point: pos(0, 10), bias: Bias::Right } } };
    let hints = request.response_from_lsp(Some(vec![type_hint(Some(true))]), &text, LanguageServerId(4), TYPESCRIPT_LANGUAGE_SERVER, true);
    assert_eq!(hints.len(), 1);
    assert!(!hints[0].padding_left);
    assert_eq!(hints[0].kind, Some(InlayHintKind::Type));
    assert_eq!(hints[0].position, Anchor { point: pos(0, 3), bias: Bias::Right });
    assert_eq!(hints[0].resolve_state, ResolveState::CanResolve(LanguageServerId(4), Some(11)));
    let other = request.response_from_lsp(Some(vec![type_hint(Some(true))]), &text, LanguageServerId(4), "rust-analyzer", false);
    assert!(other[0].padding_left);
    assert_eq!(other[0].resolve_state, ResolveState::Resolved);
}

#[test]
fn inlay_hints_round_trip() {
    let text: Vec<Vec<char>> = vec!["let x = 1;".chars().collect()];
    let lsp = type_hint(Some(false));
    let hint = InlayHints::lsp_to_project_hint(lsp, &text, LanguageServerId(1), ResolveState::CanResolve(LanguageServerId(1), Some(11)), false);
    assert!(matches!(hint.label, InlayHintLabel::String(ref s) if s == ": i32"));
    assert_eq!(hint.position, Anchor { point: pos(0, 3), bias: Bias::Right });
    let back = InlayHints::project_to_lsp_hint(hint);
    assert_eq!(back, type_hint(Some(false)).with_padding_right(Some(false)));
}

#[test]
fn inlay_hint_positions_are_clipped_and_anchored_by_kind() {
    // "é" is one UTF-16 unit, "😀" two: column 4 falls inside the emoji.
    let text: Vec<Vec<char>> = vec!["a😀é".chars().collect(), "xy".chars().collect()];
    let mut lsp = type_hint(None);
    lsp.position = pos(0, 2);
    let hint = InlayHints::lsp_to_project_hint(lsp, &text, LanguageServerId(1), ResolveState::Resolved, false);
    assert_eq!(hint.position, Anchor { point: pos(0, 1), bias: Bias::Right });
    let mut lsp = type_hint(None);
    lsp.kind = Some(2);
    lsp.position = pos(1, 9);
    let hint = InlayHints::lsp_to_project_hint(lsp, &text, LanguageServerId(1), ResolveState::Resolved, false);
    assert_eq!(hint.position, Anchor { point: pos(1, 2), bias: Bias::Left });
    assert_eq!(hint.kind, Some(InlayHintKind::Parameter));
    let mut lsp = type_hint(None);
    lsp.kind = Some(7);
    lsp.position = pos(5, 0);
    let hint = InlayHints::lsp_to_project_hint(lsp, &text, LanguageServerId(1), ResolveState::Resolved, false);
    assert_eq!(hint.position, Anchor { point: pos(1, 2), bias: Bias::Right });
    assert_eq!(hint.kind, None);
}

#[test]
fn project_hint_survives_a_trip_through_the_protocol() {
    let text: Vec<Vec<char>> = vec!["foo(bar)".chars().collect()];
    let hint: InlayHint<Anchor, u8, u8, u32> = InlayHint {
        position: Anchor { point: pos(0, 4), bias: Bias::Left },
        padding_left: false,
        padding_right: true,
        label: InlayHintLabel::LabelParts(vec![InlayHintLabelPart {
            value: "name:".to_string(),
            tooltip: Some(InlayHintTooltip::MarkupContent(ProjectMarkupContent { kind: HoverBlockKind::Markdown, value: "*doc*".to_string() })),
            location: Some((LanguageServerId(3), 8)),
            command: None,
        }]),
        kind: Some(InlayHintKind::Parameter),
        tooltip: Some(InlayHintTooltip::String("tip".to_string())),
        resolve_state: ResolveState::CanResolve(LanguageServerId(3), Some(5)),
    };
    let lsp = InlayHints::project_to_lsp_hint(hint);
    assert_eq!(lsp.position, pos(0, 4));
    assert_eq!(lsp.kind, Some(2));
    assert_eq!(lsp.data, Some(5));
    let back = InlayHints::lsp_to_project_hint(lsp, &text, LanguageServerId(3), ResolveState::Resolved, false);
    assert_eq!(back.position, Anchor { point: pos(0, 4), bias: Bias::Left });
    assert!(!back.padding_left);
    assert!(back.padding_right);
    assert_eq!(back.kind, Some(InlayHintKind::Parameter));
    assert_eq!(back.tooltip, Some(InlayHintTooltip::String("tip".to_string())));
    match back.label {
        InlayHintLabel::LabelParts(parts) => {
            assert_eq!(parts.len(), 1);
            assert_eq!(parts[0].value, "name:");
            assert_eq!(parts[0].location, Some((LanguageServerId(3), 8)));
            assert_eq!(parts[0].tooltip, Some(InlayHintTooltip::MarkupContent(ProjectMarkupContent { kind: HoverBlockKind::Markdown, value: "*doc*".to_string() })));
        }
        _ => panic!("expected label parts"),
    }
}

trait WithPaddingRight {
    fn with_padding_right(self, p: Option<bool>) -> Self;
}

impl WithPaddingRight for LspInlayHint<(), (), u32> {
    fn with_padding_right(mut self, p: Option<bool>) -> Self {
        self.padding_right = p;
        self
    }
}

fn signature(label: &str, params: Vec<ParameterLabel>) -> SignatureInformation {
    SignatureInformation {
        label: label.to_string(),
        documentation: None,
        parameters: Some(params.into_iter().map(|label| ParameterInformation { label, documentation: None }).collect()),
        active_parameter: None,
    }
}

#[test]
fn signature_help_highlights_the_active_parameter() {
    let help = LspSignatureHelp {
        signatures: vec![signature("fn f(a: u8, b: u8)", vec![ParameterLabel::Simple("a: u8".to_string()), ParameterLabel::LabelOffsets(12, 17)])],
        active_signature: None,
        active_parameter: Some(1),
    };
    let result = SignatureHelp::new(help, Some(LanguageServerId(2))).unwrap();
    assert_eq!(result.active_signature, 0);
    let data = &result.signatures[0];
    assert_eq!(data.active_parameter, Some(1));
    assert_eq!(data.parameters[0].label_range.map(|r| (r.start, r.end)), Some((5, 10)));
    assert_eq!(data.highlights.iter().map(|r| (r.start, r.end)).collect::<Vec<_>>(), vec![(12, 17)]);
}

#[test]
fn signature_help_reply_without_signatures_is_none() {
    let request = GetSignatureHelp { position: pos(0, 0) };
    assert!(request.response_from_lsp(None, LanguageServerId(1)).is_none());
    let empty = LspSignatureHelp { signatures: vec![], active_signature: None, active_parameter: None };
    assert!(request.response_from_lsp(Some(empty), LanguageServerId(1)).is_none());
}

#[test]
fn git_toasts() {
    assert_eq!(git_output_title("push"), "Output from git push");
    assert_eq!(
        git_error_toast_message("Pull", "  Your local changes would be overwritten\n", "cancelled by user").as_deref(),
        Some("Git Pull failed: Your local changes would be overwritten")
    );
    assert_eq!(git_error_toast_message("Push", "remote: cancelled by user\n", "cancelled by user"), None);
    assert_eq!(trim_chars(&" \t ab c \n".chars().collect()), "ab c".chars().collect::<Vec<_>>());
    assert!(trim_chars(&"   ".chars().collect()).is_empty());
}

#[test]
fn locations_are_clipped_into_their_buffers() {
    let origin: Vec<Vec<char>> = vec!["abc".chars().collect()];
    let target: Vec<Vec<char>> = vec!["x".chars().collect(), "yz".chars().collect()];
    let range = |a: (u32, u32), b: (u32, u32)| LspRange { start: pos(a.0, a.1), end: pos(b.0, b.1) };
    let link = location_link_from_lsp(Some(range((0, 1), (0, 9))), "origin", &origin, range((1, 0), (1, 5)), "target", &target);
    let o = link.origin.unwrap();
    assert_eq!(o.buffer, "origin");
    assert_eq!(o.range.end.point, pos(0, 3));
    assert_eq!(link.target.range.end, Anchor { point: pos(1, 2), bias: Bias::Left });
    assert_eq!(link.target.range.start, Anchor { point: pos(1, 0), bias: Bias::Right });
    let r = anchor_range_from_lsp(range((5, 0), (5, 0)), &target);
    assert_eq!(r.start.point, pos(1, 2));
    let item = call_hierarchy_item_from_lsp(
        LspCallHierarchyItem { name: "f".to_string(), kind: 12u8, detail: None, uri: "file:///t".to_string(), range: range((0, 0), (1, 2)), selection_range: range((1, 0), (1, 1)), data: None::<u8> },
        LanguageServerId(3),
        7u32,
        &target,
    );
    assert_eq!(item.buffer, 7);
    assert_eq!(item.selection_range.end.point, pos(1, 1));
}

#[test]
fn cloud_values() {
    assert_eq!(ZED_SYSTEM_ID_HEADER_NAME, "x-zed-system-id");
    let settings = SystemSettings { selected_organization_id: Some(OrganizationId("org".to_string())) };
    assert_eq!(settings.clone(), settings);
    assert_eq!(SystemSettings::default().selected_organization_id, None);
}

fn range(a: (u32, u32), b: (u32, u32)) -> LspRange {
    LspRange { start: pos(a.0, a.1), end: pos(b.0, b.1) }
}

fn call_item(name: &str, uri: &str) -> LspCallHierarchyItem<u8, u8> {
    LspCallHierarchyItem {
        name: name.to_string(),
        kind: 12,
        detail: None,
        uri: uri.to_string(),
        range: range((0, 0), (9, 0)),
        selection_range: range((0, 3), (0, 4)),
        data: None,
    }
}

fn placed(item: &CallHierarchyItem<u32, u8, u8>) -> (u32, String, Position, Position) {
    (item.buffer, item.name.clone(), item.range.end.point, item.selection_range.start.point)
}

#[test]
fn outgoing_calls_are_placed_in_their_buffers() {
    let queried: Vec<Vec<char>> = vec!["fn main() { g(); h(); }".chars().collect()];
    let target_g: Vec<Vec<char>> = vec!["fn g() {}".chars().collect()];
    let target_h: Vec<Vec<char>> = vec!["fn h() {}".chars().collect(), "".chars().collect()];
    let request = GetOutgoingCalls { item: call_hierarchy_item_from_lsp(call_item("main", "file:///m"), LanguageServerId(2), 1u32, &queried) };
    let calls = request.response_from_lsp(
        vec![
            (LspOutgoingCall { to: call_item("g", "file:///g"), from_ranges: vec![range((0, 12), (0, 13))] }, OpenedBuffer { buffer: 5u32, lines: target_g }),
            (LspOutgoingCall { to: call_item("h", "file:///h"), from_ranges: vec![range((0, 17), (0, 18)), range((3, 0), (3, 1))] }, OpenedBuffer { buffer: 6u32, lines: target_h }),
        ],
        1u32,
        &queried,
        LanguageServerId(2),
    );
    assert_eq!(calls.len(), 2);
    assert_eq!(placed(&calls[0].to), (5, "g".to_string(), pos(0, 9), pos(0, 3)));
    assert_eq!(placed(&calls[1].to), (6, "h".to_string(), pos(1, 0), pos(0, 3)));
    assert_eq!(calls[0].to.server_id, LanguageServerId(2));
    assert_eq!(calls[1].from_ranges.len(), 2);
    assert!(calls[1].from_ranges.iter().all(|l| l.buffer == 1));
    assert_eq!(calls[1].from_ranges[0].range.start.point, pos(0, 17));
    assert_eq!(calls[1].from_ranges[1].range.start.point, pos(0, 23));
}

#[test]
fn incoming_calls_are_placed_in_the_callers_buffers() {
    let queried: Vec<Vec<char>> = vec!["fn g() {}".chars().collect()];
    let caller: Vec<Vec<char>> = vec!["fn main() { g(); }".chars().collect()];
    let request = GetIncomingCalls { item: call_hierarchy_item_from_lsp(call_item("g", "file:///g"), LanguageServerId(2), 1u32, &queried) };
    let calls = request.response_from_lsp(
        vec![(LspIncomingCall { from: call_item("main", "file:///m"), from_ranges: vec![range((0, 12), (0, 13))] }, OpenedBuffer { buffer: 8u32, lines: caller })],
        LanguageServerId(2),
    );
    assert_eq!(calls.len(), 1);
    assert_eq!(placed(&calls[0].from), (8, "main".to_string(), pos(0, 18), pos(0, 3)));
    assert_eq!(calls[0].from_ranges.len(), 1);
    assert_eq!(calls[0].from_ranges[0].buffer, 8);
    assert_eq!(calls[0].from_ranges[0].range.end.point, pos(0, 13));
    assert!(request.response_from_lsp(Vec::new(), LanguageServerId(2)).is_empty());
}
