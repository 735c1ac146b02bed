//! What a language server announces it supports, and which requests that allows.

use vstd::prelude::*;
use crate::code_actions::{CodeActionKind, any_kind_supported, any_requested_kind_supported};
use crate::text::{chars_of, find_first, contains_seq};
use crate::code_actions::GetCodeActions;
use crate::completions::GetCompletions;
use crate::document_ranges::LinkedEditingRange;
use crate::inlay_hints::InlayHints;
use crate::lsp_items::{GetCodeLens, PrepareRename, PrepareRenameResponse};
use crate::requests::OnTypeFormatting;

verus! {

/// A capability given either as a flag or as an options object; an options object
/// enables the capability.
#[derive(Clone, Copy, Debug, PartialEq, Eq)]
pub enum BoolOrOptions {
    Simple(bool),
    Options,
}

#[derive(Clone, Copy, Debug, Default, PartialEq, Eq)]
pub struct RenameOptions {
    pub prepare_provider: Option<bool>,
}

#[derive(Clone, Copy, Debug, PartialEq, Eq)]
pub enum RenameProvider {
    Simple(bool),
    Options(RenameOptions),
}

#[derive(Clone, Copy, Debug, Default, PartialEq, Eq)]
pub struct ResolveOptions {
    pub resolve_provider: Option<bool>,
}

#[derive(Clone, Debug, PartialEq, Eq)]
pub enum CodeActionProvider {
    Simple(bool),
    Options { code_action_kinds: Option<Vec<CodeActionKind>>, resolve_provider: Option<bool> },
}

#[derive(Clone, Debug, Default, PartialEq, Eq)]
pub struct OnTypeFormattingOptions {
    pub first_trigger_character: String,
    pub more_trigger_character: Option<Vec<String>>,
}

/// Inlay hint support: a flag, or options (plain or with registration) that may
/// announce resolve support.
#[derive(Clone, Copy, Debug, PartialEq, Eq)]
pub enum InlayHintProvider {
    Simple(bool),
    Options(ResolveOptions),
}

#[derive(Clone, Copy, Debug, PartialEq, Eq)]
pub enum SemanticTokensFull {
    Bool(bool),
    Delta { delta: Option<bool> },
}

#[derive(Clone, Copy, Debug, Default, PartialEq, Eq)]
pub struct SemanticTokensOptions {
    pub full: Option<SemanticTokensFull>,
}

/// The capabilities a language server announced, as far as requests depend on them.
#[derive(Clone, Debug, Default, PartialEq, Eq)]
pub struct ServerCapabilities {
    pub call_hierarchy_provider: Option<BoolOrOptions>,
    pub rename_provider: Option<RenameProvider>,
    pub definition_provider: Option<BoolOrOptions>,
    pub declaration_provider: Option<BoolOrOptions>,
    pub implementation_provider: Option<BoolOrOptions>,
    pub type_definition_provider: Option<BoolOrOptions>,
    pub references_provider: Option<BoolOrOptions>,
    pub document_highlight_provider: Option<BoolOrOptions>,
    pub document_symbol_provider: Option<BoolOrOptions>,
    pub signature_help_provider: bool,
    pub hover_provider: Option<BoolOrOptions>,
    pub completion_provider: Option<ResolveOptions>,
    pub code_action_provider: Option<CodeActionProvider>,
    pub document_on_type_formatting_provider: Option<OnTypeFormattingOptions>,
    pub inlay_hint_provider: Option<InlayHintProvider>,
    pub semantic_tokens_provider: Option<SemanticTokensOptions>,
    pub code_lens_provider: Option<ResolveOptions>,
    pub linked_editing_range_provider: Option<BoolOrOptions>,
    pub diagnostic_provider: bool,
    pub color_provider: Option<BoolOrOptions>,
    pub folding_range_provider: Option<BoolOrOptions>,
    pub document_link_provider: bool,
    pub execute_commands: Option<Vec<String>>,
}

/// A server's capabilities together with the code action kinds its adapter knows it supports.
#[derive(Clone, Debug, Default, PartialEq, Eq)]
pub struct AdapterServerCapabilities {
    pub server_capabilities: ServerCapabilities,
    pub code_action_kinds: Option<Vec<CodeActionKind>>,
}

/// A flag-or-options capability is on when it is present and not `false`.
pub open spec fn enabled(c: Option<BoolOrOptions>) -> bool {
    match c {
        Some(BoolOrOptions::Simple(b)) => b,
        Some(BoolOrOptions::Options) => true,
        None => false,
    }
}

pub fn is_enabled(c: Option<BoolOrOptions>) -> (b: bool)
    ensures
        b == enabled(c),
{
    match c {
        Some(BoolOrOptions::Simple(b)) => b,
        Some(BoolOrOptions::Options) => true,
        None => false,
    }
}

/// The requests whose capability check depends on the server capabilities alone.
#[derive(Clone, Copy, Debug, PartialEq, Eq)]
pub enum LspRequestKind {
    PrepareCallHierarchy,
    IncomingCalls,
    OutgoingCalls,
    PrepareRename,
    Rename,
    Definitions,
    EditPredictionDefinitions,
    Declarations,
    Implementations,
    TypeDefinitions,
    EditPredictionTypeDefinitions,
    References,
    DocumentHighlights,
    DocumentSymbols,
    SignatureHelp,
    Hover,
    Completions,
    InlayHints,
    SemanticTokensFull,
    SemanticTokensDelta,
    CodeLens,
    LinkedEditingRange,
    DocumentDiagnostics,
    DocumentColor,
    FoldingRanges,
    DocumentLinks,
    ExpandAbbreviation,
}

pub open spec fn rename_enabled(c: Option<RenameProvider>) -> bool {
    match c {
        Some(RenameProvider::Simple(b)) => b,
        Some(RenameProvider::Options(_)) => true,
        None => false,
    }
}

pub open spec fn full_tokens_enabled(c: Option<SemanticTokensOptions>) -> bool {
    match c {
        Some(opts) => match opts.full {
            Some(SemanticTokensFull::Bool(b)) => b,
            Some(SemanticTokensFull::Delta { .. }) => true,
            None => false,
        },
        None => false,
    }
}

/// Delta requests need `full: { delta: true }`; `full: true` announces no delta support.
pub open spec fn delta_tokens_enabled(c: Option<SemanticTokensOptions>) -> bool {
    match c {
        Some(opts) => match opts.full {
            Some(SemanticTokensFull::Delta { delta }) => delta == Some(true),
            _ => false,
        },
        None => false,
    }
}

pub open spec fn inlay_hints_enabled(c: Option<InlayHintProvider>) -> bool {
    match c {
        Some(InlayHintProvider::Simple(b)) => b,
        Some(InlayHintProvider::Options(_)) => true,
        None => false,
    }
}

/// Whether the server capabilities allow the request.
pub open spec fn spec_check_capabilities(kind: LspRequestKind, caps: ServerCapabilities) -> bool {
    match kind {
        LspRequestKind::PrepareCallHierarchy => enabled(caps.call_hierarchy_provider),
        LspRequestKind::IncomingCalls => true,
        LspRequestKind::OutgoingCalls => true,
        LspRequestKind::PrepareRename => rename_enabled(caps.rename_provider),
        LspRequestKind::Rename => rename_enabled(caps.rename_provider),
        LspRequestKind::Definitions => enabled(caps.definition_provider),
        LspRequestKind::EditPredictionDefinitions => enabled(caps.definition_provider),
        LspRequestKind::Declarations => enabled(caps.declaration_provider),
        LspRequestKind::Implementations => enabled(caps.implementation_provider),
        LspRequestKind::TypeDefinitions => enabled(caps.type_definition_provider),
        LspRequestKind::EditPredictionTypeDefinitions => enabled(caps.type_definition_provider),
        LspRequestKind::References => enabled(caps.references_provider),
        LspRequestKind::DocumentHighlights => enabled(caps.document_highlight_provider),
        LspRequestKind::DocumentSymbols => enabled(caps.document_symbol_provider),
        LspRequestKind::SignatureHelp => caps.signature_help_provider,
        LspRequestKind::Hover => enabled(caps.hover_provider),
        LspRequestKind::Completions => caps.completion_provider is Some,
        LspRequestKind::InlayHints => inlay_hints_enabled(caps.inlay_hint_provider),
        LspRequestKind::SemanticTokensFull => full_tokens_enabled(caps.semantic_tokens_provider),
        LspRequestKind::SemanticTokensDelta => delta_tokens_enabled(caps.semantic_tokens_provider),
        LspRequestKind::CodeLens => caps.code_lens_provider is Some,
        LspRequestKind::LinkedEditingRange => enabled(caps.linked_editing_range_provider),
        LspRequestKind::DocumentDiagnostics => caps.diagnostic_provider,
        LspRequestKind::DocumentColor => enabled(caps.color_provider),
        LspRequestKind::FoldingRanges => enabled(caps.folding_range_provider),
        LspRequestKind::DocumentLinks => caps.document_link_provider,
        LspRequestKind::ExpandAbbreviation => true,
    }
}

/// Whether a server with these capabilities can answer the request.
pub fn check_capabilities(kind: LspRequestKind, caps: &ServerCapabilities) -> (b: bool)
    ensures
        b == spec_check_capabilities(kind, *caps),
{
    match kind {
        LspRequestKind::PrepareCallHierarchy => is_enabled(caps.call_hierarchy_provider),
        LspRequestKind::IncomingCalls => true,
        LspRequestKind::OutgoingCalls => true,
        LspRequestKind::PrepareRename | LspRequestKind::Rename => match caps.rename_provider {
            Some(RenameProvider::Simple(b)) => b,
            Some(RenameProvider::Options(_)) => true,
            None => false,
        },
        LspRequestKind::Definitions | LspRequestKind::EditPredictionDefinitions => is_enabled(caps.definition_provider),
        LspRequestKind::Declarations => is_enabled(caps.declaration_provider),
        LspRequestKind::Implementations => is_enabled(caps.implementation_provider),
        LspRequestKind::TypeDefinitions | LspRequestKind::EditPredictionTypeDefinitions => is_enabled(caps.type_definition_provider),
        LspRequestKind::References => is_enabled(caps.references_provider),
        LspRequestKind::DocumentHighlights => is_enabled(caps.document_highlight_provider),
        LspRequestKind::DocumentSymbols => is_enabled(caps.document_symbol_provider),
        LspRequestKind::SignatureHelp => caps.signature_help_provider,
        LspRequestKind::Hover => is_enabled(caps.hover_provider),
        LspRequestKind::Completions => caps.completion_provider.is_some(),
        LspRequestKind::InlayHints => InlayHints::check_capabilities(caps),
        LspRequestKind::SemanticTokensFull => match caps.semantic_tokens_provider {
            Some(opts) => match opts.full {
                Some(SemanticTokensFull::Bool(b)) => b,
                Some(SemanticTokensFull::Delta { .. }) => true,
                None => false,
            },
            None => false,
        },
        LspRequestKind::SemanticTokensDelta => match caps.semantic_tokens_provider {
            Some(opts) => match opts.full {
                Some(SemanticTokensFull::Delta { delta }) => match delta {
                    Some(d) => d,
                    None => false,
                },
                _ => false,
            },
            None => false,
        },
        LspRequestKind::CodeLens => caps.code_lens_provider.is_some(),
        LspRequestKind::LinkedEditingRange => LinkedEditingRange::check_server_capabilities(caps),
        LspRequestKind::DocumentDiagnostics => caps.diagnostic_provider,
        LspRequestKind::DocumentColor => is_enabled(caps.color_provider),
        LspRequestKind::FoldingRanges => is_enabled(caps.folding_range_provider),
        LspRequestKind::DocumentLinks => caps.document_link_provider,
        LspRequestKind::ExpandAbbreviation => true,
    }
}





/// A resolve flag counts when it is present and set.
pub open spec fn resolves(o: Option<ResolveOptions>) -> bool {
    match o {
        Some(opts) => opts.resolve_provider == Some(true),
        None => false,
    }
}

fn resolve_flag(o: Option<ResolveOptions>) -> (b: bool)
    ensures
        b == resolves(o),
{
    match o {
        Some(opts) => match opts.resolve_provider {
            Some(r) => r,
            None => false,
        },
        None => false,
    }
}





pub open spec fn spec_can_resolve_inlays(caps: ServerCapabilities) -> bool {
    match caps.inlay_hint_provider {
        Some(InlayHintProvider::Options(opts)) => opts.resolve_provider == Some(true),
        _ => false,
    }
}



pub open spec fn spec_can_resolve_actions(caps: ServerCapabilities) -> bool {
    match caps.code_action_provider {
        Some(CodeActionProvider::Options { resolve_provider, .. }) => resolve_provider == Some(true),
        _ => false,
    }
}



/// The code action kinds the server supports: those of its options when it lists them,
/// otherwise those its adapter knows of.
pub open spec fn spec_supported_code_action_kinds(caps: AdapterServerCapabilities) -> Option<Vec<CodeActionKind>> {
    match caps.server_capabilities.code_action_provider {
        Some(CodeActionProvider::Options { code_action_kinds: Some(kinds), .. }) => Some(kinds),
        _ => caps.code_action_kinds,
    }
}



/// A code action request is allowed when the server announces code actions and, when both
/// the requested kinds and the supported kinds are known, some requested kind is supported.
pub open spec fn spec_code_actions_allowed(kinds: Option<Vec<CodeActionKind>>, caps: AdapterServerCapabilities) -> bool {
    match caps.server_capabilities.code_action_provider {
        None => false,
        Some(CodeActionProvider::Simple(false)) => false,
        _ => match (kinds, spec_supported_code_action_kinds(caps)) {
            (Some(requested), Some(supported)) => any_kind_supported(requested@, supported@),
            _ => true,
        },
    }
}



/// The trigger occurs in one of the server's on-type formatting trigger strings.
pub open spec fn spec_supports_on_type_formatting(trigger: Seq<char>, caps: ServerCapabilities) -> bool {
    match caps.document_on_type_formatting_provider {
        None => false,
        Some(opts) => contains_seq(opts.first_trigger_character@, trigger) || match opts.more_trigger_character {
            Some(more) => exists|i: int| 0 <= i < more.len() && #[trigger] contains_seq(more@[i]@, trigger),
            None => false,
        },
    }
}

fn str_contains(hay: &String, needle: &Vec<char>) -> (b: bool)
    ensures
        b == contains_seq(hay@, needle@),
{
    let h = chars_of(hay.as_str());
    match find_first(&h, needle) {
        Some(_) => true,
        None => false,
    }
}



/// Whether some server of the list can prepare renames.
pub open spec fn some_server_prepares_renames(caps: Seq<AdapterServerCapabilities>) -> bool {
    exists|i: int| 0 <= i < caps.len() && #[trigger] caps[i].server_capabilities.rename_provider
        == Some(RenameProvider::Options(RenameOptions { prepare_provider: Some(true) }))
}



impl InlayHints {
    /// Whether the server announces inlay hints.
    pub fn check_capabilities(caps: &ServerCapabilities) -> (b: bool)
        ensures
            b == inlay_hints_enabled(caps.inlay_hint_provider),
    {
        match caps.inlay_hint_provider {
            Some(InlayHintProvider::Simple(b)) => b,
            Some(InlayHintProvider::Options(_)) => true,
            None => false,
        }
    }

    /// Whether inlay hints can be resolved lazily: only an options object can say so.
    pub fn can_resolve_inlays(caps: &ServerCapabilities) -> (b: bool)
        ensures
            b == spec_can_resolve_inlays(*caps),
    {
        match caps.inlay_hint_provider {
            Some(InlayHintProvider::Options(opts)) => resolve_flag(Some(opts)),
            _ => false,
        }
    }
}

impl LinkedEditingRange {
    /// Whether the server announces linked editing ranges.
    pub fn check_server_capabilities(caps: &ServerCapabilities) -> (b: bool)
        ensures
            b == enabled(caps.linked_editing_range_provider),
    {
        match caps.linked_editing_range_provider {
            None => false,
            Some(BoolOrOptions::Simple(false)) => false,
            Some(_) => true,
        }
    }
}

impl GetCompletions {
    /// Whether completion items can be resolved lazily.
    pub fn can_resolve_completions(caps: &ServerCapabilities) -> (b: bool)
        ensures
            b == resolves(caps.completion_provider),
    {
        resolve_flag(caps.completion_provider)
    }
}

impl GetCodeLens {
    /// Whether code lenses can be resolved lazily.
    pub fn can_resolve_lens(caps: &ServerCapabilities) -> (b: bool)
        ensures
            b == resolves(caps.code_lens_provider),
    {
        resolve_flag(caps.code_lens_provider)
    }
}

impl GetCodeActions {
    /// Whether code actions can be resolved lazily: only an options object can say so.
    pub fn can_resolve_actions(caps: &ServerCapabilities) -> (b: bool)
        ensures
            b == spec_can_resolve_actions(*caps),
    {
        match &caps.code_action_provider {
            Some(CodeActionProvider::Options { resolve_provider, .. }) => match resolve_provider {
                Some(r) => *r,
                None => false,
            },
            _ => false,
        }
    }

    /// The code action kinds the server supports, if known.
    pub fn supported_code_action_kinds(caps: &AdapterServerCapabilities) -> (r: Option<&Vec<CodeActionKind>>)
        ensures
            match r {
                Some(v) => spec_supported_code_action_kinds(*caps) == Some(*v),
                None => spec_supported_code_action_kinds(*caps) is None,
            },
    {
        match &caps.server_capabilities.code_action_provider {
            Some(CodeActionProvider::Options { code_action_kinds: Some(kinds), .. }) => Some(kinds),
            _ => match &caps.code_action_kinds {
                Some(kinds) => Some(kinds),
                None => None,
            },
        }
    }

    /// Whether this request, for its kinds, may go to a server with these capabilities.
    pub fn check_capabilities(&self, caps: &AdapterServerCapabilities) -> (b: bool)
        ensures
            b == spec_code_actions_allowed(self.kinds, *caps),
    {
        match &caps.server_capabilities.code_action_provider {
            None => false,
            Some(CodeActionProvider::Simple(false)) => false,
            _ => match (&self.kinds, GetCodeActions::supported_code_action_kinds(caps)) {
                (Some(requested), Some(supported)) => any_requested_kind_supported(requested, supported),
                _ => true,
            },
        }
    }
}

impl OnTypeFormatting {
    /// Whether typing `trigger` should ask the server to format.
    pub fn supports_on_type_formatting(trigger: &str, caps: &ServerCapabilities) -> (b: bool)
        ensures
            b == spec_supports_on_type_formatting(trigger@, *caps),
    {
        let opts = match &caps.document_on_type_formatting_provider {
            None => return false,
            Some(opts) => opts,
        };
        let t = chars_of(trigger);
        if str_contains(&opts.first_trigger_character, &t) {
            return true;
        }
        match &opts.more_trigger_character {
            None => false,
            Some(more) => {
                let mut i: usize = 0;
                while i < more.len()
                    invariant
                        i <= more@.len(),
                        t@ == trigger@,
                        caps.document_on_type_formatting_provider == Some(*opts),
                        opts.more_trigger_character == Some(*more),
                        !contains_seq(opts.first_trigger_character@, trigger@),
                        forall|a: int| 0 <= a < i ==> !#[trigger] contains_seq(more@[a]@, trigger@),
                    decreases more@.len() - i,
                {
                    if str_contains(&more[i], &t) {
                        proof {
                            let ghost m = opts.more_trigger_character.unwrap();
                            assert(m == *more);
                            assert(contains_seq(m@[i as int]@, trigger@));
                        }
                        return true;
                    }
                    i = i + 1;
                }
                false
            },
        }
    }
}

impl PrepareRename {
    /// The answer given without asking any server: when no server can prepare renames,
    /// only unprepared renames are possible; otherwise a server must be asked.
    pub fn response_without_request(&self, caps: &Vec<AdapterServerCapabilities>) -> (r: Option<PrepareRenameResponse>)
        ensures
            r == if some_server_prepares_renames(caps@) {
                None
            } else {
                Some(PrepareRenameResponse::OnlyUnpreparedRenameSupported)
            },
    {
        let mut i: usize = 0;
        while i < caps.len()
            invariant
                i <= caps@.len(),
                forall|a: int| 0 <= a < i ==> #[trigger] caps@[a].server_capabilities.rename_provider
                    != Some(RenameProvider::Options(RenameOptions { prepare_provider: Some(true) })),
            decreases caps@.len() - i,
        {
            match caps[i].server_capabilities.rename_provider {
                Some(RenameProvider::Options(RenameOptions { prepare_provider: Some(true) })) => return None,
                _ => {},
            }
            i = i + 1;
        }
        Some(PrepareRenameResponse::OnlyUnpreparedRenameSupported)
    }
}

} // verus!
