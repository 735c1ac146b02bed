//! Arguments of position-based requests to a language server: references, renames and
//! formatting while typing, and the formatting options taken from language settings.

use vstd::prelude::*;
use crate::inlay_hints::Position;

verus! {

/// A position in the document with the given URI.
#[derive(Debug, PartialEq, Eq)]
pub struct TextDocumentPositionParams {
    pub uri: String,
    pub position: Position,
}

/// The position arguments of a request: the document's URI and the position.
pub fn make_lsp_text_document_position(uri: String, position: Position) -> (p: TextDocumentPositionParams)
    ensures
        p.uri == uri,
        p.position == position,
{
    TextDocumentPositionParams { uri, position }
}

/// The settings of a language that formatting reads.
#[derive(Debug, Clone, Copy, PartialEq, Eq, Structural)]
pub struct FormattingSettings {
    /// At least 1.
    pub tab_size: u32,
    pub hard_tabs: bool,
    pub remove_trailing_whitespace_on_save: bool,
    pub ensure_final_newline_on_save: bool,
}

/// Formatting options of the protocol.
#[derive(Debug, Clone, Copy, PartialEq, Eq, Structural)]
pub struct FormattingOptions {
    pub tab_size: u32,
    pub insert_spaces: bool,
    pub trim_trailing_whitespace: Option<bool>,
    pub insert_final_newline: Option<bool>,
    pub trim_final_newlines: Option<bool>,
}

/// The formatting options for a language: its tab size, spaces unless it uses hard
/// tabs, trailing whitespace trimmed as on save, and a final newline inserted (and
/// extra ones trimmed) when the language ensures one on save.
pub fn lsp_formatting_options(settings: &FormattingSettings) -> (o: FormattingOptions)
    ensures
        o.tab_size == settings.tab_size,
        o.insert_spaces == !settings.hard_tabs,
        o.trim_trailing_whitespace == Some(settings.remove_trailing_whitespace_on_save),
        o.trim_final_newlines == Some(settings.ensure_final_newline_on_save),
        o.insert_final_newline == Some(settings.ensure_final_newline_on_save),
{
    FormattingOptions {
        tab_size: settings.tab_size,
        insert_spaces: !settings.hard_tabs,
        trim_trailing_whitespace: Some(settings.remove_trailing_whitespace_on_save),
        insert_final_newline: Some(settings.ensure_final_newline_on_save),
        trim_final_newlines: Some(settings.ensure_final_newline_on_save),
    }
}

/// A request for the references of the symbol at a position.
#[derive(Debug, Clone, Copy)]
pub struct GetReferences {
    pub position: Position,
}

#[derive(Debug, PartialEq, Eq)]
pub struct ReferenceParams {
    pub text_document_position: TextDocumentPositionParams,
    pub include_declaration: bool,
}

impl GetReferences {
    /// The request arguments: the position in the document, asking for the declaration too.
    pub fn to_lsp(&self, uri: String) -> (p: ReferenceParams)
        ensures
            p.text_document_position.uri == uri,
            p.text_document_position.position == self.position,
            p.include_declaration,
    {
        ReferenceParams {
            text_document_position: make_lsp_text_document_position(uri, self.position),
            include_declaration: true,
        }
    }
}

/// A request to format the document after a character was typed.
#[derive(Debug)]
pub struct OnTypeFormatting {
    pub position: Position,
    pub trigger: String,
    pub options: FormattingOptions,
    pub push_to_history: bool,
}

#[derive(Debug, PartialEq, Eq)]
pub struct DocumentOnTypeFormattingParams {
    pub text_document_position: TextDocumentPositionParams,
    pub ch: String,
    pub options: FormattingOptions,
}

impl OnTypeFormatting {
    /// The request arguments: the position in the document, the typed character and the
    /// formatting options.
    pub fn to_lsp(&self, uri: String) -> (p: DocumentOnTypeFormattingParams)
        ensures
            p.text_document_position.uri == uri,
            p.text_document_position.position == self.position,
            p.ch@ == self.trigger@,
            p.options == self.options,
    {
        DocumentOnTypeFormattingParams {
            text_document_position: make_lsp_text_document_position(uri, self.position),
            ch: self.trigger.clone(),
            options: self.options,
        }
    }
}

/// A request to rename the symbol at a position.
#[derive(Debug)]
pub struct PerformRename {
    pub position: Position,
    pub new_name: String,
    pub push_to_history: bool,
}

#[derive(Debug, PartialEq, Eq)]
pub struct RenameParams {
    pub text_document_position: TextDocumentPositionParams,
    pub new_name: String,
}

impl PerformRename {
    /// The request arguments: the position in the document and the new name.
    pub fn to_lsp(&self, uri: String) -> (p: RenameParams)
        ensures
            p.text_document_position.uri == uri,
            p.text_document_position.position == self.position,
            p.new_name@ == self.new_name@,
    {
        RenameParams {
            text_document_position: make_lsp_text_document_position(uri, self.position),
            new_name: self.new_name.clone(),
        }
    }
}

} // verus!
