//! Semantic token replies: a full set of tokens, or edits to the previous set.

use vstd::prelude::*;
use crate::vec_util::reversed;

verus! {

/// Tokens of the protocol: the encoded token data and the id the server gave this result.
#[derive(Debug, PartialEq, Eq)]
pub struct LspSemanticTokens {
    pub result_id: Option<String>,
    pub data: Vec<u32>,
}

/// An edit of the protocol to the previous token data.
#[derive(Debug, PartialEq, Eq)]
pub struct LspSemanticTokensEdit {
    pub start: u32,
    pub delete_count: u32,
    pub data: Option<Vec<u32>>,
}

#[derive(Debug, PartialEq, Eq)]
pub struct LspSemanticTokensDelta {
    pub result_id: Option<String>,
    pub edits: Vec<LspSemanticTokensEdit>,
}

/// A reply to a full token request.
#[derive(Debug, PartialEq, Eq)]
pub enum SemanticTokensResult {
    Tokens(LspSemanticTokens),
    Partial(Vec<u32>),
}

/// A reply to a delta token request.
#[derive(Debug, PartialEq, Eq)]
pub enum SemanticTokensFullDeltaResult {
    Tokens(LspSemanticTokens),
    TokensDelta(LspSemanticTokensDelta),
    PartialTokensDelta(Vec<LspSemanticTokensEdit>),
}

/// An edit to the previous token data: replace `delete_count` numbers at `start` by `data`.
#[derive(Debug, PartialEq, Eq)]
pub struct SemanticTokensEdit {
    pub start: u32,
    pub delete_count: u32,
    pub data: Vec<u32>,
}

/// The tokens of a reply: a full set, or edits to the previous set.
#[derive(Debug, PartialEq, Eq)]
pub enum SemanticTokensResponse {
    Full { data: Vec<u32>, result_id: Option<String> },
    Delta { edits: Vec<SemanticTokensEdit>, result_id: Option<String> },
}

impl Default for SemanticTokensResponse {
    /// No edits and no result id.
    fn default() -> (r: Self)
        ensures
            r matches SemanticTokensResponse::Delta { edits, result_id } && edits@.len() == 0 && result_id is None,
    {
        SemanticTokensResponse::Delta { edits: Vec::new(), result_id: None }
    }
}

/// The error of a token reply that carries a partial result.
#[derive(Debug, PartialEq, Eq)]
pub enum SemanticTokensError {
    PartialResult,
}

impl SemanticTokensError {
    pub fn message(&self) -> (s: &'static str)
        ensures
            s@ == "Unexpected semantic tokens response with partial result for inlay hints"@,
    {
        "Unexpected semantic tokens response with partial result for inlay hints"
    }
}

/// A request for all tokens of a document.
#[derive(Debug, Clone, Copy)]
pub struct SemanticTokensFull {
    pub for_server: Option<crate::server::LanguageServerId>,
}

/// A request for the edits since the result with the given id.
#[derive(Debug)]
pub struct SemanticTokensDelta {
    pub previous_result_id: String,
}

/// The arguments of a delta token request.
#[derive(Debug, PartialEq, Eq)]
pub struct SemanticTokensDeltaParams {
    pub uri: String,
    pub previous_result_id: Option<String>,
}

/// The response of a full token request: the tokens; an error for a partial result; no
/// edits without a reply.
pub open spec fn full_response_ok(message: Option<SemanticTokensResult>, r: SemanticTokensResponse) -> bool {
    match message {
        Some(SemanticTokensResult::Tokens(tokens)) => r matches SemanticTokensResponse::Full { data, result_id }
            && data@ == tokens.data@ && result_id == tokens.result_id,
        Some(SemanticTokensResult::Partial(_)) => false,
        None => r matches SemanticTokensResponse::Delta { edits, result_id } && edits@.len() == 0 && result_id is None,
    }
}

/// The edit with missing data read as no data.
pub open spec fn edit_from_lsp(e: LspSemanticTokensEdit, r: SemanticTokensEdit) -> bool {
    &&& r.start == e.start
    &&& r.delete_count == e.delete_count
    &&& r.data@ == match e.data { Some(d) => d@, None => Seq::empty() }
}

impl SemanticTokensFull {
    /// The tokens of a reply.
    pub fn response_from_lsp(&self, message: Option<SemanticTokensResult>) -> (r: Result<SemanticTokensResponse, SemanticTokensError>)
        ensures
            match r {
                Ok(resp) => full_response_ok(message, resp),
                Err(e) => message matches Some(SemanticTokensResult::Partial(_)) && e == SemanticTokensError::PartialResult,
            },
    {
        match message {
            Some(SemanticTokensResult::Tokens(tokens)) => Ok(SemanticTokensResponse::Full { data: tokens.data, result_id: tokens.result_id }),
            Some(SemanticTokensResult::Partial(_)) => Err(SemanticTokensError::PartialResult),
            None => Ok(SemanticTokensResponse::default()),
        }
    }
}

impl SemanticTokensDelta {
    /// The request arguments for the document with the given URI.
    pub fn to_lsp(&self, uri: String) -> (params: SemanticTokensDeltaParams)
        ensures
            params.uri == uri,
            params.previous_result_id matches Some(id) && id@ == self.previous_result_id@,
    {
        SemanticTokensDeltaParams { uri, previous_result_id: Some(self.previous_result_id.clone()) }
    }

    /// The tokens or edits of a reply.
    pub fn response_from_lsp(&self, message: Option<SemanticTokensFullDeltaResult>) -> (r: Result<SemanticTokensResponse, SemanticTokensError>)
        ensures
            match message {
                Some(SemanticTokensFullDeltaResult::Tokens(tokens)) => r matches Ok(SemanticTokensResponse::Full { data, result_id })
                    && data@ == tokens.data@ && result_id == tokens.result_id,
                Some(SemanticTokensFullDeltaResult::TokensDelta(delta)) => r matches Ok(SemanticTokensResponse::Delta { edits, result_id })
                    && result_id == delta.result_id
                    && edits@.len() == delta.edits@.len()
                    && forall|i: int| 0 <= i < edits@.len() ==> edit_from_lsp(delta.edits@[i], #[trigger] edits@[i]),
                Some(SemanticTokensFullDeltaResult::PartialTokensDelta(_)) => r == Err::<SemanticTokensResponse, SemanticTokensError>(SemanticTokensError::PartialResult),
                None => r matches Ok(SemanticTokensResponse::Delta { edits, result_id }) && edits@.len() == 0 && result_id is None,
            },
    {
        match message {
            Some(SemanticTokensFullDeltaResult::Tokens(tokens)) => Ok(SemanticTokensResponse::Full { data: tokens.data, result_id: tokens.result_id }),
            Some(SemanticTokensFullDeltaResult::TokensDelta(delta)) => {
                let ghost s = delta.edits@;
                let mut rest = reversed(delta.edits);
                let mut edits: Vec<SemanticTokensEdit> = Vec::new();
                while rest.len() > 0
                    invariant
                        rest@.len() <= s.len(),
                        edits@.len() == s.len() - rest@.len(),
                        rest@ == s.skip(edits@.len() as int).reverse(),
                        forall|i: int| 0 <= i < edits@.len() ==> edit_from_lsp(s[i], #[trigger] edits@[i]),
                    decreases rest@.len(),
                {
                    let ghost k = edits@.len() as int;
                    let e = rest.pop().unwrap();
                    proof {
                        assert(e == s[k]);
                        assert(s.skip(k + 1).reverse() =~= rest@);
                    }
                    let data = match e.data {
                        Some(d) => d,
                        None => Vec::new(),
                    };
                    edits.push(SemanticTokensEdit { start: e.start, delete_count: e.delete_count, data });
                }
                Ok(SemanticTokensResponse::Delta { edits, result_id: delta.result_id })
            },
            Some(SemanticTokensFullDeltaResult::PartialTokensDelta(_)) => Err(SemanticTokensError::PartialResult),
            None => Ok(SemanticTokensResponse::default()),
        }
    }
}

} // verus!
