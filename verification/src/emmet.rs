//! Expanding Emmet abbreviations through the Emmet language server.

use vstd::prelude::*;
use crate::server::LanguageServerId;

verus! {

/// The name of the language server that expands Emmet abbreviations.
pub const EMMET_SERVER_NAME: &'static str = "emmet-language-server";

/// The request that expands an abbreviation.
pub struct LspExpandAbbreviation;

impl LspExpandAbbreviation {
    /// The request's method name.
    pub const METHOD: &'static str = "emmet/expandAbbreviation";
}

#[derive(Debug, Default, PartialEq, Eq)]
pub struct EmmetOutputOptions {
    pub indent: String,
    pub base_indent: String,
    pub comment_enabled: Option<bool>,
    pub bem_enabled: Option<bool>,
    pub inline_break: Option<u32>,
}

#[derive(Debug, PartialEq, Eq)]
pub struct ExpandAbbreviationOptions {
    pub text: Option<Vec<String>>,
    pub options: EmmetOutputOptions,
}

#[derive(Debug, PartialEq, Eq)]
pub struct ExpandAbbreviationParams {
    pub abbreviation: String,
    pub language: String,
    pub options: ExpandAbbreviationOptions,
}

/// An abbreviation to expand, with the text it wraps and the output settings.
#[derive(Debug)]
pub struct ExpandAbbreviation {
    pub abbreviation: String,
    pub text: Option<Vec<String>>,
    pub language: String,
    pub server_id: LanguageServerId,
    pub indent: String,
    pub base_indent: String,
    pub comment_filter: bool,
    pub bem_filter: bool,
}

/// Why an expansion request could not be made.
#[derive(Debug, PartialEq, Eq)]
pub enum ExpandAbbreviationError {
    /// The server that would be asked is not the Emmet server.
    WrongServer { server_name: String },
}

impl ExpandAbbreviationError {
    pub open spec fn spec_message(&self) -> Seq<char> {
        match self {
            ExpandAbbreviationError::WrongServer { server_name } =>
                "cannot expand Emmet abbreviations with the "@ + server_name@ + " server"@,
        }
    }

    /// The error's text.
    pub fn message(&self) -> (m: String)
        ensures
            m@ == self.spec_message(),
    {
        match self {
            ExpandAbbreviationError::WrongServer { server_name } => {
                let mut m = String::new();
                m.append("cannot expand Emmet abbreviations with the ");
                m.append(server_name.as_str());
                m.append(" server");
                proof {
                    assert(m@ =~= self.spec_message());
                }
                m
            },
        }
    }
}

/// A copy of a list of strings.
pub fn clone_strings(v: &Vec<String>) -> (r: Vec<String>)
    ensures
        r@ == v@,
{
    let mut r: Vec<String> = Vec::new();
    let mut i: usize = 0;
    while i < v.len()
        invariant
            i <= v@.len(),
            r@ == v@.take(i as int),
        decreases v@.len() - i,
    {
        r.push(v[i].clone());
        proof {
            assert(v@.take(i as int).push(v@[i as int]) =~= v@.take(i + 1));
        }
        i = i + 1;
    }
    proof {
        assert(v@.take(v@.len() as int) =~= v@);
    }
    r
}

fn clone_opt_strings(v: &Option<Vec<String>>) -> (r: Option<Vec<String>>)
    ensures
        match (r, *v) {
            (Some(a), Some(b)) => a@ == b@,
            (None, None) => true,
            _ => false,
        },
{
    match v {
        Some(v) => Some(clone_strings(v)),
        None => None,
    }
}

/// The wrapped text spans several lines.
pub open spec fn is_multiline(text: Option<Vec<String>>) -> bool {
    match text {
        Some(t) => t.len() > 1,
        None => false,
    }
}

/// `params` asks the Emmet server to expand the abbreviation with its settings: filters
/// and the inline break are sent only when on.
pub open spec fn expansion_params(cmd: ExpandAbbreviation, params: ExpandAbbreviationParams) -> bool {
    &&& params.abbreviation == cmd.abbreviation
    &&& params.language == cmd.language
    &&& match (params.options.text, cmd.text) {
        (Some(a), Some(b)) => a@ == b@,
        (None, None) => true,
        _ => false,
    }
    &&& params.options.options.indent == cmd.indent
    &&& params.options.options.base_indent == cmd.base_indent
    &&& params.options.options.comment_enabled == if cmd.comment_filter { Some(true) } else { None }
    &&& params.options.options.bem_enabled == if cmd.bem_filter { Some(true) } else { None }
    &&& params.options.options.inline_break == if is_multiline(cmd.text) { Some(1u32) } else { None }
}

impl ExpandAbbreviation {
    /// The request arguments, if the server to ask (named `server_name`) is the Emmet server.
    pub fn to_lsp(&self, server_name: &str) -> (r: Result<ExpandAbbreviationParams, ExpandAbbreviationError>)
        ensures
            match r {
                Ok(params) => server_name@ == EMMET_SERVER_NAME@ && expansion_params(*self, params),
                Err(e) => server_name@ != EMMET_SERVER_NAME@ && e == (ExpandAbbreviationError::WrongServer { server_name: e->server_name })
                    && e->server_name@ == server_name@,
            },
    {
        let name = String::from_str(server_name);
        let expected = String::from_str(EMMET_SERVER_NAME);
        if !(name == expected) {
            return Err(ExpandAbbreviationError::WrongServer { server_name: name });
        }
        let multiline = match &self.text {
            Some(text) => text.len() > 1,
            None => false,
        };
        Ok(ExpandAbbreviationParams {
            abbreviation: self.abbreviation.clone(),
            language: self.language.clone(),
            options: ExpandAbbreviationOptions {
                text: clone_opt_strings(&self.text),
                options: EmmetOutputOptions {
                    indent: self.indent.clone(),
                    base_indent: self.base_indent.clone(),
                    comment_enabled: if self.comment_filter { Some(true) } else { None },
                    bem_enabled: if self.bem_filter { Some(true) } else { None },
                    inline_break: if multiline { Some(1) } else { None },
                },
            },
        })
    }

    /// The expansion, unless the server returned none or an empty one.
    pub fn response_from_lsp(self, message: Option<String>) -> (r: Option<String>)
        ensures
            r == match message {
                Some(m) => if m@.len() == 0 { None } else { Some(m) },
                None => None,
            },
    {
        match message {
            Some(m) => if m.as_str().is_empty() { None } else { Some(m) },
            None => None,
        }
    }
}

} // verus!
