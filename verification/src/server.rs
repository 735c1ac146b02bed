//! Identifiers shared by the language-server code.

use vstd::prelude::*;

verus! {

/// Identifies a running language server.
#[derive(Clone, Copy, Debug, PartialEq, Eq, Hash, Structural, PartialOrd, Ord)]
pub struct LanguageServerId(pub u64);

/// `Some` of a clone of the string, or `None`.
pub fn clone_opt_string(s: &Option<String>) -> (r: Option<String>)
    ensures
        r == *s,
{
    match s {
        Some(v) => Some(v.clone()),
        None => None,
    }
}

} // verus!
