//! Code action kinds, the code-action capability check, and the filtering of the
//! actions a server returns.

use vstd::prelude::*;
use crate::text::{chars_of, starts_with, is_prefix_of};
use crate::server::LanguageServerId;
use crate::vec_util::reversed;
use crate::buffer::AnchorRange;
use crate::lsp_responses::LspRange;

verus! {

/// A code action kind such as `quickfix` or `refactor.extract`.
#[derive(Clone, Debug, PartialEq, Eq, Hash)]
pub struct CodeActionKind(pub String);

/// `actual` is `requested` or one of its sub-kinds (`requested` followed by `.` and more).
pub open spec fn kind_matches(requested: Seq<char>, actual: Seq<char>) -> bool {
    ||| actual == requested
    ||| is_prefix_of(requested, actual) && actual.len() > requested.len() && actual[requested.len() as int] == '.'
}

/// Whether `actual` is the kind `requested` or a kind below it in the hierarchy.
pub fn code_action_kind_matches(requested: &CodeActionKind, actual: &CodeActionKind) -> (b: bool)
    ensures
        b == kind_matches(requested.0@, actual.0@),
{
    let r = chars_of(requested.0.as_str());
    let a = chars_of(actual.0.as_str());
    if starts_with(&a, &r) {
        if a.len() == r.len() {
            proof {
                assert(a@ =~= a@.take(r@.len() as int));
            }
            true
        } else {
            a[r.len()] == '.'
        }
    } else {
        proof {
            if a@ == r@ {
                assert(a@.take(r@.len() as int) =~= r@);
            }
        }
        false
    }
}

/// Some requested kind is matched by some supported kind.
pub open spec fn any_kind_supported(requested: Seq<CodeActionKind>, supported: Seq<CodeActionKind>) -> bool {
    exists|i: int, j: int|
        0 <= i < requested.len() && 0 <= j < supported.len()
            && #[trigger] kind_matches(requested[i].0@, supported[j].0@)
}

/// Whether some requested kind is matched by some supported kind.
pub fn any_requested_kind_supported(requested: &Vec<CodeActionKind>, supported: &Vec<CodeActionKind>) -> (b: bool)
    ensures
        b == any_kind_supported(requested@, supported@),
{
    let mut i: usize = 0;
    while i < requested.len()
        invariant
            i <= requested@.len(),
            forall|a: int, b: int| 0 <= a < i && 0 <= b < supported@.len() ==> !#[trigger] kind_matches(requested@[a].0@, supported@[b].0@),
        decreases requested@.len() - i,
    {
        let mut j: usize = 0;
        while j < supported.len()
            invariant
                i < requested@.len(),
                j <= supported@.len(),
                forall|b: int| 0 <= b < j ==> !#[trigger] kind_matches(requested@[i as int].0@, supported@[b].0@),
            decreases supported@.len() - j,
        {
            if code_action_kind_matches(&requested[i], &supported[j]) {
                return true;
            }
            j = j + 1;
        }
        i = i + 1;
    }
    false
}

/// Whether `kinds` matches `kind` (some requested kind is `kind` or above it).
pub open spec fn kind_requested(kinds: Seq<CodeActionKind>, kind: Seq<char>) -> bool {
    exists|i: int| 0 <= i < kinds.len() && #[trigger] kind_matches(kinds[i].0@, kind)
}

pub fn kind_is_requested(kinds: &Vec<CodeActionKind>, kind: &CodeActionKind) -> (b: bool)
    ensures
        b == kind_requested(kinds@, kind.0@),
{
    let mut i: usize = 0;
    while i < kinds.len()
        invariant
            i <= kinds@.len(),
            forall|a: int| 0 <= a < i ==> !#[trigger] kind_matches(kinds@[a].0@, kind.0@),
        decreases kinds@.len() - i,
    {
        if code_action_kind_matches(&kinds[i], kind) {
            return true;
        }
        i = i + 1;
    }
    false
}

/// Whether `s` is among `strings`.
pub open spec fn string_listed(strings: Seq<String>, s: Seq<char>) -> bool {
    exists|i: int| 0 <= i < strings.len() && #[trigger] strings[i]@ == s
}

pub fn contains_string(strings: &Vec<String>, s: &String) -> (b: bool)
    ensures
        b == string_listed(strings@, s@),
{
    let mut i: usize = 0;
    while i < strings.len()
        invariant
            i <= strings@.len(),
            forall|a: int| 0 <= a < i ==> #[trigger] strings@[a]@ != s@,
        decreases strings@.len() - i,
    {
        if strings[i] == *s {
            return true;
        }
        i = i + 1;
    }
    false
}

/// A command a server can run; `payload` holds the title and arguments.
#[derive(Debug)]
pub struct ActionCommand<C> {
    pub command: String,
    pub payload: C,
}

/// A code action; `payload` holds its title, edit and the other fields this layer passes on.
#[derive(Debug)]
pub struct LspCodeAction<A, C> {
    pub kind: Option<CodeActionKind>,
    pub command: Option<ActionCommand<C>>,
    pub payload: A,
}

/// An entry of a code action response.
#[derive(Debug)]
pub enum CodeActionOrCommand<A, C> {
    CodeAction(LspCodeAction<A, C>),
    Command(ActionCommand<C>),
}

/// The action behind a code action offered to the user.
#[derive(Debug)]
pub enum LspAction<A, C> {
    Action(LspCodeAction<A, C>),
    Command(ActionCommand<C>),
}

/// A code action offered to the user, for the requested range.
#[derive(Debug)]
pub struct CodeAction<A, C, R> {
    pub server_id: LanguageServerId,
    pub range: R,
    pub lsp_action: LspAction<A, C>,
    /// Whether the action needs no further resolve request.
    pub resolved: bool,
}

/// The kind an action is filtered by: its own kind, or `command` for a bare command.
pub open spec fn spec_action_kind<A, C>(a: LspAction<A, C>) -> Option<Seq<char>> {
    match a {
        LspAction::Action(action) => match action.kind {
            Some(k) => Some(k.0@),
            None => None,
        },
        LspAction::Command(_) => Some("command"@),
    }
}

/// An action passes the kind filter when no kinds were requested, it has no kind, or
/// some requested kind matches its kind.
pub open spec fn passes_kind_filter<A, C>(requested: Option<Vec<CodeActionKind>>, a: LspAction<A, C>) -> bool {
    match (requested, spec_action_kind(a)) {
        (Some(kinds), Some(kind)) => kind_requested(kinds@, kind),
        _ => true,
    }
}

/// What becomes of a response entry: an action whose command the server cannot run is
/// dropped, a command is kept (already resolved) only if the server can run it, and
/// either is dropped when it fails the kind filter.
pub open spec fn kept_action<A, C>(
    entry: CodeActionOrCommand<A, C>,
    available: Seq<String>,
    requested: Option<Vec<CodeActionKind>>,
) -> Option<(LspAction<A, C>, bool)> {
    let candidate = match entry {
        CodeActionOrCommand::CodeAction(a) => match a.command {
            Some(c) => if string_listed(available, c.command@) { Some((LspAction::Action(a), false)) } else { None },
            None => Some((LspAction::Action(a), false)),
        },
        CodeActionOrCommand::Command(c) => if string_listed(available, c.command@) {
            Some((LspAction::Command(c), true))
        } else {
            None
        },
    };
    match candidate {
        Some((a, resolved)) => if passes_kind_filter(requested, a) { Some((a, resolved)) } else { None },
        None => None,
    }
}

/// The code actions kept from the entries, in order.
pub open spec fn kept_actions<A, C, R>(
    entries: Seq<CodeActionOrCommand<A, C>>,
    available: Seq<String>,
    requested: Option<Vec<CodeActionKind>>,
    server_id: LanguageServerId,
    range: R,
) -> Seq<CodeAction<A, C, R>>
    decreases entries.len(),
{
    if entries.len() == 0 {
        Seq::empty()
    } else {
        let prev = kept_actions(entries.drop_last(), available, requested, server_id, range);
        match kept_action(entries.last(), available, requested) {
            Some((a, resolved)) => prev.push(CodeAction { server_id, range, lsp_action: a, resolved }),
            None => prev,
        }
    }
}

fn action_kind_passes<A, C>(requested: &Option<Vec<CodeActionKind>>, a: &LspAction<A, C>) -> (b: bool)
    ensures
        b == passes_kind_filter(*requested, *a),
{
    match requested {
        None => true,
        Some(kinds) => match a {
            LspAction::Action(action) => match &action.kind {
                None => true,
                Some(kind) => kind_is_requested(kinds, kind),
            },
            LspAction::Command(_) => {
                let kind = CodeActionKind(String::from_str("command"));
                assert(kind.0@ == "command"@);
                kind_is_requested(kinds, &kind)
            },
        },
    }
}

fn keep_action<A, C>(
    entry: CodeActionOrCommand<A, C>,
    available: &Vec<String>,
    requested: &Option<Vec<CodeActionKind>>,
) -> (r: Option<(LspAction<A, C>, bool)>)
    ensures
        r == kept_action(entry, available@, *requested),
{
    let candidate = match entry {
        CodeActionOrCommand::CodeAction(a) => {
            let runnable = match &a.command {
                Some(c) => contains_string(available, &c.command),
                None => true,
            };
            if runnable { Some((LspAction::Action(a), false)) } else { None }
        },
        CodeActionOrCommand::Command(c) => if contains_string(available, &c.command) {
            Some((LspAction::Command(c), true))
        } else {
            None
        },
    };
    match candidate {
        Some((a, resolved)) => if action_kind_passes(requested, &a) { Some((a, resolved)) } else { None },
        None => None,
    }
}

/// The code actions offered for a response: the kept entries, in the server's order,
/// each for the requested range.
pub fn code_actions_from_lsp<A, C, R: Copy>(
    actions: Option<Vec<CodeActionOrCommand<A, C>>>,
    available_commands: &Vec<String>,
    requested_kinds: &Option<Vec<CodeActionKind>>,
    server_id: LanguageServerId,
    range: R,
) -> (r: Vec<CodeAction<A, C, R>>)
    ensures
        r@ == kept_actions(
            match actions { Some(a) => a@, None => Seq::empty() },
            available_commands@,
            *requested_kinds,
            server_id,
            range,
        ),
{
    let entries = match actions {
        Some(a) => a,
        None => Vec::new(),
    };
    let ghost e0 = entries@;
    let mut rest = reversed(entries);
    let mut out: Vec<CodeAction<A, C, R>> = Vec::new();
    while rest.len() > 0
        invariant
            rest@.len() <= e0.len(),
            rest@ == e0.skip(e0.len() - rest@.len()).reverse(),
            out@ == kept_actions(e0.take(e0.len() - rest@.len()), available_commands@, *requested_kinds, server_id, range),
        decreases rest@.len(),
    {
        let ghost k = e0.len() - rest@.len();
        let entry = rest.pop().unwrap();
        proof {
            assert(entry == e0[k]);
            assert(e0.take(k + 1).drop_last() =~= e0.take(k));
            assert(e0.skip(k + 1).reverse() =~= rest@);
        }
        match keep_action(entry, available_commands, requested_kinds) {
            Some((lsp_action, resolved)) => out.push(CodeAction { server_id, range, lsp_action, resolved }),
            None => {},
        }
    }
    proof {
        assert(e0.take(e0.len() as int) =~= e0);
    }
    out
}


/// Every kind matches itself.
pub proof fn law_kind_matches_itself(kind: Seq<char>)
    ensures
        kind_matches(kind, kind),
{
}

/// Kind matching follows the hierarchy: a sub-kind of a sub-kind is a sub-kind.
pub proof fn law_kind_matches_transitive(a: Seq<char>, b: Seq<char>, c: Seq<char>)
    requires
        kind_matches(a, b),
        kind_matches(b, c),
    ensures
        kind_matches(a, c),
{
    if b != a && c != b {
        assert(c.take(a.len() as int) =~= b.take(a.len() as int));
        assert(c[a.len() as int] == b[a.len() as int]);
    }
}

/// A kind followed by `.` and anything is a sub-kind of it.
pub proof fn law_sub_kind_matches(kind: Seq<char>, rest: Seq<char>)
    ensures
        kind_matches(kind, kind + seq!['.'] + rest),
{
    let s = kind + seq!['.'] + rest;
    assert(s.take(kind.len() as int) =~= kind);
}


/// The message of a diagnostic as the protocol sends it: plain text, or markup.
#[derive(Debug, PartialEq, Eq)]
pub enum DiagnosticMessage<M> {
    String(String),
    Markup(M),
}

/// A diagnostic of the protocol; `X` holds its other fields.
#[derive(Debug, PartialEq, Eq)]
pub struct LspDiagnostic<M, X> {
    pub message: DiagnosticMessage<M>,
    pub rest: X,
}

/// A diagnostic of the buffer within the requested range: the server that reported it,
/// its protocol form, the text of its message, and whether that text uses markup.
#[derive(Debug, PartialEq, Eq)]
pub struct RangeDiagnostic<M, X> {
    pub source_server_id: LanguageServerId,
    pub diagnostic: LspDiagnostic<M, X>,
    pub message_text: String,
    pub has_markup: bool,
}

/// A request for the code actions of a range of a buffer, possibly of given kinds only.
#[derive(Debug)]
pub struct GetCodeActions {
    pub range: AnchorRange,
    pub kinds: Option<Vec<CodeActionKind>>,
}

/// The arguments of a code action request.
#[derive(Debug, PartialEq, Eq)]
pub struct CodeActionParams<M, X> {
    pub uri: String,
    pub range: LspRange,
    pub diagnostics: Vec<LspDiagnostic<M, X>>,
    pub only: Option<Vec<CodeActionKind>>,
}

/// The diagnostic sent to `target`: as it is, except that a message with markup from
/// another server is sent as plain text, since the target may not read that markup.
pub open spec fn sent_diagnostic<M, X>(d: RangeDiagnostic<M, X>, target: LanguageServerId, r: LspDiagnostic<M, X>) -> bool {
    if d.source_server_id != target && d.has_markup {
        &&& r.rest == d.diagnostic.rest
        &&& r.message matches DiagnosticMessage::String(s)
        &&& s@ == d.message_text@
    } else {
        r == d.diagnostic
    }
}

impl GetCodeActions {
    /// The request arguments for the document with the given URI, whose requested range
    /// is `range`, sent to `target` with the diagnostics within that range, in order,
    /// asking only for the requested kinds.
    pub fn to_lsp<M, X>(
        &self,
        uri: String,
        range: LspRange,
        diagnostics: Vec<RangeDiagnostic<M, X>>,
        target: LanguageServerId,
    ) -> (p: CodeActionParams<M, X>)
        ensures
            p.uri == uri,
            p.range == range,
            p.diagnostics@.len() == diagnostics@.len(),
            forall|i: int| 0 <= i < diagnostics@.len() ==> sent_diagnostic(diagnostics@[i], target, #[trigger] p.diagnostics@[i]),
            match (p.only, self.kinds) {
                (Some(a), Some(b)) => a@.len() == b@.len() && forall|i: int| 0 <= i < a@.len() ==> #[trigger] a@[i].0@ == b@[i].0@,
                (None, None) => true,
                _ => false,
            },
    {
        let ghost s = diagnostics@;
        let mut rest = reversed(diagnostics);
        let mut out: Vec<LspDiagnostic<M, X>> = Vec::new();
        while rest.len() > 0
            invariant
                rest@.len() <= s.len(),
                out@.len() == s.len() - rest@.len(),
                rest@ == s.skip(out@.len() as int).reverse(),
                forall|i: int| 0 <= i < out@.len() ==> sent_diagnostic(s[i], target, #[trigger] out@[i]),
            decreases rest@.len(),
        {
            let ghost k = out@.len() as int;
            let d = rest.pop().unwrap();
            proof {
                assert(d == s[k]);
                assert(s.skip(k + 1).reverse() =~= rest@);
            }
            let downgrade = d.source_server_id != target && d.has_markup;
            let RangeDiagnostic { source_server_id: _, diagnostic, message_text, has_markup: _ } = d;
            if downgrade {
                out.push(LspDiagnostic { message: DiagnosticMessage::String(message_text), rest: diagnostic.rest });
            } else {
                out.push(diagnostic);
            }
        }
        CodeActionParams { uri, range, diagnostics: out, only: clone_kinds(&self.kinds) }
    }
}

fn clone_kinds(kinds: &Option<Vec<CodeActionKind>>) -> (r: Option<Vec<CodeActionKind>>)
    ensures
        match (r, *kinds) {
            (Some(a), Some(b)) => a@.len() == b@.len() && forall|i: int| 0 <= i < a@.len() ==> #[trigger] a@[i].0@ == b@[i].0@,
            (None, None) => true,
            _ => false,
        },
{
    match kinds {
        None => None,
        Some(v) => {
            let mut out: Vec<CodeActionKind> = Vec::new();
            let mut i: usize = 0;
            while i < v.len()
                invariant
                    i <= v@.len(),
                    out@.len() == i,
                    forall|j: int| 0 <= j < i ==> #[trigger] out@[j].0@ == v@[j].0@,
                decreases v@.len() - i,
            {
                out.push(CodeActionKind(v[i].0.clone()));
                i = i + 1;
            }
            Some(out)
        },
    }
}

} // verus!
