//! Merging pulled diagnostics reports (document and workspace pulls) into one
//! result per document.

use vstd::prelude::*;
use crate::server::{LanguageServerId, clone_opt_string};
use crate::uri_map::{UriMap, values_of};
use crate::vec_util::reversed;

verus! {

/// The diagnostics a server reported for a document.
#[derive(Debug)]
pub enum PulledDiagnostics<D> {
    /// The server's previous result (identified by `result_id`) still holds.
    Unchanged { result_id: String },
    /// A new set of diagnostics.
    Changed { result_id: Option<String>, diagnostics: Vec<D> },
}

/// The pulled diagnostics state for one document.
#[derive(Debug)]
pub enum LspPullDiagnostics<D> {
    Default,
    Response {
        server_id: LanguageServerId,
        uri: String,
        diagnostics: PulledDiagnostics<D>,
        registration_id: Option<String>,
    },
}

/// A full report: the complete list of a document's diagnostics.
#[derive(Debug)]
pub struct FullDocumentDiagnosticReport<D> {
    pub result_id: Option<String>,
    pub items: Vec<D>,
}

/// A report that the diagnostics identified by `result_id` are still current.
#[derive(Debug)]
pub struct UnchangedDocumentDiagnosticReport {
    pub result_id: String,
}

/// A report for a related document.
#[derive(Debug)]
pub enum DocumentDiagnosticReportKind<D> {
    Full(FullDocumentDiagnosticReport<D>),
    Unchanged(UnchangedDocumentDiagnosticReport),
}

/// `d` is a changed report with the given result id and diagnostics.
pub open spec fn changed_with<D>(d: PulledDiagnostics<D>, rid: Option<String>, items: Seq<D>) -> bool {
    match d {
        PulledDiagnostics::Changed { result_id, diagnostics } => result_id == rid && diagnostics@ == items,
        _ => false,
    }
}

/// The entry after a full report for `uri` was merged into `old`:
/// a fresh entry is a changed response; an unchanged response becomes changed;
/// a changed response keeps its diagnostics and gets the new ones appended,
/// taking the new result id only when the report carries one.
pub open spec fn full_merged<D>(
    old: Option<LspPullDiagnostics<D>>,
    new: LspPullDiagnostics<D>,
    server_id: LanguageServerId,
    uri: Seq<char>,
    result_id: Option<String>,
    items: Seq<D>,
    registration_id: Option<String>,
) -> bool {
    match old {
        Some(LspPullDiagnostics::Response { server_id: s0, uri: u0, diagnostics: d0, registration_id: r0 }) => match new {
            LspPullDiagnostics::Response { server_id: s1, uri: u1, diagnostics: d1, registration_id: r1 } => {
                &&& s1 == s0
                &&& u1 == u0
                &&& r1 == r0
                &&& match d0 {
                    PulledDiagnostics::Unchanged { .. } => changed_with(d1, result_id, items),
                    PulledDiagnostics::Changed { result_id: rid0, diagnostics: dv0 } => changed_with(
                        d1,
                        if result_id is Some { result_id } else { rid0 },
                        dv0@ + items,
                    ),
                }
            },
            LspPullDiagnostics::Default => false,
        },
        _ => match new {
            LspPullDiagnostics::Response { server_id: s1, uri: u1, diagnostics: d1, registration_id: r1 } => {
                &&& s1 == server_id
                &&& u1@ == uri
                &&& r1 == registration_id
                &&& changed_with(d1, result_id, items)
            },
            LspPullDiagnostics::Default => false,
        },
    }
}

/// The entry after an unchanged report for `uri` was merged into `old`:
/// a fresh entry is an unchanged response; an unchanged response takes the new
/// result id; a changed response is kept as it is.
pub open spec fn unchanged_merged<D>(
    old: Option<LspPullDiagnostics<D>>,
    new: LspPullDiagnostics<D>,
    server_id: LanguageServerId,
    uri: Seq<char>,
    result_id: String,
    registration_id: Option<String>,
) -> bool {
    match old {
        Some(LspPullDiagnostics::Response { server_id: s0, uri: u0, diagnostics: d0, registration_id: r0 }) => match d0 {
            PulledDiagnostics::Unchanged { .. } => new == LspPullDiagnostics::<D>::Response {
                server_id: s0,
                uri: u0,
                diagnostics: PulledDiagnostics::Unchanged { result_id },
                registration_id: r0,
            },
            PulledDiagnostics::Changed { .. } => new == old.unwrap(),
        },
        _ => match new {
            LspPullDiagnostics::Response { server_id: s1, uri: u1, diagnostics: d1, registration_id: r1 } => {
                &&& s1 == server_id
                &&& u1@ == uri
                &&& r1 == registration_id
                &&& d1 == PulledDiagnostics::<D>::Unchanged { result_id }
            },
            LspPullDiagnostics::Default => false,
        },
    }
}

fn merge_full<D>(
    old: Option<LspPullDiagnostics<D>>,
    server_id: LanguageServerId,
    uri: String,
    report: FullDocumentDiagnosticReport<D>,
    registration_id: Option<String>,
) -> (new: LspPullDiagnostics<D>)
    ensures
        full_merged(old, new, server_id, uri@, report.result_id, report.items@, registration_id),
{
    let FullDocumentDiagnosticReport { result_id, items } = report;
    match old {
        Some(LspPullDiagnostics::Response { server_id: s0, uri: u0, diagnostics: d0, registration_id: r0 }) => {
            let d1 = match d0 {
                PulledDiagnostics::Unchanged { .. } => PulledDiagnostics::Changed { result_id, diagnostics: items },
                PulledDiagnostics::Changed { result_id: rid0, diagnostics: mut dv } => {
                    let rid = if result_id.is_some() { result_id } else { rid0 };
                    let mut items = items;
                    dv.append(&mut items);
                    PulledDiagnostics::Changed { result_id: rid, diagnostics: dv }
                },
            };
            LspPullDiagnostics::Response { server_id: s0, uri: u0, diagnostics: d1, registration_id: r0 }
        },
        _ => LspPullDiagnostics::Response {
            server_id,
            uri,
            diagnostics: PulledDiagnostics::Changed { result_id, diagnostics: items },
            registration_id,
        },
    }
}

fn merge_unchanged<D>(
    old: Option<LspPullDiagnostics<D>>,
    server_id: LanguageServerId,
    uri: String,
    result_id: String,
    registration_id: Option<String>,
) -> (new: LspPullDiagnostics<D>)
    ensures
        unchanged_merged(old, new, server_id, uri@, result_id, registration_id),
{
    match old {
        Some(LspPullDiagnostics::Response { server_id: s0, uri: u0, diagnostics: d0, registration_id: r0 }) => match d0 {
            PulledDiagnostics::Unchanged { .. } => LspPullDiagnostics::Response {
                server_id: s0,
                uri: u0,
                diagnostics: PulledDiagnostics::Unchanged { result_id },
                registration_id: r0,
            },
            PulledDiagnostics::Changed { result_id: rid0, diagnostics: dv0 } => LspPullDiagnostics::Response {
                server_id: s0,
                uri: u0,
                diagnostics: PulledDiagnostics::Changed { result_id: rid0, diagnostics: dv0 },
                registration_id: r0,
            },
        },
        _ => LspPullDiagnostics::Response {
            server_id,
            uri,
            diagnostics: PulledDiagnostics::Unchanged { result_id },
            registration_id,
        },
    }
}

/// The value stored for `k`, if any.
pub open spec fn lookup<V>(m: Map<Seq<char>, V>, k: Seq<char>) -> Option<V> {
    if m.contains_key(k) { Some(m[k]) } else { None }
}

/// Merges a full report for `uri` into `diagnostics`: the entry for `uri` becomes
/// the merge of its old value with the report, every other entry is kept.
pub fn process_full_diagnostics_report<D>(
    diagnostics: &mut UriMap<LspPullDiagnostics<D>>,
    server_id: LanguageServerId,
    uri: String,
    report: FullDocumentDiagnosticReport<D>,
    registration_id: Option<String>,
)
    requires
        old(diagnostics).wf(),
    ensures
        final(diagnostics).wf(),
        final(diagnostics)@.dom() == old(diagnostics)@.dom().insert(uri@),
        forall|k: Seq<char>| k != uri@ ==> #[trigger] lookup(final(diagnostics)@, k) == lookup(old(diagnostics)@, k),
        full_merged(
            lookup(old(diagnostics)@, uri@),
            final(diagnostics)@[uri@],
            server_id,
            uri@,
            report.result_id,
            report.items@,
            registration_id,
        ),
{
    match diagnostics.position(&uri) {
        None => {
            let key = uri.clone();
            let new = merge_full(None, server_id, uri, report, registration_id);
            diagnostics.push_new(key, new);
            proof {
                assert(final(diagnostics)@.dom() =~= old(diagnostics)@.dom().insert(key@));
            }
        },
        Some(i) => {
            let ghost before = *diagnostics;
            proof {
                before.lemma_entries();
            }
            let (key, old_value) = diagnostics.take_at(i);
            let new = merge_full(Some(old_value), server_id, uri, report, registration_id);
            diagnostics.put_at(i, (key, new));
            proof {
                assert(diagnostics.entry_seq() =~= before.entry_seq().update(i as int, (key, new)));
                before.lemma_replace(i as int, new, &*diagnostics);
                assert(final(diagnostics)@.dom() =~= old(diagnostics)@.dom().insert(uri@));
            }
        },
    }
}

/// Merges an unchanged report for `uri` into `diagnostics`: the entry for `uri` becomes
/// the merge of its old value with the report, every other entry is kept.
pub fn process_unchanged_diagnostics_report<D>(
    diagnostics: &mut UriMap<LspPullDiagnostics<D>>,
    server_id: LanguageServerId,
    uri: String,
    report: UnchangedDocumentDiagnosticReport,
    registration_id: Option<String>,
)
    requires
        old(diagnostics).wf(),
    ensures
        final(diagnostics).wf(),
        final(diagnostics)@.dom() == old(diagnostics)@.dom().insert(uri@),
        forall|k: Seq<char>| k != uri@ ==> #[trigger] lookup(final(diagnostics)@, k) == lookup(old(diagnostics)@, k),
        unchanged_merged(
            lookup(old(diagnostics)@, uri@),
            final(diagnostics)@[uri@],
            server_id,
            uri@,
            report.result_id,
            registration_id,
        ),
{
    match diagnostics.position(&uri) {
        None => {
            let key = uri.clone();
            let new = merge_unchanged(None, server_id, uri, report.result_id, registration_id);
            diagnostics.push_new(key, new);
            proof {
                assert(final(diagnostics)@.dom() =~= old(diagnostics)@.dom().insert(key@));
            }
        },
        Some(i) => {
            let ghost before = *diagnostics;
            proof {
                before.lemma_entries();
            }
            let (key, old_value) = diagnostics.take_at(i);
            let new = merge_unchanged(Some(old_value), server_id, uri, report.result_id, registration_id);
            diagnostics.put_at(i, (key, new));
            proof {
                assert(diagnostics.entry_seq() =~= before.entry_seq().update(i as int, (key, new)));
                before.lemma_replace(i as int, new, &*diagnostics);
                assert(final(diagnostics)@.dom() =~= old(diagnostics)@.dom().insert(uri@));
            }
        },
    }
}

/// The entry after a report of either kind for `uri` was merged into `old`.
pub open spec fn report_merged<D>(
    old: Option<LspPullDiagnostics<D>>,
    new: LspPullDiagnostics<D>,
    server_id: LanguageServerId,
    uri: Seq<char>,
    report: DocumentDiagnosticReportKind<D>,
    registration_id: Option<String>,
) -> bool {
    match report {
        DocumentDiagnosticReportKind::Full(r) => full_merged(old, new, server_id, uri, r.result_id, r.items@, registration_id),
        DocumentDiagnosticReportKind::Unchanged(r) => unchanged_merged(old, new, server_id, uri, r.result_id, registration_id),
    }
}

/// `new` is `old` with `report` merged into the entry of `uri`, every other entry kept.
pub open spec fn merged_into<D>(
    old: Map<Seq<char>, LspPullDiagnostics<D>>,
    new: Map<Seq<char>, LspPullDiagnostics<D>>,
    server_id: LanguageServerId,
    uri: Seq<char>,
    report: DocumentDiagnosticReportKind<D>,
    registration_id: Option<String>,
) -> bool {
    &&& new.dom() == old.dom().insert(uri)
    &&& forall|k: Seq<char>| k != uri ==> #[trigger] lookup(new, k) == lookup(old, k)
    &&& report_merged(lookup(old, uri), new[uri], server_id, uri, report, registration_id)
}

/// `new` is `old` with the report of every document merged, in order, into the entry of
/// its URI.
pub open spec fn related_merged<D>(
    old: Map<Seq<char>, LspPullDiagnostics<D>>,
    new: Map<Seq<char>, LspPullDiagnostics<D>>,
    server_id: LanguageServerId,
    documents: Seq<(String, DocumentDiagnosticReportKind<D>)>,
    registration_id: Option<String>,
) -> bool
    decreases documents.len(),
{
    if documents.len() == 0 {
        new == old
    } else {
        exists|mid: Map<Seq<char>, LspPullDiagnostics<D>>| #![trigger merged_into(mid, new, server_id, documents.last().0@, documents.last().1, registration_id)] {
            &&& related_merged(old, mid, server_id, documents.drop_last(), registration_id)
            &&& merged_into(mid, new, server_id, documents.last().0@, documents.last().1, registration_id)
        }
    }
}

/// Merges a report of either kind for `uri` into `diagnostics`.
pub fn process_report<D>(
    diagnostics: &mut UriMap<LspPullDiagnostics<D>>,
    server_id: LanguageServerId,
    uri: String,
    report: DocumentDiagnosticReportKind<D>,
    registration_id: Option<String>,
)
    requires
        old(diagnostics).wf(),
    ensures
        final(diagnostics).wf(),
        final(diagnostics)@.dom() == old(diagnostics)@.dom().insert(uri@),
        forall|k: Seq<char>| k != uri@ ==> #[trigger] lookup(final(diagnostics)@, k) == lookup(old(diagnostics)@, k),
        report_merged(lookup(old(diagnostics)@, uri@), final(diagnostics)@[uri@], server_id, uri@, report, registration_id),
{
    match report {
        DocumentDiagnosticReportKind::Full(r) => process_full_diagnostics_report(diagnostics, server_id, uri, r, registration_id),
        DocumentDiagnosticReportKind::Unchanged(r) => process_unchanged_diagnostics_report(diagnostics, server_id, uri, r, registration_id),
    }
}

/// Merges the reports of related documents into `diagnostics`, in order, each into the
/// entry of its URI.
pub fn process_related_documents<D>(
    diagnostics: &mut UriMap<LspPullDiagnostics<D>>,
    server_id: LanguageServerId,
    documents: Vec<(String, DocumentDiagnosticReportKind<D>)>,
    registration_id: Option<String>,
)
    requires
        old(diagnostics).wf(),
    ensures
        final(diagnostics).wf(),
        related_merged(old(diagnostics)@, final(diagnostics)@, server_id, documents@, registration_id),
{
    let ghost docs0 = documents@;
    let ghost m0 = diagnostics@;
    let mut rest = reversed(documents);
    proof {
        assert(docs0.take(0) =~= Seq::<(String, DocumentDiagnosticReportKind<D>)>::empty());
    }
    while rest.len() > 0
        invariant
            diagnostics.wf(),
            rest@.len() <= docs0.len(),
            rest@ == docs0.skip(docs0.len() - rest@.len()).reverse(),
            related_merged(m0, diagnostics@, server_id, docs0.take(docs0.len() - rest@.len()), registration_id),
        decreases rest@.len(),
    {
        let ghost k = docs0.len() - rest@.len();
        let ghost before = diagnostics@;
        let (uri, report) = rest.pop().unwrap();
        proof {
            assert((uri, report) == docs0[k]);
            assert(docs0.skip(k + 1).reverse() =~= rest@);
            assert(docs0.take(k + 1).drop_last() =~= docs0.take(k));
            assert(docs0.take(k + 1).last() == docs0[k]);
        }
        process_report(diagnostics, server_id, uri, report, clone_opt_string(&registration_id));
        proof {
            let d = docs0.take(k + 1);
            assert(merged_into(before, diagnostics@, server_id, d.last().0@, d.last().1, registration_id));
            assert(related_merged(m0, before, server_id, d.drop_last(), registration_id));
            assert(related_merged(m0, diagnostics@, server_id, d, registration_id));
        }
    }
    proof {
        assert(docs0.take(docs0.len() as int) =~= docs0);
    }
}

/// A document pull result: a report for the document itself, possibly with reports
/// for related documents, or a partial result with related documents only.
#[derive(Debug)]
pub enum DocumentDiagnosticReportResult<D> {
    Full {
        related_documents: Option<Vec<(String, DocumentDiagnosticReportKind<D>)>>,
        report: FullDocumentDiagnosticReport<D>,
    },
    Unchanged {
        related_documents: Option<Vec<(String, DocumentDiagnosticReportKind<D>)>>,
        report: UnchangedDocumentDiagnosticReport,
    },
    Partial { related_documents: Option<Vec<(String, DocumentDiagnosticReportKind<D>)>> },
}

/// The related-document reports of a pull result, in order.
pub open spec fn related_of<D>(message: DocumentDiagnosticReportResult<D>) -> Seq<(String, DocumentDiagnosticReportKind<D>)> {
    let related = match message {
        DocumentDiagnosticReportResult::Full { related_documents, .. } => related_documents,
        DocumentDiagnosticReportResult::Unchanged { related_documents, .. } => related_documents,
        DocumentDiagnosticReportResult::Partial { related_documents } => related_documents,
    };
    match related {
        Some(docs) => docs@,
        None => Seq::empty(),
    }
}

/// The report a pull result makes for the requested document itself.
pub open spec fn main_report_of<D>(message: DocumentDiagnosticReportResult<D>) -> Option<DocumentDiagnosticReportKind<D>> {
    match message {
        DocumentDiagnosticReportResult::Full { report, .. } => Some(DocumentDiagnosticReportKind::Full(report)),
        DocumentDiagnosticReportResult::Unchanged { report, .. } => Some(DocumentDiagnosticReportKind::Unchanged(report)),
        DocumentDiagnosticReportResult::Partial { .. } => None,
    }
}

/// `new` is `old` with `report` (if any) merged into the entry of `uri`.
pub open spec fn main_merged<D>(
    old: Map<Seq<char>, LspPullDiagnostics<D>>,
    new: Map<Seq<char>, LspPullDiagnostics<D>>,
    server_id: LanguageServerId,
    uri: Seq<char>,
    report: Option<DocumentDiagnosticReportKind<D>>,
    registration_id: Option<String>,
) -> bool {
    match report {
        None => new == old,
        Some(r) => {
            &&& new.dom() == old.dom().insert(uri)
            &&& forall|k: Seq<char>| k != uri ==> #[trigger] lookup(new, k) == lookup(old, k)
            &&& report_merged(lookup(old, uri), new[uri], server_id, uri, r, registration_id)
        },
    }
}

/// A request for the diagnostics of one document.
#[derive(Clone, Debug)]
pub struct GetDocumentDiagnostics {
    /// The registration of the diagnostic provider that is asked.
    pub registration_id: Option<String>,
    pub identifier: Option<String>,
    pub previous_result_id: Option<String>,
}

/// The arguments of a document diagnostic request.
#[derive(Clone, Debug, PartialEq, Eq)]
pub struct DocumentDiagnosticParams {
    pub uri: String,
    pub identifier: Option<String>,
    pub previous_result_id: Option<String>,
}

/// A workspace pull result entry: the report for one document, with the document version
/// it was computed for.
#[derive(Debug)]
pub enum WorkspaceDocumentDiagnosticReport<D> {
    Full { uri: String, version: Option<i64>, report: FullDocumentDiagnosticReport<D> },
    Unchanged { uri: String, version: Option<i64>, report: UnchangedDocumentDiagnosticReport },
}

/// A workspace pull result, complete or partial.
#[derive(Debug)]
pub enum WorkspaceDiagnosticReportResult<D> {
    Report(Vec<WorkspaceDocumentDiagnosticReport<D>>),
    Partial(Vec<WorkspaceDocumentDiagnosticReport<D>>),
}

/// Pulled diagnostics for one document of a workspace pull.
#[derive(Debug)]
pub struct WorkspaceLspPullDiagnostics<D> {
    pub version: Option<i32>,
    pub diagnostics: LspPullDiagnostics<D>,
}

pub open spec fn workspace_item_uri<D>(item: WorkspaceDocumentDiagnosticReport<D>) -> Seq<char> {
    match item {
        WorkspaceDocumentDiagnosticReport::Full { uri, .. } => uri@,
        WorkspaceDocumentDiagnosticReport::Unchanged { uri, .. } => uri@,
    }
}

/// The version of a workspace entry: the reported version, truncated to 32 bits.
pub open spec fn workspace_item_version<D>(item: WorkspaceDocumentDiagnosticReport<D>) -> Option<i32> {
    let v = match item {
        WorkspaceDocumentDiagnosticReport::Full { version, .. } => version,
        WorkspaceDocumentDiagnosticReport::Unchanged { version, .. } => version,
    };
    match v {
        Some(v) => Some(v as i32),
        None => None,
    }
}

pub open spec fn workspace_item_report<D>(item: WorkspaceDocumentDiagnosticReport<D>) -> DocumentDiagnosticReportKind<D> {
    match item {
        WorkspaceDocumentDiagnosticReport::Full { report, .. } => DocumentDiagnosticReportKind::Full(report),
        WorkspaceDocumentDiagnosticReport::Unchanged { report, .. } => DocumentDiagnosticReportKind::Unchanged(report),
    }
}

/// `w` is the entry that a workspace report item converts to.
pub open spec fn workspace_converted<D>(
    item: WorkspaceDocumentDiagnosticReport<D>,
    w: WorkspaceLspPullDiagnostics<D>,
    server_id: LanguageServerId,
    registration_id: Option<String>,
) -> bool {
    &&& w.version == workspace_item_version(item)
    &&& report_merged(None, w.diagnostics, server_id, workspace_item_uri(item), workspace_item_report(item), registration_id)
}

/// `m` holds, for every URI of the items, the conversion of the last item for that URI.
pub open spec fn workspace_map<D>(
    items: Seq<WorkspaceDocumentDiagnosticReport<D>>,
    m: Map<Seq<char>, WorkspaceLspPullDiagnostics<D>>,
    server_id: LanguageServerId,
    registration_id: Option<String>,
) -> bool {
    &&& forall|k: Seq<char>| m.contains_key(k) <==> exists|j: int| 0 <= j < items.len() && #[trigger] workspace_item_uri(items[j]) == k
    &&& forall|j: int| 0 <= j < items.len()
        && (forall|l: int| j < l < items.len() ==> #[trigger] workspace_item_uri(items[l]) != workspace_item_uri(items[j]))
        ==> workspace_converted(#[trigger] items[j], m[workspace_item_uri(items[j])], server_id, registration_id)
}

pub open spec fn workspace_items<D>(report: WorkspaceDiagnosticReportResult<D>) -> Seq<WorkspaceDocumentDiagnosticReport<D>> {
    match report {
        WorkspaceDiagnosticReportResult::Report(items) => items@,
        WorkspaceDiagnosticReportResult::Partial(items) => items@,
    }
}

fn fresh_entry<D>(
    server_id: LanguageServerId,
    uri: String,
    report: DocumentDiagnosticReportKind<D>,
    registration_id: Option<String>,
) -> (e: LspPullDiagnostics<D>)
    ensures
        report_merged(None, e, server_id, uri@, report, registration_id),
{
    match report {
        DocumentDiagnosticReportKind::Full(r) => merge_full(None, server_id, uri, r, registration_id),
        DocumentDiagnosticReportKind::Unchanged(r) => merge_unchanged(None, server_id, uri, r.result_id, registration_id),
    }
}

fn convert_workspace_item<D>(
    item: WorkspaceDocumentDiagnosticReport<D>,
    server_id: LanguageServerId,
    registration_id: Option<String>,
) -> (r: (String, WorkspaceLspPullDiagnostics<D>))
    ensures
        r.0@ == workspace_item_uri(item),
        workspace_converted(item, r.1, server_id, registration_id),
{
    let (uri, version, report) = match item {
        WorkspaceDocumentDiagnosticReport::Full { uri, version, report } => (uri, version, DocumentDiagnosticReportKind::Full(report)),
        WorkspaceDocumentDiagnosticReport::Unchanged { uri, version, report } => (uri, version, DocumentDiagnosticReportKind::Unchanged(report)),
    };
    let version = match version {
        Some(v) => Some(v as i32),
        None => None,
    };
    let key = uri.clone();
    let diagnostics = fresh_entry(server_id, uri, report, registration_id);
    (key, WorkspaceLspPullDiagnostics { version, diagnostics })
}

/// `m` is the workspace map of the items from position `from` on.
#[verifier::opaque]
pub open spec fn workspace_suffix_map<D>(
    items: Seq<WorkspaceDocumentDiagnosticReport<D>>,
    from: int,
    m: Map<Seq<char>, WorkspaceLspPullDiagnostics<D>>,
    server_id: LanguageServerId,
    registration_id: Option<String>,
) -> bool {
    0 <= from <= items.len() && workspace_map(items.skip(from), m, server_id, registration_id)
}

#[verifier::spinoff_prover]
#[verifier::rlimit(30)]
proof fn lemma_workspace_step<D>(
    items: Seq<WorkspaceDocumentDiagnosticReport<D>>,
    n: int,
    before: Map<Seq<char>, WorkspaceLspPullDiagnostics<D>>,
    after: Map<Seq<char>, WorkspaceLspPullDiagnostics<D>>,
    entry: WorkspaceLspPullDiagnostics<D>,
    present: bool,
    server_id: LanguageServerId,
    registration_id: Option<String>,
)
    requires
        1 <= n <= items.len(),
        workspace_suffix_map(items, n, before, server_id, registration_id),
        workspace_converted(items[n - 1], entry, server_id, registration_id),
        present ==> before.contains_key(workspace_item_uri(items[n - 1])) && after == before,
        !present ==> after == before.insert(workspace_item_uri(items[n - 1]), entry)
            && !before.contains_key(workspace_item_uri(items[n - 1])),
    ensures
        workspace_suffix_map(items, n - 1, after, server_id, registration_id),
{
    reveal(workspace_suffix_map);
    let s0 = items.skip(n);
    let s1 = items.skip(n - 1);
    let u = workspace_item_uri(items[n - 1]);
    assert forall|j: int| 0 <= j < s0.len() implies #[trigger] s0[j] == s1[j + 1] by {}
    assert(s1[0] == items[n - 1]);
    assert forall|k: Seq<char>| after.contains_key(k) <==> exists|j: int| 0 <= j < s1.len() && #[trigger] workspace_item_uri(s1[j]) == k by {
        if after.contains_key(k) {
            if k == u {
                assert(workspace_item_uri(s1[0]) == k);
            } else {
                assert(before.contains_key(k));
                let j = choose|j: int| 0 <= j < s0.len() && #[trigger] workspace_item_uri(s0[j]) == k;
                assert(workspace_item_uri(s1[j + 1]) == k);
            }
        }
        if exists|j: int| 0 <= j < s1.len() && #[trigger] workspace_item_uri(s1[j]) == k {
            let j = choose|j: int| 0 <= j < s1.len() && #[trigger] workspace_item_uri(s1[j]) == k;
            if j > 0 {
                assert(workspace_item_uri(s0[j - 1]) == k);
            }
        }
    }
    assert forall|j: int| 0 <= j < s1.len()
        && (forall|l: int| j < l < s1.len() ==> #[trigger] workspace_item_uri(s1[l]) != workspace_item_uri(s1[j]))
        implies workspace_converted(#[trigger] s1[j], after[workspace_item_uri(s1[j])], server_id, registration_id) by {
        if j == 0 {
            if present {
                let i = choose|i: int| 0 <= i < s0.len() && #[trigger] workspace_item_uri(s0[i]) == u;
                assert(workspace_item_uri(s1[i + 1]) == u);
                assert(false);
            }
        } else {
            assert(s1[j] == s0[j - 1]);
            assert forall|l: int| j - 1 < l < s0.len() implies #[trigger] workspace_item_uri(s0[l]) != workspace_item_uri(s0[j - 1]) by {
                assert(workspace_item_uri(s1[l + 1]) != workspace_item_uri(s1[j]));
            }
            if !present {
                assert(workspace_item_uri(s1[j]) != u) by {
                    assert(before.contains_key(workspace_item_uri(s0[j - 1])));
                }
            }
        }
    }
}

impl GetDocumentDiagnostics {
    /// The request arguments for the document with the given URI.
    pub fn to_lsp(&self, uri: String) -> (params: DocumentDiagnosticParams)
        ensures
            params.uri == uri,
            params.identifier == self.identifier,
            params.previous_result_id == self.previous_result_id,
    {
        DocumentDiagnosticParams {
            uri,
            identifier: clone_opt_string(&self.identifier),
            previous_result_id: clone_opt_string(&self.previous_result_id),
        }
    }

    /// The pulled diagnostics of a document request for `url`, one per document: the
    /// related documents' reports merged first, then the document's own report.
    pub fn response_from_lsp<D>(
        self,
        url: String,
        message: DocumentDiagnosticReportResult<D>,
        server_id: LanguageServerId,
    ) -> (r: Vec<LspPullDiagnostics<D>>)
        ensures
            exists|related: Map<Seq<char>, LspPullDiagnostics<D>>, m: Map<Seq<char>, LspPullDiagnostics<D>>| {
                &&& related_merged(Map::empty(), related, server_id, related_of(message), self.registration_id)
                &&& main_merged(related, m, server_id, url@, main_report_of(message), self.registration_id)
                &&& values_of(m, r@)
            },
    {
        let mut pulled: UriMap<LspPullDiagnostics<D>> = UriMap::new();
        let registration_id = self.registration_id;
        let (related, main) = match message {
            DocumentDiagnosticReportResult::Full { related_documents, report } => (related_documents, Some(DocumentDiagnosticReportKind::Full(report))),
            DocumentDiagnosticReportResult::Unchanged { related_documents, report } => (related_documents, Some(DocumentDiagnosticReportKind::Unchanged(report))),
            DocumentDiagnosticReportResult::Partial { related_documents } => (related_documents, None),
        };
        match related {
            Some(docs) => process_related_documents(&mut pulled, server_id, docs, clone_opt_string(&registration_id)),
            None => {},
        }
        let ghost after_related = pulled@;
        match main {
            Some(report) => process_report(&mut pulled, server_id, url, report, registration_id),
            None => {},
        }
        proof {
            assert(related_merged(Map::empty(), after_related, server_id, related_of(message), self.registration_id));
            assert(main_merged(after_related, pulled@, server_id, url@, main_report_of(message), self.registration_id));
        }
        let ghost m = pulled@;
        let r = pulled.into_values();
        proof {
            assert(related_merged(Map::empty(), after_related, server_id, related_of(message), self.registration_id)
                && main_merged(after_related, m, server_id, url@, main_report_of(message), self.registration_id)
                && values_of(m, r@));
        }
        r
    }

    /// The pulled diagnostics of a workspace request: one entry per document, from the
    /// last report for that document.
    pub fn deserialize_workspace_diagnostics_report<D>(
        report: WorkspaceDiagnosticReportResult<D>,
        server_id: LanguageServerId,
        registration_id: Option<String>,
    ) -> (r: Vec<WorkspaceLspPullDiagnostics<D>>)
        ensures
            exists|m: Map<Seq<char>, WorkspaceLspPullDiagnostics<D>>|
                workspace_map(workspace_items(report), m, server_id, registration_id) && values_of(m, r@),
    {
        let ghost items0 = workspace_items(report);
        let mut items = match report {
            WorkspaceDiagnosticReportResult::Report(items) => items,
            WorkspaceDiagnosticReportResult::Partial(items) => items,
        };
        let mut pulled: UriMap<WorkspaceLspPullDiagnostics<D>> = UriMap::new();
        proof {
            reveal(workspace_suffix_map);
        }
        while items.len() > 0
            invariant
                pulled.wf(),
                items@ == items0.take(items@.len() as int),
                items@.len() <= items0.len(),
                workspace_suffix_map(items0, items@.len() as int, pulled@, server_id, registration_id),
            decreases items@.len(),
        {
            let ghost n = items@.len() as int;
            let ghost before = pulled@;
            let item = items.pop().unwrap();
            assert(items0[n - 1] == item);
            let (uri, entry) = convert_workspace_item(item, server_id, clone_opt_string(&registration_id));
            match pulled.position(&uri) {
                Some(pos) => {
                    proof {
                        pulled.lemma_entries();
                        assert(pulled.entry_seq()[pos as int].0@ == uri@);
                        lemma_workspace_step(items0, n, before, pulled@, entry, true, server_id, registration_id);
                    }
                },
                None => {
                    pulled.push_new(uri, entry);
                    proof {
                        lemma_workspace_step(items0, n, before, pulled@, entry, false, server_id, registration_id);
                    }
                },
            }
        }
        proof {
            reveal(workspace_suffix_map);
            assert(items0.take(0) =~= items@);
            assert(items0.skip(0) =~= items0);
        }
        pulled.into_values()
    }
}


/// Merging a full report always leaves the document with changed diagnostics.
pub proof fn law_full_report_leaves_changed<D>(
    old: Option<LspPullDiagnostics<D>>,
    new: LspPullDiagnostics<D>,
    server_id: LanguageServerId,
    uri: Seq<char>,
    result_id: Option<String>,
    items: Seq<D>,
    registration_id: Option<String>,
)
    requires
        full_merged(old, new, server_id, uri, result_id, items, registration_id),
    ensures
        new matches LspPullDiagnostics::Response { diagnostics: PulledDiagnostics::Changed { .. }, .. },
{
}

/// An unchanged report never replaces diagnostics that a full report delivered.
pub proof fn law_unchanged_keeps_changed<D>(
    old: LspPullDiagnostics<D>,
    new: LspPullDiagnostics<D>,
    server_id: LanguageServerId,
    uri: Seq<char>,
    result_id: String,
    registration_id: Option<String>,
)
    requires
        old matches LspPullDiagnostics::Response { diagnostics: PulledDiagnostics::Changed { .. }, .. },
        unchanged_merged(Some(old), new, server_id, uri, result_id, registration_id),
    ensures
        new == old,
{
}

/// Two full reports for one document accumulate: the second one's diagnostics follow the
/// first one's, and its result id wins when it has one.
pub proof fn law_full_reports_accumulate<D>(
    first: LspPullDiagnostics<D>,
    second: LspPullDiagnostics<D>,
    server_id: LanguageServerId,
    uri: Seq<char>,
    result_id1: Option<String>,
    items1: Seq<D>,
    result_id2: Option<String>,
    items2: Seq<D>,
    registration_id: Option<String>,
)
    requires
        full_merged(None, first, server_id, uri, result_id1, items1, registration_id),
        full_merged(Some(first), second, server_id, uri, result_id2, items2, registration_id),
    ensures
        second matches LspPullDiagnostics::Response { diagnostics, .. }
            && changed_with(diagnostics, if result_id2 is Some { result_id2 } else { result_id1 }, items1 + items2),
{
}


/// The documents a workspace pull reports on.
pub open spec fn workspace_documents<D>(items: Seq<WorkspaceDocumentDiagnosticReport<D>>) -> Set<Seq<char>> {
    Set::new(|k: Seq<char>| exists|j: int| 0 <= j < items.len() && #[trigger] workspace_item_uri(items[j]) == k)
}

/// A workspace pull gives exactly one entry per document it reports on.
pub proof fn law_workspace_entry_per_document<D>(
    items: Seq<WorkspaceDocumentDiagnosticReport<D>>,
    m: Map<Seq<char>, WorkspaceLspPullDiagnostics<D>>,
    entries: Seq<WorkspaceLspPullDiagnostics<D>>,
    server_id: LanguageServerId,
    registration_id: Option<String>,
)
    requires
        workspace_map(items, m, server_id, registration_id),
        values_of(m, entries),
    ensures
        m.dom() == workspace_documents(items),
        entries.len() == workspace_documents(items).len(),
{
    assert(m.dom() =~= workspace_documents(items));
    let keys = choose|keys: Seq<Seq<char>>|
        #![trigger keys.to_set()]
        keys.len() == entries.len() && keys.no_duplicates() && keys.to_set() == m.dom() && forall|i: int|
            0 <= i < keys.len() ==> entries[i] == m[#[trigger] keys[i]];
    keys.unique_seq_to_set();
}

/// The two pulled states are the same: same server, document, registration and
/// diagnostics, the document's URI and the diagnostics compared by their contents.
pub open spec fn same_pull<D>(a: LspPullDiagnostics<D>, b: LspPullDiagnostics<D>) -> bool {
    match (a, b) {
        (LspPullDiagnostics::Default, LspPullDiagnostics::Default) => true,
        (
            LspPullDiagnostics::Response { server_id: s1, uri: u1, diagnostics: d1, registration_id: r1 },
            LspPullDiagnostics::Response { server_id: s2, uri: u2, diagnostics: d2, registration_id: r2 },
        ) => {
            &&& s1 == s2
            &&& u1@ == u2@
            &&& r1 == r2
            &&& match (d1, d2) {
                (PulledDiagnostics::Unchanged { result_id: x }, PulledDiagnostics::Unchanged { result_id: y }) => x == y,
                (
                    PulledDiagnostics::Changed { result_id: x, diagnostics: v },
                    PulledDiagnostics::Changed { result_id: y, diagnostics: w },
                ) => x == y && v@ == w@,
                _ => false,
            }
        },
        _ => false,
    }
}

/// The two workspace entries are the same: same version and the same pulled state.
pub open spec fn same_workspace_entry<D>(a: WorkspaceLspPullDiagnostics<D>, b: WorkspaceLspPullDiagnostics<D>) -> bool {
    a.version == b.version && same_pull(a.diagnostics, b.diagnostics)
}

proof fn lemma_fresh_report_determined<D>(
    a: LspPullDiagnostics<D>,
    b: LspPullDiagnostics<D>,
    server_id: LanguageServerId,
    uri: Seq<char>,
    report: DocumentDiagnosticReportKind<D>,
    registration_id: Option<String>,
)
    requires
        report_merged(None, a, server_id, uri, report, registration_id),
        report_merged(None, b, server_id, uri, report, registration_id),
    ensures
        same_pull(a, b),
{
}

/// An item that reports on `k` has a last one among the items.
proof fn lemma_last_item_for<D>(items: Seq<WorkspaceDocumentDiagnosticReport<D>>, k: Seq<char>, j0: int)
    requires
        0 <= j0 < items.len(),
        workspace_item_uri(items[j0]) == k,
    ensures
        exists|j: int| 0 <= j < items.len() && workspace_item_uri(items[j]) == k
            && forall|l: int| j < l < items.len() ==> #[trigger] workspace_item_uri(items[l]) != k,
    decreases items.len(),
{
    let n = items.len() - 1;
    if workspace_item_uri(items[n]) == k {
        assert(forall|l: int| n < l < items.len() ==> #[trigger] workspace_item_uri(items[l]) != k);
    } else {
        let rest = items.drop_last();
        assert(rest[j0] == items[j0]);
        lemma_last_item_for(rest, k, j0);
        let j = choose|j: int| 0 <= j < rest.len() && workspace_item_uri(rest[j]) == k
            && forall|l: int| j < l < rest.len() ==> #[trigger] workspace_item_uri(rest[l]) != k;
        assert(items[j] == rest[j]);
        assert forall|l: int| j < l < items.len() implies #[trigger] workspace_item_uri(items[l]) != k by {
            if l < n {
                assert(items[l] == rest[l]);
            }
        }
    }
}

/// A workspace pull's entries are determined by its items: two maps that hold, for every
/// document, the conversion of the last item for it agree document by document.
pub proof fn law_workspace_entries_determined<D>(
    items: Seq<WorkspaceDocumentDiagnosticReport<D>>,
    m1: Map<Seq<char>, WorkspaceLspPullDiagnostics<D>>,
    m2: Map<Seq<char>, WorkspaceLspPullDiagnostics<D>>,
    server_id: LanguageServerId,
    registration_id: Option<String>,
)
    requires
        workspace_map(items, m1, server_id, registration_id),
        workspace_map(items, m2, server_id, registration_id),
    ensures
        m1.dom() == m2.dom(),
        forall|k: Seq<char>| m1.contains_key(k) ==> same_workspace_entry(#[trigger] m1[k], m2[k]),
{
    assert(m1.dom() =~= m2.dom());
    assert forall|k: Seq<char>| m1.contains_key(k) implies same_workspace_entry(#[trigger] m1[k], m2[k]) by {
        let j0 = choose|j: int| 0 <= j < items.len() && #[trigger] workspace_item_uri(items[j]) == k;
        lemma_last_item_for(items, k, j0);
        let j = choose|j: int| 0 <= j < items.len() && workspace_item_uri(items[j]) == k
            && forall|l: int| j < l < items.len() ==> #[trigger] workspace_item_uri(items[l]) != k;
        assert(workspace_converted(items[j], m1[k], server_id, registration_id));
        assert(workspace_converted(items[j], m2[k], server_id, registration_id));
        lemma_fresh_report_determined(
            m1[k].diagnostics,
            m2[k].diagnostics,
            server_id,
            k,
            workspace_item_report(items[j]),
            registration_id,
        );
    }
}

/// Some entry of `entries` is the same as `e`.
pub open spec fn has_same_entry<D>(e: WorkspaceLspPullDiagnostics<D>, entries: Seq<WorkspaceLspPullDiagnostics<D>>) -> bool {
    exists|j: int| 0 <= j < entries.len() && same_workspace_entry(e, #[trigger] entries[j])
}

/// A complete workspace report and a partial result with the same items give the same
/// entries: as many of them, each entry of one the same as an entry of the other.
pub proof fn law_report_and_partial_agree<D>(
    items: Vec<WorkspaceDocumentDiagnosticReport<D>>,
    server_id: LanguageServerId,
    registration_id: Option<String>,
    m1: Map<Seq<char>, WorkspaceLspPullDiagnostics<D>>,
    r1: Seq<WorkspaceLspPullDiagnostics<D>>,
    m2: Map<Seq<char>, WorkspaceLspPullDiagnostics<D>>,
    r2: Seq<WorkspaceLspPullDiagnostics<D>>,
)
    requires
        workspace_map(workspace_items(WorkspaceDiagnosticReportResult::Report(items)), m1, server_id, registration_id),
        values_of(m1, r1),
        workspace_map(workspace_items(WorkspaceDiagnosticReportResult::Partial(items)), m2, server_id, registration_id),
        values_of(m2, r2),
    ensures
        r1.len() == r2.len(),
        forall|i: int| 0 <= i < r1.len() ==> has_same_entry(#[trigger] r1[i], r2),
        forall|j: int| 0 <= j < r2.len() ==> has_same_entry(#[trigger] r2[j], r1),
{
    law_workspace_entries_determined(items@, m1, m2, server_id, registration_id);
    let keys1 = choose|keys: Seq<Seq<char>>|
        #![trigger keys.to_set()]
        keys.len() == r1.len() && keys.no_duplicates() && keys.to_set() == m1.dom() && forall|i: int|
            0 <= i < keys.len() ==> r1[i] == m1[#[trigger] keys[i]];
    let keys2 = choose|keys: Seq<Seq<char>>|
        #![trigger keys.to_set()]
        keys.len() == r2.len() && keys.no_duplicates() && keys.to_set() == m2.dom() && forall|i: int|
            0 <= i < keys.len() ==> r2[i] == m2[#[trigger] keys[i]];
    keys1.unique_seq_to_set();
    keys2.unique_seq_to_set();
    assert forall|i: int| 0 <= i < r1.len() implies has_same_entry(#[trigger] r1[i], r2) by {
        let k = keys1[i];
        assert(keys1.to_set().contains(k));
        assert(keys2.to_set().contains(k));
        let j = choose|j: int| 0 <= j < keys2.len() && keys2[j] == k;
        assert(same_workspace_entry(r1[i], r2[j]));
    }
    assert forall|j: int| 0 <= j < r2.len() implies has_same_entry(#[trigger] r2[j], r1) by {
        let k = keys2[j];
        assert(keys2.to_set().contains(k));
        assert(keys1.to_set().contains(k));
        let i = choose|i: int| 0 <= i < keys1.len() && keys1[i] == k;
        assert(same_workspace_entry(r2[j], r1[i]));
    }
}

} // verus!
