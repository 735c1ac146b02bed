//! Signature help: which part of a signature label each parameter covers, and which
//! parameter is highlighted.

use vstd::prelude::*;
use crate::server::LanguageServerId;
use crate::text::{
    chars_of, char_len_utf8, char_len_utf16, find_first, occurs_at, contains_seq, utf8_size,
    utf16_size, utf8_prefix_len, utf8_total_len, lemma_utf8_size_step,
    lemma_utf8_size_bound, lemma_occurrence_bytes,
};

verus! {

/// The kind of a markup text.
#[derive(Clone, Copy, Debug, PartialEq, Eq, Structural)]
pub enum MarkupKind {
    PlainText,
    Markdown,
}

/// Documentation attached to a signature or parameter.
#[derive(Debug, PartialEq, Eq)]
pub enum Documentation {
    String(String),
    MarkupContent { kind: MarkupKind, value: String },
}

/// How a parameter names its part of the signature label: by text, or by a range of
/// UTF-16 offsets into the label.
#[derive(Debug, PartialEq, Eq)]
pub enum ParameterLabel {
    Simple(String),
    LabelOffsets(u32, u32),
}

#[derive(Debug, PartialEq, Eq)]
pub struct ParameterInformation {
    pub label: ParameterLabel,
    pub documentation: Option<Documentation>,
}

#[derive(Debug, PartialEq, Eq)]
pub struct SignatureInformation {
    pub label: String,
    pub documentation: Option<Documentation>,
    pub parameters: Option<Vec<ParameterInformation>>,
    pub active_parameter: Option<u32>,
}

/// A signature help response.
#[derive(Debug, PartialEq, Eq)]
pub struct LspSignatureHelp {
    pub signatures: Vec<SignatureInformation>,
    pub active_signature: Option<u32>,
    pub active_parameter: Option<u32>,
}

/// A range of byte offsets into a label.
#[derive(Clone, Copy, Debug, PartialEq, Eq, Structural)]
pub struct ByteRange {
    pub start: usize,
    pub end: usize,
}

#[derive(Debug)]
pub struct ParameterInfo {
    /// The bytes of the signature label that name the parameter, if they could be found.
    pub label_range: Option<ByteRange>,
    pub documentation: Option<Documentation>,
}

#[derive(Debug)]
pub struct SignatureHelpData {
    pub label: String,
    pub documentation: Option<Documentation>,
    /// Label ranges shown in extra bold: the active parameter's.
    pub highlights: Vec<ByteRange>,
    pub active_parameter: Option<usize>,
    pub parameters: Vec<ParameterInfo>,
}

#[derive(Debug)]
pub struct SignatureHelp {
    pub active_signature: usize,
    pub signatures: Vec<SignatureHelpData>,
    pub original_data: LspSignatureHelp,
}

/// The UTF-16 offset at which the character at position `i` starts.
pub open spec fn utf16_offset(s: Seq<char>, i: int) -> nat {
    utf16_size(s.take(i))
}

/// The byte offset at which the character at position `i` starts.
pub open spec fn byte_offset(s: Seq<char>, i: int) -> nat {
    utf8_size(s.take(i))
}

/// `i` is the first character at or after `from` that starts at UTF-16 offset `o`.
pub open spec fn first_at_utf16(s: Seq<char>, o: nat, from: int, i: int) -> bool {
    &&& from <= i < s.len()
    &&& utf16_offset(s, i) == o
    &&& forall|j: int| from <= j < i ==> utf16_offset(s, j) != o
}

/// No character at or after `from` starts at UTF-16 offset `o`.
pub open spec fn none_at_utf16(s: Seq<char>, o: nat, from: int) -> bool {
    forall|j: int| from <= j < s.len() ==> utf16_offset(s, j) != o
}

/// `r` is the byte range of the label that a parameter label denotes: for a text, its
/// first occurrence in the label; for UTF-16 offsets `o1 < o2`, the bytes from the
/// character starting at `o1` to the next character starting at `o2` (an offset at the
/// very end of the label names no character).
pub open spec fn label_range_of(label: Seq<char>, param: ParameterLabel, r: Option<ByteRange>) -> bool {
    match param {
        ParameterLabel::Simple(p) => match r {
            Some(range) => exists|i: int| {
                &&& occurs_at(label, p@, i)
                &&& forall|j: int| 0 <= j < i ==> !occurs_at(label, p@, j)
                &&& range.start == byte_offset(label, i)
                &&& range.end == byte_offset(label, i) + utf8_size(p@)
            },
            None => !contains_seq(label, p@),
        },
        ParameterLabel::LabelOffsets(o1, o2) => match r {
            Some(range) => o1 < o2 && exists|i1: int, i2: int| {
                &&& first_at_utf16(label, o1 as nat, 0, i1)
                &&& first_at_utf16(label, o2 as nat, i1 + 1, i2)
                &&& range.start == byte_offset(label, i1)
                &&& range.end == byte_offset(label, i2)
            },
            None => o1 >= o2 || none_at_utf16(label, o1 as nat, 0) || exists|i1: int| {
                &&& first_at_utf16(label, o1 as nat, 0, i1)
                &&& none_at_utf16(label, o2 as nat, i1 + 1)
            },
        },
    }
}

/// Finds the byte offsets of the characters starting at UTF-16 offsets `o1` and then `o2`.
fn offsets_to_byte_range(label: &Vec<char>, o1: u32, o2: u32) -> (r: Option<ByteRange>)
    requires
        label@.len() <= usize::MAX / 4,
        o1 < o2,
    ensures
        label_range_of(label@, ParameterLabel::LabelOffsets(o1, o2), r),
{
    let ghost s = label@;
    let mut u16_off: usize = 0;
    let mut u8_off: usize = 0;
    let mut j: usize = 0;
    let mut first: Option<(usize, usize)> = None;
    while j < label.len()
        invariant
            s == label@,
            s.len() <= usize::MAX / 4,
            j <= s.len(),
            u16_off == utf16_offset(s, j as int),
            u8_off == byte_offset(s, j as int),
            o1 < o2,
            match first {
                None => none_at_utf16(s, o1 as nat, 0) || j == 0 || forall|k: int| 0 <= k < j ==> utf16_offset(s, k) != o1,
                Some((i1, b1)) => first_at_utf16(s, o1 as nat, 0, i1 as int) && b1 == byte_offset(s, i1 as int)
                    && i1 < j && forall|k: int| i1 < k < j ==> utf16_offset(s, k) != o2,
            },
            first is None ==> forall|k: int| 0 <= k < j ==> utf16_offset(s, k) != o1,
        decreases s.len() - j,
    {
        let c = label[j];
        match first {
            None => {
                if u16_off == o1 as usize {
                    first = Some((j, u8_off));
                }
            },
            Some((i1, b1)) => {
                if u16_off == o2 as usize {
                    proof {
                        assert(first_at_utf16(s, o2 as nat, i1 + 1, j as int));
                    }
                    return Some(ByteRange { start: b1, end: u8_off });
                }
            },
        }
        proof {
            lemma_utf8_size_step(s, j as int);
            lemma_utf8_size_bound(s.take(j + 1));
        }
        u16_off = u16_off + char_len_utf16(c);
        u8_off = u8_off + char_len_utf8(c);
        j = j + 1;
    }
    proof {
        match first {
            None => {
                assert(none_at_utf16(s, o1 as nat, 0));
            },
            Some((i1, b1)) => {
                assert(none_at_utf16(s, o2 as nat, i1 + 1));
            },
        }
    }
    None
}

/// Finds the byte range of the first occurrence of `p` in the label.
fn text_to_byte_range(label: &Vec<char>, p: &String) -> (r: Option<ByteRange>)
    requires
        label@.len() <= usize::MAX / 4,
    ensures
        label_range_of(label@, ParameterLabel::Simple(*p), r),
{
    let pc = chars_of(p.as_str());
    match find_first(label, &pc) {
        Some(i) => {
            let start = utf8_prefix_len(label, i);
            proof {
                lemma_occurrence_bytes(label@, pc@, i as int);
                lemma_utf8_size_bound(label@);
                lemma_utf8_size_bound(pc@);
            }
            let len = utf8_total_len(&pc);
            let r = ByteRange { start, end: start + len };
            proof {
                assert(pc@ == p@);
                assert(occurs_at(label@, p@, i as int));
                assert(r.start == byte_offset(label@, i as int));
            }
            Some(r)
        },
        None => None,
    }
}

/// The byte range of the label that a parameter label names.
pub fn parameter_label_range(label: &Vec<char>, param: &ParameterLabel) -> (r: Option<ByteRange>)
    requires
        label@.len() <= usize::MAX / 4,
    ensures
        label_range_of(label@, *param, r),
{
    match param {
        ParameterLabel::LabelOffsets(o1, o2) => {
            if *o1 < *o2 {
                offsets_to_byte_range(label, *o1, *o2)
            } else {
                None
            }
        },
        ParameterLabel::Simple(p) => text_to_byte_range(label, p),
    }
}

pub fn clone_documentation(d: &Documentation) -> (r: Documentation)
    ensures
        r == *d,
{
    match d {
        Documentation::String(s) => Documentation::String(s.clone()),
        Documentation::MarkupContent { kind, value } => Documentation::MarkupContent { kind: *kind, value: value.clone() },
    }
}

pub fn clone_opt_documentation(d: &Option<Documentation>) -> (r: Option<Documentation>)
    ensures
        r == *d,
{
    match d {
        Some(d) => Some(clone_documentation(d)),
        None => None,
    }
}

/// The parameter of a signature that is highlighted: the signature's own active parameter,
/// otherwise the response's, otherwise the first.
pub open spec fn active_parameter_of(sig: SignatureInformation, help_active: Option<u32>) -> usize {
    match sig.active_parameter {
        Some(a) => a as usize,
        None => match help_active {
            Some(a) => a as usize,
            None => 0,
        },
    }
}

pub open spec fn parameters_of(sig: SignatureInformation) -> Seq<ParameterInformation> {
    match sig.parameters {
        Some(p) => p@,
        None => Seq::empty(),
    }
}

/// `data` is what a signature of the response is shown as.
pub open spec fn signature_data_of(sig: SignatureInformation, help_active: Option<u32>, data: SignatureHelpData) -> bool {
    let params = parameters_of(sig);
    let active = active_parameter_of(sig, help_active);
    &&& data.label@ == sig.label@
    &&& data.documentation == sig.documentation
    &&& data.active_parameter == Some(active)
    &&& data.parameters@.len() == params.len()
    &&& forall|k: int| 0 <= k < params.len() ==> {
        &&& label_range_of(sig.label@, #[trigger] params[k].label, data.parameters@[k].label_range)
        &&& data.parameters@[k].documentation == params[k].documentation
    }
    &&& data.highlights@ == if active < params.len() && data.parameters@[active as int].label_range is Some {
        seq![data.parameters@[active as int].label_range.unwrap()]
    } else {
        Seq::<ByteRange>::empty()
    }
}

/// A signature that names its own active parameter shows that one as active, and
/// highlights exactly that parameter's label range (when it has the parameter and the
/// range was found), whatever the response's active parameter.
pub proof fn law_signature_own_active_parameter_wins(
    sig: SignatureInformation,
    help_active: Option<u32>,
    data: SignatureHelpData,
)
    requires
        signature_data_of(sig, help_active, data),
        sig.active_parameter is Some,
    ensures
        ({
            let a = sig.active_parameter.unwrap() as usize;
            &&& data.active_parameter == Some(a)
            &&& data.highlights@ == if a < data.parameters@.len() && data.parameters@[a as int].label_range is Some {
                seq![data.parameters@[a as int].label_range.unwrap()]
            } else {
                Seq::<ByteRange>::empty()
            }
        }),
{
}

/// A signature that names no active parameter takes the response's, and the first
/// parameter when the response names none either; that parameter's label range is the
/// one highlighted.
pub proof fn law_response_active_parameter_for_signatures_without_one(
    sig: SignatureInformation,
    help_active: Option<u32>,
    data: SignatureHelpData,
)
    requires
        signature_data_of(sig, help_active, data),
        sig.active_parameter is None,
    ensures
        ({
            let a: usize = match help_active { Some(h) => h as usize, None => 0usize };
            &&& data.active_parameter == Some(a)
            &&& data.highlights@ == if a < data.parameters@.len() && data.parameters@[a as int].label_range is Some {
                seq![data.parameters@[a as int].label_range.unwrap()]
            } else {
                Seq::<ByteRange>::empty()
            }
        }),
{
}

/// Labels short enough that their UTF-8 offsets fit in `usize`.
pub open spec fn labels_fit(help: LspSignatureHelp) -> bool {
    forall|i: int| 0 <= i < help.signatures.len() ==> (#[trigger] help.signatures@[i]).label@.len() <= usize::MAX / 4
}

fn signature_data(sig: &SignatureInformation, help_active: Option<u32>) -> (data: SignatureHelpData)
    requires
        sig.label@.len() <= usize::MAX / 4,
    ensures
        signature_data_of(*sig, help_active, data),
{
    let label = sig.label.clone();
    let label_chars = chars_of(sig.label.as_str());
    let active: usize = match sig.active_parameter {
        Some(a) => a as usize,
        None => match help_active {
            Some(a) => a as usize,
            None => 0,
        },
    };
    let mut highlights: Vec<ByteRange> = Vec::new();
    let mut parameters: Vec<ParameterInfo> = Vec::new();
    match &sig.parameters {
        Some(params) => {
            let mut k: usize = 0;
            while k < params.len()
                invariant
                    label_chars@ == sig.label@,
                    sig.label@.len() <= usize::MAX / 4,
                    sig.parameters == Some(*params),
                    active == active_parameter_of(*sig, help_active),
                    k <= params@.len(),
                    parameters@.len() == k,
                    forall|j: int| 0 <= j < k ==> {
                        &&& label_range_of(sig.label@, #[trigger] params@[j].label, parameters@[j].label_range)
                        &&& parameters@[j].documentation == params@[j].documentation
                    },
                    highlights@ == if active < k && parameters@[active as int].label_range is Some {
                        seq![parameters@[active as int].label_range.unwrap()]
                    } else {
                        Seq::<ByteRange>::empty()
                    },
                decreases params@.len() - k,
            {
                let param = &params[k];
                let label_range = parameter_label_range(&label_chars, &param.label);
                match label_range {
                    Some(r) => {
                        if k == active {
                            highlights.push(r);
                        }
                    },
                    None => {},
                }
                let documentation = clone_opt_documentation(&param.documentation);
                parameters.push(ParameterInfo { label_range, documentation });
                k = k + 1;
            }
        },
        None => {},
    }
    SignatureHelpData {
        label,
        documentation: clone_opt_documentation(&sig.documentation),
        highlights,
        active_parameter: Some(active),
        parameters,
    }
}

impl SignatureHelp {
    /// The signature help shown for a response; `None` when it has no signatures.
    pub fn new(help: LspSignatureHelp, lang_server_id: Option<LanguageServerId>) -> (r: Option<SignatureHelp>)
        requires
            labels_fit(help),
        ensures
            r is None <==> help.signatures@.len() == 0,
            r matches Some(sh) ==> {
                &&& sh.original_data == help
                &&& sh.active_signature == match help.active_signature { Some(a) => a as usize, None => 0usize }
                &&& sh.signatures@.len() == help.signatures@.len()
                &&& forall|i: int| 0 <= i < help.signatures@.len() ==> signature_data_of(
                    #[trigger] help.signatures@[i],
                    help.active_parameter,
                    sh.signatures@[i],
                )
            },
    {
        if help.signatures.len() == 0 {
            return None;
        }
        let active_signature: usize = match help.active_signature {
            Some(a) => a as usize,
            None => 0,
        };
        let mut signatures: Vec<SignatureHelpData> = Vec::new();
        let mut i: usize = 0;
        while i < help.signatures.len()
            invariant
                labels_fit(help),
                i <= help.signatures@.len(),
                signatures@.len() == i,
                forall|j: int| 0 <= j < i ==> signature_data_of(
                    #[trigger] help.signatures@[j],
                    help.active_parameter,
                    signatures@[j],
                ),
            decreases help.signatures@.len() - i,
        {
            let data = signature_data(&help.signatures[i], help.active_parameter);
            signatures.push(data);
            i = i + 1;
        }
        Some(SignatureHelp { active_signature, signatures, original_data: help })
    }
}


/// A request for signature help at a position.
#[derive(Debug, Clone, Copy)]
pub struct GetSignatureHelp {
    pub position: crate::inlay_hints::Position,
}

impl GetSignatureHelp {
    /// The signature help of a reply from the server `id`; none without a reply or
    /// without signatures.
    pub fn response_from_lsp(&self, message: Option<LspSignatureHelp>, id: LanguageServerId) -> (r: Option<SignatureHelp>)
        requires
            message matches Some(help) ==> labels_fit(help),
        ensures
            message is None ==> r is None,
            message matches Some(help) ==> (r is None <==> help.signatures@.len() == 0),
            r matches Some(sh) ==> message matches Some(help) && {
                &&& sh.original_data == help
                &&& sh.active_signature == match help.active_signature { Some(a) => a as usize, None => 0usize }
                &&& sh.signatures@.len() == help.signatures@.len()
                &&& forall|i: int| 0 <= i < help.signatures@.len() ==> signature_data_of(
                    #[trigger] help.signatures@[i],
                    help.active_parameter,
                    sh.signatures@[i],
                )
            },
    {
        match message {
            None => None,
            Some(help) => SignatureHelp::new(help, Some(id)),
        }
    }
}

} // verus!
