//! Debug-adapter requests: which requests an adapter supports, the arguments
//! sent for each request, and how responses are turned into results.

use vstd::prelude::*;
use crate::text::{decimal, push_decimal};
use crate::server::clone_opt_string;
use base64::Engine as _;

verus! {

/// A target for a data breakpoint.
#[derive(Clone, Debug, Hash, PartialEq, Eq)]
pub enum DataBreakpointContext {
    Variable { variables_reference: u64, name: String, bytes: Option<u64> },
    Expression { expression: String, frame_id: Option<u64> },
    Address { address: String, bytes: Option<u64> },
}

/// The label shown to users for a data breakpoint target.
pub open spec fn data_breakpoint_label(ctx: DataBreakpointContext) -> Seq<char> {
    match ctx {
        DataBreakpointContext::Variable { name, .. } => "Variable: "@ + name@,
        DataBreakpointContext::Expression { expression, .. } => "Expression: "@ + expression@,
        DataBreakpointContext::Address { address, bytes } => match bytes {
            None => "Address: "@ + address@,
            Some(b) => "Address: "@ + address@ + " ("@ + decimal(b as nat) + " byte"@
                + (if b == 1 { ""@ } else { "s"@ }) + ")"@,
        },
    }
}

impl DataBreakpointContext {
    pub fn human_readable_label(&self) -> (label: String)
        ensures
            label@ == data_breakpoint_label(*self),
    {
        let mut label = String::new();
        match self {
            DataBreakpointContext::Variable { name, .. } => {
                label.append("Variable: ");
                label.append(name.as_str());
            },
            DataBreakpointContext::Expression { expression, .. } => {
                label.append("Expression: ");
                label.append(expression.as_str());
            },
            DataBreakpointContext::Address { address, bytes } => {
                label.append("Address: ");
                label.append(address.as_str());
                if let Some(b) = bytes {
                    label.append(" (");
                    push_decimal(&mut label, *b);
                    label.append(" byte");
                    if *b != 1 {
                        label.append("s");
                    }
                    proof {
                        reveal_strlit("");
                        assert(label@ + ""@ =~= label@);
                    }
                    label.append(")");
                }
            },
        }
        proof {
            assert(label@ =~= data_breakpoint_label(*self));
        }
        label
    }
}

} // verus!

verus! {

/// The capability flags an adapter announces that gate optional requests.
/// A flag left out by the adapter is `None`.
#[derive(Clone, Copy, Debug, Default, PartialEq, Eq)]
pub struct DapCapabilities {
    pub supports_step_back: Option<bool>,
    pub supports_terminate_threads_request: Option<bool>,
    pub supports_terminate_request: Option<bool>,
    pub supports_restart_request: Option<bool>,
    pub supports_set_variable: Option<bool>,
    pub supports_restart_frame: Option<bool>,
    pub supports_modules_request: Option<bool>,
    pub supports_loaded_sources_request: Option<bool>,
    pub supports_completions_request: Option<bool>,
    pub supports_configuration_done_request: Option<bool>,
    pub supports_data_breakpoints: Option<bool>,
    pub supports_read_memory_request: Option<bool>,
    pub supports_write_memory_request: Option<bool>,
}

/// The debug-adapter requests this layer issues.
#[derive(Clone, Copy, Debug, PartialEq, Eq)]
pub enum DapRequestKind {
    Next,
    StepIn,
    StepOut,
    StepBack,
    Continue,
    Pause,
    Disconnect,
    TerminateThreads,
    Terminate,
    Restart,
    Variables,
    SetVariable,
    RestartFrame,
    Modules,
    LoadedSources,
    StackTrace,
    Scopes,
    Completions,
    Evaluate,
    Threads,
    Initialize,
    ConfigurationDone,
    Launch,
    Attach,
    SetBreakpoints,
    DataBreakpointInfo,
    SetDataBreakpoints,
    SetExceptionBreakpoints,
    Locations,
    ReadMemory,
    WriteMemory,
}

/// An announced flag counts only when it is present and set.
pub open spec fn flag(f: Option<bool>) -> bool {
    f == Some(true)
}

/// Whether an adapter with the given capabilities accepts the request: requests
/// without a capability flag are always accepted.
pub open spec fn spec_request_supported(kind: DapRequestKind, caps: DapCapabilities) -> bool {
    match kind {
        DapRequestKind::StepBack => flag(caps.supports_step_back),
        DapRequestKind::TerminateThreads => flag(caps.supports_terminate_threads_request),
        DapRequestKind::Terminate => flag(caps.supports_terminate_request),
        DapRequestKind::Restart => flag(caps.supports_restart_request),
        DapRequestKind::SetVariable => flag(caps.supports_set_variable),
        DapRequestKind::RestartFrame => flag(caps.supports_restart_frame),
        DapRequestKind::Modules => flag(caps.supports_modules_request),
        DapRequestKind::LoadedSources => flag(caps.supports_loaded_sources_request),
        DapRequestKind::Completions => flag(caps.supports_completions_request),
        DapRequestKind::ConfigurationDone => flag(caps.supports_configuration_done_request),
        DapRequestKind::DataBreakpointInfo => flag(caps.supports_data_breakpoints),
        DapRequestKind::SetDataBreakpoints => flag(caps.supports_data_breakpoints),
        DapRequestKind::ReadMemory => flag(caps.supports_read_memory_request),
        DapRequestKind::WriteMemory => flag(caps.supports_write_memory_request),
        _ => true,
    }
}

fn flag_set(f: Option<bool>) -> (b: bool)
    ensures
        b == flag(f),
{
    match f {
        Some(v) => v,
        None => false,
    }
}

/// Whether the request may be sent to an adapter with these capabilities.
pub fn is_supported(kind: DapRequestKind, caps: &DapCapabilities) -> (b: bool)
    ensures
        b == spec_request_supported(kind, *caps),
{
    match kind {
        DapRequestKind::StepBack => flag_set(caps.supports_step_back),
        DapRequestKind::TerminateThreads => flag_set(caps.supports_terminate_threads_request),
        DapRequestKind::Terminate => flag_set(caps.supports_terminate_request),
        DapRequestKind::Restart => flag_set(caps.supports_restart_request),
        DapRequestKind::SetVariable => flag_set(caps.supports_set_variable),
        DapRequestKind::RestartFrame => flag_set(caps.supports_restart_frame),
        DapRequestKind::Modules => flag_set(caps.supports_modules_request),
        DapRequestKind::LoadedSources => flag_set(caps.supports_loaded_sources_request),
        DapRequestKind::Completions => flag_set(caps.supports_completions_request),
        DapRequestKind::ConfigurationDone => flag_set(caps.supports_configuration_done_request),
        DapRequestKind::DataBreakpointInfo => flag_set(caps.supports_data_breakpoints),
        DapRequestKind::SetDataBreakpoints => flag_set(caps.supports_data_breakpoints),
        DapRequestKind::ReadMemory => flag_set(caps.supports_read_memory_request),
        DapRequestKind::WriteMemory => flag_set(caps.supports_write_memory_request),
        _ => true,
    }
}

/// Whether responses to the request may be cached while the debuggee is unchanged.
pub open spec fn spec_cacheable(kind: DapRequestKind) -> bool {
    match kind {
        DapRequestKind::Variables | DapRequestKind::Modules | DapRequestKind::LoadedSources
        | DapRequestKind::StackTrace | DapRequestKind::Scopes | DapRequestKind::Completions
        | DapRequestKind::Threads | DapRequestKind::DataBreakpointInfo
        | DapRequestKind::Locations | DapRequestKind::ReadMemory => true,
        _ => false,
    }
}

/// Whether the request is idempotent, so that its response may be cached.
pub fn cacheable(kind: DapRequestKind) -> (b: bool)
    ensures
        b == spec_cacheable(kind),
{
    match kind {
        DapRequestKind::Variables | DapRequestKind::Modules | DapRequestKind::LoadedSources
        | DapRequestKind::StackTrace | DapRequestKind::Scopes | DapRequestKind::Completions
        | DapRequestKind::Threads | DapRequestKind::DataBreakpointInfo
        | DapRequestKind::Locations | DapRequestKind::ReadMemory => true,
        _ => false,
    }
}

/// The arguments of a data-breakpoint-info request.
#[derive(Clone, Debug, PartialEq, Eq)]
pub struct DataBreakpointInfoArguments {
    pub variables_reference: Option<u64>,
    pub name: String,
    pub frame_id: Option<u64>,
    pub bytes: Option<u64>,
    pub as_address: Option<bool>,
    pub mode: Option<String>,
}

/// Asks the adapter how a data breakpoint can be set on a target.
#[derive(Clone, Debug, Hash, PartialEq, Eq)]
pub struct DataBreakpointInfoCommand {
    pub context: DataBreakpointContext,
    pub mode: Option<String>,
}

impl DataBreakpointInfoCommand {
    pub fn to_dap(&self) -> (args: DataBreakpointInfoArguments)
        ensures
            args.mode == self.mode,
            match self.context {
                DataBreakpointContext::Variable { variables_reference, name, bytes } => {
                    &&& args.variables_reference == Some(variables_reference)
                    &&& args.name == name
                    &&& args.frame_id is None
                    &&& args.as_address == Some(false)
                    &&& args.bytes == bytes
                },
                DataBreakpointContext::Expression { expression, frame_id } => {
                    &&& args.variables_reference is None
                    &&& args.name == expression
                    &&& args.frame_id == frame_id
                    &&& args.as_address == Some(false)
                    &&& args.bytes is None
                },
                DataBreakpointContext::Address { address, bytes } => {
                    &&& args.variables_reference is None
                    &&& args.name == address
                    &&& args.frame_id is None
                    &&& args.as_address == Some(true)
                    &&& args.bytes == bytes
                },
            },
    {
        let (variables_reference, name, frame_id, as_address, bytes) = match &self.context {
            DataBreakpointContext::Variable { variables_reference, name, bytes } => (
                Some(*variables_reference),
                name.clone(),
                None,
                Some(false),
                *bytes,
            ),
            DataBreakpointContext::Expression { expression, frame_id } => (
                None,
                expression.clone(),
                *frame_id,
                Some(false),
                None,
            ),
            DataBreakpointContext::Address { address, bytes } => (
                None,
                address.clone(),
                None,
                Some(true),
                *bytes,
            ),
        };
        DataBreakpointInfoArguments {
            variables_reference,
            name,
            frame_id,
            bytes,
            as_address,
            mode: clone_opt_string(&self.mode),
        }
    }
}

} // verus!

verus! {

#[verifier::external_type_specification]
#[verifier::external_body]
pub struct ExDecodeError(base64::DecodeError);

/// The bytes that standard Base64 (with padding) decodes the text to; `None` when the
/// text is not valid Base64.
pub uninterp spec fn base64_standard_decode(input: Seq<char>) -> Option<Seq<u8>>;

/// The value of a character of the standard Base64 alphabet of RFC 4648 (`A`-`Z` are 0-25,
/// `a`-`z` 26-51, `0`-`9` 52-61, `+` 62 and `/` 63); -1 for any other character.
pub open spec fn base64_digit(c: char) -> int {
    let v = c as int;
    if 65 <= v <= 90 {
        v - 65
    } else if 97 <= v <= 122 {
        v - 71
    } else if 48 <= v <= 57 {
        v + 4
    } else if v == 43 {
        62
    } else if v == 47 {
        63
    } else {
        -1
    }
}

pub open spec fn is_base64_digit(c: char) -> bool {
    base64_digit(c) >= 0
}

/// The three bytes that four Base64 digits carry, most significant bits first.
pub open spec fn base64_group(a: int, b: int, c: int, d: int) -> Seq<u8> {
    seq![(a * 4 + b / 16) as u8, ((b % 16) * 16 + c / 4) as u8, ((c % 4) * 64 + d) as u8]
}

/// Canonical padded standard Base64 (RFC 4648): groups of four characters of the
/// standard alphabet, the last group possibly ending in `=` or `==`, with the bits that
/// the padding leaves over all zero.
pub open spec fn canonical_standard_base64(s: Seq<char>) -> bool {
    &&& s.len() % 4 == 0
    &&& forall|i: int| 0 <= i < s.len() - 2 ==> is_base64_digit(#[trigger] s[i])
    &&& s.len() >= 4 ==> {
        let n = s.len() as int;
        ||| is_base64_digit(s[n - 2]) && is_base64_digit(s[n - 1])
        ||| is_base64_digit(s[n - 2]) && s[n - 1] == '=' && base64_digit(s[n - 2]) % 4 == 0
        ||| s[n - 2] == '=' && s[n - 1] == '=' && base64_digit(s[n - 3]) % 16 == 0
    }
}

/// The bytes canonical Base64 text stands for: three per group of four digits, two for a
/// last group ending in `=`, one for a last group ending in `==`.
pub open spec fn standard_base64_decoded(s: Seq<char>) -> Seq<u8>
    decreases s.len(),
{
    if s.len() < 4 {
        Seq::empty()
    } else {
        let g = base64_group(base64_digit(s[0]), base64_digit(s[1]), base64_digit(s[2]), base64_digit(s[3]));
        if s.len() == 4 && s[2] == '=' {
            g.take(1)
        } else if s.len() == 4 && s[3] == '=' {
            g.take(2)
        } else {
            g + standard_base64_decoded(s.skip(4))
        }
    }
}

/// Four Base64 digits carry their 24 bits, in order, in the three bytes of their group.
pub proof fn law_base64_group_carries_the_digits(a: int, b: int, c: int, d: int)
    requires
        0 <= a < 64,
        0 <= b < 64,
        0 <= c < 64,
        0 <= d < 64,
    ensures
        base64_group(a, b, c, d)[0] * 65536 + base64_group(a, b, c, d)[1] * 256 + base64_group(a, b, c, d)[2]
            == a * 262144 + b * 4096 + c * 64 + d,
{
    assert(0 <= a * 4 + b / 16 < 256);
    assert(0 <= (b % 16) * 16 + c / 4 < 256);
    assert(0 <= (c % 4) * 64 + d < 256);
    assert(b == (b / 16) * 16 + b % 16);
    assert(c == (c / 4) * 4 + c % 4);
}

/// The standard alphabet gives each of the 64 values to exactly one character.
pub proof fn law_base64_alphabet_is_one_to_one(c1: char, c2: char)
    requires
        is_base64_digit(c1),
        is_base64_digit(c2),
        base64_digit(c1) == base64_digit(c2),
    ensures
        c1 == c2,
        0 <= base64_digit(c1) < 64,
{
    assert(c1 as int == c2 as int);
}

/// Canonical Base64 text of `4n` characters decodes to `3n` bytes, less one per `=`.
pub proof fn law_base64_decoded_length(s: Seq<char>)
    requires
        canonical_standard_base64(s),
    ensures
        standard_base64_decoded(s).len() == s.len() / 4 * 3
            - (if s.len() >= 4 && s[s.len() - 1] == '=' { 1int } else { 0int })
            - (if s.len() >= 4 && s[s.len() - 2] == '=' { 1int } else { 0int }),
    decreases s.len(),
{
    if s.len() >= 4 {
        let n = s.len() as int;
        if n > 4 {
            let t = s.skip(4);
            assert forall|i: int| 0 <= i < t.len() - 2 implies is_base64_digit(#[trigger] t[i]) by {
                assert(t[i] == s[i + 4]);
            }
            assert(t[t.len() - 1] == s[n - 1]);
            assert(t[t.len() - 2] == s[n - 2]);
            assert(t[t.len() - 3] == s[n - 3]);
            assert(is_base64_digit(s[2]));
            assert(is_base64_digit(s[3]));
            law_base64_decoded_length(t);
        } else {
            if s[2] != '=' && s[3] == '=' {
                assert(is_base64_digit(s[2]));
            }
        }
    }
}

/// Decodes `data` with `base64::engine::general_purpose::STANDARD.decode`. Claimed: the
/// result depends on the text alone; it is `Ok` with the decoded bytes when the text is
/// valid Base64 and `Err` otherwise, as `base64_standard_decode` names it; and on
/// canonical padded text of the standard alphabet (the engine's `PAD` configuration
/// requires canonical padding and no trailing bits) it is `Ok` with the bytes RFC 4648
/// gives. What it does with other text is left to the name.
#[verifier::external_body]
fn decode_base64_standard(data: &str) -> (r: Result<Vec<u8>, base64::DecodeError>)
    ensures
        match r {
            Ok(bytes) => base64_standard_decode(data@) == Some(bytes@),
            Err(_) => base64_standard_decode(data@) is None,
        },
        match r {
            Ok(bytes) => canonical_standard_base64(data@) ==> bytes@ == standard_base64_decoded(data@),
            Err(_) => !canonical_standard_base64(data@),
        },
{
    base64::engine::general_purpose::STANDARD.decode(data)
}

/// Why a debug-adapter response could not be used.
#[derive(Clone, Copy, Debug, PartialEq, Eq, Structural)]
pub enum DapResponseError {
    /// The memory contents of a read-memory response are not valid Base64.
    InvalidMemoryData,
}

/// Reads `count` bytes of memory at a memory reference and offset.
#[derive(Clone, Debug, Hash, PartialEq, Eq)]
pub struct ReadMemory {
    pub memory_reference: String,
    pub offset: Option<u64>,
    pub count: u64,
}

#[derive(Clone, Debug, PartialEq, Eq)]
pub struct ReadMemoryArguments {
    pub memory_reference: String,
    pub offset: Option<u64>,
    pub count: u64,
}

/// A read-memory response as the adapter sends it; `data` is Base64.
#[derive(Clone, Debug, PartialEq, Eq)]
pub struct ReadMemoryResponseBody {
    pub address: String,
    pub unreadable_bytes: Option<u64>,
    pub data: Option<String>,
}

/// Memory read from the debuggee.
#[derive(Clone, Debug, PartialEq, Eq)]
pub struct ReadMemoryResponse {
    pub address: String,
    pub unreadable_bytes: Option<u64>,
    pub content: Vec<u8>,
}

/// The memory read result for a response whose contents decoded to `decoded`: no data
/// means no bytes, data that did not decode is an error.
pub open spec fn memory_response_ok(
    address: String,
    unreadable_bytes: Option<u64>,
    decoded: Option<Option<Seq<u8>>>,
    r: Result<ReadMemoryResponse, DapResponseError>,
) -> bool {
    match decoded {
        Some(None) => r == Err::<ReadMemoryResponse, DapResponseError>(DapResponseError::InvalidMemoryData),
        _ => (r matches Ok(resp) && resp.address == address && resp.unreadable_bytes == unreadable_bytes
            && resp.content@ == match decoded {
                Some(Some(bytes)) => bytes,
                _ => Seq::empty(),
            }),
    }
}

/// The memory read result, given what the response's contents decoded to
/// (`None`: the response had no contents; `Some(None)`: they were not valid Base64).
pub fn memory_response_from_decoded(
    address: String,
    unreadable_bytes: Option<u64>,
    decoded: Option<Option<Vec<u8>>>,
) -> (r: Result<ReadMemoryResponse, DapResponseError>)
    ensures
        memory_response_ok(
            address,
            unreadable_bytes,
            match decoded {
                Some(Some(v)) => Some(Some(v@)),
                Some(None) => Some(None),
                None => None,
            },
            r,
        ),
{
    let content = match decoded {
        Some(Some(bytes)) => bytes,
        Some(None) => return Err(DapResponseError::InvalidMemoryData),
        None => Vec::new(),
    };
    Ok(ReadMemoryResponse { address, unreadable_bytes, content })
}

impl ReadMemory {
    pub fn to_dap(&self) -> (args: ReadMemoryArguments)
        ensures
            args.memory_reference == self.memory_reference,
            args.offset == self.offset,
            args.count == self.count,
    {
        ReadMemoryArguments {
            memory_reference: self.memory_reference.clone(),
            offset: self.offset,
            count: self.count,
        }
    }

    /// The memory read, with the response's Base64 contents decoded.
    pub fn response_from_dap(&self, message: ReadMemoryResponseBody) -> (r: Result<ReadMemoryResponse, DapResponseError>)
        ensures
            memory_response_ok(
                message.address,
                message.unreadable_bytes,
                match message.data {
                    Some(d) => Some(base64_standard_decode(d@)),
                    None => None,
                },
                r,
            ),
            message.data matches Some(d) ==> (canonical_standard_base64(d@) ==> (r matches Ok(resp)
                && resp.content@ == standard_base64_decoded(d@))),
    {
        let ReadMemoryResponseBody { address, unreadable_bytes, data } = message;
        let decoded = match data {
            Some(d) => match decode_base64_standard(d.as_str()) {
                Ok(bytes) => Some(Some(bytes)),
                Err(_) => Some(None),
            },
            None => None,
        };
        memory_response_from_decoded(address, unreadable_bytes, decoded)
    }
}

/// How paths are sent to the adapter.
#[derive(Clone, Copy, Debug, PartialEq, Eq, Structural)]
pub enum InitializeRequestArgumentsPathFormat {
    Path,
    Uri,
}

/// What the client tells an adapter about itself when a session starts.
#[derive(Clone, Debug, PartialEq, Eq)]
pub struct InitializeRequestArguments {
    pub client_id: Option<String>,
    pub client_name: Option<String>,
    pub adapter_id: String,
    pub locale: Option<String>,
    pub path_format: Option<InitializeRequestArgumentsPathFormat>,
    pub supports_variable_type: Option<bool>,
    pub supports_variable_paging: Option<bool>,
    pub supports_run_in_terminal_request: Option<bool>,
    pub supports_memory_references: Option<bool>,
    pub supports_progress_reporting: Option<bool>,
    pub supports_invalidated_event: Option<bool>,
    pub lines_start_at1: Option<bool>,
    pub columns_start_at1: Option<bool>,
    pub supports_memory_event: Option<bool>,
    pub supports_args_can_be_interpreted_by_shell: Option<bool>,
    pub supports_start_debugging_request: Option<bool>,
    pub supports_ansistyling: Option<bool>,
}

/// The client's self-description: it is Zed, speaks en-US, uses paths and one-based lines
/// and columns, and supports variable types, run-in-terminal, memory references,
/// start-debugging and ANSI styling, but no variable paging, progress, invalidated or
/// memory events, or shell-interpreted arguments.
pub open spec fn client_capabilities_for(adapter_id: String, args: InitializeRequestArguments) -> bool {
    &&& args.client_id matches Some(id) && id@ == "zed"@
    &&& args.client_name matches Some(name) && name@ == "Zed"@
    &&& args.adapter_id == adapter_id
    &&& args.locale matches Some(locale) && locale@ == "en-US"@
    &&& args.path_format == Some(InitializeRequestArgumentsPathFormat::Path)
    &&& args.supports_variable_type == Some(true)
    &&& args.supports_variable_paging == Some(false)
    &&& args.supports_run_in_terminal_request == Some(true)
    &&& args.supports_memory_references == Some(true)
    &&& args.supports_progress_reporting == Some(false)
    &&& args.supports_invalidated_event == Some(false)
    &&& args.lines_start_at1 == Some(true)
    &&& args.columns_start_at1 == Some(true)
    &&& args.supports_memory_event == Some(false)
    &&& args.supports_args_can_be_interpreted_by_shell == Some(false)
    &&& args.supports_start_debugging_request == Some(true)
    &&& args.supports_ansistyling == Some(true)
}

/// The arguments of the initialize request for the adapter `adapter_id`.
pub fn dap_client_capabilities(adapter_id: String) -> (args: InitializeRequestArguments)
    ensures
        client_capabilities_for(adapter_id, args),
{
    InitializeRequestArguments {
        client_id: Some(String::from_str("zed")),
        client_name: Some(String::from_str("Zed")),
        adapter_id,
        locale: Some(String::from_str("en-US")),
        path_format: Some(InitializeRequestArgumentsPathFormat::Path),
        supports_variable_type: Some(true),
        supports_variable_paging: Some(false),
        supports_run_in_terminal_request: Some(true),
        supports_memory_references: Some(true),
        supports_progress_reporting: Some(false),
        supports_invalidated_event: Some(false),
        lines_start_at1: Some(true),
        columns_start_at1: Some(true),
        supports_memory_event: Some(false),
        supports_args_can_be_interpreted_by_shell: Some(false),
        supports_start_debugging_request: Some(true),
        supports_ansistyling: Some(true),
    }
}

/// An exception filter with options.
#[derive(Clone, Debug, PartialEq, Eq)]
pub struct ExceptionFilterOptions {
    pub filter_id: String,
    pub condition: Option<String>,
    pub mode: Option<String>,
}

/// Which exceptions should break: by filter ids, or by filters with options.
#[derive(Clone, Debug, PartialEq, Eq)]
pub enum SetExceptionBreakpoints {
    Plain { filters: Vec<String> },
    WithOptions { filters: Vec<ExceptionFilterOptions> },
}

#[derive(Clone, Debug, PartialEq, Eq)]
pub struct SetExceptionBreakpointsArguments {
    pub filters: Vec<String>,
    pub filter_options: Option<Vec<ExceptionFilterOptions>>,
}

fn clone_filter_options(v: &Vec<ExceptionFilterOptions>) -> (r: Vec<ExceptionFilterOptions>)
    ensures
        r@ == v@,
{
    let mut r: Vec<ExceptionFilterOptions> = Vec::new();
    let mut i: usize = 0;
    while i < v.len()
        invariant
            i <= v@.len(),
            r@ == v@.take(i as int),
        decreases v@.len() - i,
    {
        let f = &v[i];
        let c = ExceptionFilterOptions {
            filter_id: f.filter_id.clone(),
            condition: clone_opt_string(&f.condition),
            mode: clone_opt_string(&f.mode),
        };
        r.push(c);
        proof {
            assert(v@.take(i as int).push(v@[i as int]) =~= v@.take(i + 1));
        }
        i = i + 1;
    }
    proof {
        assert(v@.take(v@.len() as int) =~= v@);
    }
    r
}

impl SetExceptionBreakpoints {
    /// Plain filters go as filter ids; filters with options go as filter options, with
    /// no plain filter ids.
    pub fn to_dap(&self) -> (args: SetExceptionBreakpointsArguments)
        ensures
            match *self {
                SetExceptionBreakpoints::Plain { filters } => args.filters@ == filters@ && args.filter_options is None,
                SetExceptionBreakpoints::WithOptions { filters } => args.filters@.len() == 0
                    && (args.filter_options matches Some(o) && o@ == filters@),
            },
    {
        match self {
            SetExceptionBreakpoints::Plain { filters } => SetExceptionBreakpointsArguments {
                filters: crate::emmet::clone_strings(filters),
                filter_options: None,
            },
            SetExceptionBreakpoints::WithOptions { filters } => SetExceptionBreakpointsArguments {
                filters: Vec::new(),
                filter_options: Some(clone_filter_options(filters)),
            },
        }
    }

    /// The breakpoints the adapter reports; none when it reports no list.
    pub fn response_from_dap<B>(&self, breakpoints: Option<Vec<B>>) -> (r: Vec<B>)
        ensures
            r@ == match breakpoints {
                Some(b) => b@,
                None => Seq::empty(),
            },
    {
        match breakpoints {
            Some(b) => b,
            None => Vec::new(),
        }
    }
}

/// How far a step goes.
#[derive(Clone, Copy, Debug, Hash, PartialEq, Eq, Structural)]
pub enum SteppingGranularity {
    Statement,
    Line,
    Instruction,
}

/// A step of one thread (or of all threads unless `single_thread`).
#[derive(Clone, Copy, Debug, Hash, PartialEq, Eq, Structural)]
pub struct StepCommand {
    pub thread_id: i64,
    pub granularity: Option<SteppingGranularity>,
    pub single_thread: Option<bool>,
}

/// The arguments of a next, step-out or step-back request.
#[derive(Clone, Copy, Debug, PartialEq, Eq, Structural)]
pub struct StepArguments {
    pub thread_id: i64,
    pub single_thread: Option<bool>,
    pub granularity: Option<SteppingGranularity>,
}

/// The arguments of a step-in request.
#[derive(Clone, Copy, Debug, PartialEq, Eq, Structural)]
pub struct StepInArguments {
    pub thread_id: i64,
    pub single_thread: Option<bool>,
    pub target_id: Option<u64>,
    pub granularity: Option<SteppingGranularity>,
}

impl StepCommand {
    /// The arguments of a next, step-out or step-back request for this step.
    pub fn to_step_arguments(&self) -> (args: StepArguments)
        ensures
            args == (StepArguments { thread_id: self.thread_id, single_thread: self.single_thread, granularity: self.granularity }),
    {
        StepArguments { thread_id: self.thread_id, single_thread: self.single_thread, granularity: self.granularity }
    }

    /// The arguments of a step-in request for this step, with no particular target.
    pub fn to_step_in_arguments(&self) -> (args: StepInArguments)
        ensures
            args == (StepInArguments {
                thread_id: self.thread_id,
                single_thread: self.single_thread,
                target_id: None,
                granularity: self.granularity,
            }),
    {
        StepInArguments { thread_id: self.thread_id, single_thread: self.single_thread, target_id: None, granularity: self.granularity }
    }
}

/// What a variables request lists: indexed or named children.
#[derive(Clone, Copy, Debug, Hash, PartialEq, Eq, Structural)]
pub enum VariablesArgumentsFilter {
    Indexed,
    Named,
}

/// How values are formatted.
#[derive(Clone, Copy, Debug, Hash, PartialEq, Eq, Structural)]
pub struct ValueFormat {
    pub hex: Option<bool>,
}

/// Lists the variables below a variables reference, possibly one page of them.
#[derive(Clone, Copy, Debug, Hash, PartialEq, Eq, Structural)]
pub struct VariablesCommand {
    pub variables_reference: u64,
    pub filter: Option<VariablesArgumentsFilter>,
    pub start: Option<u64>,
    pub count: Option<u64>,
    pub format: Option<ValueFormat>,
}

#[derive(Clone, Copy, Debug, PartialEq, Eq, Structural)]
pub struct VariablesArguments {
    pub variables_reference: u64,
    pub filter: Option<VariablesArgumentsFilter>,
    pub start: Option<u64>,
    pub count: Option<u64>,
    pub format: Option<ValueFormat>,
}

impl VariablesCommand {
    pub fn to_dap(&self) -> (args: VariablesArguments)
        ensures
            args == (VariablesArguments {
                variables_reference: self.variables_reference,
                filter: self.filter,
                start: self.start,
                count: self.count,
                format: self.format,
            }),
    {
        VariablesArguments {
            variables_reference: self.variables_reference,
            filter: self.filter,
            start: self.start,
            count: self.count,
            format: self.format,
        }
    }

    /// The variables of the response.
    pub fn response_from_dap<V>(&self, variables: Vec<V>) -> (r: Vec<V>)
        ensures
            r@ == variables@,
    {
        variables
    }
}


/// Ends the debug session.
#[derive(Clone, Copy, Debug, Hash, PartialEq, Eq, Structural)]
pub struct DisconnectCommand {
    pub restart: Option<bool>,
    pub terminate_debuggee: Option<bool>,
    pub suspend_debuggee: Option<bool>,
}

#[derive(Clone, Copy, Debug, PartialEq, Eq, Structural)]
pub struct DisconnectArguments {
    pub restart: Option<bool>,
    pub terminate_debuggee: Option<bool>,
    pub suspend_debuggee: Option<bool>,
}

impl DisconnectCommand {
    pub fn to_dap(&self) -> (args: DisconnectArguments)
        ensures
            args == (DisconnectArguments {
                restart: self.restart,
                terminate_debuggee: self.terminate_debuggee,
                suspend_debuggee: self.suspend_debuggee,
            }),
    {
        DisconnectArguments {
            restart: self.restart,
            terminate_debuggee: self.terminate_debuggee,
            suspend_debuggee: self.suspend_debuggee,
        }
    }
}

/// Sets a variable below a variables reference to a new value.
#[derive(Debug, Hash, PartialEq, Eq)]
pub struct SetVariableValueCommand {
    pub name: String,
    pub value: String,
    pub variables_reference: u64,
}

#[derive(Debug, PartialEq, Eq)]
pub struct SetVariableArguments {
    pub format: Option<ValueFormat>,
    pub name: String,
    pub value: String,
    pub variables_reference: u64,
}

impl SetVariableValueCommand {
    /// The arguments, with the adapter's default value format.
    pub fn to_dap(&self) -> (args: SetVariableArguments)
        ensures
            args.format is None,
            args.name@ == self.name@,
            args.value@ == self.value@,
            args.variables_reference == self.variables_reference,
    {
        SetVariableArguments {
            format: None,
            name: self.name.clone(),
            value: self.value.clone(),
            variables_reference: self.variables_reference,
        }
    }
}

/// Lists the stack frames of a thread, possibly one page of them.
#[derive(Clone, Copy, Debug, Hash, PartialEq, Eq, Structural)]
pub struct StackTraceCommand {
    pub thread_id: i64,
    pub start_frame: Option<u64>,
    pub levels: Option<u64>,
}

#[derive(Clone, Copy, Debug, PartialEq, Eq, Structural)]
pub struct StackTraceArguments {
    pub thread_id: i64,
    pub start_frame: Option<u64>,
    pub levels: Option<u64>,
    pub format: Option<ValueFormat>,
}

impl StackTraceCommand {
    /// The arguments, with the adapter's default frame format.
    pub fn to_dap(&self) -> (args: StackTraceArguments)
        ensures
            args == (StackTraceArguments {
                thread_id: self.thread_id,
                start_frame: self.start_frame,
                levels: self.levels,
                format: None,
            }),
    {
        StackTraceArguments { thread_id: self.thread_id, start_frame: self.start_frame, levels: self.levels, format: None }
    }
}

/// Completions of a text typed in the debug console.
#[derive(Debug, Hash, PartialEq, Eq)]
pub struct CompletionsQuery {
    pub query: String,
    pub column: u64,
    pub frame_id: Option<u64>,
}

#[derive(Debug, PartialEq, Eq)]
pub struct CompletionsArguments {
    pub text: String,
    pub frame_id: Option<u64>,
    pub column: u64,
    pub line: Option<u64>,
}

impl CompletionsQuery {
    /// The arguments: the typed text and column, in the given frame, on no particular line.
    pub fn to_dap(&self) -> (args: CompletionsArguments)
        ensures
            args.text@ == self.query@,
            args.frame_id == self.frame_id,
            args.column == self.column,
            args.line is None,
    {
        CompletionsArguments { text: self.query.clone(), frame_id: self.frame_id, column: self.column, line: None }
    }
}

/// Evaluates an expression; `C` is the context the expression comes from and `S` a source.
#[derive(Debug, Hash, PartialEq, Eq)]
pub struct EvaluateCommand<C, S> {
    pub expression: String,
    pub frame_id: Option<u64>,
    pub context: Option<C>,
    pub source: Option<S>,
}

#[derive(Debug, PartialEq, Eq)]
pub struct EvaluateArguments<C, S> {
    pub expression: String,
    pub frame_id: Option<u64>,
    pub context: Option<C>,
    pub source: Option<S>,
    pub line: Option<u64>,
    pub column: Option<u64>,
    pub format: Option<ValueFormat>,
}

/// `b` is a clone of `a`, or both are `None`.
pub open spec fn option_cloned<T: Clone>(a: Option<T>, b: Option<T>) -> bool {
    match a {
        Some(x) => b matches Some(y) && cloned(x, y),
        None => b is None,
    }
}

impl<C: Clone, S: Clone> EvaluateCommand<C, S> {
    /// The arguments: the expression in its frame, context and source, at no particular
    /// line or column, with the adapter's default format.
    pub fn to_dap(&self) -> (args: EvaluateArguments<C, S>)
        ensures
            args.expression@ == self.expression@,
            args.frame_id == self.frame_id,
            option_cloned(self.context, args.context),
            option_cloned(self.source, args.source),
            args.line is None,
            args.column is None,
            args.format is None,
    {
        EvaluateArguments {
            expression: self.expression.clone(),
            frame_id: self.frame_id,
            context: self.context.clone(),
            source: self.source.clone(),
            line: None,
            column: None,
            format: None,
        }
    }
}

/// Replaces the breakpoints of a source; `S` is the source and `B` a breakpoint.
#[derive(Debug, Hash, PartialEq, Eq)]
pub struct SetBreakpoints<S, B> {
    pub source: S,
    pub breakpoints: Vec<B>,
    pub source_modified: Option<bool>,
}

#[derive(Debug, PartialEq, Eq)]
pub struct SetBreakpointsArguments<S, B> {
    pub source: S,
    pub breakpoints: Option<Vec<B>>,
    pub lines: Option<Vec<u64>>,
    pub source_modified: Option<bool>,
}

impl<S: Clone, B: Clone> SetBreakpoints<S, B> {
    /// The arguments: the source and its breakpoints, without the older line list.
    pub fn to_dap(&self) -> (args: SetBreakpointsArguments<S, B>)
        ensures
            cloned(self.source, args.source),
            args.breakpoints matches Some(b) && b@.len() == self.breakpoints@.len()
                && forall|i: int| 0 <= i < b@.len() ==> cloned(self.breakpoints@[i], #[trigger] b@[i]),
            args.lines is None,
            args.source_modified == self.source_modified,
    {
        SetBreakpointsArguments {
            source: self.source.clone(),
            breakpoints: Some(self.breakpoints.clone()),
            lines: None,
            source_modified: self.source_modified,
        }
    }
}

/// Lists the modules the debuggee loaded.
#[derive(Clone, Copy, Debug, Hash, PartialEq, Eq, Structural)]
pub struct ModulesCommand;

#[derive(Clone, Copy, Debug, PartialEq, Eq, Structural)]
pub struct ModulesArguments {
    pub start_module: Option<u64>,
    pub module_count: Option<u64>,
}

impl ModulesCommand {
    /// The arguments: all modules.
    pub fn to_dap(&self) -> (args: ModulesArguments)
        ensures
            args == (ModulesArguments { start_module: None, module_count: None }),
    {
        ModulesArguments { start_module: None, module_count: None }
    }
}

} // verus!
