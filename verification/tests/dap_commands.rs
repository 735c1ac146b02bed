use light_code::dap_command::{
    cacheable, dap_client_capabilities, is_supported, CompletionsQuery, DapCapabilities,
    DapRequestKind, DapResponseError, DataBreakpointContext, DisconnectCommand, EvaluateCommand,
    ModulesCommand, ReadMemory, ReadMemoryResponseBody, SetBreakpoints, StackTraceCommand,
    StepCommand, SteppingGranularity,
};

#[test]
fn variable_label() {
    let ctx = DataBreakpointContext::Variable {
        variables_reference: 3,
        name: "count".to_string(),
        bytes: Some(4),
    };
    assert_eq!(ctx.human_readable_label(), "Variable: count");
}

#[test]
fn expression_label() {
    let ctx = DataBreakpointContext::Expression { expression: "a + b".to_string(), frame_id: None };
    assert_eq!(ctx.human_readable_label(), "Expression: a + b");
}

#[test]
fn address_labels_count_bytes() {
    let one = DataBreakpointContext::Address { address: "0x1000".to_string(), bytes: Some(1) };
    assert_eq!(one.human_readable_label(), "Address: 0x1000 (1 byte)");
    let many = DataBreakpointContext::Address { address: "0x1000".to_string(), bytes: Some(16) };
    assert_eq!(many.human_readable_label(), "Address: 0x1000 (16 bytes)");
    let none = DataBreakpointContext::Address { address: "0x2000".to_string(), bytes: None };
    assert_eq!(none.human_readable_label(), "Address: 0x2000");
}

#[test]
fn read_memory_decodes_base64() {
    let cmd = ReadMemory { memory_reference: "ref".to_string(), offset: Some(8), count: 5 };
    let args = cmd.to_dap();
    assert_eq!(args.memory_reference, "ref");
    assert_eq!(args.offset, Some(8));
    assert_eq!(args.count, 5);
    let body = ReadMemoryResponseBody {
        address: "0x10".to_string(),
        unreadable_bytes: Some(0),
        data: Some("aGVsbG8=".to_string()),
    };
    let response = cmd.response_from_dap(body).unwrap();
    assert_eq!(response.address, "0x10");
    assert_eq!(response.unreadable_bytes, Some(0));
    assert_eq!(response.content, b"hello".to_vec());
}

#[test]
fn read_memory_without_data_is_empty() {
    let cmd = ReadMemory { memory_reference: "ref".to_string(), offset: None, count: 0 };
    let body = ReadMemoryResponseBody { address: "0x0".to_string(), unreadable_bytes: None, data: None };
    let response = cmd.response_from_dap(body).unwrap();
    assert!(response.content.is_empty());
}

#[test]
fn read_memory_rejects_invalid_base64() {
    let cmd = ReadMemory { memory_reference: "ref".to_string(), offset: None, count: 2 };
    let body = ReadMemoryResponseBody {
        address: "0x0".to_string(),
        unreadable_bytes: None,
        data: Some("not base64!".to_string()),
    };
    assert_eq!(cmd.response_from_dap(body), Err(DapResponseError::InvalidMemoryData));
}

#[test]
fn client_capabilities_describe_zed() {
    let args = dap_client_capabilities("lldb".to_string());
    assert_eq!(args.client_id.as_deref(), Some("zed"));
    assert_eq!(args.client_name.as_deref(), Some("Zed"));
    assert_eq!(args.adapter_id, "lldb");
    assert_eq!(args.locale.as_deref(), Some("en-US"));
    assert_eq!(args.supports_variable_paging, Some(false));
    assert_eq!(args.supports_run_in_terminal_request, Some(true));
}

#[test]
fn step_arguments_keep_the_step() {
    let step = StepCommand { thread_id: 7, granularity: Some(SteppingGranularity::Line), single_thread: Some(true) };
    let args = step.to_step_arguments();
    assert_eq!(args.thread_id, 7);
    assert_eq!(args.granularity, Some(SteppingGranularity::Line));
    assert_eq!(args.single_thread, Some(true));
    let step_in = step.to_step_in_arguments();
    assert_eq!(step_in.target_id, None);
    assert_eq!(step_in.thread_id, 7);
}

#[test]
fn request_support_follows_capabilities() {
    let none = DapCapabilities::default();
    assert!(!is_supported(DapRequestKind::ReadMemory, &none));
    assert!(is_supported(DapRequestKind::Next, &none));
    assert!(cacheable(DapRequestKind::StackTrace));
    assert!(!cacheable(DapRequestKind::Next));
}

#[test]
fn simple_request_arguments() {
    let disconnect = DisconnectCommand { restart: Some(false), terminate_debuggee: Some(true), suspend_debuggee: None };
    let args = disconnect.to_dap();
    assert_eq!(args.terminate_debuggee, Some(true));
    assert_eq!(args.suspend_debuggee, None);

    let trace = StackTraceCommand { thread_id: 1, start_frame: Some(2), levels: Some(20) };
    let args = trace.to_dap();
    assert_eq!(args.levels, Some(20));
    assert_eq!(args.format, None);

    let query = CompletionsQuery { query: "pri".to_string(), column: 4, frame_id: Some(9) };
    let args = query.to_dap();
    assert_eq!(args.text, "pri");
    assert_eq!(args.column, 4);
    assert_eq!(args.line, None);

    let modules = ModulesCommand.to_dap();
    assert_eq!(modules.start_module, None);
    assert_eq!(modules.module_count, None);
}

#[test]
fn evaluate_and_breakpoint_arguments_clone_their_parts() {
    let eval = EvaluateCommand { expression: "x".to_string(), frame_id: Some(3), context: Some("repl".to_string()), source: None::<String> };
    let args = eval.to_dap();
    assert_eq!(args.expression, "x");
    assert_eq!(args.context.as_deref(), Some("repl"));
    assert_eq!(args.line, None);

    let set = SetBreakpoints { source: "main.rs".to_string(), breakpoints: vec![10u64, 20], source_modified: Some(false) };
    let args = set.to_dap();
    assert_eq!(args.source, "main.rs");
    assert_eq!(args.breakpoints, Some(vec![10, 20]));
    assert_eq!(args.lines, None);
}
