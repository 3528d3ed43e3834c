use rust_analyzer_mcp::json::Json;
use rust_analyzer_mcp::poller::{keep_polling, required_stable_checks, same_summary, should_poll, summarize, StabilityDetector};
use rust_analyzer_mcp::protocol::{BridgeError, MCPRequest, MCPResponse, ToolResult};
use rust_analyzer_mcp::server::{
    handle_request, parse_tool_call, tool_outcome, workspace_set_text, Route, RustAnalyzerMCPServer, SessionStep, ToolCall,
};
use rust_analyzer_mcp::tools::get_tools;

fn obj(pairs: Vec<(&str, Json)>) -> Json {
    Json::Object(pairs.into_iter().map(|(k, v)| (k.to_string(), v)).collect())
}

fn s(x: &str) -> Json {
    Json::Str(x.to_string())
}

fn keys(v: &[&str]) -> Vec<String> {
    v.iter().map(|x| x.to_string()).collect()
}

fn request(method: &str, params: Option<Json>) -> MCPRequest {
    MCPRequest { jsonrpc: "2.0".to_string(), id: Some(Json::UInt(42)), method: method.to_string(), params }
}

#[test]
fn stable_after_three_identical_reads_and_reset_on_change() {
    let mut d = StabilityDetector::new(3);
    assert!(!d.observe(keys(&["a:error:x"])));
    assert!(!d.observe(keys(&["a:error:x"])));
    assert!(d.observe(keys(&["a:error:x"])));
    assert_eq!(d.stable_count(), 2);
    assert!(!d.observe(keys(&["a:error:y"])));
    assert_eq!(d.stable_count(), 0);
    assert!(!d.observe(keys(&["a:error:y"])));
    assert!(d.good_enough());
}

#[test]
fn summaries_compare_as_sets() {
    assert!(same_summary(&keys(&["a", "b"]), &keys(&["b", "a", "a"])));
    assert!(!same_summary(&keys(&["a"]), &keys(&["a", "c"])));
    assert_eq!(required_stable_checks(false), 3);
    assert_eq!(required_stable_checks(true), 4);
    let fresh = StabilityDetector::new(3);
    assert!(!fresh.good_enough());
}

#[test]
fn summary_skips_transient_messages() {
    let report = obj(vec![(
        "diagnostics",
        Json::Array(vec![
            obj(vec![("severity", s("error")), ("message", s("unresolved macro `foo!`"))]),
            obj(vec![("severity", s("warning")), ("message", s("unused variable"))]),
            obj(vec![("message", s("no such value in this scope"))]),
            obj(vec![]),
        ]),
    )]);
    assert_eq!(summarize("src/lib.rs", &report), keys(&["src/lib.rs:warning:unused variable", "src/lib.rs:unknown:"]));
}

#[test]
fn polling_policy() {
    assert!(should_poll("src/diagnostics_test.rs"));
    assert!(should_poll("src/simple_error.rs"));
    assert!(!should_poll("src/lib.rs"));
    assert!(keep_polling(0, 8000, &Json::Array(vec![])));
    assert!(!keep_polling(0, 8000, &Json::Array(vec![Json::Null])));
    assert!(!keep_polling(8000, 8000, &Json::Array(vec![])));
    assert!(keep_polling(500, 8000, &Json::Null));
}

#[test]
fn tool_names_and_arguments() {
    let args = obj(vec![("file_path", s("src/main.rs")), ("line", Json::UInt(3)), ("character", Json::UInt(5))]);
    match parse_tool_call("rust_analyzer_hover", &args) {
        Ok(ToolCall::Hover { file_path, line, character }) => {
            assert_eq!(file_path, "src/main.rs");
            assert_eq!((line, character), (3, 5));
        },
        _ => panic!("expected a hover call"),
    }
    assert!(matches!(parse_tool_call("rust_analyzer_workspace_diagnostics", &Json::Null), Ok(ToolCall::WorkspaceDiagnostics)));
}

#[test]
fn unknown_tool_and_missing_arguments() {
    let e = parse_tool_call("rust_analyzer_nothing", &obj(vec![])).err().unwrap();
    assert_eq!(e, BridgeError::UnknownTool("rust_analyzer_nothing".to_string()));
    assert_eq!(e.message(), "Unknown tool: rust_analyzer_nothing");
    let e = parse_tool_call("rust_analyzer_definition", &obj(vec![("line", Json::UInt(1))])).err().unwrap();
    assert_eq!(e, BridgeError::MissingArgument("file_path".to_string()));
    let args = obj(vec![("file_path", s("a.rs")), ("line", s("one")), ("character", Json::UInt(0))]);
    let e = parse_tool_call("rust_analyzer_references", &args).err().unwrap();
    assert_eq!(e.message(), "Missing line");
    let args = obj(vec![("file_path", s("a.rs")), ("line", Json::UInt(1)), ("character", Json::UInt(0)), ("end_line", Json::UInt(2))]);
    let e = parse_tool_call("rust_analyzer_code_actions", &args).err().unwrap();
    assert_eq!(e, BridgeError::MissingArgument("end_character".to_string()));
    let e = parse_tool_call("rust_analyzer_set_workspace", &obj(vec![])).err().unwrap();
    assert_eq!(e.message(), "Missing workspace_path");
}

#[test]
fn error_messages() {
    assert_eq!(BridgeError::RequestTimeout.message(), "Request timeout");
    assert_eq!(BridgeError::RequestCancelled.message(), "Request cancelled");
    assert_eq!(BridgeError::NoActiveChannel.message(), "Client not initialized");
    assert_eq!(BridgeError::ProcessSpawnFailure("not found".to_string()).message(), "Failed to start rust-analyzer: not found");
    assert_eq!(
        BridgeError::FileNotReadable("src/x.rs".to_string(), "No such file".to_string()).message(),
        "Failed to read file src/x.rs: No such file"
    );
    assert_eq!(BridgeError::MethodNotFound("foo".to_string()).message(), "Method not found: foo");
}

#[test]
fn tools_list_has_every_tool() {
    let tools = get_tools();
    let names: Vec<&str> = tools.iter().map(|t| t.name.as_str()).collect();
    assert_eq!(
        names,
        vec![
            "rust_analyzer_hover",
            "rust_analyzer_definition",
            "rust_analyzer_references",
            "rust_analyzer_completion",
            "rust_analyzer_symbols",
            "rust_analyzer_format",
            "rust_analyzer_code_actions",
            "rust_analyzer_set_workspace",
            "rust_analyzer_diagnostics",
            "rust_analyzer_workspace_diagnostics",
        ]
    );
    let schema = &tools[4].input_schema;
    assert_eq!(schema.get("type"), Some(&s("object")));
    assert_eq!(schema.get("required"), Some(&Json::Array(vec![s("file_path")])));
    assert!(tools[9].input_schema.get("required").is_none());
}

#[test]
fn routing_of_requests() {
    match handle_request(&request("initialize", None)) {
        Route::Reply(MCPResponse::Success { result, id, .. }) => {
            assert_eq!(id, Some(Json::UInt(42)));
            assert_eq!(result.get("protocolVersion"), Some(&s("2024-11-05")));
        },
        _ => panic!("initialize must succeed"),
    }
    match handle_request(&request("tools/list", None)) {
        Route::Reply(MCPResponse::Success { result, .. }) => {
            let Some(Json::Array(tools)) = result.get("tools") else { panic!("no tools") };
            assert_eq!(tools.len(), 10);
        },
        _ => panic!("tools/list must succeed"),
    }
    match handle_request(&request("unknown_method", None)) {
        Route::Reply(MCPResponse::Error { error, .. }) => {
            assert_eq!(error.code, -32601);
            assert_eq!(error.message, "Method not found: unknown_method");
        },
        _ => panic!("unknown methods fail"),
    }
    match handle_request(&request("tools/call", None)) {
        Route::Reply(MCPResponse::Error { error, .. }) => assert_eq!((error.code, error.message.as_str()), (-32602, "Invalid params")),
        _ => panic!("missing params fail"),
    }
    match handle_request(&request("tools/call", Some(obj(vec![])))) {
        Route::Reply(MCPResponse::Error { error, .. }) => assert_eq!(error.message, "Missing tool name"),
        _ => panic!("missing tool name fails"),
    }
    let params = obj(vec![("name", s("rust_analyzer_symbols")), ("arguments", obj(vec![("file_path", s("src/main.rs"))]))]);
    match handle_request(&request("tools/call", Some(params))) {
        Route::CallTool { name, args, .. } => {
            assert_eq!(name, "rust_analyzer_symbols");
            assert_eq!(args.get("file_path"), Some(&s("src/main.rs")));
        },
        _ => panic!("a tool call is routed"),
    }
}

#[test]
fn request_from_json() {
    let j = obj(vec![("jsonrpc", s("2.0")), ("id", Json::Null), ("method", s("tools/list"))]);
    let r = MCPRequest::from_json(&j).unwrap();
    assert_eq!(r.method, "tools/list");
    assert!(r.id.is_none());
    assert!(MCPRequest::from_json(&obj(vec![("method", s("x"))])).is_none());
}

#[test]
fn responses_as_json() {
    let ok = tool_outcome(Some(Json::UInt(1)), Ok(ToolResult::text("hi".to_string())));
    let content = obj(vec![("content", Json::Array(vec![obj(vec![("type", s("text")), ("text", s("hi"))])]))]);
    assert_eq!(ok.to_json(), obj(vec![("jsonrpc", s("2.0")), ("id", Json::UInt(1)), ("result", content)]));
    let err = tool_outcome(None, Err(BridgeError::RequestTimeout));
    assert_eq!(
        err.to_json(),
        obj(vec![
            ("jsonrpc", s("2.0")),
            ("error", obj(vec![("code", Json::NegInt(-1)), ("message", s("Request timeout")), ("data", Json::Null)])),
        ])
    );
    assert_eq!(workspace_set_text("/tmp/ws"), "Workspace set to: /tmp/ws");
}

#[test]
fn workspace_switch_shuts_down_before_spawning() {
    let mut server = RustAnalyzerMCPServer::with_workspace("/a".to_string());
    assert_eq!(server.set_workspace("/b".to_string()), vec![SessionStep::Spawn]);
    server.session_started();
    assert!(!server.needs_client());
    assert_eq!(server.set_workspace("/c".to_string()), vec![SessionStep::Shutdown, SessionStep::Spawn]);
    assert!(server.needs_client());
    assert_eq!(server.workspace_root, "/c");
}
