use rust_analyzer_mcp::json::Json;
use rust_analyzer_mcp::protocol::{MCPRequest, MCPResponse};
use rust_analyzer_mcp::tools::get_tools;

fn obj(pairs: Vec<(&str, Json)>) -> Json {
    Json::Object(pairs.into_iter().map(|(k, v)| (k.to_string(), v)).collect())
}

fn s(x: &str) -> Json {
    Json::Str(x.to_string())
}

fn request_json(id: Option<Json>, method: &str, params: Option<Json>) -> Json {
    let mut members = vec![("jsonrpc".to_string(), s("2.0"))];
    if let Some(id) = id {
        members.push(("id".to_string(), id));
    }
    members.push(("method".to_string(), s(method)));
    if let Some(p) = params {
        members.push(("params".to_string(), p));
    }
    Json::Object(members)
}

#[test]
fn test_mcp_request_serialization() {
    let params = obj(vec![("version", s("0.1.0"))]);
    let j = request_json(Some(Json::UInt(1)), "initialize", Some(obj(vec![("version", s("0.1.0"))])));
    let request = MCPRequest::from_json(&j).unwrap();
    assert_eq!(request.method, "initialize");
    assert_eq!(request.params, Some(params));
    assert_eq!(request.id, Some(Json::UInt(1)));
}

#[test]
fn test_mcp_response_serialization() {
    let response = MCPResponse::success(Some(Json::UInt(1)), obj(vec![("status", s("success"))]));
    let j = response.to_json();
    assert_eq!(j.get("result"), Some(&obj(vec![("status", s("success"))])));
    assert!(j.get("error").is_none());
}

#[test]
fn test_mcp_error_response() {
    let mut response = MCPResponse::failure(Some(Json::UInt(1)), -32601, "Method not found".to_string());
    if let MCPResponse::Error { error, .. } = &mut response {
        error.data = Some(obj(vec![("method", s("unknown_method"))]));
    }
    let j = response.to_json();
    assert!(j.get("result").is_none());
    let error = j.get("error").expect("an error member");
    assert_eq!(error.get("code"), Some(&Json::NegInt(-32601)));
    assert_eq!(error.get("message"), Some(&s("Method not found")));
    assert_eq!(error.get("data"), Some(&obj(vec![("method", s("unknown_method"))])));
}

#[test]
fn test_notification_without_id() {
    let j = request_json(None, "textDocument/didOpen", Some(obj(vec![("uri", s("file:///test.rs"))])));
    let request = MCPRequest::from_json(&j).unwrap();
    assert!(request.id.is_none());
    let reply = MCPResponse::success(request.id, Json::Null).to_json();
    assert!(reply.get("id").is_none());
}

#[test]
fn test_tool_call_request() {
    let params = obj(vec![
        ("name", s("rust_analyzer_symbols")),
        ("arguments", obj(vec![("file_path", s("src/main.rs"))])),
    ]);
    let request = MCPRequest::from_json(&request_json(Some(Json::UInt(42)), "tools/call", Some(params))).unwrap();
    assert_eq!(request.method, "tools/call");
    let params = request.params.unwrap();
    assert_eq!(params.get("name"), Some(&s("rust_analyzer_symbols")));
    assert_eq!(params.get("arguments").unwrap().get("file_path"), Some(&s("src/main.rs")));
}

#[test]
fn test_tool_definition_serialization() {
    let tools = get_tools();
    let symbols = tools.iter().find(|t| t.name == "rust_analyzer_symbols").unwrap();
    let j = symbols.to_json();
    assert!(j.get("inputSchema").is_some());
    assert_eq!(j.get("name"), Some(&s("rust_analyzer_symbols")));
    assert_eq!(j.get("description"), Some(&s("Get document symbols (functions, structs, etc.) for a Rust file")));
}

#[test]
fn test_all_tools_have_valid_schemas() {
    let expected: Vec<(&str, Vec<&str>)> = vec![
        ("rust_analyzer_symbols", vec!["file_path"]),
        ("rust_analyzer_definition", vec!["file_path", "line", "character"]),
        ("rust_analyzer_references", vec!["file_path", "line", "character"]),
        ("rust_analyzer_hover", vec!["file_path", "line", "character"]),
        ("rust_analyzer_completion", vec!["file_path", "line", "character"]),
        ("rust_analyzer_format", vec!["file_path"]),
        ("rust_analyzer_code_actions", vec!["file_path", "line", "character", "end_line", "end_character"]),
        ("rust_analyzer_set_workspace", vec!["workspace_path"]),
    ];
    let tools = get_tools();
    for (name, required) in expected {
        let tool = tools.iter().find(|t| t.name == name).unwrap();
        let schema = &tool.input_schema;
        assert_eq!(schema.get("type"), Some(&s("object")));
        let want = Json::Array(required.iter().map(|f| s(f)).collect());
        assert_eq!(schema.get("required"), Some(&want));
        let Some(Json::Object(props)) = schema.get("properties") else { panic!("no properties") };
        for f in required {
            assert!(props.iter().any(|(k, _)| k == f));
        }
    }
}
