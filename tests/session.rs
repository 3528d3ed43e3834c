use rust_analyzer_mcp::client::{
    DiagnosticsQuery, configuration_params, document_uri, initialize_params, notification_message, pulled_diagnostics, request_message,
    RustAnalyzerClient,
};
use rust_analyzer_mcp::correlator::{Correlator, RequestFailure, WaitOutcome};
use rust_analyzer_mcp::json::Json;

fn obj(pairs: Vec<(&str, Json)>) -> Json {
    Json::Object(pairs.into_iter().map(|(k, v)| (k.to_string(), v)).collect())
}

fn s(x: &str) -> Json {
    Json::Str(x.to_string())
}

fn response(id: u64, result: Json) -> Json {
    obj(vec![("jsonrpc", s("2.0")), ("id", Json::UInt(id)), ("result", result)])
}

fn publish(uri: &str, diags: Vec<Json>) -> Json {
    obj(vec![
        ("jsonrpc", s("2.0")),
        ("method", s("textDocument/publishDiagnostics")),
        ("params", obj(vec![("uri", s(uri)), ("diagnostics", Json::Array(diags))])),
    ])
}

#[test]
fn ids_increase_from_one() {
    let mut c: Correlator<&str> = Correlator::new();
    assert_eq!(c.next_id(), Some(1));
    assert_eq!(c.next_id(), Some(2));
    assert_eq!(c.next_id(), Some(3));
}

#[test]
fn responses_in_any_order_reach_their_own_callers() {
    let mut client: RustAnalyzerClient<usize> = RustAnalyzerClient::new("/ws".to_string());
    let mut ids = Vec::new();
    for caller in 0..5usize {
        let (id, _) = client.hover("file:///ws/a.rs", caller as u32, 0, caller).unwrap();
        ids.push(id);
    }
    for &k in &[3usize, 0, 4, 1, 2] {
        let (caller, value) = client.handle_message(&response(ids[k], Json::UInt(100 + k as u64))).unwrap();
        assert_eq!(caller, k);
        assert_eq!(value, Json::UInt(100 + k as u64));
    }
    assert!(client.handle_message(&response(ids[0], Json::Null)).is_none());
}

#[test]
fn timed_out_request_ignores_late_response() {
    let mut client: RustAnalyzerClient<&str> = RustAnalyzerClient::new("/ws".to_string());
    let (id, _) = client.document_symbols("file:///ws/a.rs", "waiter").unwrap();
    let r: Result<Json, RequestFailure> = client.pending.finish(id, WaitOutcome::TimedOut);
    assert_eq!(r, Err(RequestFailure::Timeout));
    assert!(!client.pending.is_pending(id));
    assert!(client.handle_message(&response(id, s("late"))).is_none());
}

#[test]
fn wait_outcomes() {
    let mut c: Correlator<u8> = Correlator::new();
    let id = c.next_id().unwrap();
    c.register(id, 9);
    assert_eq!(c.finish(id, WaitOutcome::Dropped), Err::<u8, _>(RequestFailure::Cancelled));
    assert!(c.is_pending(id));
    assert_eq!(c.finish(id, WaitOutcome::Delivered(5u8)), Ok(5));
    assert_eq!(c.resolve(id), Some(9));
    assert_eq!(c.resolve(id), None);
}

#[test]
fn engine_error_becomes_null() {
    let mut client: RustAnalyzerClient<u8> = RustAnalyzerClient::new("/ws".to_string());
    let (id, _) = client.completion("file:///ws/a.rs", 1, 2, 7).unwrap();
    let msg = obj(vec![
        ("jsonrpc", s("2.0")),
        ("id", Json::UInt(id)),
        ("error", obj(vec![("code", Json::NegInt(-32601)), ("message", s("nope"))])),
        ("result", s("ignored")),
    ]);
    assert_eq!(client.handle_message(&msg), Some((7, Json::Null)));
}

#[test]
fn response_without_jsonrpc_is_ignored() {
    let mut client: RustAnalyzerClient<u8> = RustAnalyzerClient::new("/ws".to_string());
    let (id, _) = client.formatting("file:///ws/a.rs", 1).unwrap();
    let msg = obj(vec![("id", Json::UInt(id)), ("result", Json::Null)]);
    assert!(client.handle_message(&msg).is_none());
    assert!(client.pending.is_pending(id));
}

#[test]
fn request_and_notification_shapes() {
    let r = request_message(4, "shutdown", None);
    assert_eq!(r, obj(vec![("jsonrpc", s("2.0")), ("id", Json::UInt(4)), ("method", s("shutdown")), ("params", Json::Null)]));
    let n = notification_message("exit", None);
    assert_eq!(n, obj(vec![("jsonrpc", s("2.0")), ("method", s("exit")), ("params", obj(vec![]))]));
}

#[test]
fn hover_request_carries_position() {
    let mut client: RustAnalyzerClient<u8> = RustAnalyzerClient::new("/ws".to_string());
    let (id, msg) = client.hover("file:///ws/main.rs", 13, 4, 0).unwrap();
    assert_eq!(id, 1);
    let params = obj(vec![
        ("textDocument", obj(vec![("uri", s("file:///ws/main.rs"))])),
        ("position", obj(vec![("line", Json::UInt(13)), ("character", Json::UInt(4))])),
    ]);
    assert_eq!(msg, request_message(1, "textDocument/hover", Some(params)));
}

#[test]
fn open_document_once() {
    let mut client: RustAnalyzerClient<u8> = RustAnalyzerClient::new("/ws".to_string());
    let uri = "file:///ws/src/lib.rs";
    let first = client.open_document(uri, "fn main() {}");
    assert_eq!(first.len(), 2);
    assert_eq!(first[0].get("method"), Some(&s("textDocument/didOpen")));
    assert_eq!(first[1].get("method"), Some(&s("textDocument/didSave")));
    client.handle_message(&publish(uri, vec![obj(vec![("severity", Json::UInt(1))])]));
    let second = client.open_document(uri, "fn main() {}");
    assert!(second.is_empty());
    assert!(client.cached_diagnostics(uri).is_some());
}

#[test]
fn reopening_after_shutdown_clears_stale_diagnostics() {
    let mut client: RustAnalyzerClient<u8> = RustAnalyzerClient::new("/ws".to_string());
    let uri = "file:///ws/a.rs";
    client.handle_message(&publish(uri, vec![obj(vec![("severity", Json::UInt(2))])]));
    assert!(client.cached_diagnostics(uri).is_some());
    client.open_document(uri, "");
    assert!(client.cached_diagnostics(uri).is_none());
    client.initialized = true;
    let (request, exit) = client.shutdown(1);
    let (id, msg) = request.unwrap();
    assert_eq!(msg, request_message(id, "shutdown", None));
    assert_eq!(exit, Some(notification_message("exit", None)));
    assert!(client.pending.is_pending(id));
    let (request, exit) = client.shutdown(2);
    assert!(request.is_none() && exit.is_none());
    assert_eq!(client.open_document(uri, "").len(), 2);
}

#[test]
fn diagnostics_are_replaced_not_merged() {
    let mut client: RustAnalyzerClient<u8> = RustAnalyzerClient::new("/ws".to_string());
    let uri = "file:///ws/a.rs";
    let a = obj(vec![("message", s("first"))]);
    let b = obj(vec![("message", s("second"))]);
    client.handle_message(&publish(uri, vec![a]));
    client.handle_message(&publish(uri, vec![b]));
    assert_eq!(client.cached_diagnostics(uri), Some(Json::Array(vec![obj(vec![("message", s("second"))])])));
    assert_eq!(client.cached_diagnostics("file:///ws/other.rs"), None);
}

#[test]
fn other_notifications_change_nothing() {
    let mut client: RustAnalyzerClient<u8> = RustAnalyzerClient::new("/ws".to_string());
    let msg = obj(vec![("jsonrpc", s("2.0")), ("method", s("window/logMessage")), ("params", obj(vec![("uri", s("u")), ("diagnostics", Json::Array(vec![]))]))]);
    assert!(client.handle_message(&msg).is_none());
    assert!(client.cached_diagnostics("u").is_none());
}

#[test]
fn pulled_diagnostics_fall_back_to_empty() {
    let items = Json::Array(vec![s("d")]);
    assert_eq!(pulled_diagnostics(&obj(vec![("items", Json::Array(vec![s("d")]))])), items);
    assert_eq!(pulled_diagnostics(&Json::Null), Json::Array(vec![]));
}

#[test]
fn code_action_request_sends_only_overlapping_diagnostics() {
    let mut client: RustAnalyzerClient<u8> = RustAnalyzerClient::new("/ws".to_string());
    let line = |n: u64| obj(vec![("line", Json::UInt(n)), ("character", Json::UInt(0))]);
    let d = |n: u64| obj(vec![("range", obj(vec![("start", line(n)), ("end", line(n))]))]);
    let diags = Json::Array(vec![d(1), d(10)]);
    let (_, msg) = client.code_actions("file:///ws/a.rs", 0, 0, 3, 0, &diags, 0).unwrap();
    let context = msg.get("params").unwrap().get("context").unwrap();
    assert_eq!(context.get("diagnostics"), Some(&Json::Array(vec![d(1)])));
}

#[test]
fn initialize_parameters() {
    let p = initialize_params(77, "/home/me/ws");
    assert_eq!(p.get("processId"), Some(&Json::UInt(77)));
    assert_eq!(p.get("rootUri"), Some(&s("file:///home/me/ws")));
    let caps = p.get("capabilities").unwrap().get("textDocument").unwrap();
    let kinds = caps.get("codeAction").unwrap().get("codeActionLiteralSupport").unwrap().get("codeActionKind").unwrap();
    let Some(Json::Array(set)) = kinds.get("valueSet") else { panic!("no kinds") };
    assert_eq!(set.len(), 7);
    let check = obj(vec![("enable", Json::Bool(true)), ("command", s("check")), ("allTargets", Json::Bool(true))]);
    assert_eq!(p.get("initializationOptions").unwrap().get("checkOnSave"), Some(&check));
    let c = configuration_params();
    assert_eq!(c.get("settings").unwrap().get("rust-analyzer").unwrap().get("checkOnSave"), Some(&check));
    assert_eq!(document_uri("/a/b.rs"), "file:///a/b.rs");
}

#[test]
fn many_requests_resolved_in_reverse() {
    let mut client: RustAnalyzerClient<u32> = RustAnalyzerClient::new("/ws".to_string());
    let ids: Vec<u64> = (0..50u32).map(|k| client.references("file:///ws/a.rs", k, k, k).unwrap().0).collect();
    for k in (0..50usize).rev() {
        let (caller, _) = client.handle_message(&response(ids[k], Json::Null)).unwrap();
        assert_eq!(caller, k as u32);
    }
}

#[test]
fn pushed_syntax_error_reaches_the_diagnostics_report() {
    let mut client: RustAnalyzerClient<u8> = RustAnalyzerClient::new("/ws".to_string());
    let uri = "file:///ws/src/broken.rs";
    assert_eq!(client.open_document(uri, "fn main() {\n    let x = ;\n}\n").len(), 2);
    let at = |l: u64, c: u64| obj(vec![("line", Json::UInt(l)), ("character", Json::UInt(c))]);
    let d = obj(vec![
        ("range", obj(vec![("start", at(3, 12)), ("end", at(3, 13))])),
        ("severity", Json::UInt(1)),
        ("message", s("expected expression, found `;`")),
    ]);
    client.handle_message(&publish(uri, vec![d]));
    let found = client.cached_diagnostics(uri).unwrap();
    let report = rust_analyzer_mcp::diagnostics::format_diagnostics("src/broken.rs", &found);
    let summary = report.get("summary").unwrap();
    assert_eq!(summary.get("errors"), Some(&Json::UInt(1)));
    let Some(Json::Array(items)) = report.get("diagnostics") else { panic!("no diagnostics") };
    assert_eq!(items.len(), 1);
    assert_eq!(items[0].get("severity"), Some(&s("error")));
}

#[test]
fn stored_diagnostics_are_returned_without_a_request() {
    let mut client: RustAnalyzerClient<u8> = RustAnalyzerClient::new("/ws".to_string());
    let uri = "file:///ws/a.rs";
    client.handle_message(&publish(uri, vec![obj(vec![("message", s("first"))])]));
    client.handle_message(&publish(uri, vec![obj(vec![("message", s("second"))])]));
    match client.diagnostics(uri, 1) {
        DiagnosticsQuery::Cached(found) => {
            assert_eq!(found, Json::Array(vec![obj(vec![("message", s("second"))])]));
        },
        _ => panic!("stored diagnostics must be returned"),
    }
    assert_eq!(client.pending.next_id(), Some(1));
    match client.diagnostics("file:///ws/b.rs", 2) {
        DiagnosticsQuery::Pull(id, msg) => {
            assert_eq!(id, 2);
            let params = obj(vec![("textDocument", obj(vec![("uri", s("file:///ws/b.rs"))]))]);
            assert_eq!(msg, request_message(2, "textDocument/diagnostic", Some(params)));
            assert!(client.pending.is_pending(2));
        },
        _ => panic!("a pull request is due"),
    }
}

#[test]
fn failed_open_is_tried_again() {
    let mut client: RustAnalyzerClient<u8> = RustAnalyzerClient::new("/ws".to_string());
    let uri = "file:///ws/a.rs";
    assert_eq!(client.open_document(uri, "x").len(), 2);
    client.open_failed(uri);
    assert_eq!(client.open_document(uri, "x").len(), 2);
    assert!(client.open_document(uri, "x").is_empty());
}
