//! The bridge: routing of tool-call requests, reading of tool arguments, and the one
//! engine session that the bridge owns.
use vstd::prelude::*;
use vstd::string::StringExecFns;

use crate::client::opt_json_view;
use crate::diagnostics::low32;
use crate::json::{items_view, json_view, lemma_items_view, obj1, obj2, obj3, text, text_eq, Json, JsonV};
use crate::protocol::{error_text, BridgeError, MCPRequest, MCPResponse, ToolResult};
use crate::tools::{get_tools, schema_view, tool_table, ToolSpec};

verus! {

/// The tools, by the operation they perform.
#[derive(Clone, Copy, Debug, PartialEq, Eq)]
pub enum ToolKind {
    Hover,
    Definition,
    References,
    Completion,
    Symbols,
    Format,
    CodeActions,
    SetWorkspace,
    Diagnostics,
    WorkspaceDiagnostics,
}

/// The tool that a name designates.
pub open spec fn tool_kind(name: Seq<char>) -> Option<ToolKind> {
    if name == "rust_analyzer_hover"@ {
        Some(ToolKind::Hover)
    } else if name == "rust_analyzer_definition"@ {
        Some(ToolKind::Definition)
    } else if name == "rust_analyzer_references"@ {
        Some(ToolKind::References)
    } else if name == "rust_analyzer_completion"@ {
        Some(ToolKind::Completion)
    } else if name == "rust_analyzer_symbols"@ {
        Some(ToolKind::Symbols)
    } else if name == "rust_analyzer_format"@ {
        Some(ToolKind::Format)
    } else if name == "rust_analyzer_code_actions"@ {
        Some(ToolKind::CodeActions)
    } else if name == "rust_analyzer_set_workspace"@ {
        Some(ToolKind::SetWorkspace)
    } else if name == "rust_analyzer_diagnostics"@ {
        Some(ToolKind::Diagnostics)
    } else if name == "rust_analyzer_workspace_diagnostics"@ {
        Some(ToolKind::WorkspaceDiagnostics)
    } else {
        None
    }
}

/// The tool that a name designates, if any.
pub fn tool_kind_of(name: &str) -> (r: Option<ToolKind>)
    ensures
        r == tool_kind(name@),
{
    if text_eq(name, "rust_analyzer_hover") {
        Some(ToolKind::Hover)
    } else if text_eq(name, "rust_analyzer_definition") {
        Some(ToolKind::Definition)
    } else if text_eq(name, "rust_analyzer_references") {
        Some(ToolKind::References)
    } else if text_eq(name, "rust_analyzer_completion") {
        Some(ToolKind::Completion)
    } else if text_eq(name, "rust_analyzer_symbols") {
        Some(ToolKind::Symbols)
    } else if text_eq(name, "rust_analyzer_format") {
        Some(ToolKind::Format)
    } else if text_eq(name, "rust_analyzer_code_actions") {
        Some(ToolKind::CodeActions)
    } else if text_eq(name, "rust_analyzer_set_workspace") {
        Some(ToolKind::SetWorkspace)
    } else if text_eq(name, "rust_analyzer_diagnostics") {
        Some(ToolKind::Diagnostics)
    } else if text_eq(name, "rust_analyzer_workspace_diagnostics") {
        Some(ToolKind::WorkspaceDiagnostics)
    } else {
        None
    }
}

/// A tool call with its arguments read.
pub enum ToolCall {
    Hover { file_path: String, line: u32, character: u32 },
    Definition { file_path: String, line: u32, character: u32 },
    References { file_path: String, line: u32, character: u32 },
    Completion { file_path: String, line: u32, character: u32 },
    Symbols { file_path: String },
    Format { file_path: String },
    CodeActions { file_path: String, line: u32, character: u32, end_line: u32, end_character: u32 },
    SetWorkspace { workspace_path: String },
    Diagnostics { file_path: String },
    WorkspaceDiagnostics,
}

/// A numeric argument, cut to 32 bits as the engine's positions are.
pub open spec fn num_arg(args: JsonV, key: Seq<char>) -> Option<u32> {
    match args.u64_at(key) {
        Some(n) => Some(low32(n)),
        None => None,
    }
}

/// The arguments that a tool requires, in the order they are read; `true` for text.
pub open spec fn required_args(kind: ToolKind) -> Seq<(Seq<char>, bool)> {
    match kind {
        ToolKind::Hover | ToolKind::Definition | ToolKind::References | ToolKind::Completion => seq![
            ("file_path"@, true),
            ("line"@, false),
            ("character"@, false),
        ],
        ToolKind::Symbols | ToolKind::Format | ToolKind::Diagnostics => seq![("file_path"@, true)],
        ToolKind::CodeActions => seq![
            ("file_path"@, true),
            ("line"@, false),
            ("character"@, false),
            ("end_line"@, false),
            ("end_character"@, false),
        ],
        ToolKind::SetWorkspace => seq![("workspace_path"@, true)],
        ToolKind::WorkspaceDiagnostics => Seq::empty(),
    }
}

pub open spec fn arg_present(args: JsonV, a: (Seq<char>, bool)) -> bool {
    if a.1 {
        args.str_at(a.0) is Some
    } else {
        args.u64_at(a.0) is Some
    }
}

/// The first required argument that is missing or of the wrong type.
pub open spec fn first_missing(args: JsonV, req: Seq<(Seq<char>, bool)>) -> Option<Seq<char>>
    decreases req.len(),
{
    if req.len() == 0 {
        None
    } else if !arg_present(args, req[0]) {
        Some(req[0].0)
    } else {
        first_missing(args, req.drop_first())
    }
}

/// The call carries the tool's arguments as given.
pub open spec fn call_matches(c: ToolCall, kind: ToolKind, args: JsonV) -> bool {
    let fp = args.str_at("file_path"@);
    let line = num_arg(args, "line"@);
    let ch = num_arg(args, "character"@);
    match c {
        ToolCall::Hover { file_path, line: l, character: k } => kind == ToolKind::Hover && fp == Some(file_path@)
            && line == Some(l) && ch == Some(k),
        ToolCall::Definition { file_path, line: l, character: k } => kind == ToolKind::Definition && fp == Some(
            file_path@,
        ) && line == Some(l) && ch == Some(k),
        ToolCall::References { file_path, line: l, character: k } => kind == ToolKind::References && fp == Some(
            file_path@,
        ) && line == Some(l) && ch == Some(k),
        ToolCall::Completion { file_path, line: l, character: k } => kind == ToolKind::Completion && fp == Some(
            file_path@,
        ) && line == Some(l) && ch == Some(k),
        ToolCall::Symbols { file_path } => kind == ToolKind::Symbols && fp == Some(file_path@),
        ToolCall::Format { file_path } => kind == ToolKind::Format && fp == Some(file_path@),
        ToolCall::CodeActions { file_path, line: l, character: k, end_line, end_character } => kind
            == ToolKind::CodeActions && fp == Some(file_path@) && line == Some(l) && ch == Some(k) && num_arg(
            args,
            "end_line"@,
        ) == Some(end_line) && num_arg(args, "end_character"@) == Some(end_character),
        ToolCall::SetWorkspace { workspace_path } => kind == ToolKind::SetWorkspace && args.str_at(
            "workspace_path"@,
        ) == Some(workspace_path@),
        ToolCall::Diagnostics { file_path } => kind == ToolKind::Diagnostics && fp == Some(file_path@),
        ToolCall::WorkspaceDiagnostics => kind == ToolKind::WorkspaceDiagnostics,
    }
}

/// The failure for a missing argument `key`.
pub open spec fn is_missing(e: BridgeError, key: Seq<char>) -> bool {
    match e {
        BridgeError::MissingArgument(f) => f@ == key,
        _ => false,
    }
}

fn text_arg(args: &Json, key: &str) -> (r: Result<String, BridgeError>)
    ensures
        match r {
            Ok(s) => args@.str_at(key@) == Some(s@),
            Err(e) => args@.str_at(key@) is None && is_missing(e, key@),
        },
{
    match args.str_at(key) {
        Some(s) => Ok(s.to_string()),
        None => Err(BridgeError::MissingArgument(key.to_string())),
    }
}

fn num_arg_of(args: &Json, key: &str) -> (r: Result<u32, BridgeError>)
    ensures
        match r {
            Ok(n) => num_arg(args@, key@) == Some(n),
            Err(e) => num_arg(args@, key@) is None && is_missing(e, key@),
        },
{
    match args.u64_at(key) {
        Some(n) => Ok((n % 0x1_0000_0000) as u32),
        None => Err(BridgeError::MissingArgument(key.to_string())),
    }
}

/// The failure for an unknown tool `name`.
pub open spec fn is_unknown(e: BridgeError, name: Seq<char>) -> bool {
    match e {
        BridgeError::UnknownTool(n) => n@ == name,
        _ => false,
    }
}

/// What a tool call comes to: the call with its arguments, or the failure.
pub open spec fn parsed_as(name: Seq<char>, args: JsonV, r: Result<ToolCall, BridgeError>) -> bool {
    match tool_kind(name) {
        None => r matches Err(e) && is_unknown(e, name),
        Some(k) => match first_missing(args, required_args(k)) {
            Some(f) => r matches Err(e) && is_missing(e, f),
            None => r matches Ok(c) && call_matches(c, k, args),
        },
    }
}

/// Reads a tool call: which tool `name` designates, and its arguments out of `args`.
/// Fails with `UnknownTool` for a name no tool has, and with `MissingArgument` naming
/// the first required argument that is missing or of the wrong type.
pub fn parse_tool_call(name: &str, args: &Json) -> (r: Result<ToolCall, BridgeError>)
    ensures
        parsed_as(name@, args@, r),
{
    reveal_with_fuel(first_missing, 6);
    let kind = match tool_kind_of(name) {
        Some(k) => k,
        None => {
            return Err(BridgeError::UnknownTool(name.to_string()));
        },
    };
    match kind {
        ToolKind::Hover | ToolKind::Definition | ToolKind::References | ToolKind::Completion => {
            let file_path = match text_arg(args, "file_path") {
                Ok(s) => s,
                Err(e) => {
                    return Err(e);
                },
            };
            let line = match num_arg_of(args, "line") {
                Ok(n) => n,
                Err(e) => {
                    return Err(e);
                },
            };
            let character = match num_arg_of(args, "character") {
                Ok(n) => n,
                Err(e) => {
                    return Err(e);
                },
            };
            match kind {
                ToolKind::Hover => Ok(ToolCall::Hover { file_path, line, character }),
                ToolKind::Definition => Ok(ToolCall::Definition { file_path, line, character }),
                ToolKind::References => Ok(ToolCall::References { file_path, line, character }),
                _ => Ok(ToolCall::Completion { file_path, line, character }),
            }
        },
        ToolKind::Symbols | ToolKind::Format | ToolKind::Diagnostics => {
            let file_path = match text_arg(args, "file_path") {
                Ok(s) => s,
                Err(e) => {
                    return Err(e);
                },
            };
            match kind {
                ToolKind::Symbols => Ok(ToolCall::Symbols { file_path }),
                ToolKind::Format => Ok(ToolCall::Format { file_path }),
                _ => Ok(ToolCall::Diagnostics { file_path }),
            }
        },
        ToolKind::CodeActions => {
            let file_path = match text_arg(args, "file_path") {
                Ok(s) => s,
                Err(e) => {
                    return Err(e);
                },
            };
            let line = match num_arg_of(args, "line") {
                Ok(n) => n,
                Err(e) => {
                    return Err(e);
                },
            };
            let character = match num_arg_of(args, "character") {
                Ok(n) => n,
                Err(e) => {
                    return Err(e);
                },
            };
            let end_line = match num_arg_of(args, "end_line") {
                Ok(n) => n,
                Err(e) => {
                    return Err(e);
                },
            };
            let end_character = match num_arg_of(args, "end_character") {
                Ok(n) => n,
                Err(e) => {
                    return Err(e);
                },
            };
            Ok(ToolCall::CodeActions { file_path, line, character, end_line, end_character })
        },
        ToolKind::SetWorkspace => {
            let workspace_path = match text_arg(args, "workspace_path") {
                Ok(s) => s,
                Err(e) => {
                    return Err(e);
                },
            };
            Ok(ToolCall::SetWorkspace { workspace_path })
        },
        ToolKind::WorkspaceDiagnostics => Ok(ToolCall::WorkspaceDiagnostics),
    }
}

/// The text that acknowledges a change of workspace.
pub fn workspace_set_text(workspace_root: &str) -> (r: String)
    ensures
        r@ == "Workspace set to: "@ + workspace_root@,
{
    let mut s = "Workspace set to: ".to_string();
    s.append(workspace_root);
    s
}

/// What the bridge does with a request.
pub enum Route {
    /// Answer at once.
    Reply(MCPResponse),
    /// Run the tool `name` on `args`, and answer with its outcome.
    CallTool { id: Option<Json>, name: String, args: Json },
}

/// The result of `initialize`: the protocol version, who the server is, and that it
/// offers tools.
pub open spec fn initialize_result() -> JsonV {
    JsonV::Object(
        seq![
            ("protocolVersion"@, JsonV::Str("2024-11-05"@)),
            (
                "serverInfo"@,
                JsonV::Object(seq![("name"@, JsonV::Str("rust-analyzer-mcp"@)), ("version"@, JsonV::Str("0.1.0"@))]),
            ),
            ("capabilities"@, JsonV::Object(seq![("tools"@, JsonV::Object(Seq::empty()))])),
        ],
    )
}

/// A tool as `tools/list` shows it.
pub open spec fn tool_listing(t: ToolSpec) -> JsonV {
    JsonV::Object(
        seq![("name"@, JsonV::Str(t.0)), ("description"@, JsonV::Str(t.1)), ("inputSchema"@, schema_view(t.2, t.3))],
    )
}

/// The result of `tools/list`.
pub open spec fn tools_list_result() -> JsonV {
    JsonV::Object(seq![("tools"@, JsonV::Array(tool_table().map_values(|t: ToolSpec| tool_listing(t))))])
}

/// A reply that succeeds with `result`, echoing the request's id.
pub open spec fn replies_with(r: Route, id: Option<Json>, result: JsonV) -> bool {
    r matches Route::Reply(MCPResponse::Success { jsonrpc, id: rid, result: res }) && jsonrpc@ == "2.0"@
        && opt_json_view(rid) == opt_json_view(id) && res@ == result
}

/// A reply that fails with `code` and `message`, echoing the request's id.
pub open spec fn fails_with(r: Route, id: Option<Json>, code: i64, message: Seq<char>) -> bool {
    r matches Route::Reply(MCPResponse::Error { jsonrpc, id: rid, error }) && jsonrpc@ == "2.0"@
        && opt_json_view(rid) == opt_json_view(id) && error.code == code && error.message@ == message && error.data is None
}

fn empty_object() -> (r: Json)
    ensures
        r@ == JsonV::Object(Seq::empty()),
{
    let r = Json::Object(Vec::new());
    assert(crate::json::entries_view(Seq::<(String, Json)>::empty()) =~= Seq::<(Seq<char>, JsonV)>::empty());
    r
}

fn tools_list() -> (r: Json)
    ensures
        r@ == tools_list_result(),
{
    let tools = get_tools();
    let mut items: Vec<Json> = Vec::new();
    let mut i: usize = 0;
    while i < tools.len()
        invariant
            tools@.len() == tool_table().len(),
            forall|k: int| 0 <= k < tools@.len() ==> crate::tools::listed_as(#[trigger] tools@[k], tool_table()[k]),
            0 <= i <= tools@.len(),
            items@.len() == i,
            forall|k: int| 0 <= k < i ==> #[trigger] json_view(items@[k]) == tool_listing(tool_table()[k]),
        decreases tools@.len() - i,
    {
        let j = tools[i].to_json();
        proof {
            assert(crate::tools::listed_as(tools@[i as int], tool_table()[i as int]));
            assert(j@->Object_0 =~= tool_listing(tool_table()[i as int])->Object_0);
        }
        items.push(j);
        i = i + 1;
    }
    proof {
        lemma_items_view(items@);
        assert(items_view(items@) =~= tool_table().map_values(|t: ToolSpec| tool_listing(t)));
    }
    obj1("tools", Json::Array(items))
}

/// Routes a request: `initialize` and `tools/list` are answered at once; `tools/call`
/// names the tool to run, or fails with code -32602 where its parameters or the tool's
/// name are missing; any other method fails with code -32601.
pub fn handle_request(request: &MCPRequest) -> (r: Route)
    ensures
        request.method@ == "initialize"@ ==> replies_with(r, request.id, initialize_result()),
        request.method@ == "tools/list"@ ==> replies_with(r, request.id, tools_list_result()),
        request.method@ == "tools/call"@ ==> match request.params {
            None => fails_with(r, request.id, -32602i64, "Invalid params"@),
            Some(p) => match p@.str_at("name"@) {
                None => fails_with(r, request.id, -32602i64, "Missing tool name"@),
                Some(name) => r matches Route::CallTool { id, name: n, args } && opt_json_view(id)
                    == opt_json_view(request.id) && n@
                    == name && args@ == match p@.get("arguments"@) {
                    Some(a) => a,
                    None => JsonV::Object(Seq::empty()),
                },
            },
        },
        request.method@ != "initialize"@ && request.method@ != "tools/list"@ && request.method@
            != "tools/call"@ ==> fails_with(r, request.id, -32601i64, "Method not found: "@ + request.method@),
{
    let id = match &request.id {
        Some(v) => Some(v.duplicate()),
        None => None,
    };
    assert(opt_json_view(id) == opt_json_view(request.id));
    proof {
        reveal_strlit("initialize");
        reveal_strlit("tools/list");
        reveal_strlit("tools/call");
        assert("initialize"@[0] != "tools/list"@[0]);
        assert("initialize"@[0] != "tools/call"@[0]);
        assert("tools/list"@[6] != "tools/call"@[6]);
    }
    if text_eq(request.method.as_str(), "initialize") {
        let result = obj3(
            "protocolVersion",
            text("2024-11-05"),
            "serverInfo",
            obj2("name", text("rust-analyzer-mcp"), "version", text("0.1.0")),
            "capabilities",
            obj1("tools", empty_object()),
        );
        Route::Reply(MCPResponse::success(id, result))
    } else if text_eq(request.method.as_str(), "tools/list") {
        Route::Reply(MCPResponse::success(id, tools_list()))
    } else if text_eq(request.method.as_str(), "tools/call") {
        let params = match &request.params {
            Some(p) => p,
            None => {
                return Route::Reply(MCPResponse::failure(id, -32602, "Invalid params".to_string()));
            },
        };
        let name = match params.str_at("name") {
            Some(n) => n.to_string(),
            None => {
                return Route::Reply(MCPResponse::failure(id, -32602, "Missing tool name".to_string()));
            },
        };
        let args = match params.get("arguments") {
            Some(a) => a.duplicate(),
            None => empty_object(),
        };
        Route::CallTool { id, name, args }
    } else {
        let message = BridgeError::MethodNotFound(request.method.clone()).message();
        Route::Reply(MCPResponse::failure(id, -32601, message))
    }
}

/// The answer to a tool call: its result, or its failure under code -1.
pub fn tool_outcome(id: Option<Json>, outcome: Result<ToolResult, BridgeError>) -> (r: MCPResponse)
    ensures
        match outcome {
            Ok(t) => r matches MCPResponse::Success { jsonrpc, id: rid, result } && jsonrpc@ == "2.0"@
                && rid == id && result@ == crate::server::tool_result_view(t),
            Err(e) => r matches MCPResponse::Error { jsonrpc, id: rid, error } && jsonrpc@ == "2.0"@ && rid
                == id && error.code == -1 && error.message@ == error_text(e) && error.data is None,
        },
{
    match outcome {
        Ok(t) => MCPResponse::success(id, t.to_json()),
        Err(e) => MCPResponse::failure(id, -1, e.message()),
    }
}

/// A tool result as JSON.
pub open spec fn tool_result_view(t: ToolResult) -> JsonV {
    JsonV::Object(
        seq![
            (
                "content"@,
                JsonV::Array(
                    t.content@.map_values(
                        |c: crate::protocol::ContentItem|
                            JsonV::Object(seq![("type"@, JsonV::Str(c.content_type@)), ("text"@, JsonV::Str(c.text@))]),
                    ),
                ),
            ),
        ],
    )
}

/// What the bridge does to its engine sessions, in order.
#[derive(Clone, Copy, Debug, PartialEq, Eq)]
pub enum SessionStep {
    /// Shut the active session down and wait for its process to exit.
    Shutdown,
    /// Start a session on the current workspace.
    Spawn,
}

/// The bridge: its workspace, and whether it has started the one engine session it
/// owns.
pub struct RustAnalyzerMCPServer {
    pub workspace_root: String,
    pub session_active: bool,
}

/// The steps of a change of workspace: the active session, if any, ends before the
/// new one starts.
pub open spec fn switch_steps(active: bool) -> Seq<SessionStep> {
    if active {
        seq![SessionStep::Shutdown, SessionStep::Spawn]
    } else {
        seq![SessionStep::Spawn]
    }
}

impl RustAnalyzerMCPServer {
    /// A bridge on the workspace at `workspace_root`, with no session yet.
    pub fn with_workspace(workspace_root: String) -> (r: Self)
        ensures
            !r.session_active,
            r.workspace_root@ == workspace_root@,
    {
        RustAnalyzerMCPServer { workspace_root, session_active: false }
    }

    /// Whether a tool call must first start a session.
    pub fn needs_client(&self) -> (r: bool)
        ensures
            r == !self.session_active,
    {
        !self.session_active
    }

    /// Records that a session was started on the current workspace.
    pub fn session_started(&mut self)
        ensures
            final(self).session_active,
            final(self).workspace_root == old(self).workspace_root,
    {
        self.session_active = true;
    }

    /// Changes the workspace. Gives the steps to take on the sessions: shut the active
    /// one down first, where there is one, then start one on the new workspace.
    pub fn set_workspace(&mut self, workspace_root: String) -> (r: Vec<SessionStep>)
        ensures
            r@ == switch_steps(old(self).session_active),
            final(self).workspace_root@ == workspace_root@,
            !final(self).session_active,
    {
        let mut steps: Vec<SessionStep> = Vec::new();
        if self.session_active {
            steps.push(SessionStep::Shutdown);
        }
        steps.push(SessionStep::Spawn);
        self.session_active = false;
        self.workspace_root = workspace_root;
        proof {
            assert(steps@ =~= switch_steps(old(self).session_active));
        }
        steps
    }
}

/// A change of workspace while a session is active ends that session before a new one
/// starts, and starts exactly one; with none active, it only starts one.
pub proof fn lemma_switch_order(active: bool)
    ensures
        switch_steps(active).filter(|s: SessionStep| s == SessionStep::Spawn).len() == 1,
        active ==> switch_steps(active).len() == 2 && switch_steps(active)[0] == SessionStep::Shutdown
            && switch_steps(active)[1] == SessionStep::Spawn,
        !active ==> switch_steps(active) == seq![SessionStep::Spawn],
{
    reveal_with_fuel(Seq::filter, 3);
    let s = switch_steps(active);
    if active {
        assert(s.drop_last() =~= seq![SessionStep::Shutdown]);
        assert(s.drop_last().drop_last() =~= Seq::<SessionStep>::empty());
    } else {
        assert(s.drop_last() =~= Seq::<SessionStep>::empty());
    }
}

} // verus!
