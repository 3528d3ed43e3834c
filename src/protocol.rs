//! The messages of the tool-call protocol, and the failures a tool call can end in.
use vstd::prelude::*;
use vstd::string::StringExecFns;

use crate::json::{entries_view, items_view, lemma_items_view, obj1, obj2, obj3, push_entry, text, Json, JsonV};

verus! {

/// Why a tool call, or the session behind it, failed.
#[derive(Debug, PartialEq, Eq)]
pub enum BridgeError {
    /// The engine could not be started; holds the system's reason.
    ProcessSpawnFailure(String),
    /// There is no engine session to send to.
    NoActiveChannel,
    /// No response came before the deadline.
    RequestTimeout,
    /// The request was dropped without a response.
    RequestCancelled,
    /// A document could not be read; holds its path and the system's reason.
    FileNotReadable(String, String),
    /// No tool has this name.
    UnknownTool(String),
    /// A required argument is missing or of the wrong type; holds its name.
    MissingArgument(String),
    /// No method of the protocol has this name.
    MethodNotFound(String),
}

/// The text that describes a failure.
pub open spec fn error_text(e: BridgeError) -> Seq<char> {
    match e {
        BridgeError::ProcessSpawnFailure(why) => "Failed to start rust-analyzer: "@ + why@,
        BridgeError::NoActiveChannel => "Client not initialized"@,
        BridgeError::RequestTimeout => "Request timeout"@,
        BridgeError::RequestCancelled => "Request cancelled"@,
        BridgeError::FileNotReadable(path, why) => "Failed to read file "@ + path@ + ": "@ + why@,
        BridgeError::UnknownTool(name) => "Unknown tool: "@ + name@,
        BridgeError::MissingArgument(field) => "Missing "@ + field@,
        BridgeError::MethodNotFound(method) => "Method not found: "@ + method@,
    }
}

impl BridgeError {
    /// The text that describes the failure.
    pub fn message(&self) -> (r: String)
        ensures
            r@ == error_text(*self),
    {
        match self {
            BridgeError::ProcessSpawnFailure(why) => {
                let mut s = "Failed to start rust-analyzer: ".to_string();
                s.append(why.as_str());
                s
            },
            BridgeError::NoActiveChannel => "Client not initialized".to_string(),
            BridgeError::RequestTimeout => "Request timeout".to_string(),
            BridgeError::RequestCancelled => "Request cancelled".to_string(),
            BridgeError::FileNotReadable(path, why) => {
                let mut s = "Failed to read file ".to_string();
                s.append(path.as_str());
                s.append(": ");
                s.append(why.as_str());
                s
            },
            BridgeError::UnknownTool(name) => {
                let mut s = "Unknown tool: ".to_string();
                s.append(name.as_str());
                s
            },
            BridgeError::MissingArgument(field) => {
                let mut s = "Missing ".to_string();
                s.append(field.as_str());
                s
            },
            BridgeError::MethodNotFound(method) => {
                let mut s = "Method not found: ".to_string();
                s.append(method.as_str());
                s
            },
        }
    }
}

/// One item of a tool's result.
pub struct ContentItem {
    pub content_type: String,
    pub text: String,
}

/// What a tool call returns: its content items.
pub struct ToolResult {
    pub content: Vec<ContentItem>,
}

impl ToolResult {
    /// A result of one text item.
    pub fn text(text: String) -> (r: ToolResult)
        ensures
            r.content@.len() == 1,
            r.content@[0].content_type@ == "text"@,
            r.content@[0].text@ == text@,
    {
        let mut content: Vec<ContentItem> = Vec::new();
        content.push(ContentItem { content_type: "text".to_string(), text });
        ToolResult { content }
    }

    /// The result as JSON: `{"content":[{"type":..,"text":..},..]}`.
    pub fn to_json(&self) -> (r: Json)
        ensures
            r@ == JsonV::Object(
                seq![
                    (
                        "content"@,
                        JsonV::Array(
                            self.content@.map_values(
                                |c: ContentItem|
                                    JsonV::Object(
                                        seq![("type"@, JsonV::Str(c.content_type@)), ("text"@, JsonV::Str(c.text@))],
                                    ),
                            ),
                        ),
                    ),
                ],
            ),
    {
        let mut items: Vec<Json> = Vec::new();
        let mut i: usize = 0;
        while i < self.content.len()
            invariant
                0 <= i <= self.content@.len(),
                items@.len() == i,
                forall|k: int|
                    0 <= k < i ==> #[trigger] crate::json::json_view(items@[k]) == JsonV::Object(
                        seq![
                            ("type"@, JsonV::Str(self.content@[k].content_type@)),
                            ("text"@, JsonV::Str(self.content@[k].text@)),
                        ],
                    ),
            decreases self.content@.len() - i,
        {
            let c = &self.content[i];
            items.push(obj2("type", text(c.content_type.as_str()), "text", text(c.text.as_str())));
            i = i + 1;
        }
        proof {
            lemma_items_view(items@);
            assert(items_view(items@) =~= self.content@.map_values(
                |c: ContentItem|
                    JsonV::Object(seq![("type"@, JsonV::Str(c.content_type@)), ("text"@, JsonV::Str(c.text@))]),
            ));
        }
        obj1("content", Json::Array(items))
    }
}

/// A structured failure of the tool-call protocol.
pub struct MCPError {
    pub code: i64,
    pub message: String,
    pub data: Option<Json>,
}

/// A request read from the tool-call channel.
pub struct MCPRequest {
    pub jsonrpc: String,
    pub id: Option<Json>,
    pub method: String,
    pub params: Option<Json>,
}

/// A member that is absent or `null` counts as absent.
pub open spec fn present(v: Option<JsonV>) -> Option<JsonV> {
    match v {
        Some(JsonV::Null) => None,
        other => other,
    }
}

/// Whether a JSON value reads as a request: an object with `jsonrpc` and `method`
/// strings.
pub open spec fn is_request(j: JsonV) -> bool {
    j.str_at("jsonrpc"@) is Some && j.str_at("method"@) is Some
}

fn present_member(j: &Json, key: &str) -> (r: Option<Json>)
    ensures
        match r {
            Some(v) => present(j@.get(key@)) == Some(v@),
            None => present(j@.get(key@)) is None,
        },
{
    match j.get(key) {
        Some(Json::Null) => None,
        Some(v) => Some(v.duplicate()),
        None => None,
    }
}

impl MCPRequest {
    /// Reads a request out of a JSON value; `None` where it is not one.
    pub fn from_json(j: &Json) -> (r: Option<MCPRequest>)
        ensures
            is_request(j@) <==> r is Some,
            r matches Some(req) ==> {
                &&& Some(req.jsonrpc@) == j@.str_at("jsonrpc"@)
                &&& Some(req.method@) == j@.str_at("method"@)
                &&& match req.id {
                    Some(v) => present(j@.get("id"@)) == Some(v@),
                    None => present(j@.get("id"@)) is None,
                }
                &&& match req.params {
                    Some(v) => present(j@.get("params"@)) == Some(v@),
                    None => present(j@.get("params"@)) is None,
                }
            },
    {
        let jsonrpc = match j.str_at("jsonrpc") {
            Some(s) => s.to_string(),
            None => {
                return None;
            },
        };
        let method = match j.str_at("method") {
            Some(s) => s.to_string(),
            None => {
                return None;
            },
        };
        Some(MCPRequest { jsonrpc, id: present_member(j, "id"), method, params: present_member(j, "params") })
    }
}

/// A response on the tool-call channel.
pub enum MCPResponse {
    Success { jsonrpc: String, id: Option<Json>, result: Json },
    Error { jsonrpc: String, id: Option<Json>, error: MCPError },
}

pub open spec fn id_members(id: Option<Json>) -> Seq<(Seq<char>, JsonV)> {
    match id {
        Some(v) => seq![("id"@, v@)],
        None => Seq::empty(),
    }
}

/// The JSON of a response; the `id` is left out where there is none.
pub open spec fn response_view(r: MCPResponse) -> JsonV {
    match r {
        MCPResponse::Success { jsonrpc, id, result } => JsonV::Object(
            seq![("jsonrpc"@, JsonV::Str(jsonrpc@))] + id_members(id) + seq![("result"@, result@)],
        ),
        MCPResponse::Error { jsonrpc, id, error } => JsonV::Object(
            seq![("jsonrpc"@, JsonV::Str(jsonrpc@))] + id_members(id) + seq![
                (
                    "error"@,
                    JsonV::Object(
                        seq![
                            ("code"@, error_code_view(error.code)),
                            ("message"@, JsonV::Str(error.message@)),
                            ("data"@, match error.data {
                                Some(d) => d@,
                                None => JsonV::Null,
                            }),
                        ],
                    ),
                ),
            ],
        ),
    }
}

/// An error code as JSON.
pub open spec fn error_code_view(code: i64) -> JsonV {
    if code >= 0 {
        JsonV::UInt(code as u64)
    } else {
        JsonV::NegInt(code)
    }
}

fn error_code(code: i64) -> (r: Json)
    ensures
        r@ == error_code_view(code),
{
    if code >= 0 {
        Json::UInt(code as u64)
    } else {
        Json::NegInt(code)
    }
}

impl MCPResponse {
    /// A success carrying `result`.
    pub fn success(id: Option<Json>, result: Json) -> (r: MCPResponse)
        ensures
            r matches MCPResponse::Success { jsonrpc, id: rid, result: res } && jsonrpc@ == "2.0"@ && rid
                == id && res == result,
    {
        MCPResponse::Success { jsonrpc: "2.0".to_string(), id, result }
    }

    /// A failure with `code` and `message`, and no data.
    pub fn failure(id: Option<Json>, code: i64, message: String) -> (r: MCPResponse)
        ensures
            r matches MCPResponse::Error { jsonrpc, id: rid, error } && jsonrpc@ == "2.0"@ && rid == id
                && error.code == code && error.message@ == message@ && error.data is None,
    {
        MCPResponse::Error {
            jsonrpc: "2.0".to_string(),
            id,
            error: MCPError { code, message, data: None },
        }
    }

    /// The response as JSON.
    pub fn to_json(&self) -> (r: Json)
        ensures
            r@ == response_view(*self),
    {
        let mut e: Vec<(String, Json)> = Vec::new();
        proof {
            assert(entries_view(Seq::<(String, Json)>::empty()) =~= Seq::<(Seq<char>, JsonV)>::empty());
        }
        match self {
            MCPResponse::Success { jsonrpc, id, result } => {
                push_entry(&mut e, "jsonrpc", text(jsonrpc.as_str()));
                let ghost head = entries_view(e@);
                match id {
                    Some(v) => push_entry(&mut e, "id", v.duplicate()),
                    None => {},
                }
                assert(entries_view(e@) =~= head + id_members(*id));
                push_entry(&mut e, "result", result.duplicate());
                assert(entries_view(e@) =~= response_view(*self)->Object_0);
            },
            MCPResponse::Error { jsonrpc, id, error } => {
                push_entry(&mut e, "jsonrpc", text(jsonrpc.as_str()));
                let ghost head = entries_view(e@);
                match id {
                    Some(v) => push_entry(&mut e, "id", v.duplicate()),
                    None => {},
                }
                assert(entries_view(e@) =~= head + id_members(*id));
                let data = match &error.data {
                    Some(d) => d.duplicate(),
                    None => Json::Null,
                };
                assert(data@ == match error.data {
                    Some(d) => d@,
                    None => JsonV::Null,
                });
                let err = obj3("code", error_code(error.code), "message", text(error.message.as_str()), "data", data);
                assert(err@->Object_0 =~= response_view(*self)->Object_0.last().1->Object_0);
                push_entry(&mut e, "error", err);
                assert(entries_view(e@) =~= response_view(*self)->Object_0);
            },
        }
        Json::Object(e)
    }
}

} // verus!
