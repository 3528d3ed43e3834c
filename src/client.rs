//! The engine session: the bookkeeping of one language-analysis engine process, and the
//! messages that are sent to it.
use vstd::prelude::*;
use vstd::string::StringExecFns;

use crate::cache::{DiagnosticsCache, OpenDocuments};
use crate::correlator::Correlator;
use crate::diagnostics::{diagnostics_in_range, filter_diagnostics_in_range};
use crate::json::{
    items_view, lemma_items_view, json_view, obj1, obj2, obj3, obj4, text, text_array, text_eq, Json, JsonV,
};

verus! {

/// Milliseconds that a request may wait for its response.
pub const LSP_REQUEST_TIMEOUT_MILLIS: u64 = 30000;

/// Milliseconds that are left to the engine after a document is opened.
pub const DOCUMENT_OPEN_DELAY_MILLIS: u64 = 200;

/// A request: `{"jsonrpc":"2.0","id":..,"method":..,"params":..}`, with `null` for
/// absent parameters.
pub open spec fn request_view(id: u64, method: Seq<char>, params: Option<JsonV>) -> JsonV {
    JsonV::Object(
        seq![
            ("jsonrpc"@, JsonV::Str("2.0"@)),
            ("id"@, JsonV::UInt(id)),
            ("method"@, JsonV::Str(method)),
            ("params"@, match params {
                Some(p) => p,
                None => JsonV::Null,
            }),
        ],
    )
}

/// A notification: `{"jsonrpc":"2.0","method":..,"params":..}`, with `{}` for absent
/// parameters.
pub open spec fn notification_view(method: Seq<char>, params: Option<JsonV>) -> JsonV {
    JsonV::Object(
        seq![
            ("jsonrpc"@, JsonV::Str("2.0"@)),
            ("method"@, JsonV::Str(method)),
            ("params"@, match params {
                Some(p) => p,
                None => JsonV::Object(Seq::empty()),
            }),
        ],
    )
}

pub open spec fn opt_json_view(p: Option<Json>) -> Option<JsonV> {
    match p {
        Some(j) => Some(j@),
        None => None,
    }
}

/// The identifier under which the engine knows the document at `path`, an absolute path.
pub fn document_uri(path: &str) -> (r: String)
    ensures
        r@ == "file://"@ + path@,
{
    let mut s = "file://".to_string();
    s.append(path);
    s
}

/// `{"enable": true}`
pub open spec fn enabled_view() -> JsonV {
    JsonV::Object(seq![("enable"@, JsonV::Bool(true))])
}

/// The check that the engine runs on save: `cargo check` on all targets.
pub open spec fn check_on_save_view() -> JsonV {
    JsonV::Object(
        seq![("enable"@, JsonV::Bool(true)), ("command"@, JsonV::Str("check"@)), ("allTargets"@, JsonV::Bool(true))],
    )
}

/// The code action kinds the bridge can take.
pub open spec fn client_action_kinds() -> Seq<Seq<char>> {
    seq![
        "quickfix"@,
        "refactor"@,
        "refactor.extract"@,
        "refactor.inline"@,
        "refactor.rewrite"@,
        "source"@,
        "source.organizeImports"@,
    ]
}

/// What the bridge can do with each kind of document request.
pub open spec fn text_document_capabilities_view() -> JsonV {
    JsonV::Object(
        seq![
            (
                "hover"@,
                JsonV::Object(
                    seq![("contentFormat"@, JsonV::Array(seq![JsonV::Str("markdown"@), JsonV::Str("plaintext"@)]))],
                ),
            ),
            (
                "completion"@,
                JsonV::Object(
                    seq![("completionItem"@, JsonV::Object(seq![("snippetSupport"@, JsonV::Bool(true))]))],
                ),
            ),
            ("definition"@, JsonV::Object(seq![("linkSupport"@, JsonV::Bool(true))])),
            ("references"@, JsonV::Object(Seq::empty())),
            ("documentSymbol"@, JsonV::Object(Seq::empty())),
            (
                "codeAction"@,
                JsonV::Object(
                    seq![
                        (
                            "codeActionLiteralSupport"@,
                            JsonV::Object(
                                seq![
                                    (
                                        "codeActionKind"@,
                                        JsonV::Object(
                                            seq![
                                                (
                                                    "valueSet"@,
                                                    JsonV::Array(
                                                        client_action_kinds().map_values(|k: Seq<char>| JsonV::Str(k)),
                                                    ),
                                                ),
                                            ],
                                        ),
                                    ),
                                ],
                            ),
                        ),
                        (
                            "resolveSupport"@,
                            JsonV::Object(seq![("properties"@, JsonV::Array(seq![JsonV::Str("edit"@)]))]),
                        ),
                    ],
                ),
            ),
            (
                "publishDiagnostics"@,
                JsonV::Object(
                    seq![
                        ("relatedInformation"@, JsonV::Bool(true)),
                        (
                            "tagSupport"@,
                            JsonV::Object(seq![("valueSet"@, JsonV::Array(seq![JsonV::UInt(1), JsonV::UInt(2)]))]),
                        ),
                    ],
                ),
            ),
            ("formatting"@, JsonV::Object(Seq::empty())),
        ],
    )
}

/// The parameters of the `initialize` request: the bridge's process, the workspace, the
/// engine's options (build scripts, checks on save, diagnostics, procedural macros),
/// and what the bridge can handle.
pub open spec fn initialize_params_view(process_id: u32, root: Seq<char>) -> JsonV {
    JsonV::Object(
        seq![
            ("processId"@, JsonV::UInt(process_id as u64)),
            ("rootUri"@, JsonV::Str("file://"@ + root)),
            (
                "initializationOptions"@,
                JsonV::Object(
                    seq![
                        ("cargo"@, JsonV::Object(seq![("buildScripts"@, enabled_view())])),
                        ("checkOnSave"@, check_on_save_view()),
                        (
                            "diagnostics"@,
                            JsonV::Object(seq![("enable"@, JsonV::Bool(true)), ("experimental"@, enabled_view())]),
                        ),
                        ("procMacro"@, enabled_view()),
                    ],
                ),
            ),
            (
                "capabilities"@,
                JsonV::Object(
                    seq![
                        ("textDocument"@, text_document_capabilities_view()),
                        (
                            "workspace"@,
                            JsonV::Object(
                                seq![
                                    (
                                        "didChangeConfiguration"@,
                                        JsonV::Object(seq![("dynamicRegistration"@, JsonV::Bool(false))]),
                                    ),
                                ],
                            ),
                        ),
                    ],
                ),
            ),
        ],
    )
}

/// The settings sent once the engine is initialized: checks on save.
pub open spec fn configuration_params_view() -> JsonV {
    JsonV::Object(
        seq![
            (
                "settings"@,
                JsonV::Object(
                    seq![("rust-analyzer"@, JsonV::Object(seq![("checkOnSave"@, check_on_save_view())]))],
                ),
            ),
        ],
    )
}

fn empty_object() -> (r: Json)
    ensures
        r@ == JsonV::Object(Seq::empty()),
{
    let r = Json::Object(Vec::new());
    assert(crate::json::entries_view(Seq::<(String, Json)>::empty()) =~= Seq::<(Seq<char>, JsonV)>::empty());
    r
}

fn enabled() -> (r: Json)
    ensures
        r@ == enabled_view(),
{
    obj1("enable", Json::Bool(true))
}

fn check_on_save() -> (r: Json)
    ensures
        r@ == check_on_save_view(),
{
    obj3("enable", Json::Bool(true), "command", text("check"), "allTargets", Json::Bool(true))
}

fn text_document_capabilities() -> (r: Json)
    ensures
        r@ == text_document_capabilities_view(),
{
    let formats: Vec<&str> = vec!["markdown", "plaintext"];
    let kinds: Vec<&str> = vec![
        "quickfix",
        "refactor",
        "refactor.extract",
        "refactor.inline",
        "refactor.rewrite",
        "source",
        "source.organizeImports",
    ];
    let edit: Vec<&str> = vec!["edit"];
    let hover = obj1("contentFormat", text_array(&formats));
    let value_set = text_array(&kinds);
    let properties = text_array(&edit);
    let mut tags: Vec<Json> = Vec::new();
    tags.push(Json::UInt(1));
    tags.push(Json::UInt(2));
    proof {
        assert(Seq::new(formats@.len(), |i: int| JsonV::Str(formats@[i]@)) =~= seq![JsonV::Str("markdown"@), JsonV::Str("plaintext"@)]);
        assert(Seq::new(kinds@.len(), |i: int| JsonV::Str(kinds@[i]@)) =~= client_action_kinds().map_values(
            |k: Seq<char>| JsonV::Str(k),
        ));
        assert(Seq::new(edit@.len(), |i: int| JsonV::Str(edit@[i]@)) =~= seq![JsonV::Str("edit"@)]);
        crate::json::lemma_items_view(tags@);
        assert(items_view(tags@) =~= seq![JsonV::UInt(1), JsonV::UInt(2)]);
    }
    let code_action = obj2(
        "codeActionLiteralSupport",
        obj1("codeActionKind", obj1("valueSet", value_set)),
        "resolveSupport",
        obj1("properties", properties),
    );
    let mut e: Vec<(String, Json)> = Vec::new();
    crate::json::push_entry(&mut e, "hover", hover);
    crate::json::push_entry(&mut e, "completion", obj1("completionItem", obj1("snippetSupport", Json::Bool(true))));
    crate::json::push_entry(&mut e, "definition", obj1("linkSupport", Json::Bool(true)));
    crate::json::push_entry(&mut e, "references", empty_object());
    crate::json::push_entry(&mut e, "documentSymbol", empty_object());
    crate::json::push_entry(&mut e, "codeAction", code_action);
    crate::json::push_entry(
        &mut e,
        "publishDiagnostics",
        obj2("relatedInformation", Json::Bool(true), "tagSupport", obj1("valueSet", Json::Array(tags))),
    );
    crate::json::push_entry(&mut e, "formatting", empty_object());
    proof {
        assert(crate::json::entries_view(Seq::<(String, Json)>::empty()) =~= Seq::<(Seq<char>, JsonV)>::empty());
        assert(crate::json::entries_view(e@) =~= text_document_capabilities_view()->Object_0);
    }
    Json::Object(e)
}

/// The parameters of the `initialize` request for a workspace at the absolute path
/// `root`, sent by the process `process_id`.
pub fn initialize_params(process_id: u32, root: &str) -> (r: Json)
    ensures
        r@ == initialize_params_view(process_id, root@),
{
    let options = obj4(
        "cargo",
        obj1("buildScripts", enabled()),
        "checkOnSave",
        check_on_save(),
        "diagnostics",
        obj2("enable", Json::Bool(true), "experimental", enabled()),
        "procMacro",
        enabled(),
    );
    let capabilities = obj2(
        "textDocument",
        text_document_capabilities(),
        "workspace",
        obj1("didChangeConfiguration", obj1("dynamicRegistration", Json::Bool(false))),
    );
    let uri = document_uri(root);
    obj4(
        "processId",
        Json::UInt(process_id as u64),
        "rootUri",
        Json::Str(uri),
        "initializationOptions",
        options,
        "capabilities",
        capabilities,
    )
}

/// The parameters of the configuration notification sent after initialization.
pub fn configuration_params() -> (r: Json)
    ensures
        r@ == configuration_params_view(),
{
    obj1("settings", obj1("rust-analyzer", obj1("checkOnSave", check_on_save())))
}

/// Builds a request message.
pub fn request_message(id: u64, method: &str, params: Option<Json>) -> (r: Json)
    ensures
        r@ == request_view(id, method@, opt_json_view(params)),
{
    let ghost pv = opt_json_view(params);
    let p = match params {
        Some(p) => p,
        None => Json::Null,
    };
    let r = obj4("jsonrpc", text("2.0"), "id", Json::UInt(id), "method", text(method), "params", p);
    assert(p@ == match pv {
        Some(v) => v,
        None => JsonV::Null,
    });
    assert(r@->Object_0 =~= request_view(id, method@, pv)->Object_0);
    r
}

/// Builds a notification message.
pub fn notification_message(method: &str, params: Option<Json>) -> (r: Json)
    ensures
        r@ == notification_view(method@, opt_json_view(params)),
{
    let ghost pv = opt_json_view(params);
    let p = match params {
        Some(p) => p,
        None => Json::Object(Vec::new()),
    };
    proof {
        assert(crate::json::entries_view(Seq::<(String, Json)>::empty()) =~= Seq::<(Seq<char>, JsonV)>::empty());
    }
    let r = obj3("jsonrpc", text("2.0"), "method", text(method), "params", p);
    assert(p@ == match pv {
        Some(v) => v,
        None => JsonV::Object(Seq::empty()),
    });
    assert(r@->Object_0 =~= notification_view(method@, pv)->Object_0);
    r
}

/// `{"uri": uri}`
pub open spec fn doc_view(uri: Seq<char>) -> JsonV {
    JsonV::Object(seq![("uri"@, JsonV::Str(uri))])
}

/// `{"line": line, "character": character}`
pub open spec fn position_view(line: u32, character: u32) -> JsonV {
    JsonV::Object(seq![("line"@, JsonV::UInt(line as u64)), ("character"@, JsonV::UInt(character as u64))])
}

/// The parameters of a request about one position of a document.
pub open spec fn position_params_view(uri: Seq<char>, line: u32, character: u32) -> JsonV {
    JsonV::Object(seq![("textDocument"@, doc_view(uri)), ("position"@, position_view(line, character))])
}

/// The parameters of a request about a whole document.
pub open spec fn document_params_view(uri: Seq<char>) -> JsonV {
    JsonV::Object(seq![("textDocument"@, doc_view(uri))])
}

pub open spec fn references_params_view(uri: Seq<char>, line: u32, character: u32) -> JsonV {
    JsonV::Object(
        seq![
            ("textDocument"@, doc_view(uri)),
            ("position"@, position_view(line, character)),
            ("context"@, JsonV::Object(seq![("includeDeclaration"@, JsonV::Bool(true))])),
        ],
    )
}

pub open spec fn formatting_params_view(uri: Seq<char>) -> JsonV {
    JsonV::Object(
        seq![
            ("textDocument"@, doc_view(uri)),
            (
                "options"@,
                JsonV::Object(seq![("tabSize"@, JsonV::UInt(4)), ("insertSpaces"@, JsonV::Bool(true))]),
            ),
        ],
    )
}

pub open spec fn workspace_diagnostic_params_view() -> JsonV {
    JsonV::Object(seq![("identifier"@, JsonV::Str("rust-analyzer"@)), ("previousResultId"@, JsonV::Null)])
}

/// The kinds of code action asked for.
pub open spec fn action_kinds() -> Seq<Seq<char>> {
    seq!["quickfix"@, "refactor"@, "refactor.extract"@, "refactor.inline"@, "refactor.rewrite"@, "source"@]
}

pub open spec fn code_action_params_view(
    uri: Seq<char>,
    start_line: u32,
    start_char: u32,
    end_line: u32,
    end_char: u32,
    diagnostics: JsonV,
) -> JsonV {
    JsonV::Object(
        seq![
            ("textDocument"@, doc_view(uri)),
            (
                "range"@,
                JsonV::Object(
                    seq![("start"@, position_view(start_line, start_char)), ("end"@, position_view(end_line, end_char))],
                ),
            ),
            (
                "context"@,
                JsonV::Object(
                    seq![
                        ("diagnostics"@, diagnostics_in_range(diagnostics, start_line, end_line)),
                        ("only"@, JsonV::Array(action_kinds().map_values(|k: Seq<char>| JsonV::Str(k)))),
                    ],
                ),
            ),
        ],
    )
}

/// The notification that opens a document with its full text.
pub open spec fn did_open_view(uri: Seq<char>, content: Seq<char>) -> JsonV {
    notification_view(
        "textDocument/didOpen"@,
        Some(
            JsonV::Object(
                seq![
                    (
                        "textDocument"@,
                        JsonV::Object(
                            seq![
                                ("uri"@, JsonV::Str(uri)),
                                ("languageId"@, JsonV::Str("rust"@)),
                                ("version"@, JsonV::UInt(1)),
                                ("text"@, JsonV::Str(content)),
                            ],
                        ),
                    ),
                ],
            ),
        ),
    )
}

/// The notification that a document was saved, which makes the engine check it again.
pub open spec fn did_save_view(uri: Seq<char>) -> JsonV {
    notification_view("textDocument/didSave"@, Some(document_params_view(uri)))
}

fn doc(uri: &str) -> (r: Json)
    ensures
        r@ == doc_view(uri@),
{
    obj1("uri", text(uri))
}

fn position(line: u32, character: u32) -> (r: Json)
    ensures
        r@ == position_view(line, character),
{
    obj2("line", Json::UInt(line as u64), "character", Json::UInt(character as u64))
}

/// The parameters of a request about one position of a document.
pub fn position_params(uri: &str, line: u32, character: u32) -> (r: Json)
    ensures
        r@ == position_params_view(uri@, line, character),
{
    obj2("textDocument", doc(uri), "position", position(line, character))
}

/// The parameters of a request about a whole document.
pub fn document_params(uri: &str) -> (r: Json)
    ensures
        r@ == document_params_view(uri@),
{
    obj1("textDocument", doc(uri))
}

/// What the engine's pull-style diagnostic request gave: its `items`, or an empty array.
pub open spec fn pulled_view(response: JsonV) -> JsonV {
    match response.get("items"@) {
        Some(items) => items,
        None => JsonV::Array(Seq::empty()),
    }
}

/// The diagnostics in the response to a pull-style diagnostic request.
pub fn pulled_diagnostics(response: &Json) -> (r: Json)
    ensures
        r@ == pulled_view(response@),
{
    match response.get("items") {
        Some(items) => items.duplicate(),
        None => {
            proof {
                lemma_items_view(Seq::<Json>::empty());
            }
            let r = Json::Array(Vec::new());
            assert(r@ == JsonV::Array(Seq::empty())) by {
                assert(items_view(Seq::<Json>::empty()) =~= Seq::<JsonV>::empty());
            }
            r
        },
    }
}

/// A message read from the engine, as the router sees it.
pub open spec fn is_notification(m: JsonV) -> bool {
    m.get("method"@) is Some && m.get("id"@) is None
}

/// The id of a response: an object with a `jsonrpc` string and an unsigned `id`.
pub open spec fn response_id(m: JsonV) -> Option<u64> {
    if m.str_at("jsonrpc"@) is Some {
        match m.get("id"@) {
            Some(JsonV::UInt(n)) => Some(n),
            _ => None,
        }
    } else {
        None
    }
}

/// The value that a response delivers: its `result`, or `null` where there is none or
/// where the engine reported an error.
///
/// An error that the engine reports is delivered as `null` on purpose: the tools answer
/// "nothing found" rather than fail, as for a `null` result, and the error itself is
/// only logged.
pub open spec fn response_value(m: JsonV) -> JsonV {
    match m.get("error"@) {
        Some(e) => if e is Null {
            m.get_or_null("result"@)
        } else {
            JsonV::Null
        },
        None => m.get_or_null("result"@),
    }
}

/// The document and the diagnostics of a `textDocument/publishDiagnostics` notification.
pub open spec fn published(m: JsonV) -> Option<(Seq<char>, Seq<JsonV>)> {
    if is_notification(m) && m.str_at("method"@) == Some("textDocument/publishDiagnostics"@) {
        match m.get("params"@) {
            Some(p) => match (p.str_at("uri"@), p.get("diagnostics"@)) {
                (Some(u), Some(JsonV::Array(d))) => Some((u, d)),
                _ => None,
            },
            None => None,
        }
    } else {
        None
    }
}

/// A request was started: under the next id, with `slot` waiting for its response; or,
/// once the ids are used up, nothing was.
pub open spec fn issued<S>(
    before: Correlator<S>,
    after: Correlator<S>,
    r: Option<(u64, Json)>,
    method: Seq<char>,
    params: Option<JsonV>,
    slot: S,
) -> bool {
    match r {
        Some((id, msg)) => {
            &&& before.next_spec() < u64::MAX
            &&& id == before.next_spec()
            &&& msg@ == request_view(id, method, params)
            &&& after.next_spec() == id + 1
            &&& after.slots() == before.slots().insert(id, slot)
        },
        None => before.next_spec() == u64::MAX && after.next_spec() == before.next_spec()
            && after.slots() == before.slots(),
    }
}

/// How the diagnostics of a document are had.
pub enum DiagnosticsQuery {
    /// The engine pushed them: here they are, as an array.
    Cached(Json),
    /// None were pushed: send this request, under this id, to pull them.
    Pull(u64, Json),
    /// None were pushed, and every request id has been used.
    Exhausted,
}

/// The stored diagnostics come back where there are any, with the requests untouched;
/// otherwise a pull-style request is started as `issued` says.
pub open spec fn diagnostics_answer<S>(
    cache: Map<Seq<char>, Seq<JsonV>>,
    before: Correlator<S>,
    after: Correlator<S>,
    uri: Seq<char>,
    r: DiagnosticsQuery,
    slot: S,
) -> bool {
    if cache.contains_key(uri) {
        &&& after == before
        &&& match r {
            DiagnosticsQuery::Cached(j) => j@ == JsonV::Array(cache[uri]),
            _ => false,
        }
    } else {
        let params = Some(document_params_view(uri));
        match r {
            DiagnosticsQuery::Cached(_) => false,
            DiagnosticsQuery::Pull(id, msg) => issued(
                before,
                after,
                Some((id, msg)),
                "textDocument/diagnostic"@,
                params,
                slot,
            ),
            DiagnosticsQuery::Exhausted => issued(before, after, None, "textDocument/diagnostic"@, params, slot),
        }
    }
}

/// The exit notification, where it is owed.
pub open spec fn is_exit(m: Option<Json>) -> bool {
    match m {
        Some(j) => j@ == notification_view("exit"@, None),
        None => false,
    }
}

/// The bookkeeping of one engine session: the requests that wait, the diagnostics that
/// were pushed, and the documents that were opened.
///
/// `S` is what a waiting caller is woken through.
pub struct RustAnalyzerClient<S> {
    pub workspace_root: String,
    pub pending: Correlator<S>,
    pub diagnostics: DiagnosticsCache,
    pub documents: OpenDocuments,
    pub initialized: bool,
}

impl<S> RustAnalyzerClient<S> {
    pub open spec fn wf(&self) -> bool {
        self.diagnostics.wf()
    }

    /// A session for the workspace at `workspace_root`, with nothing sent yet.
    pub fn new(workspace_root: String) -> (r: Self)
        ensures
            r.wf(),
            r.workspace_root@ == workspace_root@,
            r.pending.next_spec() == 1,
            r.pending.slots() == Map::<u64, S>::empty(),
            r.diagnostics@ == Map::<Seq<char>, Seq<JsonV>>::empty(),
            r.documents@ == Set::<Seq<char>>::empty(),
            !r.initialized,
    {
        RustAnalyzerClient {
            workspace_root,
            pending: Correlator::new(),
            diagnostics: DiagnosticsCache::new(),
            documents: OpenDocuments::new(),
            initialized: false,
        }
    }

    /// Starts a request: takes the next id, records that `slot` waits for its response,
    /// and gives the id with the message to send. `None`, with nothing changed, once
    /// the ids are used up.
    pub fn send_request(&mut self, method: &str, params: Option<Json>, slot: S) -> (r: Option<(u64, Json)>)
        ensures
            final(self).diagnostics == old(self).diagnostics,
            final(self).documents == old(self).documents,
            final(self).initialized == old(self).initialized,
            final(self).workspace_root == old(self).workspace_root,
            issued(old(self).pending, final(self).pending, r, method@, opt_json_view(params), slot),
    {
        match self.pending.next_id() {
            Some(id) => {
                self.pending.register(id, slot);
                Some((id, request_message(id, method, params)))
            },
            None => None,
        }
    }

    /// Opens a document with the engine, once: the first time, forgets the diagnostics
    /// stored for it, marks it open, and gives the notifications to send (opened, then
    /// saved); afterwards gives none and changes nothing. Where the "opened" notification
    /// cannot be sent, `open_failed` takes the mark back.
    pub fn open_document(&mut self, uri: &str, content: &str) -> (r: Vec<Json>)
        requires
            old(self).wf(),
        ensures
            final(self).wf(),
            final(self).pending == old(self).pending,
            final(self).initialized == old(self).initialized,
            final(self).workspace_root == old(self).workspace_root,
            ({
                let (docs, diags, sent) = open_effect(
                    old(self).documents@,
                    old(self).diagnostics@,
                    uri@,
                    content@,
                );
                &&& final(self).documents@ == docs
                &&& final(self).diagnostics@ == diags
                &&& items_view(r@) == sent
            }),
    {
        if self.documents.contains(uri) {
            proof {
                lemma_items_view(Seq::<Json>::empty());
                assert(items_view(Seq::<Json>::empty()) =~= Seq::<JsonV>::empty());
            }
            return Vec::new();
        }
        self.diagnostics.clear(uri);
        let open = notification_message(
            "textDocument/didOpen",
            Some(
                obj1(
                    "textDocument",
                    obj4("uri", text(uri), "languageId", text("rust"), "version", Json::UInt(1), "text", text(content)),
                ),
            ),
        );
        self.documents.insert(uri.to_string());
        let save = notification_message("textDocument/didSave", Some(document_params(uri)));
        let mut out: Vec<Json> = Vec::new();
        out.push(open);
        out.push(save);
        proof {
            lemma_items_view(out@);
            assert(items_view(out@) =~= seq![did_open_view(uri@, content@), did_save_view(uri@)]);
        }
        out
    }

    /// Applies a message read from the engine: a response hands back the slot of the
    /// request it answers, with the value to deliver; a diagnostics notification
    /// replaces what is stored for its document; anything else changes nothing.
    pub fn handle_message(&mut self, msg: &Json) -> (r: Option<(S, Json)>)
        requires
            old(self).wf(),
        ensures
            final(self).wf(),
            final(self).documents == old(self).documents,
            final(self).initialized == old(self).initialized,
            final(self).workspace_root == old(self).workspace_root,
            final(self).pending.next_spec() == old(self).pending.next_spec(),
            is_notification(msg@) ==> {
                &&& r is None
                &&& final(self).pending.slots() == old(self).pending.slots()
                &&& final(self).diagnostics@ == match published(msg@) {
                    Some((u, d)) => old(self).diagnostics@.insert(u, d),
                    None => old(self).diagnostics@,
                }
            },
            !is_notification(msg@) ==> {
                &&& final(self).diagnostics@ == old(self).diagnostics@
                &&& match response_id(msg@) {
                    Some(id) => {
                        &&& final(self).pending.slots() == old(self).pending.slots().remove(id)
                        &&& match r {
                            Some((s, v)) => old(self).pending.slots().contains_key(id) && s
                                == old(self).pending.slots()[id] && v@ == response_value(msg@),
                            None => !old(self).pending.slots().contains_key(id),
                        }
                    },
                    None => r is None && final(self).pending.slots() == old(self).pending.slots(),
                }
            },
    {
        if msg.get("method").is_some() && msg.get("id").is_none() {
            self.store_published(msg);
            return None;
        }
        if msg.str_at("jsonrpc").is_none() {
            return None;
        }
        let id = match msg.get("id") {
            Some(Json::UInt(n)) => *n,
            _ => {
                return None;
            },
        };
        let slot = match self.pending.resolve(id) {
            Some(s) => s,
            None => {
                return None;
            },
        };
        let value = match msg.get("error") {
            Some(Json::Null) => msg.get_or_null("result"),
            Some(_) => Json::Null,
            None => msg.get_or_null("result"),
        };
        Some((slot, value))
    }

    fn store_published(&mut self, msg: &Json)
        requires
            old(self).wf(),
            is_notification(msg@),
        ensures
            final(self).wf(),
            final(self).documents == old(self).documents,
            final(self).initialized == old(self).initialized,
            final(self).workspace_root == old(self).workspace_root,
            final(self).pending == old(self).pending,
            final(self).diagnostics@ == match published(msg@) {
                Some((u, d)) => old(self).diagnostics@.insert(u, d),
                None => old(self).diagnostics@,
            },
    {
        let method = match msg.str_at("method") {
            Some(m) => m,
            None => {
                return;
            },
        };
        if !text_eq(method, "textDocument/publishDiagnostics") {
            return;
        }
        let params = match msg.get("params") {
            Some(p) => p,
            None => {
                return;
            },
        };
        let uri = match params.str_at("uri") {
            Some(u) => u,
            None => {
                return;
            },
        };
        let diags = match params.get("diagnostics") {
            Some(d) => d,
            None => {
                return;
            },
        };
        match diags.duplicate() {
            Json::Array(items) => {
                self.diagnostics.store(uri.to_string(), items);
            },
            _ => {},
        }
    }

    /// The diagnostics stored for `uri`, as an array, where the engine pushed any.
    pub fn cached_diagnostics(&self, uri: &str) -> (r: Option<Json>)
        requires
            self.wf(),
        ensures
            match r {
                Some(j) => self.diagnostics@.contains_key(uri@) && j@ == JsonV::Array(self.diagnostics@[uri@]),
                None => !self.diagnostics@.contains_key(uri@),
            },
    {
        match self.diagnostics.lookup(uri) {
            Some(v) => {
                let mut out: Vec<Json> = Vec::new();
                let mut i: usize = 0;
                proof {
                    lemma_items_view(v@);
                }
                while i < v.len()
                    invariant
                        0 <= i <= v@.len(),
                        out@.len() == i,
                        forall|k: int| 0 <= k < i ==> #[trigger] json_view(out@[k]) == json_view(v@[k]),
                    decreases v@.len() - i,
                {
                    out.push(v[i].duplicate());
                    i = i + 1;
                }
                proof {
                    lemma_items_view(out@);
                    assert(items_view(out@) =~= items_view(v@));
                }
                Some(Json::Array(out))
            },
            None => None,
        }
    }

    /// Ends the session's bookkeeping: every document closed, every stored diagnostic
    /// forgotten. Gives the messages owed to an engine that was initialized, to be sent
    /// before its process is stopped: the `shutdown` request, with `slot` waiting for its
    /// response (absent only once every id has been used), then the `exit` notification.
    /// An engine that was never initialized is owed neither.
    pub fn shutdown(&mut self, slot: S) -> (r: (Option<(u64, Json)>, Option<Json>))
        ensures
            final(self).wf(),
            !final(self).initialized,
            final(self).documents@ == Set::<Seq<char>>::empty(),
            final(self).diagnostics@ == Map::<Seq<char>, Seq<JsonV>>::empty(),
            final(self).workspace_root == old(self).workspace_root,
            old(self).initialized ==> issued(old(self).pending, final(self).pending, r.0, "shutdown"@, None, slot)
                && is_exit(r.1),
            !old(self).initialized ==> r.0 is None && r.1 is None && final(self).pending == old(self).pending,
    {
        let was = self.initialized;
        self.documents.clear();
        self.diagnostics.clear_all();
        self.initialized = false;
        if was {
            let request = self.send_request("shutdown", None, slot);
            (request, Some(notification_message("exit", None)))
        } else {
            (None, None)
        }
    }

    /// Undoes the opening of `uri` after its "opened" notification could not be sent,
    /// so that the next opening tries again.
    pub fn open_failed(&mut self, uri: &str)
        ensures
            final(self).documents@ == old(self).documents@.remove(uri@),
            final(self).diagnostics == old(self).diagnostics,
            final(self).pending == old(self).pending,
            final(self).initialized == old(self).initialized,
            final(self).workspace_root == old(self).workspace_root,
    {
        self.documents.remove(uri);
    }

    /// Requests hover information at a position.
    pub fn hover(&mut self, uri: &str, line: u32, character: u32, slot: S) -> (r: Option<(u64, Json)>)
        ensures
            final(self).diagnostics == old(self).diagnostics,
            final(self).documents == old(self).documents,
            issued(old(self).pending, final(self).pending, r, "textDocument/hover"@, Some(position_params_view(uri@, line, character)), slot),
    {
        self.send_request("textDocument/hover", Some(position_params(uri, line, character)), slot)
    }

    /// Requests the definition of the symbol at a position.
    pub fn definition(&mut self, uri: &str, line: u32, character: u32, slot: S) -> (r: Option<(u64, Json)>)
        ensures
            final(self).diagnostics == old(self).diagnostics,
            final(self).documents == old(self).documents,
            issued(old(self).pending, final(self).pending, r, "textDocument/definition"@, Some(position_params_view(uri@, line, character)), slot),
    {
        self.send_request("textDocument/definition", Some(position_params(uri, line, character)), slot)
    }

    /// Requests the references to the symbol at a position, its declaration included.
    pub fn references(&mut self, uri: &str, line: u32, character: u32, slot: S) -> (r: Option<(u64, Json)>)
        ensures
            final(self).diagnostics == old(self).diagnostics,
            final(self).documents == old(self).documents,
            issued(old(self).pending, final(self).pending, r, "textDocument/references"@, Some(references_params_view(uri@, line, character)), slot),
    {
        let params = obj3(
            "textDocument",
            doc(uri),
            "position",
            position(line, character),
            "context",
            obj1("includeDeclaration", Json::Bool(true)),
        );
        self.send_request("textDocument/references", Some(params), slot)
    }

    /// Requests completions at a position.
    pub fn completion(&mut self, uri: &str, line: u32, character: u32, slot: S) -> (r: Option<(u64, Json)>)
        ensures
            final(self).diagnostics == old(self).diagnostics,
            final(self).documents == old(self).documents,
            issued(old(self).pending, final(self).pending, r, "textDocument/completion"@, Some(position_params_view(uri@, line, character)), slot),
    {
        self.send_request("textDocument/completion", Some(position_params(uri, line, character)), slot)
    }

    /// Requests the symbols of a document.
    pub fn document_symbols(&mut self, uri: &str, slot: S) -> (r: Option<(u64, Json)>)
        ensures
            final(self).diagnostics == old(self).diagnostics,
            final(self).documents == old(self).documents,
            issued(old(self).pending, final(self).pending, r, "textDocument/documentSymbol"@, Some(document_params_view(uri@)), slot),
    {
        self.send_request("textDocument/documentSymbol", Some(document_params(uri)), slot)
    }

    /// Requests the edits that format a document, four spaces to an indent.
    pub fn formatting(&mut self, uri: &str, slot: S) -> (r: Option<(u64, Json)>)
        ensures
            final(self).diagnostics == old(self).diagnostics,
            final(self).documents == old(self).documents,
            issued(old(self).pending, final(self).pending, r, "textDocument/formatting"@, Some(formatting_params_view(uri@)), slot),
    {
        let params = obj2(
            "textDocument",
            doc(uri),
            "options",
            obj2("tabSize", Json::UInt(4), "insertSpaces", Json::Bool(true)),
        );
        self.send_request("textDocument/formatting", Some(params), slot)
    }

    /// The diagnostics of a document: those the engine pushed, where it pushed any, with
    /// nothing sent and no id used; otherwise a pull-style request for them, with `slot`
    /// waiting for its response (whose value `pulled_diagnostics` reads).
    pub fn diagnostics(&mut self, uri: &str, slot: S) -> (r: DiagnosticsQuery)
        requires
            old(self).wf(),
        ensures
            final(self).wf(),
            final(self).diagnostics == old(self).diagnostics,
            final(self).documents == old(self).documents,
            final(self).initialized == old(self).initialized,
            final(self).workspace_root == old(self).workspace_root,
            diagnostics_answer(old(self).diagnostics@, old(self).pending, final(self).pending, uri@, r, slot),
    {
        match self.cached_diagnostics(uri) {
            Some(found) => DiagnosticsQuery::Cached(found),
            None => match self.send_request("textDocument/diagnostic", Some(document_params(uri)), slot) {
                Some((id, msg)) => DiagnosticsQuery::Pull(id, msg),
                None => DiagnosticsQuery::Exhausted,
            },
        }
    }

    /// Requests the diagnostics of the whole workspace.
    pub fn workspace_diagnostics(&mut self, slot: S) -> (r: Option<(u64, Json)>)
        ensures
            final(self).diagnostics == old(self).diagnostics,
            final(self).documents == old(self).documents,
            issued(old(self).pending, final(self).pending, r, "workspace/diagnostic"@, Some(workspace_diagnostic_params_view()), slot),
    {
        let params = obj2("identifier", text("rust-analyzer"), "previousResultId", Json::Null);
        self.send_request("workspace/diagnostic", Some(params), slot)
    }

    /// Requests the code actions for a range, handing the engine those of `diagnostics`
    /// that overlap the range's lines.
    pub fn code_actions(
        &mut self,
        uri: &str,
        start_line: u32,
        start_char: u32,
        end_line: u32,
        end_char: u32,
        diagnostics: &Json,
        slot: S,
    ) -> (r: Option<(u64, Json)>)
        ensures
            final(self).diagnostics == old(self).diagnostics,
            final(self).documents == old(self).documents,
            issued(old(self).pending, final(self).pending, r, "textDocument/codeAction"@, Some(code_action_params_view(uri@, start_line, start_char, end_line, end_char, diagnostics@),), slot),
    {
        let kinds: Vec<&str> = vec![
            "quickfix",
            "refactor",
            "refactor.extract",
            "refactor.inline",
            "refactor.rewrite",
            "source",
        ];
        let only = text_array(&kinds);
        proof {
            assert(Seq::new(kinds@.len(), |i: int| JsonV::Str(kinds@[i]@)) =~= action_kinds().map_values(
                |k: Seq<char>| JsonV::Str(k),
            ));
        }
        let params = obj3(
            "textDocument",
            doc(uri),
            "range",
            obj2("start", position(start_line, start_char), "end", position(end_line, end_char)),
            "context",
            obj2("diagnostics", filter_diagnostics_in_range(diagnostics, start_line, end_line), "only", only),
        );
        self.send_request("textDocument/codeAction", Some(params), slot)
    }
}

/// What opening `uri` with `content` does to the open documents and the stored
/// diagnostics, and the notifications it sends.
pub open spec fn open_effect(
    docs: Set<Seq<char>>,
    diags: Map<Seq<char>, Seq<JsonV>>,
    uri: Seq<char>,
    content: Seq<char>,
) -> (Set<Seq<char>>, Map<Seq<char>, Seq<JsonV>>, Seq<JsonV>) {
    if docs.contains(uri) {
        (docs, diags, Seq::empty())
    } else {
        (docs.insert(uri), diags.remove(uri), seq![did_open_view(uri, content), did_save_view(uri)])
    }
}

/// Whether a message is the notification that opens a document.
pub open spec fn is_did_open(m: JsonV) -> bool {
    m.str_at("method"@) == Some("textDocument/didOpen"@)
}

/// How many of `msgs` open a document.
pub open spec fn count_did_open(msgs: Seq<JsonV>) -> nat
    decreases msgs.len(),
{
    if msgs.len() == 0 {
        0
    } else {
        count_did_open(msgs.drop_last()) + if is_did_open(msgs.last()) {
            1nat
        } else {
            0nat
        }
    }
}

/// Opening a document twice sends one "opened" notification in all, and the second
/// opening sends nothing and leaves the stored diagnostics as the first left them.
pub proof fn lemma_idempotent_open(
    docs: Set<Seq<char>>,
    diags: Map<Seq<char>, Seq<JsonV>>,
    uri: Seq<char>,
    first: Seq<char>,
    second: Seq<char>,
)
    ensures
        ({
            let (docs1, diags1, sent1) = open_effect(docs, diags, uri, first);
            let (docs2, diags2, sent2) = open_effect(docs1, diags1, uri, second);
            &&& sent2.len() == 0
            &&& diags2 == diags1
            &&& docs2 == docs1
            &&& count_did_open(sent1 + sent2) == if docs.contains(uri) {
                0nat
            } else {
                1nat
            }
        }),
{
    let (docs1, diags1, sent1) = open_effect(docs, diags, uri, first);
    let (docs2, diags2, sent2) = open_effect(docs1, diags1, uri, second);
    assert(docs1.contains(uri));
    assert(sent1 + sent2 =~= sent1);
    if !docs.contains(uri) {
        assert("jsonrpc"@ != "method"@) by {
            reveal_strlit("jsonrpc");
            reveal_strlit("method");
            assert("jsonrpc"@[0] != "method"@[0]);
        }
        assert("textDocument/didSave"@ != "textDocument/didOpen"@) by {
            reveal_strlit("textDocument/didSave");
            reveal_strlit("textDocument/didOpen");
            assert("textDocument/didSave"@[16] != "textDocument/didOpen"@[16]);
        }
        let e = did_save_view(uri)->Object_0;
        assert(e.drop_first()[0] == ("method"@, JsonV::Str("textDocument/didSave"@)));
        assert(crate::json::lookup(e.drop_first(), "method"@) == Some(JsonV::Str("textDocument/didSave"@)));
        let o = did_open_view(uri, first)->Object_0;
        assert(o.drop_first()[0] == ("method"@, JsonV::Str("textDocument/didOpen"@)));
        assert(crate::json::lookup(o.drop_first(), "method"@) == Some(JsonV::Str("textDocument/didOpen"@)));
        assert(is_did_open(did_open_view(uri, first)));
        assert(!is_did_open(did_save_view(uri)));
        let s = sent1;
        assert(s.drop_last() =~= seq![did_open_view(uri, first)]);
        assert(s.drop_last().drop_last() =~= Seq::<JsonV>::empty());
        assert(count_did_open(s.drop_last().drop_last()) == 0);
        assert(s.drop_last().last() == did_open_view(uri, first));
        assert(count_did_open(s.drop_last()) == 1);
        assert(s.last() == did_save_view(uri));
    } else {
        assert(sent1 =~= Seq::<JsonV>::empty());
    }
}

} // verus!
