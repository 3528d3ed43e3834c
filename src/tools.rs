//! The table of tools that the bridge offers.
use vstd::prelude::*;

use crate::json::{entries_view, lemma_entries_view, obj2, push_entry, text, text_array, Json, JsonV};

verus! {

/// A tool as it is listed: its name, what it does, and the JSON Schema of its arguments.
pub struct ToolDefinition {
    pub name: String,
    pub description: String,
    pub input_schema: Json,
}

/// An argument of a tool: its name, its JSON type, and what it means.
pub type PropV = (Seq<char>, Seq<char>, Seq<char>);

pub open spec fn props_view(props: Seq<(&str, &str, &str)>) -> Seq<PropV> {
    props.map_values(|p: (&str, &str, &str)| (p.0@, p.1@, p.2@))
}

/// The JSON Schema of an object with the given members, of which `required` must be
/// present.
pub open spec fn schema_view(props: Seq<PropV>, required: Option<Seq<Seq<char>>>) -> JsonV {
    JsonV::Object(
        seq![
            ("type"@, JsonV::Str("object"@)),
            (
                "properties"@,
                JsonV::Object(
                    props.map_values(
                        |p: PropV|
                            (
                                p.0,
                                JsonV::Object(seq![("type"@, JsonV::Str(p.1)), ("description"@, JsonV::Str(p.2))]),
                            ),
                    ),
                ),
            ),
        ] + match required {
            Some(r) => seq![("required"@, JsonV::Array(r.map_values(|k: Seq<char>| JsonV::Str(k))))],
            None => Seq::empty(),
        },
    )
}

fn schema(props: &Vec<(&str, &str, &str)>, required: Option<&Vec<&str>>) -> (r: Json)
    ensures
        r@ == schema_view(
            props_view(props@),
            match required {
                Some(v) => Some(v@.map_values(|s: &str| s@)),
                None => None,
            },
        ),
{
    let mut members: Vec<(String, Json)> = Vec::new();
    let mut i: usize = 0;
    proof {
        assert(entries_view(Seq::<(String, Json)>::empty()) =~= Seq::<(Seq<char>, JsonV)>::empty());
    }
    while i < props.len()
        invariant
            0 <= i <= props@.len(),
            entries_view(members@) =~= props_view(props@).subrange(0, i as int).map_values(
                |p: PropV|
                    (p.0, JsonV::Object(seq![("type"@, JsonV::Str(p.1)), ("description"@, JsonV::Str(p.2))])),
            ),
        decreases props@.len() - i,
    {
        let (name, ty, description) = props[i];
        push_entry(&mut members, name, obj2("type", text(ty), "description", text(description)));
        i = i + 1;
    }
    proof {
        assert(props_view(props@).subrange(0, props@.len() as int) =~= props_view(props@));
    }
    let mut e: Vec<(String, Json)> = Vec::new();
    push_entry(&mut e, "type", text("object"));
    push_entry(&mut e, "properties", Json::Object(members));
    match required {
        Some(v) => {
            let arr = text_array(v);
            proof {
                assert(Seq::new(v@.len(), |i: int| JsonV::Str(v@[i]@)) =~= v@.map_values(|s: &str| s@).map_values(
                    |k: Seq<char>| JsonV::Str(k),
                ));
            }
            push_entry(&mut e, "required", arr);
        },
        None => {},
    }
    proof {
        let want = schema_view(
            props_view(props@),
            match required {
                Some(v) => Some(v@.map_values(|s: &str| s@)),
                None => None,
            },
        );
        assert(entries_view(e@) =~= want->Object_0);
    }
    Json::Object(e)
}

fn tool(name: &str, description: &str, props: Vec<(&str, &str, &str)>, required: Option<Vec<&str>>) -> (r:
    ToolDefinition)
    ensures
        r.name@ == name@,
        r.description@ == description@,
        r.input_schema@ == schema_view(
            props_view(props@),
            match required {
                Some(v) => Some(v@.map_values(|s: &str| s@)),
                None => None,
            },
        ),
{
    let input_schema = match &required {
        Some(v) => schema(&props, Some(v)),
        None => schema(&props, None),
    };
    ToolDefinition { name: name.to_string(), description: description.to_string(), input_schema }
}

pub open spec fn file_prop() -> PropV {
    ("file_path"@, "string"@, "Path to the Rust file"@)
}

pub open spec fn line_prop() -> PropV {
    ("line"@, "number"@, "Line number (0-based)"@)
}

pub open spec fn char_prop() -> PropV {
    ("character"@, "number"@, "Character position (0-based)"@)
}

/// A tool's listing: name, description, arguments, and the arguments it requires.
pub type ToolSpec = (Seq<char>, Seq<char>, Seq<PropV>, Option<Seq<Seq<char>>>);

pub open spec fn position_tool_spec(name: Seq<char>, description: Seq<char>) -> ToolSpec {
    (name, description, seq![file_prop(), line_prop(), char_prop()], Some(seq!["file_path"@, "line"@, "character"@]))
}

pub open spec fn file_tool_spec(name: Seq<char>, description: Seq<char>) -> ToolSpec {
    (name, description, seq![file_prop()], Some(seq!["file_path"@]))
}

/// The tools, in the order they are listed.
pub open spec fn tool_table() -> Seq<ToolSpec> {
    seq![
        position_tool_spec(
            "rust_analyzer_hover"@,
            "Get hover information for a symbol at a specific position in a Rust file"@,
        ),
        position_tool_spec("rust_analyzer_definition"@, "Go to definition of a symbol at a specific position"@),
        position_tool_spec("rust_analyzer_references"@, "Find all references to a symbol at a specific position"@),
        position_tool_spec("rust_analyzer_completion"@, "Get code completion suggestions at a specific position"@),
        file_tool_spec("rust_analyzer_symbols"@, "Get document symbols (functions, structs, etc.) for a Rust file"@),
        file_tool_spec("rust_analyzer_format"@, "Format a Rust file using rust-analyzer"@),
        (
            "rust_analyzer_code_actions"@,
            "Get available code actions for a range in a Rust file"@,
            seq![
                file_prop(),
                ("line"@, "number"@, "Start line number (0-based)"@),
                ("character"@, "number"@, "Start character position (0-based)"@),
                ("end_line"@, "number"@, "End line number (0-based)"@),
                ("end_character"@, "number"@, "End character position (0-based)"@),
            ],
            Some(seq!["file_path"@, "line"@, "character"@, "end_line"@, "end_character"@]),
        ),
        (
            "rust_analyzer_set_workspace"@,
            "Set the workspace root directory for rust-analyzer"@,
            seq![("workspace_path"@, "string"@, "Path to the workspace root"@)],
            Some(seq!["workspace_path"@]),
        ),
        file_tool_spec(
            "rust_analyzer_diagnostics"@,
            "Get compiler diagnostics (errors, warnings, hints) for a Rust file"@,
        ),
        (
            "rust_analyzer_workspace_diagnostics"@,
            "Get all compiler diagnostics across the entire workspace"@,
            Seq::empty(),
            None,
        ),
    ]
}

pub open spec fn listed_as(t: ToolDefinition, s: ToolSpec) -> bool {
    &&& t.name@ == s.0
    &&& t.description@ == s.1
    &&& t.input_schema@ == schema_view(s.2, s.3)
}

fn position_tool(name: &str, description: &str) -> (r: ToolDefinition)
    ensures
        listed_as(r, position_tool_spec(name@, description@)),
{
    let props = vec![
        ("file_path", "string", "Path to the Rust file"),
        ("line", "number", "Line number (0-based)"),
        ("character", "number", "Character position (0-based)"),
    ];
    let required = vec!["file_path", "line", "character"];
    proof {
        assert(props_view(props@) =~= seq![file_prop(), line_prop(), char_prop()]);
        assert(required@.map_values(|s: &str| s@) =~= seq!["file_path"@, "line"@, "character"@]);
    }
    tool(name, description, props, Some(required))
}

fn file_tool(name: &str, description: &str) -> (r: ToolDefinition)
    ensures
        listed_as(r, file_tool_spec(name@, description@)),
{
    let props = vec![("file_path", "string", "Path to the Rust file")];
    let required = vec!["file_path"];
    proof {
        assert(props_view(props@) =~= seq![file_prop()]);
        assert(required@.map_values(|s: &str| s@) =~= seq!["file_path"@]);
    }
    tool(name, description, props, Some(required))
}

/// The tools that the bridge offers, each with the schema of its arguments.
pub fn get_tools() -> (r: Vec<ToolDefinition>)
    ensures
        r@.len() == tool_table().len(),
        forall|i: int| 0 <= i < r@.len() ==> listed_as(#[trigger] r@[i], tool_table()[i]),
{
    let mut r: Vec<ToolDefinition> = Vec::new();
    r.push(position_tool("rust_analyzer_hover", "Get hover information for a symbol at a specific position in a Rust file"));
    r.push(position_tool("rust_analyzer_definition", "Go to definition of a symbol at a specific position"));
    r.push(position_tool("rust_analyzer_references", "Find all references to a symbol at a specific position"));
    r.push(position_tool("rust_analyzer_completion", "Get code completion suggestions at a specific position"));
    r.push(file_tool("rust_analyzer_symbols", "Get document symbols (functions, structs, etc.) for a Rust file"));
    r.push(file_tool("rust_analyzer_format", "Format a Rust file using rust-analyzer"));
    let code_props = vec![
        ("file_path", "string", "Path to the Rust file"),
        ("line", "number", "Start line number (0-based)"),
        ("character", "number", "Start character position (0-based)"),
        ("end_line", "number", "End line number (0-based)"),
        ("end_character", "number", "End character position (0-based)"),
    ];
    let code_required = vec!["file_path", "line", "character", "end_line", "end_character"];
    proof {
        assert(props_view(code_props@) =~= tool_table()[6].2);
        assert(code_required@.map_values(|s: &str| s@) =~= tool_table()[6].3->0);
    }
    r.push(
        tool(
            "rust_analyzer_code_actions",
            "Get available code actions for a range in a Rust file",
            code_props,
            Some(code_required),
        ),
    );
    let ws_props = vec![("workspace_path", "string", "Path to the workspace root")];
    let ws_required = vec!["workspace_path"];
    proof {
        assert(props_view(ws_props@) =~= tool_table()[7].2);
        assert(ws_required@.map_values(|s: &str| s@) =~= tool_table()[7].3->0);
    }
    r.push(
        tool(
            "rust_analyzer_set_workspace",
            "Set the workspace root directory for rust-analyzer",
            ws_props,
            Some(ws_required),
        ),
    );
    r.push(file_tool("rust_analyzer_diagnostics", "Get compiler diagnostics (errors, warnings, hints) for a Rust file"));
    let no_props: Vec<(&str, &str, &str)> = Vec::new();
    proof {
        assert(props_view(no_props@) =~= tool_table()[9].2);
    }
    r.push(
        tool(
            "rust_analyzer_workspace_diagnostics",
            "Get all compiler diagnostics across the entire workspace",
            no_props,
            None,
        ),
    );
    proof {
        assert forall|i: int| 0 <= i < r@.len() implies listed_as(#[trigger] r@[i], tool_table()[i]) by {
            if i == 0 {
            } else if i == 1 {
            } else if i == 2 {
            } else if i == 3 {
            } else if i == 4 {
            } else if i == 5 {
            } else if i == 6 {
            } else if i == 7 {
            } else if i == 8 {
            } else {
            }
        }
    }
    r
}

impl ToolDefinition {
    /// The listing as JSON: `{"name":..,"description":..,"inputSchema":..}`.
    pub fn to_json(&self) -> (r: Json)
        ensures
            r@ == JsonV::Object(
                seq![
                    ("name"@, JsonV::Str(self.name@)),
                    ("description"@, JsonV::Str(self.description@)),
                    ("inputSchema"@, self.input_schema@),
                ],
            ),
    {
        crate::json::obj3(
            "name",
            text(self.name.as_str()),
            "description",
            text(self.description.as_str()),
            "inputSchema",
            self.input_schema.duplicate(),
        )
    }
}

} // verus!
