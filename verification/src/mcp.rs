//! The tools and resources the runtime offers to model-context clients.

use vstd::prelude::*;
use crate::json::{JsonMember, JsonValue, JsonView};

verus! {

/// A callable tool: its name, what it does, and the JSON schema of its input.
#[derive(Debug, Clone)]
pub struct McpToolSpec {
    pub name: String,
    pub description: String,
    pub input_schema: JsonValue,
}

/// A readable resource.
#[derive(Debug, Clone)]
pub struct McpResourceSpec {
    pub uri: String,
    pub name: String,
    pub description: String,
    pub mime_type: String,
}

/// Everything the runtime offers to model-context clients.
#[derive(Debug, Clone)]
pub struct McpSurface {
    pub name: String,
    pub version: String,
    pub tools: Vec<McpToolSpec>,
    pub resources: Vec<McpResourceSpec>,
}

pub struct McpToolView {
    pub name: Seq<char>,
    pub description: Seq<char>,
    pub input_schema: JsonView,
}

pub struct McpResourceView {
    pub uri: Seq<char>,
    pub name: Seq<char>,
    pub description: Seq<char>,
    pub mime_type: Seq<char>,
}

impl View for McpToolSpec {
    type V = McpToolView;

    open spec fn view(&self) -> McpToolView {
        McpToolView { name: self.name@, description: self.description@, input_schema: self.input_schema@ }
    }
}

impl View for McpResourceSpec {
    type V = McpResourceView;

    open spec fn view(&self) -> McpResourceView {
        McpResourceView {
            uri: self.uri@,
            name: self.name@,
            description: self.description@,
            mime_type: self.mime_type@,
        }
    }
}

/// The schema of a tool that takes no arguments.
pub open spec fn no_arguments_schema() -> JsonView {
    JsonView::Object(
        seq![
            ("additionalProperties"@, JsonView::Bool(false)),
            ("properties"@, JsonView::Object(seq![])),
            ("type"@, JsonView::Text("object"@)),
        ],
    )
}

/// The schema of a tool that takes one required object argument named `name`.
pub open spec fn one_object_argument_schema(name: Seq<char>) -> JsonView {
    JsonView::Object(
        seq![
            ("additionalProperties"@, JsonView::Bool(false)),
            ("properties"@, JsonView::Object(seq![(name, JsonView::Object(seq![("type"@, JsonView::Text("object"@))]))])),
            ("required"@, JsonView::Array(seq![JsonView::Text(name)])),
            ("type"@, JsonView::Text("object"@)),
        ],
    )
}

/// The schema of the audit tool: an optional `limit` between 1 and 200.
pub open spec fn audit_schema() -> JsonView {
    JsonView::Object(
        seq![
            ("additionalProperties"@, JsonView::Bool(false)),
            (
                "properties"@,
                JsonView::Object(
                    seq![
                        (
                            "limit"@,
                            JsonView::Object(
                                seq![
                                    ("maximum"@, JsonView::Number("200"@)),
                                    ("minimum"@, JsonView::Number("1"@)),
                                    ("type"@, JsonView::Text("integer"@)),
                                ],
                            ),
                        ),
                    ],
                ),
            ),
            ("type"@, JsonView::Text("object"@)),
        ],
    )
}

pub open spec fn tool_row(name: Seq<char>, description: Seq<char>, schema: JsonView) -> McpToolView {
    McpToolView { name, description, input_schema: schema }
}

pub open spec fn resource_row(uri: Seq<char>, name: Seq<char>, description: Seq<char>) -> McpResourceView {
    McpResourceView { uri, name, description, mime_type: "application/json"@ }
}

/// The tools offered, in order.
pub open spec fn tool_table() -> Seq<McpToolView> {
    seq![
        tool_row("home.status"@, "Return runtime health, entity count, audit count, and safety policy summary."@, no_arguments_schema()),
        tool_row("home.list_entities"@, "Return current home entity snapshots."@, no_arguments_schema()),
        tool_row("home.list_scenes"@, "Return registered scene definitions."@, no_arguments_schema()),
        tool_row("home.evaluate"@, "Evaluate whether a physical home command is allowed without executing it."@, one_object_argument_schema("command"@)),
        tool_row("home.execute"@, "Execute a physical home command only if the deterministic runtime safety policy allows it."@, one_object_argument_schema("command"@)),
        tool_row("home.audit"@, "Return recent runtime safety and actuation decisions."@, audit_schema()),
        tool_row("home.apply_connectivity_report"@, "Apply a GenieOS connectivity report for discovered devices."@, one_object_argument_schema("report"@)),
    ]
}

/// The resources offered, in order.
pub open spec fn resource_table() -> Seq<McpResourceView> {
    seq![
        resource_row("genie-home://entities"@, "entities"@, "Current Genie Home Runtime entity graph snapshot."@),
        resource_row("genie-home://scenes"@, "scenes"@, "Registered Genie Home Runtime scene definitions."@),
        resource_row("genie-home://audit/recent"@, "recent_audit"@, "Recent physical-command safety decisions."@),
        resource_row("genie-home://support-bundle"@, "support_bundle"@, "Local support diagnostics generated from persisted runtime files."@),
    ]
}

/// The version of the runtime the surface describes.
pub open spec fn runtime_version() -> Seq<char> {
    "0.1.0-alpha.0"@
}

fn member(key: &str, value: JsonValue) -> (r: JsonMember)
    ensures
        r.key@ == key@,
        r.value@ == value@,
{
    JsonMember { key: String::from_str(key), value }
}

fn text(s: &str) -> (r: JsonValue)
    ensures
        r@ == JsonView::Text(s@),
{
    JsonValue::Text(String::from_str(s))
}

fn object(members: Vec<JsonMember>) -> (r: JsonValue)
    ensures
        r@ == JsonView::Object(members@.map_values(|m: JsonMember| (m.key@, m.value@))),
{
    let r = JsonValue::Object(members);
    proof {
        if let JsonView::Object(a) = r@ {
            assert(a =~= members@.map_values(|m: JsonMember| (m.key@, m.value@)));
        }
    }
    r
}

fn no_arguments_json() -> (r: JsonValue)
    ensures
        r@ == no_arguments_schema(),
{
    let mut ms: Vec<JsonMember> = Vec::new();
    ms.push(member("additionalProperties", JsonValue::Bool(false)));
    ms.push(member("properties", object(Vec::new())));
    ms.push(member("type", text("object")));
    let r = object(ms);
    proof {
        assert(Seq::<JsonMember>::empty().map_values(|m: JsonMember| (m.key@, m.value@)) =~= seq![]);
        assert(ms@.map_values(|m: JsonMember| (m.key@, m.value@)) =~= seq![
            ("additionalProperties"@, JsonView::Bool(false)),
            ("properties"@, JsonView::Object(seq![])),
            ("type"@, JsonView::Text("object"@)),
        ]);
    }
    r
}

fn one_object_argument_json(name: &str) -> (r: JsonValue)
    ensures
        r@ == one_object_argument_schema(name@),
{
    let mut inner: Vec<JsonMember> = Vec::new();
    inner.push(member("type", text("object")));
    let inner_obj = object(inner);
    let mut props: Vec<JsonMember> = Vec::new();
    props.push(member(name, inner_obj));
    let props_obj = object(props);
    let mut req: Vec<JsonValue> = Vec::new();
    req.push(text(name));
    let req_arr = JsonValue::Array(req);
    let mut ms: Vec<JsonMember> = Vec::new();
    ms.push(member("additionalProperties", JsonValue::Bool(false)));
    ms.push(member("properties", props_obj));
    ms.push(member("required", req_arr));
    ms.push(member("type", text("object")));
    let r = object(ms);
    proof {
        assert(inner@.map_values(|m: JsonMember| (m.key@, m.value@)) =~= seq![("type"@, JsonView::Text("object"@))]);
        assert(props@.map_values(|m: JsonMember| (m.key@, m.value@)) =~= seq![
            (name@, JsonView::Object(seq![("type"@, JsonView::Text("object"@))])),
        ]);
        if let JsonView::Array(a) = req_arr@ {
            assert(a =~= seq![JsonView::Text(name@)]);
        }
        assert(ms@.map_values(|m: JsonMember| (m.key@, m.value@)) =~= seq![
            ("additionalProperties"@, JsonView::Bool(false)),
            ("properties"@, JsonView::Object(seq![(name@, JsonView::Object(seq![("type"@, JsonView::Text("object"@))]))])),
            ("required"@, JsonView::Array(seq![JsonView::Text(name@)])),
            ("type"@, JsonView::Text("object"@)),
        ]);
    }
    r
}

fn audit_json() -> (r: JsonValue)
    ensures
        r@ == audit_schema(),
{
    let mut limit: Vec<JsonMember> = Vec::new();
    limit.push(member("maximum", JsonValue::Number(String::from_str("200"))));
    limit.push(member("minimum", JsonValue::Number(String::from_str("1"))));
    limit.push(member("type", text("integer")));
    let limit_obj = object(limit);
    let mut props: Vec<JsonMember> = Vec::new();
    props.push(member("limit", limit_obj));
    let props_obj = object(props);
    let mut ms: Vec<JsonMember> = Vec::new();
    ms.push(member("additionalProperties", JsonValue::Bool(false)));
    ms.push(member("properties", props_obj));
    ms.push(member("type", text("object")));
    let r = object(ms);
    proof {
        let lv = JsonView::Object(
            seq![
                ("maximum"@, JsonView::Number("200"@)),
                ("minimum"@, JsonView::Number("1"@)),
                ("type"@, JsonView::Text("integer"@)),
            ],
        );
        assert(limit@.map_values(|m: JsonMember| (m.key@, m.value@)) =~= seq![
            ("maximum"@, JsonView::Number("200"@)),
            ("minimum"@, JsonView::Number("1"@)),
            ("type"@, JsonView::Text("integer"@)),
        ]);
        assert(props@.map_values(|m: JsonMember| (m.key@, m.value@)) =~= seq![("limit"@, lv)]);
        assert(ms@.map_values(|m: JsonMember| (m.key@, m.value@)) =~= seq![
            ("additionalProperties"@, JsonView::Bool(false)),
            ("properties"@, JsonView::Object(seq![("limit"@, lv)])),
            ("type"@, JsonView::Text("object"@)),
        ]);
    }
    r
}

fn tool(name: &str, description: &str, input_schema: JsonValue) -> (r: McpToolSpec)
    ensures
        r@ == tool_row(name@, description@, input_schema@),
{
    McpToolSpec { name: String::from_str(name), description: String::from_str(description), input_schema }
}

fn resource(uri: &str, name: &str, description: &str) -> (r: McpResourceSpec)
    ensures
        r@ == resource_row(uri@, name@, description@),
{
    McpResourceSpec {
        uri: String::from_str(uri),
        name: String::from_str(name),
        description: String::from_str(description),
        mime_type: String::from_str("application/json"),
    }
}

/// The model-context surface of the runtime: status, listing, evaluation,
/// execution, audit and connectivity tools, and the entity, scene, audit and
/// support-bundle resources.
pub fn default_mcp_surface() -> (r: McpSurface)
    ensures
        r.name@ == "genie-home-runtime"@,
        r.version@ == runtime_version(),
        r.tools@.map_values(|t: McpToolSpec| t@) == tool_table(),
        r.resources@.map_values(|x: McpResourceSpec| x@) == resource_table(),
{
    let mut tools: Vec<McpToolSpec> = Vec::new();
    tools.push(tool("home.status", "Return runtime health, entity count, audit count, and safety policy summary.", no_arguments_json()));
    tools.push(tool("home.list_entities", "Return current home entity snapshots.", no_arguments_json()));
    tools.push(tool("home.list_scenes", "Return registered scene definitions.", no_arguments_json()));
    tools.push(tool("home.evaluate", "Evaluate whether a physical home command is allowed without executing it.", one_object_argument_json("command")));
    tools.push(tool("home.execute", "Execute a physical home command only if the deterministic runtime safety policy allows it.", one_object_argument_json("command")));
    tools.push(tool("home.audit", "Return recent runtime safety and actuation decisions.", audit_json()));
    tools.push(tool("home.apply_connectivity_report", "Apply a GenieOS connectivity report for discovered devices.", one_object_argument_json("report")));
    let mut resources: Vec<McpResourceSpec> = Vec::new();
    resources.push(resource("genie-home://entities", "entities", "Current Genie Home Runtime entity graph snapshot."));
    resources.push(resource("genie-home://scenes", "scenes", "Registered Genie Home Runtime scene definitions."));
    resources.push(resource("genie-home://audit/recent", "recent_audit", "Recent physical-command safety decisions."));
    resources.push(resource("genie-home://support-bundle", "support_bundle", "Local support diagnostics generated from persisted runtime files."));
    proof {
        assert(tools@.map_values(|t: McpToolSpec| t@) =~= tool_table());
        assert(resources@.map_values(|x: McpResourceSpec| x@) =~= resource_table());
    }
    McpSurface {
        name: String::from_str("genie-home-runtime"),
        version: String::from_str("0.1.0-alpha.0"),
        tools,
        resources,
    }
}

} // verus!
