use vstd::prelude::*;
use crate::text::eq_text;

verus! {

/// One parameter of a tool offered to an agent.
pub struct ToolParamSpec {
    pub name: String,
    pub value_type: String,
    pub required: bool,
}

/// A tool offered to an agent: its name, what it is for, its parameters and
/// the kind of value it returns.
pub struct ToolSpec {
    pub name: String,
    pub description: String,
    pub params: Vec<ToolParamSpec>,
    pub returns: String,
    /// Whether the tool is kept out of the list the agent is shown.
    pub hidden: bool,
    /// Whether the tool's description is written into the agent's prompt.
    pub inject_into_prompt: bool,
}

/// A parameter as plain values.
pub open spec fn param_view(p: ToolParamSpec) -> (Seq<char>, Seq<char>, bool) {
    (p.name@, p.value_type@, p.required)
}

/// A tool as plain values: name, description, parameters, kind of result,
/// whether it is hidden, whether it is written into the prompt.
pub open spec fn tool_view(t: ToolSpec) -> (Seq<char>, Seq<char>, Seq<(Seq<char>, Seq<char>, bool)>, Seq<char>, bool, bool) {
    (t.name@, t.description@, t.params@.map_values(|p: ToolParamSpec| param_view(p)), t.returns@, t.hidden, t.inject_into_prompt)
}

/// Tools as plain values, in order.
pub open spec fn tools_view(ts: Seq<ToolSpec>) -> Seq<(Seq<char>, Seq<char>, Seq<(Seq<char>, Seq<char>, bool)>, Seq<char>, bool, bool)> {
    ts.map_values(|t: ToolSpec| tool_view(t))
}

fn param(name: &str, value_type: &str, required: bool) -> (p: ToolParamSpec)
    ensures
        param_view(p) == (name@, value_type@, required),
{
    ToolParamSpec { name: String::from_str(name), value_type: String::from_str(value_type), required }
}

/// A visible tool, written into the prompt, that returns a dictionary.
fn tool(name: &str, description: &str, params: Vec<ToolParamSpec>) -> (t: ToolSpec)
    ensures
        tool_view(t) == (name@, description@, params@.map_values(|p: ToolParamSpec| param_view(p)), "dict"@, false, true),
{
    ToolSpec {
        name: String::from_str(name),
        description: String::from_str(description),
        params,
        returns: String::from_str("dict"),
        hidden: false,
        inject_into_prompt: true,
    }
}

/// The message an agent gets back for a tool that does not exist.
pub fn unknown_tool_error(name: &str) -> (e: String)
    ensures
        e@ == "Unknown tool: "@ + name@,
{
    let mut e = String::from_str("Unknown tool: ");
    e.append(name);
    e
}

/// The tools of a storm run's design agent.
#[derive(Clone, Copy, Debug, PartialEq, Eq)]
pub enum StormTool {
    WorkspaceList,
    WorkspaceRead,
    WorkspaceWrite,
    RenderResult,
    ViewResult,
    SubmitResult,
    CopyInput,
}

/// The name under which an agent calls a tool of a storm run's design agent.
pub open spec fn storm_tool_name(t: StormTool) -> Seq<char> {
    match t {
        StormTool::WorkspaceList => "workspace_list"@,
        StormTool::WorkspaceRead => "workspace_read"@,
        StormTool::WorkspaceWrite => "workspace_write"@,
        StormTool::RenderResult => "render_result"@,
        StormTool::ViewResult => "view_result"@,
        StormTool::SubmitResult => "submit_result"@,
        StormTool::CopyInput => "copy_input"@,
    }
}

/// The tool of a storm run's design agent that an agent's call names, if any.
pub open spec fn storm_tool_of(name: Seq<char>) -> Option<StormTool> {
    if name == "workspace_list"@ {
        Some(StormTool::WorkspaceList)
    } else if name == "workspace_read"@ {
        Some(StormTool::WorkspaceRead)
    } else if name == "workspace_write"@ {
        Some(StormTool::WorkspaceWrite)
    } else if name == "render_result"@ {
        Some(StormTool::RenderResult)
    } else if name == "view_result"@ {
        Some(StormTool::ViewResult)
    } else if name == "submit_result"@ {
        Some(StormTool::SubmitResult)
    } else if name == "copy_input"@ {
        Some(StormTool::CopyInput)
    } else {
        None
    }
}

/// Finds the tool of a storm run's design agent that an agent's call names.
pub fn storm_tool_named(name: &str) -> (t: Option<StormTool>)
    ensures
        t == storm_tool_of(name@),
{
    if eq_text(name, "workspace_list") {
        Some(StormTool::WorkspaceList)
    } else if eq_text(name, "workspace_read") {
        Some(StormTool::WorkspaceRead)
    } else if eq_text(name, "workspace_write") {
        Some(StormTool::WorkspaceWrite)
    } else if eq_text(name, "render_result") {
        Some(StormTool::RenderResult)
    } else if eq_text(name, "view_result") {
        Some(StormTool::ViewResult)
    } else if eq_text(name, "submit_result") {
        Some(StormTool::SubmitResult)
    } else if eq_text(name, "copy_input") {
        Some(StormTool::CopyInput)
    } else {
        None
    }
}

/// The definitions of the tools of a storm run's design agent, in the order they are offered.
pub open spec fn storm_tool_table() -> Seq<(Seq<char>, Seq<char>, Seq<(Seq<char>, Seq<char>, bool)>, Seq<char>, bool, bool)> {
    seq![
        ("workspace_list"@, "List the current artifact workspace. Use this to inspect available files before reading or editing them."@, Seq::empty(), "dict"@, false, true),
        ("workspace_read"@, "Read a UTF-8 text file from the current artifact workspace. Paths must stay inside the workspace."@, seq![("path"@, "str"@, true)], "dict"@, false, true),
        ("workspace_write"@, "Create or overwrite a text file inside the current artifact workspace. Use this to author index.html, styles.css, and supporting docs."@, seq![("path"@, "str"@, true), ("content"@, "str"@, true)], "dict"@, false, true),
        ("render_result"@, "Validate that the current workspace can be previewed and return the preview URL."@, Seq::empty(), "dict"@, false, true),
        ("view_result"@, "Inspect the current artifact result as structured excerpts plus the preview URL. Use this after rendering to critique or refine the output."@, Seq::empty(), "dict"@, false, true),
        ("submit_result"@, "Mark the current artifact as the candidate output for this storm run. Call this after you are satisfied with the HTML result."@, seq![("title"@, "str"@, false), ("summary"@, "str"@, false)], "dict"@, false, true),
        ("copy_input"@, "Copy a file from the inputs/ directory into the workspace so it becomes part of the output artifact. Use this when you want to include a provided asset (image, font, etc.) in your HTML result."@, seq![("source"@, "str"@, true), ("destination"@, "str"@, true)], "dict"@, false, true),
    ]
}

/// The definitions of the tools of a storm run's design agent.
pub fn storm_tool_definitions() -> (r: Vec<ToolSpec>)
    ensures
        tools_view(r@) == storm_tool_table(),
        forall|i: int| 0 <= i < r@.len() ==> !(#[trigger] r@[i]).hidden && r@[i].inject_into_prompt,
{
    let mut r: Vec<ToolSpec> = Vec::new();
    let mut ps: Vec<ToolParamSpec> = Vec::new();
    assert(ps@.map_values(|p: ToolParamSpec| param_view(p)) =~= Seq::<(Seq<char>, Seq<char>, bool)>::empty());
    r.push(tool("workspace_list", "List the current artifact workspace. Use this to inspect available files before reading or editing them.", ps));
    let mut ps: Vec<ToolParamSpec> = Vec::new();
    ps.push(param("path", "str", true));
    assert(ps@.map_values(|p: ToolParamSpec| param_view(p)) =~= seq![("path"@, "str"@, true)]);
    r.push(tool("workspace_read", "Read a UTF-8 text file from the current artifact workspace. Paths must stay inside the workspace.", ps));
    let mut ps: Vec<ToolParamSpec> = Vec::new();
    ps.push(param("path", "str", true));
    ps.push(param("content", "str", true));
    assert(ps@.map_values(|p: ToolParamSpec| param_view(p)) =~= seq![("path"@, "str"@, true), ("content"@, "str"@, true)]);
    r.push(tool("workspace_write", "Create or overwrite a text file inside the current artifact workspace. Use this to author index.html, styles.css, and supporting docs.", ps));
    let mut ps: Vec<ToolParamSpec> = Vec::new();
    assert(ps@.map_values(|p: ToolParamSpec| param_view(p)) =~= Seq::<(Seq<char>, Seq<char>, bool)>::empty());
    r.push(tool("render_result", "Validate that the current workspace can be previewed and return the preview URL.", ps));
    let mut ps: Vec<ToolParamSpec> = Vec::new();
    assert(ps@.map_values(|p: ToolParamSpec| param_view(p)) =~= Seq::<(Seq<char>, Seq<char>, bool)>::empty());
    r.push(tool("view_result", "Inspect the current artifact result as structured excerpts plus the preview URL. Use this after rendering to critique or refine the output.", ps));
    let mut ps: Vec<ToolParamSpec> = Vec::new();
    ps.push(param("title", "str", false));
    ps.push(param("summary", "str", false));
    assert(ps@.map_values(|p: ToolParamSpec| param_view(p)) =~= seq![("title"@, "str"@, false), ("summary"@, "str"@, false)]);
    r.push(tool("submit_result", "Mark the current artifact as the candidate output for this storm run. Call this after you are satisfied with the HTML result.", ps));
    let mut ps: Vec<ToolParamSpec> = Vec::new();
    ps.push(param("source", "str", true));
    ps.push(param("destination", "str", true));
    assert(ps@.map_values(|p: ToolParamSpec| param_view(p)) =~= seq![("source"@, "str"@, true), ("destination"@, "str"@, true)]);
    r.push(tool("copy_input", "Copy a file from the inputs/ directory into the workspace so it becomes part of the output artifact. Use this when you want to include a provided asset (image, font, etc.) in your HTML result.", ps));
    assert(tools_view(r@) =~= storm_tool_table());
    assert forall|i: int| 0 <= i < r@.len() implies !(#[trigger] r@[i]).hidden && r@[i].inject_into_prompt by {
        assert(tools_view(r@)[i] == tool_view(r@[i]));
    }
    r
}

/// The tools of a session's director agent.
#[derive(Clone, Copy, Debug, PartialEq, Eq)]
pub enum SessionTool {
    ListDesigns,
    ListReferences,
    ViewDesign,
    ViewReference,
    MakeDesign,
}

/// The name under which an agent calls a tool of a session's director agent.
pub open spec fn session_tool_name(t: SessionTool) -> Seq<char> {
    match t {
        SessionTool::ListDesigns => "list_designs"@,
        SessionTool::ListReferences => "list_references"@,
        SessionTool::ViewDesign => "view_design"@,
        SessionTool::ViewReference => "view_reference"@,
        SessionTool::MakeDesign => "make_design"@,
    }
}

/// The tool of a session's director agent that an agent's call names, if any.
pub open spec fn session_tool_of(name: Seq<char>) -> Option<SessionTool> {
    if name == "list_designs"@ {
        Some(SessionTool::ListDesigns)
    } else if name == "list_references"@ {
        Some(SessionTool::ListReferences)
    } else if name == "view_design"@ {
        Some(SessionTool::ViewDesign)
    } else if name == "view_reference"@ {
        Some(SessionTool::ViewReference)
    } else if name == "make_design"@ {
        Some(SessionTool::MakeDesign)
    } else {
        None
    }
}

/// Finds the tool of a session's director agent that an agent's call names.
pub fn session_tool_named(name: &str) -> (t: Option<SessionTool>)
    ensures
        t == session_tool_of(name@),
{
    if eq_text(name, "list_designs") {
        Some(SessionTool::ListDesigns)
    } else if eq_text(name, "list_references") {
        Some(SessionTool::ListReferences)
    } else if eq_text(name, "view_design") {
        Some(SessionTool::ViewDesign)
    } else if eq_text(name, "view_reference") {
        Some(SessionTool::ViewReference)
    } else if eq_text(name, "make_design") {
        Some(SessionTool::MakeDesign)
    } else {
        None
    }
}

/// The definitions of the tools of a session's director agent, in the order they are offered.
pub open spec fn session_tool_table() -> Seq<(Seq<char>, Seq<char>, Seq<(Seq<char>, Seq<char>, bool)>, Seq<char>, bool, bool)> {
    seq![
        ("list_designs"@, "List all designs created in this session. Returns id, title, summary, and preview URL for each design."@, Seq::empty(), "dict"@, false, true),
        ("list_references"@, "List all references attached to this session (notes, links, images). Returns id, kind, and title for each."@, Seq::empty(), "dict"@, false, true),
        ("view_design"@, "View a design by taking a live screenshot of the rendered page. Also returns metadata (title, summary, prompt). Falls back to HTML/CSS source excerpts if screenshots are unavailable. Use the design id from list_designs."@, seq![("design_id"@, "str"@, true)], "dict"@, false, true),
        ("view_reference"@, "View a specific reference's full content. For text references returns the body, for links the URL and notes, for images returns the image data. Use the reference id from list_references."@, seq![("reference_id"@, "str"@, true)], "dict"@, false, true),
        ("make_design"@, "Queue one asynchronous design generation job for this session. Use it when the user wants new designs, refinements, branches, or iterations. Pass only reference_ids from the selected handles listed in the prompt."@, seq![("prompt"@, "str"@, true), ("reference_ids"@, "list[str]"@, false), ("iterates_on_id"@, "str"@, false), ("title"@, "str"@, false)], "dict"@, false, true),
    ]
}

/// The definitions of the tools of a session's director agent.
pub fn session_tool_definitions() -> (r: Vec<ToolSpec>)
    ensures
        tools_view(r@) == session_tool_table(),
        forall|i: int| 0 <= i < r@.len() ==> !(#[trigger] r@[i]).hidden && r@[i].inject_into_prompt,
{
    let mut r: Vec<ToolSpec> = Vec::new();
    let mut ps: Vec<ToolParamSpec> = Vec::new();
    assert(ps@.map_values(|p: ToolParamSpec| param_view(p)) =~= Seq::<(Seq<char>, Seq<char>, bool)>::empty());
    r.push(tool("list_designs", "List all designs created in this session. Returns id, title, summary, and preview URL for each design.", ps));
    let mut ps: Vec<ToolParamSpec> = Vec::new();
    assert(ps@.map_values(|p: ToolParamSpec| param_view(p)) =~= Seq::<(Seq<char>, Seq<char>, bool)>::empty());
    r.push(tool("list_references", "List all references attached to this session (notes, links, images). Returns id, kind, and title for each.", ps));
    let mut ps: Vec<ToolParamSpec> = Vec::new();
    ps.push(param("design_id", "str", true));
    assert(ps@.map_values(|p: ToolParamSpec| param_view(p)) =~= seq![("design_id"@, "str"@, true)]);
    r.push(tool("view_design", "View a design by taking a live screenshot of the rendered page. Also returns metadata (title, summary, prompt). Falls back to HTML/CSS source excerpts if screenshots are unavailable. Use the design id from list_designs.", ps));
    let mut ps: Vec<ToolParamSpec> = Vec::new();
    ps.push(param("reference_id", "str", true));
    assert(ps@.map_values(|p: ToolParamSpec| param_view(p)) =~= seq![("reference_id"@, "str"@, true)]);
    r.push(tool("view_reference", "View a specific reference's full content. For text references returns the body, for links the URL and notes, for images returns the image data. Use the reference id from list_references.", ps));
    let mut ps: Vec<ToolParamSpec> = Vec::new();
    ps.push(param("prompt", "str", true));
    ps.push(param("reference_ids", "list[str]", false));
    ps.push(param("iterates_on_id", "str", false));
    ps.push(param("title", "str", false));
    assert(ps@.map_values(|p: ToolParamSpec| param_view(p)) =~= seq![("prompt"@, "str"@, true), ("reference_ids"@, "list[str]"@, false), ("iterates_on_id"@, "str"@, false), ("title"@, "str"@, false)]);
    r.push(tool("make_design", "Queue one asynchronous design generation job for this session. Use it when the user wants new designs, refinements, branches, or iterations. Pass only reference_ids from the selected handles listed in the prompt.", ps));
    assert(tools_view(r@) =~= session_tool_table());
    assert forall|i: int| 0 <= i < r@.len() implies !(#[trigger] r@[i]).hidden && r@[i].inject_into_prompt by {
        assert(tools_view(r@)[i] == tool_view(r@[i]));
    }
    r
}

/// The parameters each tool takes, in order, with their types and whether
/// they are required: `workspace_read` a path, `workspace_write` a path and
/// its content, `submit_result` an optional title and summary, `copy_input` a
/// source and a destination; `view_design` a design id, `view_reference` a
/// reference id, `make_design` a required prompt and optional reference ids
/// (a list), iteration target and title; the other tools take none. Every
/// tool returns a dictionary.
pub proof fn law_tool_parameters()
    ensures
        storm_tool_table().len() == 7,
        session_tool_table().len() == 5,
        forall|i: int| 0 <= i < 7 ==> (#[trigger] storm_tool_table()[i]).3 == "dict"@,
        forall|i: int| 0 <= i < 5 ==> (#[trigger] session_tool_table()[i]).3 == "dict"@,
        storm_tool_table()[0].2 == Seq::<(Seq<char>, Seq<char>, bool)>::empty(),
        storm_tool_table()[1].2 == seq![("path"@, "str"@, true)],
        storm_tool_table()[2].2 == seq![("path"@, "str"@, true), ("content"@, "str"@, true)],
        storm_tool_table()[3].2 == Seq::<(Seq<char>, Seq<char>, bool)>::empty(),
        storm_tool_table()[4].2 == Seq::<(Seq<char>, Seq<char>, bool)>::empty(),
        storm_tool_table()[5].2 == seq![("title"@, "str"@, false), ("summary"@, "str"@, false)],
        storm_tool_table()[6].2 == seq![("source"@, "str"@, true), ("destination"@, "str"@, true)],
        session_tool_table()[0].2 == Seq::<(Seq<char>, Seq<char>, bool)>::empty(),
        session_tool_table()[1].2 == Seq::<(Seq<char>, Seq<char>, bool)>::empty(),
        session_tool_table()[2].2 == seq![("design_id"@, "str"@, true)],
        session_tool_table()[3].2 == seq![("reference_id"@, "str"@, true)],
        session_tool_table()[4].2 == seq![("prompt"@, "str"@, true), ("reference_ids"@, "list[str]"@, false),
            ("iterates_on_id"@, "str"@, false), ("title"@, "str"@, false)],
        storm_tool_table()[0].0 == "workspace_list"@ && storm_tool_table()[1].0 == "workspace_read"@
            && storm_tool_table()[2].0 == "workspace_write"@ && storm_tool_table()[3].0 == "render_result"@
            && storm_tool_table()[4].0 == "view_result"@ && storm_tool_table()[5].0 == "submit_result"@
            && storm_tool_table()[6].0 == "copy_input"@,
        session_tool_table()[0].0 == "list_designs"@ && session_tool_table()[1].0 == "list_references"@
            && session_tool_table()[2].0 == "view_design"@ && session_tool_table()[3].0 == "view_reference"@
            && session_tool_table()[4].0 == "make_design"@,
{
}


/// Every tool a storm run's design agent is offered is one it can call under the same name, no
/// two offered tools share a name, and every tool it can call is offered.
pub proof fn law_storm_tools_offered_are_dispatched()
    ensures
        forall|i: int| 0 <= i < storm_tool_table().len() ==> storm_tool_of(#[trigger] storm_tool_table()[i].0) is Some
            && storm_tool_name(storm_tool_of(storm_tool_table()[i].0)->0) == storm_tool_table()[i].0,
        forall|i: int, j: int| 0 <= i < j < storm_tool_table().len() ==> storm_tool_table()[i].0 != storm_tool_table()[j].0,
        forall|t: StormTool| exists|i: int| 0 <= i < storm_tool_table().len() && storm_tool_table()[i].0 == #[trigger] storm_tool_name(t),
{
    reveal_strlit("workspace_list");
    reveal_strlit("workspace_read");
    reveal_strlit("workspace_write");
    reveal_strlit("render_result");
    reveal_strlit("view_result");
    reveal_strlit("submit_result");
    reveal_strlit("copy_input");
    assert("workspace_list"@[10] != "workspace_read"@[10]);
    assert("workspace_list"@.len() != "workspace_write"@.len());
    assert("workspace_list"@.len() != "render_result"@.len());
    assert("workspace_list"@.len() != "view_result"@.len());
    assert("workspace_list"@.len() != "submit_result"@.len());
    assert("workspace_list"@.len() != "copy_input"@.len());
    assert("workspace_read"@.len() != "workspace_write"@.len());
    assert("workspace_read"@.len() != "render_result"@.len());
    assert("workspace_read"@.len() != "view_result"@.len());
    assert("workspace_read"@.len() != "submit_result"@.len());
    assert("workspace_read"@.len() != "copy_input"@.len());
    assert("workspace_write"@.len() != "render_result"@.len());
    assert("workspace_write"@.len() != "view_result"@.len());
    assert("workspace_write"@.len() != "submit_result"@.len());
    assert("workspace_write"@.len() != "copy_input"@.len());
    assert("render_result"@.len() != "view_result"@.len());
    assert("render_result"@[0] != "submit_result"@[0]);
    assert("render_result"@.len() != "copy_input"@.len());
    assert("view_result"@.len() != "submit_result"@.len());
    assert("view_result"@.len() != "copy_input"@.len());
    assert("submit_result"@.len() != "copy_input"@.len());
    assert forall|t: StormTool| exists|i: int| 0 <= i < storm_tool_table().len() && storm_tool_table()[i].0 == #[trigger] storm_tool_name(t) by {
        match t {
        StormTool::WorkspaceList => assert(storm_tool_table()[0].0 == storm_tool_name(t)),
        StormTool::WorkspaceRead => assert(storm_tool_table()[1].0 == storm_tool_name(t)),
        StormTool::WorkspaceWrite => assert(storm_tool_table()[2].0 == storm_tool_name(t)),
        StormTool::RenderResult => assert(storm_tool_table()[3].0 == storm_tool_name(t)),
        StormTool::ViewResult => assert(storm_tool_table()[4].0 == storm_tool_name(t)),
        StormTool::SubmitResult => assert(storm_tool_table()[5].0 == storm_tool_name(t)),
        StormTool::CopyInput => assert(storm_tool_table()[6].0 == storm_tool_name(t)),
        }
    }
}

/// Every tool a session's director agent is offered is one it can call under the same name, no
/// two offered tools share a name, and every tool it can call is offered.
pub proof fn law_session_tools_offered_are_dispatched()
    ensures
        forall|i: int| 0 <= i < session_tool_table().len() ==> session_tool_of(#[trigger] session_tool_table()[i].0) is Some
            && session_tool_name(session_tool_of(session_tool_table()[i].0)->0) == session_tool_table()[i].0,
        forall|i: int, j: int| 0 <= i < j < session_tool_table().len() ==> session_tool_table()[i].0 != session_tool_table()[j].0,
        forall|t: SessionTool| exists|i: int| 0 <= i < session_tool_table().len() && session_tool_table()[i].0 == #[trigger] session_tool_name(t),
{
    reveal_strlit("list_designs");
    reveal_strlit("list_references");
    reveal_strlit("view_design");
    reveal_strlit("view_reference");
    reveal_strlit("make_design");
    assert("list_designs"@.len() != "list_references"@.len());
    assert("list_designs"@.len() != "view_design"@.len());
    assert("list_designs"@.len() != "view_reference"@.len());
    assert("list_designs"@.len() != "make_design"@.len());
    assert("list_references"@.len() != "view_design"@.len());
    assert("list_references"@.len() != "view_reference"@.len());
    assert("list_references"@.len() != "make_design"@.len());
    assert("view_design"@.len() != "view_reference"@.len());
    assert("view_design"@[0] != "make_design"@[0]);
    assert("view_reference"@.len() != "make_design"@.len());
    assert forall|t: SessionTool| exists|i: int| 0 <= i < session_tool_table().len() && session_tool_table()[i].0 == #[trigger] session_tool_name(t) by {
        match t {
        SessionTool::ListDesigns => assert(session_tool_table()[0].0 == session_tool_name(t)),
        SessionTool::ListReferences => assert(session_tool_table()[1].0 == session_tool_name(t)),
        SessionTool::ViewDesign => assert(session_tool_table()[2].0 == session_tool_name(t)),
        SessionTool::ViewReference => assert(session_tool_table()[3].0 == session_tool_name(t)),
        SessionTool::MakeDesign => assert(session_tool_table()[4].0 == session_tool_name(t)),
        }
    }
}
} // verus!
