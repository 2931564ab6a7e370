use designstorm::generation::StormGenerationInput;
use designstorm::storm::{
    copy_input_paths, finished_run_record, initial_workspace_state, local_preview_url, preview_url_for,
    required_arg, screenshot_caption, storm_workspace_dir, view_excerpts,
};
use designstorm::tools::{
    session_tool_definitions, session_tool_named, storm_tool_definitions, storm_tool_named, unknown_tool_error,
    SessionTool, StormTool,
};

const U1: u128 = 0x67e55044_10b1_426f_9247_bb680e5fe0c8;
const U2: u128 = 1;

#[test]
fn preview_and_workspace_locations() {
    assert_eq!(preview_url_for(U1), "/preview/67e55044-10b1-426f-9247-bb680e5fe0c8/");
    assert_eq!(
        storm_workspace_dir("/data/ws", U1, U2),
        "/data/ws/67e55044-10b1-426f-9247-bb680e5fe0c8/00000000-0000-0000-0000-000000000001"
    );
    assert_eq!(local_preview_url(8080, "/preview/x/"), "http://127.0.0.1:8080/preview/x/");
    assert_eq!(local_preview_url(0, "/p"), "http://127.0.0.1:0/p");
    assert_eq!(screenshot_caption("Dune", "render preview"), "Dune \u{2014} render preview");
}

#[test]
fn workspace_starts_in_progress() {
    let st = initial_workspace_state(U2, "/w".to_string(), "seed".to_string(), &Some("  Job title ".to_string()));
    assert_eq!(st.title, "  Job title ");
    assert_eq!(st.summary, "Design language artifact in progress.");
    assert!(!st.submitted);
    assert_eq!(st.preview_url, "/preview/00000000-0000-0000-0000-000000000001/");
    let st = initial_workspace_state(U2, "/w".to_string(), "seed".to_string(), &Some("   ".to_string()));
    assert_eq!(st.title, "Storm Artifact");
    let st = initial_workspace_state(U2, "/w".to_string(), "seed".to_string(), &None);
    assert_eq!(st.title, "Storm Artifact");
}

#[test]
fn submit_result_sets_title_and_summary() {
    let mut st = initial_workspace_state(U1, "/w".to_string(), "seed".to_string(), &None);
    st.submit_result(Some("  Neon  "), None);
    assert_eq!(st.title, "Neon");
    assert_eq!(st.summary, "Design language document ready.");
    assert!(st.submitted);
    st.submit_result(Some("   "), Some(" done "));
    assert_eq!(st.title, "Storm Artifact");
    assert_eq!(st.summary, "done");
    assert_eq!(st.run_id, U1);
    assert_eq!(st.prompt, "seed");
    assert_eq!(st.workspace_dir, "/w");
}

#[test]
fn required_arguments() {
    assert_eq!(required_arg(Some(" a.html "), "path"), Ok(" a.html ".to_string()));
    assert_eq!(required_arg(Some("  "), "path"), Err("Missing required parameter: path".to_string()));
    assert_eq!(required_arg(None, "content"), Err("Missing required parameter: content".to_string()));
}

#[test]
fn copy_input_checks_paths() {
    assert_eq!(
        copy_input_paths("/w", "inputs/logo.png", "assets/logo.png"),
        Ok(("/w/inputs/logo.png".to_string(), "/w/assets/logo.png".to_string()))
    );
    assert_eq!(
        copy_input_paths("/w", "logo.png", "assets/logo.png"),
        Err("source must start with \"inputs/\"".to_string())
    );
    assert_eq!(
        copy_input_paths("/w", "inputs/logo.png", "inputs/copy.png"),
        Err("destination must not be inside \"inputs/\"".to_string())
    );
    assert_eq!(
        copy_input_paths("/w", "inputs/../../etc", "x"),
        Err("Path escapes the workspace root.".to_string())
    );
    assert_eq!(
        copy_input_paths("/w", "inputs/a", "/abs"),
        Err("Path must be relative to the workspace root.".to_string())
    );
}

#[test]
fn view_excerpts_are_bounded() {
    let html = "h".repeat(2500);
    let (h, c) = view_excerpts(&html, "body{}");
    assert_eq!(h, format!("{}\n... [truncated]", "h".repeat(2400)));
    assert_eq!(c, "body{}");
}

#[test]
fn finished_runs_keep_workspace_state() {
    let mut st = initial_workspace_state(U1, "/w".to_string(), "seed".to_string(), &None);
    st.submit_result(Some("Final"), Some("Bold"));
    let input = StormGenerationInput {
        prompt: "seed".to_string(),
        draft_mode: None,
        source_ids: vec![U2],
        asset_ids: vec![],
        session_id: Some(U2),
        iterates_on_id: Some(U2),
        fallback_title: None,
    };
    let rec = finished_run_record(&st, 7, "  all done \n", &input, 42);
    assert_eq!(rec.id, U1);
    assert_eq!(rec.owner_user_id, 7);
    assert_eq!(rec.title, "Final");
    assert_eq!(rec.summary, "Bold");
    assert_eq!(rec.assistant_summary, "all done");
    assert!(rec.submitted);
    assert_eq!(rec.parent_ids, vec![U2]);
    assert_eq!(rec.created_at, 42);
    let brief = rec.brief();
    assert_eq!(brief.title, "Final");
}

#[test]
fn storm_tools_offered_are_dispatched() {
    let defs = storm_tool_definitions();
    let names: Vec<&str> = defs.iter().map(|d| d.name.as_str()).collect();
    assert_eq!(
        names,
        vec!["workspace_list", "workspace_read", "workspace_write", "render_result", "view_result", "submit_result", "copy_input"]
    );
    for d in &defs {
        assert!(storm_tool_named(&d.name).is_some());
        assert_eq!(d.returns, "dict");
        assert!(!d.hidden);
        assert!(d.inject_into_prompt);
    }
    assert_eq!(storm_tool_named("copy_input"), Some(StormTool::CopyInput));
    assert_eq!(storm_tool_named("shell"), None);
    assert_eq!(defs[5].params.len(), 2);
    assert!(!defs[5].params[0].required);
    assert_eq!(defs[2].params[1].name, "content");
    assert_eq!(defs[2].params[1].value_type, "str");
}

#[test]
fn session_tools_offered_are_dispatched() {
    let defs = session_tool_definitions();
    let names: Vec<&str> = defs.iter().map(|d| d.name.as_str()).collect();
    assert_eq!(names, vec!["list_designs", "list_references", "view_design", "view_reference", "make_design"]);
    for d in &defs {
        assert!(session_tool_named(&d.name).is_some());
        assert!(!d.hidden);
        assert!(d.inject_into_prompt);
    }
    assert_eq!(session_tool_named("make_design"), Some(SessionTool::MakeDesign));
    assert_eq!(defs[4].params[1].value_type, "list[str]");
    assert_eq!(unknown_tool_error("rm"), "Unknown tool: rm");
}
