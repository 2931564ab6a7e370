use designstorm::handles::normalize_reference_handles;
use designstorm::preview::strip_meta_refresh_tags;
use designstorm::text::{decimal_text, html_escape, join_texts, trim_str, truncate_for_log, truncate_for_tool};
use designstorm::titles::{derive_design_title, normalize_session_title};
use designstorm::ids::parse_optional_uuid;
use designstorm::session::{classify_reference_handle, ReferenceHandle};
use designstorm::workspace::{preview_asset_target, join_path, normalize_workspace_asset_path, resolve_workspace_path};

fn strings(xs: &[&str]) -> Vec<String> {
    xs.iter().map(|x| x.to_string()).collect()
}

#[test]
fn truncate_for_log_marks_cuts() {
    assert_eq!(truncate_for_log("hello", 3), "hel...");
    assert_eq!(truncate_for_log("hello", 5), "hello");
    assert_eq!(truncate_for_log("héllo wörld", 4), "héll...");
    assert_eq!(truncate_for_log("", 0), "");
}

#[test]
fn truncate_for_tool_marks_cuts_on_own_line() {
    assert_eq!(truncate_for_tool("abcdef", 4), "abcd\n... [truncated]");
    assert_eq!(truncate_for_tool("abcd", 4), "abcd");
}

#[test]
fn html_escape_replaces_markup_characters() {
    assert_eq!(
        html_escape("<a href=\"x\">Tom & Jerry's</a>"),
        "&lt;a href=&quot;x&quot;&gt;Tom &amp; Jerry&#39;s&lt;/a&gt;"
    );
    assert_eq!(html_escape("plain"), "plain");
}

#[test]
fn html_escape_output_is_inert() {
    let out = html_escape("<script>alert('x\"y')</script>&<>");
    assert!(!out.contains('<'));
    assert!(!out.contains('>'));
    assert!(!out.contains('"'));
    assert!(!out.contains('\''));
}

#[test]
fn trim_and_join_follow_std() {
    assert_eq!(trim_str("  \u{3000}hi there\t\n"), "hi there");
    assert_eq!(join_texts(&strings(&["a", "b", "c"]), ", "), "a, b, c");
    assert_eq!(join_texts(&strings(&[]), ", "), "");
    assert_eq!(decimal_text(0), "0");
    assert_eq!(decimal_text(10485760), "10485760");
}

#[test]
fn strip_meta_refresh_removes_only_refresh_tags() {
    let (html, removed) = strip_meta_refresh_tags(
        "<head><META http-equiv=\"refresh\" content=\"0;url=x\"><meta charset=\"utf-8\"></head>",
    );
    assert_eq!(html, "<head><meta charset=\"utf-8\"></head>");
    assert_eq!(removed, 1);
}

#[test]
fn strip_meta_refresh_keeps_pages_without_refresh() {
    let page = "<html><meta name=\"viewport\"><body>refresh</body></html>";
    let (html, removed) = strip_meta_refresh_tags(page);
    assert_eq!(html, page);
    assert_eq!(removed, 0);
}

#[test]
fn strip_meta_refresh_keeps_unclosed_tag() {
    let (html, removed) = strip_meta_refresh_tags("a<meta http-equiv=refresh");
    assert_eq!(html, "a<meta http-equiv=refresh");
    assert_eq!(removed, 0);
}

#[test]
fn design_title_takes_first_ten_words() {
    assert_eq!(
        derive_design_title("  make   a bold poster for jazz night in the city tonight please  "),
        "make a bold poster for jazz night in the city"
    );
    assert_eq!(derive_design_title(" \n "), "Untitled Design");
    let long = "abcdefghij ".repeat(10);
    assert_eq!(
        derive_design_title(&long),
        format!("{}...", &"abcdefghij ".repeat(6)[..64])
    );
}

#[test]
fn session_titles_are_trimmed_and_bounded() {
    assert_eq!(normalize_session_title(None), "Untitled Session");
    assert_eq!(normalize_session_title(Some("   ")), "Untitled Session");
    assert_eq!(normalize_session_title(Some("  Poster ideas  ")), "Poster ideas");
    let long = "a".repeat(90);
    assert_eq!(normalize_session_title(Some(&long)), format!("{}...", "a".repeat(80)));
}

#[test]
fn reference_handles_are_trimmed_deduplicated_in_order() {
    let out = normalize_reference_handles(strings(&[" ref:a ", "", "design:b", "ref:a", "  "]));
    assert_eq!(out, strings(&["ref:a", "design:b"]));
}

#[test]
fn reference_handle_normalization_is_idempotent() {
    let once = normalize_reference_handles(strings(&["x", " y", "x ", "z"]));
    let twice = normalize_reference_handles(once.clone());
    assert_eq!(once, twice);
}

#[test]
fn workspace_paths_resolve_under_root() {
    assert_eq!(resolve_workspace_path("/w", "a/./b.html"), Ok("/w/a/b.html".to_string()));
    assert_eq!(resolve_workspace_path("/w/", "x//y"), Ok("/w/x/y".to_string()));
    assert_eq!(resolve_workspace_path("", "x"), Ok("x".to_string()));
}

#[test]
fn workspace_paths_refuse_escapes() {
    assert_eq!(
        resolve_workspace_path("/w", "/etc/passwd"),
        Err("Path must be relative to the workspace root.".to_string())
    );
    assert_eq!(
        resolve_workspace_path("/w", "a/../../x"),
        Err("Path escapes the workspace root.".to_string())
    );
    assert_eq!(resolve_workspace_path("/w", "./"), Err("Path cannot be empty.".to_string()));
    assert_eq!(resolve_workspace_path("/w", ""), Err("Path cannot be empty.".to_string()));
}

#[test]
fn asset_paths_drop_leading_slashes() {
    assert_eq!(normalize_workspace_asset_path("///a/b.css"), "a/b.css");
    assert_eq!(normalize_workspace_asset_path("a/b.css"), "a/b.css");
    let p = normalize_workspace_asset_path("/styles.css");
    assert_eq!(resolve_workspace_path("/w", &p), Ok("/w/styles.css".to_string()));
}

#[test]
fn join_path_adds_one_separator() {
    assert_eq!(join_path("/w", "x"), "/w/x");
    assert_eq!(join_path("/w/", "x"), "/w/x");
    assert_eq!(join_path("", "x"), "x");
}

use designstorm::order::{newest_first_order, session_runs, sort_workspace_entries, text_less, WorkspaceEntry};
use designstorm::storm::StormRunRecord;

fn entry(path: &str, is_dir: bool) -> WorkspaceEntry {
    WorkspaceEntry { path: path.to_string(), is_dir, size_bytes: if is_dir { None } else { Some(1) } }
}

#[test]
fn workspace_listing_is_ordered_by_path() {
    let out = sort_workspace_entries(vec![entry("styles.css", false), entry("assets", true), entry("assets/a.png", false), entry("Index.html", false), entry("assets", false)]);
    let paths: Vec<(&str, bool)> = out.iter().map(|e| (e.path.as_str(), e.is_dir)).collect();
    assert_eq!(paths, vec![("Index.html", false), ("assets", true), ("assets", false), ("assets/a.png", false), ("styles.css", false)]);
    assert!(text_less("a", "ab"));
    assert!(!text_less("ab", "ab"));
    assert!(text_less("Z", "a"));
    assert!(text_less("z", "\u{e9}"));
}

fn stored_run(id: u128, session: Option<u128>, at: i64) -> StormRunRecord {
    StormRunRecord {
        id,
        owner_user_id: 1,
        prompt: String::new(),
        title: String::new(),
        summary: String::new(),
        assistant_summary: String::new(),
        preview_url: String::new(),
        submitted: false,
        created_at: at,
        workspace_dir: String::new(),
        parent_ids: vec![],
        session_id: session,
        iterates_on_id: None,
    }
}

#[test]
fn session_runs_are_picked_and_ordered() {
    let runs = vec![stored_run(1, Some(5), 30), stored_run(2, Some(6), 10), stored_run(3, Some(5), 10), stored_run(4, None, 0), stored_run(5, Some(5), 30)];
    let ids: Vec<u128> = session_runs(runs, 5).iter().map(|r| r.id).collect();
    assert_eq!(ids, vec![3, 1, 5]);
}

#[test]
fn preview_targets_carry_media_types() {
    assert_eq!(preview_asset_target("/w", "/styles.css"), Ok(("/w/styles.css".to_string(), "text/css".to_string())));
    assert_eq!(preview_asset_target("/w", "a/logo.png"), Ok(("/w/a/logo.png".to_string(), "image/png".to_string())));
    assert_eq!(preview_asset_target("/w", "blob.zzz9"), Ok(("/w/blob.zzz9".to_string(), "application/octet-stream".to_string())));
    assert_eq!(preview_asset_target("/w", "../x.css"), Err("Path escapes the workspace root.".to_string()));
}

#[test]
fn written_ids_read_back() {
    for id in [0u128, 1, 0x67e55044_10b1_426f_9247_bb680e5fe0c8, u128::MAX] {
        let text = uuid::Uuid::from_u128(id).to_string();
        assert_eq!(parse_optional_uuid(Some(&text), "iterates_on_id"), Ok(Some(id)));
        assert_eq!(classify_reference_handle(&format!("design:{text}")), Ok(ReferenceHandle::Design(id)));
        assert_eq!(classify_reference_handle(&format!("ref:{text}")), Ok(ReferenceHandle::Reference(id)));
    }
}

#[test]
fn storm_listing_is_newest_first_and_stable() {
    let times: Vec<i64> = vec![10, 30, 20, 30, -5];
    assert_eq!(newest_first_order(&times), vec![1, 3, 2, 0, 4]);
    let none: Vec<i64> = Vec::new();
    assert_eq!(newest_first_order(&none), Vec::<usize>::new());
}
