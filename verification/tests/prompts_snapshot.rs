use designstorm::prompts::{
    compose_agent_prompt, compose_session_agent_prompt, prompt_overrides, provider_source_label,
    session_prompt_overrides, PromptOverrideMode, PromptSectionName, ProviderSource, SessionMessageRow,
    StormAgentRole,
};
use designstorm::snapshot::{build_generation_prompt, render_reference_snapshot_for_prompt, SnapshotItem, StormRunBrief};

const U1: u128 = 0x67e55044_10b1_426f_9247_bb680e5fe0c8;
const U2: u128 = 1;
const U3: u128 = 0xa1a2a3a4_b1b2_c1c2_d1d2_d3d4d5d6d7d8;

fn s(x: &str) -> Option<String> {
    Some(x.to_string())
}

fn item(kind: Option<String>) -> SnapshotItem {
    SnapshotItem {
        kind,
        handle: None,
        id: None,
        title: None,
        summary: None,
        prompt: None,
        content_body: None,
        content_url: None,
        content_asset_id: None,
    }
}

#[test]
fn role_and_source_labels() {
    assert_eq!(StormAgentRole::Root.label(), "root");
    assert_eq!(StormAgentRole::Root.model_tier(), "high");
    assert!(StormAgentRole::Root.prompt_identity().starts_with("You are Design Storm, an AI art-direction runtime"));
    assert_eq!(provider_source_label(ProviderSource::Stored), "stored");
    assert_eq!(provider_source_label(ProviderSource::ServerFallback), "server_fallback");
}

#[test]
fn agent_prompt_wraps_the_seed() {
    let p = compose_agent_prompt(StormAgentRole::Root, "tidal poster".to_string());
    assert!(p.starts_with("Design a distinctive design-language document for this seed:\n\ntidal poster\n\nRequirements:\n- produce a full static HTML artifact"));
    assert!(p.contains("(images, fonts) \u{2014} use copy_input"));
    assert!(p.ends_with("- call submit_result(title=..., summary=...) once the result is coherent"));
}

#[test]
fn design_agent_overrides() {
    let o = prompt_overrides(StormAgentRole::Root);
    assert_eq!(o.len(), 9);
    assert_eq!(o[0].section, PromptSectionName::Identity);
    assert_eq!(o[0].mode, PromptOverrideMode::Replace);
    assert_eq!(o[0].content, StormAgentRole::Root.prompt_identity());
    assert_eq!(o[5].section, PromptSectionName::ErrorRecovery);
    assert_eq!(o[8].section, PromptSectionName::Builtins);
    assert_eq!(o[8].mode, PromptOverrideMode::Disable);
    assert_eq!(o[8].content, "");
}

#[test]
fn session_agent_overrides() {
    let o = session_prompt_overrides();
    assert_eq!(o.len(), 8);
    assert!(o[0].content.starts_with("You are Design Storm Director"));
    assert!(o[3].content.contains("make_design (queue a design job \u{2014} max one per turn)"));
    assert_eq!(o[5].section, PromptSectionName::Memory);
    assert_eq!(o[5].mode, PromptOverrideMode::Disable);
}

#[test]
fn empty_snapshots_render_none() {
    assert_eq!(render_reference_snapshot_for_prompt(&None), "None");
    assert_eq!(render_reference_snapshot_for_prompt(&Some(vec![])), "None");
}

#[test]
fn snapshot_items_render_by_kind() {
    let mut design = item(s("design"));
    design.handle = s("design:1");
    design.title = s("Dune");
    design.summary = s("sandy");
    design.prompt = s(&"p".repeat(250));
    let mut text = item(s("text"));
    text.handle = s("ref:2");
    text.content_body = s("note body");
    let mut link = item(s("link"));
    link.handle = s("ref:3");
    link.title = s("Site");
    link.content_url = s("https://e.x");
    let mut image = item(s("image"));
    image.handle = s("ref:4");
    image.title = s("Pic");
    image.content_url = s("/assets/a/p.png");
    let mut other = item(None);
    other.title = s("Odd");
    let out = render_reference_snapshot_for_prompt(&Some(vec![design, text, link, image, other]));
    let expected = format!(
        "- design:1 [design]\n  title: Dune\n  summary: sandy\n  prompt: {}...\n- ref:2 [text]\n  title: Untitled\n  body: note body\n- ref:3 [link]\n  title: Site\n  url: https://e.x\n  note: \n- ref:4 [image]\n  title: Pic\n  asset url: /assets/a/p.png\n-  [reference] Odd",
        "p".repeat(240)
    );
    assert_eq!(out, expected);
}

#[test]
fn generation_prompt_collects_sources_and_assets() {
    let parent = StormRunBrief { id: U1, title: "Base".to_string(), prompt: "first".to_string(), summary: "sum".to_string() };
    let mut d1 = item(s("design"));
    d1.id = s("67e55044-10b1-426f-9247-bb680e5fe0c8");
    d1.handle = s("design:a");
    d1.title = s("Again");
    let mut d2 = item(s("design"));
    d2.id = s("00000000-0000-0000-0000-000000000001");
    let mut img = item(s("image"));
    img.content_asset_id = s("a1a2a3a4-b1b2-c1c2-d1d2-d3d4d5d6d7d8");
    img.title = s("Logo");
    let mut bad_img = item(s("image"));
    bad_img.content_asset_id = s("not-a-uuid");
    let mut text = item(s("text"));
    text.content_body = s("warm tones");
    let mut link = item(s("link"));
    link.content_url = s("https://e.x");
    let odd = item(s("video"));
    let (prompt, sources, assets) = build_generation_prompt(
        "  make it loud ",
        &Some(vec![d1, d2, img, bad_img, text, link, odd]),
        Some(&parent),
    );
    assert_eq!(sources, vec![U1, U2]);
    assert_eq!(assets, vec![(U3, "Logo".to_string())]);
    assert_eq!(
        prompt,
        "make it loud\n\nPrimary iteration target:\n- title: Base\n- prompt: first\n- summary: sum\n\nSelected references:\n\n- design Again: design:a\n  summary: \n  prompt: \n\n- design Untitled: \n  summary: \n  prompt: \n\n- image reference Logo available in inputs/ when useful\n\n- image reference Image available in inputs/ when useful\n\n- text note Untitled: warm tones\n\n- link Untitled: https://e.x\n  note: "
    );
}

#[test]
fn generation_prompt_without_references() {
    let (prompt, sources, assets) = build_generation_prompt(" plain ", &Some(vec![]), None);
    assert_eq!(prompt, "plain");
    assert!(sources.is_empty());
    assert!(assets.is_empty());
    let (prompt, _, _) = build_generation_prompt("x", &None, None);
    assert_eq!(prompt, "x");
}

fn msg(role: &str, body: &str) -> SessionMessageRow {
    SessionMessageRow { role: role.to_string(), body: body.to_string(), design_job_id: None, created_at: 0 }
}

#[test]
fn session_prompt_keeps_last_twelve_messages() {
    let messages: Vec<SessionMessageRow> =
        (0..13).map(|i| msg(if i % 2 == 0 { "user" } else { "assistant" }, &format!("m{i}"))).collect();
    let p = compose_session_agent_prompt(&messages, &None, None);
    assert!(!p.contains("m0"));
    assert!(p.contains("Assistant: m1\n\nUser: m2"));
    assert!(p.ends_with("User: m12"));
    assert!(p.contains("Selected reference handles and details:\nNone\n\nDefault iteration target: none\n\nRecent conversation:\n"));
}

#[test]
fn session_prompt_names_iteration_target() {
    let run = StormRunBrief { id: U2, title: "T".to_string(), prompt: "q".repeat(241), summary: "S".to_string() };
    let p = compose_session_agent_prompt(&vec![msg("user", "hi")], &Some(vec![]), Some(&run));
    let expected = format!(
        "You are replying inside a single design session.\n\nRules:\n- If the user wants new output, variations, a branch, or a refinement, call make_design exactly once.\n- If the user is only discussing direction or asking a question, reply without calling tools.\n- Keep the final assistant reply to one or two sentences.\n\nSelected reference handles and details:\nNone\n\nDefault iteration target:\n- id: 00000000-0000-0000-0000-000000000001\n- title: T\n- summary: S\n- prompt: {}...\n\nRecent conversation:\nUser: hi",
        "q".repeat(240)
    );
    assert_eq!(p, expected);
}
