use std::collections::HashMap;
use designstorm::html::{
    jobs_by_id, line_breaks_to_html, render_gallery_html, title_lookup, render_messages_html, render_reference_list_html,
    render_session_list_html, DesignSessionRow, ReferenceItemRow,
};
use designstorm::identity::{read_cookie, sign_in_profile, ClerkEmailAddress, ClerkUser, Viewer};
use designstorm::prompts::{ProviderSource, SessionMessageRow};
use designstorm::provider::{choose_provider, provider_status_view, LoadedProvider, ProviderKind, SignInKind};
use designstorm::session::{finish_design_job, pick_design_job, DesignJobRow};
use designstorm::storm::StormRunRecord;

const U1: u128 = 0x67e55044_10b1_426f_9247_bb680e5fe0c8;
const U2: u128 = 1;
const U1_TEXT: &str = "67e55044-10b1-426f-9247-bb680e5fe0c8";
const U2_TEXT: &str = "00000000-0000-0000-0000-000000000001";

fn job(id: u128, status: &str, result: Option<u128>) -> DesignJobRow {
    DesignJobRow {
        id,
        session_id: 5,
        status: status.to_string(),
        prompt: "a <loud> prompt".to_string(),
        title: "Loud".to_string(),
        iterates_on_id: Some(U1),
        result_run_id: result,
        reference_snapshot: None,
        error: None,
        created_at: 0,
    }
}

fn run(id: u128, title: &str) -> StormRunRecord {
    StormRunRecord {
        id,
        owner_user_id: 3,
        prompt: "p".to_string(),
        title: title.to_string(),
        summary: "S & s".to_string(),
        assistant_summary: String::new(),
        preview_url: "/preview/x/".to_string(),
        submitted: true,
        created_at: 0,
        workspace_dir: "/w".to_string(),
        parent_ids: vec![],
        session_id: Some(5),
        iterates_on_id: None,
    }
}

#[test]
fn session_list() {
    assert_eq!(render_session_list_html(&vec![], U1), "<div class=\"session-list-empty\">No sessions yet.</div>");
    let sessions = vec![
        DesignSessionRow { id: U1, title: "A&B".to_string(), updated_at: 0 },
        DesignSessionRow { id: U2, title: "C".to_string(), updated_at: 0 },
    ];
    let html = render_session_list_html(&sessions, U1);
    let expected = format!(
        "<a class=\"session-link is-active\" href=\"/app?session={U1_TEXT}\" data-session-id=\"{U1_TEXT}\">\n  <span class=\"session-link-title\">A&amp;B</span>\n  <span class=\"session-link-meta\">Jan 01</span>\n</a><a class=\"session-link\" href=\"/app?session={U2_TEXT}\" data-session-id=\"{U2_TEXT}\">\n  <span class=\"session-link-title\">C</span>\n  <span class=\"session-link-meta\">Jan 01</span>\n</a>"
    );
    assert_eq!(html, expected);
}

#[test]
fn chat_messages() {
    assert_eq!(render_messages_html(&vec![], &HashMap::new()), "<div class=\"chat-empty\">\u{2014}</div>");
    let messages = vec![
        SessionMessageRow { role: "user".to_string(), body: "a<b\nc".to_string(), design_job_id: None, created_at: 0 },
        SessionMessageRow { role: "assistant".to_string(), body: "ok".to_string(), design_job_id: Some(9), created_at: 0 },
    ];
    let jobs = jobs_by_id(vec![job(9, "pending", None), job(9, "running", None)]);
    assert_eq!(jobs.len(), 1);
    let html = render_messages_html(&messages, &jobs);
    let expected = "<article class=\"chat-message is-user\">\n  <header class=\"chat-message-head\">\n    <span class=\"chat-message-role\">You</span>\n    <span class=\"chat-message-meta\">00:00</span>\n  </header>\n  <div class=\"chat-message-body\">a&lt;b<br>c</div>\n</article><article class=\"chat-message is-assistant\">\n  <header class=\"chat-message-head\">\n    <span class=\"chat-message-role\">Agent</span>\n    <span class=\"chat-message-meta\">00:00 \u{b7} running</span>\n  </header>\n  <div class=\"chat-message-body\">ok</div>\n</article>";
    assert_eq!(html, expected);
    assert_eq!(line_breaks_to_html("x\n\ny"), "x<br><br>y");
}

#[test]
fn reference_list() {
    assert_eq!(render_reference_list_html(&vec![]), "<div class=\"reference-empty\"></div>");
    let refs = vec![
        ReferenceItemRow { id: U2, kind: "image".to_string(), title: "Logo".to_string(), content_body: None, content_url: Some("/assets/a/l.png".to_string()), created_at: 0 },
        ReferenceItemRow { id: U2, kind: "text".to_string(), title: "Note".to_string(), content_body: None, content_url: None, created_at: 0 },
    ];
    let html = render_reference_list_html(&refs);
    let expected = format!(
        "<button class=\"reference-item\" type=\"button\" data-reference-handle=\"ref:{U2_TEXT}\" data-reference-label=\"Logo\" data-reference-kind=\"image\">\n  <span class=\"reference-item-top\">\n    <span class=\"reference-item-kind\">image</span>\n    <span class=\"reference-item-date\">Jan 01</span>\n  </span>\n  <img class=\"reference-item-thumb\" src=\"/assets/a/l.png\" alt=\"Logo\" loading=\"lazy\">\n  <strong class=\"reference-item-title\">Logo</strong>\n  <span class=\"reference-item-detail\">/assets/a/l.png</span>\n</button><button class=\"reference-item\" type=\"button\" data-reference-handle=\"ref:{U2_TEXT}\" data-reference-label=\"Note\" data-reference-kind=\"text\">\n  <span class=\"reference-item-top\">\n    <span class=\"reference-item-kind\">text</span>\n    <span class=\"reference-item-date\">Jan 01</span>\n  </span>\n  \n  <strong class=\"reference-item-title\">Note</strong>\n  <span class=\"reference-item-detail\">Text note</span>\n</button>"
    );
    assert_eq!(html, expected);
}

#[test]
fn gallery_shows_pending_jobs_then_designs() {
    assert_eq!(render_gallery_html(&vec![], &vec![], &HashMap::new()), "<div class=\"gallery-empty\"></div>");
    let mut failed = job(8, "failed", None);
    failed.error = Some("boom <x>".to_string());
    let jobs = vec![job(7, "done", Some(U2)), failed];
    let titles = title_lookup(&vec![run(U1, "Old"), run(U1, "Base")]);
    assert_eq!(titles.get(&U1), Some(&"Base".to_string()));
    let html = render_gallery_html(&vec![run(U2, "First"), run(U1, "Second")], &jobs, &titles);
    let job_card = "<article class=\"gallery-card gallery-card-job is-failed\" data-job-id=\"00000000-0000-0000-0000-000000000008\" data-job-status=\"failed\">\n  <div class=\"gallery-card-meta\">\n    <span class=\"gallery-card-status\" data-status=\"failed\">failed</span>\n    <span class=\"gallery-card-date\">00:00</span>\n  </div>\n  <div class=\"gallery-card-body\">\n    <strong class=\"gallery-card-title\">Loud</strong>\n    <span class=\"gallery-lineage\">Iterates on Base</span>\n    <p class=\"gallery-card-summary\">a &lt;loud&gt; prompt</p>\n    <p class=\"gallery-job-error\">boom &lt;x&gt;</p>\n  </div>\n</article>";
    assert!(html.starts_with(job_card));
    let second = html.find("data-design-label=\"Second\"").unwrap();
    let first = html.find("data-design-label=\"First\"").unwrap();
    assert!(second < first);
    assert!(html.contains("<p class=\"gallery-card-summary\">S &amp; s</p>"));
    assert!(html.contains(&format!("<a class=\"gallery-action\" href=\"/storms/{U1_TEXT}/download\">Download ZIP</a>")));
    assert!(!html.contains("data-job-id=\"00000000-0000-0000-0000-000000000007\""));
}

#[test]
fn provider_panel_without_provider() {
    let v = provider_status_view(None, Some("CODE-1".to_string()), Some("https://sign-in.example/x".to_string()));
    assert!(!v.connected);
    assert!(!v.using_fallback);
    assert_eq!(v.label, "No provider connected");
    assert_eq!(v.detail, "Connect Codex or Anthropic here. The site stores encrypted OAuth tokens server-side and uses them for storm generation.");
    assert_eq!(v.updated_label, "No stored runtime credentials");
    assert_eq!(v.selected_kind, SignInKind::Claude);
    assert_eq!(v.connected_kind, None);
    assert_eq!(v.codex_pending_user_code, Some("CODE-1".to_string()));
    let v = provider_status_view(None, None, None);
    assert_eq!(v.selected_kind, SignInKind::Codex);
}

#[test]
fn provider_panel_with_provider() {
    let codex = LoadedProvider { kind: ProviderKind::Codex { account_id: Some("acct_1".to_string()) }, source: ProviderSource::Stored, updated_at: Some(1_700_000_000_000_000_000) };
    let v = provider_status_view(Some(&codex), None, None);
    assert!(v.connected);
    assert_eq!(v.label, "Codex OAuth");
    assert_eq!(v.detail, "Connected via OpenAI account acct_1.");
    assert_eq!(v.updated_label, "Updated 2023-11-14 22:13 UTC");
    assert_eq!(v.selected_kind, SignInKind::Codex);
    assert_eq!(v.connected_kind, Some(SignInKind::Codex));
    let generic = LoadedProvider { kind: ProviderKind::OpenAiGeneric { base_url: "https://api.x/v1".to_string() }, source: ProviderSource::ServerFallback, updated_at: None };
    let v = provider_status_view(Some(&generic), None, Some("u".to_string()));
    assert!(v.using_fallback);
    assert_eq!(v.label, "Server Provider");
    assert_eq!(v.detail, "Requests route through https://api.x/v1.");
    assert_eq!(v.updated_label, "Server-scoped fallback");
    assert_eq!(v.selected_kind, SignInKind::Claude);
    let google = LoadedProvider { kind: ProviderKind::GoogleOAuth, source: ProviderSource::Stored, updated_at: None };
    let v = provider_status_view(Some(&google), Some("c".to_string()), None);
    assert_eq!(v.label, "Google OAuth");
    assert_eq!(v.selected_kind, SignInKind::Codex);
    let claude = LoadedProvider { kind: ProviderKind::Claude, source: ProviderSource::Stored, updated_at: None };
    let v = provider_status_view(Some(&claude), Some("c".to_string()), None);
    assert_eq!(v.label, "Anthropic OAuth");
    assert_eq!(v.connected_kind, Some(SignInKind::Claude));
    assert_eq!(v.selected_kind, SignInKind::Claude);
    let chosen = choose_provider(None, Some(ProviderKind::Claude)).unwrap();
    assert!(matches!(chosen.source, ProviderSource::ServerFallback));
    assert!(choose_provider(None, None).is_none());
    let stored = choose_provider(Some((ProviderKind::Claude, 5)), Some(ProviderKind::GoogleOAuth)).unwrap();
    assert!(matches!(stored.source, ProviderSource::Stored));
    assert_eq!(stored.updated_at, Some(5));
}

fn clerk(primary: Option<&str>, first: Option<&str>, last: Option<&str>) -> ClerkUser {
    ClerkUser {
        primary_email_address_id: primary.map(|s| s.to_string()),
        first_name: first.map(|s| s.to_string()),
        last_name: last.map(|s| s.to_string()),
        image_url: None,
        email_addresses: vec![
            ClerkEmailAddress { id: "e1".to_string(), email_address: "one@x.io".to_string() },
            ClerkEmailAddress { id: "e2".to_string(), email_address: "two@x.io".to_string() },
        ],
    }
}

#[test]
fn clerk_primary_email_and_name() {
    assert_eq!(clerk(Some("e2"), None, None).primary_email(), Some("two@x.io"));
    assert_eq!(clerk(Some("e9"), None, None).primary_email(), None);
    assert_eq!(clerk(None, None, None).primary_email(), None);
    assert_eq!(clerk(None, Some("Ada"), Some("Lovelace")).full_name(), Some("Ada Lovelace".to_string()));
    assert_eq!(clerk(None, Some("Ada"), None).full_name(), Some("Ada".to_string()));
    assert_eq!(clerk(None, None, Some("Lovelace")).full_name(), Some("Lovelace".to_string()));
    assert_eq!(clerk(None, None, None).full_name(), None);
}

#[test]
fn viewers_and_sign_in() {
    let v = Viewer::from_user_row(U1, "user_1".to_string(), None, None, None, 0);
    assert_eq!(v.name, "Design Storm User");
    assert_eq!(v.secondary_line(), "Ready to design storm.");
    let v = Viewer::from_user_row(U1, "user_1".to_string(), Some("a@b.c".to_string()), Some("Ada".to_string()), None, 0);
    assert_eq!(v.secondary_line(), "a@b.c");
    let user = clerk(Some("e1"), Some("Ada"), None);
    let (email, name, image) = sign_in_profile(Some(&user), Some("claim@x".to_string()), Some("Claim".to_string()), Some("img".to_string()));
    assert_eq!(email, Some("one@x.io".to_string()));
    assert_eq!(name, "Ada");
    assert_eq!(image, Some("img".to_string()));
    let (email, name, image) = sign_in_profile(None, None, None, None);
    assert_eq!((email, name, image), (None, "Design Storm User".to_string(), None));
}

#[test]
fn cookies_are_read_by_name() {
    let header = "theme=dark; designstorm_session=abc=def ;other=1";
    assert_eq!(read_cookie(Some(header), "designstorm_session"), Some("abc=def".to_string()));
    assert_eq!(read_cookie(Some(header), "other"), Some("1".to_string()));
    assert_eq!(read_cookie(Some(header), "missing"), None);
    assert_eq!(read_cookie(Some("flag; a=1"), "flag"), None);
    assert_eq!(read_cookie(None, "a"), None);
}

#[test]
fn completed_jobs_are_not_rerun() {
    assert!(pick_design_job(None).is_none());
    assert!(pick_design_job(Some(job(1, "completed", Some(U2)))).is_none());
    let mut failed = job(1, "failed", None);
    failed.error = Some("boom".to_string());
    let picked = pick_design_job(Some(failed)).unwrap();
    assert_eq!(picked.status, "running");
    assert_eq!(picked.error, None);
    assert_eq!(picked.prompt, "a <loud> prompt");
    let done = finish_design_job(picked, Ok(U1));
    assert_eq!(done.status, "completed");
    assert_eq!(done.result_run_id, Some(U1));
    assert!(pick_design_job(Some(done)).is_none());
    let queued = pick_design_job(Some(job(2, "queued", None))).unwrap();
    let broken = finish_design_job(queued, Err("no provider".to_string()));
    assert_eq!(broken.status, "failed");
    assert_eq!(broken.error, Some("no provider".to_string()));
    assert_eq!(broken.result_run_id, None);
    assert_eq!(pick_design_job(Some(broken)).unwrap().status, "running");
}
