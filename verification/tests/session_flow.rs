use designstorm::session::{
    assistant_message, classify_reference_handle, design_job_generation_input, design_job_title, job_is_finished,
    keeps_default_title, make_design, reference_image_plan, required_uuid_arg, session_message_body,
    turn_status_text, DesignJobRow, MakeDesignArgs, ReferenceHandle, ReferenceImagePlan, StudioMakeDesignCall,
};
use designstorm::snapshot::{SnapshotItem, StormRunBrief};

const U1: u128 = 0x67e55044_10b1_426f_9247_bb680e5fe0c8;
const U2: u128 = 1;

fn strings(xs: &[&str]) -> Vec<String> {
    xs.iter().map(|x| x.to_string()).collect()
}

fn args(prompt: Option<&str>) -> MakeDesignArgs {
    MakeDesignArgs { prompt: prompt.map(|p| p.to_string()), title: None, reference_ids: None, iterates_on_id: None }
}

#[test]
fn make_design_needs_a_prompt() {
    let mut pending = None;
    let r = make_design(&mut pending, &vec![], None, &args(Some("   ")));
    assert_eq!(r.err(), Some("Missing required parameter: prompt".to_string()));
    assert!(pending.is_none());
}

#[test]
fn make_design_queues_once_per_turn() {
    let allowed = strings(&["ref:a", "design:b"]);
    let mut pending = None;
    let first = make_design(&mut pending, &allowed, Some(U2), &args(Some("  a calm poster  "))).unwrap();
    assert_eq!(first.title, "a calm poster");
    assert_eq!(first.iterates_on_id, Some(U2));
    let call = pending.as_ref().unwrap();
    assert_eq!(call.prompt, "a calm poster");
    assert_eq!(call.reference_handles, allowed);
    assert_eq!(call.title, None);
    let second = make_design(&mut pending, &allowed, Some(U2), &args(Some("another")));
    assert_eq!(second.err(), Some("make_design can only be called once per turn".to_string()));
    assert_eq!(pending.as_ref().unwrap().prompt, "a calm poster");
}

#[test]
fn make_design_checks_handles_and_iteration() {
    let allowed = strings(&["ref:a"]);
    let mut pending = None;
    let mut a = args(Some("x"));
    a.reference_ids = Some(strings(&[" ref:a", "ref:zzz"]));
    assert_eq!(
        make_design(&mut pending, &allowed, None, &a).err(),
        Some("Unknown reference handle: ref:zzz. Use only handles from the selected references.".to_string())
    );
    let mut a = args(Some("x"));
    a.iterates_on_id = Some("nope".to_string());
    assert_eq!(
        make_design(&mut pending, &allowed, None, &a).err(),
        Some("iterates_on_id must be a UUID string".to_string())
    );
    assert!(pending.is_none());
    let mut a = args(Some("x"));
    a.reference_ids = Some(strings(&[" ref:a ", "ref:a"]));
    a.iterates_on_id = Some(" 67e55044-10b1-426f-9247-bb680e5fe0c8 ".to_string());
    a.title = Some("  Named ".to_string());
    let q = make_design(&mut pending, &allowed, Some(U2), &a).unwrap();
    assert_eq!(q.title, "Named");
    assert_eq!(q.iterates_on_id, Some(U1));
    let call = pending.unwrap();
    assert_eq!(call.reference_handles, strings(&["ref:a"]));
    assert_eq!(call.title, Some("Named".to_string()));
}

#[test]
fn uuid_arguments() {
    assert_eq!(required_uuid_arg(None, "design_id"), Err("Missing required parameter: design_id".to_string()));
    assert_eq!(required_uuid_arg(Some(" "), "design_id"), Err("Missing required parameter: design_id".to_string()));
    assert_eq!(required_uuid_arg(Some("zz"), "reference_id"), Err("reference_id must be a valid UUID".to_string()));
    assert_eq!(required_uuid_arg(Some(" 00000000-0000-0000-0000-000000000001 "), "design_id"), Ok(U2));
}

#[test]
fn reference_images_are_loaded_when_possible() {
    assert!(matches!(reference_image_plan("text", Some("x"), None), ReferenceImagePlan::MetadataOnly));
    assert!(matches!(reference_image_plan("image", None, None), ReferenceImagePlan::MetadataOnly));
    assert!(matches!(reference_image_plan("image", Some("bad"), None), ReferenceImagePlan::Unavailable));
    match reference_image_plan("image", Some("00000000-0000-0000-0000-000000000001"), None) {
        ReferenceImagePlan::Load { asset_id, mime } => {
            assert_eq!(asset_id, U2);
            assert_eq!(mime, "image/png");
        }
        _ => panic!("expected a load"),
    }
    match reference_image_plan("image", Some("00000000-0000-0000-0000-000000000001"), Some("image/webp")) {
        ReferenceImagePlan::Load { mime, .. } => assert_eq!(mime, "image/webp"),
        _ => panic!("expected a load"),
    }
}

#[test]
fn chat_message_bodies() {
    assert_eq!(session_message_body("  hi  ", 0), Ok("hi".to_string()));
    assert_eq!(session_message_body("  ", 0), Err("Message body is required.".to_string()));
    assert_eq!(session_message_body("", 1), Ok("[1 image attached]".to_string()));
    assert_eq!(session_message_body(" ", 3), Ok("[3 images attached]".to_string()));
}

#[test]
fn director_replies_and_status() {
    assert_eq!(assistant_message("  Sure. ", Some("X")), "Sure.");
    assert_eq!(assistant_message("  ", Some("Poster")), "Queued \"Poster\".");
    assert_eq!(assistant_message("", None), "Captured. Tell me when you want me to make designs from it.");
    assert_eq!(turn_status_text(Some("Poster"), "whatever"), "Queued Poster.");
    assert_eq!(turn_status_text(None, &"r".repeat(130)), format!("{}...", "r".repeat(120)));
    assert!(keeps_default_title("Untitled Session"));
    assert!(!keeps_default_title("Untitled session"));
    assert!(job_is_finished("completed"));
    assert!(!job_is_finished("running"));
}

#[test]
fn job_titles() {
    let call = StudioMakeDesignCall { prompt: "big red type".to_string(), reference_handles: vec![], iterates_on_id: None, title: None };
    assert_eq!(design_job_title(&call), "big red type");
    let call = StudioMakeDesignCall { title: Some("  ".to_string()), ..call };
    assert_eq!(design_job_title(&call), "big red type");
    let call = StudioMakeDesignCall { title: Some("Named".to_string()), ..call };
    assert_eq!(design_job_title(&call), "Named");
}

#[test]
fn reference_handles_are_classified() {
    assert_eq!(classify_reference_handle("design:00000000-0000-0000-0000-000000000001"), Ok(ReferenceHandle::Design(U2)));
    assert_eq!(classify_reference_handle("ref:00000000-0000-0000-0000-000000000001"), Ok(ReferenceHandle::Reference(U2)));
    assert_eq!(classify_reference_handle("design:x"), Err("Invalid design reference.".to_string()));
    assert_eq!(classify_reference_handle("ref:"), Err("Invalid reference handle.".to_string()));
    assert_eq!(classify_reference_handle("img:1"), Err("Unknown reference handle.".to_string()));
}

#[test]
fn design_jobs_run_as_generations() {
    let mut img = SnapshotItem {
        kind: Some("image".to_string()),
        handle: None,
        id: None,
        title: Some("Logo".to_string()),
        summary: None,
        prompt: None,
        content_body: None,
        content_url: None,
        content_asset_id: Some("67e55044-10b1-426f-9247-bb680e5fe0c8".to_string()),
    };
    img.handle = Some("ref:x".to_string());
    let job = DesignJobRow {
        id: 9,
        session_id: 5,
        status: "pending".to_string(),
        prompt: " loud ".to_string(),
        title: "Loud".to_string(),
        iterates_on_id: Some(U2),
        result_run_id: None,
        reference_snapshot: Some(vec![img]),
        error: None,
        created_at: 0,
    };
    let parent = StormRunBrief { id: U2, title: "P".to_string(), prompt: "p".to_string(), summary: "s".to_string() };
    let g = design_job_generation_input(&job, Some(&parent));
    assert_eq!(
        g.prompt,
        "loud\n\nPrimary iteration target:\n- title: P\n- prompt: p\n- summary: s\n\nSelected references:\n\n- image reference Logo available in inputs/ when useful"
    );
    assert_eq!(g.source_ids, vec![U2]);
    assert_eq!(g.asset_ids, vec![(U1, "Logo".to_string())]);
    assert_eq!(g.session_id, Some(5));
    assert_eq!(g.iterates_on_id, Some(U2));
    assert_eq!(g.fallback_title, Some("Loud".to_string()));
    assert_eq!(g.draft_mode, None);
}
