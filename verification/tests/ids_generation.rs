use designstorm::generation::StormGenerationInput;
use designstorm::ids::{artifact_archive_key, parse_optional_uuid, sanitize_download_name};

const U1: u128 = 0x67e55044_10b1_426f_9247_bb680e5fe0c8;
const U2: u128 = 1;
const U3: u128 = 0xa1a2a3a4_b1b2_c1c2_d1d2_d3d4d5d6d7d8;

#[test]
fn archive_keys_name_user_and_run() {
    assert_eq!(
        artifact_archive_key(U1, U2),
        "storm-runs/67e55044-10b1-426f-9247-bb680e5fe0c8/00000000-0000-0000-0000-000000000001.zip"
    );
}

#[test]
fn download_names_are_slugged() {
    assert_eq!(
        sanitize_download_name("My Cool -- Design!", U3),
        "my-cool-design-a1a2a3a4-b1b2-c1c2-d1d2-d3d4d5d6d7d8.zip"
    );
    assert_eq!(
        sanitize_download_name("!!!", U3),
        "designstorm-a1a2a3a4-b1b2-c1c2-d1d2-d3d4d5d6d7d8.zip"
    );
    assert_eq!(
        sanitize_download_name("Über Größe", U2),
        "ber-gr-e-00000000-0000-0000-0000-000000000001.zip"
    );
}

#[test]
fn optional_uuids_parse_all_forms() {
    assert_eq!(parse_optional_uuid(None, "iterates_on_id"), Ok(None));
    assert_eq!(parse_optional_uuid(Some("   "), "iterates_on_id"), Ok(None));
    assert_eq!(
        parse_optional_uuid(Some(" 67e55044-10b1-426f-9247-bb680e5fe0c8 "), "iterates_on_id"),
        Ok(Some(U1))
    );
    assert_eq!(parse_optional_uuid(Some("67E5504410B1426F9247BB680E5FE0C8"), "x"), Ok(Some(U1)));
    assert_eq!(parse_optional_uuid(Some("{67e55044-10b1-426f-9247-bb680e5fe0c8}"), "x"), Ok(Some(U1)));
    assert_eq!(
        parse_optional_uuid(Some("URN:uuid:67e55044-10b1-426f-9247-bb680e5fe0c8"), "x"),
        Ok(Some(U1))
    );
    assert_eq!(
        parse_optional_uuid(Some("nope"), "iterates_on_id"),
        Err("Invalid iterates_on_id.".to_string())
    );
}

#[test]
fn storm_requests_need_a_prompt() {
    let r = StormGenerationInput::from_prompt_and_sources("  \n".to_string(), None, None);
    assert_eq!(r.err(), Some("Seed prompt is required.".to_string()));
}

#[test]
fn storm_requests_read_sources_and_draft_mode() {
    let r = StormGenerationInput::from_prompt_and_sources(
        "  neon brutalism ".to_string(),
        Some("  wild ".to_string()),
        Some(" 67e55044-10b1-426f-9247-bb680e5fe0c8, ,00000000-0000-0000-0000-000000000001,".to_string()),
    )
    .unwrap();
    assert_eq!(r.prompt, "neon brutalism");
    assert_eq!(r.draft_mode, Some("wild".to_string()));
    assert_eq!(r.source_ids, vec![U1, U2]);
    assert!(r.asset_ids.is_empty());
    assert_eq!(r.session_id, None);
    assert_eq!(r.iterates_on_id, None);
    assert_eq!(r.fallback_title, None);
}

#[test]
fn storm_requests_drop_blank_draft_mode() {
    let r = StormGenerationInput::from_prompt_and_sources("x".to_string(), Some("  ".to_string()), None).unwrap();
    assert_eq!(r.draft_mode, None);
    assert!(r.source_ids.is_empty());
}

#[test]
fn storm_requests_report_first_bad_source() {
    let r = StormGenerationInput::from_prompt_and_sources(
        "x".to_string(),
        None,
        Some("bad one, 67e55044-10b1-426f-9247-bb680e5fe0c8, worse".to_string()),
    );
    assert_eq!(r.err(), Some("Invalid source id: bad one".to_string()));
}
