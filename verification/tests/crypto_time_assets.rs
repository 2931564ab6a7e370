use designstorm::archive::{extract_zip_entry, workspace_archive, workspace_archive_entries};
use designstorm::assets::{
    archive_entry_name, asset_storage_key, asset_url, check_upload, download_disposition, draft_reference,
    is_allowed_asset_type, requested_session_id, InputNames,
};
use designstorm::crypto::{decrypt_provider_payload, derive_cipher_key, encrypt_provider_payload, seal_provider_payload};
use designstorm::scaffold::{render_missing_preview_html, scaffold_index_html, scaffold_manifest_json, scaffold_styles_css};
use designstorm::time::{clock_label, month_day_label, utc_stamp_label};

const U1: u128 = 0x67e55044_10b1_426f_9247_bb680e5fe0c8;
const U2: u128 = 1;

fn hex(bytes: &[u8]) -> String {
    bytes.iter().map(|b| format!("{b:02x}")).collect()
}

#[test]
fn cipher_key_is_sha256_of_secret() {
    assert_eq!(
        hex(&derive_cipher_key("abc")),
        "ba7816bf8f01cfea414140de5dae2223b00361a396177a9cb410ff61f20015ad"
    );
    assert_eq!(
        hex(&derive_cipher_key("")),
        "e3b0c44298fc1c149afbf4c8996fb92427ae41e4649b934ca495991b7852b855"
    );
}

#[test]
fn sealed_payloads_open_again() {
    let nonce = vec![7u8; 12];
    let sealed = seal_provider_payload("server secret", &nonce, b"{\"provider\":1}").unwrap();
    assert_eq!(decrypt_provider_payload("server secret", &sealed), Ok(b"{\"provider\":1}".to_vec()));
    assert_eq!(seal_provider_payload("server secret", &nonce, b"{\"provider\":1}").unwrap(), sealed);
    assert_ne!(seal_provider_payload("other secret", &nonce, b"{\"provider\":1}").unwrap(), sealed);
    let fresh = encrypt_provider_payload("server secret", b"payload").unwrap();
    assert_eq!(decrypt_provider_payload("server secret", &fresh), Ok(b"payload".to_vec()));
    assert_eq!(decrypt_provider_payload("wrong secret", &fresh), Err("aead::Error".to_string()));
}

#[test]
fn malformed_payloads_are_refused() {
    assert_eq!(
        decrypt_provider_payload("s", "AAAA"),
        Err("Encrypted provider config payload is invalid.".to_string())
    );
    assert!(decrypt_provider_payload("s", "not base64!").is_err());
    assert_eq!(decrypt_provider_payload("s", ""), Err("Encrypted provider config payload is invalid.".to_string()));
    let forged = "A".repeat(40);
    assert_eq!(decrypt_provider_payload("s", &forged), Err("aead::Error".to_string()));
}

#[test]
fn instants_are_formatted_in_utc() {
    assert_eq!(month_day_label(0), "Jan 01");
    assert_eq!(clock_label(0), "00:00");
    assert_eq!(utc_stamp_label(1_700_000_000_000_000_000), "2023-11-14 22:13 UTC");
    assert_eq!(month_day_label(1_700_000_000_000_000_000), "Nov 14");
    assert_eq!(clock_label(-60_000_000_000), "23:59");
}

#[test]
fn uploads_are_checked() {
    assert!(is_allowed_asset_type("image/png"));
    assert!(!is_allowed_asset_type("text/html"));
    assert_eq!(check_upload("image/webp", 10485760), Ok(()));
    assert_eq!(check_upload("text/html", 1), Err("Unsupported file type: text/html".to_string()));
    assert_eq!(
        check_upload("font/woff2", 10485761),
        Err("File too large (10485761 bytes). Maximum is 10485760 bytes.".to_string())
    );
    assert_eq!(
        asset_storage_key(U2, U1, "a b.png"),
        "assets/00000000-0000-0000-0000-000000000001/67e55044-10b1-426f-9247-bb680e5fe0c8/a b.png"
    );
    assert_eq!(asset_url(U1, "x.png"), "/assets/67e55044-10b1-426f-9247-bb680e5fe0c8/x.png");
}

#[test]
fn archive_entries_skip_inputs() {
    assert_eq!(archive_entry_name("css\\site.css"), Some("css/site.css".to_string()));
    assert_eq!(archive_entry_name("inputs/logo.png"), None);
    assert_eq!(archive_entry_name("inputs\\logo.png"), None);
    assert_eq!(archive_entry_name("index.html"), Some("index.html".to_string()));
}

#[test]
fn downloads_and_session_ids() {
    assert_eq!(
        download_disposition("Neon!", U2),
        "attachment; filename=\"neon-00000000-0000-0000-0000-000000000001.zip\""
    );
    assert_eq!(requested_session_id(Some("00000000-0000-0000-0000-000000000001")), Some(U2));
    assert_eq!(requested_session_id(Some(" 00000000-0000-0000-0000-000000000001")), None);
    assert_eq!(requested_session_id(None), None);
}

#[test]
fn reference_forms() {
    let d = draft_reference(" TEXT ", None, Some("  warm palette  "), None).unwrap();
    assert_eq!(d.kind, "text");
    assert_eq!(d.title, "warm palette");
    assert_eq!(d.body, "warm palette");
    assert_eq!(d.url, None);
    let d = draft_reference("link", Some("Site"), None, Some(" https://e.x ")).unwrap();
    assert_eq!(d.kind, "link");
    assert_eq!(d.title, "Site");
    assert_eq!(d.body, "");
    assert_eq!(d.url, Some("https://e.x".to_string()));
    assert_eq!(draft_reference("text", None, Some("  "), None).err(), Some("Reference text is required.".to_string()));
    assert_eq!(draft_reference("link", None, None, None).err(), Some("Reference URL is required.".to_string()));
    assert_eq!(draft_reference("image", None, None, None).err(), Some("Reference kind must be text or link.".to_string()));
}

#[test]
fn input_names_do_not_collide() {
    let mut names = InputNames::new();
    assert_eq!(names.claim("logo.png", U1), "logo.png");
    assert_eq!(names.claim("logo.png", U1), "logo_67e55044.png");
    assert_eq!(names.claim("notes", U2), "notes");
    assert_eq!(names.claim("notes", U2), "notes_00000000");
    assert_eq!(names.claim(".env", U2), ".env");
    assert_eq!(names.claim(".env", U2), ".env_00000000");
    assert_eq!(names.claim("dir/a.tar.gz", U2), "dir/a.tar.gz");
    assert_eq!(names.claim("dir/a.tar.gz", U2), "a.tar_00000000.gz");
    assert_eq!(names.claim("..", U2), "..");
    assert_eq!(names.claim("..", U2), "file_00000000");
    assert_eq!(names.used.len(), 10);
}

#[test]
fn workspace_scaffold_files() {
    let index = scaffold_index_html("<b>neon</b>");
    assert!(index.starts_with("<!DOCTYPE html>\n<html lang=\"en\">\n<head>\n"));
    assert!(index.contains("<p>&lt;b&gt;neon&lt;/b&gt;</p>"));
    assert!(index.ends_with("</html>\n"));
    assert!(scaffold_styles_css().starts_with(":root {\n  color-scheme: dark;"));
    assert_eq!(
        scaffold_manifest_json("a\"b\nc\u{1}"),
        "{\"goal\":\"Create a design language document as a full static HTML artifact.\",\"seed\":\"a\\\"b\\nc\\u0001\"}"
    );
    let page = render_missing_preview_html(U2);
    assert!(page.contains("the generated files for <code>00000000-0000-0000-0000-000000000001</code> could not be found."));
    assert!(page.contains("body{margin:0;min-height:100vh;"));
}

#[test]
fn workspace_archives_read_back() {
    let files = vec![
        ("index.html".to_string(), b"<html></html>".to_vec()),
        ("inputs/photo.png".to_string(), vec![1u8, 2, 3]),
        ("assets\\logo.svg".to_string(), b"<svg/>".to_vec()),
        ("notes.md".to_string(), Vec::new()),
    ];
    let entries = workspace_archive_entries(&files);
    let names: Vec<&str> = entries.iter().map(|e| e.0.as_str()).collect();
    assert_eq!(names, vec!["index.html", "assets/logo.svg", "notes.md"]);
    let zip = workspace_archive(&files).unwrap();
    assert_eq!(extract_zip_entry(&zip, "index.html"), Ok(Some(b"<html></html>".to_vec())));
    assert_eq!(extract_zip_entry(&zip, "assets/logo.svg"), Ok(Some(b"<svg/>".to_vec())));
    assert_eq!(extract_zip_entry(&zip, "notes.md"), Ok(Some(Vec::new())));
    assert_eq!(extract_zip_entry(&zip, "inputs/photo.png"), Ok(None));
    assert_eq!(extract_zip_entry(&zip, "missing.css"), Ok(None));
    assert!(extract_zip_entry(b"not a zip", "index.html").is_err());
    let repeated = vec![("a.css".to_string(), vec![1u8]), ("a.css".to_string(), vec![2u8])];
    assert!(workspace_archive(&repeated).is_err());
}
