use vstd::prelude::*;
use crate::ids::{uuid_text, uuid_to_text};
use crate::text::{html_escape, html_escaped};

verus! {

/// A character as serde_json writes it inside a JSON string.
pub open spec fn json_escape_char(c: char) -> Seq<char> {
    if c == '"' {
        seq!['\\', '"']
    } else if c == '\\' {
        seq!['\\', '\\']
    } else if c == '\u{8}' {
        seq!['\\', 'b']
    } else if c == '\u{c}' {
        seq!['\\', 'f']
    } else if c == '\n' {
        seq!['\\', 'n']
    } else if c == '\r' {
        seq!['\\', 'r']
    } else if c == '\t' {
        seq!['\\', 't']
    } else if (c as u32) < 0x20 {
        seq!['\\', 'u', '0', '0', crate::ids::lower_hex_char((c as u32) as int / 16), crate::ids::lower_hex_char((c as u32) as int % 16)]
    } else {
        seq![c]
    }
}

/// The characters of `s` escaped for a JSON string.
pub open spec fn json_escaped(s: Seq<char>) -> Seq<char>
    decreases s.len(),
{
    if s.len() == 0 {
        Seq::empty()
    } else {
        json_escaped(s.drop_last()) + json_escape_char(s.last())
    }
}

/// `s` as a JSON string literal.
pub open spec fn json_quoted(s: Seq<char>) -> Seq<char> {
    seq!['"'] + json_escaped(s) + seq!['"']
}

/// `serde_json::to_string(s)` for a string slice. The contract claims the
/// text is the JSON string literal of `s` as serde_json's `format_escaped_str`
/// writes it: quotes around the text, with `"` and `\\` escaped by a backslash,
/// the control characters that have a short escape written with it, and the
/// other control characters below U+0020 written as `\u00xx` in lower-case hex.
#[verifier::external_body]
fn json_string(s: &str) -> (r: String)
    ensures
        r@ == json_quoted(s@),
{
    match serde_json::to_string(s) {
        Ok(t) => t,
        Err(_) => String::new(),
    }
}

/// The first page of a new storm workspace: the seed prompt, escaped.
pub open spec fn scaffold_index(prompt: Seq<char>) -> Seq<char> {
    "<!DOCTYPE html>\n<html lang=\"en\">\n<head>\n  <meta charset=\"UTF-8\">\n  <meta name=\"viewport\" content=\"width=device-width, initial-scale=1.0\">\n  <title>Storm Artifact</title>\n  <link rel=\"stylesheet\" href=\"styles.css\">\n</head>\n<body>\n  <main class=\"storm-doc\">\n    <section class=\"seed-block\">\n      <span class=\"eyebrow\">Seed</span>\n      <p>"@ + html_escaped(prompt) + "</p>\n    </section>\n  </main>\n</body>\n</html>\n"@
}

/// Writes the first page of a new storm workspace.
pub fn scaffold_index_html(prompt: &str) -> (out: String)
    ensures
        out@ == scaffold_index(prompt@),
{
    let mut out = String::from_str("<!DOCTYPE html>\n<html lang=\"en\">\n<head>\n  <meta charset=\"UTF-8\">\n  <meta name=\"viewport\" content=\"width=device-width, initial-scale=1.0\">\n  <title>Storm Artifact</title>\n  <link rel=\"stylesheet\" href=\"styles.css\">\n</head>\n<body>\n  <main class=\"storm-doc\">\n    <section class=\"seed-block\">\n      <span class=\"eyebrow\">Seed</span>\n      <p>");
    let seed = html_escape(prompt);
    out.append(seed.as_str());
    out.append("</p>\n    </section>\n  </main>\n</body>\n</html>\n");
    out
}

/// The style sheet of a new storm workspace.
pub open spec fn scaffold_styles() -> Seq<char> {
    ":root {\n  color-scheme: dark;\n  --bg: #071018;\n  --text: #d8e4ee;\n}\nbody {\n  margin: 0;\n  min-height: 100vh;\n  font-family: 'IBM Plex Sans', system-ui, sans-serif;\n  background: var(--bg);\n  color: var(--text);\n}\n.storm-doc {\n  padding: 48px;\n}\n.seed-block {\n  max-width: 40rem;\n}\n.eyebrow {\n  display: inline-block;\n  margin-bottom: 12px;\n  font-size: 12px;\n  letter-spacing: 0.18em;\n  text-transform: uppercase;\n  opacity: 0.65;\n}\n"@
}

/// Writes the style sheet of a new storm workspace.
pub fn scaffold_styles_css() -> (out: &'static str)
    ensures
        out@ == scaffold_styles(),
{
    ":root {\n  color-scheme: dark;\n  --bg: #071018;\n  --text: #d8e4ee;\n}\nbody {\n  margin: 0;\n  min-height: 100vh;\n  font-family: 'IBM Plex Sans', system-ui, sans-serif;\n  background: var(--bg);\n  color: var(--text);\n}\n.storm-doc {\n  padding: 48px;\n}\n.seed-block {\n  max-width: 40rem;\n}\n.eyebrow {\n  display: inline-block;\n  margin-bottom: 12px;\n  font-size: 12px;\n  letter-spacing: 0.18em;\n  text-transform: uppercase;\n  opacity: 0.65;\n}\n"
}

/// The manifest of a new storm workspace, as serde_json writes the object
/// with its keys in order.
pub open spec fn scaffold_manifest(prompt: Seq<char>) -> Seq<char> {
    "{\"goal\":\"Create a design language document as a full static HTML artifact.\",\"seed\":"@ + json_quoted(prompt) + "}"@
}

/// Writes the manifest of a new storm workspace.
pub fn scaffold_manifest_json(prompt: &str) -> (out: String)
    ensures
        out@ == scaffold_manifest(prompt@),
{
    let mut out = String::from_str("{\"goal\":\"Create a design language document as a full static HTML artifact.\",\"seed\":");
    let seed = json_string(prompt);
    out.append(seed.as_str());
    out.append("}");
    out
}

/// The page served in place of a preview whose files are gone.
pub open spec fn missing_preview(run_id: u128) -> Seq<char> {
    "<!DOCTYPE html><html lang=\"en\"><head><meta charset=\"UTF-8\"><meta name=\"viewport\" content=\"width=device-width, initial-scale=1.0\"><title>Preview unavailable</title><style>body{margin:0;min-height:100vh;display:grid;place-items:center;background:#0f0910;color:#d8e4ee;font-family:'IBM Plex Sans',system-ui,sans-serif}main{max-width:32rem;padding:32px;border:1px solid rgba(91,156,184,.2);border-radius:20px;background:rgba(16,17,24,.82);box-shadow:0 24px 80px rgba(0,0,0,.45)}h1{margin:0 0 12px;font-size:1.3rem}p{margin:0 0 10px;line-height:1.6;color:rgba(216,228,238,.8)}code{font-family:'IBM Plex Mono',monospace;font-size:.8rem;color:#8fc7e5}</style></head><body><main><h1>Preview unavailable</h1><p>This artifact was created on a workspace that is no longer present on this instance.</p><p>The run metadata still exists, but the generated files for <code>"@ + uuid_text(run_id) + "</code> could not be found.</p><p>Generate it again to restore a live preview.</p></main></body></html>"@
}

/// Writes the page served in place of a preview whose files are gone.
pub fn render_missing_preview_html(run_id: u128) -> (out: String)
    ensures
        out@ == missing_preview(run_id),
{
    let mut out = String::from_str("<!DOCTYPE html><html lang=\"en\"><head><meta charset=\"UTF-8\"><meta name=\"viewport\" content=\"width=device-width, initial-scale=1.0\"><title>Preview unavailable</title><style>body{margin:0;min-height:100vh;display:grid;place-items:center;background:#0f0910;color:#d8e4ee;font-family:'IBM Plex Sans',system-ui,sans-serif}main{max-width:32rem;padding:32px;border:1px solid rgba(91,156,184,.2);border-radius:20px;background:rgba(16,17,24,.82);box-shadow:0 24px 80px rgba(0,0,0,.45)}h1{margin:0 0 12px;font-size:1.3rem}p{margin:0 0 10px;line-height:1.6;color:rgba(216,228,238,.8)}code{font-family:'IBM Plex Mono',monospace;font-size:.8rem;color:#8fc7e5}</style></head><body><main><h1>Preview unavailable</h1><p>This artifact was created on a workspace that is no longer present on this instance.</p><p>The run metadata still exists, but the generated files for <code>");
    let id = uuid_to_text(run_id);
    out.append(id.as_str());
    out.append("</code> could not be found.</p><p>Generate it again to restore a live preview.</p></main></body></html>");
    out
}

} // verus!
