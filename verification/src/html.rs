use vstd::prelude::*;
use std::collections::HashMap;
use crate::ids::{uuid_text, uuid_to_text};
use crate::prompts::SessionMessageRow;
use crate::session::DesignJobRow;
use crate::storm::StormRunRecord;
use crate::text::{eq_text, escape_char, html_escape, html_escaped, join_texts, push_char, chars_of, truncate_for_log, truncated_for_log};
use crate::time::{clock_label, month_day_label, utc_formatted};
use crate::titles::{joined, lemma_joined_push};

verus! {

/// A design session in the session list.
pub struct DesignSessionRow {
    pub id: u128,
    pub title: String,
    /// When it last changed, in nanoseconds since the Unix epoch.
    pub updated_at: i64,
}

/// A reference stored in a session. `content_body` and `content_url` hold the
/// text under `body` and `url` of its content, when there is text there.
pub struct ReferenceItemRow {
    pub id: u128,
    pub kind: String,
    pub title: String,
    pub content_body: Option<String>,
    pub content_url: Option<String>,
    /// When it was added, in nanoseconds since the Unix epoch.
    pub created_at: i64,
}

/// Items written one after another.
pub open spec fn concatenated(xs: Seq<Seq<char>>) -> Seq<char> {
    joined(xs, Seq::empty())
}

/// Writes pieces one after another.
fn concat_all(parts: &Vec<String>) -> (out: String)
    ensures
        out@ == concatenated(parts.deep_view()),
{
    proof {
        reveal_strlit("");
        assert(""@ =~= Seq::<char>::empty());
    }
    join_texts(parts, "")
}

/// `s` with every line break written as `<br>`.
pub open spec fn with_line_breaks(s: Seq<char>) -> Seq<char>
    decreases s.len(),
{
    if s.len() == 0 {
        Seq::empty()
    } else {
        with_line_breaks(s.drop_last()) + (if s.last() == '\n' {
            seq!['<', 'b', 'r', '>']
        } else {
            seq![s.last()]
        })
    }
}

/// Writes every line break of `s` as `<br>`.
pub fn line_breaks_to_html(s: &str) -> (out: String)
    ensures
        out@ == with_line_breaks(s@),
{
    let chars = chars_of(s);
    let mut out = String::new();
    let mut i: usize = 0;
    while i < chars.len()
        invariant
            i <= chars@.len(),
            chars@ == s@,
            out@ == with_line_breaks(chars@.take(i as int)),
        decreases chars@.len() - i,
    {
        let c = chars[i];
        if c == '\n' {
            push_char(&mut out, '<');
            push_char(&mut out, 'b');
            push_char(&mut out, 'r');
            push_char(&mut out, '>');
        } else {
            push_char(&mut out, c);
        }
        assert(chars@.take(i + 1).drop_last() == chars@.take(i as int));
        i = i + 1;
    }
    assert(chars@.take(chars@.len() as int) == chars@);
    out
}


/// One session in the session list.
pub open spec fn session_link(s: DesignSessionRow, active_id: u128) -> Seq<char> {
    let active_class = if s.id == active_id {
        " is-active"@
    } else {
        Seq::<char>::empty()
    };
    "<a class=\"session-link"@
        + active_class
        + "\" href=\"/app?session="@
        + uuid_text(s.id)
        + "\" data-session-id=\""@
        + uuid_text(s.id)
        + "\">\n  <span class=\"session-link-title\">"@
        + html_escaped(s.title@)
        + "</span>\n  <span class=\"session-link-meta\">"@
        + utc_formatted(s.updated_at, "%b %d"@)
        + "</span>\n</a>"@
}

/// The session list, with the active session marked.
pub open spec fn session_list_html(sessions: Seq<DesignSessionRow>, active_id: u128) -> Seq<char> {
    if sessions.len() == 0 {
        "<div class=\"session-list-empty\">No sessions yet.</div>"@
    } else {
        concatenated(sessions.map_values(|s: DesignSessionRow| session_link(s, active_id)))
    }
}

fn render_session_link(s: &DesignSessionRow, active_id: u128) -> (out: String)
    ensures
        out@ == session_link(*s, active_id),
{
    let active_class = if s.id == active_id {
        String::from_str(" is-active")
    } else {
        String::new()
    };
    let id = uuid_to_text(s.id);
    let title = html_escape(s.title.as_str());
    let label = month_day_label(s.updated_at);
    let mut out = String::from_str("<a class=\"session-link");
    out.append(active_class.as_str());
    out.append("\" href=\"/app?session=");
    out.append(id.as_str());
    out.append("\" data-session-id=\"");
    out.append(id.as_str());
    out.append("\">\n  <span class=\"session-link-title\">");
    out.append(title.as_str());
    out.append("</span>\n  <span class=\"session-link-meta\">");
    out.append(label.as_str());
    out.append("</span>\n</a>");
    out
}

/// Renders the list of a user's sessions, marking the active one.
pub fn render_session_list_html(sessions: &Vec<DesignSessionRow>, active_session_id: u128) -> (out: String)
    ensures
        out@ == session_list_html(sessions@, active_session_id),
{
    if sessions.len() == 0 {
        return String::from_str("<div class=\"session-list-empty\">No sessions yet.</div>");
    }
    let mut parts: Vec<String> = Vec::new();
    let mut i: usize = 0;
    while i < sessions.len()
        invariant
            i <= sessions@.len(),
            parts@.len() == i,
            parts.deep_view() == sessions@.take(i as int).map_values(|s: DesignSessionRow| session_link(s, active_session_id)),
        decreases sessions@.len() - i,
    {
        let part = render_session_link(&sessions[i], active_session_id);
        parts.push(part);
        assert(sessions@.take(i + 1).map_values(|s: DesignSessionRow| session_link(s, active_session_id))
            =~= sessions@.take(i as int).map_values(|s: DesignSessionRow| session_link(s, active_session_id)).push(session_link(sessions@[i as int], active_session_id)));
        assert(parts.deep_view() =~= sessions@.take(i + 1).map_values(|s: DesignSessionRow| session_link(s, active_session_id)));
        i = i + 1;
    }
    assert(sessions@.take(sessions@.len() as int) == sessions@);
    concat_all(&parts)
}


/// The status of the job with this id, when it is known.
pub open spec fn job_status_of(jobs: Map<u128, DesignJobRow>, id: u128) -> Option<Seq<char>> {
    if jobs.contains_key(id) {
        Some(jobs[id].status@)
    } else {
        None
    }
}

fn find_job_status(jobs: &HashMap<u128, DesignJobRow>, id: u128) -> (r: Option<String>)
    ensures
        match r {
            Some(s) => job_status_of(jobs@, id) == Some(s@),
            None => job_status_of(jobs@, id) is None,
        },
{
    broadcast use vstd::std_specs::hash::group_hash_axioms;
    match jobs.get(&id) {
        Some(j) => Some(j.status.clone()),
        None => None,
    }
}

/// The meta line of a message: its time, and the status of its job when the
/// job is known.
pub open spec fn message_footer(m: SessionMessageRow, jobs: Map<u128, DesignJobRow>) -> Seq<char> {
    let time = utc_formatted(m.created_at, "%H:%M"@);
    match m.design_job_id {
        Some(j) => match job_status_of(jobs, j) {
            Some(st) => time + " \u{b7} "@ + html_escaped(st),
            None => time,
        },
        None => time,
    }
}

/// One chat message.
pub open spec fn message_html(m: SessionMessageRow, jobs: Map<u128, DesignJobRow>) -> Seq<char> {
    let user = m.role@ == "user"@;
    let role_class = if user {
        " is-user"@
    } else {
        " is-assistant"@
    };
    let role = if user {
        "You"@
    } else {
        "Agent"@
    };
    "<article class=\"chat-message"@
        + role_class
        + "\">\n  <header class=\"chat-message-head\">\n    <span class=\"chat-message-role\">"@
        + role
        + "</span>\n    <span class=\"chat-message-meta\">"@
        + message_footer(m, jobs)
        + "</span>\n  </header>\n  <div class=\"chat-message-body\">"@
        + with_line_breaks(html_escaped(m.body@))
        + "</div>\n</article>"@
}

/// The chat of a session.
pub open spec fn messages_html(ms: Seq<SessionMessageRow>, jobs: Map<u128, DesignJobRow>) -> Seq<char> {
    if ms.len() == 0 {
        "<div class=\"chat-empty\">\u{2014}</div>"@
    } else {
        concatenated(ms.map_values(|m: SessionMessageRow| message_html(m, jobs)))
    }
}

fn render_message(m: &SessionMessageRow, jobs: &HashMap<u128, DesignJobRow>) -> (out: String)
    ensures
        out@ == message_html(*m, jobs@),
{
    let user = eq_text(m.role.as_str(), "user");
    let role_class = if user {
        String::from_str(" is-user")
    } else {
        String::from_str(" is-assistant")
    };
    let role = if user {
        String::from_str("You")
    } else {
        String::from_str("Agent")
    };
    let mut footer = clock_label(m.created_at);
    match m.design_job_id {
        Some(j) => match find_job_status(jobs, j) {
            Some(st) => {
                footer.append(" \u{b7} ");
                let esc = html_escape(st.as_str());
                footer.append(esc.as_str());
            },
            None => {},
        },
        None => {},
    }
    let escaped = html_escape(m.body.as_str());
    let body = line_breaks_to_html(escaped.as_str());
    let mut out = String::from_str("<article class=\"chat-message");
    out.append(role_class.as_str());
    out.append("\">\n  <header class=\"chat-message-head\">\n    <span class=\"chat-message-role\">");
    out.append(role.as_str());
    out.append("</span>\n    <span class=\"chat-message-meta\">");
    out.append(footer.as_str());
    out.append("</span>\n  </header>\n  <div class=\"chat-message-body\">");
    out.append(body.as_str());
    out.append("</div>\n</article>");
    out
}

/// Renders the chat of a session; a message that queued a job shows the job's status.
pub fn render_messages_html(messages: &Vec<SessionMessageRow>, jobs: &HashMap<u128, DesignJobRow>) -> (out: String)
    ensures
        out@ == messages_html(messages@, jobs@),
{
    if messages.len() == 0 {
        return String::from_str("<div class=\"chat-empty\">\u{2014}</div>");
    }
    let mut parts: Vec<String> = Vec::new();
    let mut i: usize = 0;
    while i < messages.len()
        invariant
            i <= messages@.len(),
            parts@.len() == i,
            parts.deep_view() == messages@.take(i as int).map_values(|m: SessionMessageRow| message_html(m, jobs@)),
        decreases messages@.len() - i,
    {
        let part = render_message(&messages[i], jobs);
        parts.push(part);
        assert(messages@.take(i + 1).map_values(|m: SessionMessageRow| message_html(m, jobs@))
            =~= messages@.take(i as int).map_values(|m: SessionMessageRow| message_html(m, jobs@)).push(message_html(messages@[i as int], jobs@)));
        assert(parts.deep_view() =~= messages@.take(i + 1).map_values(|m: SessionMessageRow| message_html(m, jobs@)));
        i = i + 1;
    }
    assert(messages@.take(messages@.len() as int) == messages@);
    concat_all(&parts)
}


/// The detail line of a reference, before escaping.
pub open spec fn reference_detail(r: ReferenceItemRow) -> Seq<char> {
    if r.kind@ == "text"@ {
        match r.content_body {
            Some(b) => truncated_for_log(b@, 140),
            None => "Text note"@,
        }
    } else if r.kind@ == "link"@ {
        match r.content_url {
            Some(u) => u@,
            None => "Link reference"@,
        }
    } else if r.kind@ == "image"@ {
        match r.content_url {
            Some(u) => u@,
            None => "Image reference"@,
        }
    } else {
        "Reference"@
    }
}

/// The thumbnail of an image reference; empty for other references.
pub open spec fn reference_preview(r: ReferenceItemRow) -> Seq<char> {
    if r.kind@ == "image"@ {
        match r.content_url {
            Some(u) => "<img class=\"reference-item-thumb\" src=\""@
        + html_escaped(u@)
        + "\" alt=\""@
        + html_escaped(r.title@)
        + "\" loading=\"lazy\">"@,
            None => Seq::empty(),
        }
    } else {
        Seq::empty()
    }
}

/// One reference in the reference list.
pub open spec fn reference_html(r: ReferenceItemRow) -> Seq<char> {
    let handle = "ref:"@ + uuid_text(r.id);
    "<button class=\"reference-item\" type=\"button\" data-reference-handle=\""@
        + handle
        + "\" data-reference-label=\""@
        + html_escaped(r.title@)
        + "\" data-reference-kind=\""@
        + html_escaped(r.kind@)
        + "\">\n  <span class=\"reference-item-top\">\n    <span class=\"reference-item-kind\">"@
        + html_escaped(r.kind@)
        + "</span>\n    <span class=\"reference-item-date\">"@
        + utc_formatted(r.created_at, "%b %d"@)
        + "</span>\n  </span>\n  "@
        + reference_preview(r)
        + "\n  <strong class=\"reference-item-title\">"@
        + html_escaped(r.title@)
        + "</strong>\n  <span class=\"reference-item-detail\">"@
        + html_escaped(reference_detail(r))
        + "</span>\n</button>"@
}

/// The reference list of a session.
pub open spec fn reference_list_html(rs: Seq<ReferenceItemRow>) -> Seq<char> {
    if rs.len() == 0 {
        "<div class=\"reference-empty\"></div>"@
    } else {
        concatenated(rs.map_values(|r: ReferenceItemRow| reference_html(r)))
    }
}

fn text_or_else(o: &Option<String>, default: &str) -> (r: String)
    ensures
        r@ == match *o {
            Some(s) => s@,
            None => default@,
        },
{
    match o {
        Some(s) => s.clone(),
        None => String::from_str(default),
    }
}

fn render_reference(r: &ReferenceItemRow) -> (out: String)
    ensures
        out@ == reference_html(*r),
{
    let mut handle = String::from_str("ref:");
    let id = uuid_to_text(r.id);
    handle.append(id.as_str());
    let detail = if eq_text(r.kind.as_str(), "text") {
        match &r.content_body {
            Some(b) => truncate_for_log(b.as_str(), 140),
            None => String::from_str("Text note"),
        }
    } else if eq_text(r.kind.as_str(), "link") {
        text_or_else(&r.content_url, "Link reference")
    } else if eq_text(r.kind.as_str(), "image") {
        text_or_else(&r.content_url, "Image reference")
    } else {
        String::from_str("Reference")
    };
    let preview = if eq_text(r.kind.as_str(), "image") {
        match &r.content_url {
            Some(u) => {
                let src = html_escape(u.as_str());
                let alt = html_escape(r.title.as_str());
                let mut thumb = String::from_str("<img class=\"reference-item-thumb\" src=\"");
                thumb.append(src.as_str());
                thumb.append("\" alt=\"");
                thumb.append(alt.as_str());
                thumb.append("\" loading=\"lazy\">");
                thumb
            },
            None => String::new(),
        }
    } else {
        String::new()
    };
    let label = html_escape(r.title.as_str());
    let kind = html_escape(r.kind.as_str());
    let date = month_day_label(r.created_at);
    let detail_html = html_escape(detail.as_str());
    let mut out = String::from_str("<button class=\"reference-item\" type=\"button\" data-reference-handle=\"");
    out.append(handle.as_str());
    out.append("\" data-reference-label=\"");
    out.append(label.as_str());
    out.append("\" data-reference-kind=\"");
    out.append(kind.as_str());
    out.append("\">\n  <span class=\"reference-item-top\">\n    <span class=\"reference-item-kind\">");
    out.append(kind.as_str());
    out.append("</span>\n    <span class=\"reference-item-date\">");
    out.append(date.as_str());
    out.append("</span>\n  </span>\n  ");
    out.append(preview.as_str());
    out.append("\n  <strong class=\"reference-item-title\">");
    out.append(label.as_str());
    out.append("</strong>\n  <span class=\"reference-item-detail\">");
    out.append(detail_html.as_str());
    out.append("</span>\n</button>");
    out
}

/// Renders the reference list of a session.
pub fn render_reference_list_html(references: &Vec<ReferenceItemRow>) -> (out: String)
    ensures
        out@ == reference_list_html(references@),
{
    if references.len() == 0 {
        return String::from_str("<div class=\"reference-empty\"></div>");
    }
    let mut parts: Vec<String> = Vec::new();
    let mut i: usize = 0;
    while i < references.len()
        invariant
            i <= references@.len(),
            parts@.len() == i,
            parts.deep_view() == references@.take(i as int).map_values(|r: ReferenceItemRow| reference_html(r)),
        decreases references@.len() - i,
    {
        let part = render_reference(&references[i]);
        parts.push(part);
        assert(references@.take(i + 1).map_values(|r: ReferenceItemRow| reference_html(r))
            =~= references@.take(i as int).map_values(|r: ReferenceItemRow| reference_html(r)).push(reference_html(references@[i as int])));
        assert(parts.deep_view() =~= references@.take(i + 1).map_values(|r: ReferenceItemRow| reference_html(r)));
        i = i + 1;
    }
    assert(references@.take(references@.len() as int) == references@);
    concat_all(&parts)
}


/// Each run's title by its id; of runs sharing an id, the later one counts.
pub open spec fn titles_by_id(runs: Seq<StormRunRecord>) -> Map<u128, String>
    decreases runs.len(),
{
    if runs.len() == 0 {
        Map::empty()
    } else {
        titles_by_id(runs.drop_last()).insert(runs.last().id, runs.last().title)
    }
}

/// Looks up the title of each run by its id, for the gallery.
pub fn title_lookup(runs: &Vec<StormRunRecord>) -> (m: HashMap<u128, String>)
    ensures
        m@ == titles_by_id(runs@),
{
    let mut m: HashMap<u128, String> = HashMap::new();
    let mut i: usize = 0;
    while i < runs.len()
        invariant
            i <= runs@.len(),
            m@ == titles_by_id(runs@.take(i as int)),
        decreases runs@.len() - i,
    {
        assert(runs@.take(i + 1).drop_last() == runs@.take(i as int));
        m.insert(runs[i].id, runs[i].title.clone());
        i = i + 1;
    }
    assert(runs@.take(runs@.len() as int) == runs@);
    m
}

/// Each job by its id; of jobs sharing an id, the later one counts.
pub open spec fn jobs_by_id_map(jobs: Seq<DesignJobRow>) -> Map<u128, DesignJobRow>
    decreases jobs.len(),
{
    if jobs.len() == 0 {
        Map::empty()
    } else {
        jobs_by_id_map(jobs.drop_last()).insert(jobs.last().id, jobs.last())
    }
}

/// Files jobs by their id, for the chat.
pub fn jobs_by_id(jobs: Vec<DesignJobRow>) -> (m: HashMap<u128, DesignJobRow>)
    ensures
        m@ == jobs_by_id_map(jobs@),
{
    let ghost given = jobs@;
    let total: usize = jobs.len();
    let mut rest = jobs;
    let mut m: HashMap<u128, DesignJobRow> = HashMap::new();
    let mut n: usize = 0;
    while rest.len() > 0
        invariant
            n + rest@.len() == given.len(),
            given.len() == total,
            rest@ == given.skip(n as int),
            m@ == jobs_by_id_map(given.take(n as int)),
        decreases rest@.len(),
    {
        let j = rest.remove(0);
        assert(given.skip(n as int)[0] == given[n as int]);
        assert(rest@ == given.skip(n + 1));
        assert(given.take(n + 1).drop_last() == given.take(n as int));
        m.insert(j.id, j);
        n = n + 1;
    }
    assert(given.take(given.len() as int) == given);
    m
}

/// The title of the run with this id, when it is known.
pub open spec fn title_of(titles: Map<u128, String>, id: u128) -> Option<Seq<char>> {
    if titles.contains_key(id) {
        Some(titles[id]@)
    } else {
        None
    }
}

fn find_title(titles: &HashMap<u128, String>, id: u128) -> (r: Option<String>)
    ensures
        match r {
            Some(s) => title_of(titles@, id) == Some(s@),
            None => title_of(titles@, id) is None,
        },
{
    broadcast use vstd::std_specs::hash::group_hash_axioms;
    match titles.get(&id) {
        Some(t) => Some(t.clone()),
        None => None,
    }
}

/// The line naming the design a card iterates on, when that design is known.
pub open spec fn lineage_html(iterates_on: Option<u128>, titles: Map<u128, String>) -> Seq<char> {
    match iterates_on {
        Some(id) => match title_of(titles, id) {
            Some(t) => "<span class=\"gallery-lineage\">Iterates on "@
        + html_escaped(t)
        + "</span>"@,
            None => Seq::empty(),
        },
        None => Seq::empty(),
    }
}

fn render_lineage(iterates_on: Option<u128>, titles: &HashMap<u128, String>) -> (out: String)
    ensures
        out@ == lineage_html(iterates_on, titles@),
{
    match iterates_on {
        Some(id) => match find_title(titles, id) {
            Some(t) => {
                let title = html_escape(t.as_str());
                let mut out = String::from_str("<span class=\"gallery-lineage\">Iterates on ");
                out.append(title.as_str());
                out.append("</span>");
                out
            },
            None => String::new(),
        },
        None => String::new(),
    }
}

/// The card of a job still pending or failed.
pub open spec fn job_card(j: DesignJobRow, titles: Map<u128, String>) -> Seq<char> {
    let status_class = if j.status@ == "failed"@ {
        " is-failed"@
    } else {
        Seq::<char>::empty()
    };
    let error = match j.error {
        Some(m) => "<p class=\"gallery-job-error\">"@
        + html_escaped(m@)
        + "</p>"@,
        None => Seq::<char>::empty(),
    };
    "<article class=\"gallery-card gallery-card-job"@
        + status_class
        + "\" data-job-id=\""@
        + uuid_text(j.id)
        + "\" data-job-status=\""@
        + html_escaped(j.status@)
        + "\">\n  <div class=\"gallery-card-meta\">\n    <span class=\"gallery-card-status\" data-status=\""@
        + html_escaped(j.status@)
        + "\">"@
        + html_escaped(j.status@)
        + "</span>\n    <span class=\"gallery-card-date\">"@
        + utc_formatted(j.created_at, "%H:%M"@)
        + "</span>\n  </div>\n  <div class=\"gallery-card-body\">\n    <strong class=\"gallery-card-title\">"@
        + html_escaped(j.title@)
        + "</strong>\n    "@
        + lineage_html(j.iterates_on_id, titles)
        + "\n    <p class=\"gallery-card-summary\">"@
        + html_escaped(truncated_for_log(j.prompt@, 180))
        + "</p>\n    "@
        + error
        + "\n  </div>\n</article>"@
}

/// The card of a finished design.
pub open spec fn design_card(r: StormRunRecord, titles: Map<u128, String>) -> Seq<char> {
    let status = if r.submitted {
        "Ready"@
    } else {
        "Draft"@
    };
    "<article class=\"gallery-card design-card\" data-design-id=\""@
        + uuid_text(r.id)
        + "\" data-design-handle=\"design:"@
        + uuid_text(r.id)
        + "\" data-design-label=\""@
        + html_escaped(r.title@)
        + "\" tabindex=\"0\">\n  <div class=\"gallery-card-meta\">\n    <span class=\"gallery-card-status\" data-status=\""@
        + status
        + "\">"@
        + status
        + "</span>\n    <span class=\"gallery-card-date\">"@
        + utc_formatted(r.created_at, "%b %d"@)
        + "</span>\n  </div>\n  <div class=\"gallery-card-preview-shell\">\n    <iframe class=\"gallery-card-preview\" src=\""@
        + html_escaped(r.preview_url@)
        + "\" title=\""@
        + html_escaped(r.title@)
        + "\" loading=\"lazy\" sandbox=\"allow-scripts allow-forms allow-modals\" referrerpolicy=\"no-referrer\"></iframe>\n  </div>\n  <div class=\"gallery-card-body\">\n    <strong class=\"gallery-card-title\">"@
        + html_escaped(r.title@)
        + "</strong>\n    "@
        + lineage_html(r.iterates_on_id, titles)
        + "\n    <p class=\"gallery-card-summary\">"@
        + html_escaped(r.summary@)
        + "</p>\n  </div>\n  <div class=\"gallery-card-actions\">\n    <button class=\"gallery-action\" type=\"button\" data-action=\"expand-design\" data-design-id=\""@
        + uuid_text(r.id)
        + "\" data-design-label=\""@
        + html_escaped(r.title@)
        + "\" data-preview-url=\""@
        + html_escaped(r.preview_url@)
        + "\">Expand</button>\n    <button class=\"gallery-action\" type=\"button\" data-action=\"iterate-design\" data-design-id=\""@
        + uuid_text(r.id)
        + "\" data-design-label=\""@
        + html_escaped(r.title@)
        + "\">Iterate</button>\n    <button class=\"gallery-action\" type=\"button\" data-action=\"use-design-reference\" data-reference-handle=\"design:"@
        + uuid_text(r.id)
        + "\" data-reference-label=\""@
        + html_escaped(r.title@)
        + "\">Use as reference</button>\n    <a class=\"gallery-action\" href=\"/storms/"@
        + uuid_text(r.id)
        + "/download\">Download ZIP</a>\n  </div>\n</article>"@
}

/// The cards of a gallery: jobs without a result, in order, then designs,
/// newest first.
pub open spec fn gallery_cards(runs: Seq<StormRunRecord>, jobs: Seq<DesignJobRow>, titles: Map<u128, String>) -> Seq<Seq<char>> {
    jobs.filter(|j: DesignJobRow| j.result_run_id is None).map_values(|j: DesignJobRow| job_card(j, titles))
        + runs.reverse().map_values(|r: StormRunRecord| design_card(r, titles))
}

/// The gallery of a session.
pub open spec fn gallery_html(runs: Seq<StormRunRecord>, jobs: Seq<DesignJobRow>, titles: Map<u128, String>) -> Seq<char> {
    let html = concatenated(gallery_cards(runs, jobs, titles));
    if html.len() == 0 {
        "<div class=\"gallery-empty\"></div>"@
    } else {
        html
    }
}

fn render_job_card(j: &DesignJobRow, titles: &HashMap<u128, String>) -> (out: String)
    ensures
        out@ == job_card(*j, titles@),
{
    let status_class = if eq_text(j.status.as_str(), "failed") {
        String::from_str(" is-failed")
    } else {
        String::new()
    };
    let error = match &j.error {
        Some(m) => {
            let message = html_escape(m.as_str());
            let mut e = String::from_str("<p class=\"gallery-job-error\">");
            e.append(message.as_str());
            e.append("</p>");
            e
        },
        None => String::new(),
    };
    let id = uuid_to_text(j.id);
    let status = html_escape(j.status.as_str());
    let date = clock_label(j.created_at);
    let title = html_escape(j.title.as_str());
    let lineage = render_lineage(j.iterates_on_id, titles);
    let cut = truncate_for_log(j.prompt.as_str(), 180);
    let prompt = html_escape(cut.as_str());
    let mut out = String::from_str("<article class=\"gallery-card gallery-card-job");
    out.append(status_class.as_str());
    out.append("\" data-job-id=\"");
    out.append(id.as_str());
    out.append("\" data-job-status=\"");
    out.append(status.as_str());
    out.append("\">\n  <div class=\"gallery-card-meta\">\n    <span class=\"gallery-card-status\" data-status=\"");
    out.append(status.as_str());
    out.append("\">");
    out.append(status.as_str());
    out.append("</span>\n    <span class=\"gallery-card-date\">");
    out.append(date.as_str());
    out.append("</span>\n  </div>\n  <div class=\"gallery-card-body\">\n    <strong class=\"gallery-card-title\">");
    out.append(title.as_str());
    out.append("</strong>\n    ");
    out.append(lineage.as_str());
    out.append("\n    <p class=\"gallery-card-summary\">");
    out.append(prompt.as_str());
    out.append("</p>\n    ");
    out.append(error.as_str());
    out.append("\n  </div>\n</article>");
    out
}

fn render_design_card(r: &StormRunRecord, titles: &HashMap<u128, String>) -> (out: String)
    ensures
        out@ == design_card(*r, titles@),
{
    let status = if r.submitted {
        String::from_str("Ready")
    } else {
        String::from_str("Draft")
    };
    let id = uuid_to_text(r.id);
    let title = html_escape(r.title.as_str());
    let date = month_day_label(r.created_at);
    let preview = html_escape(r.preview_url.as_str());
    let summary = html_escape(r.summary.as_str());
    let lineage = render_lineage(r.iterates_on_id, titles);
    let mut out = String::from_str("<article class=\"gallery-card design-card\" data-design-id=\"");
    out.append(id.as_str());
    out.append("\" data-design-handle=\"design:");
    out.append(id.as_str());
    out.append("\" data-design-label=\"");
    out.append(title.as_str());
    out.append("\" tabindex=\"0\">\n  <div class=\"gallery-card-meta\">\n    <span class=\"gallery-card-status\" data-status=\"");
    out.append(status.as_str());
    out.append("\">");
    out.append(status.as_str());
    out.append("</span>\n    <span class=\"gallery-card-date\">");
    out.append(date.as_str());
    out.append("</span>\n  </div>\n  <div class=\"gallery-card-preview-shell\">\n    <iframe class=\"gallery-card-preview\" src=\"");
    out.append(preview.as_str());
    out.append("\" title=\"");
    out.append(title.as_str());
    out.append("\" loading=\"lazy\" sandbox=\"allow-scripts allow-forms allow-modals\" referrerpolicy=\"no-referrer\"></iframe>\n  </div>\n  <div class=\"gallery-card-body\">\n    <strong class=\"gallery-card-title\">");
    out.append(title.as_str());
    out.append("</strong>\n    ");
    out.append(lineage.as_str());
    out.append("\n    <p class=\"gallery-card-summary\">");
    out.append(summary.as_str());
    out.append("</p>\n  </div>\n  <div class=\"gallery-card-actions\">\n    <button class=\"gallery-action\" type=\"button\" data-action=\"expand-design\" data-design-id=\"");
    out.append(id.as_str());
    out.append("\" data-design-label=\"");
    out.append(title.as_str());
    out.append("\" data-preview-url=\"");
    out.append(preview.as_str());
    out.append("\">Expand</button>\n    <button class=\"gallery-action\" type=\"button\" data-action=\"iterate-design\" data-design-id=\"");
    out.append(id.as_str());
    out.append("\" data-design-label=\"");
    out.append(title.as_str());
    out.append("\">Iterate</button>\n    <button class=\"gallery-action\" type=\"button\" data-action=\"use-design-reference\" data-reference-handle=\"design:");
    out.append(id.as_str());
    out.append("\" data-reference-label=\"");
    out.append(title.as_str());
    out.append("\">Use as reference</button>\n    <a class=\"gallery-action\" href=\"/storms/");
    out.append(id.as_str());
    out.append("/download\">Download ZIP</a>\n  </div>\n</article>");
    out
}

/// Renders a session's gallery: a card per job still waiting for its design,
/// then a card per design, newest first. `titles` names every run of the user,
/// for the lines that say which design a card iterates on.
pub fn render_gallery_html(runs: &Vec<StormRunRecord>, jobs: &Vec<DesignJobRow>, titles: &HashMap<u128, String>) -> (out: String)
    ensures
        out@ == gallery_html(runs@, jobs@, titles@),
{
    let ghost pred = |j: DesignJobRow| j.result_run_id is None;
    let ghost jf = |j: DesignJobRow| job_card(j, titles@);
    let ghost rf = |r: StormRunRecord| design_card(r, titles@);
    let mut parts: Vec<String> = Vec::new();
    let mut i: usize = 0;
    while i < jobs.len()
        invariant
            i <= jobs@.len(),
            pred == (|j: DesignJobRow| j.result_run_id is None),
            jf == (|j: DesignJobRow| job_card(j, titles@)),
            parts.deep_view() == jobs@.take(i as int).filter(pred).map_values(jf),
        decreases jobs@.len() - i,
    {
        let ghost before = jobs@.take(i as int);
        assert(jobs@.take(i + 1).drop_last() == before);
        assert(jobs@.take(i + 1).filter(pred) == if pred(jobs@[i as int]) {
            before.filter(pred).push(jobs@[i as int])
        } else {
            before.filter(pred)
        }) by {
            reveal(Seq::filter);
            assert(before.push(jobs@[i as int]) == jobs@.take(i + 1));
        }
        if jobs[i].result_run_id.is_none() {
            let card = render_job_card(&jobs[i], titles);
            let ghost old_parts = parts.deep_view();
            parts.push(card);
            assert(parts.deep_view() =~= old_parts.push(jf(jobs@[i as int])));
            assert(before.filter(pred).push(jobs@[i as int]).map_values(jf) =~= before.filter(pred).map_values(jf).push(jf(jobs@[i as int])));
        }
        i = i + 1;
    }
    assert(jobs@.take(jobs@.len() as int) == jobs@);
    let ghost pending = parts.deep_view();
    let mut k: usize = runs.len();
    while k > 0
        invariant
            k <= runs@.len(),
            rf == (|r: StormRunRecord| design_card(r, titles@)),
            parts.deep_view() == pending + runs@.skip(k as int).reverse().map_values(rf),
        decreases k,
    {
        let card = render_design_card(&runs[k - 1], titles);
        let ghost old_parts = parts.deep_view();
        parts.push(card);
        assert(runs@.skip(k - 1).reverse() =~= runs@.skip(k as int).reverse().push(runs@[k - 1]));
        assert(runs@.skip(k - 1).reverse().map_values(rf) =~= runs@.skip(k as int).reverse().map_values(rf).push(rf(runs@[k - 1])));
        assert(parts.deep_view() =~= old_parts.push(rf(runs@[k - 1])));
        k = k - 1;
    }
    assert(runs@.skip(0) == runs@);
    assert(parts.deep_view() =~= gallery_cards(runs@, jobs@, titles@));
    let html = concat_all(&parts);
    if html.as_str().unicode_len() == 0 {
        String::from_str("<div class=\"gallery-empty\"></div>")
    } else {
        html
    }
}


/// A job still waiting for its design shows in the gallery right away, and
/// so does every finished design of the session.
pub proof fn law_gallery_shows_pending_jobs_and_designs(runs: Seq<StormRunRecord>, jobs: Seq<DesignJobRow>, titles: Map<u128, String>)
    ensures
        forall|i: int| 0 <= i < jobs.len() && (#[trigger] jobs[i]).result_run_id is None
            ==> gallery_cards(runs, jobs, titles).contains(job_card(jobs[i], titles)),
        forall|i: int| 0 <= i < runs.len() ==> gallery_cards(runs, jobs, titles).contains(design_card(#[trigger] runs[i], titles)),
{
    let pred = |j: DesignJobRow| j.result_run_id is None;
    let pending = jobs.filter(pred).map_values(|j: DesignJobRow| job_card(j, titles));
    let designs = runs.reverse().map_values(|r: StormRunRecord| design_card(r, titles));
    assert forall|i: int| 0 <= i < jobs.len() && (#[trigger] jobs[i]).result_run_id is None
        implies gallery_cards(runs, jobs, titles).contains(job_card(jobs[i], titles)) by {
        jobs.lemma_filter_contains(pred, i);
        let k = choose|k: int| 0 <= k < jobs.filter(pred).len() && jobs.filter(pred)[k] == jobs[i];
        assert(pending[k] == job_card(jobs[i], titles));
        assert((pending + designs)[k] == job_card(jobs[i], titles));
    }
    assert forall|i: int| 0 <= i < runs.len() implies gallery_cards(runs, jobs, titles).contains(design_card(#[trigger] runs[i], titles)) by {
        let k = runs.len() - 1 - i;
        assert(runs.reverse()[k] == runs[i]);
        assert(designs[k] == design_card(runs[i], titles));
        assert((pending + designs)[pending.len() + k] == design_card(runs[i], titles));
    }
}
/// Line breaks become `<br>` one by one: the text of two pieces is that of the
/// first followed by that of the second, a line break gives `<br>`, and any
/// other character stays.
pub proof fn law_line_breaks(a: Seq<char>, b: Seq<char>, c: char)
    ensures
        with_line_breaks(a + b) == with_line_breaks(a) + with_line_breaks(b),
        with_line_breaks(seq![c]) == if c == '\n' { "<br>"@ } else { seq![c] },
    decreases b.len(),
{
    reveal_strlit("<br>");
    assert(seq![c].drop_last() == Seq::<char>::empty());
    assert(Seq::<char>::empty() + seq!['<', 'b', 'r', '>'] =~= "<br>"@);
    assert(Seq::<char>::empty() + seq![c] =~= seq![c]);
    assert(seq![c].last() == c);
    assert(with_line_breaks(seq![c]) == with_line_breaks(Seq::<char>::empty()) + (if c == '\n' {
        seq!['<', 'b', 'r', '>']
    } else {
        seq![c]
    }));
    if b.len() == 0 {
        assert(a + b == a);
        assert(with_line_breaks(a) + Seq::<char>::empty() == with_line_breaks(a));
    } else {
        law_line_breaks(a, b.drop_last(), c);
        assert((a + b).drop_last() == a + b.drop_last());
        assert((a + b).last() == b.last());
        let tail = if b.last() == '\n' { seq!['<', 'b', 'r', '>'] } else { seq![b.last()] };
        assert(with_line_breaks(a) + with_line_breaks(b.drop_last()) + tail
            =~= with_line_breaks(a) + (with_line_breaks(b.drop_last()) + tail));
    }
}

/// Lists grow item by item, in order: the session list, the reference list
/// and the chat each show their items one after another, the last one added
/// at the end, and a placeholder when there is none.
pub proof fn law_lists_in_order(
    sessions: Seq<DesignSessionRow>,
    s: DesignSessionRow,
    active_id: u128,
    refs: Seq<ReferenceItemRow>,
    r: ReferenceItemRow,
    ms: Seq<SessionMessageRow>,
    m: SessionMessageRow,
    jobs: Map<u128, DesignJobRow>,
)
    ensures
        session_list_html(sessions.push(s), active_id) == if sessions.len() == 0 {
            session_link(s, active_id)
        } else {
            session_list_html(sessions, active_id) + session_link(s, active_id)
        },
        reference_list_html(refs.push(r)) == if refs.len() == 0 {
            reference_html(r)
        } else {
            reference_list_html(refs) + reference_html(r)
        },
        messages_html(ms.push(m), jobs) == if ms.len() == 0 {
            message_html(m, jobs)
        } else {
            messages_html(ms, jobs) + message_html(m, jobs)
        },
{
    let e = Seq::<char>::empty();
    let f = |x: DesignSessionRow| session_link(x, active_id);
    assert(sessions.push(s).map_values(f) =~= sessions.map_values(f).push(session_link(s, active_id)));
    lemma_joined_push(sessions.map_values(f), e, session_link(s, active_id));
    assert(session_list_html(sessions, active_id) + e + session_link(s, active_id) =~= session_list_html(sessions, active_id) + session_link(s, active_id));
    let g = |x: ReferenceItemRow| reference_html(x);
    assert(refs.push(r).map_values(g) =~= refs.map_values(g).push(reference_html(r)));
    lemma_joined_push(refs.map_values(g), e, reference_html(r));
    assert(reference_list_html(refs) + e + reference_html(r) =~= reference_list_html(refs) + reference_html(r));
    let h = |x: SessionMessageRow| message_html(x, jobs);
    assert(ms.push(m).map_values(h) =~= ms.map_values(h).push(message_html(m, jobs)));
    lemma_joined_push(ms.map_values(h), e, message_html(m, jobs));
    assert(messages_html(ms, jobs) + e + message_html(m, jobs) =~= messages_html(ms, jobs) + message_html(m, jobs));
}

/// A chat message's meta line shows its time, followed by ` · ` and the
/// escaped status of its job when the message queued a job that is known.
pub proof fn law_message_footer(m: SessionMessageRow, jobs: Map<u128, DesignJobRow>)
    ensures
        message_footer(m, jobs) == utc_formatted(m.created_at, "%H:%M"@) + if m.design_job_id is Some
            && jobs.contains_key(m.design_job_id->0) {
            " \u{b7} "@ + html_escaped(jobs[m.design_job_id->0].status@)
        } else {
            Seq::empty()
        },
{
    assert(utc_formatted(m.created_at, "%H:%M"@) + Seq::<char>::empty() == utc_formatted(m.created_at, "%H:%M"@));
    if m.design_job_id is Some && jobs.contains_key(m.design_job_id->0) {
        assert(utc_formatted(m.created_at, "%H:%M"@) + " \u{b7} "@ + html_escaped(jobs[m.design_job_id->0].status@)
            =~= utc_formatted(m.created_at, "%H:%M"@) + (" \u{b7} "@ + html_escaped(jobs[m.design_job_id->0].status@)));
    }
}

/// The gallery shows the pending jobs first, in the order they came, then the
/// designs newest first: a design added last comes first among the designs,
/// and a job added last comes last among the pending jobs (a job that has
/// produced its design shows no card).
pub proof fn law_gallery_order(runs: Seq<StormRunRecord>, jobs: Seq<DesignJobRow>, r: StormRunRecord, j: DesignJobRow, titles: Map<u128, String>)
    ensures
        gallery_cards(runs.push(r), jobs, titles) == gallery_cards(Seq::empty(), jobs, titles) + seq![design_card(r, titles)]
            + gallery_cards(runs, Seq::empty(), titles),
        gallery_cards(runs, jobs.push(j), titles) == gallery_cards(Seq::empty(), jobs, titles)
            + (if j.result_run_id is None { seq![job_card(j, titles)] } else { Seq::empty() })
            + gallery_cards(runs, Seq::empty(), titles),
{
    let pred = |x: DesignJobRow| x.result_run_id is None;
    let jf = |x: DesignJobRow| job_card(x, titles);
    let df = |x: StormRunRecord| design_card(x, titles);
    assert(Seq::<DesignJobRow>::empty().filter(pred) =~= Seq::<DesignJobRow>::empty()) by { reveal(Seq::filter); }
    assert(Seq::<StormRunRecord>::empty().reverse() =~= Seq::<StormRunRecord>::empty());
    assert(runs.push(r).reverse() =~= seq![r] + runs.reverse());
    assert((seq![r] + runs.reverse()).map_values(df) =~= seq![design_card(r, titles)] + runs.reverse().map_values(df));
    let pending = jobs.filter(pred).map_values(jf);
    let designs = runs.reverse().map_values(df);
    assert(gallery_cards(Seq::empty(), jobs, titles) =~= pending);
    assert(gallery_cards(runs, Seq::empty(), titles) =~= designs);
    assert(pending + (seq![design_card(r, titles)] + designs) =~= pending + seq![design_card(r, titles)] + designs);
    assert(jobs.push(j).drop_last() == jobs);
    assert(jobs.push(j).filter(pred) == if pred(j) { jobs.filter(pred).push(j) } else { jobs.filter(pred) }) by {
        reveal(Seq::filter);
    }
    if pred(j) {
        assert(jobs.filter(pred).push(j).map_values(jf) =~= pending + seq![job_card(j, titles)]);
    } else {
        assert(pending + Seq::<Seq<char>>::empty() =~= pending);
    }
}

/// The session list marks exactly the active session: its link carries the
/// class `is-active`, and every other link carries none.
pub proof fn law_active_session_marked(s: DesignSessionRow, active_id: u128)
    ensures
        s.id == active_id ==> exists|rest: Seq<char>| session_link(s, active_id)
            == #[trigger] ("<a class=\"session-link"@ + " is-active"@ + rest),
        s.id != active_id ==> exists|rest: Seq<char>| session_link(s, active_id)
            == #[trigger] ("<a class=\"session-link"@ + "\" href=\"/app?session="@ + rest),
{
    let head = "<a class=\"session-link"@;
    let link = session_link(s, active_id);
    if s.id == active_id {
        let rest = link.skip((head.len() + " is-active"@.len()) as int);
        assert(link.take((head.len() + " is-active"@.len()) as int) =~= head + " is-active"@);
        assert(link =~= head + " is-active"@ + rest);
    } else {
        let h2 = "\" href=\"/app?session="@;
        let rest = link.skip((head.len() + h2.len()) as int);
        assert(link.take((head.len() + h2.len()) as int) =~= head + h2);
        assert(link =~= head + h2 + rest);
    }
}

/// A job card is marked `is-failed` exactly when its job failed, and it ends
/// with the job's escaped error when the job has one.
#[verifier::spinoff_prover]
#[verifier::rlimit(60)]
pub proof fn law_job_card_marks(j: DesignJobRow, titles: Map<u128, String>)
    ensures
        j.status@ == "failed"@ ==> exists|rest: Seq<char>| job_card(j, titles)
            == #[trigger] ("<article class=\"gallery-card gallery-card-job"@ + " is-failed"@ + rest),
        j.status@ != "failed"@ ==> exists|rest: Seq<char>| job_card(j, titles)
            == #[trigger] ("<article class=\"gallery-card gallery-card-job"@ + "\" data-job-id=\""@ + rest),
        j.error is Some ==> exists|pre: Seq<char>| job_card(j, titles)
            == #[trigger] (pre + "<p class=\"gallery-job-error\">"@ + html_escaped(j.error->0@) + "</p>"@ + "\n  </div>\n</article>"@),
        j.error is None ==> exists|pre: Seq<char>| job_card(j, titles)
            == #[trigger] (pre + "</p>\n    "@ + "\n  </div>\n</article>"@),
{
    let card = job_card(j, titles);
    let head = "<article class=\"gallery-card gallery-card-job"@;
    if j.status@ == "failed"@ {
        let rest = card.skip((head.len() + " is-failed"@.len()) as int);
        assert(card.take((head.len() + " is-failed"@.len()) as int) =~= head + " is-failed"@);
        assert(card =~= head + " is-failed"@ + rest);
    } else {
        let h2 = "\" data-job-id=\""@;
        let rest = card.skip((head.len() + h2.len()) as int);
        assert(card.take((head.len() + h2.len()) as int) =~= head + h2);
        assert(card =~= head + h2 + rest);
    }
    let tail = "\n  </div>\n</article>"@;
    match j.error {
        Some(m) => {
            let err = "<p class=\"gallery-job-error\">"@ + html_escaped(m@) + "</p>"@;
            let pre = card.take((card.len() - err.len() - tail.len()) as int);
            assert(card.skip((card.len() - err.len() - tail.len()) as int) =~= err + tail);
            assert(card =~= pre + "<p class=\"gallery-job-error\">"@ + html_escaped(m@) + "</p>"@ + tail);
        },
        None => {
            let mid = "</p>\n    "@;
            let pre = card.take((card.len() - mid.len() - tail.len()) as int);
            assert(card.skip((card.len() - mid.len() - tail.len()) as int) =~= mid + Seq::<char>::empty() + tail);
            assert(card =~= pre + mid + tail);
        },
    }
}

/// A design card shows its design's status in the card's meta line: `Ready`
/// once the run was submitted, `Draft` before, both as the status attribute
/// and as the visible label.
#[verifier::spinoff_prover]
#[verifier::rlimit(60)]
pub proof fn law_design_card_status(r: StormRunRecord, titles: Map<u128, String>)
    ensures
        r.submitted ==> exists|pre: Seq<char>, post: Seq<char>| design_card(r, titles) == #[trigger] (pre
            + "\" tabindex=\"0\">\n  <div class=\"gallery-card-meta\">\n    <span class=\"gallery-card-status\" data-status=\""@
            + "Ready"@ + "\">"@ + "Ready"@ + "</span>\n    <span class=\"gallery-card-date\">"@ + post),
        !r.submitted ==> exists|pre: Seq<char>, post: Seq<char>| design_card(r, titles) == #[trigger] (pre
            + "\" tabindex=\"0\">\n  <div class=\"gallery-card-meta\">\n    <span class=\"gallery-card-status\" data-status=\""@
            + "Draft"@ + "\">"@ + "Draft"@ + "</span>\n    <span class=\"gallery-card-date\">"@ + post),
{
    let st = if r.submitted { "Ready"@ } else { "Draft"@ };
    let pre = "<article class=\"gallery-card design-card\" data-design-id=\""@
        + uuid_text(r.id)
        + "\" data-design-handle=\"design:"@
        + uuid_text(r.id)
        + "\" data-design-label=\""@
        + html_escaped(r.title@);
    let mid = "\" tabindex=\"0\">\n  <div class=\"gallery-card-meta\">\n    <span class=\"gallery-card-status\" data-status=\""@;
    let date = "</span>\n    <span class=\"gallery-card-date\">"@;
    let card = design_card(r, titles);
    let head_len = pre.len() + mid.len() + st.len() + "\">"@.len() + st.len() + date.len();
    let post = card.skip(head_len as int);
    if r.submitted {
        assert(card == pre + mid + "Ready"@ + "\">"@ + "Ready"@ + date + post) by {
            assert(card.take(head_len as int) =~= pre + mid + st + "\">"@ + st + date);
            assert(card =~= card.take(head_len as int) + post);
        }
    } else {
        assert(card == pre + mid + "Draft"@ + "\">"@ + "Draft"@ + date + post) by {
            assert(card.take(head_len as int) =~= pre + mid + st + "\">"@ + st + date);
            assert(card =~= card.take(head_len as int) + post);
        }
    }
}

} // verus!
