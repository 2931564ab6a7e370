use vstd::prelude::*;
use crate::ids::{uuid_text, uuid_to_text};
use crate::text::{decimal, push_decimal, text_or, trim, trim_str, truncate_for_tool, truncated_for_tool};
use crate::generation::StormGenerationInput;
use crate::snapshot::StormRunBrief;
use crate::workspace::{join_path, path_join, resolve_workspace_path, resolved_path};

verus! {

/// The state of one storm run's workspace while its agent works.
pub struct WorkspaceRuntimeState {
    pub run_id: u128,
    pub preview_url: String,
    pub workspace_dir: String,
    pub prompt: String,
    pub title: String,
    pub summary: String,
    pub submitted: bool,
}

/// Where a run's preview is served.
pub open spec fn preview_url_text(run_id: u128) -> Seq<char> {
    "/preview/"@ + uuid_text(run_id) + "/"@
}

/// The preview path of a run.
pub fn preview_url_for(run_id: u128) -> (url: String)
    ensures
        url@ == preview_url_text(run_id),
{
    let mut url = String::from_str("/preview/");
    let id = uuid_to_text(run_id);
    url.append(id.as_str());
    url.append("/");
    url
}

/// The directory of a user's run under the workspace root.
pub open spec fn run_workspace_dir(root: Seq<char>, user_id: u128, run_id: u128) -> Seq<char> {
    path_join(path_join(root, uuid_text(user_id)), uuid_text(run_id))
}

/// The directory in which a user's run keeps its files.
pub fn storm_workspace_dir(root: &str, user_id: u128, run_id: u128) -> (dir: String)
    ensures
        dir@ == run_workspace_dir(root@, user_id, run_id),
{
    let user = uuid_to_text(user_id);
    let run = uuid_to_text(run_id);
    let user_dir = join_path(root, user.as_str());
    join_path(user_dir.as_str(), run.as_str())
}

/// The text of `o` when it holds more than white space, else `default`.
pub open spec fn non_blank_or(o: Option<String>, default: Seq<char>) -> Seq<char> {
    match o {
        Some(s) => if trim(s@).len() > 0 {
            s@
        } else {
            default
        },
        None => default,
    }
}

/// The state a run's workspace starts in: titled after the job when it has a
/// title, marked in progress, not submitted.
pub fn initial_workspace_state(
    run_id: u128,
    workspace_dir: String,
    prompt: String,
    fallback_title: &Option<String>,
) -> (st: WorkspaceRuntimeState)
    ensures
        st.run_id == run_id,
        st.preview_url@ == preview_url_text(run_id),
        st.workspace_dir@ == workspace_dir@,
        st.prompt@ == prompt@,
        st.title@ == non_blank_or(*fallback_title, "Storm Artifact"@),
        st.summary@ == "Design language artifact in progress."@,
        !st.submitted,
{
    let title = match fallback_title {
        Some(t) => {
            let trimmed = trim_str(t.as_str());
            if trimmed.as_str().unicode_len() > 0 {
                t.clone()
            } else {
                String::from_str("Storm Artifact")
            }
        },
        None => String::from_str("Storm Artifact"),
    };
    WorkspaceRuntimeState {
        run_id,
        preview_url: preview_url_for(run_id),
        workspace_dir,
        prompt,
        title,
        summary: String::from_str("Design language artifact in progress."),
        submitted: false,
    }
}

/// What `submit_result` keeps of an optional argument: its trimmed text, or
/// `default` when it is missing or blank.
pub open spec fn submitted_text(arg: Option<Seq<char>>, default: Seq<char>) -> Seq<char> {
    let t = trim(
        match arg {
            Some(a) => a,
            None => default,
        },
    );
    if t.len() == 0 {
        default
    } else {
        t
    }
}

/// The text of an optional string slice.
pub open spec fn opt_view(o: Option<&str>) -> Option<Seq<char>> {
    match o {
        Some(s) => Some(s@),
        None => None,
    }
}

fn submitted_field(arg: Option<&str>, default: &str) -> (r: String)
    ensures
        r@ == submitted_text(opt_view(arg), default@),
{
    let t = match arg {
        Some(a) => trim_str(a),
        None => trim_str(default),
    };
    if t.as_str().unicode_len() == 0 {
        String::from_str(default)
    } else {
        t
    }
}

impl WorkspaceRuntimeState {
    /// Marks the workspace as the run's candidate output under the given title
    /// and summary (each trimmed, with a default when missing or blank).
    pub fn submit_result(&mut self, title: Option<&str>, summary: Option<&str>)
        ensures
            final(self).title@ == submitted_text(opt_view(title), "Storm Artifact"@),
            final(self).summary@ == submitted_text(opt_view(summary), "Design language document ready."@),
            final(self).submitted,
            final(self).run_id == old(self).run_id,
            final(self).preview_url@ == old(self).preview_url@,
            final(self).workspace_dir@ == old(self).workspace_dir@,
            final(self).prompt@ == old(self).prompt@,
    {
        self.title = submitted_field(title, "Storm Artifact");
        self.summary = submitted_field(summary, "Design language document ready.");
        self.submitted = true;
    }
}

/// The address at which the server's own preview of `preview_url` is fetched.
pub open spec fn local_preview_address(port: u16, preview_url: Seq<char>) -> Seq<char> {
    "http://127.0.0.1:"@ + decimal(port as nat) + preview_url
}

/// The local address of a preview, for screenshots.
pub fn local_preview_url(port: u16, preview_url: &str) -> (url: String)
    ensures
        url@ == local_preview_address(port, preview_url@),
{
    let mut url = String::from_str("http://127.0.0.1:");
    push_decimal(&mut url, port as u64);
    url.append(preview_url);
    url
}

/// The caption of a screenshot of a titled page.
pub open spec fn caption_text(title: Seq<char>, what: Seq<char>) -> Seq<char> {
    title + " \u{2014} "@ + what
}

/// Captions a screenshot: the page title, a dash and what the picture shows.
pub fn screenshot_caption(title: &str, what: &str) -> (c: String)
    ensures
        c@ == caption_text(title@, what@),
{
    let mut c = String::from_str(title);
    c.append(" \u{2014} ");
    c.append(what);
    c
}

/// The text of a required tool argument: present and not blank, or the error
/// naming the missing parameter.
pub open spec fn required_arg_text(value: Option<Seq<char>>, key: Seq<char>) -> Result<Seq<char>, Seq<char>> {
    match value {
        Some(v) => if trim(v).len() > 0 {
            Ok(v)
        } else {
            Err("Missing required parameter: "@ + key)
        },
        None => Err("Missing required parameter: "@ + key),
    }
}

/// Reads a required text argument of a tool call; `value` is the text at
/// `key`, if the argument holds text there.
pub fn required_arg(value: Option<&str>, key: &str) -> (r: Result<String, String>)
    ensures
        match r {
            Ok(v) => required_arg_text(opt_view(value), key@) == Ok::<Seq<char>, Seq<char>>(v@),
            Err(e) => required_arg_text(opt_view(value), key@) == Err::<Seq<char>, Seq<char>>(e@),
        },
{
    match value {
        Some(v) => {
            let t = trim_str(v);
            if t.as_str().unicode_len() > 0 {
                return Ok(String::from_str(v));
            }
        },
        None => {},
    }
    let mut e = String::from_str("Missing required parameter: ");
    e.append(key);
    Err(e)
}

/// Whether `s` begins with `prefix`.
pub open spec fn starts_with(s: Seq<char>, prefix: Seq<char>) -> bool {
    prefix.len() <= s.len() && s.take(prefix.len() as int) == prefix
}

/// `str::starts_with`.
pub fn has_prefix(s: &str, prefix: &str) -> (b: bool)
    ensures
        b == starts_with(s@, prefix@),
{
    let a = crate::text::chars_of(s);
    let p = crate::text::chars_of(prefix);
    if p.len() > a.len() {
        return false;
    }
    let mut i: usize = 0;
    while i < p.len()
        invariant
            i <= p@.len() <= a@.len(),
            a@ == s@,
            p@ == prefix@,
            forall|k: int| 0 <= k < i ==> a@[k] == p@[k],
        decreases p@.len() - i,
    {
        if a[i] != p[i] {
            assert(a@.take(p@.len() as int)[i as int] != p@[i as int]);
            return false;
        }
        i = i + 1;
    }
    assert(a@.take(p@.len() as int) =~= p@);
    true
}

/// The two resolved paths of a `copy_input` call, or the error it reports:
/// the source must lie under `inputs/`, the destination must not, and both
/// must resolve inside the workspace.
pub open spec fn copy_plan(dir: Seq<char>, source: Seq<char>, destination: Seq<char>) -> Result<(Seq<char>, Seq<char>), Seq<char>> {
    if !starts_with(source, "inputs/"@) {
        Err("source must start with \"inputs/\""@)
    } else if starts_with(destination, "inputs/"@) {
        Err("destination must not be inside \"inputs/\""@)
    } else {
        match resolved_path(dir, source) {
            Err(e) => Err(e),
            Ok(s) => match resolved_path(dir, destination) {
                Err(e) => Err(e),
                Ok(d) => Ok((s, d)),
            },
        }
    }
}

/// Checks and resolves the paths of a `copy_input` call.
pub fn copy_input_paths(workspace_dir: &str, source: &str, destination: &str) -> (r: Result<(String, String), String>)
    ensures
        match r {
            Ok(p) => copy_plan(workspace_dir@, source@, destination@) == Ok::<(Seq<char>, Seq<char>), Seq<char>>((p.0@, p.1@)),
            Err(e) => copy_plan(workspace_dir@, source@, destination@) == Err::<(Seq<char>, Seq<char>), Seq<char>>(e@),
        },
{
    if !has_prefix(source, "inputs/") {
        return Err(String::from_str("source must start with \"inputs/\""));
    }
    if has_prefix(destination, "inputs/") {
        return Err(String::from_str("destination must not be inside \"inputs/\""));
    }
    let s = match resolve_workspace_path(workspace_dir, source) {
        Ok(p) => p,
        Err(e) => return Err(e),
    };
    let d = match resolve_workspace_path(workspace_dir, destination) {
        Ok(p) => p,
        Err(e) => return Err(e),
    };
    Ok((s, d))
}

/// What the design agent's tools make of their text arguments: a required
/// argument is taken as given when it holds more than white space and refused
/// (`Missing required parameter: ` and its name) otherwise; a submitted title
/// or summary is kept trimmed when it is not blank and replaced by its default
/// otherwise; a run starts titled by its job when that title is not blank.
pub proof fn law_tool_arguments(value: Option<Seq<char>>, key: Seq<char>, arg: Option<Seq<char>>, default: Seq<char>, job_title: Option<String>)
    requires
        trim(default) == default,
    ensures
        required_arg_text(value, key) == if value is Some && trim(value->0).len() > 0 {
            Ok::<Seq<char>, Seq<char>>(value->0)
        } else {
            Err("Missing required parameter: "@ + key)
        },
        submitted_text(arg, default) == if arg is Some && trim(arg->0).len() > 0 { trim(arg->0) } else { default },
        non_blank_or(job_title, default) == if job_title is Some && trim(job_title->0@).len() > 0 { job_title->0@ } else { default },
{
}

/// A `copy_input` call copies from under `inputs/` to outside it: a source
/// elsewhere and a destination under `inputs/` are refused with their own
/// errors, checked in that order; otherwise both paths resolve inside the
/// workspace or the first that does not gives the error.
pub proof fn law_copy_input(dir: Seq<char>, source: Seq<char>, destination: Seq<char>)
    ensures
        !(source.len() >= 7 && source.take(7) == "inputs/"@) ==> copy_plan(dir, source, destination)
            == Err::<(Seq<char>, Seq<char>), Seq<char>>("source must start with \"inputs/\""@),
        (source.len() >= 7 && source.take(7) == "inputs/"@) && (destination.len() >= 7 && destination.take(7) == "inputs/"@)
            ==> copy_plan(dir, source, destination)
            == Err::<(Seq<char>, Seq<char>), Seq<char>>("destination must not be inside \"inputs/\""@),
        copy_plan(dir, source, destination) matches Ok(p) ==> {
            &&& resolved_path(dir, source) == Ok::<Seq<char>, Seq<char>>(p.0)
            &&& resolved_path(dir, destination) == Ok::<Seq<char>, Seq<char>>(p.1)
        },
{
    reveal_strlit("inputs/");
}

/// What `view_result` shows of the workspace's main files.
pub fn view_excerpts(html: &str, css: &str) -> (r: (String, String))
    ensures
        r.0@ == truncated_for_tool(html@, 2400),
        r.1@ == truncated_for_tool(css@, 1800),
{
    (truncate_for_tool(html, 2400), truncate_for_tool(css, 1800))
}


/// A stored storm run, as the library reads it.
pub struct StormRunRecord {
    pub id: u128,
    pub owner_user_id: u128,
    pub prompt: String,
    pub title: String,
    pub summary: String,
    pub assistant_summary: String,
    pub preview_url: String,
    pub submitted: bool,
    /// When the run was stored, in nanoseconds since the Unix epoch.
    pub created_at: i64,
    pub workspace_dir: String,
    pub parent_ids: Vec<u128>,
    pub session_id: Option<u128>,
    pub iterates_on_id: Option<u128>,
}

fn clone_ids(v: &Vec<u128>) -> (r: Vec<u128>)
    ensures
        r@ == v@,
{
    let mut r: Vec<u128> = Vec::new();
    let mut i: usize = 0;
    while i < v.len()
        invariant
            i <= v@.len(),
            r@ == v@.take(i as int),
        decreases v@.len() - i,
    {
        r.push(v[i]);
        assert(r@ == v@.take(i + 1));
        i = i + 1;
    }
    assert(v@.take(v@.len() as int) == v@);
    r
}

/// The record a finished storm run is stored as: the workspace's final state,
/// the agent's trimmed closing words, and the lineage of the generation.
pub fn finished_run_record(
    state: &WorkspaceRuntimeState,
    owner_user_id: u128,
    assistant_text: &str,
    input: &StormGenerationInput,
    created_at: i64,
) -> (r: StormRunRecord)
    ensures
        r.id == state.run_id,
        r.owner_user_id == owner_user_id,
        r.prompt@ == state.prompt@,
        r.title@ == state.title@,
        r.summary@ == state.summary@,
        r.assistant_summary@ == trim(assistant_text@),
        r.preview_url@ == state.preview_url@,
        r.submitted == state.submitted,
        r.created_at == created_at,
        r.workspace_dir@ == state.workspace_dir@,
        r.parent_ids@ == input.source_ids@,
        r.session_id == input.session_id,
        r.iterates_on_id == input.iterates_on_id,
{
    StormRunRecord {
        id: state.run_id,
        owner_user_id,
        prompt: state.prompt.clone(),
        title: state.title.clone(),
        summary: state.summary.clone(),
        assistant_summary: trim_str(assistant_text),
        preview_url: state.preview_url.clone(),
        submitted: state.submitted,
        created_at,
        workspace_dir: state.workspace_dir.clone(),
        parent_ids: clone_ids(&input.source_ids),
        session_id: input.session_id,
        iterates_on_id: input.iterates_on_id,
    }
}

impl StormRunRecord {
    /// What the prompts need of this run.
    pub fn brief(&self) -> (b: StormRunBrief)
        ensures
            b.id == self.id,
            b.title@ == self.title@,
            b.prompt@ == self.prompt@,
            b.summary@ == self.summary@,
    {
        StormRunBrief {
            id: self.id,
            title: self.title.clone(),
            prompt: self.prompt.clone(),
            summary: self.summary.clone(),
        }
    }
}
} // verus!
