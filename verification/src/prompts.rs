use vstd::prelude::*;
use crate::ids::{uuid_text, uuid_to_text};
use crate::snapshot::{SnapshotItem, StormRunBrief, rendered_snapshot, render_reference_snapshot_for_prompt, snapshot_items};
use crate::text::{eq_text, join_texts, truncate_for_log, truncated_for_log};
use crate::titles::{joined, lemma_joined_push};

verus! {

/// The agent roles that can run a storm generation.
#[derive(Clone, Copy, Debug, PartialEq, Eq)]
pub enum StormAgentRole {
    Root,
}

/// Where the LLM provider of a generation came from.
#[derive(Clone, Copy, Debug, PartialEq, Eq)]
pub enum ProviderSource {
    Stored,
    ServerFallback,
}

/// The identity paragraph a role's system prompt opens with.
pub open spec fn role_identity(role: StormAgentRole) -> Seq<char> {
    match role {
        StormAgentRole::Root => "You are Design Storm, an AI art-direction runtime that creates bold design language documents as static HTML artifacts."@,
    }
}

impl StormAgentRole {
    /// The role's name in logs and traces.
    pub fn label(self) -> (r: &'static str)
        ensures
            r@ == "root"@,
    {
        "root"
    }

    /// The identity paragraph of the role's system prompt.
    pub fn prompt_identity(self) -> (r: &'static str)
        ensures
            r@ == role_identity(self),
    {
        match self {
            StormAgentRole::Root => "You are Design Storm, an AI art-direction runtime that creates bold design language documents as static HTML artifacts.",
        }
    }

    /// The model tier a role asks its provider for.
    pub fn model_tier(self) -> (r: &'static str)
        ensures
            r@ == "high"@,
    {
        match self {
            StormAgentRole::Root => "high",
        }
    }
}

/// The name under which a provider source is reported.
pub open spec fn source_label(source: ProviderSource) -> Seq<char> {
    match source {
        ProviderSource::Stored => "stored"@,
        ProviderSource::ServerFallback => "server_fallback"@,
    }
}

/// Reports where a provider came from.
pub fn provider_source_label(source: ProviderSource) -> (r: &'static str)
    ensures
        r@ == source_label(source),
{
    match source {
        ProviderSource::Stored => "stored",
        ProviderSource::ServerFallback => "server_fallback",
    }
}

/// The task text a role's agent receives for a seed prompt.
pub open spec fn agent_prompt(role: StormAgentRole, prompt: Seq<char>) -> Seq<char> {
    match role {
        StormAgentRole::Root => "Design a distinctive design-language document for this seed:\n\n"@ + prompt
            + "\n\nRequirements:\n- produce a full static HTML artifact in the workspace\n- use index.html and styles.css as the primary files\n- if web research helps, use search_web/fetch_url selectively\n- iterate yourself instead of delegating to other agents\n- render and inspect the artifact before finishing\n- an inputs/ directory may contain reference assets (images, fonts) \u{2014} use copy_input to include any you want in the output\n- call submit_result(title=..., summary=...) once the result is coherent"@,
    }
}

/// Wraps a seed prompt in the instructions of `role`.
pub fn compose_agent_prompt(role: StormAgentRole, prompt: String) -> (r: String)
    ensures
        r@ == agent_prompt(role, prompt@),
{
    match role {
        StormAgentRole::Root => {
            let mut out = String::from_str("Design a distinctive design-language document for this seed:\n\n");
            out.append(prompt.as_str());
            out.append("\n\nRequirements:\n- produce a full static HTML artifact in the workspace\n- use index.html and styles.css as the primary files\n- if web research helps, use search_web/fetch_url selectively\n- iterate yourself instead of delegating to other agents\n- render and inspect the artifact before finishing\n- an inputs/ directory may contain reference assets (images, fonts) \u{2014} use copy_input to include any you want in the output\n- call submit_result(title=..., summary=...) once the result is coherent");
            out
        },
    }
}


/// The sections of an agent's system prompt that a run may override.
#[derive(Clone, Copy, Debug, PartialEq, Eq)]
pub enum PromptSectionName {
    Identity,
    Personality,
    ExecutionContract,
    ToolAccess,
    Guidelines,
    ErrorRecovery,
    Memory,
    MemoryApi,
    Builtins,
}

/// How an override treats its section.
#[derive(Clone, Copy, Debug, PartialEq, Eq)]
pub enum PromptOverrideMode {
    Replace,
    Disable,
}

/// One override of a system-prompt section.
pub struct PromptSectionOverride {
    pub section: PromptSectionName,
    pub mode: PromptOverrideMode,
    pub content: String,
}

/// An override as plain values.
pub open spec fn override_view(o: PromptSectionOverride) -> (PromptSectionName, PromptOverrideMode, Seq<char>) {
    (o.section, o.mode, o.content@)
}

/// The overrides as plain values, in order.
pub open spec fn overrides_view(os: Seq<PromptSectionOverride>) -> Seq<(PromptSectionName, PromptOverrideMode, Seq<char>)> {
    os.map_values(|o: PromptSectionOverride| override_view(o))
}

/// The system-prompt overrides of a design agent of `role`.
pub open spec fn design_overrides(role: StormAgentRole) -> Seq<(PromptSectionName, PromptOverrideMode, Seq<char>)> {
    seq![
        (PromptSectionName::Identity, PromptOverrideMode::Replace, role_identity(role)),
        (PromptSectionName::Personality, PromptOverrideMode::Replace, "Be specific, visually opinionated, and economical. Avoid generic startup aesthetics. Prefer clear design rules, sharp contrast, and deliberate composition."@),
        (PromptSectionName::ExecutionContract, PromptOverrideMode::Replace, "Work only inside the provided artifact workspace. Use the workspace tools to inspect and edit files, use render/view tools to verify the output, and call submit_result before you finish whenever you have a viable artifact."@),
        (PromptSectionName::ToolAccess, PromptOverrideMode::Replace, "Your tools are intentionally narrow. There is no shell, no host filesystem access, and no subagent system. Every change must happen through the workspace, web, render, and submit tools."@),
        (PromptSectionName::Guidelines, PromptOverrideMode::Replace, "Generate static HTML that feels authored. Build a design-language page, not a CRUD app. Keep assets self-contained, make type and spacing choices legible, and use submit_result only after the preview is coherent."@),
        (PromptSectionName::ErrorRecovery, PromptOverrideMode::Replace, "If a tool call fails, inspect the workspace, fix the cause, and continue. If the preview is weak, iterate instead of explaining why it would be weak."@),
        (PromptSectionName::Memory, PromptOverrideMode::Disable, Seq::<char>::empty()),
        (PromptSectionName::MemoryApi, PromptOverrideMode::Disable, Seq::<char>::empty()),
        (PromptSectionName::Builtins, PromptOverrideMode::Disable, Seq::<char>::empty()),
    ]
}

/// The system-prompt overrides of the session director agent.
pub open spec fn session_overrides() -> Seq<(PromptSectionName, PromptOverrideMode, Seq<char>)> {
    seq![
        (PromptSectionName::Identity, PromptOverrideMode::Replace, "You are Design Storm Director, a chat-forward design agent that helps steer a session and can queue async design jobs."@),
        (PromptSectionName::Personality, PromptOverrideMode::Replace, "Be direct, visually literate, and concise. Prefer concrete design language over generic product phrasing."@),
        (PromptSectionName::ExecutionContract, PromptOverrideMode::Replace, "Either answer conversationally, use read-only tools to inspect session context, or call make_design exactly once when the user is asking for designs to be made, refined, branched, or iterated. Keep the final reply short."@),
        (PromptSectionName::ToolAccess, PromptOverrideMode::Replace, "Your tools: list_designs (list session designs), list_references (list session references), view_design (screenshot a rendered design + metadata), view_reference (view a reference's content \u{2014} returns image data for image refs), make_design (queue a design job \u{2014} max one per turn). There is no shell, filesystem, or hidden workspace. Never invent reference handles."@),
        (PromptSectionName::Guidelines, PromptOverrideMode::Replace, "Use list_designs/list_references to explore session context when the user asks about existing work. Use view_design/view_reference to inspect specific items. Use the selected references when they matter. If the user is still discussing intent, respond without calling make_design. If the user wants output now, queue a job."@),
        (PromptSectionName::Memory, PromptOverrideMode::Disable, Seq::<char>::empty()),
        (PromptSectionName::MemoryApi, PromptOverrideMode::Disable, Seq::<char>::empty()),
        (PromptSectionName::Builtins, PromptOverrideMode::Disable, Seq::<char>::empty()),
    ]
}

/// Whether a section is one that the agents run without.
pub open spec fn section_switched_off(s: PromptSectionName) -> bool {
    s == PromptSectionName::Memory || s == PromptSectionName::MemoryApi || s == PromptSectionName::Builtins
}

/// The agents' system prompts: each overridden section appears once; the
/// memory, memory-API and built-ins sections are disabled with no text and
/// every other listed section is replaced by a text that is not empty; a
/// design agent overrides all nine sections, its identity being its role's
/// identity paragraph; the director overrides all but error recovery.
pub proof fn law_prompt_sections(role: StormAgentRole)
    ensures
        design_overrides(role).len() == 9,
        session_overrides().len() == 8,
        forall|i: int, j: int| 0 <= i < j < 9 ==> (#[trigger] design_overrides(role)[i]).0 != (#[trigger] design_overrides(role)[j]).0,
        forall|i: int, j: int| 0 <= i < j < 8 ==> (#[trigger] session_overrides()[i]).0 != (#[trigger] session_overrides()[j]).0,
        forall|i: int| 0 <= i < 9 ==> ((#[trigger] design_overrides(role)[i]).1 == PromptOverrideMode::Disable
            <==> section_switched_off(design_overrides(role)[i].0)),
        forall|i: int| 0 <= i < 8 ==> ((#[trigger] session_overrides()[i]).1 == PromptOverrideMode::Disable
            <==> section_switched_off(session_overrides()[i].0)),
        forall|i: int| 0 <= i < 9 ==> ((#[trigger] design_overrides(role)[i]).2.len() == 0
            <==> design_overrides(role)[i].1 == PromptOverrideMode::Disable),
        forall|i: int| 0 <= i < 8 ==> ((#[trigger] session_overrides()[i]).2.len() == 0
            <==> session_overrides()[i].1 == PromptOverrideMode::Disable),
        forall|i: int| 0 <= i < 8 ==> (#[trigger] session_overrides()[i]).0 != PromptSectionName::ErrorRecovery,
        design_overrides(role)[0] == (PromptSectionName::Identity, PromptOverrideMode::Replace, role_identity(role)),
        role_identity(StormAgentRole::Root) == "You are Design Storm, an AI art-direction runtime that creates bold design language documents as static HTML artifacts."@,
{
    reveal_strlit("You are Design Storm, an AI art-direction runtime that creates bold design language documents as static HTML artifacts.");
    reveal_strlit("Be specific, visually opinionated, and economical. Avoid generic startup aesthetics. Prefer clear design rules, sharp contrast, and deliberate composition.");
    reveal_strlit("Work only inside the provided artifact workspace. Use the workspace tools to inspect and edit files, use render/view tools to verify the output, and call submit_result before you finish whenever you have a viable artifact.");
    reveal_strlit("Your tools are intentionally narrow. There is no shell, no host filesystem access, and no subagent system. Every change must happen through the workspace, web, render, and submit tools.");
    reveal_strlit("Generate static HTML that feels authored. Build a design-language page, not a CRUD app. Keep assets self-contained, make type and spacing choices legible, and use submit_result only after the preview is coherent.");
    reveal_strlit("If a tool call fails, inspect the workspace, fix the cause, and continue. If the preview is weak, iterate instead of explaining why it would be weak.");
    reveal_strlit("You are Design Storm Director, a chat-forward design agent that helps steer a session and can queue async design jobs.");
    reveal_strlit("Be direct, visually literate, and concise. Prefer concrete design language over generic product phrasing.");
    reveal_strlit("Either answer conversationally, use read-only tools to inspect session context, or call make_design exactly once when the user is asking for designs to be made, refined, branched, or iterated. Keep the final reply short.");
    reveal_strlit("Your tools: list_designs (list session designs), list_references (list session references), view_design (screenshot a rendered design + metadata), view_reference (view a reference's content \u{2014} returns image data for image refs), make_design (queue a design job \u{2014} max one per turn). There is no shell, filesystem, or hidden workspace. Never invent reference handles.");
    reveal_strlit("Use list_designs/list_references to explore session context when the user asks about existing work. Use view_design/view_reference to inspect specific items. Use the selected references when they matter. If the user is still discussing intent, respond without calling make_design. If the user wants output now, queue a job.");
}

fn override_of(section: PromptSectionName, mode: PromptOverrideMode, content: &str) -> (o: PromptSectionOverride)
    ensures
        override_view(o) == (section, mode, content@),
{
    PromptSectionOverride { section, mode, content: String::from_str(content) }
}

fn disabled(section: PromptSectionName) -> (o: PromptSectionOverride)
    ensures
        override_view(o) == (section, PromptOverrideMode::Disable, Seq::<char>::empty()),
{
    PromptSectionOverride { section, mode: PromptOverrideMode::Disable, content: String::new() }
}

/// The system-prompt overrides of a design agent of `role`.
pub fn prompt_overrides(role: StormAgentRole) -> (r: Vec<PromptSectionOverride>)
    ensures
        overrides_view(r@) == design_overrides(role),
{
    let mut r: Vec<PromptSectionOverride> = Vec::new();
    r.push(override_of(PromptSectionName::Identity, PromptOverrideMode::Replace, role.prompt_identity()));
    r.push(override_of(PromptSectionName::Personality, PromptOverrideMode::Replace, "Be specific, visually opinionated, and economical. Avoid generic startup aesthetics. Prefer clear design rules, sharp contrast, and deliberate composition."));
    r.push(override_of(PromptSectionName::ExecutionContract, PromptOverrideMode::Replace, "Work only inside the provided artifact workspace. Use the workspace tools to inspect and edit files, use render/view tools to verify the output, and call submit_result before you finish whenever you have a viable artifact."));
    r.push(override_of(PromptSectionName::ToolAccess, PromptOverrideMode::Replace, "Your tools are intentionally narrow. There is no shell, no host filesystem access, and no subagent system. Every change must happen through the workspace, web, render, and submit tools."));
    r.push(override_of(PromptSectionName::Guidelines, PromptOverrideMode::Replace, "Generate static HTML that feels authored. Build a design-language page, not a CRUD app. Keep assets self-contained, make type and spacing choices legible, and use submit_result only after the preview is coherent."));
    r.push(override_of(PromptSectionName::ErrorRecovery, PromptOverrideMode::Replace, "If a tool call fails, inspect the workspace, fix the cause, and continue. If the preview is weak, iterate instead of explaining why it would be weak."));
    r.push(disabled(PromptSectionName::Memory));
    r.push(disabled(PromptSectionName::MemoryApi));
    r.push(disabled(PromptSectionName::Builtins));
    assert(overrides_view(r@) =~= design_overrides(role));
    r
}

/// The system-prompt overrides of the session director agent.
pub fn session_prompt_overrides() -> (r: Vec<PromptSectionOverride>)
    ensures
        overrides_view(r@) == session_overrides(),
{
    let mut r: Vec<PromptSectionOverride> = Vec::new();
    r.push(override_of(PromptSectionName::Identity, PromptOverrideMode::Replace, "You are Design Storm Director, a chat-forward design agent that helps steer a session and can queue async design jobs."));
    r.push(override_of(PromptSectionName::Personality, PromptOverrideMode::Replace, "Be direct, visually literate, and concise. Prefer concrete design language over generic product phrasing."));
    r.push(override_of(PromptSectionName::ExecutionContract, PromptOverrideMode::Replace, "Either answer conversationally, use read-only tools to inspect session context, or call make_design exactly once when the user is asking for designs to be made, refined, branched, or iterated. Keep the final reply short."));
    r.push(override_of(PromptSectionName::ToolAccess, PromptOverrideMode::Replace, "Your tools: list_designs (list session designs), list_references (list session references), view_design (screenshot a rendered design + metadata), view_reference (view a reference's content \u{2014} returns image data for image refs), make_design (queue a design job \u{2014} max one per turn). There is no shell, filesystem, or hidden workspace. Never invent reference handles."));
    r.push(override_of(PromptSectionName::Guidelines, PromptOverrideMode::Replace, "Use list_designs/list_references to explore session context when the user asks about existing work. Use view_design/view_reference to inspect specific items. Use the selected references when they matter. If the user is still discussing intent, respond without calling make_design. If the user wants output now, queue a job."));
    r.push(disabled(PromptSectionName::Memory));
    r.push(disabled(PromptSectionName::MemoryApi));
    r.push(disabled(PromptSectionName::Builtins));
    assert(overrides_view(r@) =~= session_overrides());
    r
}


/// One stored chat message of a design session.
pub struct SessionMessageRow {
    pub role: String,
    pub body: String,
    pub design_job_id: Option<u128>,
    /// When it was written, in nanoseconds since the Unix epoch.
    pub created_at: i64,
}

/// How a message appears in the director's transcript.
pub open spec fn transcript_line(m: SessionMessageRow) -> Seq<char> {
    (if m.role@ == "user"@ {
        "User"@
    } else {
        "Assistant"@
    }) + ": "@ + m.body@
}

/// The last twelve messages (all of them when there are fewer).
pub open spec fn recent<T>(ms: Seq<T>) -> Seq<T> {
    if ms.len() > 12 {
        ms.skip(ms.len() - 12)
    } else {
        ms
    }
}

/// The recent conversation as the director reads it.
pub open spec fn transcript(ms: Seq<SessionMessageRow>) -> Seq<char> {
    joined(recent(ms).map_values(|m: SessionMessageRow| transcript_line(m)), "\n\n"@)
}

/// The lines that tell the director which design a turn iterates on.
pub open spec fn iteration_note(p: Option<StormRunBrief>) -> Seq<char> {
    match p {
        Some(r) => "Default iteration target:\n- id: "@ + uuid_text(r.id) + "\n- title: "@ + r.title@ + "\n- summary: "@ + r.summary@
            + "\n- prompt: "@ + truncated_for_log(r.prompt@, 240),
        None => "Default iteration target: none"@,
    }
}

/// The task text of one director turn.
pub open spec fn session_agent_prompt(ms: Seq<SessionMessageRow>, items: Option<Seq<SnapshotItem>>, p: Option<StormRunBrief>) -> Seq<char> {
    "You are replying inside a single design session.\n\nRules:\n- If the user wants new output, variations, a branch, or a refinement, call make_design exactly once.\n- If the user is only discussing direction or asking a question, reply without calling tools.\n- Keep the final assistant reply to one or two sentences.\n\nSelected reference handles and details:\n"@
        + rendered_snapshot(items) + "\n\n"@ + iteration_note(p) + "\n\nRecent conversation:\n"@ + transcript(ms)
}

/// The director reads the conversation as `User: ` or `Assistant: ` lines
/// followed by each message's body, separated by blank lines, oldest first;
/// only the last twelve messages count.
pub proof fn law_director_transcript(earlier: Seq<SessionMessageRow>, ms: Seq<SessionMessageRow>, m: SessionMessageRow)
    ensures
        ms.len() >= 12 ==> transcript(earlier + ms) == transcript(ms),
        ms.len() < 12 ==> transcript(ms.push(m)) == (if ms.len() == 0 { Seq::empty() } else { transcript(ms) + "\n\n"@ })
            + (if m.role@ == "user"@ { "User"@ } else { "Assistant"@ }) + ": "@ + m.body@,
{
    let f = |x: SessionMessageRow| transcript_line(x);
    if ms.len() >= 12 {
        let all = earlier + ms;
        assert(all.skip(all.len() - 12) =~= ms.skip(ms.len() - 12));
        if ms.len() == 12 {
            assert(ms.skip(0) =~= ms);
            if earlier.len() == 0 {
                assert(all =~= ms);
            }
        }
    } else {
        assert(ms.push(m).map_values(f) =~= ms.map_values(f).push(transcript_line(m)));
        lemma_joined_push(ms.map_values(f), "\n\n"@, transcript_line(m));
        assert(transcript_line(m) + Seq::<char>::empty() =~= transcript_line(m));
        assert(Seq::<char>::empty() + transcript_line(m) =~= transcript_line(m));
        assert(transcript(ms) + "\n\n"@ + transcript_line(m) =~= transcript(ms) + "\n\n"@
            + (if m.role@ == "user"@ { "User"@ } else { "Assistant"@ }) + ": "@ + m.body@);
        assert(Seq::<char>::empty() + transcript_line(m) =~= Seq::<char>::empty()
            + (if m.role@ == "user"@ { "User"@ } else { "Assistant"@ }) + ": "@ + m.body@);
    }
}

/// The task of a director turn: the fixed rules, the selected references as
/// listed for the director, the design the turn iterates on (its id, title,
/// summary and prompt cut to 240 characters, or `none`), then the recent
/// conversation.
pub proof fn law_director_task(ms: Seq<SessionMessageRow>, items: Option<Seq<SnapshotItem>>, p: Option<StormRunBrief>)
    ensures
        session_agent_prompt(ms, items, p) == "You are replying inside a single design session.\n\nRules:\n- If the user wants new output, variations, a branch, or a refinement, call make_design exactly once.\n- If the user is only discussing direction or asking a question, reply without calling tools.\n- Keep the final assistant reply to one or two sentences.\n\nSelected reference handles and details:\n"@
            + rendered_snapshot(items) + "\n\n"@ + (match p {
                Some(r) => "Default iteration target:\n- id: "@ + uuid_text(r.id) + "\n- title: "@ + r.title@ + "\n- summary: "@
                    + r.summary@ + "\n- prompt: "@ + (if r.prompt@.len() <= 240 { r.prompt@ } else { r.prompt@.take(240) + "..."@ }),
                None => "Default iteration target: none"@,
            }) + "\n\nRecent conversation:\n"@ + transcript(ms),
{
    reveal_strlit("...");
}

fn transcript_entry(m: &SessionMessageRow) -> (r: String)
    ensures
        r@ == transcript_line(*m),
{
    let mut r = if eq_text(m.role.as_str(), "user") {
        String::from_str("User")
    } else {
        String::from_str("Assistant")
    };
    r.append(": ");
    r.append(m.body.as_str());
    r
}

/// Writes the task of a director turn: the rules, the selected references, the
/// design the turn iterates on and the last twelve messages.
pub fn compose_session_agent_prompt(
    messages: &Vec<SessionMessageRow>,
    reference_snapshot: &Option<Vec<SnapshotItem>>,
    iterates_on: Option<&StormRunBrief>,
) -> (r: String)
    ensures
        r@ == session_agent_prompt(messages@, snapshot_items(*reference_snapshot), match iterates_on {
            Some(p) => Some(*p),
            None => None,
        }),
{
    let n: usize = messages.len();
    let start: usize = if n > 12 { n - 12 } else { 0 };
    let ghost tail = recent(messages@);
    assert(tail == messages@.subrange(start as int, n as int));
    let mut lines: Vec<String> = Vec::new();
    let mut i: usize = start;
    while i < n
        invariant
            start <= i <= n == messages@.len(),
            tail == messages@.subrange(start as int, n as int),
            lines@.len() == i - start,
            lines.deep_view() == tail.take(i - start).map_values(|m: SessionMessageRow| transcript_line(m)),
        decreases n - i,
    {
        let line = transcript_entry(&messages[i]);
        lines.push(line);
        assert(tail.take(i + 1 - start) == tail.take(i - start).push(messages@[i as int]));
        assert(lines.deep_view()[i - start] == transcript_line(messages@[i as int]));
        assert(tail.take(i + 1 - start).map_values(|m: SessionMessageRow| transcript_line(m))
            =~= tail.take(i - start).map_values(|m: SessionMessageRow| transcript_line(m)).push(transcript_line(messages@[i as int])));
        assert(lines.deep_view() =~= tail.take(i + 1 - start).map_values(|m: SessionMessageRow| transcript_line(m)));
        i = i + 1;
    }
    assert(tail.take(n - start) == tail);
    let talk = join_texts(&lines, "\n\n");
    let references = render_reference_snapshot_for_prompt(reference_snapshot);
    let note = match iterates_on {
        Some(run) => {
            let mut t = String::from_str("Default iteration target:\n- id: ");
            let id = uuid_to_text(run.id);
            t.append(id.as_str());
            t.append("\n- title: ");
            t.append(run.title.as_str());
            t.append("\n- summary: ");
            t.append(run.summary.as_str());
            t.append("\n- prompt: ");
            let cut = truncate_for_log(run.prompt.as_str(), 240);
            t.append(cut.as_str());
            t
        },
        None => String::from_str("Default iteration target: none"),
    };
    let mut r = String::from_str("You are replying inside a single design session.\n\nRules:\n- If the user wants new output, variations, a branch, or a refinement, call make_design exactly once.\n- If the user is only discussing direction or asking a question, reply without calling tools.\n- Keep the final assistant reply to one or two sentences.\n\nSelected reference handles and details:\n");
    r.append(references.as_str());
    r.append("\n\n");
    r.append(note.as_str());
    r.append("\n\nRecent conversation:\n");
    r.append(talk.as_str());
    r
}
} // verus!
