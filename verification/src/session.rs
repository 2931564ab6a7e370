use vstd::prelude::*;
use crate::generation::StormGenerationInput;
use crate::snapshot::{SnapshotItem, StormRunBrief, assets_view, build_generation_prompt, generation_plan, snapshot_items};
use crate::handles::{normalize_reference_handles, normalized_handles};
use crate::ids::{law_uuid_text_reads_back, optional_uuid, parse_uuid, uuid_text, uuid_value};
use crate::storm::{opt_view, starts_with, has_prefix};
use crate::text::{decimal, eq_text, push_decimal, text_or, trim, trim_str, truncate_for_log, truncated_for_log};
use crate::titles::{derive_design_title, design_title};

verus! {

/// The design job a director agent asked for during one turn.
pub struct StudioMakeDesignCall {
    pub prompt: String,
    pub reference_handles: Vec<String>,
    pub iterates_on_id: Option<u128>,
    pub title: Option<String>,
}

/// The arguments of a `make_design` call as the tool reads them: each text
/// argument when it holds text, and the text items of `reference_ids` when it
/// is a list.
pub struct MakeDesignArgs {
    pub prompt: Option<String>,
    pub title: Option<String>,
    pub reference_ids: Option<Vec<String>>,
    pub iterates_on_id: Option<String>,
}

/// What the agent is told after a job was queued.
pub struct MakeDesignQueued {
    pub title: String,
    pub iterates_on_id: Option<u128>,
}

/// An optional string as plain text.
pub open spec fn opt_text(o: Option<String>) -> Option<Seq<char>> {
    match o {
        Some(s) => Some(s@),
        None => None,
    }
}

/// A queued call as plain values.
pub open spec fn call_view(c: StudioMakeDesignCall) -> (Seq<char>, Seq<Seq<char>>, Option<u128>, Option<Seq<char>>) {
    (c.prompt@, c.reference_handles.deep_view(), c.iterates_on_id, opt_text(c.title))
}

/// The trimmed text of an optional argument, when it is not blank.
pub open spec fn trimmed_arg(o: Option<Seq<char>>) -> Option<Seq<char>> {
    match o {
        Some(t) => if trim(t).len() > 0 {
            Some(trim(t))
        } else {
            None
        },
        None => None,
    }
}

/// The first of `hs` that is not among `allowed`.
pub open spec fn first_unknown(hs: Seq<Seq<char>>, allowed: Seq<Seq<char>>) -> Option<Seq<char>>
    decreases hs.len(),
{
    if hs.len() == 0 {
        None
    } else if !allowed.contains(hs[0]) {
        Some(hs[0])
    } else {
        first_unknown(hs.drop_first(), allowed)
    }
}

/// The handles a `make_design` call names: its own list, or all selected
/// handles when it gives none; normalized either way.
pub open spec fn requested_handles(reference_ids: Option<Seq<Seq<char>>>, allowed: Seq<Seq<char>>) -> Seq<Seq<char>> {
    normalized_handles(
        match reference_ids {
            Some(v) => v,
            None => allowed,
        },
    )
}

/// The iteration target of a `make_design` call: the id it gives, the turn's
/// default when it gives none, or the error for text that is not a UUID.
pub open spec fn requested_iteration(arg: Option<Seq<char>>, default: Option<u128>) -> Result<Option<u128>, Seq<char>> {
    match trimmed_arg(arg) {
        Some(t) => match uuid_value(t) {
            Some(v) => Ok(Some(v as u128)),
            None => Err("iterates_on_id must be a UUID string"@),
        },
        None => Ok(default),
    }
}

/// What a `make_design` call does, given whether a job was already queued in
/// this turn: the job it queues and the title and iteration target it reports,
/// or the error it answers with.
pub open spec fn make_design_outcome(
    already_queued: bool,
    allowed: Seq<Seq<char>>,
    default_iterates_on: Option<u128>,
    prompt: Option<Seq<char>>,
    title: Option<Seq<char>>,
    reference_ids: Option<Seq<Seq<char>>>,
    iterates_on: Option<Seq<char>>,
) -> Result<((Seq<char>, Seq<Seq<char>>, Option<u128>, Option<Seq<char>>), (Seq<char>, Option<u128>)), Seq<char>> {
    match trimmed_arg(prompt) {
        None => Err("Missing required parameter: prompt"@),
        Some(p) => {
            let handles = requested_handles(reference_ids, allowed);
            match first_unknown(handles, allowed) {
                Some(h) => Err("Unknown reference handle: "@ + h + ". Use only handles from the selected references."@),
                None => match requested_iteration(iterates_on, default_iterates_on) {
                    Err(e) => Err(e),
                    Ok(it) => if already_queued {
                        Err("make_design can only be called once per turn"@)
                    } else {
                        let t = trimmed_arg(title);
                        Ok(((p, handles, it, t), (
                            match t {
                                Some(x) => x,
                                None => design_title(p),
                            },
                            it,
                        )))
                    },
                },
            }
        },
    }
}

/// The arguments as plain values.
pub open spec fn reference_ids_view(o: Option<Vec<String>>) -> Option<Seq<Seq<char>>> {
    match o {
        Some(v) => Some(v.deep_view()),
        None => None,
    }
}

fn trimmed_arg_exec(o: &Option<String>) -> (r: Option<String>)
    ensures
        opt_text(r) == trimmed_arg(opt_text(*o)),
{
    match o {
        Some(s) => {
            let t = trim_str(s.as_str());
            if t.as_str().unicode_len() > 0 {
                Some(t)
            } else {
                None
            }
        },
        None => None,
    }
}

pub fn contains_text(xs: &Vec<String>, x: &String) -> (b: bool)
    ensures
        b == xs.deep_view().contains(x@),
{
    let mut i: usize = 0;
    while i < xs.len()
        invariant
            i <= xs@.len(),
            forall|k: int| 0 <= k < i ==> xs.deep_view()[k] != x@,
        decreases xs@.len() - i,
    {
        if xs[i] == *x {
            assert(xs.deep_view()[i as int] == x@);
            return true;
        }
        i = i + 1;
    }
    false
}

fn clone_texts(xs: &Vec<String>) -> (r: Vec<String>)
    ensures
        r.deep_view() == xs.deep_view(),
{
    let mut r: Vec<String> = Vec::new();
    let mut i: usize = 0;
    while i < xs.len()
        invariant
            i <= xs@.len(),
            r@.len() == i,
            r.deep_view() == xs.deep_view().take(i as int),
        decreases xs@.len() - i,
    {
        let c = xs[i].clone();
        r.push(c);
        assert(r@[i as int]@ == xs@[i as int]@);
        assert(r.deep_view() =~= xs.deep_view().take(i + 1));
        i = i + 1;
    }
    assert(xs.deep_view().take(xs@.len() as int) =~= xs.deep_view());
    r
}

/// Queues the design job an agent asks for with `make_design`. A turn queues
/// at most one job: while `pending` holds one, every call is refused and
/// `pending` is left as it was; a refused call never changes it.
pub fn make_design(
    pending: &mut Option<StudioMakeDesignCall>,
    allowed: &Vec<String>,
    default_iterates_on_id: Option<u128>,
    args: &MakeDesignArgs,
) -> (r: Result<MakeDesignQueued, String>)
    ensures
        ({
            let out = make_design_outcome(
                (*old(pending)) is Some,
                allowed.deep_view(),
                default_iterates_on_id,
                opt_text(args.prompt),
                opt_text(args.title),
                reference_ids_view(args.reference_ids),
                opt_text(args.iterates_on_id),
            );
            match r {
                Ok(q) => out is Ok && (*final(pending)) is Some && call_view((*final(pending))->0) == out->Ok_0.0
                    && (q.title@, q.iterates_on_id) == out->Ok_0.1,
                Err(e) => out == Err::<((Seq<char>, Seq<Seq<char>>, Option<u128>, Option<Seq<char>>), (Seq<char>, Option<u128>)), Seq<char>>(e@)
                    && *final(pending) == *old(pending),
            }
        }),
{
    let prompt = match trimmed_arg_exec(&args.prompt) {
        Some(p) => p,
        None => return Err(String::from_str("Missing required parameter: prompt")),
    };
    let title = trimmed_arg_exec(&args.title);
    let requested = match &args.reference_ids {
        Some(v) => clone_texts(v),
        None => clone_texts(allowed),
    };
    let handles = normalize_reference_handles(requested);
    let ghost hs = handles.deep_view();
    assert(hs == requested_handles(reference_ids_view(args.reference_ids), allowed.deep_view()));
    let mut i: usize = 0;
    assert(hs.skip(0) == hs);
    while i < handles.len()
        invariant
            i <= handles@.len(),
            hs == handles.deep_view(),
            hs == requested_handles(reference_ids_view(args.reference_ids), allowed.deep_view()),
            trimmed_arg(opt_text(args.prompt)) == Some(prompt@),
            first_unknown(hs, allowed.deep_view()) == first_unknown(hs.skip(i as int), allowed.deep_view()),
        decreases handles@.len() - i,
    {
        assert(hs.skip(i as int)[0] == handles@[i as int]@);
        assert(hs.skip(i as int).drop_first() == hs.skip(i + 1));
        if !contains_text(allowed, &handles[i]) {
            assert(first_unknown(hs.skip(i as int), allowed.deep_view()) == Some(handles@[i as int]@));
            let mut e = String::from_str("Unknown reference handle: ");
            e.append(handles[i].as_str());
            e.append(". Use only handles from the selected references.");
            return Err(e);
        }
        i = i + 1;
    }
    assert(hs.skip(i as int).len() == 0);
    let iterates_on_id = match &args.iterates_on_id {
        Some(v) => {
            let t = trim_str(v.as_str());
            if t.as_str().unicode_len() > 0 {
                match parse_uuid(t.as_str()) {
                    Some(id) => Some(id),
                    None => return Err(String::from_str("iterates_on_id must be a UUID string")),
                }
            } else {
                default_iterates_on_id
            }
        },
        None => default_iterates_on_id,
    };
    if pending.is_some() {
        return Err(String::from_str("make_design can only be called once per turn"));
    }
    let reported = match &title {
        Some(t) => t.clone(),
        None => derive_design_title(prompt.as_str()),
    };
    *pending = Some(StudioMakeDesignCall { prompt, reference_handles: handles, iterates_on_id, title });
    Ok(MakeDesignQueued { title: reported, iterates_on_id })
}

proof fn lemma_first_unknown_none(hs: Seq<Seq<char>>, allowed: Seq<Seq<char>>)
    requires
        first_unknown(hs, allowed) is None,
    ensures
        forall|k: int| 0 <= k < hs.len() ==> allowed.contains(#[trigger] hs[k]),
    decreases hs.len(),
{
    if hs.len() > 0 {
        lemma_first_unknown_none(hs.drop_first(), allowed);
        assert forall|k: int| 0 <= k < hs.len() implies allowed.contains(#[trigger] hs[k]) by {
            if k > 0 {
                assert(hs[k] == hs.drop_first()[k - 1]);
            }
        }
    }
}

/// A job queued by `make_design` refers only to selected references, and
/// names each of them once, trimmed.
pub proof fn law_queued_handles_are_selected(
    already_queued: bool,
    allowed: Seq<Seq<char>>,
    default_iterates_on: Option<u128>,
    prompt: Option<Seq<char>>,
    title: Option<Seq<char>>,
    reference_ids: Option<Seq<Seq<char>>>,
    iterates_on: Option<Seq<char>>,
)
    ensures
        make_design_outcome(already_queued, allowed, default_iterates_on, prompt, title, reference_ids, iterates_on) matches Ok(out)
            ==> {
            &&& forall|k: int| 0 <= k < out.0.1.len() ==> allowed.contains(#[trigger] out.0.1[k])
            &&& crate::handles::is_clean_handle_list(out.0.1)
        },
        already_queued ==> make_design_outcome(already_queued, allowed, default_iterates_on, prompt, title, reference_ids, iterates_on) is Err,
{
    let handles = requested_handles(reference_ids, allowed);
    if first_unknown(handles, allowed) is None {
        lemma_first_unknown_none(handles, allowed);
    }
    crate::handles::law_normalized_handles_clean(match reference_ids {
        Some(v) => v,
        None => allowed,
    });
}


/// A `make_design` call needs a prompt that is not blank, and then queues it
/// trimmed; it reports the trimmed title it was given, or a title taken from
/// the prompt when it was given none or a blank one; its iteration target is
/// the UUID it names, or the turn's default when it names none.
pub proof fn law_make_design_call(
    already_queued: bool,
    allowed: Seq<Seq<char>>,
    default_iterates_on: Option<u128>,
    prompt: Option<Seq<char>>,
    title: Option<Seq<char>>,
    reference_ids: Option<Seq<Seq<char>>>,
    iterates_on: Option<Seq<char>>,
)
    ensures
        (prompt is None || trim(prompt->0).len() == 0) ==> make_design_outcome(already_queued, allowed, default_iterates_on,
            prompt, title, reference_ids, iterates_on) == Err::<((Seq<char>, Seq<Seq<char>>, Option<u128>, Option<Seq<char>>), (Seq<char>, Option<u128>)), Seq<char>>("Missing required parameter: prompt"@),
        make_design_outcome(already_queued, allowed, default_iterates_on, prompt, title, reference_ids, iterates_on) matches Ok(out)
            ==> {
            &&& prompt is Some && out.0.0 == trim(prompt->0) && out.0.0.len() > 0
            &&& out.1.0 == if title is Some && trim(title->0).len() > 0 { trim(title->0) } else { design_title(trim(prompt->0)) }
            &&& out.0.3 == if title is Some && trim(title->0).len() > 0 { Some(trim(title->0)) } else { None }
            &&& out.1.1 == out.0.2
            &&& out.0.2 == if iterates_on is Some && trim(iterates_on->0).len() > 0 {
                Some(uuid_value(trim(iterates_on->0))->0 as u128)
            } else {
                default_iterates_on
            }
        },
{
}

/// How a chat turn is recorded: a message keeps its trimmed body, or counts
/// its images (`[1 image attached]`, `[n images attached]`) when the body is
/// blank, and is refused when it has neither; the director's reply is its own
/// trimmed words, or names the job it queued, or asks for more; the turn's
/// status names the queued job, or starts the reply (120 characters, `...`
/// marking a cut); a queued job is titled by the director when the title is
/// not blank, else from its prompt.
pub proof fn law_chat_turn(
    body: Seq<char>,
    images: nat,
    said: Seq<char>,
    queued: Option<Seq<char>>,
    reply: Seq<char>,
    title: Option<Seq<char>>,
    prompt: Seq<char>,
)
    ensures
        message_body(body, images) == if trim(body).len() > 0 {
            Ok::<Seq<char>, Seq<char>>(trim(body))
        } else if images == 0 {
            Err("Message body is required."@)
        } else {
            Ok("["@ + decimal(images) + " image"@ + (if images == 1 { Seq::<char>::empty() } else { "s"@ }) + " attached]"@)
        },
        assistant_reply(said, queued) == if trim(said).len() > 0 {
            trim(said)
        } else {
            match queued {
                Some(t) => "Queued \""@ + t + "\"."@,
                None => "Captured. Tell me when you want me to make designs from it."@,
            }
        },
        turn_status(queued, reply) == match queued {
            Some(t) => "Queued "@ + t + "."@,
            None => if reply.len() <= 120 { reply } else { reply.take(120) + "..."@ },
        },
        job_title(title, prompt) == if title is Some && trim(title->0).len() > 0 { title->0 } else { design_title(prompt) },
{
    reveal_strlit("...");
}

/// What a tool makes of a required UUID argument: the id, or the error for a
/// missing or blank value and for text that is not a UUID.
pub open spec fn uuid_arg(value: Option<Seq<char>>, key: Seq<char>) -> Result<u128, Seq<char>> {
    match trimmed_arg(value) {
        None => Err("Missing required parameter: "@ + key),
        Some(t) => match uuid_value(t) {
            Some(v) => Ok(v as u128),
            None => Err(key + " must be a valid UUID"@),
        },
    }
}

/// Reads the id argument of `view_design` or `view_reference`.
pub fn required_uuid_arg(value: Option<&str>, key: &str) -> (r: Result<u128, String>)
    ensures
        match r {
            Ok(id) => uuid_arg(opt_view(value), key@) == Ok::<u128, Seq<char>>(id),
            Err(e) => uuid_arg(opt_view(value), key@) == Err::<u128, Seq<char>>(e@),
        },
{
    let t = match value {
        Some(v) => trim_str(v),
        None => String::new(),
    };
    if t.as_str().unicode_len() == 0 {
        let mut e = String::from_str("Missing required parameter: ");
        e.append(key);
        return Err(e);
    }
    match parse_uuid(t.as_str()) {
        Some(id) => Ok(id),
        None => {
            let mut e = String::from_str(key);
            e.append(" must be a valid UUID");
            Err(e)
        },
    }
}

/// How `view_reference` treats a reference's image.
pub enum ReferenceImagePlan {
    /// Not an image with a stored asset: the metadata is the whole answer.
    MetadataOnly,
    /// Try to load the asset and return it with the given media type.
    Load { asset_id: u128, mime: String },
    /// The asset cannot be loaded; the answer carries a note saying so.
    Unavailable,
}

/// The plan for a reference of `kind` whose content names `asset_id` and
/// `content_type` (each when it holds text).
pub open spec fn image_plan(kind: Seq<char>, asset_id: Option<Seq<char>>, content_type: Option<Seq<char>>) -> (int, u128, Seq<char>) {
    if kind != "image"@ {
        (0, 0, Seq::empty())
    } else {
        match asset_id {
            None => (0, 0, Seq::empty()),
            Some(a) => match uuid_value(a) {
                Some(v) => (1, v as u128, match content_type {
                    Some(t) => t,
                    None => "image/png"@,
                }),
                None => (2, 0, Seq::empty()),
            },
        }
    }
}

/// A plan as plain values: its variant number, the asset id and the media type.
pub open spec fn plan_view(p: ReferenceImagePlan) -> (int, u128, Seq<char>) {
    match p {
        ReferenceImagePlan::MetadataOnly => (0, 0, Seq::empty()),
        ReferenceImagePlan::Load { asset_id, mime } => (1, asset_id, mime@),
        ReferenceImagePlan::Unavailable => (2, 0, Seq::empty()),
    }
}

/// Decides whether `view_reference` should load an image asset.
pub fn reference_image_plan(kind: &str, asset_id: Option<&str>, content_type: Option<&str>) -> (p: ReferenceImagePlan)
    ensures
        plan_view(p) == image_plan(kind@, opt_view(asset_id), opt_view(content_type)),
{
    if !eq_text(kind, "image") {
        return ReferenceImagePlan::MetadataOnly;
    }
    match asset_id {
        None => ReferenceImagePlan::MetadataOnly,
        Some(a) => match parse_uuid(a) {
            Some(id) => {
                let mime = match content_type {
                    Some(t) => String::from_str(t),
                    None => String::from_str("image/png"),
                };
                ReferenceImagePlan::Load { asset_id: id, mime }
            },
            None => ReferenceImagePlan::Unavailable,
        },
    }
}

/// What a chat message is stored as: its trimmed body, or a line counting the
/// attached images when the body is blank; refused when it has neither.
pub open spec fn message_body(body: Seq<char>, images: nat) -> Result<Seq<char>, Seq<char>> {
    if trim(body).len() > 0 {
        Ok(trim(body))
    } else if images == 0 {
        Err("Message body is required."@)
    } else {
        Ok("["@ + decimal(images) + " image"@ + (if images == 1 {
            Seq::<char>::empty()
        } else {
            "s"@
        }) + " attached]"@)
    }
}

/// The body under which a chat message is stored.
pub fn session_message_body(body: &str, image_count: usize) -> (r: Result<String, String>)
    ensures
        match r {
            Ok(b) => message_body(body@, image_count as nat) == Ok::<Seq<char>, Seq<char>>(b@),
            Err(e) => message_body(body@, image_count as nat) == Err::<Seq<char>, Seq<char>>(e@),
        },
{
    let t = trim_str(body);
    if t.as_str().unicode_len() > 0 {
        return Ok(t);
    }
    if image_count == 0 {
        return Err(String::from_str("Message body is required."));
    }
    let mut b = String::from_str("[");
    push_decimal(&mut b, image_count as u64);
    b.append(" image");
    if image_count != 1 {
        b.append("s");
    } else {
        assert(b@ + Seq::<char>::empty() == b@);
    }
    b.append(" attached]");
    Ok(b)
}

/// Whether a session still has the title it was created with, and so takes
/// its first message's title.
pub fn keeps_default_title(title: &str) -> (b: bool)
    ensures
        b == (title@ == "Untitled Session"@),
{
    eq_text(title, "Untitled Session")
}

/// What the director answers in the chat: its own words, or a line about the
/// queued job when it said nothing.
pub open spec fn assistant_reply(said: Seq<char>, queued_title: Option<Seq<char>>) -> Seq<char> {
    if trim(said).len() > 0 {
        trim(said)
    } else {
        match queued_title {
            Some(t) => "Queued \""@ + t + "\"."@,
            None => "Captured. Tell me when you want me to make designs from it."@,
        }
    }
}

/// The chat message of a director turn.
pub fn assistant_message(said: &str, queued_title: Option<&str>) -> (m: String)
    ensures
        m@ == assistant_reply(said@, opt_view(queued_title)),
{
    let t = trim_str(said);
    if t.as_str().unicode_len() > 0 {
        return t;
    }
    match queued_title {
        Some(title) => {
            let mut m = String::from_str("Queued \"");
            m.append(title);
            m.append("\".");
            m
        },
        None => String::from_str("Captured. Tell me when you want me to make designs from it."),
    }
}

/// The short status a chat turn reports: the queued job, or the start of the
/// director's reply.
pub open spec fn turn_status(queued_title: Option<Seq<char>>, reply: Seq<char>) -> Seq<char> {
    match queued_title {
        Some(t) => "Queued "@ + t + "."@,
        None => truncated_for_log(reply, 120),
    }
}

/// The status line of a chat turn.
pub fn turn_status_text(queued_title: Option<&str>, reply: &str) -> (s: String)
    ensures
        s@ == turn_status(opt_view(queued_title), reply@),
{
    match queued_title {
        Some(t) => {
            let mut s = String::from_str("Queued ");
            s.append(t);
            s.append(".");
            s
        },
        None => truncate_for_log(reply, 120),
    }
}

/// The title of a queued job: the one the director gave, when not blank, or
/// one taken from the prompt.
pub open spec fn job_title(title: Option<Seq<char>>, prompt: Seq<char>) -> Seq<char> {
    match title {
        Some(t) => if trim(t).len() > 0 {
            t
        } else {
            design_title(prompt)
        },
        None => design_title(prompt),
    }
}

/// Titles the job a director queued.
pub fn design_job_title(call: &StudioMakeDesignCall) -> (t: String)
    ensures
        t@ == job_title(opt_text(call.title), call.prompt@),
{
    match &call.title {
        Some(t) => {
            let trimmed = trim_str(t.as_str());
            if trimmed.as_str().unicode_len() > 0 {
                return t.clone();
            }
        },
        None => {},
    }
    derive_design_title(call.prompt.as_str())
}

/// A reference handle of a chat turn: a design of the user or a stored reference.
#[derive(Clone, Copy, Debug, PartialEq, Eq)]
pub enum ReferenceHandle {
    Design(u128),
    Reference(u128),
}

/// How a handle is read: `design:` or `ref:` and a UUID; anything else is refused.
pub open spec fn handle_kind(h: Seq<char>) -> Result<ReferenceHandle, Seq<char>> {
    if starts_with(h, "design:"@) {
        match uuid_value(h.skip(7)) {
            Some(v) => Ok(ReferenceHandle::Design(v as u128)),
            None => Err("Invalid design reference."@),
        }
    } else if starts_with(h, "ref:"@) {
        match uuid_value(h.skip(4)) {
            Some(v) => Ok(ReferenceHandle::Reference(v as u128)),
            None => Err("Invalid reference handle."@),
        }
    } else {
        Err("Unknown reference handle."@)
    }
}

/// Reads a selected reference handle.
pub fn classify_reference_handle(handle: &str) -> (r: Result<ReferenceHandle, String>)
    ensures
        match r {
            Ok(h) => handle_kind(handle@) == Ok::<ReferenceHandle, Seq<char>>(h),
            Err(e) => handle_kind(handle@) == Err::<ReferenceHandle, Seq<char>>(e@),
        },
{
    proof {
        reveal_strlit("design:");
        reveal_strlit("ref:");
    }
    let chars = crate::text::chars_of(handle);
    if has_prefix(handle, "design:") {
        let rest = crate::text::string_of_range(&chars, 7, chars.len());
        assert(chars@.subrange(7, chars@.len() as int) == handle@.skip(7));
        return match parse_uuid(rest.as_str()) {
            Some(id) => Ok(ReferenceHandle::Design(id)),
            None => Err(String::from_str("Invalid design reference.")),
        };
    }
    if has_prefix(handle, "ref:") {
        let rest = crate::text::string_of_range(&chars, 4, chars.len());
        assert(chars@.subrange(4, chars@.len() as int) == handle@.skip(4));
        return match parse_uuid(rest.as_str()) {
            Some(id) => Ok(ReferenceHandle::Reference(id)),
            None => Err(String::from_str("Invalid reference handle.")),
        };
    }
    Err(String::from_str("Unknown reference handle."))
}

/// Whether a design job has already finished, so a worker leaves it alone.
pub fn job_is_finished(status: &str) -> (b: bool)
    ensures
        b == (status@ == "completed"@),
{
    eq_text(status, "completed")
}

/// A stored design job of a session.
pub struct DesignJobRow {
    pub id: u128,
    pub session_id: u128,
    pub status: String,
    pub prompt: String,
    pub title: String,
    pub iterates_on_id: Option<u128>,
    pub result_run_id: Option<u128>,
    pub reference_snapshot: Option<Vec<SnapshotItem>>,
    pub error: Option<String>,
    /// When it was queued, in nanoseconds since the Unix epoch.
    pub created_at: i64,
}

/// The part of a stored design job that a worker changes: its status, the
/// run it produced and its error.
pub open spec fn job_state(job: DesignJobRow) -> (Seq<char>, Option<u128>, Option<Seq<char>>) {
    (job.status@, job.result_run_id, opt_text(job.error))
}

/// Whether two stored jobs agree on everything a worker does not change.
pub open spec fn same_job(a: DesignJobRow, b: DesignJobRow) -> bool {
    &&& a.id == b.id
    &&& a.session_id == b.session_id
    &&& a.prompt@ == b.prompt@
    &&& a.title@ == b.title@
    &&& a.iterates_on_id == b.iterates_on_id
    &&& a.reference_snapshot == b.reference_snapshot
    &&& a.created_at == b.created_at
}

/// What a worker makes of a job it picks up: a job that does not exist or has
/// completed is left alone (`None`: nothing is written and nothing generated);
/// any other job is marked running with its error cleared.
pub open spec fn picked_state(s: Option<(Seq<char>, Option<u128>, Option<Seq<char>>)>) -> Option<(Seq<char>, Option<u128>, Option<Seq<char>>)> {
    match s {
        None => None,
        Some(s) => if s.0 == "completed"@ {
            None
        } else {
            Some(("running"@, s.1, None))
        },
    }
}

/// The state a job ends in: completed with the run its generation produced,
/// or failed with the generation's error.
pub open spec fn finished_state(s: (Seq<char>, Option<u128>, Option<Seq<char>>), outcome: Result<u128, Seq<char>>) -> (Seq<char>, Option<u128>, Option<Seq<char>>) {
    match outcome {
        Ok(run_id) => ("completed"@, Some(run_id), None),
        Err(e) => ("failed"@, s.1, Some(e)),
    }
}

/// Picks up a stored design job for a worker: `None` where the job is to be
/// left alone, else the job as it is stored once marked running.
pub fn pick_design_job(job: Option<DesignJobRow>) -> (r: Option<DesignJobRow>)
    ensures
        (match r {
            Some(x) => Some(job_state(x)),
            None => None,
        }) == picked_state(match job {
            Some(j) => Some(job_state(j)),
            None => None,
        }),
        r matches Some(x) ==> same_job(x, job->0),
{
    match job {
        None => None,
        Some(mut j) => {
            if job_is_finished(j.status.as_str()) {
                None
            } else {
                j.status = String::from_str("running");
                j.error = None;
                proof {
                    reveal_strlit("running");
                }
                Some(j)
            }
        },
    }
}

/// Records how a job's generation ended: completed with the run it produced,
/// or failed with its error.
pub fn finish_design_job(job: DesignJobRow, outcome: Result<u128, String>) -> (r: DesignJobRow)
    ensures
        job_state(r) == finished_state(job_state(job), match outcome {
            Ok(id) => Ok(id),
            Err(e) => Err(e@),
        }),
        same_job(r, job),
{
    let mut j = job;
    match outcome {
        Ok(run_id) => {
            j.status = String::from_str("completed");
            j.result_run_id = Some(run_id);
            j.error = None;
            proof {
                reveal_strlit("completed");
            }
        },
        Err(e) => {
            j.status = String::from_str("failed");
            j.error = Some(e);
            proof {
                reveal_strlit("failed");
            }
        },
    }
    j
}

/// A worker leaves alone a job that does not exist or has completed, so
/// running a job again once it has completed (for instance after an earlier
/// worker completed it) writes nothing and generates nothing.
pub proof fn law_completed_job_is_not_rerun(s: (Seq<char>, Option<u128>, Option<Seq<char>>), run_id: u128)
    ensures
        picked_state(None) is None,
        s.0 == "completed"@ ==> picked_state(Some(s)) is None,
        picked_state(Some(finished_state(s, Ok(run_id)))) is None,
{
}

/// The generation a design job runs: its prompt built with the job's
/// references and iteration target, in the job's session, titled after the job.
pub fn design_job_generation_input(job: &DesignJobRow, iterates_on: Option<&StormRunBrief>) -> (g: StormGenerationInput)
    ensures
        ({
            let plan = generation_plan(job.prompt@, snapshot_items(job.reference_snapshot), match iterates_on {
                Some(p) => Some(*p),
                None => None,
            });
            &&& g.prompt@ == plan.0
            &&& g.source_ids@ == plan.1
            &&& assets_view(g.asset_ids@) == plan.2
        }),
        g.draft_mode is None,
        g.session_id == Some(job.session_id),
        g.iterates_on_id == job.iterates_on_id,
        opt_text(g.fallback_title) == Some(job.title@),
{
    let (prompt, source_ids, asset_ids) = build_generation_prompt(job.prompt.as_str(), &job.reference_snapshot, iterates_on);
    StormGenerationInput {
        prompt,
        draft_mode: None,
        source_ids,
        asset_ids,
        session_id: Some(job.session_id),
        iterates_on_id: job.iterates_on_id,
        fallback_title: Some(job.title.clone()),
    }
}

proof fn lemma_uuid_text_is_trimmed(id: u128)
    ensures
        trim(uuid_text(id)) == uuid_text(id),
{
    let t = uuid_text(id);
    let h = crate::ids::hex32(id);
    assert(t[0] == h[0]);
    assert(t[35] == h[31]);
    assert(!crate::text::is_space(t[0]));
    assert(!crate::text::is_space(t.last()));
    assert(t.skip(0) == t);
    assert(t.take(t.len() as int) == t);
}

/// The UUIDs the studio writes into its pages (as `design:` and `ref:`
/// handles, and as the ids of designs) read back as the same design or
/// reference wherever a request or a tool call names them.
pub proof fn law_written_ids_read_back(id: u128, field: Seq<char>)
    ensures
        handle_kind("design:"@ + uuid_text(id)) == Ok::<ReferenceHandle, Seq<char>>(ReferenceHandle::Design(id)),
        handle_kind("ref:"@ + uuid_text(id)) == Ok::<ReferenceHandle, Seq<char>>(ReferenceHandle::Reference(id)),
        optional_uuid(Some(uuid_text(id)), field) == Ok::<Option<nat>, Seq<char>>(Some(id as nat)),
        uuid_arg(Some(uuid_text(id)), field) == Ok::<u128, Seq<char>>(id),
{
    law_uuid_text_reads_back(id);
    lemma_uuid_text_is_trimmed(id);
    reveal_strlit("design:");
    reveal_strlit("ref:");
    let t = uuid_text(id);
    let d = "design:"@ + t;
    let r = "ref:"@ + t;
    assert(d.take(7) =~= "design:"@);
    assert(d.skip(7) =~= t);
    assert(r.take(4) =~= "ref:"@);
    assert(r.skip(4) =~= t);
    assert(r.take(7)[0] == 'r');
    assert(!starts_with(r, "design:"@));
    assert(trim(t).len() > 0);
}
} // verus!
