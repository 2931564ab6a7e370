use vstd::prelude::*;
use crate::ids::{parse_uuid, uuid_value};
use crate::text::{eq_text, join_texts, text_or, text_or_default, trim, trim_str, truncate_for_log, truncated_for_log};
use crate::titles::{joined, lemma_joined_push};

verus! {

/// One selected reference as the prompts read it. Each field holds the text
/// stored under the matching key of the snapshot item (`content.body`,
/// `content.url` and `content.assetId` for the three `content_*` fields), and is
/// `None` where that key is missing or does not hold text.
pub struct SnapshotItem {
    pub kind: Option<String>,
    pub handle: Option<String>,
    pub id: Option<String>,
    pub title: Option<String>,
    pub summary: Option<String>,
    pub prompt: Option<String>,
    pub content_body: Option<String>,
    pub content_url: Option<String>,
    pub content_asset_id: Option<String>,
}

/// What the prompts need of an earlier design run.
pub struct StormRunBrief {
    pub id: u128,
    pub title: String,
    pub prompt: String,
    pub summary: String,
}

/// The items of a snapshot, or `None` when the stored snapshot is not a list.
pub open spec fn snapshot_items(snapshot: Option<Vec<SnapshotItem>>) -> Option<Seq<SnapshotItem>> {
    match snapshot {
        Some(v) => Some(v@),
        None => None,
    }
}

/// The text of an optional field, empty when it is absent.
pub open spec fn or_empty(o: Option<String>) -> Seq<char> {
    text_or(o, Seq::empty())
}

/// The kind of an item; `reference` when it names none.
pub open spec fn item_kind(it: SnapshotItem) -> Seq<char> {
    text_or(it.kind, "reference"@)
}

/// How one selected reference is listed for the session agent.
pub open spec fn rendered_item(it: SnapshotItem) -> Seq<char> {
    let kind = item_kind(it);
    let handle = or_empty(it.handle);
    let title = text_or(it.title, "Untitled"@);
    if kind == "design"@ {
        "- "@ + handle + " [design]\n  title: "@ + title + "\n  summary: "@ + or_empty(it.summary) + "\n  prompt: "@
            + truncated_for_log(or_empty(it.prompt), 240)
    } else if kind == "text"@ {
        "- "@ + handle + " [text]\n  title: "@ + title + "\n  body: "@ + truncated_for_log(or_empty(it.content_body), 240)
    } else if kind == "link"@ {
        "- "@ + handle + " [link]\n  title: "@ + title + "\n  url: "@ + or_empty(it.content_url) + "\n  note: "@
            + truncated_for_log(or_empty(it.content_body), 160)
    } else if kind == "image"@ {
        "- "@ + handle + " [image]\n  title: "@ + title + "\n  asset url: "@ + or_empty(it.content_url)
    } else {
        "- "@ + handle + " ["@ + kind + "] "@ + title
    }
}

/// The selected references as the session agent reads them: one entry per
/// item, separated by new lines, or `None` when nothing is selected.
pub open spec fn rendered_snapshot(items: Option<Seq<SnapshotItem>>) -> Seq<char> {
    match items {
        Some(xs) => if xs.len() == 0 {
            "None"@
        } else {
            joined(xs.map_values(|it: SnapshotItem| rendered_item(it)), "\n"@)
        },
        None => "None"@,
    }
}

fn field_or(o: &Option<String>, default: &str) -> (r: String)
    ensures
        r@ == text_or(*o, default@),
{
    text_or_default(o, default)
}

fn render_item(it: &SnapshotItem) -> (r: String)
    ensures
        r@ == rendered_item(*it),
{
    let kind = field_or(&it.kind, "reference");
    let handle = field_or(&it.handle, "");
    let title = field_or(&it.title, "Untitled");
    proof {
        reveal_strlit("");
    }
    let mut out = String::from_str("- ");
    out.append(handle.as_str());
    if eq_text(kind.as_str(), "design") {
        let summary = field_or(&it.summary, "");
        let prompt = field_or(&it.prompt, "");
        out.append(" [design]\n  title: ");
        out.append(title.as_str());
        out.append("\n  summary: ");
        out.append(summary.as_str());
        out.append("\n  prompt: ");
        let cut = truncate_for_log(prompt.as_str(), 240);
        out.append(cut.as_str());
    } else if eq_text(kind.as_str(), "text") {
        let body = field_or(&it.content_body, "");
        out.append(" [text]\n  title: ");
        out.append(title.as_str());
        out.append("\n  body: ");
        let cut = truncate_for_log(body.as_str(), 240);
        out.append(cut.as_str());
    } else if eq_text(kind.as_str(), "link") {
        let url = field_or(&it.content_url, "");
        let body = field_or(&it.content_body, "");
        out.append(" [link]\n  title: ");
        out.append(title.as_str());
        out.append("\n  url: ");
        out.append(url.as_str());
        out.append("\n  note: ");
        let cut = truncate_for_log(body.as_str(), 160);
        out.append(cut.as_str());
    } else if eq_text(kind.as_str(), "image") {
        let url = field_or(&it.content_url, "");
        out.append(" [image]\n  title: ");
        out.append(title.as_str());
        out.append("\n  asset url: ");
        out.append(url.as_str());
    } else {
        out.append(" [");
        out.append(kind.as_str());
        out.append("] ");
        out.append(title.as_str());
    }
    out
}

/// Lists the selected references of a session for its agent.
pub fn render_reference_snapshot_for_prompt(snapshot: &Option<Vec<SnapshotItem>>) -> (r: String)
    ensures
        r@ == rendered_snapshot(snapshot_items(*snapshot)),
{
    match snapshot {
        None => String::from_str("None"),
        Some(items) => {
            if items.len() == 0 {
                return String::from_str("None");
            }
            let mut parts: Vec<String> = Vec::new();
            let mut i: usize = 0;
            while i < items.len()
                invariant
                    i <= items@.len(),
                    parts.deep_view() == items@.take(i as int).map_values(|it: SnapshotItem| rendered_item(it)),
                decreases items@.len() - i,
            {
                let line = render_item(&items[i]);
                parts.push(line);
                assert(items@.take(i + 1).map_values(|it: SnapshotItem| rendered_item(it))
                    =~= items@.take(i as int).map_values(|it: SnapshotItem| rendered_item(it)).push(rendered_item(items@[i as int])));
                assert(parts.deep_view() =~= items@.take(i + 1).map_values(|it: SnapshotItem| rendered_item(it)));
                i = i + 1;
            }
            assert(items@.take(items@.len() as int) == items@);
            join_texts(&parts, "\n")
        },
    }
}


/// The id that `Uuid::parse_str` reads from an optional field.
pub open spec fn parsed_id(o: Option<String>) -> Option<u128> {
    match o {
        Some(s) => match uuid_value(s@) {
            Some(v) => Some(v as u128),
            None => None,
        },
        None => None,
    }
}

/// The section that presents the run being iterated on.
pub open spec fn iteration_section(p: StormRunBrief) -> Seq<char> {
    "Primary iteration target:\n- title: "@ + p.title@ + "\n- prompt: "@ + p.prompt@ + "\n- summary: "@ + p.summary@
}

/// The section one selected reference adds to a generation prompt; kinds
/// other than design, text, link and image add none.
pub open spec fn item_section(it: SnapshotItem) -> Option<Seq<char>> {
    let kind = item_kind(it);
    if kind == "design"@ {
        Some("- design "@ + text_or(it.title, "Untitled"@) + ": "@ + or_empty(it.handle) + "\n  summary: "@
            + or_empty(it.summary) + "\n  prompt: "@ + truncated_for_log(or_empty(it.prompt), 240))
    } else if kind == "text"@ {
        Some("- text note "@ + text_or(it.title, "Untitled"@) + ": "@ + or_empty(it.content_body))
    } else if kind == "link"@ {
        Some("- link "@ + text_or(it.title, "Untitled"@) + ": "@ + or_empty(it.content_url) + "\n  note: "@
            + or_empty(it.content_body))
    } else if kind == "image"@ {
        Some("- image reference "@ + text_or(it.title, "Image"@) + " available in inputs/ when useful"@)
    } else {
        None
    }
}

/// Sections, source design ids and input assets gathered so far.
pub type GenerationParts = (Seq<Seq<char>>, Seq<u128>, Seq<(u128, Seq<char>)>);

/// What one selected reference adds: its section; a design's id when it is a
/// UUID not listed yet; an image's asset id, with its title, when it is a UUID.
pub open spec fn generation_step(acc: GenerationParts, it: SnapshotItem) -> GenerationParts {
    let kind = item_kind(it);
    let sections = match item_section(it) {
        Some(t) => acc.0.push(t),
        None => acc.0,
    };
    let sources = if kind == "design"@ {
        match parsed_id(it.id) {
            Some(v) => if acc.1.contains(v) {
                acc.1
            } else {
                acc.1.push(v)
            },
            None => acc.1,
        }
    } else {
        acc.1
    };
    let assets = if kind == "image"@ {
        match parsed_id(it.content_asset_id) {
            Some(v) => acc.2.push((v, text_or(it.title, "Image"@))),
            None => acc.2,
        }
    } else {
        acc.2
    };
    (sections, sources, assets)
}

/// `generation_step` over `items`, in order, from `init`.
pub open spec fn generation_fold(init: GenerationParts, items: Seq<SnapshotItem>) -> GenerationParts
    decreases items.len(),
{
    if items.len() == 0 {
        init
    } else {
        generation_step(generation_fold(init, items.drop_last()), items.last())
    }
}

/// Where a generation prompt starts: the trimmed request, the iteration target
/// and its id when there is one, and the heading of the references when some
/// are selected.
pub open spec fn generation_start(user_prompt: Seq<char>, items: Option<Seq<SnapshotItem>>, parent: Option<StormRunBrief>) -> GenerationParts {
    let head = seq![trim(user_prompt)];
    let with_parent = match parent {
        Some(p) => head.push(iteration_section(p)),
        None => head,
    };
    let sections = match items {
        Some(xs) => if xs.len() > 0 {
            with_parent.push("Selected references:"@)
        } else {
            with_parent
        },
        None => with_parent,
    };
    let sources = match parent {
        Some(p) => seq![p.id],
        None => Seq::empty(),
    };
    (sections, sources, Seq::empty())
}

/// The generation prompt of a design job with the source design ids and the
/// input assets it brings along.
pub open spec fn generation_plan(user_prompt: Seq<char>, items: Option<Seq<SnapshotItem>>, parent: Option<StormRunBrief>) -> (Seq<char>, Seq<u128>, Seq<(u128, Seq<char>)>) {
    let xs = match items {
        Some(xs) => xs,
        None => Seq::empty(),
    };
    let acc = generation_fold(generation_start(user_prompt, items, parent), xs);
    (joined(acc.0, "\n\n"@), acc.1, acc.2)
}

/// The assets as plain values.
pub open spec fn assets_view(v: Seq<(u128, String)>) -> Seq<(u128, Seq<char>)> {
    v.map_values(|a: (u128, String)| (a.0, a.1@))
}

fn option_id(o: &Option<String>) -> (r: Option<u128>)
    ensures
        r == parsed_id(*o),
{
    match o {
        Some(s) => parse_uuid(s.as_str()),
        None => None,
    }
}

/// Whether `id` occurs in `ids`.
pub fn contains_id(ids: &Vec<u128>, id: u128) -> (b: bool)
    ensures
        b == ids@.contains(id),
{
    let mut i: usize = 0;
    while i < ids.len()
        invariant
            i <= ids@.len(),
            forall|k: int| 0 <= k < i ==> ids@[k] != id,
        decreases ids@.len() - i,
    {
        if ids[i] == id {
            assert(ids@[i as int] == id);
            return true;
        }
        i = i + 1;
    }
    false
}

fn item_section_text(it: &SnapshotItem, kind: &String) -> (r: Option<String>)
    requires
        kind@ == item_kind(*it),
    ensures
        match r {
            Some(t) => item_section(*it) == Some(t@),
            None => item_section(*it) is None,
        },
{
    proof {
        reveal_strlit("");
    }
    if eq_text(kind.as_str(), "design") {
        let mut out = String::from_str("- design ");
        let title = field_or(&it.title, "Untitled");
        out.append(title.as_str());
        out.append(": ");
        let handle = field_or(&it.handle, "");
        out.append(handle.as_str());
        out.append("\n  summary: ");
        let summary = field_or(&it.summary, "");
        out.append(summary.as_str());
        out.append("\n  prompt: ");
        let prompt = field_or(&it.prompt, "");
        let cut = truncate_for_log(prompt.as_str(), 240);
        out.append(cut.as_str());
        Some(out)
    } else if eq_text(kind.as_str(), "text") {
        let mut out = String::from_str("- text note ");
        let title = field_or(&it.title, "Untitled");
        out.append(title.as_str());
        out.append(": ");
        let body = field_or(&it.content_body, "");
        out.append(body.as_str());
        Some(out)
    } else if eq_text(kind.as_str(), "link") {
        let mut out = String::from_str("- link ");
        let title = field_or(&it.title, "Untitled");
        out.append(title.as_str());
        out.append(": ");
        let url = field_or(&it.content_url, "");
        out.append(url.as_str());
        out.append("\n  note: ");
        let body = field_or(&it.content_body, "");
        out.append(body.as_str());
        Some(out)
    } else if eq_text(kind.as_str(), "image") {
        let mut out = String::from_str("- image reference ");
        let title = field_or(&it.title, "Image");
        out.append(title.as_str());
        out.append(" available in inputs/ when useful");
        Some(out)
    } else {
        None
    }
}

/// Builds the prompt of a design job from the user's request, the selected
/// references and the run it iterates on; returns it with the ids of the
/// source designs (each once, the iteration target first) and the image assets
/// to copy into the workspace.
pub fn build_generation_prompt(
    user_prompt: &str,
    reference_snapshot: &Option<Vec<SnapshotItem>>,
    iterates_on: Option<&StormRunBrief>,
) -> (r: (String, Vec<u128>, Vec<(u128, String)>))
    ensures
        ({
            let plan = generation_plan(user_prompt@, snapshot_items(*reference_snapshot), match iterates_on {
                Some(p) => Some(*p),
                None => None,
            });
            &&& r.0@ == plan.0
            &&& r.1@ == plan.1
            &&& assets_view(r.2@) == plan.2
        }),
{
    let ghost parent: Option<StormRunBrief> = match iterates_on {
        Some(p) => Some(*p),
        None => None,
    };
    let ghost items_view = snapshot_items(*reference_snapshot);
    let mut sections: Vec<String> = Vec::new();
    sections.push(trim_str(user_prompt));
    let mut source_ids: Vec<u128> = Vec::new();
    let mut asset_ids: Vec<(u128, String)> = Vec::new();
    if let Some(p) = iterates_on {
        source_ids.push(p.id);
        let mut s = String::from_str("Primary iteration target:\n- title: ");
        s.append(p.title.as_str());
        s.append("\n- prompt: ");
        s.append(p.prompt.as_str());
        s.append("\n- summary: ");
        s.append(p.summary.as_str());
        sections.push(s);
    }
    let empty: Vec<SnapshotItem> = Vec::new();
    let items: &Vec<SnapshotItem> = match reference_snapshot {
        Some(xs) => xs,
        None => &empty,
    };
    if items.len() > 0 {
        sections.push(String::from_str("Selected references:"));
    }
    let ghost start = generation_start(user_prompt@, items_view, parent);
    assert(sections.deep_view() =~= start.0);
    assert(assets_view(asset_ids@) =~= start.2);
    let mut i: usize = 0;
    while i < items.len()
        invariant
            i <= items@.len(),
            ({
                let acc = generation_fold(start, items@.take(i as int));
                &&& sections.deep_view() == acc.0
                &&& source_ids@ == acc.1
                &&& assets_view(asset_ids@) == acc.2
            }),
        decreases items@.len() - i,
    {
        let it = &items[i];
        let ghost acc = generation_fold(start, items@.take(i as int));
        assert(items@.take(i + 1).drop_last() == items@.take(i as int));
        let kind = field_or(&it.kind, "reference");
        let section = item_section_text(it, &kind);
        match section {
            Some(t) => {
                sections.push(t);
            },
            None => {},
        }
        assert(sections.deep_view() =~= generation_step(acc, *it).0);
        if eq_text(kind.as_str(), "design") {
            match option_id(&it.id) {
                Some(id) => {
                    if !contains_id(&source_ids, id) {
                        source_ids.push(id);
                    }
                },
                None => {},
            }
        } else if eq_text(kind.as_str(), "image") {
            match option_id(&it.content_asset_id) {
                Some(id) => {
                    let title = field_or(&it.title, "Image");
                    asset_ids.push((id, title));
                    assert(assets_view(asset_ids@) =~= acc.2.push((id, text_or(it.title, "Image"@))));
                },
                None => {},
            }
        }
        proof {
            reveal_strlit("design");
            reveal_strlit("image");
            assert("design"@ != "image"@) by {
                assert("design"@[0] != "image"@[0]);
            }
            assert(items@.take(i + 1).last() == items@[i as int]);
            assert(generation_fold(start, items@.take(i + 1)) == generation_step(acc, items@[i as int]));
            assert(source_ids@ == generation_step(acc, *it).1);
            assert(assets_view(asset_ids@) == generation_step(acc, *it).2);
        }
        i = i + 1;
    }
    assert(items@.take(items@.len() as int) == items@);
    let prompt = join_texts(&sections, "\n\n");
    (prompt, source_ids, asset_ids)
}


proof fn lemma_fold_sources(init: GenerationParts, items: Seq<SnapshotItem>)
    requires
        init.1.no_duplicates(),
    ensures
        generation_fold(init, items).1.no_duplicates(),
        generation_fold(init, items).1.len() >= init.1.len(),
        generation_fold(init, items).1.take(init.1.len() as int) == init.1,
    decreases items.len(),
{
    if items.len() > 0 {
        lemma_fold_sources(init, items.drop_last());
        let acc = generation_fold(init, items.drop_last());
        let next = generation_fold(init, items);
        if next.1 != acc.1 {
            let v = next.1.last();
            assert(next.1 == acc.1.push(v));
            assert(!acc.1.contains(v));
            assert forall|a: int, b: int| 0 <= a < b < next.1.len() implies next.1[a] != next.1[b] by {
                if b == next.1.len() - 1 {
                    assert(acc.1[a] == next.1[a]);
                }
            }
            assert(next.1.take(init.1.len() as int) =~= acc.1.take(init.1.len() as int));
        }
    }
}

/// A design job names each of its source designs once, and the run it
/// iterates on comes first.
pub proof fn law_generation_sources_distinct(user_prompt: Seq<char>, items: Option<Seq<SnapshotItem>>, parent: Option<StormRunBrief>)
    ensures
        generation_plan(user_prompt, items, parent).1.no_duplicates(),
        parent matches Some(p) ==> {
            let ids = generation_plan(user_prompt, items, parent).1;
            ids.len() > 0 && ids[0] == p.id
        },
{
    let start = generation_start(user_prompt, items, parent);
    let xs = match items {
        Some(xs) => xs,
        None => Seq::empty(),
    };
    lemma_fold_sources(start, xs);
    if parent is Some {
        let ids = generation_fold(start, xs).1;
        assert(ids.take(1)[0] == ids[0]);
    }
}

proof fn lemma_fold_sections_grow(init: GenerationParts, items: Seq<SnapshotItem>)
    ensures
        generation_fold(init, items).0.len() >= init.0.len(),
    decreases items.len(),
{
    if items.len() > 0 {
        lemma_fold_sections_grow(init, items.drop_last());
    }
}

/// How a generation prompt begins: the trimmed request alone, followed by the
/// run being iterated on (its title, prompt and summary) when there is one.
pub proof fn law_generation_prompt_head(user_prompt: Seq<char>, parent: Option<StormRunBrief>)
    ensures
        generation_plan(user_prompt, None, parent).0 == generation_plan(user_prompt, Some(Seq::empty()), parent).0,
        generation_plan(user_prompt, None, parent).0 == match parent {
            None => trim(user_prompt),
            Some(p) => trim(user_prompt) + "\n\n"@ + "Primary iteration target:\n- title: "@ + p.title@ + "\n- prompt: "@
                + p.prompt@ + "\n- summary: "@ + p.summary@,
        },
{
    let head = seq![trim(user_prompt)];
    lemma_joined_push(head, "\n\n"@, trim(user_prompt));
    assert(Seq::<Seq<char>>::empty().push(trim(user_prompt)) == head);
    if let Some(p) = parent {
        lemma_joined_push(head, "\n\n"@, iteration_section(p));
    }
}

proof fn lemma_generation_prompt_push(
    user_prompt: Seq<char>,
    xs: Seq<SnapshotItem>,
    it: SnapshotItem,
    parent: Option<StormRunBrief>,
)
    ensures
        ({
            let before = generation_plan(user_prompt, Some(xs), parent).0;
            let head = if xs.len() == 0 { before + "\n\n"@ + "Selected references:"@ } else { before };
            generation_plan(user_prompt, Some(xs.push(it)), parent).0 == match item_section(it) {
                Some(t) => head + "\n\n"@ + t,
                None => head,
            }
        }),
{
    let ys = xs.push(it);
    let start0 = generation_start(user_prompt, Some(xs), parent);
    let start1 = generation_start(user_prompt, Some(ys), parent);
    assert(ys.drop_last() == xs);
    let acc1 = generation_fold(start1, xs);
    let acc0 = generation_fold(start0, xs);
    lemma_fold_sections_grow(start0, xs);
    lemma_fold_sections_grow(start1, xs);
    let sep = "\n\n"@;
    if xs.len() == 0 {
        assert(acc1.0 == acc0.0.push("Selected references:"@));
        lemma_joined_push(acc0.0, sep, "Selected references:"@);
    } else {
        assert(start1 == start0);
    }
    match item_section(it) {
        Some(t) => {
            lemma_joined_push(acc1.0, sep, t);
        },
        None => {},
    }
}

/// Each selected reference extends the generation prompt by its own section,
/// after a blank line (the first one after the heading `Selected references:`).
/// A design shows its title (or `Untitled`), its handle, its own summary and
/// its own prompt cut to 240 characters (`...` marking a cut); a text note its
/// title and body; a link its title, url and note; an image its title (or
/// `Image`); other kinds add nothing.
pub proof fn law_generation_prompt_sections(
    user_prompt: Seq<char>,
    xs: Seq<SnapshotItem>,
    it: SnapshotItem,
    parent: Option<StormRunBrief>,
)
    ensures
        ({
            let kind = match it.kind { Some(k) => k@, None => "reference"@ };
            let title = match it.title { Some(t) => t@, None => "Untitled"@ };
            let handle = match it.handle { Some(h) => h@, None => Seq::empty() };
            let summary = match it.summary { Some(t) => t@, None => Seq::empty() };
            let prompt = match it.prompt { Some(t) => t@, None => Seq::empty() };
            let body = match it.content_body { Some(t) => t@, None => Seq::empty() };
            let url = match it.content_url { Some(t) => t@, None => Seq::empty() };
            let cut = if prompt.len() <= 240 { prompt } else { prompt.take(240) + "..."@ };
            let before = generation_plan(user_prompt, Some(xs), parent).0;
            let head = if xs.len() == 0 { before + "\n\n"@ + "Selected references:"@ } else { before };
            generation_plan(user_prompt, Some(xs.push(it)), parent).0 == if kind == "design"@ {
                head + "\n\n"@ + "- design "@ + title + ": "@ + handle + "\n  summary: "@ + summary + "\n  prompt: "@ + cut
            } else if kind == "text"@ {
                head + "\n\n"@ + "- text note "@ + title + ": "@ + body
            } else if kind == "link"@ {
                head + "\n\n"@ + "- link "@ + title + ": "@ + url + "\n  note: "@ + body
            } else if kind == "image"@ {
                head + "\n\n"@ + "- image reference "@ + (match it.title { Some(t) => t@, None => "Image"@ })
                    + " available in inputs/ when useful"@
            } else {
                head
            }
        }),
{
    lemma_generation_prompt_push(user_prompt, xs, it, parent);
    let before = generation_plan(user_prompt, Some(xs), parent).0;
    let head = if xs.len() == 0 { before + "\n\n"@ + "Selected references:"@ } else { before };
    lemma_section_text(it, head);
}

proof fn lemma_section_text(it: SnapshotItem, head: Seq<char>)
    ensures
        ({
            let kind = match it.kind { Some(k) => k@, None => "reference"@ };
            let title = match it.title { Some(t) => t@, None => "Untitled"@ };
            let handle = match it.handle { Some(h) => h@, None => Seq::empty() };
            let summary = match it.summary { Some(t) => t@, None => Seq::empty() };
            let prompt = match it.prompt { Some(t) => t@, None => Seq::empty() };
            let body = match it.content_body { Some(t) => t@, None => Seq::empty() };
            let url = match it.content_url { Some(t) => t@, None => Seq::empty() };
            let cut = if prompt.len() <= 240 { prompt } else { prompt.take(240) + "..."@ };
            (match item_section(it) {
                Some(t) => head + "\n\n"@ + t,
                None => head,
            }) == if kind == "design"@ {
                head + "\n\n"@ + "- design "@ + title + ": "@ + handle + "\n  summary: "@ + summary + "\n  prompt: "@ + cut
            } else if kind == "text"@ {
                head + "\n\n"@ + "- text note "@ + title + ": "@ + body
            } else if kind == "link"@ {
                head + "\n\n"@ + "- link "@ + title + ": "@ + url + "\n  note: "@ + body
            } else if kind == "image"@ {
                head + "\n\n"@ + "- image reference "@ + (match it.title { Some(t) => t@, None => "Image"@ })
                    + " available in inputs/ when useful"@
            } else {
                head
            }
        }),
{
    let kind = item_kind(it);
    if kind == "design"@ {
        lemma_design_section(it, head);
    } else if kind == "text"@ {
        lemma_text_section(it, head);
    } else if kind == "link"@ {
        lemma_link_section(it, head);
    } else if kind == "image"@ {
        lemma_image_section(it, head);
    }
}

proof fn lemma_design_section(it: SnapshotItem, head: Seq<char>)
    requires
        item_kind(it) == "design"@,
    ensures
        item_section(it) == Some("- design "@ + text_or(it.title, "Untitled"@) + ": "@ + or_empty(it.handle) + "\n  summary: "@
            + or_empty(it.summary) + "\n  prompt: "@ + truncated_for_log(or_empty(it.prompt), 240)),
        head + "\n\n"@ + item_section(it)->0 == head + "\n\n"@ + "- design "@ + text_or(it.title, "Untitled"@) + ": "@
            + or_empty(it.handle) + "\n  summary: "@ + or_empty(it.summary) + "\n  prompt: "@
            + (if or_empty(it.prompt).len() <= 240 { or_empty(it.prompt) } else { or_empty(it.prompt).take(240) + "..."@ }),
{
    reveal_strlit("...");
    assert(head + "\n\n"@ + item_section(it)->0 =~= head + "\n\n"@ + "- design "@ + text_or(it.title, "Untitled"@) + ": "@
        + or_empty(it.handle) + "\n  summary: "@ + or_empty(it.summary) + "\n  prompt: "@
        + truncated_for_log(or_empty(it.prompt), 240));
}

proof fn lemma_text_section(it: SnapshotItem, head: Seq<char>)
    requires
        item_kind(it) == "text"@,
    ensures
        item_section(it) is Some,
        head + "\n\n"@ + item_section(it)->0 == head + "\n\n"@ + "- text note "@ + text_or(it.title, "Untitled"@) + ": "@
            + or_empty(it.content_body),
{
    reveal_strlit("design");
    reveal_strlit("text");
    assert("text"@.len() != "design"@.len());
    assert(head + "\n\n"@ + item_section(it)->0 =~= head + "\n\n"@ + "- text note "@ + text_or(it.title, "Untitled"@) + ": "@
        + or_empty(it.content_body));
}

proof fn lemma_link_section(it: SnapshotItem, head: Seq<char>)
    requires
        item_kind(it) == "link"@,
    ensures
        item_section(it) is Some,
        head + "\n\n"@ + item_section(it)->0 == head + "\n\n"@ + "- link "@ + text_or(it.title, "Untitled"@) + ": "@
            + or_empty(it.content_url) + "\n  note: "@ + or_empty(it.content_body),
{
    reveal_strlit("design");
    reveal_strlit("text");
    reveal_strlit("link");
    assert("link"@.len() != "design"@.len());
    assert("link"@[0] != "text"@[0]);
    assert(head + "\n\n"@ + item_section(it)->0 =~= head + "\n\n"@ + "- link "@ + text_or(it.title, "Untitled"@) + ": "@
        + or_empty(it.content_url) + "\n  note: "@ + or_empty(it.content_body));
}

proof fn lemma_image_section(it: SnapshotItem, head: Seq<char>)
    requires
        item_kind(it) == "image"@,
    ensures
        item_section(it) is Some,
        head + "\n\n"@ + item_section(it)->0 == head + "\n\n"@ + "- image reference "@ + text_or(it.title, "Image"@)
            + " available in inputs/ when useful"@,
{
    reveal_strlit("design");
    reveal_strlit("text");
    reveal_strlit("link");
    reveal_strlit("image");
    assert("image"@.len() != "design"@.len());
    assert("image"@.len() != "text"@.len());
    assert("image"@.len() != "link"@.len());
    assert(head + "\n\n"@ + item_section(it)->0 =~= head + "\n\n"@ + "- image reference "@ + text_or(it.title, "Image"@)
        + " available in inputs/ when useful"@);
}

/// How the session agent sees the selected references: `None` when there are
/// none, else one entry per reference on its own line. A design entry shows its
/// handle, title (or `Untitled`), its own summary and its own prompt cut to 240
/// characters; a text note its body cut to 240; a link its url and its note
/// (the body) cut to 160; an image its asset url; any other kind its kind and
/// title. A cut is marked by `...`.
pub proof fn law_listed_references(xs: Seq<SnapshotItem>, it: SnapshotItem)
    ensures
        rendered_snapshot(None) == "None"@,
        rendered_snapshot(Some(Seq::empty())) == "None"@,
        ({
            let kind = match it.kind { Some(k) => k@, None => "reference"@ };
            let title = match it.title { Some(t) => t@, None => "Untitled"@ };
            let handle = match it.handle { Some(h) => h@, None => Seq::empty() };
            let summary = match it.summary { Some(t) => t@, None => Seq::empty() };
            let prompt = match it.prompt { Some(t) => t@, None => Seq::empty() };
            let body = match it.content_body { Some(t) => t@, None => Seq::empty() };
            let url = match it.content_url { Some(t) => t@, None => Seq::empty() };
            let prompt_cut = if prompt.len() <= 240 { prompt } else { prompt.take(240) + "..."@ };
            let body_cut = if body.len() <= 240 { body } else { body.take(240) + "..."@ };
            let note_cut = if body.len() <= 160 { body } else { body.take(160) + "..."@ };
            let entry = if kind == "design"@ {
                "- "@ + handle + " [design]\n  title: "@ + title + "\n  summary: "@ + summary + "\n  prompt: "@ + prompt_cut
            } else if kind == "text"@ {
                "- "@ + handle + " [text]\n  title: "@ + title + "\n  body: "@ + body_cut
            } else if kind == "link"@ {
                "- "@ + handle + " [link]\n  title: "@ + title + "\n  url: "@ + url + "\n  note: "@ + note_cut
            } else if kind == "image"@ {
                "- "@ + handle + " [image]\n  title: "@ + title + "\n  asset url: "@ + url
            } else {
                "- "@ + handle + " ["@ + kind + "] "@ + title
            };
            rendered_snapshot(Some(xs.push(it))) == if xs.len() == 0 {
                entry
            } else {
                rendered_snapshot(Some(xs)) + "\n"@ + entry
            }
        }),
{
    reveal_strlit("...");
    let f = |i: SnapshotItem| rendered_item(i);
    assert(xs.push(it).map_values(f) =~= xs.map_values(f).push(rendered_item(it)));
    lemma_joined_push(xs.map_values(f), "\n"@, rendered_item(it));
}

proof fn lemma_fold_ignores_sections(a: GenerationParts, b: GenerationParts, items: Seq<SnapshotItem>)
    requires
        a.1 == b.1,
        a.2 == b.2,
    ensures
        generation_fold(a, items).1 == generation_fold(b, items).1,
        generation_fold(a, items).2 == generation_fold(b, items).2,
    decreases items.len(),
{
    if items.len() > 0 {
        lemma_fold_ignores_sections(a, b, items.drop_last());
    }
}

/// What each selected reference adds to the sources and assets of a design
/// job: a design whose id is a UUID adds that id unless it is listed already;
/// an image whose asset id is a UUID adds that asset with its title (or
/// `Image`); nothing else adds either.
pub proof fn law_generation_sources_and_assets(
    user_prompt: Seq<char>,
    xs: Seq<SnapshotItem>,
    it: SnapshotItem,
    parent: Option<StormRunBrief>,
)
    ensures
        ({
            let kind = match it.kind { Some(k) => k@, None => "reference"@ };
            let before = generation_plan(user_prompt, Some(xs), parent);
            let after = generation_plan(user_prompt, Some(xs.push(it)), parent);
            &&& after.1 == if kind == "design"@ && it.id is Some && uuid_value(it.id->0@) is Some {
                let v = uuid_value(it.id->0@)->0 as u128;
                if before.1.contains(v) { before.1 } else { before.1.push(v) }
            } else {
                before.1
            }
            &&& after.2 == if kind == "image"@ && it.content_asset_id is Some && uuid_value(it.content_asset_id->0@) is Some {
                before.2.push((uuid_value(it.content_asset_id->0@)->0 as u128, match it.title { Some(t) => t@, None => "Image"@ }))
            } else {
                before.2
            }
        }),
{
    let ys = xs.push(it);
    let start0 = generation_start(user_prompt, Some(xs), parent);
    let start1 = generation_start(user_prompt, Some(ys), parent);
    assert(ys.drop_last() == xs);
    lemma_fold_ignores_sections(start0, start1, xs);
}

} // verus!
