use vstd::prelude::*;
use crate::ids::{parse_uuid, uuid_text, uuid_to_text, uuid_value};
use crate::session::opt_text;
use crate::storm::{has_prefix, opt_view, starts_with};
use crate::text::{chars_of, decimal, eq_text, push_char, push_decimal, string_of_range, trim, trim_str};
use crate::titles::{normalize_session_title, session_title};
use crate::workspace::{dot, dot_dot, is_normal_part, is_seq, lemma_split_piece, normal_parts, split_slash};

verus! {

/// The largest upload the asset store takes, in bytes.
pub const MAX_ASSET_SIZE: usize = 10485760;

/// The media types an upload may have.
pub open spec fn allowed_asset_types() -> Seq<Seq<char>> {
    seq![
        "image/png"@,
        "image/jpeg"@,
        "image/webp"@,
        "image/svg+xml"@,
        "font/woff2"@,
        "font/ttf"@,
        "font/otf"@,
        "font/woff"@,
        "application/font-woff"@,
        "application/font-woff2"@,
        "application/x-font-ttf"@,
        "application/vnd.ms-opentype"@,
    ]
}

/// Whether an upload of this media type is accepted.
pub fn is_allowed_asset_type(content_type: &str) -> (b: bool)
    ensures
        b == allowed_asset_types().contains(content_type@),
{
    let allowed: Vec<&str> = vec![
        "image/png",
        "image/jpeg",
        "image/webp",
        "image/svg+xml",
        "font/woff2",
        "font/ttf",
        "font/otf",
        "font/woff",
        "application/font-woff",
        "application/font-woff2",
        "application/x-font-ttf",
        "application/vnd.ms-opentype",
    ];
    assert(allowed@.map_values(|s: &str| s@) =~= allowed_asset_types());
    let mut i: usize = 0;
    while i < allowed.len()
        invariant
            i <= allowed@.len(),
            allowed@.map_values(|s: &str| s@) == allowed_asset_types(),
            forall|k: int| 0 <= k < i ==> allowed_asset_types()[k] != content_type@,
        decreases allowed@.len() - i,
    {
        assert(allowed_asset_types()[i as int] == allowed@[i as int]@);
        if eq_text(allowed[i], content_type) {
            return true;
        }
        i = i + 1;
    }
    false
}

/// Why an upload is refused, if it is: its media type first, then its size.
pub open spec fn upload_refusal(content_type: Seq<char>, size: nat) -> Option<Seq<char>> {
    if !allowed_asset_types().contains(content_type) {
        Some("Unsupported file type: "@ + content_type)
    } else if size > MAX_ASSET_SIZE {
        Some("File too large ("@ + decimal(size) + " bytes). Maximum is 10485760 bytes."@)
    } else {
        None
    }
}

/// Checks an upload's media type and size.
pub fn check_upload(content_type: &str, size: usize) -> (r: Result<(), String>)
    ensures
        match r {
            Ok(()) => upload_refusal(content_type@, size as nat) is None,
            Err(e) => upload_refusal(content_type@, size as nat) == Some(e@),
        },
{
    if !is_allowed_asset_type(content_type) {
        let mut e = String::from_str("Unsupported file type: ");
        e.append(content_type);
        return Err(e);
    }
    if size > MAX_ASSET_SIZE {
        let mut e = String::from_str("File too large (");
        push_decimal(&mut e, size as u64);
        e.append(" bytes). Maximum is 10485760 bytes.");
        return Err(e);
    }
    Ok(())
}

/// An upload is accepted exactly when its media type is one of the twelve
/// image and font types and it holds at most 10485760 bytes; a wrong type is
/// reported first, naming the type, then a size over the limit, naming the size.
pub proof fn law_upload_checks(content_type: Seq<char>, size: nat)
    ensures
        upload_refusal(content_type, size) is None <==> (
            content_type == "image/png"@
            || content_type == "image/jpeg"@
            || content_type == "image/webp"@
            || content_type == "image/svg+xml"@
            || content_type == "font/woff2"@
            || content_type == "font/ttf"@
            || content_type == "font/otf"@
            || content_type == "font/woff"@
            || content_type == "application/font-woff"@
            || content_type == "application/font-woff2"@
            || content_type == "application/x-font-ttf"@
            || content_type == "application/vnd.ms-opentype"@
        ) && size <= 10485760,
        !(content_type == "image/png"@
            || content_type == "image/jpeg"@
            || content_type == "image/webp"@
            || content_type == "image/svg+xml"@
            || content_type == "font/woff2"@
            || content_type == "font/ttf"@
            || content_type == "font/otf"@
            || content_type == "font/woff"@
            || content_type == "application/font-woff"@
            || content_type == "application/font-woff2"@
            || content_type == "application/x-font-ttf"@
            || content_type == "application/vnd.ms-opentype"@) ==> upload_refusal(content_type, size) == Some("Unsupported file type: "@ + content_type),
        (content_type == "image/png"@
            || content_type == "image/jpeg"@
            || content_type == "image/webp"@
            || content_type == "image/svg+xml"@
            || content_type == "font/woff2"@
            || content_type == "font/ttf"@
            || content_type == "font/otf"@
            || content_type == "font/woff"@
            || content_type == "application/font-woff"@
            || content_type == "application/font-woff2"@
            || content_type == "application/x-font-ttf"@
            || content_type == "application/vnd.ms-opentype"@) && size > 10485760 ==> upload_refusal(content_type, size)
            == Some("File too large ("@ + decimal(size) + " bytes). Maximum is 10485760 bytes."@),
{
    let a = allowed_asset_types();
    if a.contains(content_type) {
        let i = choose|i: int| 0 <= i < a.len() && a[i] == content_type;
        assert(0 <= i < 12);
    }
    if content_type == "image/png"@ {
        assert(a[0] == content_type);
    }
    if content_type == "image/jpeg"@ {
        assert(a[1] == content_type);
    }
    if content_type == "image/webp"@ {
        assert(a[2] == content_type);
    }
    if content_type == "image/svg+xml"@ {
        assert(a[3] == content_type);
    }
    if content_type == "font/woff2"@ {
        assert(a[4] == content_type);
    }
    if content_type == "font/ttf"@ {
        assert(a[5] == content_type);
    }
    if content_type == "font/otf"@ {
        assert(a[6] == content_type);
    }
    if content_type == "font/woff"@ {
        assert(a[7] == content_type);
    }
    if content_type == "application/font-woff"@ {
        assert(a[8] == content_type);
    }
    if content_type == "application/font-woff2"@ {
        assert(a[9] == content_type);
    }
    if content_type == "application/x-font-ttf"@ {
        assert(a[10] == content_type);
    }
    if content_type == "application/vnd.ms-opentype"@ {
        assert(a[11] == content_type);
    }
}

/// A workspace file is archived under its relative name with every `\`
/// written as `/`, and files whose archive name starts with `inputs/` are
/// left out.
pub proof fn law_archive_entry(relative: Seq<char>)
    ensures
        ({
            let name = Seq::new(relative.len(), |i: int| if relative[i] == '\\' { '/' } else { relative[i] });
            archive_entry(relative) == if name.len() >= 7 && name.take(7) == "inputs/"@ { None } else { Some(name) }
        }),
{
    reveal_strlit("inputs/");
    let name = Seq::new(relative.len(), |i: int| if relative[i] == '\\' { '/' } else { relative[i] });
    assert(relative.map_values(|c: char| if c == '\\' { '/' } else { c }) =~= name);
}

/// A reference form is read by its trimmed kind, in any case: a text note
/// needs a body that is not blank and is titled by its title or else its
/// body; a link needs a url that is not blank and is titled by its title or
/// else its url; both keep the trimmed body; any other kind is refused.
pub proof fn law_reference_form(kind: Seq<char>, title: Option<Seq<char>>, body: Option<Seq<char>>, url: Option<Seq<char>>)
    ensures
        ({
            let k = lowercased(trim(kind));
            let b = trim(match body { Some(x) => x, None => Seq::empty() });
            let u = trim(match url { Some(x) => x, None => Seq::empty() });
            reference_draft(kind, title, body, url) == if k == "text"@ {
                if b.len() == 0 {
                    Err("Reference text is required."@)
                } else {
                    Ok((k, session_title(Some(match title { Some(t) => t, None => b })), b, None))
                }
            } else if k == "link"@ {
                if u.len() == 0 {
                    Err("Reference URL is required."@)
                } else {
                    Ok((k, session_title(Some(match title { Some(t) => t, None => u })), b, Some(u)))
                }
            } else {
                Err::<(Seq<char>, Seq<char>, Seq<char>, Option<Seq<char>>), Seq<char>>("Reference kind must be text or link."@)
            }
        }),
{
}

/// The key under which an upload is stored.
pub fn asset_storage_key(user_id: u128, asset_id: u128, file_name: &str) -> (key: String)
    ensures
        key@ == "assets/"@ + uuid_text(user_id) + "/"@ + uuid_text(asset_id) + "/"@ + file_name@,
{
    let mut key = String::from_str("assets/");
    let u = uuid_to_text(user_id);
    key.append(u.as_str());
    key.append("/");
    let a = uuid_to_text(asset_id);
    key.append(a.as_str());
    key.append("/");
    key.append(file_name);
    key
}

/// The address at which an upload is served.
pub fn asset_url(asset_id: u128, file_name: &str) -> (url: String)
    ensures
        url@ == "/assets/"@ + uuid_text(asset_id) + "/"@ + file_name@,
{
    let mut url = String::from_str("/assets/");
    let a = uuid_to_text(asset_id);
    url.append(a.as_str());
    url.append("/");
    url.append(file_name);
    url
}

/// The name of a workspace file in the downloadable archive, with `\`
/// written as `/`; files under `inputs/` stay out of the archive.
pub open spec fn archive_entry(relative: Seq<char>) -> Option<Seq<char>> {
    let name = relative.map_values(|c: char| if c == '\\' {
        '/'
    } else {
        c
    });
    if starts_with(name, "inputs/"@) {
        None
    } else {
        Some(name)
    }
}

/// Names a workspace file in the downloadable archive.
pub fn archive_entry_name(relative: &str) -> (r: Option<String>)
    ensures
        opt_text(r) == archive_entry(relative@),
{
    let chars = chars_of(relative);
    let mut name = String::new();
    let mut i: usize = 0;
    while i < chars.len()
        invariant
            i <= chars@.len(),
            chars@ == relative@,
            name@ == chars@.take(i as int).map_values(|c: char| if c == '\\' {
                '/'
            } else {
                c
            }),
        decreases chars@.len() - i,
    {
        let c = chars[i];
        push_char(&mut name, if c == '\\' { '/' } else { c });
        assert(chars@.take(i + 1) == chars@.take(i as int).push(c));
        i = i + 1;
    }
    assert(chars@.take(chars@.len() as int) == chars@);
    if has_prefix(name.as_str(), "inputs/") {
        None
    } else {
        Some(name)
    }
}

/// The header that makes a browser save a run's archive under its download name.
pub fn download_disposition(title: &str, run_id: u128) -> (h: String)
    ensures
        h@ == "attachment; filename=\""@ + crate::ids::download_name(title@, run_id) + "\""@,
{
    let mut h = String::from_str("attachment; filename=\"");
    let name = crate::ids::sanitize_download_name(title, run_id);
    h.append(name.as_str());
    h.append("\"");
    h
}

/// The session a page asks for: its `session` query value when that is a UUID.
pub fn requested_session_id(requested: Option<&str>) -> (r: Option<u128>)
    ensures
        match opt_view(requested) {
            Some(s) => match uuid_value(s) {
                Some(v) => r == Some(v as u128),
                None => r is None,
            },
            None => r is None,
        },
{
    match requested {
        Some(s) => parse_uuid(s),
        None => None,
    }
}

/// `str::to_lowercase`, the full Unicode lower-case mapping of `s`.
pub uninterp spec fn lowercased(s: Seq<char>) -> Seq<char>;

/// The lower-case form of an ASCII character: `A`..`Z` become `a`..`z`,
/// everything else stays.
pub open spec fn ascii_lower(c: char) -> char {
    if 'A' <= c && c <= 'Z' {
        ((c as u32) + 32) as char
    } else {
        c
    }
}

/// Whether every character of `s` is ASCII.
pub open spec fn all_ascii(s: Seq<char>) -> bool {
    forall|i: int| 0 <= i < s.len() ==> (#[trigger] s[i] as u32) < 128
}

/// `str::to_lowercase`. The contract names the result [`lowercased`], a
/// function of the text alone, and states what the documentation gives for
/// ASCII text, where the Unicode mapping agrees with `to_ascii_lowercase`:
/// each letter `A`..`Z` is lowered and every other character kept. The
/// Unicode tables for other characters are not stated.
#[verifier::external_body]
fn to_lowercase(s: &str) -> (r: String)
    ensures
        r@ == lowercased(s@),
        all_ascii(s@) ==> r@ == s@.map_values(|c: char| ascii_lower(c)),
{
    s.to_lowercase()
}

/// A reference a user adds to a session by hand, ready to be stored.
pub struct ReferenceDraft {
    pub kind: String,
    pub title: String,
    pub body: String,
    pub url: Option<String>,
}

/// What a reference form becomes: a text note or a link, titled by the form
/// or by its text, or the error that refuses it.
pub open spec fn reference_draft(
    kind: Seq<char>,
    title: Option<Seq<char>>,
    body: Option<Seq<char>>,
    url: Option<Seq<char>>,
) -> Result<(Seq<char>, Seq<char>, Seq<char>, Option<Seq<char>>), Seq<char>> {
    let k = lowercased(trim(kind));
    let b = trim(
        match body {
            Some(x) => x,
            None => Seq::empty(),
        },
    );
    if k == "text"@ {
        if b.len() == 0 {
            Err("Reference text is required."@)
        } else {
            Ok((k, session_title(Some(
                match title {
                    Some(t) => t,
                    None => b,
                },
            )), b, None))
        }
    } else if k == "link"@ {
        let u = trim(
            match url {
                Some(x) => x,
                None => Seq::empty(),
            },
        );
        if u.len() == 0 {
            Err("Reference URL is required."@)
        } else {
            Ok((k, session_title(Some(
                match title {
                    Some(t) => t,
                    None => u,
                },
            )), b, Some(u)))
        }
    } else {
        Err("Reference kind must be text or link."@)
    }
}

/// Reads a reference form.
pub fn draft_reference(kind: &str, title: Option<&str>, body: Option<&str>, url: Option<&str>) -> (r: Result<ReferenceDraft, String>)
    ensures
        match r {
            Ok(d) => reference_draft(kind@, opt_view(title), opt_view(body), opt_view(url))
                == Ok::<(Seq<char>, Seq<char>, Seq<char>, Option<Seq<char>>), Seq<char>>((d.kind@, d.title@, d.body@, opt_text(d.url))),
            Err(e) => reference_draft(kind@, opt_view(title), opt_view(body), opt_view(url))
                == Err::<(Seq<char>, Seq<char>, Seq<char>, Option<Seq<char>>), Seq<char>>(e@),
        },
{
    let trimmed_kind = trim_str(kind);
    let k = to_lowercase(trimmed_kind.as_str());
    let b = match body {
        Some(x) => trim_str(x),
        None => trim_str(""),
    };
    proof {
        reveal_strlit("");
        assert(""@ =~= Seq::<char>::empty());
    }
    if eq_text(k.as_str(), "text") {
        if b.as_str().unicode_len() == 0 {
            return Err(String::from_str("Reference text is required."));
        }
        let t = match title {
            Some(t) => normalize_session_title(Some(t)),
            None => normalize_session_title(Some(b.as_str())),
        };
        Ok(ReferenceDraft { kind: k, title: t, body: b, url: None })
    } else if eq_text(k.as_str(), "link") {
        let u = match url {
            Some(x) => trim_str(x),
            None => trim_str(""),
        };
        if u.as_str().unicode_len() == 0 {
            return Err(String::from_str("Reference URL is required."));
        }
        let t = match title {
            Some(t) => normalize_session_title(Some(t)),
            None => normalize_session_title(Some(u.as_str())),
        };
        Ok(ReferenceDraft { kind: k, title: t, body: b, url: Some(u) })
    } else {
        Err(String::from_str("Reference kind must be text or link."))
    }
}


/// `Path::file_name`: the last piece of `p` that names something, unless it
/// is `..`.
pub open spec fn path_file_name(p: Seq<char>) -> Option<Seq<char>> {
    let ps = normal_parts(split_slash(p));
    if ps.len() == 0 || ps.last() == dot_dot() {
        None
    } else {
        Some(ps.last())
    }
}

/// The position of the last `.` in `s`.
pub open spec fn last_dot(s: Seq<char>) -> Option<int>
    decreases s.len(),
{
    if s.len() == 0 {
        None
    } else if s.last() == '.' {
        Some(s.len() - 1)
    } else {
        last_dot(s.drop_last())
    }
}

/// `Path::file_stem` and `Path::extension` of a file name: split at the last
/// `.`, except that a name whose only dot leads it has no extension.
pub open spec fn stem_and_extension(name: Seq<char>) -> (Seq<char>, Option<Seq<char>>) {
    match last_dot(name) {
        None => (name, None),
        Some(i) => if i == 0 {
            (name, None)
        } else {
            (name.take(i), Some(name.skip(i + 1)))
        },
    }
}

/// The name under which an input asset is copied into a workspace: its file
/// name, or, when that is taken, the stem, `_`, the first eight characters of
/// the asset id and the extension.
pub open spec fn input_name(file_name: Seq<char>, asset_id: u128, used: Seq<Seq<char>>) -> Seq<char> {
    if !used.contains(file_name) {
        file_name
    } else {
        let short = uuid_text(asset_id).take(8);
        let (stem, ext) = match path_file_name(file_name) {
            Some(n) => {
                let se = stem_and_extension(n);
                (se.0, match se.1 {
                    Some(e) => e,
                    None => Seq::<char>::empty(),
                })
            },
            None => ("file"@, Seq::<char>::empty()),
        };
        if ext.len() == 0 {
            stem + "_"@ + short
        } else {
            stem + "_"@ + short + "."@ + ext
        }
    }
}

proof fn lemma_last_dot_exact(s: Seq<char>, i: int)
    requires
        -1 <= i < s.len(),
        i >= 0 ==> s[i] == '.',
        forall|k: int| i < k < s.len() ==> #[trigger] s[k] != '.',
    ensures
        i >= 0 ==> last_dot(s) == Some(i),
        i < 0 ==> last_dot(s) is None,
    decreases s.len(),
{
    if s.len() > 0 && s.len() - 1 != i {
        assert forall|k: int| i < k < s.len() - 1 implies #[trigger] s.drop_last()[k] != '.' by {
            assert(s.drop_last()[k] == s[k]);
        }
        if i >= 0 {
            assert(s.drop_last()[i] == s[i]);
        }
        lemma_last_dot_exact(s.drop_last(), i);
    }
}

/// The last piece of `s` that names something (`None` when there is none or
/// when it is `..`).
fn file_name_of(s: &Vec<char>) -> (r: Option<Vec<char>>)
    ensures
        match r {
            Some(v) => path_file_name(s@) == Some(v@),
            None => path_file_name(s@) is None,
        },
{
    let n: usize = s.len();
    let dot_v: Vec<char> = vec!['.'];
    let dot_dot_v: Vec<char> = vec!['.', '.'];
    let mut last: Option<(usize, usize)> = None;
    let mut i: usize = 0;
    let ghost mut done: Seq<Seq<char>> = Seq::empty();
    assert(s@.skip(0) == s@);
    loop
        invariant
            i <= n == s@.len(),
            dot_v@ == dot(),
            dot_dot_v@ == dot_dot(),
            split_slash(s@) == done + split_slash(s@.skip(i as int)),
            match last {
                Some((a, b)) => a <= b <= i && normal_parts(done).len() > 0 && normal_parts(done).last() == s@.subrange(a as int, b as int),
                None => normal_parts(done).len() == 0,
            },
        decreases n - i,
    {
        let mut j: usize = i;
        while j < n && s[j] != '/'
            invariant
                i <= j <= n == s@.len(),
                forall|k: int| i <= k < j ==> #[trigger] s@[k] != '/',
            decreases n - j,
        {
            j = j + 1;
        }
        let ghost seg = s@.subrange(i as int, j as int);
        proof {
            lemma_split_piece(s@, '/', i as int, j as int);
            assert(done.push(seg).drop_last() == done);
            if j < n {
                assert(split_slash(s@) == done.push(seg) + split_slash(s@.skip(j + 1)));
            } else {
                assert(split_slash(s@) == done.push(seg));
            }
        }
        if j > i && !is_seq(s, i, j, &dot_v) {
            last = Some((i, j));
        }
        proof {
            done = done.push(seg);
        }
        if j == n {
            assert(split_slash(s@) == done);
            return match last {
                None => None,
                Some((a, b)) => {
                    if is_seq(s, a, b, &dot_dot_v) {
                        None
                    } else {
                        let mut out: Vec<char> = Vec::new();
                        let mut k: usize = a;
                        while k < b
                            invariant
                                a <= k <= b <= s@.len(),
                                out@ == s@.subrange(a as int, k as int),
                            decreases b - k,
                        {
                            out.push(s[k]);
                            assert(out@ == s@.subrange(a as int, k + 1));
                            k = k + 1;
                        }
                        Some(out)
                    }
                },
            };
        }
        i = j + 1;
    }
}

/// Picks the names under which the input assets of a run are copied, so that
/// two assets with the same file name do not overwrite each other.
pub struct InputNames {
    pub used: Vec<String>,
}

impl InputNames {
    /// No name taken yet.
    pub fn new() -> (r: InputNames)
        ensures
            r.used@.len() == 0,
    {
        InputNames { used: Vec::new() }
    }

    /// The name for the next asset, which is then taken.
    pub fn claim(&mut self, file_name: &str, asset_id: u128) -> (name: String)
        ensures
            name@ == input_name(file_name@, asset_id, old(self).used.deep_view()),
            final(self).used.deep_view() == old(self).used.deep_view().push(name@),
    {
        let wanted = String::from_str(file_name);
        let taken = crate::session::contains_text(&self.used, &wanted);
        let name = if !taken {
            String::from_str(file_name)
        } else {
            let id = chars_of(uuid_to_text(asset_id).as_str());
            let short = string_of_range(&id, 0, 8);
            let chars = chars_of(file_name);
            let (stem, ext) = match file_name_of(&chars) {
                Some(n) => {
                    let mut d: usize = n.len();
                    while d > 0 && n[d - 1] != '.'
                        invariant
                            d <= n@.len(),
                            forall|k: int| d <= k < n@.len() ==> #[trigger] n@[k] != '.',
                        decreases d,
                    {
                        d = d - 1;
                    }
                    proof {
                        lemma_last_dot_exact(n@, d - 1);
                    }
                    if d <= 1 {
                        (string_of_range(&n, 0, n.len()), String::new())
                    } else {
                        (string_of_range(&n, 0, d - 1), string_of_range(&n, d, n.len()))
                    }
                },
                None => (String::from_str("file"), String::new()),
            };
            let mut out = stem;
            out.append("_");
            out.append(short.as_str());
            if ext.as_str().unicode_len() > 0 {
                out.append(".");
                out.append(ext.as_str());
            }
            out
        };
        let copy = name.clone();
        self.used.push(copy);
        assert(self.used.deep_view() =~= old(self).used.deep_view().push(name@));
        name
    }
}
} // verus!
