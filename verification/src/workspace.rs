use vstd::prelude::*;
use crate::preview::{first_match, matches_at, lemma_first_match_bounds};
use crate::text::{chars_of, push_char};
use crate::titles::{joined, lemma_joined_push};

verus! {

pub open spec fn slash() -> Seq<char> {
    seq!['/']
}

/// The pieces of `s` between `sep` separators, empty pieces included
/// (`str::split` on one character).
pub open spec fn split_on(s: Seq<char>, sep: char) -> Seq<Seq<char>>
    decreases s.len(),
{
    match first_match(s, seq![sep], 0) {
        None => seq![s],
        Some(i) => {
            proof {
                lemma_first_match_bounds(s, seq![sep], 0);
            }
            seq![s.take(i)] + split_on(s.skip(i + 1), sep)
        },
    }
}

/// The pieces of `s` between `/` separators, empty pieces included.
pub open spec fn split_slash(s: Seq<char>) -> Seq<Seq<char>> {
    split_on(s, '/')
}

pub open spec fn dot() -> Seq<char> {
    seq!['.']
}

pub open spec fn dot_dot() -> Seq<char> {
    seq!['.', '.']
}

/// A piece that names a file or directory (`Component::Normal`).
pub open spec fn is_normal_part(p: Seq<char>) -> bool {
    p.len() > 0 && p != dot()
}

/// The normal pieces of `segs`, in order.
pub open spec fn normal_parts(segs: Seq<Seq<char>>) -> Seq<Seq<char>>
    decreases segs.len(),
{
    if segs.len() == 0 {
        Seq::empty()
    } else if is_normal_part(segs.last()) {
        normal_parts(segs.drop_last()).push(segs.last())
    } else {
        normal_parts(segs.drop_last())
    }
}

/// Some piece of `segs` is `..`.
pub open spec fn has_parent_part(segs: Seq<Seq<char>>) -> bool {
    exists|k: int| 0 <= k < segs.len() && #[trigger] segs[k] == dot_dot()
}

/// `str::split` always gives at least one piece.
pub proof fn lemma_split_nonempty(s: Seq<char>, sep: char)
    ensures
        split_on(s, sep).len() >= 1,
    decreases s.len(),
{
    match first_match(s, seq![sep], 0) {
        None => {},
        Some(i) => {
            lemma_first_match_bounds(s, seq![sep], 0);
            lemma_split_nonempty(s.skip(i + 1), sep);
        },
    }
}

proof fn lemma_joined_split(s: Seq<char>, sep: char)
    ensures
        joined(split_on(s, sep), seq![sep]) == s,
    decreases s.len(),
{
    match first_match(s, seq![sep], 0) {
        None => {},
        Some(i) => {
            lemma_first_match_bounds(s, seq![sep], 0);
            let rest = s.skip(i + 1);
            lemma_joined_split(rest, sep);
            lemma_split_nonempty(rest, sep);
            crate::titles::lemma_joined_front(s.take(i), split_on(rest, sep), seq![sep]);
            assert(s.subrange(i, i + 1) == seq![sep]);
            assert(s =~= s.take(i) + seq![sep] + rest);
        },
    }
}

proof fn lemma_normal_parts_all(segs: Seq<Seq<char>>)
    requires
        forall|k: int| 0 <= k < segs.len() ==> is_normal_part(#[trigger] segs[k]),
    ensures
        normal_parts(segs) == segs,
    decreases segs.len(),
{
    if segs.len() > 0 {
        lemma_normal_parts_all(segs.drop_last());
        assert(segs.drop_last().push(segs.last()) == segs);
    }
}

/// How a workspace path resolves: an absolute path is refused, then a path
/// with a `..` piece; a path whose `/`-separated pieces are all names (none
/// empty, `.` or `..`) resolves to the root joined with that very path.
pub proof fn law_plain_paths_resolve(root: Seq<char>, logical: Seq<char>)
    ensures
        logical.len() > 0 && logical[0] == '/' ==> resolved_path(root, logical)
            == Err::<Seq<char>, Seq<char>>("Path must be relative to the workspace root."@),
        !(logical.len() > 0 && logical[0] == '/') && (exists|k: int| 0 <= k < split_slash(logical).len()
            && #[trigger] split_slash(logical)[k] == seq!['.', '.']) ==> resolved_path(root, logical)
            == Err::<Seq<char>, Seq<char>>("Path escapes the workspace root."@),
        (forall|k: int| 0 <= k < split_slash(logical).len() ==> {
            let piece = #[trigger] split_slash(logical)[k];
            piece.len() > 0 && piece != seq!['.'] && piece != seq!['.', '.']
        }) ==> resolved_path(root, logical) == Ok::<Seq<char>, Seq<char>>(path_join(root, logical)),
{
    let segs = split_slash(logical);
    lemma_split_nonempty(logical, '/');
    if forall|k: int| 0 <= k < segs.len() ==> {
        let piece = #[trigger] segs[k];
        piece.len() > 0 && piece != seq!['.'] && piece != seq!['.', '.']
    } {
        assert forall|k: int| 0 <= k < segs.len() implies is_normal_part(#[trigger] segs[k]) by {
            assert(segs[k] != dot());
        }
        lemma_normal_parts_all(segs);
        lemma_joined_split(logical, '/');
        assert(!has_parent_part(segs)) by {
            if has_parent_part(segs) {
                let k = choose|k: int| 0 <= k < segs.len() && #[trigger] segs[k] == dot_dot();
                assert(segs[k] != seq!['.', '.']);
            }
        }
        if logical.len() > 0 && logical[0] == '/' {
            match first_match(logical, seq!['/'], 0) {
                None => {
                    lemma_first_match_bounds(logical, seq!['/'], 0);
                    assert(matches_at(logical, seq!['/'], 0)) by {
                        assert(logical.subrange(0, 1) =~= seq!['/']);
                    }
                },
                Some(i) => {
                    lemma_first_match_bounds(logical, seq!['/'], 0);
                    if i > 0 {
                        assert(matches_at(logical, seq!['/'], 0)) by {
                            assert(logical.subrange(0, 1) =~= seq!['/']);
                        }
                    }
                    assert(segs[0] == logical.take(i));
                },
            }
        }
        if logical.len() == 0 {
            assert(segs == seq![logical]);
        }
        assert(slash() == seq!['/']);
    }
    if exists|k: int| 0 <= k < segs.len() && #[trigger] segs[k] == seq!['.', '.'] {
        let k = choose|k: int| 0 <= k < segs.len() && #[trigger] segs[k] == seq!['.', '.'];
        assert(segs[k] == dot_dot());
    }
}

/// `root` joined with a relative path (`Path::join`).
pub open spec fn path_join(root: Seq<char>, rel: Seq<char>) -> Seq<char> {
    if root.len() == 0 {
        rel
    } else if root.last() == '/' {
        root + rel
    } else {
        root + slash() + rel
    }
}

/// What `resolve_workspace_path` gives for a root and a path from an agent or a
/// request: absolute paths, paths with a `..` piece, and paths without any name
/// are refused; otherwise the names are joined under the root.
pub open spec fn resolved_path(root: Seq<char>, logical: Seq<char>) -> Result<Seq<char>, Seq<char>> {
    if logical.len() > 0 && logical[0] == '/' {
        Err("Path must be relative to the workspace root."@)
    } else {
        resolved_relative_path(root, logical)
    }
}

/// [`resolved_path`] for a path already known not to start with `/`.
pub open spec fn resolved_relative_path(root: Seq<char>, logical: Seq<char>) -> Result<Seq<char>, Seq<char>> {
    if has_parent_part(split_slash(logical)) {
        Err("Path escapes the workspace root."@)
    } else if normal_parts(split_slash(logical)).len() == 0 {
        Err("Path cannot be empty."@)
    } else {
        Ok(path_join(root, joined(normal_parts(split_slash(logical)), slash())))
    }
}

proof fn lemma_first_slash_exact(s: Seq<char>, m: int)
    requires
        0 <= m <= s.len(),
        forall|k: int| 0 <= k < m ==> #[trigger] s[k] != '/',
        m < s.len() ==> s[m] == '/',
    ensures
        m < s.len() ==> first_match(s, slash(), 0) == Some(m),
        m == s.len() ==> first_match(s, slash(), 0) is None,
{
    lemma_first_match_bounds(s, slash(), 0);
    assert forall|k: int| 0 <= k < m implies !#[trigger] matches_at(s, slash(), k) by {
        if matches_at(s, slash(), k) {
            assert(s.subrange(k, k + 1)[0] == s[k]);
        }
    }
    if m < s.len() {
        assert(s.subrange(m, m + 1) =~= slash());
        assert(matches_at(s, slash(), m));
    }
}

pub fn is_seq(chars: &Vec<char>, from: usize, to: usize, lit: &Vec<char>) -> (b: bool)
    requires
        from <= to <= chars@.len(),
    ensures
        b == (chars@.subrange(from as int, to as int) == lit@),
{
    if to - from != lit.len() {
        return false;
    }
    let mut k: usize = 0;
    while k < lit.len()
        invariant
            k <= lit@.len(),
            to - from == lit@.len(),
            from <= to <= chars@.len(),
            forall|t: int| 0 <= t < k ==> chars@[from + t] == lit@[t],
        decreases lit@.len() - k,
    {
        if chars[from + k] != lit[k] {
            assert(chars@.subrange(from as int, to as int)[k as int] != lit@[k as int]);
            return false;
        }
        k = k + 1;
    }
    assert(chars@.subrange(from as int, to as int) =~= lit@);
    true
}

/// Resolves a path given relative to a workspace root, refusing anything that
/// could leave the root.
pub fn resolve_workspace_path(root: &str, logical_path: &str) -> (r: Result<String, String>)
    ensures
        r matches Ok(p) ==> resolved_path(root@, logical_path@) == Ok::<Seq<char>, Seq<char>>(p@),
        r matches Err(e) ==> resolved_path(root@, logical_path@) == Err::<Seq<char>, Seq<char>>(e@),
{
    let s = chars_of(logical_path);
    let n: usize = s.len();
    if n > 0 && s[0] == '/' {
        return Err(String::from_str("Path must be relative to the workspace root."));
    }
    let dot_v: Vec<char> = vec!['.'];
    let dot_dot_v: Vec<char> = vec!['.', '.'];
    let mut rel = String::new();
    let mut kept: usize = 0;
    let mut i: usize = 0;
    let ghost mut done: Seq<Seq<char>> = Seq::empty();
    assert(s@.skip(0) == s@);
    loop
        invariant
            i <= n == s@.len(),
            s@ == logical_path@,
            !(s@.len() > 0 && s@[0] == '/'),
            dot_v@ == dot(),
            dot_dot_v@ == dot_dot(),
            split_slash(s@) == done + split_slash(s@.skip(i as int)),
            !has_parent_part(done),
            kept == normal_parts(done).len(),
            kept <= i,
            rel@ == joined(normal_parts(done), slash()),
        decreases n - i,
    {
        let mut j: usize = i;
        while j < n && s[j] != '/'
            invariant
                i <= j <= n == s@.len(),
                forall|k: int| i <= k < j ==> #[trigger] s@[k] != '/',
            decreases n - j,
        {
            j = j + 1;
        }
        let ghost t = s@.skip(i as int);
        let ghost seg = s@.subrange(i as int, j as int);
        proof {
            assert forall|k: int| 0 <= k < j - i implies #[trigger] t[k] != '/' by {
                assert(t[k] == s@[k + i]);
            }
            if j < n {
                assert(t[j - i] == s@[j as int]);
            }
            lemma_first_slash_exact(t, j - i);
            assert(t.take(j - i) == seg);
            if j < n {
                assert(t.skip(j - i + 1) == s@.skip(j + 1));
                assert(split_slash(s@) == done.push(seg) + split_slash(s@.skip(j + 1)));
            } else {
                assert(t == seg);
                assert(split_slash(s@) == done.push(seg));
            }
            assert(done.push(seg).drop_last() == done);
        }
        if is_seq(&s, i, j, &dot_dot_v) {
            proof {
                assert(seg == dot_dot());
                assert(split_slash(s@)[done.len() as int] == dot_dot());
                assert(has_parent_part(split_slash(s@)));
                assert(!(s@.len() > 0 && s@[0] == '/'));
            }
            return Err(String::from_str("Path escapes the workspace root."));
        }
        let normal: bool = j > i && !is_seq(&s, i, j, &dot_v);
        if normal {
            if kept > 0 {
                push_char(&mut rel, '/');
            }
            let mut k: usize = i;
            let ghost base = rel@;
            while k < j
                invariant
                    i <= k <= j <= s@.len(),
                    rel@ == base + s@.subrange(i as int, k as int),
                decreases j - k,
            {
                push_char(&mut rel, s[k]);
                assert(s@.subrange(i as int, k + 1) == s@.subrange(i as int, k as int).push(s@[k as int]));
                k = k + 1;
            }
            proof {
                lemma_joined_push(normal_parts(done), slash(), seg);
            }
            kept = kept + 1;
        }
        proof {
            assert(!has_parent_part(done.push(seg))) by {
                if has_parent_part(done.push(seg)) {
                    let k = choose|k: int| 0 <= k < done.push(seg).len() && #[trigger] done.push(seg)[k] == dot_dot();
                    if k < done.len() {
                        assert(done[k] == dot_dot());
                    }
                }
            }
            done = done.push(seg);
        }
        if j == n {
            proof {
                assert(split_slash(s@) == done);
            }
            if kept == 0 {
                return Err(String::from_str("Path cannot be empty."));
            }
            let r = chars_of(root);
            let mut out = String::from_str(root);
            if r.len() > 0 && r[r.len() - 1] != '/' {
                push_char(&mut out, '/');
                assert(out@ == root@ + slash());
            }
            out.append(rel.as_str());
            proof {
                assert(!(s@.len() > 0 && s@[0] == '/'));
                assert(normal_parts(split_slash(s@)).len() > 0);
                if r@.len() > 0 {
                    assert(root@.last() == r@[r@.len() - 1]);
                }
                assert(out@ == path_join(root@, rel@));
                assert(split_slash(logical_path@) == done);
                assert(!has_parent_part(split_slash(logical_path@)));
                assert(rel@ == joined(normal_parts(split_slash(logical_path@)), slash()));
                assert(resolved_path(root@, logical_path@) == Ok::<Seq<char>, Seq<char>>(out@));
            }
            return Ok(out);
        }
        i = j + 1;
    }
}

pub open spec fn slash_free(s: Seq<char>) -> bool {
    forall|k: int| 0 <= k < s.len() ==> #[trigger] s[k] != '/'
}

proof fn lemma_slash_at(s: Seq<char>, k: int)
    requires
        0 <= k < s.len(),
    ensures
        matches_at(s, slash(), k) <==> s[k] == '/',
{
    if s[k] == '/' {
        assert(s.subrange(k, k + 1) =~= slash());
    }
    if matches_at(s, slash(), k) {
        assert(s.subrange(k, k + 1)[0] == s[k]);
    }
}

proof fn lemma_no_slash_no_match(s: Seq<char>)
    requires
        slash_free(s),
    ensures
        first_match(s, slash(), 0) is None,
{
    lemma_first_match_bounds(s, slash(), 0);
    if first_match(s, slash(), 0) is Some {
        let i = first_match(s, slash(), 0)->0;
        lemma_slash_at(s, i);
    }
}

proof fn lemma_split_pieces_slash_free(s: Seq<char>)
    ensures
        forall|k: int| 0 <= k < split_slash(s).len() ==> slash_free(#[trigger] split_slash(s)[k]),
    decreases s.len(),
{
    lemma_first_match_bounds(s, slash(), 0);
    match first_match(s, slash(), 0) {
        None => {
            assert forall|j: int| 0 <= j < s.len() implies #[trigger] s[j] != '/' by {
                lemma_slash_at(s, j);
            }
        },
        Some(i) => {
            lemma_split_pieces_slash_free(s.skip(i + 1));
            let head = s.take(i);
            assert forall|j: int| 0 <= j < head.len() implies #[trigger] head[j] != '/' by {
                lemma_slash_at(s, j);
            }
            let rest = split_slash(s.skip(i + 1));
            assert forall|k: int| 0 <= k < split_slash(s).len() implies slash_free(#[trigger] split_slash(s)[k]) by {
                if k > 0 {
                    assert(split_slash(s)[k] == rest[k - 1]);
                }
            }
        },
    }
}

proof fn lemma_split_concat(a: Seq<char>, b: Seq<char>)
    ensures
        split_slash(a + slash() + b) == split_slash(a) + split_slash(b),
    decreases a.len(),
{
    let c = a + slash() + b;
    lemma_first_match_bounds(a, slash(), 0);
    match first_match(a, slash(), 0) {
        None => {
            assert forall|k: int| 0 <= k < a.len() implies #[trigger] c[k] != '/' by {
                lemma_slash_at(a, k);
                assert(c[k] == a[k]);
            }
            lemma_first_slash_exact(c, a.len() as int);
            assert(c.take(a.len() as int) == a);
            assert(c.skip(a.len() as int + 1) == b);
        },
        Some(i) => {
            assert forall|k: int| 0 <= k < i implies #[trigger] c[k] != '/' by {
                lemma_slash_at(a, k);
                assert(c[k] == a[k]);
            }
            lemma_slash_at(a, i);
            lemma_first_slash_exact(c, i);
            lemma_split_concat(a.skip(i + 1), b);
            assert(c.take(i) == a.take(i));
            assert(c.skip(i + 1) == a.skip(i + 1) + slash() + b);
        },
    }
}

proof fn lemma_split_joined(ps: Seq<Seq<char>>)
    requires
        ps.len() > 0,
        forall|k: int| 0 <= k < ps.len() ==> slash_free(#[trigger] ps[k]),
    ensures
        split_slash(joined(ps, slash())) == ps,
    decreases ps.len(),
{
    let last = ps[ps.len() - 1];
    lemma_no_slash_no_match(last);
    if ps.len() == 1 {
        lemma_no_slash_no_match(ps[0]);
        assert(seq![ps[0]] == ps);
    } else {
        let init = ps.drop_last();
        assert forall|k: int| 0 <= k < init.len() implies slash_free(#[trigger] init[k]) by {
            assert(init[k] == ps[k]);
        }
        lemma_split_joined(init);
        lemma_split_concat(joined(init, slash()), last);
        assert(init + seq![last] == ps);
    }
}

proof fn lemma_normal_parts_from(segs: Seq<Seq<char>>)
    ensures
        forall|k: int| 0 <= k < normal_parts(segs).len() ==> is_normal_part(#[trigger] normal_parts(segs)[k])
            && exists|j: int| 0 <= j < segs.len() && segs[j] == normal_parts(segs)[k],
    decreases segs.len(),
{
    if segs.len() > 0 {
        let init = segs.drop_last();
        lemma_normal_parts_from(init);
        let np = normal_parts(segs);
        assert forall|k: int| 0 <= k < np.len() implies is_normal_part(#[trigger] np[k])
            && exists|j: int| 0 <= j < segs.len() && segs[j] == np[k] by {
            if k < normal_parts(init).len() {
                assert(np[k] == normal_parts(init)[k]);
                let j = choose|j: int| 0 <= j < init.len() && init[j] == normal_parts(init)[k];
                assert(segs[j] == init[j]);
            } else {
                assert(np[k] == segs.last());
                assert(segs[segs.len() - 1] == np[k]);
            }
        }
    }
}

/// A resolved path never leaves its root: it is the root joined with a relative
/// path that does not start with `/` and whose every piece is a plain name,
/// neither empty nor `.` nor `..`.
pub proof fn law_resolved_path_stays_inside(root: Seq<char>, logical: Seq<char>)
    ensures
        resolved_path(root, logical) matches Ok(p) ==> exists|rel: Seq<char>| {
            &&& p == path_join(root, rel)
            &&& rel.len() > 0
            &&& rel[0] != '/'
            &&& forall|k: int| 0 <= k < split_slash(rel).len() ==> {
                let piece = #[trigger] split_slash(rel)[k];
                is_normal_part(piece) && piece != dot_dot()
            }
        },
{
    if resolved_path(root, logical) is Ok {
        let segs = split_slash(logical);
        let parts = normal_parts(segs);
        let rel = joined(parts, slash());
        lemma_split_pieces_slash_free(logical);
        lemma_normal_parts_from(segs);
        assert forall|k: int| 0 <= k < parts.len() implies slash_free(#[trigger] parts[k]) by {
            let j = choose|j: int| 0 <= j < segs.len() && segs[j] == parts[k];
            assert(slash_free(segs[j]));
        }
        lemma_split_joined(parts);
        assert forall|k: int| 0 <= k < split_slash(rel).len() implies {
            let piece = #[trigger] split_slash(rel)[k];
            is_normal_part(piece) && piece != dot_dot()
        } by {
            assert(split_slash(rel)[k] == parts[k]);
            let j = choose|j: int| 0 <= j < segs.len() && segs[j] == parts[k];
            assert(segs[j] != dot_dot());
        }
        assert(split_slash(rel)[0] == parts[0]);
        lemma_first_match_bounds(rel, slash(), 0);
        if rel.len() == 0 || rel[0] == '/' {
            lemma_split_pieces_slash_free(rel);
            if rel.len() > 0 {
                lemma_slash_at(rel, 0);
                assert(first_match(rel, slash(), 0) == Some(0int));
                assert(split_slash(rel)[0] == rel.take(0));
            } else {
                assert(split_slash(rel)[0] == rel);
            }
            assert(false);
        }
    }
}

/// `s` without its leading `/` characters (`trim_start_matches('/')`).
pub open spec fn without_leading_slashes(s: Seq<char>) -> Seq<char>
    decreases s.len(),
{
    if s.len() > 0 && s[0] == '/' {
        without_leading_slashes(s.drop_first())
    } else {
        s
    }
}

/// Turns the tail of a preview URL into a workspace-relative path.
pub fn normalize_workspace_asset_path(logical_path: &str) -> (p: String)
    ensures
        p@ == without_leading_slashes(logical_path@),
{
    let s = chars_of(logical_path);
    let mut i: usize = 0;
    assert(s@.skip(0) == s@);
    while i < s.len() && s[i] == '/'
        invariant
            i <= s@.len(),
            without_leading_slashes(s@) == without_leading_slashes(s@.skip(i as int)),
        decreases s@.len() - i,
    {
        assert(s@.skip(i as int).drop_first() == s@.skip(i + 1));
        i = i + 1;
    }
    assert(s@.skip(0) == s@);
    let mut out = String::new();
    let mut k: usize = i;
    while k < s.len()
        invariant
            i <= k <= s@.len(),
            out@ == s@.subrange(i as int, k as int),
        decreases s@.len() - k,
    {
        push_char(&mut out, s[k]);
        assert(s@.subrange(i as int, k + 1) == s@.subrange(i as int, k as int).push(s@[k as int]));
        k = k + 1;
    }
    assert(s@.subrange(i as int, s@.len() as int) == s@.skip(i as int));
    out
}

/// A preview URL tail, once normalized, is never refused as an absolute path.
pub proof fn law_asset_path_is_relative(root: Seq<char>, url_tail: Seq<char>)
    ensures
        resolved_path(root, without_leading_slashes(url_tail)) == resolved_relative_path(
            root,
            without_leading_slashes(url_tail),
        ),
        !(without_leading_slashes(url_tail).len() > 0 && without_leading_slashes(url_tail)[0] == '/'),
    decreases url_tail.len(),
{
    if url_tail.len() > 0 && url_tail[0] == '/' {
        law_asset_path_is_relative(root, url_tail.drop_first());
    }
}


/// `Path::join` of a relative path onto `root`.
pub fn join_path(root: &str, rel: &str) -> (out: String)
    ensures
        out@ == path_join(root@, rel@),
{
    let r = chars_of(root);
    let mut out = String::from_str(root);
    if r.len() > 0 && r[r.len() - 1] != '/' {
        push_char(&mut out, '/');
    }
    if r.len() > 0 {
        assert(root@.last() == r@[r@.len() - 1]);
    }
    out.append(rel);
    out
}

/// When `s[i..j]` holds no `sep` and `j` is the end of `s` or a `sep`, the
/// pieces of `s` from `i` on start with `s[i..j]`.
pub proof fn lemma_split_piece(s: Seq<char>, sep: char, i: int, j: int)
    requires
        0 <= i <= j <= s.len(),
        forall|k: int| i <= k < j ==> #[trigger] s[k] != sep,
        j < s.len() ==> s[j] == sep,
    ensures
        j < s.len() ==> split_on(s.skip(i), sep) == seq![s.subrange(i, j)] + split_on(s.skip(j + 1), sep),
        j == s.len() ==> split_on(s.skip(i), sep) == seq![s.subrange(i, j)],
{
    let t = s.skip(i);
    let p = seq![sep];
    lemma_first_match_bounds(t, p, 0);
    assert forall|k: int| 0 <= k < j - i implies !#[trigger] matches_at(t, p, k) by {
        if matches_at(t, p, k) {
            assert(t.subrange(k, k + 1)[0] == t[k]);
            assert(t[k] == s[k + i]);
        }
    }
    if j < s.len() {
        assert(t.subrange(j - i, j - i + 1) =~= p);
        assert(matches_at(t, p, j - i));
        assert(t.take(j - i) == s.subrange(i, j));
        assert(t.skip(j - i + 1) == s.skip(j + 1));
    } else {
        assert(t == s.subrange(i, j));
    }
}

/// The media type `mime_guess` gives a path by its extension.
pub uninterp spec fn guessed_mime(path: Seq<char>) -> Seq<char>;

/// `mime_guess::from_path(path).first_or_octet_stream()` as text. The
/// contract names the result [`guessed_mime`]: the crate's static table of
/// extensions makes it a function of the path alone.
#[verifier::external_body]
fn mime_for_path(path: &str) -> (m: String)
    ensures
        m@ == guessed_mime(path@),
{
    mime_guess::from_path(path).first_or_octet_stream().as_ref().to_string()
}

/// What a preview request for `path` inside a run's workspace serves: the
/// file it resolves to and its media type, or why the path is refused.
pub open spec fn preview_target(workspace_dir: Seq<char>, path: Seq<char>) -> Result<(Seq<char>, Seq<char>), Seq<char>> {
    match resolved_path(workspace_dir, without_leading_slashes(path)) {
        Ok(p) => Ok((p, guessed_mime(p))),
        Err(e) => Err(e),
    }
}

/// Resolves the file a preview request asks for and its media type.
pub fn preview_asset_target(workspace_dir: &str, path: &str) -> (r: Result<(String, String), String>)
    ensures
        match r {
            Ok(t) => preview_target(workspace_dir@, path@) == Ok::<(Seq<char>, Seq<char>), Seq<char>>((t.0@, t.1@)),
            Err(e) => preview_target(workspace_dir@, path@) == Err::<(Seq<char>, Seq<char>), Seq<char>>(e@),
        },
{
    let normalized = normalize_workspace_asset_path(path);
    match resolve_workspace_path(workspace_dir, normalized.as_str()) {
        Ok(p) => {
            let m = mime_for_path(p.as_str());
            Ok((p, m))
        },
        Err(e) => Err(e),
    }
}
} // verus!
