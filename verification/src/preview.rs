use vstd::prelude::*;
use crate::text::{chars_of, push_char};

verus! {

/// ASCII lower-casing of one character (`char::to_ascii_lowercase`).
pub open spec fn ascii_lower(c: char) -> char {
    if 'A' <= c && c <= 'Z' {
        ((c as int) + 32) as char
    } else {
        c
    }
}

/// `s` with ASCII letters lower-cased; every other character kept.
pub open spec fn lowered(s: Seq<char>) -> Seq<char> {
    s.map_values(|c: char| ascii_lower(c))
}

/// `p` occurs in `s` at position `i`.
pub open spec fn matches_at(s: Seq<char>, p: Seq<char>, i: int) -> bool {
    0 <= i && i + p.len() <= s.len() && s.subrange(i, i + p.len()) == p
}

/// The first position at or after `from` where `p` occurs in `s` (`str::find`).
pub open spec fn first_match(s: Seq<char>, p: Seq<char>, from: int) -> Option<int>
    decreases s.len() + 1 - from,
{
    if from < 0 || from + p.len() > s.len() {
        None
    } else if matches_at(s, p, from) {
        Some(from)
    } else {
        first_match(s, p, from + 1)
    }
}

/// `p` occurs somewhere in `s` (`str::contains`).
pub open spec fn contains_seq(s: Seq<char>, p: Seq<char>) -> bool {
    first_match(s, p, 0) is Some
}

pub open spec fn meta_open() -> Seq<char> {
    seq!['<', 'm', 'e', 't', 'a']
}

pub open spec fn tag_close() -> Seq<char> {
    seq!['>']
}

pub open spec fn http_equiv_word() -> Seq<char> {
    seq!['h', 't', 't', 'p', '-', 'e', 'q', 'u', 'i', 'v']
}

pub open spec fn refresh_word() -> Seq<char> {
    seq!['r', 'e', 'f', 'r', 'e', 's', 'h']
}

/// A `<meta ...>` tag (already lower-cased) that asks the browser to refresh.
pub open spec fn is_refresh_tag(tag: Seq<char>) -> bool {
    contains_seq(tag, http_equiv_word()) && contains_seq(tag, refresh_word())
}

pub proof fn lemma_first_match_bounds(s: Seq<char>, p: Seq<char>, from: int)
    ensures
        first_match(s, p, from) matches Some(i) ==> from <= i && i + p.len() <= s.len()
            && matches_at(s, p, i),
        first_match(s, p, from) matches Some(i) ==> forall|j: int|
            from <= j < i ==> !#[trigger] matches_at(s, p, j),
        first_match(s, p, from) is None && 0 <= from ==> forall|j: int|
            from <= j ==> !#[trigger] matches_at(s, p, j),
    decreases s.len() + 1 - from,
{
    if from < 0 || from + p.len() > s.len() {
    } else if matches_at(s, p, from) {
    } else {
        lemma_first_match_bounds(s, p, from + 1);
    }
}

/// The result of scanning `html` from `cursor` on: the kept text and the number
/// of refresh tags dropped.
pub open spec fn strip_from(html: Seq<char>, cursor: int) -> (Seq<char>, nat)
    decreases html.len() - cursor,
{
    if cursor < 0 || cursor > html.len() {
        (Seq::empty(), 0)
    } else {
        let l = lowered(html);
        match first_match(l, meta_open(), cursor) {
            None => (html.subrange(cursor, html.len() as int), 0),
            Some(start) => match first_match(l, tag_close(), start) {
                None => (html.subrange(cursor, html.len() as int), 0),
                Some(gt) => {
                    proof {
                        lemma_first_match_bounds(l, meta_open(), cursor);
                        lemma_first_match_bounds(l, tag_close(), start);
                    }
                    let end = gt + 1;
                    let rest = strip_from(html, end);
                    if is_refresh_tag(l.subrange(start, end)) {
                        (html.subrange(cursor, start) + rest.0, rest.1 + 1)
                    } else {
                        (html.subrange(cursor, end) + rest.0, rest.1)
                    }
                }
            },
        }
    }
}

/// What `strip_meta_refresh_tags` returns for `html`.
pub open spec fn stripped(html: Seq<char>) -> (Seq<char>, nat) {
    strip_from(html, 0)
}

proof fn lemma_strip_from_shape(html: Seq<char>, cursor: int)
    requires
        0 <= cursor <= html.len(),
    ensures
        strip_from(html, cursor).0.len() <= html.len() - cursor,
        strip_from(html, cursor).1 == 0 ==> strip_from(html, cursor).0 == html.subrange(
            cursor,
            html.len() as int,
        ),
        strip_from(html, cursor).1 > 0 ==> strip_from(html, cursor).0.len() < html.len() - cursor,
    decreases html.len() - cursor,
{
    let l = lowered(html);
    match first_match(l, meta_open(), cursor) {
        None => {},
        Some(start) => {
            lemma_first_match_bounds(l, meta_open(), cursor);
            match first_match(l, tag_close(), start) {
                None => {},
                Some(gt) => {
                    lemma_first_match_bounds(l, tag_close(), start);
                    let end = gt + 1;
                    lemma_strip_from_shape(html, end);
                    let rest = strip_from(html, end);
                    if !is_refresh_tag(l.subrange(start, end)) && rest.1 == 0 {
                        assert(html.subrange(cursor, end) + html.subrange(end, html.len() as int)
                            == html.subrange(cursor, html.len() as int));
                    }
                },
            }
        },
    }
}

/// Stripping never lengthens a page, and it leaves the page exactly as it was
/// if and only if it removed no tag.
pub proof fn law_strip_unchanged_iff_nothing_removed(html: Seq<char>)
    ensures
        stripped(html).0.len() <= html.len(),
        stripped(html).1 == 0 <==> stripped(html).0 == html,
{
    lemma_strip_from_shape(html, 0);
    assert(html.subrange(0, html.len() as int) == html);
}

proof fn lemma_lowered_add(a: Seq<char>, b: Seq<char>)
    ensures
        lowered(a + b) == lowered(a) + lowered(b),
{
    assert(lowered(a + b) =~= lowered(a) + lowered(b));
}

proof fn lemma_first_match_shift(a: Seq<char>, b: Seq<char>, p: Seq<char>, c: int)
    requires
        0 <= c,
    ensures
        first_match(a + b, p, a.len() + c) == match first_match(b, p, c) {
            Some(i) => Some(i + a.len()),
            None => None::<int>,
        },
    decreases b.len() + 1 - c,
{
    let s = a + b;
    if c + p.len() > b.len() {
    } else {
        assert(s.subrange(a.len() + c, a.len() + c + p.len()) =~= b.subrange(c, c + p.len()));
        if !matches_at(b, p, c) {
            lemma_first_match_shift(a, b, p, c + 1);
        }
    }
}

proof fn lemma_first_match_skip(s: Seq<char>, p: Seq<char>, from: int, k: int)
    requires
        0 <= from <= k,
        forall|j: int| from <= j < k ==> !#[trigger] matches_at(s, p, j),
    ensures
        first_match(s, p, from) == first_match(s, p, k),
    decreases k - from,
{
    if from < k {
        if from + p.len() > s.len() {
            lemma_first_match_none_from(s, p, k);
        } else {
            lemma_first_match_skip(s, p, from + 1, k);
        }
    }
}

proof fn lemma_first_match_none_from(s: Seq<char>, p: Seq<char>, from: int)
    requires
        0 <= from,
        from + p.len() > s.len(),
    ensures
        first_match(s, p, from) is None,
{
}

proof fn lemma_strip_shift(a: Seq<char>, b: Seq<char>, c: int)
    requires
        0 <= c <= b.len(),
    ensures
        strip_from(a + b, a.len() + c) == strip_from(b, c),
    decreases b.len() - c,
{
    let h = a + b;
    let l = lowered(h);
    let lb = lowered(b);
    lemma_lowered_add(a, b);
    assert(lowered(a).len() == a.len());
    lemma_first_match_shift(lowered(a), lb, meta_open(), c);
    assert(h.subrange(a.len() + c, h.len() as int) =~= b.subrange(c, b.len() as int));
    match first_match(lb, meta_open(), c) {
        None => {},
        Some(start) => {
            lemma_first_match_bounds(lb, meta_open(), c);
            lemma_first_match_shift(lowered(a), lb, tag_close(), start);
            match first_match(lb, tag_close(), start) {
                None => {},
                Some(gt) => {
                    lemma_first_match_bounds(lb, tag_close(), start);
                    lemma_strip_shift(a, b, gt + 1);
                    assert(l.subrange(a.len() + start, a.len() + gt + 1) =~= lb.subrange(start, gt + 1));
                    assert(h.subrange(a.len() + c, a.len() + start) =~= b.subrange(c, start));
                    assert(h.subrange(a.len() + c, a.len() + gt + 1) =~= b.subrange(c, gt + 1));
                },
            }
        },
    }
}

/// Text free of `<` is kept as it is, and stripping goes on after it.
pub proof fn law_strip_keeps_plain_text(text: Seq<char>, rest: Seq<char>)
    requires
        forall|i: int| 0 <= i < text.len() ==> text[i] != '<',
    ensures
        stripped(text + rest) == (text + stripped(rest).0, stripped(rest).1),
{
    let h = text + rest;
    let l = lowered(h);
    lemma_lowered_add(text, rest);
    assert forall|j: int| 0 <= j < text.len() implies !#[trigger] matches_at(l, meta_open(), j) by {
        if matches_at(l, meta_open(), j) {
            assert(l.subrange(j, j + 5)[0] == l[j]);
            assert(l[j] == ascii_lower(text[j]));
        }
    }
    lemma_first_match_skip(l, meta_open(), 0, text.len() as int);
    lemma_first_match_shift(lowered(text), lowered(rest), meta_open(), 0);
    let lr = lowered(rest);
    assert(h.subrange(0, h.len() as int) =~= text + rest.subrange(0, rest.len() as int));
    match first_match(lr, meta_open(), 0) {
        None => {},
        Some(start) => {
            lemma_first_match_bounds(lr, meta_open(), 0);
            lemma_first_match_shift(lowered(text), lr, tag_close(), start);
            match first_match(lr, tag_close(), start) {
                None => {},
                Some(gt) => {
                    lemma_first_match_bounds(lr, tag_close(), start);
                    lemma_strip_shift(text, rest, gt + 1);
                    assert(l.subrange(text.len() + start, text.len() + gt + 1) =~= lr.subrange(start, gt + 1));
                    assert(h.subrange(0, text.len() + start) =~= text + rest.subrange(0, start));
                    assert(h.subrange(0, text.len() + gt + 1) =~= text + rest.subrange(0, gt + 1));
                },
            }
        },
    }
}

/// A `<meta` tag (in any case) closed by its first `>` is removed and counted
/// when it holds both `http-equiv` and `refresh` (in any case), and kept
/// otherwise; either way stripping goes on after it.
pub proof fn law_strip_meta_tag(tag: Seq<char>, rest: Seq<char>)
    requires
        tag.len() > 5,
        tag.map_values(|c: char| if 'A' <= c && c <= 'Z' { ((c as int) + 32) as char } else { c }).take(5) == "<meta"@,
        tag.last() == '>',
        forall|i: int| 0 <= i < tag.len() - 1 ==> tag[i] != '>',
    ensures
        ({
            let l = tag.map_values(|c: char| if 'A' <= c && c <= 'Z' { ((c as int) + 32) as char } else { c });
            let refresh = (exists|i: int| 0 <= i && i + 10 <= l.len() && #[trigger] l.subrange(i, i + 10) == "http-equiv"@)
                && (exists|i: int| 0 <= i && i + 7 <= l.len() && #[trigger] l.subrange(i, i + 7) == "refresh"@);
            stripped(tag + rest) == if refresh {
                (stripped(rest).0, stripped(rest).1 + 1)
            } else {
                (tag + stripped(rest).0, stripped(rest).1)
            }
        }),
{
    reveal_strlit("<meta");
    reveal_strlit("http-equiv");
    reveal_strlit("refresh");
    let lt = lowered(tag);
    assert(lt =~= tag.map_values(|c: char| if 'A' <= c && c <= 'Z' { ((c as int) + 32) as char } else { c }));
    let h = tag + rest;
    let l = lowered(h);
    lemma_lowered_add(tag, rest);
    assert(meta_open() =~= "<meta"@);
    assert(l.subrange(0, 5) =~= lt.take(5));
    assert(matches_at(l, meta_open(), 0));
    let n = tag.len() as int;
    assert forall|j: int| 0 <= j < n - 1 implies !#[trigger] matches_at(l, tag_close(), j) by {
        if matches_at(l, tag_close(), j) {
            assert(l.subrange(j, j + 1)[0] == l[j]);
            assert(l[j] == ascii_lower(tag[j]));
        }
    }
    lemma_first_match_skip(l, tag_close(), 0, n - 1);
    assert(l[n - 1] == ascii_lower(tag[n - 1]));
    assert(l.subrange(n - 1, n) =~= tag_close());
    assert(first_match(l, tag_close(), 0) == Some(n - 1));
    lemma_strip_shift(tag, rest, 0);
    assert(l.subrange(0, n) =~= lt);
    assert(h.subrange(0, n) =~= tag);
    assert(h.subrange(0, 0) =~= Seq::<char>::empty());
    assert(rest.subrange(0, rest.len() as int) =~= rest);
    // The two words, found by `is_refresh_tag`, are the ones the law names.
    assert(http_equiv_word() =~= "http-equiv"@);
    assert(refresh_word() =~= "refresh"@);
    lemma_first_match_bounds(lt, http_equiv_word(), 0);
    lemma_first_match_bounds(lt, refresh_word(), 0);
    if exists|i: int| 0 <= i && i + 10 <= lt.len() && #[trigger] lt.subrange(i, i + 10) == "http-equiv"@ {
        let i = choose|i: int| 0 <= i && i + 10 <= lt.len() && #[trigger] lt.subrange(i, i + 10) == "http-equiv"@;
        assert(matches_at(lt, http_equiv_word(), i));
    }
    if exists|i: int| 0 <= i && i + 7 <= lt.len() && #[trigger] lt.subrange(i, i + 7) == "refresh"@ {
        let i = choose|i: int| 0 <= i && i + 7 <= lt.len() && #[trigger] lt.subrange(i, i + 7) == "refresh"@;
        assert(matches_at(lt, refresh_word(), i));
    }
    if let Some(i) = first_match(lt, http_equiv_word(), 0) {
        assert(lt.subrange(i, i + 10) == "http-equiv"@);
    }
    if let Some(i) = first_match(lt, refresh_word(), 0) {
        assert(lt.subrange(i, i + 7) == "refresh"@);
    }
}

/// Executable ASCII lower-casing.
pub fn lower_char(c: char) -> (r: char)
    ensures
        r == ascii_lower(c),
{
    if 'A' <= c && c <= 'Z' {
        let code: u32 = c as u32;
        let low: u8 = (code + 32) as u8;
        assert((c as int) + 32 == low as int);
        low as char
    } else {
        c
    }
}

/// Executable [`first_match`] over a character buffer.
pub fn find_from(s: &Vec<char>, p: &Vec<char>, from: usize) -> (r: Option<usize>)
    requires
        from <= s@.len(),
    ensures
        match first_match(s@, p@, from as int) {
            Some(i) => r == Some(i as usize),
            None => r is None,
        },
{
    let n: usize = s.len();
    let m: usize = p.len();
    if m > n {
        proof {
            lemma_first_match_none_tail(s@, p@, from as int);
        }
        return None;
    }
    let mut i: usize = from;
    while i <= n - m
        invariant
            from <= i <= n,
            n == s@.len(),
            m == p@.len(),
            m <= n,
            first_match(s@, p@, from as int) == first_match(s@, p@, i as int),
        decreases n - i,
    {
        let mut k: usize = 0;
        let mut ok: bool = true;
        while k < m
            invariant
                k <= m,
                i + m <= n,
                n == s@.len(),
                m == p@.len(),
                ok == (forall|t: int| 0 <= t < k ==> s@[i + t] == p@[t]),
            decreases m - k,
        {
            if s[i + k] != p[k] {
                ok = false;
            }
            k = k + 1;
        }
        proof {
            if ok {
                assert(s@.subrange(i as int, i + m) =~= p@);
            } else {
                assert(!(s@.subrange(i as int, i + m) =~= p@)) by {
                    let t = choose|t: int| 0 <= t < m && s@[i + t] != p@[t];
                    assert(s@.subrange(i as int, i + m)[t] == s@[i + t]);
                }
            }
        }
        if ok {
            return Some(i);
        }
        i = i + 1;
    }
    proof {
        lemma_first_match_none_tail(s@, p@, i as int);
    }
    None
}

proof fn lemma_first_match_none_tail(s: Seq<char>, p: Seq<char>, from: int)
    requires
        from + p.len() > s.len(),
    ensures
        first_match(s, p, from) is None,
{
}

/// Lower-cases every ASCII letter of a character buffer.
pub fn lower_all(s: &Vec<char>) -> (r: Vec<char>)
    ensures
        r@ == lowered(s@),
{
    let mut r: Vec<char> = Vec::new();
    let mut i: usize = 0;
    while i < s.len()
        invariant
            i <= s@.len(),
            r@ == lowered(s@.take(i as int)),
        decreases s@.len() - i,
    {
        r.push(lower_char(s[i]));
        assert(lowered(s@.take(i + 1)) =~= lowered(s@.take(i as int)).push(ascii_lower(s@[i as int])));
        i = i + 1;
    }
    assert(s@.take(s@.len() as int) == s@);
    r
}

fn push_range(out: &mut String, s: &Vec<char>, from: usize, to: usize)
    requires
        from <= to <= s@.len(),
    ensures
        final(out)@ == old(out)@ + s@.subrange(from as int, to as int),
{
    let mut i: usize = from;
    while i < to
        invariant
            from <= i <= to <= s@.len(),
            out@ == old(out)@ + s@.subrange(from as int, i as int),
        decreases to - i,
    {
        push_char(out, s[i]);
        assert(s@.subrange(from as int, i + 1) == s@.subrange(from as int, i as int).push(s@[i as int]));
        i = i + 1;
    }
}

/// Whether a lower-cased tag holds both `http-equiv` and `refresh`.
fn refresh_tag(l: &Vec<char>, start: usize, end: usize) -> (b: bool)
    requires
        start <= end <= l@.len(),
    ensures
        b == is_refresh_tag(l@.subrange(start as int, end as int)),
{
    let mut tag: Vec<char> = Vec::new();
    let mut i: usize = start;
    while i < end
        invariant
            start <= i <= end <= l@.len(),
            tag@ == l@.subrange(start as int, i as int),
        decreases end - i,
    {
        tag.push(l[i]);
        assert(l@.subrange(start as int, i + 1) == l@.subrange(start as int, i as int).push(l@[i as int]));
        i = i + 1;
    }
    let http_equiv: Vec<char> = vec!['h', 't', 't', 'p', '-', 'e', 'q', 'u', 'i', 'v'];
    let refresh: Vec<char> = vec!['r', 'e', 'f', 'r', 'e', 's', 'h'];
    assert(http_equiv@ == http_equiv_word());
    assert(refresh@ == refresh_word());
    let a = find_from(&tag, &http_equiv, 0);
    let b = find_from(&tag, &refresh, 0);
    a.is_some() && b.is_some()
}

/// Removes `<meta ... http-equiv ... refresh ...>` tags from preview HTML, so a
/// generated page cannot redirect the viewer; returns the cleaned page and how
/// many tags were removed. Tag names and attributes match without regard to
/// ASCII case.
pub fn strip_meta_refresh_tags(html: &str) -> (r: (String, usize))
    ensures
        r.0@ == stripped(html@).0,
        r.1 as nat == stripped(html@).1,
{
    let h = chars_of(html);
    let l = lower_all(&h);
    let meta: Vec<char> = vec!['<', 'm', 'e', 't', 'a'];
    let close: Vec<char> = vec!['>'];
    assert(meta@ == meta_open());
    assert(close@ == tag_close());
    let n: usize = h.len();
    let mut output = String::new();
    let mut cursor: usize = 0;
    let mut removed: usize = 0;
    loop
        invariant
            h@ == html@,
            l@ == lowered(h@),
            l@.len() == h@.len(),
            n == h@.len(),
            meta@ == meta_open(),
            close@ == tag_close(),
            cursor <= n,
            removed <= cursor,
            stripped(html@).0 == output@ + strip_from(h@, cursor as int).0,
            stripped(html@).1 == removed + strip_from(h@, cursor as int).1,
        decreases n - cursor,
    {
        let found = find_from(&l, &meta, cursor);
        match found {
            None => {
                push_range(&mut output, &h, cursor, n);
                return (output, removed);
            },
            Some(start) => {
                proof {
                    lemma_first_match_bounds(l@, meta_open(), cursor as int);
                }
                let gt_found = find_from(&l, &close, start);
                match gt_found {
                    None => {
                        push_range(&mut output, &h, cursor, n);
                        return (output, removed);
                    },
                    Some(gt) => {
                        proof {
                            lemma_first_match_bounds(l@, tag_close(), start as int);
                        }
                        let end: usize = gt + 1;
                        let ghost rest = strip_from(h@, end as int);
                        if refresh_tag(&l, start, end) {
                            push_range(&mut output, &h, cursor, start);
                            removed = removed + 1;
                            assert(stripped(html@).0 == output@ + rest.0);
                        } else {
                            push_range(&mut output, &h, cursor, end);
                            assert(stripped(html@).0 == output@ + rest.0);
                        }
                        cursor = end;
                    },
                }
            },
        }
    }
}

} // verus!
