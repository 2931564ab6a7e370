use vstd::prelude::*;
use crate::text::{chars_of, is_space, is_space_char, push_char, trim, trim_str, truncate_for_log, truncated_for_log};

verus! {

/// Length of the run of non-white-space characters at the front of `s`.
pub open spec fn word_len(s: Seq<char>) -> nat
    decreases s.len(),
{
    if s.len() == 0 || is_space(s[0]) {
        0
    } else {
        1 + word_len(s.drop_first())
    }
}

pub proof fn lemma_word_len_bound(s: Seq<char>)
    ensures
        word_len(s) <= s.len(),
    decreases s.len(),
{
    if s.len() > 0 && !is_space(s[0]) {
        lemma_word_len_bound(s.drop_first());
    }
}

/// The white-space separated words of `s`, in order (`str::split_whitespace`).
pub open spec fn words(s: Seq<char>) -> Seq<Seq<char>>
    decreases s.len(),
{
    if s.len() == 0 {
        Seq::empty()
    } else if is_space(s[0]) {
        words(s.drop_first())
    } else {
        proof {
            lemma_word_len_bound(s);
        }
        seq![s.take(word_len(s) as int)] + words(s.skip(word_len(s) as int))
    }
}

/// `ws` joined with `sep` between consecutive items (`[&str]::join`).
pub open spec fn joined(ws: Seq<Seq<char>>, sep: Seq<char>) -> Seq<char>
    decreases ws.len(),
{
    if ws.len() == 0 {
        Seq::empty()
    } else if ws.len() == 1 {
        ws[0]
    } else {
        joined(ws.drop_last(), sep) + sep + ws.last()
    }
}

/// The first `n` items of `ws` (all of them when there are fewer).
pub open spec fn first_n<T>(ws: Seq<T>, n: nat) -> Seq<T> {
    if ws.len() <= n {
        ws
    } else {
        ws.take(n as int)
    }
}

proof fn lemma_word_len_exact(s: Seq<char>, m: int)
    requires
        0 <= m <= s.len(),
        forall|k: int| 0 <= k < m ==> !is_space(#[trigger] s[k]),
        m < s.len() ==> is_space(s[m]),
    ensures
        word_len(s) == m,
    decreases m,
{
    if m > 0 {
        let t = s.drop_first();
        assert forall|k: int| 0 <= k < m - 1 implies !is_space(#[trigger] t[k]) by {
            assert(t[k] == s[k + 1]);
        }
        if m - 1 < t.len() {
            assert(t[m - 1] == s[m]);
        }
        lemma_word_len_exact(t, m - 1);
    }
}

pub proof fn lemma_joined_push(ws: Seq<Seq<char>>, sep: Seq<char>, w: Seq<char>)
    ensures
        joined(ws.push(w), sep) == if ws.len() == 0 {
            w
        } else {
            joined(ws, sep) + sep + w
        },
{
    assert(ws.push(w).drop_last() == ws);
}

/// A word: not empty, and free of white space.
pub open spec fn is_word(w: Seq<char>) -> bool {
    w.len() > 0 && forall|k: int| 0 <= k < w.len() ==> !is_space(#[trigger] w[k])
}

proof fn lemma_words_are_words(s: Seq<char>)
    ensures
        forall|i: int| 0 <= i < words(s).len() ==> is_word(#[trigger] words(s)[i]),
    decreases s.len(),
{
    if s.len() == 0 {
    } else if is_space(s[0]) {
        lemma_words_are_words(s.drop_first());
        assert(words(s) == words(s.drop_first()));
    } else {
        lemma_word_len_bound(s);
        let m = word_len(s) as int;
        lemma_word_is_run(s);
        lemma_words_are_words(s.skip(m));
        let w = s.take(m);
        assert(is_word(w)) by {
            assert forall|k: int| 0 <= k < w.len() implies !is_space(#[trigger] w[k]) by {
                assert(w[k] == s[k]);
            }
        }
        assert(words(s) == seq![w] + words(s.skip(m)));
        assert forall|i: int| 0 <= i < words(s).len() implies is_word(#[trigger] words(s)[i]) by {
            if i == 0 {
                assert(words(s)[0] == w);
            } else {
                assert(words(s)[i] == words(s.skip(m))[i - 1]);
            }
        }
    }
}

proof fn lemma_word_is_run(s: Seq<char>)
    requires
        s.len() > 0,
        !is_space(s[0]),
    ensures
        word_len(s) >= 1,
        forall|k: int| 0 <= k < word_len(s) ==> !is_space(#[trigger] s[k]),
    decreases s.len(),
{
    let t = s.drop_first();
    lemma_word_len_bound(t);
    if t.len() > 0 && !is_space(t[0]) {
        lemma_word_is_run(t);
        assert forall|k: int| 0 <= k < word_len(s) implies !is_space(#[trigger] s[k]) by {
            if k > 0 {
                assert(s[k] == t[k - 1]);
            }
        }
    }
}

proof fn lemma_words_of_word_then(w: Seq<char>, rest: Seq<char>)
    requires
        is_word(w),
        rest.len() == 0 || is_space(rest[0]),
    ensures
        words(w + rest) == seq![w] + words(rest),
{
    let s = w + rest;
    assert forall|k: int| 0 <= k < w.len() implies !is_space(#[trigger] s[k]) by {
        assert(s[k] == w[k]);
    }
    if w.len() < s.len() {
        assert(s[w.len() as int] == rest[0]);
    }
    lemma_word_len_exact(s, w.len() as int);
    assert(s[0] == w[0]);
    assert(s.take(w.len() as int) == w);
    assert(s.skip(w.len() as int) == rest);
}

pub proof fn lemma_joined_front(w: Seq<char>, ws: Seq<Seq<char>>, sep: Seq<char>)
    ensures
        joined(seq![w] + ws, sep) == if ws.len() == 0 { w } else { w + sep + joined(ws, sep) },
    decreases ws.len(),
{
    if ws.len() == 0 {
        assert(seq![w] + ws == seq![w]);
    } else {
        let v = seq![w] + ws;
        assert(v.drop_last() == seq![w] + ws.drop_last());
        assert(v.last() == ws.last());
        lemma_joined_front(w, ws.drop_last(), sep);
        if ws.len() == 1 {
            assert(ws.drop_last().len() == 0);
            assert(joined(ws, sep) == ws[0]);
        } else {
            assert(joined(ws, sep) == joined(ws.drop_last(), sep) + sep + ws.last());
        }
        assert(w + sep + joined(ws.drop_last(), sep) + sep + ws.last() =~= w + sep + (joined(ws.drop_last(), sep) + sep + ws.last()));
    }
}

proof fn lemma_words_of_joined(ws: Seq<Seq<char>>)
    requires
        forall|i: int| 0 <= i < ws.len() ==> is_word(#[trigger] ws[i]),
    ensures
        words(joined(ws, seq![' '])) == ws,
    decreases ws.len(),
{
    if ws.len() == 0 {
    } else {
        let w = ws[0];
        let rest = ws.drop_first();
        assert(ws == seq![w] + rest);
        assert(is_word(ws[0]));
        assert forall|i: int| 0 <= i < rest.len() implies is_word(#[trigger] rest[i]) by {
            assert(rest[i] == ws[i + 1]);
        }
        lemma_words_of_joined(rest);
        lemma_joined_front(w, rest, seq![' ']);
        if rest.len() == 0 {
            lemma_words_of_word_then(w, Seq::empty());
            assert(w + Seq::<char>::empty() == w);
            assert(seq![w] + Seq::<Seq<char>>::empty() == ws);
        } else {
            let tail = seq![' '] + joined(rest, seq![' ']);
            assert(w + seq![' '] + joined(rest, seq![' ']) == w + tail);
            assert(is_space(tail[0]));
            lemma_words_of_word_then(w, tail);
            assert(tail.drop_first() == joined(rest, seq![' ']));
            assert(words(tail) == words(tail.drop_first()));
        }
    }
}

/// The title derived from a prompt is made of the prompt's first ten words,
/// in order and separated by single spaces; when that runs over 64
/// characters it keeps the first 64 and ends with `...`; a prompt without
/// words gives `Untitled Design`.
pub proof fn law_design_title_words(prompt: Seq<char>)
    ensures
        words(prompt).len() == 0 ==> design_title(prompt) == "Untitled Design"@,
        words(prompt).len() > 0 && joined(first_n(words(prompt), 10), seq![' ']).len() <= 64 ==> (
            words(design_title(prompt)) == first_n(words(prompt), 10)
            && design_title(prompt) == joined(first_n(words(prompt), 10), seq![' '])),
        words(prompt).len() > 0 && joined(first_n(words(prompt), 10), seq![' ']).len() > 64 ==> (
            design_title(prompt).len() == 67
            && design_title(prompt).take(64) == joined(first_n(words(prompt), 10), seq![' ']).take(64)
            && design_title(prompt).skip(64) == "..."@),
{
    reveal_strlit("...");
    let ws = first_n(words(prompt), 10);
    lemma_words_are_words(prompt);
    assert forall|i: int| 0 <= i < ws.len() implies is_word(#[trigger] ws[i]) by {
        assert(ws[i] == words(prompt)[i]);
    }
    lemma_words_of_joined(ws);
    let c = joined(ws, seq![' ']);
    if words(prompt).len() > 0 {
        assert(ws.len() > 0);
        assert(ws == seq![ws[0]] + ws.drop_first());
        lemma_joined_front(ws[0], ws.drop_first(), seq![' ']);
        assert(c.len() >= ws[0].len());
        assert(c.len() > 0);
        if c.len() > 64 {
            assert((c.take(64) + seq!['.', '.', '.']).skip(64) =~= "..."@);
            assert((c.take(64) + seq!['.', '.', '.']).take(64) =~= c.take(64));
        }
    } else {
        assert(ws.len() == 0);
    }
}

/// The title `derive_design_title` gives a prompt: its first ten words joined
/// by single spaces and cut to 64 characters, or `Untitled Design` when the
/// prompt has no words.
pub open spec fn design_title(prompt: Seq<char>) -> Seq<char> {
    let collapsed = joined(first_n(words(prompt), 10), seq![' ']);
    if collapsed.len() == 0 {
        "Untitled Design"@
    } else {
        truncated_for_log(collapsed, 64)
    }
}

/// The first ten words of `chars`, joined by single spaces.
fn collapse_words(chars: &Vec<char>) -> (out: String)
    ensures
        out@ == joined(first_n(words(chars@), 10), seq![' ']),
{
    let n: usize = chars.len();
    let mut out = String::new();
    let mut i: usize = 0;
    let mut count: usize = 0;
    let ghost mut taken: Seq<Seq<char>> = Seq::empty();
    assert(chars@.skip(0) == chars@);
    while i < n && count < 10
        invariant
            i <= n == chars@.len(),
            count <= 10,
            taken.len() == count,
            words(chars@) == taken + words(chars@.skip(i as int)),
            out@ == joined(taken, seq![' ']),
        decreases n - i,
    {
        let ghost t = chars@.skip(i as int);
        if is_space_char(chars[i]) {
            assert(t.drop_first() == chars@.skip(i + 1));
            i = i + 1;
        } else {
            let mut j: usize = i;
            while j < n && !is_space_char(chars[j])
                invariant
                    i <= j <= n == chars@.len(),
                    forall|k: int| i <= k < j ==> !is_space(#[trigger] chars@[k]),
                decreases n - j,
            {
                j = j + 1;
            }
            proof {
                assert forall|k: int| 0 <= k < j - i implies !is_space(#[trigger] t[k]) by {
                    assert(t[k] == chars@[k + i]);
                }
                if j < n {
                    assert(t[j - i] == chars@[j as int]);
                }
                lemma_word_len_exact(t, j - i);
                assert(t.take(j - i) == chars@.subrange(i as int, j as int));
                assert(t.skip(j - i) == chars@.skip(j as int));
                lemma_joined_push(taken, seq![' '], chars@.subrange(i as int, j as int));
            }
            if count > 0 {
                push_char(&mut out, ' ');
            }
            let mut k: usize = i;
            let ghost base = out@;
            while k < j
                invariant
                    i <= k <= j <= chars@.len(),
                    out@ == base + chars@.subrange(i as int, k as int),
                decreases j - k,
            {
                push_char(&mut out, chars[k]);
                assert(chars@.subrange(i as int, k + 1) == chars@.subrange(i as int, k as int).push(chars@[k as int]));
                k = k + 1;
            }
            proof {
                let w = chars@.subrange(i as int, j as int);
                assert(taken + words(t) == taken.push(w) + words(chars@.skip(j as int)));
                taken = taken.push(w);
            }
            count = count + 1;
            i = j;
        }
    }
    proof {
        if i == n {
            assert(chars@.skip(n as int) =~= Seq::<char>::empty());
            assert(words(chars@) =~= taken);
        } else {
            assert((taken + words(chars@.skip(i as int))).take(10) =~= taken);
        }
    }
    out
}

/// A short title for a design job, taken from the first words of its prompt.
pub fn derive_design_title(prompt: &str) -> (title: String)
    ensures
        title@ == design_title(prompt@),
{
    let chars = chars_of(prompt);
    let collapsed = collapse_words(&chars);
    if collapsed.as_str().unicode_len() == 0 {
        String::from_str("Untitled Design")
    } else {
        truncate_for_log(collapsed.as_str(), 64)
    }
}

/// The title `normalize_session_title` keeps: the trimmed input cut to 80
/// characters, or `Untitled Session` when nothing but white space was given.
pub open spec fn session_title(input: Option<Seq<char>>) -> Seq<char> {
    let t = trim(
        match input {
            Some(s) => s,
            None => Seq::empty(),
        },
    );
    if t.len() == 0 {
        "Untitled Session"@
    } else {
        truncated_for_log(t, 80)
    }
}

/// A session title is the trimmed text given, cut to 80 characters (`...`
/// marking a cut), or `Untitled Session` when nothing but white space is given.
pub proof fn law_session_title(input: Option<Seq<char>>)
    ensures
        session_title(input) == match input {
            Some(s) => if trim(s).len() == 0 {
                "Untitled Session"@
            } else if trim(s).len() <= 80 {
                trim(s)
            } else {
                trim(s).take(80) + "..."@
            },
            None => "Untitled Session"@,
        },
{
    reveal_strlit("...");
    assert(trim(Seq::<char>::empty()).len() == 0) by {
        crate::text::lemma_leading_spaces_bound(Seq::<char>::empty());
    }
}

/// Cleans a user-supplied session (or reference) title.
pub fn normalize_session_title(input: Option<&str>) -> (title: String)
    ensures
        title@ == session_title(
            match input {
                Some(s) => Some(s@),
                None => None,
            },
        ),
{
    let trimmed = match input {
        Some(s) => trim_str(s),
        None => String::new(),
    };
    if trimmed.as_str().unicode_len() == 0 {
        String::from_str("Untitled Session")
    } else {
        truncate_for_log(trimmed.as_str(), 80)
    }
}

} // verus!
