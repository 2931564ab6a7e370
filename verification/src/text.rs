use vstd::prelude::*;

verus! {

/// Appends one character to an owned string.
#[verifier::external_body]
pub(crate) fn push_char(s: &mut String, c: char)
    ensures
        final(s)@ == old(s)@.push(c),
{
    s.push(c);
}

/// The characters of a string slice, in order.
pub fn chars_of(s: &str) -> (out: Vec<char>)
    ensures
        out@ == s@,
{
    let mut out: Vec<char> = Vec::new();
    for c in it: s.chars()
        invariant
            out@ == it.seq().take(it.index()),
            it.seq() == s@,
    {
        out.push(c);
    }
    out
}

/// An owned string holding the characters `chars[from..to]`.
pub fn string_of_range(chars: &Vec<char>, from: usize, to: usize) -> (out: String)
    requires
        from <= to <= chars@.len(),
    ensures
        out@ == chars@.subrange(from as int, to as int),
{
    let mut out = String::new();
    let mut i: usize = from;
    while i < to
        invariant
            from <= i <= to <= chars@.len(),
            out@ == chars@.subrange(from as int, i as int),
        decreases to - i,
    {
        push_char(&mut out, chars[i]);
        assert(chars@.subrange(from as int, i + 1) == chars@.subrange(from as int, i as int).push(chars@[i as int]));
        i = i + 1;
    }
    out
}

/// Appends every character of `chars` to `out`.
pub fn push_all(out: &mut String, chars: &Vec<char>)
    ensures
        final(out)@ == old(out)@ + chars@,
{
    let mut i: usize = 0;
    while i < chars.len()
        invariant
            i <= chars@.len(),
            out@ == old(out)@ + chars@.take(i as int),
        decreases chars@.len() - i,
    {
        push_char(out, chars[i]);
        assert(chars@.take(i + 1) == chars@.take(i as int).push(chars@[i as int]));
        i = i + 1;
    }
    assert(chars@.take(chars@.len() as int) == chars@);
}

/// Whether two texts are equal, character for character.
pub fn eq_text(a: &str, b: &str) -> (r: bool)
    ensures
        r == (a@ == b@),
{
    let x = chars_of(a);
    let y = chars_of(b);
    if x.len() != y.len() {
        return false;
    }
    let mut i: usize = 0;
    while i < x.len()
        invariant
            i <= x@.len() == y@.len(),
            x@ == a@,
            y@ == b@,
            forall|k: int| 0 <= k < i ==> x@[k] == y@[k],
        decreases x@.len() - i,
    {
        if x[i] != y[i] {
            assert(x@[i as int] != y@[i as int]);
            return false;
        }
        i = i + 1;
    }
    assert(x@ =~= y@);
    true
}

/// The text of `o`, or `default` when there is none.
pub open spec fn text_or(o: Option<String>, default: Seq<char>) -> Seq<char> {
    match o {
        Some(s) => s@,
        None => default,
    }
}

/// Executable [`text_or`].
pub fn text_or_default(o: &Option<String>, default: &str) -> (r: String)
    ensures
        r@ == text_or(*o, default@),
{
    match o {
        Some(s) => s.clone(),
        None => String::from_str(default),
    }
}

/// Unicode `White_Space`: the characters that `char::is_whitespace` accepts and
/// that `str::trim` and `str::split_whitespace` treat as separators.
pub open spec fn is_space(c: char) -> bool {
    ||| ('\u{9}' <= c && c <= '\u{d}')
    ||| c == ' '
    ||| c == '\u{85}'
    ||| c == '\u{a0}'
    ||| c == '\u{1680}'
    ||| ('\u{2000}' <= c && c <= '\u{200a}')
    ||| c == '\u{2028}'
    ||| c == '\u{2029}'
    ||| c == '\u{202f}'
    ||| c == '\u{205f}'
    ||| c == '\u{3000}'
}

/// Executable form of [`is_space`].
pub fn is_space_char(c: char) -> (b: bool)
    ensures
        b == is_space(c),
{
    ('\u{9}' <= c && c <= '\u{d}') || c == ' ' || c == '\u{85}' || c == '\u{a0}' || c == '\u{1680}'
        || ('\u{2000}' <= c && c <= '\u{200a}') || c == '\u{2028}' || c == '\u{2029}'
        || c == '\u{202f}' || c == '\u{205f}' || c == '\u{3000}'
}

/// Number of white-space characters at the front of `s`.
pub open spec fn leading_spaces(s: Seq<char>) -> nat
    decreases s.len(),
{
    if s.len() == 0 {
        0
    } else if is_space(s[0]) {
        1 + leading_spaces(s.drop_first())
    } else {
        0
    }
}

/// Number of white-space characters at the back of `s`.
pub open spec fn trailing_spaces(s: Seq<char>) -> nat
    decreases s.len(),
{
    if s.len() == 0 {
        0
    } else if is_space(s.last()) {
        1 + trailing_spaces(s.drop_last())
    } else {
        0
    }
}

/// `s` without its leading and trailing white space (what `str::trim` keeps).
pub open spec fn trim(s: Seq<char>) -> Seq<char> {
    let t = s.skip(leading_spaces(s) as int);
    t.take(t.len() - trailing_spaces(t))
}

pub proof fn lemma_leading_spaces_bound(s: Seq<char>)
    ensures
        leading_spaces(s) <= s.len(),
        forall|k: int| 0 <= k < leading_spaces(s) ==> is_space(#[trigger] s[k]),
        leading_spaces(s) < s.len() ==> !is_space(s[leading_spaces(s) as int]),
    decreases s.len(),
{
    if s.len() > 0 && is_space(s[0]) {
        lemma_leading_spaces_bound(s.drop_first());
        assert forall|k: int| 0 <= k < leading_spaces(s) implies is_space(#[trigger] s[k]) by {
            if k > 0 {
                assert(s[k] == s.drop_first()[k - 1]);
            }
        }
    }
}

pub proof fn lemma_trailing_spaces_bound(s: Seq<char>)
    ensures
        trailing_spaces(s) <= s.len(),
        forall|k: int| s.len() - trailing_spaces(s) <= k < s.len() ==> is_space(#[trigger] s[k]),
        trailing_spaces(s) < s.len() ==> !is_space(s[s.len() - trailing_spaces(s) - 1]),
    decreases s.len(),
{
    if s.len() > 0 && is_space(s.last()) {
        lemma_trailing_spaces_bound(s.drop_last());
        assert forall|k: int| s.len() - trailing_spaces(s) <= k < s.len() implies is_space(#[trigger] s[k]) by {
            if k < s.len() - 1 {
                assert(s[k] == s.drop_last()[k]);
            }
        }
    }
}

/// A prefix of spaces of length `n` followed by a non-space (or the end)
/// is exactly what [`leading_spaces`] counts.
pub proof fn lemma_leading_spaces_exact(s: Seq<char>, n: int)
    requires
        0 <= n <= s.len(),
        forall|k: int| 0 <= k < n ==> is_space(#[trigger] s[k]),
        n < s.len() ==> !is_space(s[n]),
    ensures
        leading_spaces(s) == n,
    decreases n,
{
    if n > 0 {
        let t = s.drop_first();
        assert forall|k: int| 0 <= k < n - 1 implies is_space(#[trigger] t[k]) by {
            assert(t[k] == s[k + 1]);
        }
        if n - 1 < t.len() {
            assert(t[n - 1] == s[n]);
        }
        lemma_leading_spaces_exact(t, n - 1);
    }
}

/// A suffix of spaces of length `n` preceded by a non-space (or the start)
/// is exactly what [`trailing_spaces`] counts.
pub proof fn lemma_trailing_spaces_exact(s: Seq<char>, n: int)
    requires
        0 <= n <= s.len(),
        forall|k: int| s.len() - n <= k < s.len() ==> is_space(#[trigger] s[k]),
        n < s.len() ==> !is_space(s[s.len() - n - 1]),
    ensures
        trailing_spaces(s) == n,
    decreases n,
{
    if n > 0 {
        let t = s.drop_last();
        assert forall|k: int| t.len() - (n - 1) <= k < t.len() implies is_space(#[trigger] t[k]) by {
            assert(t[k] == s[k]);
        }
        if n - 1 < t.len() {
            assert(t[t.len() - (n - 1) - 1] == s[s.len() - n - 1]);
        }
        lemma_trailing_spaces_exact(t, n - 1);
    }
}

/// The bounds `[start, end)` of `trim(chars)` inside `chars`.
pub fn trim_bounds(chars: &Vec<char>) -> (r: (usize, usize))
    ensures
        r.0 <= r.1 <= chars@.len(),
        chars@.subrange(r.0 as int, r.1 as int) == trim(chars@),
{
    let n: usize = chars.len();
    let mut i: usize = 0;
    while i < n && is_space_char(chars[i])
        invariant
            i <= n == chars@.len(),
            forall|k: int| 0 <= k < i ==> is_space(#[trigger] chars@[k]),
        decreases n - i,
    {
        i = i + 1;
    }
    proof {
        lemma_leading_spaces_exact(chars@, i as int);
    }
    let ghost t = chars@.skip(i as int);
    let mut j: usize = n;
    while j > i && is_space_char(chars[j - 1])
        invariant
            i <= j <= n == chars@.len(),
            t == chars@.skip(i as int),
            forall|k: int| j <= k < n ==> is_space(#[trigger] chars@[k]),
        decreases j - i,
    {
        j = j - 1;
    }
    proof {
        let m = (n - j) as int;
        assert forall|k: int| t.len() - m <= k < t.len() implies is_space(#[trigger] t[k]) by {
            assert(t[k] == chars@[k + i]);
        }
        if m < t.len() {
            assert(t[t.len() - m - 1] == chars@[j - 1]);
        }
        lemma_trailing_spaces_exact(t, m);
        assert(chars@.subrange(i as int, j as int) == t.take(t.len() - m));
    }
    (i, j)
}

/// `str::trim`: the text without leading and trailing white space.
pub fn trim_str(s: &str) -> (out: String)
    ensures
        out@ == trim(s@),
{
    let chars = chars_of(s);
    let (a, b) = trim_bounds(&chars);
    string_of_range(&chars, a, b)
}

/// What `truncate_for_log` returns: at most `max` characters of `s`, followed
/// by `...` when characters were cut.
pub open spec fn truncated_for_log(s: Seq<char>, max: nat) -> Seq<char> {
    if s.len() <= max {
        s
    } else {
        s.take(max as int) + seq!['.', '.', '.']
    }
}

/// Shortens `value` to its first `max_chars` characters, marking a cut with `...`.
pub fn truncate_for_log(value: &str, max_chars: usize) -> (out: String)
    ensures
        out@ == truncated_for_log(value@, max_chars as nat),
{
    let chars = chars_of(value);
    if chars.len() <= max_chars {
        string_of_range(&chars, 0, chars.len())
    } else {
        let mut out = string_of_range(&chars, 0, max_chars);
        push_char(&mut out, '.');
        push_char(&mut out, '.');
        push_char(&mut out, '.');
        assert(chars@.subrange(0, max_chars as int) == chars@.take(max_chars as int));
        out
    }
}


/// Trimming takes off exactly the white space at both ends: the text is that
/// white space, the trimmed text and that white space again, and the trimmed
/// text, unless empty, neither starts nor ends with white space.
pub proof fn law_trim(s: Seq<char>)
    ensures
        exists|a: Seq<char>, b: Seq<char>| s == #[trigger] (a + trim(s) + b)
            && (forall|k: int| 0 <= k < a.len() ==> is_space(#[trigger] a[k]))
            && (forall|k: int| 0 <= k < b.len() ==> is_space(#[trigger] b[k])),
        trim(s).len() > 0 ==> !is_space(trim(s)[0]) && !is_space(trim(s).last()),
{
    lemma_leading_spaces_bound(s);
    let n = leading_spaces(s) as int;
    let t = s.skip(n);
    lemma_trailing_spaces_bound(t);
    let m = trailing_spaces(t) as int;
    let a = s.take(n);
    let b = t.skip(t.len() - m);
    assert(s =~= a + trim(s) + b);
    assert forall|k: int| 0 <= k < a.len() implies is_space(#[trigger] a[k]) by {
        assert(a[k] == s[k]);
    }
    assert forall|k: int| 0 <= k < b.len() implies is_space(#[trigger] b[k]) by {
        assert(b[k] == t[t.len() - m + k]);
    }
    if trim(s).len() > 0 {
        assert(trim(s)[0] == t[0]);
        assert(t[0] == s[n]);
        assert(trim(s).last() == t[t.len() - m - 1]);
    }
}

/// Cutting text for a log or a prompt keeps it whole when it fits in `max`
/// characters, and otherwise keeps the first `max` and appends `...`; cutting
/// tool output appends the line `... [truncated]` instead.
pub proof fn law_truncation(s: Seq<char>, max: nat)
    ensures
        truncated_for_log(s, max) == if s.len() <= max { s } else { s.take(max as int) + "..."@ },
        truncated_for_tool(s, max) == if s.len() <= max { s } else { s.take(max as int) + "\n... [truncated]"@ },
{
    reveal_strlit("...");
    reveal_strlit("\n... [truncated]");
    assert(tool_cut_marker() =~= "\n... [truncated]"@);
    assert(seq!['.', '.', '.'] =~= "..."@);
}

/// The marker that `truncate_for_tool` appends after a cut.
pub open spec fn tool_cut_marker() -> Seq<char> {
    seq!['\n', '.', '.', '.', ' ', '[', 't', 'r', 'u', 'n', 'c', 'a', 't', 'e', 'd', ']']
}

/// What `truncate_for_tool` returns: at most `max` characters of `s`, followed
/// by a `[truncated]` line when characters were cut.
pub open spec fn truncated_for_tool(s: Seq<char>, max: nat) -> Seq<char> {
    if s.len() <= max {
        s
    } else {
        s.take(max as int) + tool_cut_marker()
    }
}

/// Shortens tool output to `max_chars` characters, marking a cut on its own line.
pub fn truncate_for_tool(content: &str, max_chars: usize) -> (out: String)
    ensures
        out@ == truncated_for_tool(content@, max_chars as nat),
{
    let chars = chars_of(content);
    if chars.len() <= max_chars {
        string_of_range(&chars, 0, chars.len())
    } else {
        let mut out = string_of_range(&chars, 0, max_chars);
        let marker: Vec<char> = vec!['\n', '.', '.', '.', ' ', '[', 't', 'r', 'u', 'n', 'c', 'a', 't', 'e', 'd', ']'];
        push_all(&mut out, &marker);
        assert(chars@.subrange(0, max_chars as int) == chars@.take(max_chars as int));
        assert(marker@ == tool_cut_marker());
        out
    }
}

/// The entity that `html_escape` writes for one character.
pub open spec fn escape_char(c: char) -> Seq<char> {
    if c == '&' {
        seq!['&', 'a', 'm', 'p', ';']
    } else if c == '<' {
        seq!['&', 'l', 't', ';']
    } else if c == '>' {
        seq!['&', 'g', 't', ';']
    } else if c == '"' {
        seq!['&', 'q', 'u', 'o', 't', ';']
    } else if c == '\'' {
        seq!['&', '#', '3', '9', ';']
    } else {
        seq![c]
    }
}

/// `s` with each markup-significant character replaced by its entity.
pub open spec fn html_escaped(s: Seq<char>) -> Seq<char>
    decreases s.len(),
{
    if s.len() == 0 {
        Seq::empty()
    } else {
        html_escaped(s.drop_last()) + escape_char(s.last())
    }
}

/// Escapes `&`, `<`, `>`, `"` and `'` for use in HTML text and attribute values.
pub fn html_escape(input: &str) -> (out: String)
    ensures
        out@ == html_escaped(input@),
{
    let chars = chars_of(input);
    let mut out = String::new();
    let mut i: usize = 0;
    while i < chars.len()
        invariant
            i <= chars@.len(),
            chars@ == input@,
            out@ == html_escaped(chars@.take(i as int)),
        decreases chars@.len() - i,
    {
        let c = chars[i];
        if c == '&' {
            push_char(&mut out, '&'); push_char(&mut out, 'a'); push_char(&mut out, 'm');
            push_char(&mut out, 'p'); push_char(&mut out, ';');
        } else if c == '<' {
            push_char(&mut out, '&'); push_char(&mut out, 'l'); push_char(&mut out, 't');
            push_char(&mut out, ';');
        } else if c == '>' {
            push_char(&mut out, '&'); push_char(&mut out, 'g'); push_char(&mut out, 't');
            push_char(&mut out, ';');
        } else if c == '"' {
            push_char(&mut out, '&'); push_char(&mut out, 'q'); push_char(&mut out, 'u');
            push_char(&mut out, 'o'); push_char(&mut out, 't'); push_char(&mut out, ';');
        } else if c == '\'' {
            push_char(&mut out, '&'); push_char(&mut out, '#'); push_char(&mut out, '3');
            push_char(&mut out, '9'); push_char(&mut out, ';');
        } else {
            push_char(&mut out, c);
        }
        assert(chars@.take(i + 1).drop_last() == chars@.take(i as int));
        assert(chars@.take(i + 1).last() == c);
        i = i + 1;
    }
    assert(chars@.take(chars@.len() as int) == chars@);
    out
}

/// Escaped text holds no `<`, `>`, `"` or `'`, so it cannot open a tag or
/// close an attribute value.
/// Escaping goes character by character: the escape of two pieces is that of
/// the first followed by that of the second; `&`, `<`, `>`, `"` and `'` become
/// `&amp;`, `&lt;`, `&gt;`, `&quot;` and `&#39;`, and every other character stays.
pub proof fn law_html_escape(a: Seq<char>, b: Seq<char>, c: char)
    ensures
        html_escaped(a + b) == html_escaped(a) + html_escaped(b),
        html_escaped(seq![c]) == if c == '&' {
            "&amp;"@
        } else if c == '<' {
            "&lt;"@
        } else if c == '>' {
            "&gt;"@
        } else if c == '"' {
            "&quot;"@
        } else if c == '\'' {
            "&#39;"@
        } else {
            seq![c]
        },
    decreases b.len(),
{
    reveal_strlit("&amp;");
    reveal_strlit("&lt;");
    reveal_strlit("&gt;");
    reveal_strlit("&quot;");
    reveal_strlit("&#39;");
    assert(seq![c].drop_last() == Seq::<char>::empty());
    assert(seq![c].last() == c);
    assert(html_escaped(Seq::<char>::empty()) == Seq::<char>::empty());
    assert(html_escaped(seq![c]) == html_escaped(seq![c].drop_last()) + escape_char(seq![c].last()));
    assert(Seq::<char>::empty() + escape_char(c) =~= escape_char(c));
    assert(escape_char(c) =~= if c == '&' {
        "&amp;"@
    } else if c == '<' {
        "&lt;"@
    } else if c == '>' {
        "&gt;"@
    } else if c == '"' {
        "&quot;"@
    } else if c == '\'' {
        "&#39;"@
    } else {
        seq![c]
    });
    if b.len() == 0 {
        assert(a + b == a);
        assert(html_escaped(a) + Seq::<char>::empty() == html_escaped(a));
    } else {
        law_html_escape(a, b.drop_last(), c);
        assert((a + b).drop_last() == a + b.drop_last());
        assert((a + b).last() == b.last());
        assert(html_escaped(a) + html_escaped(b.drop_last()) + escape_char(b.last())
            =~= html_escaped(a) + (html_escaped(b.drop_last()) + escape_char(b.last())));
    }
}

pub proof fn lemma_html_escaped_is_inert(s: Seq<char>)
    ensures
        forall|k: int| 0 <= k < html_escaped(s).len() ==> {
            let c = #[trigger] html_escaped(s)[k];
            c != '<' && c != '>' && c != '"' && c != '\''
        },
    decreases s.len(),
{
    if s.len() > 0 {
        lemma_html_escaped_is_inert(s.drop_last());
        let a = html_escaped(s.drop_last());
        let b = escape_char(s.last());
        assert forall|k: int| 0 <= k < html_escaped(s).len() implies {
            let c = #[trigger] html_escaped(s)[k];
            c != '<' && c != '>' && c != '"' && c != '\''
        } by {
            if k < a.len() {
                assert(html_escaped(s)[k] == a[k]);
            } else {
                assert(html_escaped(s)[k] == b[k - a.len()]);
            }
        }
    }
}


/// `parts` joined with `sep` between consecutive items, as `[String]::join` does.
pub fn join_texts(parts: &Vec<String>, sep: &str) -> (out: String)
    ensures
        out@ == crate::titles::joined(parts.deep_view(), sep@),
{
    let mut out = String::new();
    let mut i: usize = 0;
    while i < parts.len()
        invariant
            i <= parts@.len(),
            out@ == crate::titles::joined(parts.deep_view().take(i as int), sep@),
        decreases parts@.len() - i,
    {
        proof {
            crate::titles::lemma_joined_push(parts.deep_view().take(i as int), sep@, parts@[i as int]@);
            assert(parts.deep_view().take(i + 1) == parts.deep_view().take(i as int).push(parts@[i as int]@));
        }
        if i > 0 {
            out.append(sep);
        }
        out.append(parts[i].as_str());
        i = i + 1;
    }
    assert(parts.deep_view().take(parts@.len() as int) == parts.deep_view());
    out
}


/// The ASCII digit for `d < 10`.
pub open spec fn digit_char(d: nat) -> char {
    (d + 48) as char
}

/// The decimal numeral of `n`, without sign or leading zeros.
pub open spec fn decimal(n: nat) -> Seq<char>
    decreases n,
{
    if n < 10 {
        seq![digit_char(n)]
    } else {
        decimal(n / 10).push(digit_char(n % 10))
    }
}

/// Appends the decimal numeral of `n` to `out`.
pub fn push_decimal(out: &mut String, n: u64)
    ensures
        final(out)@ == old(out)@ + decimal(n as nat),
    decreases n,
{
    if n >= 10 {
        push_decimal(out, n / 10);
    }
    let d: u8 = (n % 10) as u8;
    let c: char = (d + 48) as char;
    assert(c == digit_char((n % 10) as nat));
    push_char(out, c);
}

/// The decimal numeral of `n`.
pub fn decimal_text(n: u64) -> (out: String)
    ensures
        out@ == decimal(n as nat),
{
    let mut out = String::new();
    push_decimal(&mut out, n);
    out
}
} // verus!
