use vstd::prelude::*;
use crate::text::{is_space, leading_spaces, trailing_spaces, trim, trim_str, lemma_leading_spaces_bound, lemma_trailing_spaces_bound, lemma_leading_spaces_exact, lemma_trailing_spaces_exact};

verus! {

/// What `normalize_reference_handles` keeps of `hs`: each handle trimmed, in
/// order of first appearance, without blanks and without repeats.
pub open spec fn normalized_handles(hs: Seq<Seq<char>>) -> Seq<Seq<char>>
    decreases hs.len(),
{
    if hs.len() == 0 {
        Seq::empty()
    } else {
        let prev = normalized_handles(hs.drop_last());
        let t = trim(hs.last());
        if t.len() == 0 || prev.contains(t) {
            prev
        } else {
            prev.push(t)
        }
    }
}

/// Trims every handle and drops blanks and repeats, keeping first occurrences
/// in the order they came.
pub fn normalize_reference_handles(handles: Vec<String>) -> (normalized: Vec<String>)
    ensures
        normalized.deep_view() == normalized_handles(handles.deep_view()),
{
    let mut normalized: Vec<String> = Vec::new();
    let mut i: usize = 0;
    while i < handles.len()
        invariant
            i <= handles@.len(),
            normalized.deep_view() == normalized_handles(handles.deep_view().take(i as int)),
        decreases handles@.len() - i,
    {
        let trimmed = trim_str(handles[i].as_str());
        let ghost prev = normalized.deep_view();
        let mut seen: bool = false;
        let mut k: usize = 0;
        while k < normalized.len()
            invariant
                k <= normalized@.len(),
                prev == normalized.deep_view(),
                seen == (exists|t: int| 0 <= t < k && prev[t] == trimmed@),
            decreases normalized@.len() - k,
        {
            assert(prev[k as int] == normalized@[k as int]@);
            if normalized[k] == trimmed {
                seen = true;
            }
            proof {
                if !seen {
                    assert forall|t: int| 0 <= t < k + 1 implies prev[t] != trimmed@ by {
                        if t == k {
                            assert(prev[t] == normalized@[k as int]@);
                        }
                    }
                }
            }
            k = k + 1;
        }
        assert(seen == prev.contains(trimmed@));
        let ghost hs = handles.deep_view().take(i + 1);
        assert(hs.drop_last() == handles.deep_view().take(i as int));
        assert(hs.last() == handles[i as int]@);
        if trimmed.as_str().unicode_len() == 0 || seen {
        } else {
            normalized.push(trimmed);
            assert(normalized.deep_view() =~= prev.push(trimmed@));
        }
        i = i + 1;
    }
    assert(handles.deep_view().take(handles@.len() as int) == handles.deep_view());
    normalized
}

/// A sequence with no blank item, no untrimmed item and no repeat.
pub open spec fn is_clean_handle_list(xs: Seq<Seq<char>>) -> bool {
    &&& forall|k: int| 0 <= k < xs.len() ==> (#[trigger] xs[k]).len() > 0 && trim(xs[k]) == xs[k]
    &&& forall|a: int, b: int| 0 <= a < b < xs.len() ==> xs[a] != xs[b]
}

/// Trimming twice trims nothing more.
pub proof fn lemma_trim_idempotent(s: Seq<char>)
    ensures
        trim(trim(s)) == trim(s),
{
    let a = leading_spaces(s);
    lemma_leading_spaces_bound(s);
    let t = s.skip(a as int);
    lemma_trailing_spaces_bound(t);
    let b = trailing_spaces(t);
    let r = t.take(t.len() - b);
    assert(r == trim(s));
    if r.len() > 0 {
        assert(r[0] == s[a as int]);
        assert(!is_space(r[0]));
        lemma_leading_spaces_exact(r, 0);
        assert(r.skip(0) == r);
        assert(r[r.len() - 1] == t[t.len() - b - 1]);
        lemma_trailing_spaces_exact(r, 0);
        assert(r.take(r.len() as int) == r);
    } else {
        assert(trim(r) =~= r);
    }
}

proof fn lemma_normalized_clean(hs: Seq<Seq<char>>)
    ensures
        is_clean_handle_list(normalized_handles(hs)),
    decreases hs.len(),
{
    if hs.len() > 0 {
        lemma_normalized_clean(hs.drop_last());
        lemma_trim_idempotent(hs.last());
    }
}

proof fn lemma_clean_is_fixed(xs: Seq<Seq<char>>)
    requires
        is_clean_handle_list(xs),
    ensures
        normalized_handles(xs) == xs,
    decreases xs.len(),
{
    if xs.len() > 0 {
        let p = xs.drop_last();
        assert(is_clean_handle_list(p)) by {
            assert forall|k: int| 0 <= k < p.len() implies (#[trigger] p[k]).len() > 0 && trim(p[k]) == p[k] by {
                assert(p[k] == xs[k]);
            }
            assert forall|a: int, b: int| 0 <= a < b < p.len() implies p[a] != p[b] by {
                assert(p[a] == xs[a] && p[b] == xs[b]);
            }
        }
        lemma_clean_is_fixed(p);
        let last = xs[xs.len() - 1];
        assert(trim(xs.last()) == last);
        assert(!p.contains(last)) by {
            if p.contains(last) {
                let k = choose|k: int| 0 <= k < p.len() && p[k] == last;
                assert(xs[k] == xs[xs.len() - 1]);
            }
        }
        assert(p.push(last) == xs);
    }
}

/// Normalized handle lists are clean: every entry is trimmed and non-blank, and
/// no entry repeats.
pub proof fn law_normalized_handles_clean(hs: Seq<Seq<char>>)
    ensures
        is_clean_handle_list(normalized_handles(hs)),
{
    lemma_normalized_clean(hs);
}

/// Normalizing an already normalized list changes nothing.
pub proof fn law_normalize_handles_idempotent(hs: Seq<Seq<char>>)
    ensures
        normalized_handles(normalized_handles(hs)) == normalized_handles(hs),
{
    lemma_normalized_clean(hs);
    lemma_clean_is_fixed(normalized_handles(hs));
}

/// A handle is kept exactly when some input handle trims to it and it is not blank.
pub proof fn law_normalized_handles_members(hs: Seq<Seq<char>>, x: Seq<char>)
    ensures
        normalized_handles(hs).contains(x) <==> (x.len() > 0 && exists|k: int|
            0 <= k < hs.len() && trim(#[trigger] hs[k]) == x),
    decreases hs.len(),
{
    if hs.len() > 0 {
        let p = hs.drop_last();
        law_normalized_handles_members(p, x);
        let prev = normalized_handles(p);
        let t = trim(hs.last());
        if x.len() > 0 && exists|k: int| 0 <= k < hs.len() && trim(#[trigger] hs[k]) == x {
            let k = choose|k: int| 0 <= k < hs.len() && trim(#[trigger] hs[k]) == x;
            if k < hs.len() - 1 {
                assert(p[k] == hs[k]);
                assert(prev.contains(x));
                if !(t.len() == 0 || prev.contains(t)) {
                    let j = choose|j: int| 0 <= j < prev.len() && prev[j] == x;
                    assert(prev.push(t)[j] == x);
                }
            } else {
                if !(t.len() == 0 || prev.contains(t)) {
                    assert(prev.push(t)[prev.len() as int] == x);
                }
            }
        }
        if normalized_handles(hs).contains(x) {
            if prev.contains(x) {
                let k = choose|k: int| 0 <= k < p.len() && trim(#[trigger] p[k]) == x;
                assert(hs[k] == p[k]);
            } else {
                assert(x == t);
                assert(trim(hs[hs.len() - 1]) == x);
            }
        }
    }
}

} // verus!
