use vstd::prelude::*;
use crate::storm::StormRunRecord;
use crate::text::chars_of;

verus! {

/// One file or directory of a storm workspace, as the agent's listing shows it.
pub struct WorkspaceEntry {
    pub path: String,
    pub is_dir: bool,
    /// The size of a file; directories have none.
    pub size_bytes: Option<u64>,
}

/// `a` sorts strictly before `b` as `str::cmp` orders text: by the first
/// differing character's code point (UTF-8 keeps that order), and a proper
/// prefix first.
pub open spec fn text_lt(a: Seq<char>, b: Seq<char>) -> bool
    decreases a.len(),
{
    if a.len() == 0 {
        b.len() > 0
    } else if b.len() == 0 {
        false
    } else if a[0] != b[0] {
        (a[0] as u32) < (b[0] as u32)
    } else {
        text_lt(a.drop_first(), b.drop_first())
    }
}

proof fn lemma_text_lt_asymmetric(a: Seq<char>, b: Seq<char>)
    ensures
        text_lt(a, b) ==> !text_lt(b, a),
    decreases a.len(),
{
    if a.len() > 0 && b.len() > 0 && a[0] == b[0] {
        lemma_text_lt_asymmetric(a.drop_first(), b.drop_first());
    }
}

/// Whether `a` sorts strictly before `b`.
pub fn text_less(a: &str, b: &str) -> (r: bool)
    ensures
        r == text_lt(a@, b@),
{
    let x = chars_of(a);
    let y = chars_of(b);
    let mut i: usize = 0;
    assert(x@.skip(0) == x@ && y@.skip(0) == y@);
    while i < x.len() && i < y.len() && x[i] == y[i]
        invariant
            i <= x@.len(),
            i <= y@.len(),
            x@ == a@,
            y@ == b@,
            text_lt(a@, b@) == text_lt(x@.skip(i as int), y@.skip(i as int)),
        decreases x@.len() - i,
    {
        assert(x@.skip(i as int).drop_first() == x@.skip(i + 1));
        assert(y@.skip(i as int).drop_first() == y@.skip(i + 1));
        i = i + 1;
    }
    if i == x.len() {
        i < y.len()
    } else if i == y.len() {
        false
    } else {
        assert(x@.skip(i as int)[0] == x@[i as int]);
        assert(y@.skip(i as int)[0] == y@[i as int]);
        (x[i] as u32) < (y[i] as u32)
    }
}

/// `x` goes after every element of `sorted` that does not come after it
/// (path order), and before the others.
pub open spec fn path_insert(sorted: Seq<WorkspaceEntry>, x: WorkspaceEntry) -> Seq<WorkspaceEntry>
    decreases sorted.len(),
{
    if sorted.len() == 0 {
        seq![x]
    } else if !(text_lt((x).path@, (sorted.last()).path@)) {
        sorted.push(x)
    } else {
        path_insert(sorted.drop_last(), x).push(sorted.last())
    }
}

/// `xs` in stable order (path order): the order of insertion sort, which keeps
/// equal elements in the order they came.
pub open spec fn path_sorted(xs: Seq<WorkspaceEntry>) -> Seq<WorkspaceEntry>
    decreases xs.len(),
{
    if xs.len() == 0 {
        Seq::empty()
    } else {
        path_insert(path_sorted(xs.drop_last()), xs.last())
    }
}

proof fn lemma_path_insert_at(s: Seq<WorkspaceEntry>, x: WorkspaceEntry, p: int)
    requires
        0 <= p <= s.len(),
        forall|k: int| p <= k < s.len() ==> text_lt((x).path@, (#[trigger] s[k]).path@),
        p > 0 ==> !(text_lt((x).path@, (s[p - 1]).path@)),
    ensures
        path_insert(s, x) == s.insert(p, x),
    decreases s.len(),
{
    if s.len() == 0 {
        assert(s.insert(p, x) =~= seq![x]);
    } else if p == s.len() {
        assert(s.insert(p, x) =~= s.push(x));
    } else {
        assert(text_lt((x).path@, (s[s.len() - 1]).path@));
        assert forall|k: int| p <= k < s.drop_last().len() implies text_lt((x).path@, (#[trigger] s.drop_last()[k]).path@) by {
            assert(s.drop_last()[k] == s[k]);
        }
        if p > 0 {
            assert(s.drop_last()[p - 1] == s[p - 1]);
        }
        lemma_path_insert_at(s.drop_last(), x, p);
        assert(s.drop_last().insert(p, x).push(s.last()) =~= s.insert(p, x));
    }
}

proof fn lemma_path_insert_keeps(s: Seq<WorkspaceEntry>, x: WorkspaceEntry)
    ensures
        path_insert(s, x).len() == s.len() + 1,
        path_insert(s, x).to_multiset() == s.to_multiset().insert(x),
    decreases s.len(),
{
    broadcast use vstd::seq_lib::group_to_multiset_ensures;
    if s.len() == 0 {
        assert(seq![x] == Seq::<WorkspaceEntry>::empty().push(x));
    } else if !(text_lt((x).path@, (s.last()).path@)) {
    } else {
        let d = s.drop_last();
        lemma_path_insert_keeps(d, x);
        assert(d.push(s.last()) == s);
        assert(path_insert(d, x).push(s.last()).to_multiset() =~= s.to_multiset().insert(x));
    }
}

/// Each element of `s` after the first does not sort before the one ahead of it.
pub open spec fn path_ordered(s: Seq<WorkspaceEntry>) -> bool {
    forall|i: int| 0 < i < s.len() ==> !(text_lt((#[trigger] s[i]).path@, (s[i - 1]).path@))
}

proof fn lemma_path_insert_last(d: Seq<WorkspaceEntry>, x: WorkspaceEntry)
    ensures
        path_insert(d, x).last() == x || (d.len() > 0 && path_insert(d, x).last() == d.last()),
        path_insert(d, x).len() > 0,
    decreases d.len(),
{
    if d.len() > 0 && text_lt((x).path@, (d.last()).path@) {
        lemma_path_insert_last(d.drop_last(), x);
    }
}

proof fn lemma_path_insert_ordered(s: Seq<WorkspaceEntry>, x: WorkspaceEntry)
    requires
        path_ordered(s),
    ensures
        path_ordered(path_insert(s, x)),
    decreases s.len(),
{
    lemma_path_insert_keeps(s, x);
    if s.len() == 0 {
    } else if !(text_lt((x).path@, (s.last()).path@)) {
        let t = s.push(x);
        assert forall|i: int| 0 < i < t.len() implies !(text_lt((#[trigger] t[i]).path@, (t[i - 1]).path@)) by {
            if i < s.len() {
                assert(t[i] == s[i] && t[i - 1] == s[i - 1]);
            }
        }
    } else {
        let d = s.drop_last();
        assert forall|i: int| 0 < i < d.len() implies !(text_lt((#[trigger] d[i]).path@, (d[i - 1]).path@)) by {
            assert(d[i] == s[i] && d[i - 1] == s[i - 1]);
        }
        lemma_path_insert_ordered(d, x);
        lemma_path_insert_keeps(d, x);
        lemma_path_insert_last(d, x);
        lemma_text_lt_asymmetric(x.path@, s.last().path@);
        let t = path_insert(d, x);
        let u = t.push(s.last());
        if d.len() > 0 {
            assert(s[s.len() - 1] == s.last());
            assert(s[s.len() - 2] == d.last());
        }
        assert forall|i: int| 0 < i < u.len() implies !(text_lt((#[trigger] u[i]).path@, (u[i - 1]).path@)) by {
            if i < t.len() {
                assert(u[i] == t[i] && u[i - 1] == t[i - 1]);
            } else {
                assert(u[i] == s.last());
                assert(u[i - 1] == t.last());
            }
        }
    }
}

proof fn lemma_path_sorted_facts(xs: Seq<WorkspaceEntry>)
    ensures
        path_ordered(path_sorted(xs)),
        path_sorted(xs).to_multiset() == xs.to_multiset(),
    decreases xs.len(),
{
    broadcast use vstd::seq_lib::group_to_multiset_ensures;
    if xs.len() > 0 {
        lemma_path_sorted_facts(xs.drop_last());
        lemma_path_insert_ordered(path_sorted(xs.drop_last()), xs.last());
        lemma_path_insert_keeps(path_sorted(xs.drop_last()), xs.last());
        assert(xs.drop_last().push(xs.last()) == xs);
    }
}

/// Orders a workspace listing by path, keeping equal paths in the order found.
pub fn sort_workspace_entries(items: Vec<WorkspaceEntry>) -> (r: Vec<WorkspaceEntry>)
    ensures
        r@ == path_sorted(items@),
{
    let ghost given = items@;
    let total: usize = items.len();
    let mut rest = items;
    let mut r: Vec<WorkspaceEntry> = Vec::new();
    let mut n: usize = 0;
    while rest.len() > 0
        invariant
            n + rest@.len() == given.len(),
            given.len() == total,
            rest@ == given.skip(n as int),
            r@ == path_sorted(given.take(n as int)),
        decreases rest@.len(),
    {
        let x = rest.remove(0);
        assert(given.take(n + 1).drop_last() == given.take(n as int));
        assert(given.take(n + 1).last() == x) by {
            assert(given.skip(n as int)[0] == given[n as int]);
        }
        assert(rest@ == given.skip(n + 1));
        let mut p: usize = r.len();
        while p > 0 && text_less(&x.path.as_str(), &r[p - 1].path.as_str())
            invariant
                p <= r@.len(),
                forall|k: int| p <= k < r@.len() ==> text_lt((x).path@, (#[trigger] r@[k]).path@),
            decreases p,
        {
            p = p - 1;
        }
        proof {
            lemma_path_insert_at(r@, x, p as int);
        }
        r.insert(p, x);
        n = n + 1;
    }
    assert(given.take(given.len() as int) == given);
    r
}

/// `x` goes after every element of `sorted` that does not come after it
/// (creation time), and before the others.
pub open spec fn time_insert(sorted: Seq<StormRunRecord>, x: StormRunRecord) -> Seq<StormRunRecord>
    decreases sorted.len(),
{
    if sorted.len() == 0 {
        seq![x]
    } else if !((x).created_at < (sorted.last()).created_at) {
        sorted.push(x)
    } else {
        time_insert(sorted.drop_last(), x).push(sorted.last())
    }
}

/// `xs` in stable order (creation time): the order of insertion sort, which keeps
/// equal elements in the order they came.
pub open spec fn time_sorted(xs: Seq<StormRunRecord>) -> Seq<StormRunRecord>
    decreases xs.len(),
{
    if xs.len() == 0 {
        Seq::empty()
    } else {
        time_insert(time_sorted(xs.drop_last()), xs.last())
    }
}

proof fn lemma_time_insert_at(s: Seq<StormRunRecord>, x: StormRunRecord, p: int)
    requires
        0 <= p <= s.len(),
        forall|k: int| p <= k < s.len() ==> (x).created_at < (#[trigger] s[k]).created_at,
        p > 0 ==> !((x).created_at < (s[p - 1]).created_at),
    ensures
        time_insert(s, x) == s.insert(p, x),
    decreases s.len(),
{
    if s.len() == 0 {
        assert(s.insert(p, x) =~= seq![x]);
    } else if p == s.len() {
        assert(s.insert(p, x) =~= s.push(x));
    } else {
        assert((x).created_at < (s[s.len() - 1]).created_at);
        assert forall|k: int| p <= k < s.drop_last().len() implies (x).created_at < (#[trigger] s.drop_last()[k]).created_at by {
            assert(s.drop_last()[k] == s[k]);
        }
        if p > 0 {
            assert(s.drop_last()[p - 1] == s[p - 1]);
        }
        lemma_time_insert_at(s.drop_last(), x, p);
        assert(s.drop_last().insert(p, x).push(s.last()) =~= s.insert(p, x));
    }
}

proof fn lemma_time_insert_keeps(s: Seq<StormRunRecord>, x: StormRunRecord)
    ensures
        time_insert(s, x).len() == s.len() + 1,
        time_insert(s, x).to_multiset() == s.to_multiset().insert(x),
    decreases s.len(),
{
    broadcast use vstd::seq_lib::group_to_multiset_ensures;
    if s.len() == 0 {
        assert(seq![x] == Seq::<StormRunRecord>::empty().push(x));
    } else if !((x).created_at < (s.last()).created_at) {
    } else {
        let d = s.drop_last();
        lemma_time_insert_keeps(d, x);
        assert(d.push(s.last()) == s);
        assert(time_insert(d, x).push(s.last()).to_multiset() =~= s.to_multiset().insert(x));
    }
}

/// Each element of `s` after the first does not sort before the one ahead of it.
pub open spec fn time_ordered(s: Seq<StormRunRecord>) -> bool {
    forall|i: int| 0 < i < s.len() ==> !((#[trigger] s[i]).created_at < (s[i - 1]).created_at)
}

proof fn lemma_time_insert_last(d: Seq<StormRunRecord>, x: StormRunRecord)
    ensures
        time_insert(d, x).last() == x || (d.len() > 0 && time_insert(d, x).last() == d.last()),
        time_insert(d, x).len() > 0,
    decreases d.len(),
{
    if d.len() > 0 && (x).created_at < (d.last()).created_at {
        lemma_time_insert_last(d.drop_last(), x);
    }
}

proof fn lemma_time_insert_ordered(s: Seq<StormRunRecord>, x: StormRunRecord)
    requires
        time_ordered(s),
    ensures
        time_ordered(time_insert(s, x)),
    decreases s.len(),
{
    lemma_time_insert_keeps(s, x);
    if s.len() == 0 {
    } else if !((x).created_at < (s.last()).created_at) {
        let t = s.push(x);
        assert forall|i: int| 0 < i < t.len() implies !((#[trigger] t[i]).created_at < (t[i - 1]).created_at) by {
            if i < s.len() {
                assert(t[i] == s[i] && t[i - 1] == s[i - 1]);
            }
        }
    } else {
        let d = s.drop_last();
        assert forall|i: int| 0 < i < d.len() implies !((#[trigger] d[i]).created_at < (d[i - 1]).created_at) by {
            assert(d[i] == s[i] && d[i - 1] == s[i - 1]);
        }
        lemma_time_insert_ordered(d, x);
        lemma_time_insert_keeps(d, x);
        lemma_time_insert_last(d, x);
        
        let t = time_insert(d, x);
        let u = t.push(s.last());
        if d.len() > 0 {
            assert(s[s.len() - 1] == s.last());
            assert(s[s.len() - 2] == d.last());
        }
        assert forall|i: int| 0 < i < u.len() implies !((#[trigger] u[i]).created_at < (u[i - 1]).created_at) by {
            if i < t.len() {
                assert(u[i] == t[i] && u[i - 1] == t[i - 1]);
            } else {
                assert(u[i] == s.last());
                assert(u[i - 1] == t.last());
            }
        }
    }
}

proof fn lemma_time_sorted_facts(xs: Seq<StormRunRecord>)
    ensures
        time_ordered(time_sorted(xs)),
        time_sorted(xs).to_multiset() == xs.to_multiset(),
    decreases xs.len(),
{
    broadcast use vstd::seq_lib::group_to_multiset_ensures;
    if xs.len() > 0 {
        lemma_time_sorted_facts(xs.drop_last());
        lemma_time_insert_ordered(time_sorted(xs.drop_last()), xs.last());
        lemma_time_insert_keeps(time_sorted(xs.drop_last()), xs.last());
        assert(xs.drop_last().push(xs.last()) == xs);
    }
}

/// Orders runs by creation time, keeping runs created at the same instant in
/// the order given.
pub fn sort_runs_by_time(items: Vec<StormRunRecord>) -> (r: Vec<StormRunRecord>)
    ensures
        r@ == time_sorted(items@),
{
    let ghost given = items@;
    let total: usize = items.len();
    let mut rest = items;
    let mut r: Vec<StormRunRecord> = Vec::new();
    let mut n: usize = 0;
    while rest.len() > 0
        invariant
            n + rest@.len() == given.len(),
            given.len() == total,
            rest@ == given.skip(n as int),
            r@ == time_sorted(given.take(n as int)),
        decreases rest@.len(),
    {
        let x = rest.remove(0);
        assert(given.take(n + 1).drop_last() == given.take(n as int));
        assert(given.take(n + 1).last() == x) by {
            assert(given.skip(n as int)[0] == given[n as int]);
        }
        assert(rest@ == given.skip(n + 1));
        let mut p: usize = r.len();
        while p > 0 && &x.created_at < &r[p - 1].created_at
            invariant
                p <= r@.len(),
                forall|k: int| p <= k < r@.len() ==> (x).created_at < (#[trigger] r@[k]).created_at,
            decreases p,
        {
            p = p - 1;
        }
        proof {
            lemma_time_insert_at(r@, x, p as int);
        }
        r.insert(p, x);
        n = n + 1;
    }
    assert(given.take(given.len() as int) == given);
    r
}

/// `x` goes after every element of `sorted` that does not come after it
/// (newest first), and before the others.
pub open spec fn newest_insert(sorted: Seq<(usize, i64)>, x: (usize, i64)) -> Seq<(usize, i64)>
    decreases sorted.len(),
{
    if sorted.len() == 0 {
        seq![x]
    } else if !((x).1 > (sorted.last()).1) {
        sorted.push(x)
    } else {
        newest_insert(sorted.drop_last(), x).push(sorted.last())
    }
}

/// `xs` in stable order (newest first): the order of insertion sort, which keeps
/// equal elements in the order they came.
pub open spec fn newest_sorted(xs: Seq<(usize, i64)>) -> Seq<(usize, i64)>
    decreases xs.len(),
{
    if xs.len() == 0 {
        Seq::empty()
    } else {
        newest_insert(newest_sorted(xs.drop_last()), xs.last())
    }
}

proof fn lemma_newest_insert_at(s: Seq<(usize, i64)>, x: (usize, i64), p: int)
    requires
        0 <= p <= s.len(),
        forall|k: int| p <= k < s.len() ==> (x).1 > (#[trigger] s[k]).1,
        p > 0 ==> !((x).1 > (s[p - 1]).1),
    ensures
        newest_insert(s, x) == s.insert(p, x),
    decreases s.len(),
{
    if s.len() == 0 {
        assert(s.insert(p, x) =~= seq![x]);
    } else if p == s.len() {
        assert(s.insert(p, x) =~= s.push(x));
    } else {
        assert((x).1 > (s[s.len() - 1]).1);
        assert forall|k: int| p <= k < s.drop_last().len() implies (x).1 > (#[trigger] s.drop_last()[k]).1 by {
            assert(s.drop_last()[k] == s[k]);
        }
        if p > 0 {
            assert(s.drop_last()[p - 1] == s[p - 1]);
        }
        lemma_newest_insert_at(s.drop_last(), x, p);
        assert(s.drop_last().insert(p, x).push(s.last()) =~= s.insert(p, x));
    }
}

proof fn lemma_newest_insert_keeps(s: Seq<(usize, i64)>, x: (usize, i64))
    ensures
        newest_insert(s, x).len() == s.len() + 1,
        newest_insert(s, x).to_multiset() == s.to_multiset().insert(x),
    decreases s.len(),
{
    broadcast use vstd::seq_lib::group_to_multiset_ensures;
    if s.len() == 0 {
        assert(seq![x] == Seq::<(usize, i64)>::empty().push(x));
    } else if !((x).1 > (s.last()).1) {
    } else {
        let d = s.drop_last();
        lemma_newest_insert_keeps(d, x);
        assert(d.push(s.last()) == s);
        assert(newest_insert(d, x).push(s.last()).to_multiset() =~= s.to_multiset().insert(x));
    }
}

/// Each element of `s` after the first does not sort before the one ahead of it.
pub open spec fn newest_ordered(s: Seq<(usize, i64)>) -> bool {
    forall|i: int| 0 < i < s.len() ==> !((#[trigger] s[i]).1 > (s[i - 1]).1)
}

proof fn lemma_newest_insert_last(d: Seq<(usize, i64)>, x: (usize, i64))
    ensures
        newest_insert(d, x).last() == x || (d.len() > 0 && newest_insert(d, x).last() == d.last()),
        newest_insert(d, x).len() > 0,
    decreases d.len(),
{
    if d.len() > 0 && (x).1 > (d.last()).1 {
        lemma_newest_insert_last(d.drop_last(), x);
    }
}

proof fn lemma_newest_insert_ordered(s: Seq<(usize, i64)>, x: (usize, i64))
    requires
        newest_ordered(s),
    ensures
        newest_ordered(newest_insert(s, x)),
    decreases s.len(),
{
    lemma_newest_insert_keeps(s, x);
    if s.len() == 0 {
    } else if !((x).1 > (s.last()).1) {
        let t = s.push(x);
        assert forall|i: int| 0 < i < t.len() implies !((#[trigger] t[i]).1 > (t[i - 1]).1) by {
            if i < s.len() {
                assert(t[i] == s[i] && t[i - 1] == s[i - 1]);
            }
        }
    } else {
        let d = s.drop_last();
        assert forall|i: int| 0 < i < d.len() implies !((#[trigger] d[i]).1 > (d[i - 1]).1) by {
            assert(d[i] == s[i] && d[i - 1] == s[i - 1]);
        }
        lemma_newest_insert_ordered(d, x);
        lemma_newest_insert_keeps(d, x);
        lemma_newest_insert_last(d, x);
        
        let t = newest_insert(d, x);
        let u = t.push(s.last());
        if d.len() > 0 {
            assert(s[s.len() - 1] == s.last());
            assert(s[s.len() - 2] == d.last());
        }
        assert forall|i: int| 0 < i < u.len() implies !((#[trigger] u[i]).1 > (u[i - 1]).1) by {
            if i < t.len() {
                assert(u[i] == t[i] && u[i - 1] == t[i - 1]);
            } else {
                assert(u[i] == s.last());
                assert(u[i - 1] == t.last());
            }
        }
    }
}

proof fn lemma_newest_sorted_facts(xs: Seq<(usize, i64)>)
    ensures
        newest_ordered(newest_sorted(xs)),
        newest_sorted(xs).to_multiset() == xs.to_multiset(),
    decreases xs.len(),
{
    broadcast use vstd::seq_lib::group_to_multiset_ensures;
    if xs.len() > 0 {
        lemma_newest_sorted_facts(xs.drop_last());
        lemma_newest_insert_ordered(newest_sorted(xs.drop_last()), xs.last());
        lemma_newest_insert_keeps(newest_sorted(xs.drop_last()), xs.last());
        assert(xs.drop_last().push(xs.last()) == xs);
    }
}

/// Orders (position, instant) pairs newest first, keeping pairs of the same
/// instant in their order.
pub fn sort_newest_first(items: Vec<(usize, i64)>) -> (r: Vec<(usize, i64)>)
    ensures
        r@ == newest_sorted(items@),
{
    let ghost given = items@;
    let total: usize = items.len();
    let mut rest = items;
    let mut r: Vec<(usize, i64)> = Vec::new();
    let mut n: usize = 0;
    while rest.len() > 0
        invariant
            n + rest@.len() == given.len(),
            given.len() == total,
            rest@ == given.skip(n as int),
            r@ == newest_sorted(given.take(n as int)),
        decreases rest@.len(),
    {
        let x = rest.remove(0);
        assert(given.take(n + 1).drop_last() == given.take(n as int));
        assert(given.take(n + 1).last() == x) by {
            assert(given.skip(n as int)[0] == given[n as int]);
        }
        assert(rest@ == given.skip(n + 1));
        let mut p: usize = r.len();
        while p > 0 && &x.1 > &r[p - 1].1
            invariant
                p <= r@.len(),
                forall|k: int| p <= k < r@.len() ==> (x).1 > (#[trigger] r@[k]).1,
            decreases p,
        {
            p = p - 1;
        }
        proof {
            lemma_newest_insert_at(r@, x, p as int);
        }
        r.insert(p, x);
        n = n + 1;
    }
    assert(given.take(given.len() as int) == given);
    r
}

/// Pairs each instant with its position.
pub open spec fn positioned(times: Seq<i64>) -> Seq<(usize, i64)> {
    Seq::new(times.len(), |k: int| (k as usize, times[k]))
}

/// The order in which a listing shows items created at `times`: positions of
/// the items, newest first, items of the same instant in their given order.
pub fn newest_first_order(times: &Vec<i64>) -> (order: Vec<usize>)
    ensures
        order@ == newest_sorted(positioned(times@)).map_values(|p: (usize, i64)| p.0),
{
    let mut pairs: Vec<(usize, i64)> = Vec::new();
    let mut i: usize = 0;
    while i < times.len()
        invariant
            i <= times@.len(),
            pairs@ == positioned(times@).take(i as int),
        decreases times@.len() - i,
    {
        pairs.push((i, times[i]));
        assert(pairs@ =~= positioned(times@).take(i + 1));
        i = i + 1;
    }
    assert(positioned(times@).take(times@.len() as int) =~= positioned(times@));
    let sorted = sort_newest_first(pairs);
    let mut order: Vec<usize> = Vec::new();
    let mut k: usize = 0;
    while k < sorted.len()
        invariant
            k <= sorted@.len(),
            order@ == sorted@.take(k as int).map_values(|p: (usize, i64)| p.0),
        decreases sorted@.len() - k,
    {
        order.push(sorted[k].0);
        assert(order@ =~= sorted@.take(k + 1).map_values(|p: (usize, i64)| p.0));
        k = k + 1;
    }
    assert(sorted@.take(sorted@.len() as int) =~= sorted@);
    order
}

/// A listing shows every item once, newest first.
pub proof fn law_newest_first_order(times: Seq<i64>)
    ensures
        newest_ordered(newest_sorted(positioned(times))),
        newest_sorted(positioned(times)).to_multiset() == positioned(times).to_multiset(),
{
    lemma_newest_sorted_facts(positioned(times));
}

/// The runs of one session, oldest first.
pub open spec fn session_runs_of(runs: Seq<StormRunRecord>, session_id: u128) -> Seq<StormRunRecord> {
    time_sorted(runs.filter(|r: StormRunRecord| r.session_id == Some(session_id)))
}

/// Picks the runs of a session from all of a user's runs and orders them by
/// creation time, oldest first.
pub fn session_runs(runs: Vec<StormRunRecord>, session_id: u128) -> (r: Vec<StormRunRecord>)
    ensures
        r@ == session_runs_of(runs@, session_id),
{
    let ghost pred = |r: StormRunRecord| r.session_id == Some(session_id);
    let ghost given = runs@;
    let total: usize = runs.len();
    let mut rest = runs;
    let mut kept: Vec<StormRunRecord> = Vec::new();
    let mut n: usize = 0;
    while rest.len() > 0
        invariant
            n + rest@.len() == given.len(),
            given.len() == total,
            rest@ == given.skip(n as int),
            pred == (|r: StormRunRecord| r.session_id == Some(session_id)),
            kept@ == given.take(n as int).filter(pred),
        decreases rest@.len(),
    {
        let x = rest.remove(0);
        assert(given.skip(n as int)[0] == given[n as int]);
        assert(rest@ == given.skip(n + 1));
        assert(given.take(n + 1).drop_last() == given.take(n as int));
        assert(given.take(n + 1).last() == x);
        proof {
            reveal(Seq::filter);
        }
        let keep = match x.session_id {
            Some(s) => s == session_id,
            None => false,
        };
        if keep {
            kept.push(x);
        }
        n = n + 1;
    }
    assert(given.take(given.len() as int) == given);
    sort_runs_by_time(kept)
}

/// A workspace listing holds exactly the entries it was given, ordered by path.
pub proof fn law_workspace_listing_sorted(items: Seq<WorkspaceEntry>)
    ensures
        path_ordered(path_sorted(items)),
        path_sorted(items).to_multiset() == items.to_multiset(),
{
    lemma_path_sorted_facts(items);
}

/// The runs listed for a session are exactly that session's runs, oldest first.
pub proof fn law_session_runs_sorted(runs: Seq<StormRunRecord>, session_id: u128)
    ensures
        time_ordered(session_runs_of(runs, session_id)),
        session_runs_of(runs, session_id).to_multiset()
            == runs.filter(|r: StormRunRecord| r.session_id == Some(session_id)).to_multiset(),
        forall|i: int| 0 <= i < session_runs_of(runs, session_id).len()
            ==> (#[trigger] session_runs_of(runs, session_id)[i]).session_id == Some(session_id),
{
    let kept = runs.filter(|r: StormRunRecord| r.session_id == Some(session_id));
    lemma_time_sorted_facts(kept);
    assert forall|i: int| 0 <= i < session_runs_of(runs, session_id).len()
        implies (#[trigger] session_runs_of(runs, session_id)[i]).session_id == Some(session_id) by {
        broadcast use vstd::seq_lib::group_to_multiset_ensures;
        let s = session_runs_of(runs, session_id);
        assert(s.to_multiset().count(s[i]) > 0);
        assert(kept.contains(s[i]));
        let j = choose|j: int| 0 <= j < kept.len() && kept[j] == s[i];
        runs.lemma_filter_pred(|r: StormRunRecord| r.session_id == Some(session_id), j);
    }
}
} // verus!
