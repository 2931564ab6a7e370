use vstd::prelude::*;
use vstd::arithmetic::power::pow;
use crate::preview::ascii_lower;
use crate::text::{chars_of, push_char, trim, trim_str};

verus! {

/// The value of one hexadecimal digit, either case.
pub open spec fn hex_digit_value(c: char) -> Option<nat> {
    if '0' <= c && c <= '9' {
        Some((c as int - '0' as int) as nat)
    } else if 'a' <= c && c <= 'f' {
        Some((c as int - 'a' as int + 10) as nat)
    } else if 'A' <= c && c <= 'F' {
        Some((c as int - 'A' as int + 10) as nat)
    } else {
        None
    }
}

/// The number that the hexadecimal digits `s` spell, most significant first.
pub open spec fn hex_value(s: Seq<char>) -> Option<nat>
    decreases s.len(),
{
    if s.len() == 0 {
        Some(0)
    } else {
        match (hex_value(s.drop_last()), hex_digit_value(s.last())) {
            (Some(v), Some(d)) => Some(v * 16 + d),
            _ => None,
        }
    }
}

/// The value of a hyphenated UUID text `xxxxxxxx-xxxx-xxxx-xxxx-xxxxxxxxxxxx`.
pub open spec fn hyphenated_value(s: Seq<char>) -> Option<nat> {
    if s.len() == 36 && s[8] == '-' && s[13] == '-' && s[18] == '-' && s[23] == '-' {
        hex_value(
            s.subrange(0, 8) + s.subrange(9, 13) + s.subrange(14, 18) + s.subrange(19, 23)
                + s.subrange(24, 36),
        )
    } else {
        None
    }
}

pub open spec fn urn_prefix() -> Seq<char> {
    seq!['u', 'r', 'n', ':', 'u', 'u', 'i', 'd', ':']
}

/// The UUID that `Uuid::parse_str` reads from `s`: 32 hex digits, the hyphenated
/// form, the hyphenated form in braces, or the hyphenated form after a
/// `urn:uuid:` prefix of any ASCII case.
pub open spec fn uuid_value(s: Seq<char>) -> Option<nat> {
    if s.len() == 32 {
        hex_value(s)
    } else if s.len() == 36 {
        hyphenated_value(s)
    } else if s.len() == 38 && s[0] == '{' && s[37] == '}' {
        hyphenated_value(s.subrange(1, 37))
    } else if s.len() == 45 && s.take(9).map_values(|c: char| ascii_lower(c)) == urn_prefix() {
        hyphenated_value(s.skip(9))
    } else {
        None
    }
}

/// The lower-case hexadecimal digit for `d < 16`.
pub open spec fn lower_hex_char(d: int) -> char {
    if d < 10 {
        (d + '0' as int) as char
    } else {
        (d - 10 + 'a' as int) as char
    }
}

/// The 32 lower-case hex digits of `id`, most significant first.
pub open spec fn hex32(id: u128) -> Seq<char> {
    Seq::new(32, |k: int| lower_hex_char((id as int / pow(16, (31 - k) as nat)) % 16))
}

/// The hyphenated lower-case text of a UUID (its `Display` form).
pub open spec fn uuid_text(id: u128) -> Seq<char> {
    let h = hex32(id);
    h.subrange(0, 8) + seq!['-'] + h.subrange(8, 12) + seq!['-'] + h.subrange(12, 16) + seq!['-']
        + h.subrange(16, 20) + seq!['-'] + h.subrange(20, 32)
}

/// `uuid::Uuid::from_u128(id).to_string()`: the hyphenated lower-case text of
/// the UUID whose 128-bit big-endian value is `id`. The contract claims the
/// text is exactly [`uuid_text`], as the crate's `Display` and
/// `format_hyphenated` write it.
#[verifier::external_body]
pub(crate) fn uuid_to_text(id: u128) -> (s: String)
    ensures
        s@ == uuid_text(id),
{
    uuid::Uuid::from_u128(id).to_string()
}

/// `uuid::Uuid::parse_str(s)` read back as its 128-bit big-endian value. The
/// contract claims it succeeds exactly on the four shapes of [`uuid_value`]
/// (simple, hyphenated, braced, URN) and yields the value their hex digits spell.
#[verifier::external_body]
pub(crate) fn parse_uuid(s: &str) -> (r: Option<u128>)
    ensures
        r matches Some(v) ==> uuid_value(s@) == Some(v as nat),
        r is None <==> uuid_value(s@) is None,
{
    match uuid::Uuid::parse_str(s) {
        Ok(u) => Some(u.as_u128()),
        Err(_) => None,
    }
}

/// What `parse_optional_uuid` gives: no id for an absent or blank value, the
/// parsed id, or `Invalid <field>.` for text that is not a UUID.
pub open spec fn optional_uuid(value: Option<Seq<char>>, field: Seq<char>) -> Result<Option<nat>, Seq<char>> {
    match value {
        None => Ok(None),
        Some(v) => if trim(v).len() == 0 {
            Ok(None)
        } else {
            match uuid_value(trim(v)) {
                Some(id) => Ok(Some(id)),
                None => Err("Invalid "@ + field + "."@),
            }
        },
    }
}

/// Reads an optional UUID from a request field; blank counts as absent.
pub fn parse_optional_uuid(value: Option<&str>, field: &str) -> (r: Result<Option<u128>, String>)
    ensures
        match r {
            Ok(Some(id)) => optional_uuid(
                match value {
                    Some(v) => Some(v@),
                    None => None,
                },
                field@,
            ) == Ok::<Option<nat>, Seq<char>>(Some(id as nat)),
            Ok(None) => optional_uuid(
                match value {
                    Some(v) => Some(v@),
                    None => None,
                },
                field@,
            ) == Ok::<Option<nat>, Seq<char>>(None),
            Err(e) => optional_uuid(
                match value {
                    Some(v) => Some(v@),
                    None => None,
                },
                field@,
            ) == Err::<Option<nat>, Seq<char>>(e@),
        },
{
    match value {
        None => Ok(None),
        Some(v) => {
            let t = trim_str(v);
            if t.as_str().unicode_len() == 0 {
                Ok(None)
            } else {
                match parse_uuid(t.as_str()) {
                    Some(id) => Ok(Some(id)),
                    None => {
                        let mut e = String::from_str("Invalid ");
                        e.append(field);
                        e.append(".");
                        Err(e)
                    },
                }
            }
        },
    }
}

/// The S3 key under which a run's workspace archive is kept.
pub fn artifact_archive_key(user_id: u128, run_id: u128) -> (key: String)
    ensures
        key@ == "storm-runs/"@ + uuid_text(user_id) + "/"@ + uuid_text(run_id) + ".zip"@,
{
    let mut key = String::from_str("storm-runs/");
    let u = uuid_to_text(user_id);
    key.append(u.as_str());
    key.append("/");
    let r = uuid_to_text(run_id);
    key.append(r.as_str());
    key.append(".zip");
    key
}

pub open spec fn is_ascii_alnum(c: char) -> bool {
    ('0' <= c && c <= '9') || ('a' <= c && c <= 'z') || ('A' <= c && c <= 'Z')
}

/// One character of a download name: lower-cased ASCII letters and digits,
/// anything else becomes `-`.
pub open spec fn download_char(c: char) -> char {
    if is_ascii_alnum(c) {
        ascii_lower(c)
    } else {
        '-'
    }
}

/// `s` mapped through [`download_char`] with every run of `-` shortened to one.
pub open spec fn dashed(s: Seq<char>) -> Seq<char>
    decreases s.len(),
{
    if s.len() == 0 {
        Seq::empty()
    } else {
        let p = dashed(s.drop_last());
        let c = download_char(s.last());
        if c == '-' && p.len() > 0 && p.last() == '-' {
            p
        } else {
            p.push(c)
        }
    }
}

/// `s` without a leading and a trailing `-`.
pub open spec fn without_edge_dashes(s: Seq<char>) -> Seq<char> {
    let a: int = if s.len() > 0 && s[0] == '-' { 1 } else { 0 };
    let t = s.skip(a);
    if t.len() > 0 && t.last() == '-' {
        t.drop_last()
    } else {
        t
    }
}

/// The file name offered for a run's ZIP download.
pub open spec fn download_name(title: Seq<char>, run_id: u128) -> Seq<char> {
    let base = without_edge_dashes(dashed(title));
    if base.len() == 0 {
        "designstorm-"@ + uuid_text(run_id) + ".zip"@
    } else {
        base + "-"@ + uuid_text(run_id) + ".zip"@
    }
}

/// Builds a safe ZIP file name from a run title: lower-case ASCII letters and
/// digits separated by single dashes, followed by the run id.
pub fn sanitize_download_name(title: &str, run_id: u128) -> (name: String)
    ensures
        name@ == download_name(title@, run_id),
{
    let chars = chars_of(title);
    let mut mapped: Vec<char> = Vec::new();
    let mut i: usize = 0;
    while i < chars.len()
        invariant
            i <= chars@.len(),
            mapped@ == dashed(chars@.take(i as int)),
        decreases chars@.len() - i,
    {
        let c = chars[i];
        let d: char = if ('0' <= c && c <= '9') || ('a' <= c && c <= 'z') {
            c
        } else if 'A' <= c && c <= 'Z' {
            crate::preview::lower_char(c)
        } else {
            '-'
        };
        assert(d == download_char(chars@[i as int]));
        assert(chars@.take(i + 1).drop_last() == chars@.take(i as int));
        let n: usize = mapped.len();
        if d == '-' && n > 0 && mapped[n - 1] == '-' {
        } else {
            mapped.push(d);
        }
        i = i + 1;
    }
    assert(chars@.take(chars@.len() as int) == chars@);
    let n: usize = mapped.len();
    let a: usize = if n > 0 && mapped[0] == '-' { 1 } else { 0 };
    let b: usize = if n > a && mapped[n - 1] == '-' { n - 1 } else { n };
    proof {
        let t = mapped@.skip(a as int);
        if t.len() > 0 {
            assert(t.last() == mapped@[n - 1]);
        }
        assert(mapped@.subrange(a as int, b as int) == without_edge_dashes(mapped@));
    }
    let id = uuid_to_text(run_id);
    let mut name = String::new();
    if b == a {
        name.append("designstorm-");
    } else {
        let mut k: usize = a;
        while k < b
            invariant
                a <= k <= b <= mapped@.len(),
                name@ == mapped@.subrange(a as int, k as int),
            decreases b - k,
        {
            push_char(&mut name, mapped[k]);
            assert(mapped@.subrange(a as int, k + 1) == mapped@.subrange(a as int, k as int).push(mapped@[k as int]));
            k = k + 1;
        }
        name.append("-");
    }
    name.append(id.as_str());
    name.append(".zip");
    name
}


/// The `n` lowest hexadecimal digits of `x`, most significant first.
pub open spec fn hex_digits(x: nat, n: nat) -> Seq<char> {
    Seq::new(n, |k: int| lower_hex_char((x as int / pow(16, (n - 1 - k) as nat)) % 16))
}

proof fn lemma_hex_digit_round_trip(d: int)
    requires
        0 <= d < 16,
    ensures
        hex_digit_value(lower_hex_char(d)) == Some(d as nat),
{
}

proof fn lemma_hex_digits_value(x: nat, n: nat)
    ensures
        hex_value(hex_digits(x, n)) == Some((x as int % pow(16, n)) as nat),
    decreases n,
{
    vstd::arithmetic::power::lemma_pow_positive(16, n);
    if n == 0 {
        assert(hex_digits(x, n) =~= Seq::<char>::empty());
        assert(pow(16, 0) == 1) by {
            vstd::arithmetic::power::lemma_pow0(16);
        }
    } else {
        let s = hex_digits(x, n);
        let m = (n - 1) as nat;
        vstd::arithmetic::power::lemma_pow_positive(16, m);
        assert forall|k: int| 0 <= k < m implies #[trigger] s.drop_last()[k] == hex_digits(x / 16, m)[k] by {
            let e = (m - 1 - k) as nat;
            vstd::arithmetic::power::lemma_pow_positive(16, e);
            assert(pow(16, (n - 1 - k) as nat) == 16 * pow(16, e)) by {
                reveal(pow);
            }
            vstd::arithmetic::div_mod::lemma_div_denominator(x as int, 16, pow(16, e));
        }
        assert(s.drop_last() =~= hex_digits(x / 16, m));
        lemma_hex_digits_value(x / 16, m);
        assert(pow(16, 0) == 1) by {
            vstd::arithmetic::power::lemma_pow0(16);
        }
        assert(s.last() == lower_hex_char(x as int % 16));
        lemma_hex_digit_round_trip(x as int % 16);
        assert(pow(16, n) == 16 * pow(16, m)) by {
            reveal(pow);
        }
        vstd::arithmetic::div_mod::lemma_mod_breakdown(x as int, 16, pow(16, m));
    }
}

/// The text of a UUID reads back as the same UUID.
pub proof fn law_uuid_text_reads_back(id: u128)
    ensures
        uuid_value(uuid_text(id)) == Some(id as nat),
{
    let h = hex32(id);
    assert(h =~= hex_digits(id as nat, 32));
    lemma_hex_digits_value(id as nat, 32);
    assert(pow(16, 32) == 0x1_0000_0000_0000_0000_0000_0000_0000_0000int) by {
        reveal_with_fuel(pow, 33);
    }
    vstd::arithmetic::div_mod::lemma_small_mod(id as nat, 0x1_0000_0000_0000_0000_0000_0000_0000_0000nat);
    let t = uuid_text(id);
    assert(t.len() == 36);
    assert(t.subrange(0, 8) + t.subrange(9, 13) + t.subrange(14, 18) + t.subrange(19, 23) + t.subrange(24, 36) =~= h);
}
proof fn lemma_filter_push(s: Seq<char>, x: char, p: spec_fn(char) -> bool)
    ensures
        s.push(x).filter(p) == if p(x) { s.filter(p).push(x) } else { s.filter(p) },
{
    Seq::filter_distributes_over_add(s, seq![x], p);
    assert(s.push(x) == s + seq![x]);
    reveal(Seq::filter);
    assert(seq![x].drop_last() == Seq::<char>::empty());
    assert(Seq::<char>::empty().filter(p) =~= Seq::<char>::empty());
    if p(x) {
        assert(seq![x].filter(p) == seq![x]);
    } else {
        assert(seq![x].filter(p) =~= Seq::<char>::empty());
    }
}

proof fn lemma_dashed_shape(s: Seq<char>)
    ensures
        dashed(s).filter(|c: char| c != '-') == s.filter(|c: char| is_ascii_alnum(c)).map_values(|c: char| ascii_lower(c)),
        forall|i: int| 0 <= i < dashed(s).len() ==> #[trigger] dashed(s)[i] == '-' || ('0' <= dashed(s)[i] && dashed(s)[i] <= '9')
            || ('a' <= dashed(s)[i] && dashed(s)[i] <= 'z'),
        forall|i: int| 0 <= i < dashed(s).len() - 1 ==> !(#[trigger] dashed(s)[i] == '-' && dashed(s)[i + 1] == '-'),
    decreases s.len(),
{
    if s.len() > 0 {
        let init = s.drop_last();
        let x = s.last();
        lemma_dashed_shape(init);
        assert(init.push(x) == s);
        let nd = |c: char| c != '-';
        let al = |c: char| is_ascii_alnum(c);
        let lo = |c: char| ascii_lower(c);
        let p = dashed(init);
        let c = download_char(x);
        lemma_filter_push(init, x, al);
        if al(x) {
            assert(init.filter(al).push(x).map_values(lo) =~= init.filter(al).map_values(lo).push(ascii_lower(x)));
        }
        if c == '-' && p.len() > 0 && p.last() == '-' {
        } else {
            lemma_filter_push(p, c, nd);
        }
    }
}

proof fn lemma_edge_dashes_shape(d: Seq<char>)
    requires
        forall|i: int| 0 <= i < d.len() - 1 ==> !(#[trigger] d[i] == '-' && d[i + 1] == '-'),
    ensures
        without_edge_dashes(d).filter(|c: char| c != '-') == d.filter(|c: char| c != '-'),
        forall|i: int| 0 <= i < without_edge_dashes(d).len() ==> #[trigger] without_edge_dashes(d)[i] == d[i + (if d.len() > 0 && d[0] == '-' { 1int } else { 0 })],
        without_edge_dashes(d).len() > 0 ==> without_edge_dashes(d)[0] != '-' && without_edge_dashes(d).last() != '-',
        forall|i: int| 0 <= i < without_edge_dashes(d).len() - 1 ==> !(#[trigger] without_edge_dashes(d)[i] == '-' && without_edge_dashes(d)[i + 1] == '-'),
{
    let nd = |c: char| c != '-';
    let a: int = if d.len() > 0 && d[0] == '-' { 1 } else { 0 };
    let t = d.skip(a);
    if a == 1 {
        assert(d == seq![d[0]] + t);
        Seq::filter_distributes_over_add(seq![d[0]], t, nd);
        lemma_filter_push(Seq::<char>::empty(), d[0], nd);
        assert(Seq::<char>::empty().push(d[0]) == seq![d[0]]);
        assert(Seq::<char>::empty().filter(nd) =~= Seq::<char>::empty()) by { reveal(Seq::filter); }
        assert(seq![d[0]].filter(nd) =~= Seq::<char>::empty());
        assert(d.filter(nd) == t.filter(nd));
        if t.len() > 0 {
            assert(t[0] == d[1]);
        }
    } else {
        assert(t == d);
    }
    if t.len() > 0 && t.last() == '-' {
        let u = t.drop_last();
        assert(u.push(t.last()) == t);
        lemma_filter_push(u, t.last(), nd);
        if u.len() > 0 {
            assert(u.last() == t[t.len() - 2]);
            assert(t[t.len() - 2] == d[t.len() - 2 + a]);
            assert(d[t.len() - 1 + a] == '-');
        }
    }
}

/// The download name of a run: the title's ASCII letters and digits,
/// lower-cased and in their order, with single dashes standing for whatever
/// separated them (never at either end), then `-`, the run id and `.zip`; or
/// `designstorm-`, the run id and `.zip` when the title has no ASCII letter or
/// digit.
pub proof fn law_download_name(title: Seq<char>, run_id: u128)
    ensures
        ({
            let kept = title.filter(|c: char| ('0' <= c && c <= '9') || ('a' <= c && c <= 'z') || ('A' <= c && c <= 'Z'))
                .map_values(|c: char| if 'A' <= c && c <= 'Z' { ((c as int) + 32) as char } else { c });
            &&& kept.len() == 0 ==> download_name(title, run_id) == "designstorm-"@ + uuid_text(run_id) + ".zip"@
            &&& kept.len() > 0 ==> exists|stem: Seq<char>| {
                &&& download_name(title, run_id) == #[trigger] (stem + "-"@ + uuid_text(run_id) + ".zip"@)
                &&& stem.filter(|c: char| c != '-') == kept
                &&& stem.len() > 0 && stem[0] != '-' && stem.last() != '-'
                &&& forall|i: int| 0 <= i < stem.len() ==> #[trigger] stem[i] == '-' || ('0' <= stem[i] && stem[i] <= '9')
                    || ('a' <= stem[i] && stem[i] <= 'z')
                &&& forall|i: int| 0 <= i < stem.len() - 1 ==> !(#[trigger] stem[i] == '-' && stem[i + 1] == '-')
            }
        }),
{
    let al = |c: char| is_ascii_alnum(c);
    let lo = |c: char| ascii_lower(c);
    let al2 = |c: char| ('0' <= c && c <= '9') || ('a' <= c && c <= 'z') || ('A' <= c && c <= 'Z');
    let lo2 = |c: char| if 'A' <= c && c <= 'Z' { ((c as int) + 32) as char } else { c };
    assert(al =~= al2);
    assert(lo =~= lo2);
    let d = dashed(title);
    lemma_dashed_shape(title);
    lemma_edge_dashes_shape(d);
    let stem = without_edge_dashes(d);
    let kept = title.filter(al2).map_values(lo2);
    assert(stem.filter(|c: char| c != '-') == kept);
    assert forall|i: int| 0 <= i < stem.len() implies #[trigger] stem[i] == '-' || ('0' <= stem[i] && stem[i] <= '9')
        || ('a' <= stem[i] && stem[i] <= 'z') by {
        let a: int = if d.len() > 0 && d[0] == '-' { 1 } else { 0 };
        assert(stem[i] == d[i + a]);
    }
    if stem.len() == 0 {
        assert(stem.filter(|c: char| c != '-') =~= Seq::<char>::empty()) by { reveal(Seq::filter); }
    } else {
        if kept.len() == 0 {
            assert(stem.filter(|c: char| c != '-').len() == 0);
            stem.lemma_filter_contains(|c: char| c != '-', 0);
        }
        assert(download_name(title, run_id) == stem + "-"@ + uuid_text(run_id) + ".zip"@);
    }
}

} // verus!
