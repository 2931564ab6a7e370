use vstd::prelude::*;
use crate::ids::{parse_uuid, uuid_value};
use crate::text::{chars_of, push_char, text_or, trim, trim_str};
use crate::workspace::{lemma_split_piece, split_on};

verus! {

/// What one storm generation starts from.
pub struct StormGenerationInput {
    pub prompt: String,
    pub draft_mode: Option<String>,
    pub source_ids: Vec<u128>,
    pub asset_ids: Vec<(u128, String)>,
    pub session_id: Option<u128>,
    pub iterates_on_id: Option<u128>,
    pub fallback_title: Option<String>,
}

/// The ids named in comma-separated `fragments`: blank fragments are skipped,
/// and the first fragment that is not a UUID is reported.
pub open spec fn source_ids_from(fragments: Seq<Seq<char>>) -> Result<Seq<u128>, Seq<char>>
    decreases fragments.len(),
{
    if fragments.len() == 0 {
        Ok(Seq::empty())
    } else {
        let t = trim(fragments[0]);
        if t.len() == 0 {
            source_ids_from(fragments.drop_first())
        } else {
            match uuid_value(t) {
                None => Err("Invalid source id: "@ + t),
                Some(v) => match source_ids_from(fragments.drop_first()) {
                    Ok(rest) => Ok(seq![v as u128] + rest),
                    Err(e) => Err(e),
                },
            }
        }
    }
}

/// The draft mode kept from a request: trimmed, and dropped when blank.
pub open spec fn draft_mode_of(d: Option<String>) -> Option<Seq<char>> {
    match d {
        Some(s) => if trim(s@).len() == 0 {
            None
        } else {
            Some(trim(s@))
        },
        None => None,
    }
}

pub open spec fn view_opt(o: Option<String>) -> Option<Seq<char>> {
    match o {
        Some(s) => Some(s@),
        None => None,
    }
}

/// Reading a comma-separated list of source ids goes fragment by fragment: a
/// blank fragment names nothing, any other fragment is trimmed and must be a
/// UUID, else `Invalid source id: ` and the trimmed fragment is the error; the
/// ids of two runs of fragments are those of the first followed by those of
/// the second, and the first failing fragment decides the error.
pub proof fn law_source_ids(f: Seq<char>, a: Seq<Seq<char>>, b: Seq<Seq<char>>)
    ensures
        source_ids_from(Seq::empty()) == Ok::<Seq<u128>, Seq<char>>(Seq::empty()),
        source_ids_from(seq![f]) == if trim(f).len() == 0 {
            Ok::<Seq<u128>, Seq<char>>(Seq::empty())
        } else {
            match uuid_value(trim(f)) {
                Some(v) => Ok(seq![v as u128]),
                None => Err("Invalid source id: "@ + trim(f)),
            }
        },
        source_ids_from(a + b) == match source_ids_from(a) {
            Err(e) => Err(e),
            Ok(x) => match source_ids_from(b) {
                Ok(y) => Ok(x + y),
                Err(e) => Err(e),
            },
        },
    decreases a.len(),
{
    assert(seq![f].drop_first() == Seq::<Seq<char>>::empty());
    if uuid_value(trim(f)) is Some {
        assert(seq![uuid_value(trim(f))->0 as u128] + Seq::<u128>::empty() == seq![uuid_value(trim(f))->0 as u128]);
    }
    if a.len() > 0 {
        assert((a + b).drop_first() == a.drop_first() + b);
        assert((a + b)[0] == a[0]);
        law_source_ids(f, a.drop_first(), b);
        match source_ids_from(a.drop_first()) {
            Ok(x) => match source_ids_from(b) {
                Ok(y) => {
                    if trim(a[0]).len() > 0 && uuid_value(trim(a[0])) is Some {
                        let v = uuid_value(trim(a[0]))->0 as u128;
                        assert(seq![v] + (x + y) == (seq![v] + x) + y);
                    }
                },
                Err(_) => {},
            },
            Err(_) => {},
        }
    } else {
        assert(a + b == b);
    }
}

impl StormGenerationInput {
    /// Reads a storm request: the prompt must hold more than white space, the
    /// optional draft mode is trimmed, and `source_ids` is a comma-separated
    /// list of UUIDs in which blank entries are ignored.
    pub fn from_prompt_and_sources(
        prompt: String,
        draft_mode: Option<String>,
        source_ids: Option<String>,
    ) -> (r: Result<Self, String>)
        ensures
            trim(prompt@).len() == 0 ==> r is Err,
            r matches Err(e) ==> {
                ||| trim(prompt@).len() == 0 && e@ == "Seed prompt is required."@
                ||| trim(prompt@).len() > 0 && source_ids_from(split_on(text_or(source_ids, Seq::empty()), ',')) == Err::<Seq<u128>, Seq<char>>(e@)
            },
            r matches Ok(input) ==> {
                &&& trim(prompt@).len() > 0
                &&& input.prompt@ == trim(prompt@)
                &&& view_opt(input.draft_mode) == draft_mode_of(draft_mode)
                &&& source_ids_from(split_on(text_or(source_ids, Seq::empty()), ',')) == Ok::<Seq<u128>, Seq<char>>(input.source_ids@)
                &&& input.asset_ids@.len() == 0
                &&& input.session_id is None
                &&& input.iterates_on_id is None
                &&& input.fallback_title is None
            },
            trim(prompt@).len() > 0 && source_ids_from(split_on(text_or(source_ids, Seq::empty()), ',')) is Ok ==> r is Ok,
    {
        let seed = trim_str(prompt.as_str());
        if seed.as_str().unicode_len() == 0 {
            return Err(String::from_str("Seed prompt is required."));
        }
        let raw = match &source_ids {
            Some(s) => chars_of(s.as_str()),
            None => Vec::new(),
        };
        let ghost all = split_on(raw@, ',');
        let n: usize = raw.len();
        let mut ids: Vec<u128> = Vec::new();
        let mut i: usize = 0;
        assert(raw@.skip(0) == raw@);
        loop
            invariant_except_break
                source_ids_from(all) == match source_ids_from(split_on(raw@.skip(i as int), ',')) {
                    Ok(rest) => Ok(ids@ + rest),
                    Err(e) => Err::<Seq<u128>, Seq<char>>(e),
                },
            invariant
                i <= n == raw@.len(),
                trim(prompt@).len() > 0,
                raw@ == text_or(source_ids, Seq::empty()),
                all == split_on(raw@, ','),
            ensures
                source_ids_from(all) == Ok::<Seq<u128>, Seq<char>>(ids@),
            decreases n - i,
        {
            let mut j: usize = i;
            while j < n && raw[j] != ','
                invariant
                    i <= j <= n == raw@.len(),
                    forall|k: int| i <= k < j ==> #[trigger] raw@[k] != ',',
                decreases n - j,
            {
                j = j + 1;
            }
            proof {
                lemma_split_piece(raw@, ',', i as int, j as int);
            }
            let mut frag = String::new();
            let mut k: usize = i;
            while k < j
                invariant
                    i <= k <= j <= raw@.len(),
                    frag@ == raw@.subrange(i as int, k as int),
                decreases j - k,
            {
                push_char(&mut frag, raw[k]);
                assert(raw@.subrange(i as int, k + 1) == raw@.subrange(i as int, k as int).push(raw@[k as int]));
                k = k + 1;
            }
            let ghost frags = split_on(raw@.skip(i as int), ',');
            let ghost before = ids@;
            let ghost nf = frags.drop_first();
            assert(nf == if j < n {
                split_on(raw@.skip(j + 1), ',')
            } else {
                Seq::<Seq<char>>::empty()
            });
            assert(source_ids_from(all) == match source_ids_from(frags) {
                Ok(rest) => Ok(before + rest),
                Err(e) => Err::<Seq<u128>, Seq<char>>(e),
            });
            let trimmed = trim_str(frag.as_str());
            if trimmed.as_str().unicode_len() != 0 {
                match parse_uuid(trimmed.as_str()) {
                    Some(id) => {
                        ids.push(id);
                        proof {
                            assert(frags[0] == frag@);
                            let rest = source_ids_from(nf);
                            assert(source_ids_from(frags) == match rest {
                                Ok(r) => Ok(seq![id] + r),
                                Err(e) => Err::<Seq<u128>, Seq<char>>(e),
                            });
                            if rest is Ok {
                                assert(before + (seq![id] + rest->Ok_0) == ids@ + rest->Ok_0);
                            }
                            assert(source_ids_from(all) == match source_ids_from(nf) {
                                Ok(r) => Ok(ids@ + r),
                                Err(e) => Err::<Seq<u128>, Seq<char>>(e),
                            });
                        }
                    },
                    None => {
                        let mut e = String::from_str("Invalid source id: ");
                        e.append(trimmed.as_str());
                        proof {
                            assert(frags[0] == frag@);
                            assert(source_ids_from(frags) == Err::<Seq<u128>, Seq<char>>(e@));
                        }
                        return Err(e);
                    },
                }
            } else {
                proof {
                    assert(frags[0] == frag@);
                    assert(source_ids_from(frags) == source_ids_from(nf));
                    assert(source_ids_from(all) == match source_ids_from(nf) {
                        Ok(r) => Ok(ids@ + r),
                        Err(e) => Err::<Seq<u128>, Seq<char>>(e),
                    });
                }
            }
            if j == n {
                proof {
                    assert(source_ids_from(nf) == Ok::<Seq<u128>, Seq<char>>(Seq::empty()));
                    assert(ids@ + Seq::<u128>::empty() == ids@);
                }
                break;
            }
            i = j + 1;
        }
        let draft = match draft_mode {
            Some(d) => {
                let t = trim_str(d.as_str());
                if t.as_str().unicode_len() == 0 {
                    None
                } else {
                    Some(t)
                }
            },
            None => None,
        };
        Ok(StormGenerationInput {
            prompt: seed,
            draft_mode: draft,
            source_ids: ids,
            asset_ids: Vec::new(),
            session_id: None,
            iterates_on_id: None,
            fallback_title: None,
        })
    }
}

} // verus!
