use vstd::prelude::*;
use crate::session::opt_text;
use crate::text::{chars_of, eq_text, string_of_range, trim, trim_str};
use crate::workspace::{lemma_split_piece, split_on};

verus! {

/// One e-mail address of a Clerk user.
pub struct ClerkEmailAddress {
    pub id: String,
    pub email_address: String,
}

/// The profile Clerk returns for a user.
pub struct ClerkUser {
    pub primary_email_address_id: Option<String>,
    pub first_name: Option<String>,
    pub last_name: Option<String>,
    pub image_url: Option<String>,
    pub email_addresses: Vec<ClerkEmailAddress>,
}

/// The first address in `addrs` whose id is `id`.
pub open spec fn address_with_id(addrs: Seq<ClerkEmailAddress>, id: Seq<char>) -> Option<Seq<char>>
    decreases addrs.len(),
{
    if addrs.len() == 0 {
        None
    } else if addrs[0].id@ == id {
        Some(addrs[0].email_address@)
    } else {
        address_with_id(addrs.drop_first(), id)
    }
}

/// A user's name from its parts: both joined by a space, or whichever is given.
pub open spec fn name_from_parts(first: Option<Seq<char>>, last: Option<Seq<char>>) -> Option<Seq<char>> {
    match (first, last) {
        (Some(f), Some(l)) => Some(f + " "@ + l),
        (Some(f), None) => Some(f),
        (None, Some(l)) => Some(l),
        (None, None) => None,
    }
}

/// A slice's text, when there is one.
pub open spec fn str_opt(o: Option<&str>) -> Option<Seq<char>> {
    match o {
        Some(s) => Some(s@),
        None => None,
    }
}

impl ClerkUser {
    /// The user's primary e-mail address: the listed address whose id is the
    /// primary one; none when there is no primary id or no such address.
    pub fn primary_email(&self) -> (r: Option<&str>)
        ensures
            str_opt(r) == match self.primary_email_address_id {
                Some(id) => address_with_id(self.email_addresses@, id@),
                None => None,
            },
    {
        let primary_id = match &self.primary_email_address_id {
            Some(id) => id,
            None => return None,
        };
        let ghost addrs = self.email_addresses@;
        let mut i: usize = 0;
        assert(addrs.skip(0) == addrs);
        while i < self.email_addresses.len()
            invariant
                i <= addrs.len(),
                addrs == self.email_addresses@,
                self.primary_email_address_id == Some(*primary_id),
                address_with_id(addrs, primary_id@) == address_with_id(addrs.skip(i as int), primary_id@),
            decreases addrs.len() - i,
        {
            assert(addrs.skip(i as int)[0] == addrs[i as int]);
            assert(addrs.skip(i as int).drop_first() == addrs.skip(i + 1));
            let address = &self.email_addresses[i];
            if address.id == *primary_id {
                return Some(address.email_address.as_str());
            }
            i = i + 1;
        }
        None
    }

    /// The user's full name from the first and last names Clerk has.
    pub fn full_name(&self) -> (r: Option<String>)
        ensures
            opt_text(r) == name_from_parts(opt_text(self.first_name), opt_text(self.last_name)),
    {
        match (&self.first_name, &self.last_name) {
            (Some(first), Some(last)) => {
                let mut n = first.clone();
                n.append(" ");
                n.append(last.as_str());
                Some(n)
            },
            (Some(first), None) => Some(first.clone()),
            (None, Some(last)) => Some(last.clone()),
            (None, None) => None,
        }
    }
}

/// The signed-in user of a request.
pub struct Viewer {
    pub id: u128,
    pub clerk_user_id: String,
    pub email: Option<String>,
    pub name: String,
    pub avatar_url: Option<String>,
    /// When the account was created, in nanoseconds since the Unix epoch.
    pub created_at: i64,
}

impl Viewer {
    /// The line under the user's name: the e-mail address, or a greeting when
    /// there is none.
    pub fn secondary_line(&self) -> (r: &str)
        ensures
            r@ == match self.email {
                Some(e) => e@,
                None => "Ready to design storm."@,
            },
    {
        match &self.email {
            Some(e) => e.as_str(),
            None => "Ready to design storm.",
        }
    }

    /// The viewer of a stored user; a user without a name is called `Design
    /// Storm User`.
    pub fn from_user_row(
        id: u128,
        clerk_user_id: String,
        email: Option<String>,
        name: Option<String>,
        avatar_url: Option<String>,
        created_at: i64,
    ) -> (v: Viewer)
        ensures
            v.id == id,
            v.clerk_user_id@ == clerk_user_id@,
            opt_text(v.email) == opt_text(email),
            v.name@ == match name {
                Some(n) => n@,
                None => "Design Storm User"@,
            },
            opt_text(v.avatar_url) == opt_text(avatar_url),
            v.created_at == created_at,
    {
        let name = match name {
            Some(n) => n,
            None => String::from_str("Design Storm User"),
        };
        Viewer { id, clerk_user_id, email, name, avatar_url, created_at }
    }
}

/// The profile a sign-in stores: what Clerk's user record says, falling back
/// to the claims of the sign-in token for each field.
pub open spec fn signed_in_profile(
    user: Option<(Option<Seq<char>>, Option<Seq<char>>, Option<Seq<char>>)>,
    claim_email: Option<Seq<char>>,
    claim_name: Option<Seq<char>>,
    claim_image: Option<Seq<char>>,
) -> (Option<Seq<char>>, Seq<char>, Option<Seq<char>>) {
    let (email, name, image) = match user {
        Some(u) => (u.0, u.1, u.2),
        None => (None, None, None),
    };
    (
        match email {
            Some(e) => Some(e),
            None => claim_email,
        },
        match name {
            Some(n) => n,
            None => match claim_name {
                Some(n) => n,
                None => "Design Storm User"@,
            },
        },
        match image {
            Some(i) => Some(i),
            None => claim_image,
        },
    )
}

/// The primary e-mail address is the address of the first listed entry whose
/// id is the primary id; there is none when no entry has that id.
pub proof fn law_primary_address(addrs: Seq<ClerkEmailAddress>, id: Seq<char>)
    ensures
        address_with_id(addrs, id) matches Some(e) ==> exists|i: int| 0 <= i < addrs.len()
            && #[trigger] addrs[i].id@ == id && addrs[i].email_address@ == e
            && forall|j: int| 0 <= j < i ==> addrs[j].id@ != id,
        address_with_id(addrs, id) is None ==> forall|i: int| 0 <= i < addrs.len() ==> #[trigger] addrs[i].id@ != id,
    decreases addrs.len(),
{
    if addrs.len() > 0 {
        let rest = addrs.drop_first();
        law_primary_address(rest, id);
        if addrs[0].id@ != id {
            if let Some(e) = address_with_id(rest, id) {
                let k = choose|k: int| 0 <= k < rest.len() && #[trigger] rest[k].id@ == id && rest[k].email_address@ == e
                    && forall|j: int| 0 <= j < k ==> rest[j].id@ != id;
                assert(addrs[k + 1] == rest[k]);
                assert forall|j: int| 0 <= j < k + 1 implies addrs[j].id@ != id by {
                    if j > 0 {
                        assert(addrs[j] == rest[j - 1]);
                    }
                }
                assert(addrs[k + 1].id@ == id);
            } else {
                assert forall|i: int| 0 <= i < addrs.len() implies #[trigger] addrs[i].id@ != id by {
                    if i > 0 {
                        assert(addrs[i] == rest[i - 1]);
                    }
                }
            }
        } else {
            assert(addrs[0].id@ == id);
        }
    }
}

/// A signing-in user's profile takes each field from Clerk's record when the
/// record has it and from the sign-in token's claims otherwise; a user named
/// nowhere is called `Design Storm User`; the full name joins the first and
/// last names with a space, or is whichever of them is given.
pub proof fn law_sign_in_profile(
    user: Option<(Option<Seq<char>>, Option<Seq<char>>, Option<Seq<char>>)>,
    claim_email: Option<Seq<char>>,
    claim_name: Option<Seq<char>>,
    claim_image: Option<Seq<char>>,
    first: Option<Seq<char>>,
    last: Option<Seq<char>>,
)
    ensures
        ({
            let p = signed_in_profile(user, claim_email, claim_name, claim_image);
            &&& p.0 == if user is Some && (user->0).0 is Some { (user->0).0 } else { claim_email }
            &&& p.1 == if user is Some && (user->0).1 is Some {
                (user->0).1->0
            } else if claim_name is Some {
                claim_name->0
            } else {
                "Design Storm User"@
            }
            &&& p.2 == if user is Some && (user->0).2 is Some { (user->0).2 } else { claim_image }
        }),
        name_from_parts(first, last) == if first is Some && last is Some {
            Some(first->0 + " "@ + last->0)
        } else if first is Some {
            first
        } else {
            last
        },
{
}

/// What a Clerk user record offers a sign-in: the primary e-mail address, the
/// full name and the image.
pub open spec fn clerk_offer(u: ClerkUser) -> (Option<Seq<char>>, Option<Seq<char>>, Option<Seq<char>>) {
    (
        match u.primary_email_address_id {
            Some(id) => address_with_id(u.email_addresses@, id@),
            None => None,
        },
        name_from_parts(opt_text(u.first_name), opt_text(u.last_name)),
        opt_text(u.image_url),
    )
}

/// The e-mail address, name and avatar stored for a user who signs in.
pub fn sign_in_profile(
    user: Option<&ClerkUser>,
    claim_email: Option<String>,
    claim_name: Option<String>,
    claim_image: Option<String>,
) -> (r: (Option<String>, String, Option<String>))
    ensures
        (opt_text(r.0), r.1@, opt_text(r.2)) == signed_in_profile(
            match user {
                Some(u) => Some(clerk_offer(*u)),
                None => None,
            },
            opt_text(claim_email),
            opt_text(claim_name),
            opt_text(claim_image),
        ),
{
    let (email, name, image) = match user {
        Some(u) => {
            let email = match u.primary_email() {
                Some(e) => Some(String::from_str(e)),
                None => None,
            };
            let image = match &u.image_url {
                Some(i) => Some(i.clone()),
                None => None,
            };
            (email, u.full_name(), image)
        },
        None => (None, None, None),
    };
    let email = match email {
        Some(e) => Some(e),
        None => claim_email,
    };
    let name = match name {
        Some(n) => n,
        None => match claim_name {
            Some(n) => n,
            None => String::from_str("Design Storm User"),
        },
    };
    let image = match image {
        Some(i) => Some(i),
        None => claim_image,
    };
    (email, name, image)
}

/// The value of cookie `name` in a `Cookie` header: the part after the first
/// `=` of the first `;`-separated entry, trimmed, whose name is `name`.
pub open spec fn cookie_value(entries: Seq<Seq<char>>, name: Seq<char>) -> Option<Seq<char>>
    decreases entries.len(),
{
    if entries.len() == 0 {
        None
    } else {
        let e = trim(entries[0]);
        let parts = split_on(e, '=');
        if parts.len() >= 2 && parts[0] == name {
            Some(e.skip(parts[0].len() as int + 1))
        } else {
            cookie_value(entries.drop_first(), name)
        }
    }
}



proof fn lemma_split_nonempty(s: Seq<char>, sep: char)
    ensures
        split_on(s, sep).len() >= 1,
    decreases s.len(),
{
    match crate::preview::first_match(s, seq![sep], 0) {
        None => {},
        Some(i) => {
            crate::preview::lemma_first_match_bounds(s, seq![sep], 0);
            lemma_split_nonempty(s.skip(i + 1), sep);
        },
    }
}

proof fn lemma_cookie_entry(e: Seq<char>, name: Seq<char>)
    requires
        forall|k: int| 0 <= k < name.len() ==> #[trigger] name[k] != '=',
    ensures
        (split_on(e, '=').len() >= 2 && split_on(e, '=')[0] == name) <==> (e.len() > name.len()
            && e.take(name.len() as int + 1) == name + seq!['=']),
        (e.len() > name.len() && e.take(name.len() as int + 1) == name + seq!['=']) ==> e == name + seq!['='] + e.skip(
            split_on(e, '=')[0].len() as int + 1,
        ),
{
    let n = name.len() as int;
    let eq = seq!['='];
    if e.len() > n && e.take(n + 1) == name + eq {
        assert forall|k: int| 0 <= k < n implies #[trigger] e[k] != '=' by {
            assert(e[k] == e.take(n + 1)[k]);
            assert(e.take(n + 1)[k] == name[k]);
        }
        assert(e[n] == e.take(n + 1)[n]);
        lemma_split_piece(e, '=', 0, n);
        assert(e.skip(0) == e);
        lemma_split_nonempty(e.skip(n + 1), '=');
        assert(e.subrange(0, n) == name);
        assert(split_on(e, '=')[0] == name);
        assert(e =~= name + eq + e.skip(n + 1));
    }
    if split_on(e, '=').len() >= 2 && split_on(e, '=')[0] == name {
        crate::preview::lemma_first_match_bounds(e, eq, 0);
        match crate::preview::first_match(e, eq, 0) {
            None => {
                assert(split_on(e, '=') == seq![e]);
            },
            Some(i) => {
                assert(split_on(e, '=')[0] == e.take(i));
                assert(e.subrange(i, i + 1) == eq);
                assert(e[i] == e.subrange(i, i + 1)[0]);
                assert(e.take(n + 1) =~= name + eq);
            },
        }
    }
}

/// A cookie is read from the first entry of the header (trimmed) that starts
/// with its name and `=`: its value is the rest of that entry; there is none
/// when no entry starts so. (A cookie name holds no `=`.)
pub proof fn law_cookie_lookup(entries: Seq<Seq<char>>, name: Seq<char>)
    requires
        forall|k: int| 0 <= k < name.len() ==> #[trigger] name[k] != '=',
    ensures
        cookie_value(entries, name) matches Some(v) ==> exists|i: int| 0 <= i < entries.len()
            && #[trigger] trim(entries[i]) == name + seq!['='] + v
            && forall|j: int| 0 <= j < i ==> !(trim(entries[j]).len() > name.len()
                && trim(entries[j]).take(name.len() as int + 1) == name + seq!['=']),
        cookie_value(entries, name) is None ==> forall|i: int| 0 <= i < entries.len() ==> !(#[trigger] trim(entries[i]).len() > name.len()
            && trim(entries[i]).take(name.len() as int + 1) == name + seq!['=']),
    decreases entries.len(),
{
    if entries.len() > 0 {
        let e = trim(entries[0]);
        let rest = entries.drop_first();
        lemma_cookie_entry(e, name);
        law_cookie_lookup(rest, name);
        let hit = e.len() > name.len() && e.take(name.len() as int + 1) == name + seq!['='];
        if hit {
            assert(split_on(e, '=')[0] == name);
            let v = e.skip(name.len() as int + 1);
            assert(cookie_value(entries, name) == Some(v));
            assert(trim(entries[0]) == name + seq!['='] + v);
        } else {
            assert(cookie_value(entries, name) == cookie_value(rest, name));
            if let Some(v) = cookie_value(rest, name) {
                let k = choose|k: int| 0 <= k < rest.len() && #[trigger] trim(rest[k]) == name + seq!['='] + v
                    && forall|j: int| 0 <= j < k ==> !(trim(rest[j]).len() > name.len()
                        && trim(rest[j]).take(name.len() as int + 1) == name + seq!['=']);
                assert(entries[k + 1] == rest[k]);
                assert forall|j: int| 0 <= j < k + 1 implies !(trim(entries[j]).len() > name.len()
                    && trim(entries[j]).take(name.len() as int + 1) == name + seq!['=']) by {
                    if j > 0 {
                        assert(entries[j] == rest[j - 1]);
                    }
                }
                assert(trim(entries[k + 1]) == name + seq!['='] + v);
            } else {
                assert forall|i: int| 0 <= i < entries.len() implies !(#[trigger] trim(entries[i]).len() > name.len()
                    && trim(entries[i]).take(name.len() as int + 1) == name + seq!['=']) by {
                    if i > 0 {
                        assert(entries[i] == rest[i - 1]);
                    }
                }
            }
        }
    }
}

/// Reads cookie `name` from the text of a request's `Cookie` header (`None`
/// when the request has no such header or it is not visible ASCII).
pub fn read_cookie(header: Option<&str>, name: &str) -> (r: Option<String>)
    ensures
        opt_text(r) == match header {
            Some(h) => cookie_value(split_on(h@, ';'), name@),
            None => None,
        },
{
    let h = match header {
        Some(h) => h,
        None => return None,
    };
    let raw = chars_of(h);
    let n: usize = raw.len();
    let ghost all = split_on(raw@, ';');
    let mut i: usize = 0;
    assert(raw@.skip(0) == raw@);
    loop
        invariant
            i <= n == raw@.len(),
            raw@ == h@,
            header == Some(h),
            all == split_on(raw@, ';'),
            cookie_value(all, name@) == cookie_value(split_on(raw@.skip(i as int), ';'), name@),
        decreases n - i,
    {
        let mut j: usize = i;
        while j < n && raw[j] != ';'
            invariant
                i <= j <= n == raw@.len(),
                forall|k: int| i <= k < j ==> #[trigger] raw@[k] != ';',
            decreases n - j,
        {
            j = j + 1;
        }
        proof {
            lemma_split_piece(raw@, ';', i as int, j as int);
        }
        let ghost frags = split_on(raw@.skip(i as int), ';');
        let ghost rest = if j < n {
            split_on(raw@.skip(j + 1), ';')
        } else {
            Seq::<Seq<char>>::empty()
        };
        assert(frags[0] == raw@.subrange(i as int, j as int));
        assert(frags.drop_first() == rest);
        let frag = string_of_range(&raw, i, j);
        let entry = trim_str(frag.as_str());
        let e = chars_of(entry.as_str());
        let m: usize = e.len();
        let mut k: usize = 0;
        while k < m && e[k] != '='
            invariant
                k <= m == e@.len(),
                forall|t: int| 0 <= t < k ==> #[trigger] e@[t] != '=',
            decreases m - k,
        {
            k = k + 1;
        }
        proof {
            lemma_split_piece(e@, '=', 0, k as int);
            assert(e@.skip(0) == e@);
            if k < m {
                lemma_split_nonempty(e@.skip(k + 1), '=');
            }
        }
        let ghost parts = split_on(e@, '=');
        assert(e@ == trim(frags[0]));
        assert(k < m ==> parts.len() >= 2 && parts[0] == e@.subrange(0, k as int));
        assert(k == m ==> parts.len() == 1);
        if k < m {
            let key = string_of_range(&e, 0, k);
            if eq_text(key.as_str(), name) {
                let value = string_of_range(&e, k + 1, m);
                assert(e@.subrange(k + 1, m as int) == e@.skip(k + 1));
                return Some(value);
            }
        }
        assert(cookie_value(frags, name@) == cookie_value(rest, name@));
        if j == n {
            return None;
        }
        i = j + 1;
    }
}
} // verus!
