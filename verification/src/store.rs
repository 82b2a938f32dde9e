//! The profile store: a registry of named endpoint profiles.
//!
//! A [`Profile`] binds a server name to an address and a credential; a
//! [`Config`] holds the full registry of one invocation.  Reads and mutations
//! are separate from persistence (see [`crate::persist`]): a multi-step
//! operation can fail validation before any serialization happens.
//!
//! The mathematical model of a registry is a sequence of [`ProfileV`] values
//! with pairwise-distinct names; [`find_profile`] is lookup by name and
//! [`spec_get`] the defensive read that demands both fields.

use vstd::prelude::*;
use crate::text::str_eq;

verus! {

/// One endpoint registration.  A field read from a partially written
/// document may be absent; profiles created by [`Config::set`] always carry
/// both fields.
pub struct Profile {
    pub name: String,
    pub address: Option<String>,
    pub password: Option<String>,
}

/// The model of a profile: its fields as character sequences.
#[verifier::ext_equal]
pub struct ProfileV {
    pub name: Seq<char>,
    pub address: Option<Seq<char>>,
    pub password: Option<Seq<char>>,
}

impl View for Profile {
    type V = ProfileV;

    open spec fn view(&self) -> ProfileV {
        ProfileV {
            name: self.name@,
            address: match self.address {
                Option::Some(a) => Option::Some(a@),
                Option::None => Option::None,
            },
            password: match self.password {
                Option::Some(p) => Option::Some(p@),
                Option::None => Option::None,
            },
        }
    }
}

/// The registry's invariant: each name appears at most once, and every entry
/// has at least one field set.
pub open spec fn wf_profiles(s: Seq<ProfileV>) -> bool {
    &&& forall|i: int, j: int|
        #![trigger s[i].name, s[j].name]
        0 <= i < j < s.len() ==> s[i].name != s[j].name
    &&& forall|i: int| 0 <= i < s.len() ==> (#[trigger] s[i]).address is Some || s[i].password is Some
}

/// Lookup by name: the first (with well-formedness, the only) entry named `n`.
pub open spec fn find_profile(s: Seq<ProfileV>, n: Seq<char>) -> Option<ProfileV>
    decreases s.len(),
{
    if s.len() == 0 {
        Option::None
    } else if s[0].name == n {
        Option::Some(s[0])
    } else {
        find_profile(s.drop_first(), n)
    }
}

/// The defensive read: the (address, credential) pair, and only if both
/// fields are present — an entry with a single field is treated as absent.
pub open spec fn spec_get(s: Seq<ProfileV>, n: Seq<char>) -> Option<(Seq<char>, Seq<char>)> {
    match find_profile(s, n) {
        Option::Some(p) => match (p.address, p.password) {
            (Option::Some(a), Option::Some(pw)) => Option::Some((a, pw)),
            _ => Option::None,
        },
        Option::None => Option::None,
    }
}

/// The model of an upsert: both fields of the first entry named `n` are
/// replaced in place, or a new entry is appended.
pub open spec fn spec_set(s: Seq<ProfileV>, n: Seq<char>, a: Seq<char>, p: Seq<char>) -> Seq<
    ProfileV,
>
    decreases s.len(),
{
    let pv = ProfileV { name: n, address: Option::Some(a), password: Option::Some(p) };
    if s.len() == 0 {
        seq![pv]
    } else if s[0].name == n {
        seq![pv] + s.drop_first()
    } else {
        seq![s[0]] + spec_set(s.drop_first(), n, a, p)
    }
}

/// The model of a removal: the first entry named `n` is dropped.
pub open spec fn spec_remove(s: Seq<ProfileV>, n: Seq<char>) -> Seq<ProfileV>
    decreases s.len(),
{
    if s.len() == 0 {
        s
    } else if s[0].name == n {
        s.drop_first()
    } else {
        seq![s[0]] + spec_remove(s.drop_first(), n)
    }
}

/// A name that no entry carries is not found; a found profile carries the
/// name it was found under and sits in the registry.
pub proof fn lemma_find_names(s: Seq<ProfileV>, n: Seq<char>)
    ensures
        (find_profile(s, n) is None) <==> (forall|i: int|
            0 <= i < s.len() ==> (#[trigger] s[i]).name != n),
        find_profile(s, n) matches Option::Some(p) ==> p.name == n && exists|i: int|
            0 <= i < s.len() && s[i] == p,
    decreases s.len(),
{
    if s.len() > 0 {
        let sd = s.drop_first();
        lemma_find_names(sd, n);
        if s[0].name == n {
            assert(0 <= 0 < s.len() && s[0].name == n);
        } else {
            if find_profile(sd, n) is None {
                assert forall|i: int| 0 <= i < s.len() implies (#[trigger] s[i]).name != n by {
                    if i > 0 {
                        assert(sd[i - 1] == s[i]);
                        assert(sd[i - 1].name != n);
                    }
                }
            } else {
                match find_profile(sd, n) {
                    Option::Some(p) => {
                        let i = choose|i: int| 0 <= i < sd.len() && sd[i] == p;
                        assert(s[i + 1] == p);
                        assert(0 <= i + 1 < s.len() && s[i + 1].name == n);
                    },
                    Option::None => {},
                }
            }
        }
    }
}

/// Well-formedness is inherited by the tail of a registry.
pub proof fn lemma_wf_drop_first(s: Seq<ProfileV>)
    requires
        wf_profiles(s),
        s.len() > 0,
    ensures
        wf_profiles(s.drop_first()),
{
    let sd = s.drop_first();
    assert forall|i: int, j: int|
        #![trigger sd[i].name, sd[j].name]
        0 <= i < j < sd.len() implies sd[i].name != sd[j].name by {
        assert(sd[i] == s[i + 1]);
        assert(sd[j] == s[j + 1]);
    }
    assert forall|i: int| 0 <= i < sd.len() implies (#[trigger] sd[i]).address is Some
        || sd[i].password is Some by {
        assert(sd[i] == s[i + 1]);
        assert(s[i + 1].address is Some || s[i + 1].password is Some);
    }
}

/// After an upsert, lookup of `n` yields exactly the stored fields, every
/// other name is untouched, and well-formedness is preserved.
pub proof fn lemma_set_find(s: Seq<ProfileV>, n: Seq<char>, a: Seq<char>, p: Seq<char>)
    ensures
        find_profile(spec_set(s, n, a, p), n) == Option::Some(
            ProfileV { name: n, address: Option::Some(a), password: Option::Some(p) },
        ),
        forall|m: Seq<char>|
            m != n ==> #[trigger] find_profile(spec_set(s, n, a, p), m) == find_profile(s, m),
        wf_profiles(s) ==> wf_profiles(spec_set(s, n, a, p)),
    decreases s.len(),
{
    let pv = ProfileV { name: n, address: Option::Some(a), password: Option::Some(p) };
    let t = spec_set(s, n, a, p);
    if s.len() == 0 {
        assert(t == seq![pv]);
        assert(t.drop_first() =~= Seq::<ProfileV>::empty());
        assert forall|m: Seq<char>| m != n implies #[trigger] find_profile(t, m) == find_profile(
            s,
            m,
        ) by {
            assert(t[0].name != m);
            assert(find_profile(t.drop_first(), m) is None);
        }
    } else if s[0].name == n {
        assert(t == seq![pv] + s.drop_first());
        assert(t[0] == pv);
        assert(t.drop_first() =~= s.drop_first());
        assert forall|m: Seq<char>| m != n implies #[trigger] find_profile(t, m) == find_profile(
            s,
            m,
        ) by {
            assert(find_profile(t, m) == find_profile(s.drop_first(), m));
            assert(find_profile(s, m) == find_profile(s.drop_first(), m));
        }
        if wf_profiles(s) {
            lemma_wf_drop_first(s);
            lemma_wf_cons(pv, s.drop_first());
            assert forall|i: int|
                0 <= i < s.drop_first().len() implies (#[trigger] s.drop_first()[i]).name
                != pv.name by {
                assert(s.drop_first()[i] == s[i + 1]);
                assert(s[0].name != s[i + 1].name);
            }
        }
    } else {
        let sd = s.drop_first();
        lemma_set_find(sd, n, a, p);
        assert(t == seq![s[0]] + spec_set(sd, n, a, p));
        assert(t[0] == s[0]);
        assert(t.drop_first() =~= spec_set(sd, n, a, p));
        assert forall|m: Seq<char>| m != n implies #[trigger] find_profile(t, m) == find_profile(
            s,
            m,
        ) by {
            if s[0].name == m {
                assert(find_profile(t, m) == Option::Some(t[0]));
                assert(find_profile(s, m) == Option::Some(s[0]));
            } else {
                assert(find_profile(t, m) == find_profile(spec_set(sd, n, a, p), m));
                assert(find_profile(s, m) == find_profile(sd, m));
            }
        }
        if wf_profiles(s) {
            lemma_wf_drop_first(s);
            assert forall|i: int|
                0 <= i < sd.len() implies (#[trigger] sd[i]).name != s[0].name by {
                assert(sd[i] == s[i + 1]);
                assert(s[0].name != s[i + 1].name);
            }
            lemma_set_names(sd, n, a, p, s[0].name);
            lemma_wf_cons(s[0], spec_set(sd, n, a, p));
        }
    }
}

/// Prepending an entry whose name no tail entry carries keeps the registry
/// well formed.
pub proof fn lemma_wf_cons(h: ProfileV, tl: Seq<ProfileV>)
    requires
        wf_profiles(tl),
        h.address is Some || h.password is Some,
        forall|i: int| 0 <= i < tl.len() ==> (#[trigger] tl[i]).name != h.name,
    ensures
        wf_profiles(seq![h] + tl),
{
    let t = seq![h] + tl;
    assert forall|i: int, j: int|
        #![trigger t[i].name, t[j].name]
        0 <= i < j < t.len() implies t[i].name != t[j].name by {
        assert(t[j] == tl[j - 1]);
        if i > 0 {
            assert(t[i] == tl[i - 1]);
        } else {
            assert(t[0] == h);
            assert(tl[j - 1].name != h.name);
        }
    }
    assert forall|i: int| 0 <= i < t.len() implies (#[trigger] t[i]).address is Some
        || t[i].password is Some by {
        if i > 0 {
            assert(t[i] == tl[i - 1]);
        } else {
            assert(t[0] == h);
        }
    }
}

/// Every name in an upserted registry is either `n` or a name of the
/// original registry.
pub proof fn lemma_set_names(
    s: Seq<ProfileV>,
    n: Seq<char>,
    a: Seq<char>,
    p: Seq<char>,
    m: Seq<char>,
)
    requires
        m != n,
        forall|i: int| 0 <= i < s.len() ==> (#[trigger] s[i]).name != m,
    ensures
        forall|i: int|
            0 <= i < spec_set(s, n, a, p).len() ==> (#[trigger] spec_set(s, n, a, p)[i]).name != m,
    decreases s.len(),
{
    let t = spec_set(s, n, a, p);
    if s.len() == 0 {
    } else if s[0].name == n {
        assert forall|i: int| 0 <= i < t.len() implies (#[trigger] t[i]).name != m by {
            if i > 0 {
                assert(t[i] == s.drop_first()[i - 1]);
                assert(s.drop_first()[i - 1] == s[i]);
            }
        }
    } else {
        let sd = s.drop_first();
        assert forall|i: int| 0 <= i < sd.len() implies (#[trigger] sd[i]).name != m by {
            assert(sd[i] == s[i + 1]);
        }
        lemma_set_names(sd, n, a, p, m);
        assert forall|i: int| 0 <= i < t.len() implies (#[trigger] t[i]).name != m by {
            if i > 0 {
                assert(t[i] == spec_set(sd, n, a, p)[i - 1]);
            }
        }
    }
}

/// After a removal, `n` is absent (in a well-formed registry), every other
/// name is untouched, and well-formedness is preserved.
pub proof fn lemma_remove_find(s: Seq<ProfileV>, n: Seq<char>)
    requires
        wf_profiles(s),
    ensures
        find_profile(spec_remove(s, n), n) is None,
        forall|m: Seq<char>|
            m != n ==> #[trigger] find_profile(spec_remove(s, n), m) == find_profile(s, m),
        wf_profiles(spec_remove(s, n)),
    decreases s.len(),
{
    let t = spec_remove(s, n);
    if s.len() == 0 {
    } else if s[0].name == n {
        assert(t =~= s.drop_first());
        lemma_wf_drop_first(s);
        lemma_find_names(s.drop_first(), n);
        assert forall|i: int| 0 <= i < s.drop_first().len() implies (#[trigger] s.drop_first()[
            i
        ]).name != n by {
            assert(s.drop_first()[i] == s[i + 1]);
            assert(s[0].name != s[i + 1].name);
        }
        assert forall|m: Seq<char>| m != n implies #[trigger] find_profile(t, m) == find_profile(
            s,
            m,
        ) by {
            assert(find_profile(s, m) == find_profile(s.drop_first(), m));
        }
    } else {
        let sd = s.drop_first();
        lemma_wf_drop_first(s);
        lemma_remove_find(sd, n);
        assert(t == seq![s[0]] + spec_remove(sd, n));
        assert(t[0] == s[0]);
        assert(t.drop_first() =~= spec_remove(sd, n));
        assert forall|m: Seq<char>| m != n implies #[trigger] find_profile(t, m) == find_profile(
            s,
            m,
        ) by {
            if s[0].name == m {
                assert(find_profile(t, m) == Option::Some(t[0]));
                assert(find_profile(s, m) == Option::Some(s[0]));
            } else {
                assert(find_profile(t, m) == find_profile(spec_remove(sd, n), m));
                assert(find_profile(s, m) == find_profile(sd, m));
            }
        }
        assert forall|i: int| 0 <= i < sd.len() implies (#[trigger] sd[i]).name != s[0].name by {
            assert(sd[i] == s[i + 1]);
            assert(s[0].name != s[i + 1].name);
        }
        lemma_remove_names(sd, n, s[0].name);
        lemma_wf_cons(s[0], spec_remove(sd, n));
    }
}

/// A removal introduces no name: every name in the result already named an
/// entry of the original registry.
pub proof fn lemma_remove_names(s: Seq<ProfileV>, n: Seq<char>, m: Seq<char>)
    requires
        forall|i: int| 0 <= i < s.len() ==> (#[trigger] s[i]).name != m,
    ensures
        forall|i: int|
            0 <= i < spec_remove(s, n).len() ==> (#[trigger] spec_remove(s, n)[i]).name != m,
    decreases s.len(),
{
    let t = spec_remove(s, n);
    if s.len() == 0 {
    } else if s[0].name == n {
        assert forall|i: int| 0 <= i < t.len() implies (#[trigger] t[i]).name != m by {
            assert(t[i] == s[i + 1]);
        }
    } else {
        let sd = s.drop_first();
        assert forall|i: int| 0 <= i < sd.len() implies (#[trigger] sd[i]).name != m by {
            assert(sd[i] == s[i + 1]);
        }
        lemma_remove_names(sd, n, m);
        assert forall|i: int| 0 <= i < t.len() implies (#[trigger] t[i]).name != m by {
            if i > 0 {
                assert(t[i] == spec_remove(sd, n)[i - 1]);
            }
        }
    }
}

/// An upsert of a name that no entry carries is an append.
pub proof fn lemma_set_absent(s: Seq<ProfileV>, n: Seq<char>, a: Seq<char>, p: Seq<char>)
    requires
        forall|k: int| 0 <= k < s.len() ==> (#[trigger] s[k]).name != n,
    ensures
        spec_set(s, n, a, p) == s.push(
            ProfileV { name: n, address: Option::Some(a), password: Option::Some(p) },
        ),
    decreases s.len(),
{
    let pv = ProfileV { name: n, address: Option::Some(a), password: Option::Some(p) };
    if s.len() == 0 {
        assert(spec_set(s, n, a, p) =~= s.push(pv));
    } else {
        let sd = s.drop_first();
        assert forall|k: int| 0 <= k < sd.len() implies (#[trigger] sd[k]).name != n by {
            assert(sd[k] == s[k + 1]);
        }
        lemma_set_absent(sd, n, a, p);
        assert(spec_set(s, n, a, p) =~= s.push(pv));
    }
}

/// An upsert of the name carried by entry `i`, no earlier entry carrying it,
/// is an in-place update of entry `i`.
pub proof fn lemma_set_at(s: Seq<ProfileV>, n: Seq<char>, a: Seq<char>, p: Seq<char>, i: int)
    requires
        0 <= i < s.len(),
        s[i].name == n,
        forall|k: int| 0 <= k < i ==> (#[trigger] s[k]).name != n,
    ensures
        spec_set(s, n, a, p) == s.update(
            i,
            ProfileV { name: n, address: Option::Some(a), password: Option::Some(p) },
        ),
    decreases i,
{
    let pv = ProfileV { name: n, address: Option::Some(a), password: Option::Some(p) };
    if i == 0 {
        assert(spec_set(s, n, a, p) == seq![pv] + s.drop_first());
        assert(seq![pv] + s.drop_first() =~= s.update(0, pv));
    } else {
        let sd = s.drop_first();
        assert(sd[i - 1].name == n);
        assert forall|k: int| 0 <= k < i - 1 implies (#[trigger] sd[k]).name != n by {
            assert(sd[k] == s[k + 1]);
        }
        lemma_set_at(sd, n, a, p, i - 1);
        assert(seq![s[0]] + sd.update(i - 1, pv) =~= s.update(i, pv));
    }
}

/// A removal of the name carried by entry `i`, no earlier entry carrying it,
/// drops exactly entry `i`.
pub proof fn lemma_remove_at(s: Seq<ProfileV>, n: Seq<char>, i: int)
    requires
        0 <= i < s.len(),
        s[i].name == n,
        forall|k: int| 0 <= k < i ==> (#[trigger] s[k]).name != n,
    ensures
        spec_remove(s, n) == s.remove(i),
    decreases i,
{
    if i == 0 {
        assert(s.drop_first() =~= s.remove(0));
    } else {
        let sd = s.drop_first();
        assert(sd[i - 1].name == n);
        assert forall|k: int| 0 <= k < i - 1 implies (#[trigger] sd[k]).name != n by {
            assert(sd[k] == s[k + 1]);
        }
        lemma_remove_at(sd, n, i - 1);
        assert(seq![s[0]] + sd.remove(i - 1) =~= s.remove(i));
    }
}

/// A removal of a name that no entry carries changes nothing.
pub proof fn lemma_remove_absent(s: Seq<ProfileV>, n: Seq<char>)
    requires
        forall|k: int| 0 <= k < s.len() ==> (#[trigger] s[k]).name != n,
    ensures
        spec_remove(s, n) == s,
    decreases s.len(),
{
    if s.len() > 0 {
        let sd = s.drop_first();
        assert forall|k: int| 0 <= k < sd.len() implies (#[trigger] sd[k]).name != n by {
            assert(sd[k] == s[k + 1]);
        }
        lemma_remove_absent(sd, n);
        assert(spec_remove(s, n) =~= s);
    }
}

/// The registry of one invocation.
pub struct Config {
    entries: Vec<Profile>,
}

impl View for Config {
    type V = Seq<ProfileV>;

    closed spec fn view(&self) -> Seq<ProfileV> {
        self.entries@.map_values(|p: Profile| p@)
    }
}

impl Config {
    /// The registry's invariant: names unique, no entry without fields.
    pub open spec fn inv(&self) -> bool {
        wf_profiles(self@)
    }

    /// An empty registry (a missing backing file is not an error).
    pub fn new() -> (c: Config)
        ensures
            c@ == Seq::<ProfileV>::empty(),
            c.inv(),
    {
        let c = Config { entries: Vec::new() };
        proof {
            assert(c@ =~= Seq::<ProfileV>::empty());
        }
        c
    }

    /// The position of the first entry named `server`, if any.
    fn find_index(&self, server: &str) -> (r: Option<usize>)
        ensures
            match r {
                Option::Some(i) => i < self@.len() && self@[i as int].name == server@ && forall|
                    k: int,
                |
                    0 <= k < i ==> (#[trigger] self@[k]).name != server@,
                Option::None => forall|k: int|
                    0 <= k < self@.len() ==> (#[trigger] self@[k]).name != server@,
            },
    {
        let n = self.entries.len();
        let mut i: usize = 0;
        while i < n
            invariant
                0 <= i <= n,
                n == self.entries.len(),
                n == self@.len(),
                forall|k: int| 0 <= k < i ==> (#[trigger] self@[k]).name != server@,
            decreases n - i,
        {
            if str_eq(self.entries[i].name.as_str(), server) {
                proof {
                    assert(self@[i as int] == self.entries@[i as int]@);
                }
                return Option::Some(i);
            }
            proof {
                assert(self@[i as int] == self.entries@[i as int]@);
            }
            i = i + 1;
        }
        Option::None
    }

    /// Looks a name up; yields the (address, credential) pair only if both
    /// fields are present.
    pub fn get(&self, server: &str) -> (r: Option<(String, String)>)
        ensures
            match spec_get(self@, server@) {
                Option::Some(pair) => r matches Option::Some(t) && t.0@ == pair.0 && t.1@
                    == pair.1,
                Option::None => r is None,
            },
    {
        match self.find_index(server) {
            Option::Some(i) => {
                proof {
                    lemma_find_skip(self@, server@, i as int);
                    assert(self@.skip(i as int)[0] == self@[i as int]);
                }
                let e = &self.entries[i];
                proof {
                    assert(self@[i as int] == self.entries@[i as int]@);
                }
                match (&e.address, &e.password) {
                    (Option::Some(a), Option::Some(p)) => Option::Some((a.clone(), p.clone())),
                    _ => Option::None,
                }
            },
            Option::None => {
                proof {
                    lemma_find_names(self@, server@);
                }
                Option::None
            },
        }
    }

    /// Upserts both fields under `server`.  Does not itself persist.
    pub fn set(&mut self, server: &str, address: &str, password: &str)
        requires
            old(self).inv(),
        ensures
            final(self).inv(),
            final(self)@ == spec_set(old(self)@, server@, address@, password@),
            find_profile(final(self)@, server@) == Option::Some(
                ProfileV {
                    name: server@,
                    address: Option::Some(address@),
                    password: Option::Some(password@),
                },
            ),
            forall|m: Seq<char>|
                m != server@ ==> #[trigger] find_profile(final(self)@, m) == find_profile(
                    old(self)@,
                    m,
                ),
    {
        proof {
            lemma_set_find(old(self)@, server@, address@, password@);
        }
        let prof = Profile {
            name: String::from_str(server),
            address: Option::Some(String::from_str(address)),
            password: Option::Some(String::from_str(password)),
        };
        match self.find_index(server) {
            Option::Some(i) => {
                proof {
                    lemma_set_at(self@, server@, address@, password@, i as int);
                }
                self.entries.remove(i);
                self.entries.insert(i, prof);
                proof {
                    assert(self@ =~= old(self)@.update(i as int, prof@));
                }
            },
            Option::None => {
                proof {
                    lemma_set_absent(self@, server@, address@, password@);
                }
                self.entries.push(prof);
                proof {
                    assert(self@ =~= old(self)@.push(prof@));
                }
            },
        }
    }

    /// Deletes the entry under `server`, if any.  Does not itself persist.
    pub fn remove(&mut self, server: &str)
        requires
            old(self).inv(),
        ensures
            final(self).inv(),
            final(self)@ == spec_remove(old(self)@, server@),
            find_profile(final(self)@, server@) is None,
            forall|m: Seq<char>|
                m != server@ ==> #[trigger] find_profile(final(self)@, m) == find_profile(
                    old(self)@,
                    m,
                ),
    {
        proof {
            lemma_remove_find(old(self)@, server@);
        }
        match self.find_index(server) {
            Option::Some(i) => {
                proof {
                    lemma_remove_at(self@, server@, i as int);
                }
                self.entries.remove(i);
                proof {
                    assert(self@ =~= old(self)@.remove(i as int));
                }
            },
            Option::None => {
                proof {
                    lemma_remove_absent(self@, server@);
                }
            },
        }
    }

    /// Enumerates the names of all entries, in the store's order.  Each name
    /// appears exactly once (by the invariant).
    pub fn servers(&self) -> (r: Vec<String>)
        ensures
            r@.len() == self@.len(),
            forall|i: int| 0 <= i < r@.len() ==> (#[trigger] r@[i])@ == self@[i].name,
    {
        let n = self.entries.len();
        let mut out: Vec<String> = Vec::new();
        let mut i: usize = 0;
        while i < n
            invariant
                0 <= i <= n,
                n == self.entries.len(),
                n == self@.len(),
                out@.len() == i,
                forall|k: int| 0 <= k < i ==> (#[trigger] out@[k])@ == self@[k].name,
            decreases n - i,
        {
            out.push(self.entries[i].name.clone());
            proof {
                assert(self@[i as int] == self.entries@[i as int]@);
            }
            i = i + 1;
        }
        out
    }

    /// How many entries the registry holds.
    pub fn len(&self) -> (n: usize)
        ensures
            n == self@.len(),
    {
        self.entries.len()
    }

    /// A borrowed look at one entry, for enumeration by index.
    pub fn entry_at(&self, i: usize) -> (p: &Profile)
        requires
            i < self@.len(),
        ensures
            p@ == self@[i as int],
    {
        let e = &self.entries[i];
        proof {
            assert(self@[i as int] == self.entries@[i as int]@);
        }
        e
    }

    /// Appends an entry known to be fresh; used when a registry is rebuilt
    /// from a parsed document.
    pub(crate) fn push_entry(&mut self, p: Profile)
        requires
            old(self).inv(),
            find_profile(old(self)@, p@.name) is None,
            p@.address is Some || p@.password is Some,
        ensures
            final(self).inv(),
            final(self)@ == old(self)@.push(p@),
    {
        proof {
            lemma_find_names(old(self)@, p@.name);
        }
        let ghost pv = p@;
        self.entries.push(p);
        proof {
            assert(self@ =~= old(self)@.push(pv));
            let t = self@;
            let s = old(self)@;
            assert forall|i: int, j: int|
                #![trigger t[i].name, t[j].name]
                0 <= i < j < t.len() implies t[i].name != t[j].name by {
                if j < s.len() {
                    assert(t[i] == s[i] && t[j] == s[j]);
                } else {
                    assert(t[j] == pv);
                    assert(t[i] == s[i]);
                    assert(s[i].name != pv.name);
                }
            }
        }
    }
}

/// Lookup ignores a prefix of entries that do not carry the name.
pub proof fn lemma_find_skip(s: Seq<ProfileV>, n: Seq<char>, i: int)
    requires
        0 <= i <= s.len(),
        forall|k: int| 0 <= k < i ==> (#[trigger] s[k]).name != n,
    ensures
        find_profile(s.skip(i), n) == find_profile(s, n),
    decreases i,
{
    if i == 0 {
        assert(s.skip(0) =~= s);
    } else {
        lemma_find_skip(s, n, i - 1);
        assert(s.skip(i - 1)[0] == s[i - 1]);
        assert(s.skip(i - 1).drop_first() =~= s.skip(i));
        assert(s.skip(i - 1).len() > 0);
    }
}

/// Lookup in a registry extended at the end: an existing entry still wins;
/// the appended entry is found only under its own, previously absent name.
pub proof fn lemma_find_push(s: Seq<ProfileV>, p: ProfileV, n: Seq<char>)
    ensures
        find_profile(s.push(p), n) == (if find_profile(s, n) is Some {
            find_profile(s, n)
        } else if p.name == n {
            Option::Some(p)
        } else {
            Option::<ProfileV>::None
        }),
    decreases s.len(),
{
    let t = s.push(p);
    if s.len() == 0 {
        assert(t[0] == p);
        assert(t.drop_first() =~= Seq::<ProfileV>::empty());
    } else {
        assert(t[0] == s[0]);
        assert(t.drop_first() =~= s.drop_first().push(p));
        lemma_find_push(s.drop_first(), p, n);
    }
}

/// Well-formedness is inherited by any prefix of a registry.
pub proof fn lemma_wf_take(s: Seq<ProfileV>, i: int)
    requires
        wf_profiles(s),
        0 <= i <= s.len(),
    ensures
        wf_profiles(s.take(i)),
{
    let t = s.take(i);
    assert forall|a: int, b: int|
        #![trigger t[a].name, t[b].name]
        0 <= a < b < t.len() implies t[a].name != t[b].name by {
        assert(t[a] == s[a]);
        assert(t[b] == s[b]);
    }
    assert forall|a: int| 0 <= a < t.len() implies (#[trigger] t[a]).address is Some
        || t[a].password is Some by {
        assert(t[a] == s[a]);
        assert(s[a].address is Some || s[a].password is Some);
    }
}

/// Law: adding a profile and then reading it back yields exactly the stored
/// (address, credential) pair.
pub proof fn lemma_set_then_get(s: Seq<ProfileV>, n: Seq<char>, a: Seq<char>, p: Seq<char>)
    ensures
        spec_get(spec_set(s, n, a, p), n) == Option::Some((a, p)),
{
    lemma_set_find(s, n, a, p);
}

/// Law: removing a name makes a subsequent read of it yield nothing, and
/// leaves every other profile unchanged.
pub proof fn lemma_remove_then_get(s: Seq<ProfileV>, n: Seq<char>)
    requires
        wf_profiles(s),
    ensures
        spec_get(spec_remove(s, n), n) is None,
        forall|m: Seq<char>|
            m != n ==> #[trigger] spec_get(spec_remove(s, n), m) == spec_get(s, m),
{
    lemma_remove_find(s, n);
    assert forall|m: Seq<char>| m != n implies #[trigger] spec_get(spec_remove(s, n), m)
        == spec_get(s, m) by {
        assert(find_profile(spec_remove(s, n), m) == find_profile(s, m));
    }
}

} // verus!
