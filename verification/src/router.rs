//! The command router: the three registry operations and the selector
//! routing of a remote-session command.
//!
//! Every invocation performs exactly one of: add, remove, list, or a remote
//! session.  Validation happens before any mutation — a rejected add or
//! remove leaves the registry untouched, so persistence (which the caller
//! performs afterwards) never writes a half-done state.

use vstd::prelude::*;
use vstd::string::StringExecFns;
use crate::errors::Failure;
use crate::store::{find_profile, spec_get, spec_remove, spec_set, Config, ProfileV};
use crate::text::{contains_colon, has_colon};

verus! {

/// Registers a new server.  Fails with `InvalidName` on a colon in the name
/// (always, whatever the other arguments), with `DuplicateServer` when the
/// name already resolves; only then upserts.  Never mutates on failure.
/// The caller persists afterwards; `credential` is the already-resolved
/// secret.
pub fn cmd_add(cfg: &mut Config, name: &str, address: &str, credential: &str) -> (r: Result<
    (),
    Failure,
>)
    requires
        old(cfg).inv(),
    ensures
        final (cfg).inv(),
        has_colon(name@) ==> r == Result::<(), Failure>::Err(Failure::InvalidName) && final (cfg)@
            == old(cfg)@,
        !has_colon(name@) && spec_get(old(cfg)@, name@) is Some ==> r == Result::<(),
            Failure,
        >::Err(Failure::DuplicateServer) && final (cfg)@ == old(cfg)@,
        !has_colon(name@) && spec_get(old(cfg)@, name@) is None ==> r == Result::<(),
            Failure,
        >::Ok(()) && final (cfg)@ == spec_set(old(cfg)@, name@, address@, credential@),
{
    if contains_colon(name) {
        return Result::Err(Failure::InvalidName);
    }
    match cfg.get(name) {
        Option::Some(_) => Result::Err(Failure::DuplicateServer),
        Option::None => {
            cfg.set(name, address, credential);
            Result::Ok(())
        },
    }
}

/// The validation of an add alone, before the credential is resolved: a
/// prompt must not be shown for an add that would be rejected anyway.
/// Judges exactly as [`cmd_add`] does.
pub fn add_precheck(cfg: &Config, name: &str) -> (r: Result<(), Failure>)
    ensures
        has_colon(name@) ==> r == Result::<(), Failure>::Err(Failure::InvalidName),
        !has_colon(name@) && spec_get(cfg@, name@) is Some ==> r == Result::<(), Failure>::Err(
            Failure::DuplicateServer,
        ),
        !has_colon(name@) && spec_get(cfg@, name@) is None ==> r == Result::<(), Failure>::Ok(()),
{
    if contains_colon(name) {
        return Result::Err(Failure::InvalidName);
    }
    match cfg.get(name) {
        Option::Some(_) => Result::Err(Failure::DuplicateServer),
        Option::None => Result::Ok(()),
    }
}

/// Unregisters a server.  Fails with `RemoveUnknown` when the name does not
/// resolve, leaving the registry untouched; otherwise deletes the entry.
/// The caller persists afterwards.
pub fn cmd_remove(cfg: &mut Config, name: &str) -> (r: Result<(), Failure>)
    requires
        old(cfg).inv(),
    ensures
        final (cfg).inv(),
        spec_get(old(cfg)@, name@) is None ==> r == Result::<(), Failure>::Err(
            Failure::RemoveUnknown,
        ) && final (cfg)@ == old(cfg)@,
        spec_get(old(cfg)@, name@) is Some ==> r == Result::<(), Failure>::Ok(()) && final (cfg)@
            == spec_remove(old(cfg)@, name@),
{
    match cfg.get(name) {
        Option::None => Result::Err(Failure::RemoveUnknown),
        Option::Some(_) => {
            cfg.remove(name);
            Result::Ok(())
        },
    }
}

/// Whether a profile resolves: both fields present.
pub open spec fn complete(p: ProfileV) -> bool {
    p.address is Some && p.password is Some
}

/// The listing line of one resolvable profile.
pub open spec fn line_of(p: ProfileV, show_password: bool) -> Seq<char>
    recommends
        complete(p),
{
    if show_password {
        p.name + ": "@ + p.address->0 + " ("@ + p.password->0 + ")"@
    } else {
        p.name + ": "@ + p.address->0
    }
}

/// The listing of a registry: one line per resolvable profile, in the
/// store's order; entries that do not resolve are silently skipped
/// (listing is best-effort).
pub open spec fn spec_list(s: Seq<ProfileV>, show_passwords: bool) -> Seq<Seq<char>>
    decreases s.len(),
{
    if s.len() == 0 {
        Seq::empty()
    } else if complete(s[0]) {
        seq![line_of(s[0], show_passwords)] + spec_list(s.drop_first(), show_passwords)
    } else {
        spec_list(s.drop_first(), show_passwords)
    }
}

/// A listing extended at the end grows by at most the appended entry's line.
pub proof fn lemma_list_push(s: Seq<ProfileV>, p: ProfileV, show: bool)
    ensures
        spec_list(s.push(p), show) == (if complete(p) {
            spec_list(s, show).push(line_of(p, show))
        } else {
            spec_list(s, show)
        }),
    decreases s.len(),
{
    let t = s.push(p);
    if s.len() == 0 {
        assert(t[0] == p);
        assert(t.drop_first() =~= Seq::<ProfileV>::empty());
        assert(spec_list(Seq::<ProfileV>::empty(), show) == Seq::<Seq<char>>::empty());
        assert(spec_list(s, show) == Seq::<Seq<char>>::empty());
        if complete(p) {
            assert(spec_list(t, show) =~= spec_list(s, show).push(line_of(p, show)));
        } else {
            assert(spec_list(t, show) =~= spec_list(s, show));
        }
    } else {
        assert(t[0] == s[0]);
        assert(t.drop_first() =~= s.drop_first().push(p));
        lemma_list_push(s.drop_first(), p, show);
        if complete(p) {
            assert(spec_list(t, show) =~= spec_list(s, show).push(line_of(p, show)));
        } else {
            assert(spec_list(t, show) =~= spec_list(s, show));
        }
    }
}

/// Renders the registry listing: `name: address` per resolvable profile, the
/// credential in parentheses when asked for.
pub fn list_lines(cfg: &Config, show_passwords: bool) -> (r: Vec<String>)
    ensures
        r@.map_values(|l: String| l@) == spec_list(cfg@, show_passwords),
{
    let n = cfg.len();
    let mut out: Vec<String> = Vec::new();
    let mut i: usize = 0;
    proof {
        assert(cfg@.take(0) =~= Seq::<ProfileV>::empty());
        assert(out@.map_values(|l: String| l@) =~= spec_list(cfg@.take(0), show_passwords));
    }
    while i < n
        invariant
            0 <= i <= n,
            n == cfg@.len(),
            out@.map_values(|l: String| l@) == spec_list(cfg@.take(i as int), show_passwords),
        decreases n - i,
    {
        let e = cfg.entry_at(i);
        proof {
            assert(cfg@.take(i + 1).drop_last() =~= cfg@.take(i as int));
            assert(cfg@.take(i + 1) =~= cfg@.take(i as int).push(cfg@[i as int]));
            lemma_list_push(cfg@.take(i as int), cfg@[i as int], show_passwords);
        }
        match (&e.address, &e.password) {
            (Option::Some(a), Option::Some(w)) => {
                let mut line = e.name.clone();
                line.append(": ");
                line.append(a.as_str());
                if show_passwords {
                    line.append(" (");
                    line.append(w.as_str());
                    line.append(")");
                }
                out.push(line);
                proof {
                    assert(out@.map_values(|l: String| l@) =~= spec_list(
                        cfg@.take(i + 1),
                        show_passwords,
                    ));
                }
            },
            _ => {
                proof {
                    assert(!complete(cfg@[i as int]));
                }
            },
        }
        i = i + 1;
    }
    proof {
        assert(cfg@.take(n as int) =~= cfg@);
    }
    out
}

/// The target of a remote-session command.
#[derive(Debug)]
pub enum SessionTarget {
    /// A colon-containing selector: a literal `host:port` address, used
    /// verbatim, with an externally resolved credential.
    AdHoc(String),
    /// A registry profile: its address and its stored credential.
    Stored(String, String),
}

/// The model of [`SessionTarget`].
pub enum SessionTargetV {
    AdHoc(Seq<char>),
    Stored(Seq<char>, Seq<char>),
}

impl View for SessionTarget {
    type V = SessionTargetV;

    open spec fn view(&self) -> SessionTargetV {
        match self {
            SessionTarget::AdHoc(a) => SessionTargetV::AdHoc(a@),
            SessionTarget::Stored(a, w) => SessionTargetV::Stored(a@, w@),
        }
    }
}

/// The routing rule: a colon in the selector means ad-hoc addressing and the
/// registry is bypassed; otherwise the selector must resolve in the
/// registry, and a selector that does not is fatal.
pub open spec fn spec_route(s: Seq<ProfileV>, sel: Seq<char>) -> Result<SessionTargetV, Failure> {
    if has_colon(sel) {
        Result::Ok(SessionTargetV::AdHoc(sel))
    } else {
        match spec_get(s, sel) {
            Option::Some(pair) => Result::Ok(SessionTargetV::Stored(pair.0, pair.1)),
            Option::None => Result::Err(Failure::UnknownServer),
        }
    }
}

/// Resolves the selector of a remote-session command.
pub fn resolve_selector(cfg: &Config, selector: &str) -> (r: Result<SessionTarget, Failure>)
    ensures
        match r {
            Result::Ok(t) => spec_route(cfg@, selector@) == Result::<SessionTargetV,
                Failure,
            >::Ok(t@),
            Result::Err(e) => spec_route(cfg@, selector@) == Result::<SessionTargetV,
                Failure,
            >::Err(e),
        },
{
    if contains_colon(selector) {
        Result::Ok(SessionTarget::AdHoc(String::from_str(selector)))
    } else {
        match cfg.get(selector) {
            Option::Some((a, w)) => Result::Ok(SessionTarget::Stored(a, w)),
            Option::None => Result::Err(Failure::UnknownServer),
        }
    }
}

/// Law: a colon-containing selector bypasses the registry entirely — the
/// routing is the same whatever the registry holds, it never fails, and it
/// never reads a profile.
pub proof fn lemma_adhoc_bypasses_registry(s1: Seq<ProfileV>, s2: Seq<ProfileV>, sel: Seq<char>)
    requires
        has_colon(sel),
    ensures
        spec_route(s1, sel) == spec_route(s2, sel),
        spec_route(s1, sel) == Result::<SessionTargetV, Failure>::Ok(SessionTargetV::AdHoc(sel)),
{
}

/// Law: a selector without a colon that the registry does not resolve is
/// fatal before any connection: the routing yields the unknown-server
/// failure and no target.
pub proof fn lemma_unknown_selector_is_fatal(s: Seq<ProfileV>, sel: Seq<char>)
    requires
        !has_colon(sel),
        spec_get(s, sel) is None,
    ensures
        spec_route(s, sel) == Result::<SessionTargetV, Failure>::Err(Failure::UnknownServer),
{
}

} // verus!
