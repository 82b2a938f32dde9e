//! Persistence of the registry through the structured key/value document
//! format of the `ini` crate.
//!
//! The registry is serialized as one section per server name with the two
//! fields `address` and `password`; loading parses a document and rebuilds a
//! registry from its named sections.  The document's model is a map from
//! section names to their key/value maps ([`ini_doc`]); the trusted items
//! below say what each call of the `ini` crate does over that model, and the
//! verified functions build on them.
//!
//! [`Config::to_text`] guarantees that for registries of plain printable
//! strings the produced text parses back to exactly the same document model
//! — the round-trip law [`saved_then_reloaded`] rests on it.

use vstd::prelude::*;
use crate::errors::Failure;
use crate::store::{find_profile, spec_get, wf_profiles, Config, Profile, ProfileV};
use crate::store::{lemma_find_names, lemma_find_push, lemma_wf_take};
use crate::text::{safe_name, safe_value};

verus! {

/// The `ini` crate's document type, opaque to this library's proofs.
#[verifier::external_type_specification]
#[verifier::external_body]
pub struct ExIni(ini::Ini);

/// The `ini` crate's parse-failure type, opaque to this library's proofs.
#[verifier::external_type_specification]
#[verifier::external_body]
pub struct ExParseError(ini::ParseError);

/// The model of a document held by the `ini` crate: for each named section,
/// the first value each key would yield when read.  The unnamed general
/// section is not part of the model; it is never a server record.
pub uninterp spec fn ini_doc(i: ini::Ini) -> Map<Seq<char>, Map<Seq<char>, Seq<char>>>;

/// Whether a document is in the canonical shape this library builds: at most
/// one block per section name, one value per key, an empty general section.
/// Freshly created documents are canonical and stay so under `set`; only
/// parsed documents can be otherwise.
pub uninterp spec fn ini_canonical(i: ini::Ini) -> bool;

/// The model of what `Ini::load_from_str` yields on a text: the parsed
/// document's model, or nothing when the text is rejected.
pub uninterp spec fn parse_result(s: Seq<char>) -> Option<Map<Seq<char>, Map<Seq<char>, Seq<char>>>>;

/// A document model whose text round-trips: plain section names, only the
/// two record fields, plain values.
pub open spec fn safe_doc(d: Map<Seq<char>, Map<Seq<char>, Seq<char>>>) -> bool {
    forall|n: Seq<char>| #[trigger]
        d.contains_key(n) ==> safe_name(n) && (forall|k: Seq<char>| #[trigger]
            d[n].contains_key(k) ==> (k == "address"@ || k == "password"@) && safe_value(d[n][k]))
}

/// The model of a document with no named section.
pub open spec fn empty_doc() -> Map<Seq<char>, Map<Seq<char>, Seq<char>>> {
    Map::empty()
}

/// The model of a record with no field yet.
pub open spec fn empty_record() -> Map<Seq<char>, Seq<char>> {
    Map::empty()
}

/// Relies on `ini::Ini::new`: a fresh document holds only the empty general
/// section, so its model is empty and canonical.
#[verifier::external_body]
fn ini_new() -> (r: ini::Ini)
    ensures
        ini_doc(r) == empty_doc(),
        ini_canonical(r),
{
    ini::Ini::new()
}

/// Relies on `ini::Ini::with_section(..).set(..)`: upserts one key of one
/// named section (creating the section if absent), touching nothing else,
/// and keeps a canonical document canonical.
#[verifier::external_body]
fn ini_set(i: &mut ini::Ini, section: &str, key: &str, value: &str)
    ensures
        ini_doc(*final (i)) == ini_doc(*old(i)).insert(
            section@,
            (if ini_doc(*old(i)).contains_key(section@) {
                ini_doc(*old(i))[section@]
            } else {
                empty_record()
            }).insert(key@, value@),
        ),
        ini_canonical(*old(i)) ==> ini_canonical(*final (i)),
{
    i.with_section(Some(section)).set(key, value);
}

/// Relies on `ini::Ini::get_from`: yields the first value of a key in a
/// named section, exactly when the model holds one.
#[verifier::external_body]
fn ini_get(i: &ini::Ini, section: &str, key: &str) -> (r: Option<String>)
    ensures
        r matches Option::Some(v) ==> ini_doc(*i).contains_key(section@) && ini_doc(
            *i,
        )[section@].contains_key(key@) && v@ == ini_doc(*i)[section@][key@],
        r is None ==> !(ini_doc(*i).contains_key(section@) && ini_doc(*i)[section@].contains_key(
            key@,
        )),
{
    match i.get_from(Some(section), key) {
        Some(v) => Some(v.to_string()),
        None => None,
    }
}

/// Relies on `ini::Ini::sections`: enumerates the named sections, each
/// exactly once (the unnamed general section is skipped).
#[verifier::external_body]
fn ini_sections(i: &ini::Ini) -> (r: Vec<String>)
    ensures
        forall|k: int| 0 <= k < r@.len() ==> ini_doc(*i).contains_key((#[trigger] r@[k])@),
        forall|n: Seq<char>| #[trigger]
            ini_doc(*i).contains_key(n) ==> exists|k: int| 0 <= k < r@.len() && r@[k]@ == n,
        forall|k1: int, k2: int| 0 <= k1 < k2 < r@.len() ==> (#[trigger] r@[k1])@ != (
        #[trigger] r@[k2])@,
{
    i.sections().flatten().map(|s| s.to_string()).collect()
}

/// Relies on `ini::Ini::write_to`: serializes the document; for a canonical
/// document of plain strings the text parses back to the same model.
#[verifier::external_body]
fn ini_write(i: &ini::Ini) -> (r: String)
    ensures
        (ini_canonical(*i) && safe_doc(ini_doc(*i))) ==> parse_result(r@) == Option::Some(
            ini_doc(*i),
        ),
{
    let mut buf: Vec<u8> = Vec::new();
    i.write_to(&mut buf).expect("writing to a buffer cannot fail");
    String::from_utf8(buf).expect("the writer emits text")
}

/// Relies on `ini::Ini::load_from_str`: parsing is a function of the text
/// alone; it succeeds exactly when [`parse_result`] holds a model, and then
/// yields a document with that model.
#[verifier::external_body]
fn ini_parse(text: &str) -> (r: Result<ini::Ini, ini::ParseError>)
    ensures
        (r is Ok) == (parse_result(text@) is Some),
        r matches Result::Ok(i) ==> parse_result(text@) == Option::Some(ini_doc(i)),
{
    ini::Ini::load_from_str(text)
}

/// The record a profile is persisted as: its present fields under the two
/// fixed keys.
pub open spec fn record_of(p: ProfileV) -> Map<Seq<char>, Seq<char>> {
    let m0 = Map::<Seq<char>, Seq<char>>::empty();
    let m1 = match p.address {
        Option::Some(a) => m0.insert("address"@, a),
        Option::None => m0,
    };
    match p.password {
        Option::Some(w) => m1.insert("password"@, w),
        Option::None => m1,
    }
}

/// The document model a registry is persisted as: one record per entry.
pub open spec fn doc_of(s: Seq<ProfileV>) -> Map<Seq<char>, Map<Seq<char>, Seq<char>>>
    decreases s.len(),
{
    if s.len() == 0 {
        Map::empty()
    } else {
        doc_of(s.drop_last()).insert(s.last().name, record_of(s.last()))
    }
}

/// A profile whose strings the document format stores verbatim.
pub open spec fn safe_profile(p: ProfileV) -> bool {
    &&& safe_name(p.name)
    &&& (p.address matches Option::Some(a) ==> safe_value(a))
    &&& (p.password matches Option::Some(w) ==> safe_value(w))
}

/// A registry whose strings the document format stores verbatim: for these,
/// saving and loading is exact.
pub open spec fn safe_config(s: Seq<ProfileV>) -> bool {
    forall|i: int| 0 <= i < s.len() ==> safe_profile(#[trigger] s[i])
}

/// A looked-up profile, if there is one, mirrors the two record fields of
/// its section in the document model.
pub open spec fn entry_matches(
    po: Option<ProfileV>,
    d: Map<Seq<char>, Map<Seq<char>, Seq<char>>>,
    n: Seq<char>,
) -> bool {
    po matches Option::Some(p) ==> d.contains_key(n) && p.name == n && p.address == doc_field(
        d,
        n,
        "address"@,
    ) && p.password == doc_field(d, n, "password"@)
}

/// A registry agrees with a document model: every profile mirrors the two
/// record fields of its section, and every section with at least one record
/// field has its profile.
pub open spec fn matches_doc(s: Seq<ProfileV>, d: Map<Seq<char>, Map<Seq<char>, Seq<char>>>) -> bool {
    &&& forall|n: Seq<char>| entry_matches(#[trigger] find_profile(s, n), d, n)
    &&& forall|n: Seq<char>|
        d.contains_key(n) && (d[n].contains_key("address"@) || d[n].contains_key("password"@))
            ==> #[trigger] find_profile(s, n) is Some
}

/// One record field of a document model, read defensively.
pub open spec fn doc_field(
    d: Map<Seq<char>, Map<Seq<char>, Seq<char>>>,
    n: Seq<char>,
    k: Seq<char>,
) -> Option<Seq<char>> {
    if d.contains_key(n) && d[n].contains_key(k) {
        Option::Some(d[n][k])
    } else {
        Option::None
    }
}

/// The two record keys differ.
pub proof fn lemma_field_keys_distinct()
    ensures
        "address"@ != "password"@,
{
    reveal_strlit("address");
    reveal_strlit("password");
    assert("address"@.len() == 7);
    assert("password"@.len() == 8);
}

/// The persisted document of a well-formed registry has exactly the entry
/// names as sections, each holding the entry's record.
pub proof fn lemma_doc_of_props(s: Seq<ProfileV>)
    requires
        wf_profiles(s),
    ensures
        forall|n: Seq<char>| #[trigger] doc_of(s).contains_key(n) <==> find_profile(s, n) is Some,
        forall|n: Seq<char>| #[trigger]
            doc_of(s).contains_key(n) ==> doc_of(s)[n] == record_of(find_profile(s, n)->0),
    decreases s.len(),
{
    if s.len() > 0 {
        let sd = s.drop_last();
        let last = s.last();
        lemma_wf_take(s, s.len() - 1);
        assert(sd =~= s.take(s.len() - 1));
        lemma_doc_of_props(sd);
        assert(s =~= sd.push(last));
        assert forall|n: Seq<char>| #[trigger]
            doc_of(s).contains_key(n) <==> find_profile(s, n) is Some by {
            lemma_find_push(sd, last, n);
            assert(doc_of(sd).contains_key(n) <==> find_profile(sd, n) is Some);
            assert(doc_of(s) == doc_of(sd).insert(last.name, record_of(last)));
        }
        assert forall|n: Seq<char>| #[trigger] doc_of(s).contains_key(n) implies doc_of(s)[n]
            == record_of(find_profile(s, n)->0) by {
            lemma_find_push(sd, last, n);
            if n == last.name {
                lemma_find_names(sd, n);
                assert forall|k: int| 0 <= k < sd.len() implies (#[trigger] sd[k]).name != n by {
                    assert(sd[k] == s[k]);
                    assert(s[k].name != s[s.len() - 1].name);
                }
                assert(find_profile(sd, n) is None);
                assert(doc_of(s)[n] == record_of(last));
            } else {
                assert(doc_of(s)[n] == doc_of(sd)[n]);
            }
        }
    }
}

/// For a registry of plain strings, the persisted document is safe: plain
/// section names, only the two record fields, plain values.
pub proof fn lemma_safe_doc(s: Seq<ProfileV>)
    requires
        wf_profiles(s),
        safe_config(s),
    ensures
        safe_doc(doc_of(s)),
{
    lemma_doc_of_props(s);
    assert forall|n: Seq<char>| #[trigger] doc_of(s).contains_key(n) implies safe_name(n) && (
    forall|k: Seq<char>| #[trigger]
        doc_of(s)[n].contains_key(k) ==> (k == "address"@ || k == "password"@) && safe_value(
            doc_of(s)[n][k],
        )) by {
        lemma_find_names(s, n);
        match find_profile(s, n) {
            Option::Some(p) => {
                let i = choose|i: int| 0 <= i < s.len() && s[i] == p;
                assert(safe_profile(p));
                assert(doc_of(s)[n] == record_of(p));
                assert forall|k: Seq<char>| #[trigger]
                    record_of(p).contains_key(k) implies (k == "address"@ || k == "password"@)
                    && safe_value(record_of(p)[k]) by {}
            },
            Option::None => {},
        }
    }
}

impl Config {
    /// Serializes the registry to the persisted document text.  For a
    /// registry of plain printable strings the text parses back to exactly
    /// the registry's document model.
    pub fn to_text(&self) -> (t: String)
        requires
            self.inv(),
        ensures
            safe_config(self@) ==> parse_result(t@) == Option::Some(doc_of(self@)),
    {
        let mut doc = ini_new();
        let n = self.len();
        let mut i: usize = 0;
        while i < n
            invariant
                0 <= i <= n,
                n == self@.len(),
                self.inv(),
                ini_canonical(doc),
                ini_doc(doc) == doc_of(self@.take(i as int)),
            decreases n - i,
        {
            let e = self.entry_at(i);
            proof {
                lemma_wf_take(self@, i as int);
                lemma_doc_of_props(self@.take(i as int));
                lemma_find_names(self@.take(i as int), e@.name);
                assert forall|k: int|
                    0 <= k < self@.take(i as int).len() implies (#[trigger] self@.take(
                    i as int,
                )[k]).name != e@.name by {
                    assert(self@.take(i as int)[k] == self@[k]);
                    assert(self@[k].name != self@[i as int].name);
                }
                assert(!doc_of(self@.take(i as int)).contains_key(e@.name));
            }
            match &e.address {
                Option::Some(a) => ini_set(&mut doc, e.name.as_str(), "address", a.as_str()),
                Option::None => (),
            }
            match &e.password {
                Option::Some(w) => ini_set(&mut doc, e.name.as_str(), "password", w.as_str()),
                Option::None => (),
            }
            proof {
                assert(self@.take(i + 1).drop_last() =~= self@.take(i as int));
                assert(self@.take(i + 1).last() == self@[i as int]);
                assert(self@[i as int].address is Some || self@[i as int].password is Some);
                assert(ini_doc(doc) =~~= doc_of(self@.take(i + 1)));
            }
            i = i + 1;
        }
        proof {
            assert(self@.take(n as int) =~= self@);
            if safe_config(self@) {
                lemma_safe_doc(self@);
            }
        }
        ini_write(&doc)
    }

    /// Parses a persisted document text into a registry.  Succeeds exactly
    /// when the text parses; the registry then mirrors the document's named
    /// sections, each section with at least one record field becoming one
    /// entry.  A rejected text is a fatal configuration failure.
    pub fn from_text(text: &str) -> (r: Result<Config, Failure>)
        ensures
            (r is Ok) == (parse_result(text@) is Some),
            r matches Result::Ok(c) ==> c.inv() && matches_doc(c@, parse_result(text@)->0),
            r matches Result::Err(e) ==> e == Failure::ConfigLoad,
    {
        let parsed = ini_parse(text);
        match parsed {
            Result::Err(_) => Result::Err(Failure::ConfigLoad),
            Result::Ok(doc) => {
                let ghost d = ini_doc(doc);
                let names = ini_sections(&doc);
                let m = names.len();
                let mut cfg = Config::new();
                let mut j: usize = 0;
                while j < m
                    invariant
                        0 <= j <= m,
                        m == names@.len(),
                        d == ini_doc(doc),
                        cfg.inv(),
                        forall|k: int|
                            0 <= k < m ==> d.contains_key((#[trigger] names@[k])@),
                        forall|n: Seq<char>| #[trigger]
                            d.contains_key(n) ==> exists|k: int| 0 <= k < m && names@[k]@ == n,
                        forall|k1: int, k2: int|
                            0 <= k1 < k2 < m ==> (#[trigger] names@[k1])@ != (
                            #[trigger] names@[k2])@,
                        forall|n: Seq<char>| #[trigger]
                            find_profile(cfg@, n) is Some ==> exists|k: int|
                                0 <= k < j && names@[k]@ == n,
                        forall|n: Seq<char>| entry_matches(#[trigger] find_profile(cfg@, n), d, n),
                        forall|k: int|
                            0 <= k < j && ((d[(#[trigger] names@[k])@].contains_key("address"@)
                                || d[names@[k]@].contains_key("password"@))) ==> find_profile(
                                cfg@,
                                names@[k]@,
                            ) is Some,
                    decreases m - j,
                {
                    let name = &names[j];
                    let a = ini_get(&doc, name.as_str(), "address");
                    let w = ini_get(&doc, name.as_str(), "password");
                    let has_a = a.is_some();
                    let has_w = w.is_some();
                    if has_a || has_w {
                        proof {
                            if find_profile(cfg@, name@) is Some {
                                let k = choose|k: int| 0 <= k < j && names@[k]@ == name@;
                                assert(names@[k]@ != names@[j as int]@);
                            }
                        }
                        let ghost pre = cfg@;
                        let entry = Profile { name: name.clone(), address: a, password: w };
                        let ghost ev = entry@;
                        cfg.push_entry(entry);
                        proof {
                            assert forall|n: Seq<char>| #[trigger]
                                find_profile(cfg@, n) is Some implies exists|k: int|
                                0 <= k < j + 1 && names@[k]@ == n by {
                                lemma_find_push(pre, ev, n);
                                if find_profile(pre, n) is Some {
                                    let k = choose|k: int| 0 <= k < j && names@[k]@ == n;
                                    assert(0 <= k < j + 1 && names@[k]@ == n);
                                } else {
                                    assert(n == name@);
                                    assert(names@[j as int]@ == n);
                                }
                            }
                            assert forall|n: Seq<char>| entry_matches(
                                #[trigger] find_profile(cfg@, n),
                                d,
                                n,
                            ) by {
                                lemma_find_push(pre, ev, n);
                            }
                            assert forall|k: int|
                                0 <= k < j + 1 && ((d[(#[trigger] names@[k])@].contains_key(
                                    "address"@,
                                ) || d[names@[k]@].contains_key("password"@))) implies find_profile(
                                cfg@,
                                names@[k]@,
                            ) is Some by {
                                lemma_find_push(pre, ev, names@[k]@);
                                if k < j as int {
                                    assert(find_profile(pre, names@[k]@) is Some);
                                } else {
                                    assert(ev.name == name@);
                                }
                            }
                        }
                    } else {
                        proof {
                            assert forall|k: int|
                                0 <= k < j + 1 && ((d[(#[trigger] names@[k])@].contains_key(
                                    "address"@,
                                ) || d[names@[k]@].contains_key("password"@))) implies find_profile(
                                cfg@,
                                names@[k]@,
                            ) is Some by {
                                if k == j as int {
                                    assert(d.contains_key(name@));
                                    assert(!d[name@].contains_key("address"@));
                                    assert(!d[name@].contains_key("password"@));
                                }
                            }
                        }
                    }
                    j = j + 1;
                }
                proof {
                    assert forall|n: Seq<char>|
                        d.contains_key(n) && (d[n].contains_key("address"@)
                            || d[n].contains_key("password"@)) implies #[trigger] find_profile(
                        cfg@,
                        n,
                    ) is Some by {
                        let k = choose|k: int| 0 <= k < m && names@[k]@ == n;
                    }
                }
                Result::Ok(cfg)
            },
        }
    }
}

/// Law (round trip): serializing a registry of plain printable strings and
/// parsing the text back yields a registry with exactly the same names and
/// the same readable (address, credential) pairs.
pub fn saved_then_reloaded(c: &Config) -> (r: Config)
    requires
        c.inv(),
        safe_config(c@),
    ensures
        r.inv(),
        forall|n: Seq<char>| #[trigger]
            (find_profile(r@, n) is Some) == (find_profile(c@, n) is Some),
        forall|n: Seq<char>| #[trigger] spec_get(r@, n) == spec_get(c@, n),
{
    let text = c.to_text();
    let reloaded = Config::from_text(text.as_str());
    match reloaded {
        Result::Ok(cfg) => {
            proof {
                lemma_round_trip(c@, cfg@);
            }
            cfg
        },
        Result::Err(_) => {
            proof {
                assert(false);
            }
            Config::new()
        },
    }
}

/// The heart of the round-trip law: a registry that matches the persisted
/// document of a well-formed registry reads back identically.
pub proof fn lemma_round_trip(s: Seq<ProfileV>, t: Seq<ProfileV>)
    requires
        wf_profiles(s),
        matches_doc(t, doc_of(s)),
    ensures
        forall|n: Seq<char>| #[trigger] (find_profile(t, n) is Some) == (find_profile(s, n)
            is Some),
        forall|n: Seq<char>| #[trigger] spec_get(t, n) == spec_get(s, n),
{
    let d = doc_of(s);
    lemma_doc_of_props(s);
    lemma_field_keys_distinct();
    assert forall|n: Seq<char>| #[trigger]
        (find_profile(t, n) is Some) == (find_profile(s, n) is Some) by {
        lemma_names_agree(s, t, n);
    }
    assert forall|n: Seq<char>| #[trigger] spec_get(t, n) == spec_get(s, n) by {
        lemma_names_agree(s, t, n);
        match find_profile(s, n) {
            Option::Some(p) => {
                assert(d.contains_key(n) && d[n] == record_of(p));
                match find_profile(t, n) {
                    Option::Some(q) => {
                        assert(q.address == doc_field(d, n, "address"@));
                        assert(q.password == doc_field(d, n, "password"@));
                        assert(doc_field(d, n, "address"@) == p.address) by {
                            lemma_record_fields(p);
                        }
                        assert(doc_field(d, n, "password"@) == p.password) by {
                            lemma_record_fields(p);
                        }
                    },
                    Option::None => {},
                }
            },
            Option::None => {},
        }
    }
}

/// A record holds exactly the profile's present fields under the two keys.
pub proof fn lemma_record_fields(p: ProfileV)
    ensures
        (record_of(p).contains_key("address"@) ==> record_of(p)["address"@] == p.address->0),
        record_of(p).contains_key("address"@) == (p.address is Some),
        (record_of(p).contains_key("password"@) ==> record_of(p)["password"@] == p.password->0),
        record_of(p).contains_key("password"@) == (p.password is Some),
{
    lemma_field_keys_distinct();
}

/// Names agree between a well-formed registry and any registry matching its
/// persisted document.
proof fn lemma_names_agree(s: Seq<ProfileV>, t: Seq<ProfileV>, n: Seq<char>)
    requires
        wf_profiles(s),
        matches_doc(t, doc_of(s)),
    ensures
        (find_profile(t, n) is Some) == (find_profile(s, n) is Some),
{
    let d = doc_of(s);
    lemma_doc_of_props(s);
    lemma_field_keys_distinct();
    if find_profile(t, n) is Some {
        assert(d.contains_key(n));
    }
    match find_profile(s, n) {
        Option::Some(p) => {
            assert(d.contains_key(n) && d[n] == record_of(p));
            lemma_record_fields(p);
            lemma_find_names(s, n);
            let i = choose|i: int| 0 <= i < s.len() && s[i] == p;
            assert(p.address is Some || p.password is Some);
            assert(d[n].contains_key("address"@) || d[n].contains_key("password"@));
        },
        Option::None => {},
    }
}

} // verus!
