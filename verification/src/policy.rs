//! Named profiles and the userspace allow-list evaluator.
//!
//! A profile lists path prefixes that are allowed for write opens, on top of
//! the compiled defaults. A profile can add prefixes; it cannot remove a
//! default.
//!
//! A prefix `P` matches a path `T` when `T == P`, or when `T` continues `P` at
//! a directory boundary: `P` ends with `/` and `T` begins with `P`, or `T`
//! begins with `P` followed by `/`. So `/home/jsy/s` does not match
//! `/home/jsy/sec`. The kernel hook follows the same rule.

use vstd::prelude::*;

use crate::json;
use crate::json::{bool_value, no_members, object_value, pretty_text, set_member, string_value};
use crate::text;
use crate::text::{below, joined, not_after, same_str, starts_with, to_chars};

verus! {

/// Always-allowed path prefixes, baked into the kernel hook.
pub const COMPILED_DEFAULTS: [&'static str; 8] = [
    "/tmp/",
    "/dev/null",
    "/dev/tty",
    "/dev/stdin",
    "/dev/stdout",
    "/dev/stderr",
    "/dev/pts/",
    "/proc/self/",
];

/// The compiled defaults as texts.
pub open spec fn defaults() -> Seq<Seq<char>> {
    seq![
        "/tmp/"@,
        "/dev/null"@,
        "/dev/tty"@,
        "/dev/stdin"@,
        "/dev/stdout"@,
        "/dev/stderr"@,
        "/dev/pts/"@,
        "/proc/self/"@,
    ]
}

/// Where `policy.toml` lies below the home directory.
pub const POLICY_SUFFIX: &'static str = ".config/bpolicy/policy.toml";

// ---------------------------------------------------------------------------
// Prefix matching
// ---------------------------------------------------------------------------

/// The text ends with a slash.
pub open spec fn ends_with_slash(s: Seq<char>) -> bool {
    s.len() > 0 && s.last() == '/'
}

/// `prefix` matches `path` at a directory boundary.
pub open spec fn matches_path(prefix: Seq<char>, path: Seq<char>) -> bool {
    ||| path == prefix
    ||| ends_with_slash(prefix) && prefix.is_prefix_of(path)
    ||| !ends_with_slash(prefix) && prefix.push('/').is_prefix_of(path)
}

/// Some of the prefixes matches `path`.
pub open spec fn any_matches(prefixes: Seq<Seq<char>>, path: Seq<char>) -> bool {
    exists|i: int| 0 <= i < prefixes.len() && matches_path(#[trigger] prefixes[i], path)
}

/// Whether `prefix` matches `path` at a directory boundary.
pub fn prefix_matches(prefix: &str, path: &str) -> (r: bool)
    ensures
        r == matches_path(prefix@, path@),
{
    if same_str(path, prefix) {
        return true;
    }
    let mut p = to_chars(prefix);
    let t = to_chars(path);
    if p.len() == 0 || p[p.len() - 1] != '/' {
        p.push('/');
    }
    starts_with(&t, &p)
}

/// Whether `path` is allowed under the compiled defaults.
pub fn is_default_allowed(path: &str) -> (r: bool)
    ensures
        r == any_matches(defaults(), path@),
{
    let all = COMPILED_DEFAULTS;
    assert(text::strs(all@) =~= defaults());
    for i in 0..all.len()
        invariant
            text::strs(all@) == defaults(),
            forall|j: int| 0 <= j < i ==> !matches_path(#[trigger] defaults()[j], path@),
    {
        assert(defaults()[i as int] == all@[i as int]@);
        if prefix_matches(all[i], path) {
            return true;
        }
    }
    false
}

/// `prefix` is one of the prefixes, matches `path`, and no matching one is longer.
pub open spec fn longest_match(
    prefixes: Seq<Seq<char>>,
    path: Seq<char>,
    prefix: Seq<char>,
) -> bool {
    &&& prefixes.contains(prefix)
    &&& matches_path(prefix, path)
    &&& forall|i: int|
        0 <= i < prefixes.len() && matches_path(#[trigger] prefixes[i], path) ==> prefixes[i].len()
            <= prefix.len()
}

/// The longest of the prefixes that matches `path`.
pub fn longest_prefix_match<'a>(prefixes: &[&'a str], path: &str) -> (r: Option<&'a str>)
    ensures
        r is Some == any_matches(text::strs(prefixes@), path@),
        r matches Some(prefix) ==> longest_match(text::strs(prefixes@), path@, prefix@),
{
    let ghost all = text::strs(prefixes@);
    let mut best: Option<&'a str> = None;
    let mut best_len: usize = 0;
    for i in 0..prefixes.len()
        invariant
            all == text::strs(prefixes@),
            match best {
                None => forall|j: int| 0 <= j < i ==> !matches_path(#[trigger] all[j], path@),
                Some(b) => {
                    &&& best_len == b@.len()
                    &&& all.contains(b@)
                    &&& matches_path(b@, path@)
                    &&& forall|j: int|
                        0 <= j < i && matches_path(#[trigger] all[j], path@) ==> all[j].len()
                            <= b@.len()
                },
            },
    {
        let p = prefixes[i];
        assert(all[i as int] == p@);
        if prefix_matches(p, path) {
            let len = to_chars(p).len();
            if best.is_none() || len >= best_len {
                best = Some(p);
                best_len = len;
            }
        }
    }
    assert(best matches Some(b) ==> any_matches(all, path@)) by {
        if let Some(b) = best {
            let k = choose|k: int| 0 <= k < all.len() && all[k] == b@;
            assert(matches_path(all[k], path@));
        }
    }
    best
}

// ---------------------------------------------------------------------------
// Profiles
// ---------------------------------------------------------------------------

/// A single named profile.
#[derive(Debug)]
pub struct Profile {
    /// Human-readable description of the profile's purpose.
    pub description: String,
    /// Additional writable path prefixes, on top of the compiled defaults.
    pub allow: Vec<String>,
}

/// What a [`Profile`] says.
pub struct ProfileView {
    /// Human-readable description of the profile's purpose.
    pub description: Seq<char>,
    /// Additional writable path prefixes, on top of the compiled defaults.
    pub allow: Seq<Seq<char>>,
}

impl View for Profile {
    type V = ProfileView;

    open spec fn view(&self) -> ProfileView {
        ProfileView { description: self.description@, allow: text::strings(self.allow@) }
    }
}

/// A copy of a list of strings.
pub fn copy_strings(v: &Vec<String>) -> (r: Vec<String>)
    ensures
        text::strings(r@) == text::strings(v@),
{
    let mut out: Vec<String> = Vec::new();
    for i in 0..v.len()
        invariant
            text::strings(out@) =~= text::strings(v@).take(i as int),
    {
        let ghost before = out@;
        let s = v[i].clone();
        out.push(s);
        assert(text::strings(out@) =~= text::strings(before).push(s@));
    }
    assert(text::strings(out@) =~= text::strings(v@));
    out
}

impl Clone for Profile {
    fn clone(&self) -> (r: Self)
        ensures
            r@ == self@,
    {
        Profile { description: self.description.clone(), allow: copy_strings(&self.allow) }
    }
}

/// The view of an optional profile.
pub open spec fn profile_view(profile: Option<&Profile>) -> Option<ProfileView> {
    match profile {
        Some(p) => Some(p@),
        None => None,
    }
}

/// A write to `path` is allowed: by a compiled default or by a prefix of the profile.
pub open spec fn allowed(path: Seq<char>, profile: Option<ProfileView>) -> bool {
    ||| any_matches(defaults(), path)
    ||| match profile {
        Some(p) => any_matches(p.allow, path),
        None => false,
    }
}

/// Whether a write to `path` is allowed.
pub fn is_allowed(path: &str, profile: Option<&Profile>) -> (r: bool)
    ensures
        r == allowed(path@, profile_view(profile)),
{
    if is_default_allowed(path) {
        return true;
    }
    match profile {
        Some(p) => {
            let mut refs: Vec<&str> = Vec::new();
            for i in 0..p.allow.len()
                invariant
                    text::strs(refs@) =~= text::strings(p.allow@).take(i as int),
            {
                let ghost before = refs@;
                let s = p.allow[i].as_str();
                refs.push(s);
                assert(text::strs(refs@) =~= text::strs(before).push(s@));
            }
            assert(text::strs(refs@) =~= text::strings(p.allow@));
            longest_prefix_match(&refs, path).is_some()
        },
        None => false,
    }
}

/// The profiles by name, a later one in place of an earlier one of the same name.
pub open spec fn by_name(entries: Seq<(Seq<char>, ProfileView)>) -> Map<Seq<char>, ProfileView>
    decreases entries.len(),
{
    if entries.len() == 0 {
        Map::empty()
    } else {
        by_name(entries.drop_last()).insert(entries.last().0, entries.last().1)
    }
}

/// What a sequence of named profiles says.
pub open spec fn entries_view(entries: Seq<(String, Profile)>) -> Seq<(Seq<char>, ProfileView)> {
    entries.map_values(|e: (String, Profile)| (e.0@, e.1@))
}

/// No two entries have the same name.
pub open spec fn distinct(entries: Seq<(Seq<char>, ProfileView)>) -> bool {
    forall|i: int, j: int|
        0 <= i < j < entries.len() ==> (#[trigger] entries[i]).0 != (#[trigger] entries[j]).0
}

proof fn lemma_by_name_domain(entries: Seq<(Seq<char>, ProfileView)>, name: Seq<char>)
    ensures
        by_name(entries).contains_key(name) <==> exists|i: int|
            0 <= i < entries.len() && (#[trigger] entries[i]).0 == name,
    decreases entries.len(),
{
    if entries.len() > 0 {
        let rest = entries.drop_last();
        lemma_by_name_domain(rest, name);
        if by_name(rest).contains_key(name) {
            let i = choose|i: int| 0 <= i < rest.len() && (#[trigger] rest[i]).0 == name;
            assert(entries[i].0 == name);
        } else if entries.last().0 != name {
            assert forall|i: int| 0 <= i < entries.len() implies (#[trigger] entries[i]).0
                != name by {
                if i < rest.len() {
                    assert(rest[i] == entries[i]);
                }
            }
        } else {
            assert(entries[entries.len() - 1].0 == name);
        }
    }
}

proof fn lemma_by_name_value(entries: Seq<(Seq<char>, ProfileView)>, i: int)
    requires
        distinct(entries),
        0 <= i < entries.len(),
    ensures
        by_name(entries).contains_key(entries[i].0),
        by_name(entries)[entries[i].0] == entries[i].1,
    decreases entries.len(),
{
    let rest = entries.drop_last();
    assert(distinct(rest)) by {
        assert forall|j: int, k: int| 0 <= j < k < rest.len() implies (#[trigger] rest[j]).0 != (
        #[trigger] rest[k]).0 by {
            assert(rest[j] == entries[j] && rest[k] == entries[k]);
        }
    }
    if i < rest.len() {
        lemma_by_name_value(rest, i);
        assert(rest[i] == entries[i]);
        assert(entries[i].0 != entries[entries.len() - 1].0);
    }
}

/// Loaded policy with all profiles available.
///
/// Seen as the map from profile names to profiles.
#[derive(Debug)]
pub struct Policy {
    profiles: Vec<(String, Profile)>,
    source: String,
}

impl View for Policy {
    type V = Map<Seq<char>, ProfileView>;

    closed spec fn view(&self) -> Map<Seq<char>, ProfileView> {
        by_name(entries_view(self.profiles@))
    }
}

/// No profile of the requested name, with the names there are.
#[derive(Debug, Clone)]
pub struct UnknownProfile {
    /// The name that was asked for.
    pub name: String,
    /// The known names in ascending order.
    pub known: Vec<String>,
}

/// The message for an unknown profile.
pub open spec fn unknown_profile_message(name: Seq<char>, known: Seq<Seq<char>>) -> Seq<char> {
    let list = text::join(known, ", "@);
    "unknown profile '"@ + name + "'; "@ + (if list.len() == 0 {
        "(no profiles defined)"@
    } else {
        "known: "@ + list
    })
}

impl UnknownProfile {
    /// The message for people.
    pub fn to_string(&self) -> (r: String)
        ensures
            r@ == unknown_profile_message(self.name@, text::strings(self.known@)),
    {
        let known = joined(&self.known, ", ");
        let mut message = "unknown profile '".to_owned();
        message.append(self.name.as_str());
        message.append("'; ");
        let listing = if known.as_str().is_empty() {
            "(no profiles defined)".to_owned()
        } else {
            let mut listing = "known: ".to_owned();
            listing.append(known.as_str());
            listing
        };
        message.append(listing.as_str());
        message
    }
}

/// `e` reports that `name` is none of the names of `policy`, and lists those.
pub open spec fn reports_unknown(
    e: UnknownProfile,
    policy: Map<Seq<char>, ProfileView>,
    name: Seq<char>,
) -> bool {
    &&& e.name@ == name
    &&& text::ascending_listing(text::strings(e.known@), policy.dom())
}

/// Puts `name` at its place in an ascending list.
fn insert_name(names: &mut Vec<String>, name: &String)
    requires
        forall|i: int, j: int|
            0 <= i < j < old(names)@.len() ==> text::lex_le(
                #[trigger] text::strings(old(names)@)[i],
                #[trigger] text::strings(old(names)@)[j],
            ) && text::strings(old(names)@)[i] != text::strings(old(names)@)[j],
        !text::strings(old(names)@).contains(name@),
    ensures
        text::ascending_listing(
            text::strings(final(names)@),
            Set::new(|n: Seq<char>| n == name@ || text::strings(old(names)@).contains(n)),
        ),
{
    let ghost before = text::strings(names@);
    let mut at: usize = 0;
    while at < names.len() && not_after(names[at].as_str(), name.as_str())
        invariant
            at <= names@.len(),
            before == text::strings(names@),
            forall|i: int| 0 <= i < at ==> text::lex_le(#[trigger] before[i], name@),
        decreases names@.len() - at,
    {
        assert(before[at as int] == names@[at as int]@);
        at = at + 1;
    }
    assert forall|i: int| at <= i < before.len() implies text::lex_le(
        name@,
        #[trigger] before[i],
    ) by {
        assert(before[at as int] == names@[at as int]@);
        text::lemma_lex_total(before[at as int], name@);
        if i > at {
            text::lemma_lex_transitive(name@, before[at as int], before[i]);
        }
    }
    names.insert(at, name.clone());
    let ghost after = text::strings(names@);
    assert(after =~= before.insert(at as int, name@));
    proof {
        assert forall|i: int, j: int| 0 <= i < j < after.len() implies text::lex_le(
            #[trigger] after[i],
            #[trigger] after[j],
        ) && after[i] != after[j] by {
            if i == at {
                assert(after[j] == before[j - 1]);
                assert(before.contains(before[j - 1]));
            } else if j == at {
                assert(after[i] == before[i]);
                assert(before.contains(before[i]));
            } else {
                let bi = if i < at { i } else { i - 1 };
                let bj = if j < at { j } else { j - 1 };
                assert(after[i] == before[bi] && after[j] == before[bj]);
            }
        }
        let of = Set::new(|n: Seq<char>| n == name@ || before.contains(n));
        assert forall|n: Seq<char>| #[trigger] after.contains(n) <==> of.contains(n) by {
            if after.contains(n) {
                let i = choose|i: int| 0 <= i < after.len() && after[i] == n;
                if i != at {
                    let bi = if i < at { i } else { i - 1 };
                    assert(before[bi] == n);
                }
            }
            if before.contains(n) {
                let i = choose|i: int| 0 <= i < before.len() && before[i] == n;
                let ai = if i < at { i } else { i + 1 };
                assert(after[ai] == n);
            }
            if n == name@ {
                assert(after[at as int] == n);
            }
        }
    }
}

impl Clone for Policy {
    fn clone(&self) -> (r: Self)
        ensures
            r@ == self@,
            r.path() == self.path(),
    {
        proof {
            use_type_invariant(self);
        }
        let ghost all = entries_view(self.profiles@);
        let mut profiles: Vec<(String, Profile)> = Vec::new();
        for i in 0..self.profiles.len()
            invariant
                all == entries_view(self.profiles@),
                entries_view(profiles@) =~= all.take(i as int),
        {
            let ghost before = profiles@;
            let entry = (self.profiles[i].0.clone(), self.profiles[i].1.clone());
            assert(all[i as int] == (entry.0@, entry.1@));
            profiles.push(entry);
            assert(entries_view(profiles@) =~= entries_view(before).push((entry.0@, entry.1@)));
        }
        assert(entries_view(profiles@) =~= all);
        Policy { profiles, source: self.source.clone() }
    }
}

impl Policy {
    /// No name occurs twice.
    #[verifier::type_invariant]
    closed spec fn names_distinct(self) -> bool {
        distinct(entries_view(self.profiles@))
    }

    /// The path the policy was loaded from.
    pub closed spec fn path(&self) -> Seq<char> {
        self.source@
    }

    /// The path the policy was loaded from.
    pub fn source_path(&self) -> (r: &str)
        ensures
            r@ == self.path(),
    {
        self.source.as_str()
    }

    /// The policy file's path: `.config/bpolicy/policy.toml` below the home
    /// directory, which has to be known.
    pub fn default_path(home: Option<&str>) -> (r: Result<String, String>)
        ensures
            match home {
                Some(h) => r is Ok && r->Ok_0@ == text::join_path(h@, POLICY_SUFFIX@),
                None => r is Err && r->Err_0@
                    == "$HOME is not set; cannot locate policy.toml"@,
            },
    {
        match home {
            Some(h) => Ok(below(h, POLICY_SUFFIX)),
            None => Err("$HOME is not set; cannot locate policy.toml".to_owned()),
        }
    }

    /// The policy with the given profiles. Of two with the same name the later
    /// one counts.
    pub fn from_profiles(source_path: &str, entries: Vec<(String, Profile)>) -> (r: Policy)
        ensures
            r@ == by_name(entries_view(entries@)),
            r.path() == source_path@,
    {
        let ghost whole = entries_view(entries@);
        let mut rest = entries;
        let mut kept: Vec<(String, Profile)> = Vec::new();
        assert(by_name(whole) =~= by_name(whole).union_prefer_right(
            by_name(entries_view(kept@)),
        ));
        while rest.len() > 0
            invariant
                distinct(entries_view(kept@)),
                by_name(whole) =~= by_name(entries_view(rest@)).union_prefer_right(
                    by_name(entries_view(kept@)),
                ),
            decreases rest@.len(),
        {
            let ghost rest_before = entries_view(rest@);
            let ghost kept_before = entries_view(kept@);
            match rest.pop() {
                None => {},
                Some(entry) => {
                    let ghost last = (entry.0@, entry.1@);
                    assert(entries_view(rest@) =~= rest_before.drop_last());
                    assert(rest_before.last() == last);
                    let mut present = false;
                    for i in 0..kept.len()
                        invariant
                            kept_before == entries_view(kept@),
                            last.0 == entry.0@,
                            present <==> exists|j: int|
                                0 <= j < i && (#[trigger] kept_before[j]).0 == last.0,
                    {
                        assert(kept_before[i as int].0 == kept@[i as int].0@);
                        if same_str(kept[i].0.as_str(), entry.0.as_str()) {
                            present = true;
                        }
                    }
                    proof {
                        lemma_by_name_domain(kept_before, last.0);
                    }
                    if !present {
                        kept.push(entry);
                        assert(entries_view(kept@) =~= kept_before.push(last));
                        assert(entries_view(kept@).drop_last() =~= kept_before);
                    }
                },
            }
        }
        assert(by_name(entries_view(rest@)) =~= Map::empty());
        assert(by_name(whole) =~= by_name(entries_view(kept@)));
        Policy { profiles: kept, source: source_path.to_owned() }
    }

    /// The loaded policy, or an empty one where there is no policy file.
    pub fn load_or_empty(path: &str, loaded: Option<Policy>) -> (r: Policy)
        ensures
            match loaded {
                Some(policy) => r == policy,
                None => r@ == Map::<Seq<char>, ProfileView>::empty() && r.path() == path@,
            },
    {
        match loaded {
            Some(policy) => policy,
            None => {
                let none: Vec<(String, Profile)> = Vec::new();
                Policy::from_profiles(path, none)
            },
        }
    }

    /// All known profile names, in ascending order.
    pub fn profile_names(&self) -> (r: Vec<String>)
        ensures
            text::ascending_listing(text::strings(r@), self@.dom()),
    {
        proof {
            use_type_invariant(self);
        }
        let ghost all = entries_view(self.profiles@);
        let mut names: Vec<String> = Vec::new();
        for i in 0..self.profiles.len()
            invariant
                all == entries_view(self.profiles@),
                distinct(all),
                text::ascending_listing(
                    text::strings(names@),
                    Set::new(|n: Seq<char>| exists|j: int| 0 <= j < i && (#[trigger] all[j]).0 == n),
                ),
        {
            let ghost before = text::strings(names@);
            let ghost seen = Set::new(
                |n: Seq<char>| exists|j: int| 0 <= j < i && (#[trigger] all[j]).0 == n,
            );
            let name = &self.profiles[i].0;
            assert(all[i as int].0 == name@);
            assert(!seen.contains(name@));
            insert_name(&mut names, name);
            proof {
                let now = Set::new(
                    |n: Seq<char>| exists|j: int| 0 <= j < i + 1 && (#[trigger] all[j]).0 == n,
                );
                assert forall|n: Seq<char>|
                    #[trigger] text::strings(names@).contains(n) <==> now.contains(n) by {
                    let grown = Set::new(|m: Seq<char>| m == name@ || before.contains(m));
                    assert(text::strings(names@).contains(n) <==> grown.contains(n));
                    assert(before.contains(n) <==> seen.contains(n));
                    if seen.contains(n) {
                        let j = choose|j: int| 0 <= j < i && (#[trigger] all[j]).0 == n;
                        assert(all[j].0 == n);
                    }
                }
            }
        }
        proof {
            let listed = text::strings(names@);
            assert forall|n: Seq<char>| #[trigger] listed.contains(n) <==> self@.dom().contains(
                n,
            ) by {
                lemma_by_name_domain(all, n);
                let seen = Set::new(
                    |m: Seq<char>|
                        exists|j: int| 0 <= j < all.len() && (#[trigger] all[j]).0 == m,
                );
                assert(listed.contains(n) <==> seen.contains(n));
            }
        }
        names
    }

    /// The profile of the given name, or an error that lists the known ones.
    pub fn get_profile(&self, name: &str) -> (r: Result<&Profile, UnknownProfile>)
        ensures
            match r {
                Ok(profile) => self@.contains_key(name@) && self@[name@] == profile@,
                Err(e) => !self@.contains_key(name@) && reports_unknown(e, self@, name@),
            },
    {
        proof {
            use_type_invariant(self);
        }
        let ghost all = entries_view(self.profiles@);
        for i in 0..self.profiles.len()
            invariant
                all == entries_view(self.profiles@),
                distinct(all),
                forall|j: int| 0 <= j < i ==> (#[trigger] all[j]).0 != name@,
        {
            assert(all[i as int] == (self.profiles@[i as int].0@, self.profiles@[i as int].1@));
            if same_str(self.profiles[i].0.as_str(), name) {
                proof {
                    lemma_by_name_value(all, i as int);
                }
                return Ok(&self.profiles[i].1);
            }
        }
        proof {
            lemma_by_name_domain(all, name@);
        }
        Err(UnknownProfile { name: name.to_owned(), known: self.profile_names() })
    }

    /// The profile of the given name, none where no name is given.
    pub fn resolve_profile(&self, name: Option<&str>) -> (r: Result<
        Option<&Profile>,
        UnknownProfile,
    >)
        ensures
            match name {
                Some(n) => match r {
                    Ok(profile) => self@.contains_key(n@) && profile_view(profile) == Some(
                        self@[n@],
                    ),
                    Err(e) => !self@.contains_key(n@) && reports_unknown(e, self@, n@),
                },
                None => r == Ok::<Option<&Profile>, UnknownProfile>(None),
            },
    {
        match name {
            Some(n) => match self.get_profile(n) {
                Ok(profile) => Ok(Some(profile)),
                Err(e) => Err(e),
            },
            None => Ok(None),
        }
    }
}

// ---------------------------------------------------------------------------
// Resolved allow-list
// ---------------------------------------------------------------------------

/// The fully resolved allow-list for a profile: defaults and profile prefixes.
#[derive(Debug)]
pub struct ResolvedAllowList {
    /// Profile name, `tight` for the compiled defaults alone.
    pub profile: String,
    /// Always-allowed compiled defaults.
    pub compiled_defaults: Vec<String>,
    /// Profile-specific additional prefixes.
    pub profile_prefixes: Vec<String>,
}

/// The name under which a choice of profile is shown.
pub open spec fn shown_name(name: Option<&str>) -> Seq<char> {
    match name {
        Some(n) => n@,
        None => "tight"@,
    }
}

/// The prefixes that a choice of profile adds.
pub open spec fn added_prefixes(profile: Option<ProfileView>) -> Seq<Seq<char>> {
    match profile {
        Some(p) => p.allow,
        None => Seq::empty(),
    }
}

fn name_or_tight(name: Option<&str>) -> (r: String)
    ensures
        r@ == shown_name(name),
{
    match name {
        Some(n) => n.to_owned(),
        None => "tight".to_owned(),
    }
}

impl ResolvedAllowList {
    /// The list shows this choice of profile.
    pub open spec fn shows(self, name: Option<&str>, profile: Option<ProfileView>) -> bool {
        &&& self.profile@ == shown_name(name)
        &&& text::strings(self.compiled_defaults@) == defaults()
        &&& text::strings(self.profile_prefixes@) == added_prefixes(profile)
    }

    /// The resolved list for the given profile, `tight` if there is none.
    pub fn build(profile_name: Option<&str>, profile: Option<&Profile>) -> (r: Self)
        ensures
            r.shows(profile_name, profile_view(profile)),
    {
        let all = COMPILED_DEFAULTS;
        assert(text::strs(all@) =~= defaults());
        let mut compiled_defaults: Vec<String> = Vec::new();
        for i in 0..all.len()
            invariant
                text::strs(all@) == defaults(),
                text::strings(compiled_defaults@) =~= defaults().take(i as int),
        {
            let ghost before = compiled_defaults@;
            let s = all[i].to_owned();
            assert(s@ == text::strs(all@)[i as int]);
            compiled_defaults.push(s);
            assert(text::strings(compiled_defaults@) =~= text::strings(before).push(s@));
        }
        assert(text::strings(compiled_defaults@) =~= defaults());
        let profile_prefixes = match profile {
            Some(p) => copy_strings(&p.allow),
            None => Vec::new(),
        };
        assert(text::strings(profile_prefixes@) =~= added_prefixes(profile_view(profile)));
        ResolvedAllowList { profile: name_or_tight(profile_name), compiled_defaults, profile_prefixes }
    }
}

// ---------------------------------------------------------------------------
// Commands
// ---------------------------------------------------------------------------

/// The answer to whether a write would be allowed.
#[derive(Debug)]
pub struct PolicyAnswer {
    /// The path that was asked about.
    pub path: String,
    /// Profile name, `tight` for the compiled defaults alone.
    pub profile: String,
    /// Whether the write is allowed.
    pub allowed: bool,
}

impl PolicyAnswer {
    /// The members of the object that the answer is printed as.
    pub open spec fn printed_members(self) -> Map<Seq<char>, Seq<char>> {
        map![
            "path"@ => json::json_string(self.path@),
            "profile"@ => json::json_string(self.profile@),
            "allowed"@ => json::bool_text(self.allowed),
        ]
    }

    /// The answer as JSON text.
    pub fn to_text(&self) -> (r: String)
        ensures
            r@ == json::json_pretty(json::object_text(self.printed_members())),
    {
        let mut m = no_members();
        set_member(&mut m, "path", string_value(self.path.as_str()));
        set_member(&mut m, "profile", string_value(self.profile.as_str()));
        set_member(&mut m, "allowed", bool_value(self.allowed));
        assert(json::members(m) =~= self.printed_members());
        pretty_text(&object_value(m))
    }
}

/// The profile that a choice by name stands for.
pub open spec fn chosen(
    policy: Map<Seq<char>, ProfileView>,
    name: Option<&str>,
) -> Option<ProfileView> {
    match name {
        Some(n) => Some(policy[n@]),
        None => None,
    }
}

/// The choice names no profile, or a profile that exists.
pub open spec fn choice_known(policy: Map<Seq<char>, ProfileView>, name: Option<&str>) -> bool {
    match name {
        Some(n) => policy.contains_key(n@),
        None => true,
    }
}

/// `bpolicy policy show`: the resolved allow-list of the chosen profile.
pub fn cmd_policy_show(policy: &Policy, profile_name: Option<&str>) -> (r: Result<
    ResolvedAllowList,
    UnknownProfile,
>)
    ensures
        match r {
            Ok(list) => choice_known(policy@, profile_name) && list.shows(
                profile_name,
                chosen(policy@, profile_name),
            ),
            Err(e) => !choice_known(policy@, profile_name) && reports_unknown(
                e,
                policy@,
                profile_name->0@,
            ),
        },
{
    match policy.resolve_profile(profile_name) {
        Ok(profile) => Ok(ResolvedAllowList::build(profile_name, profile)),
        Err(e) => Err(e),
    }
}

/// `bpolicy policy check`: would a write to `path` be allowed under the chosen
/// profile?
pub fn cmd_policy_check(policy: &Policy, path: &str, profile_name: Option<&str>) -> (r: Result<
    PolicyAnswer,
    UnknownProfile,
>)
    ensures
        match r {
            Ok(answer) => {
                &&& choice_known(policy@, profile_name)
                &&& answer.path@ == path@
                &&& answer.profile@ == shown_name(profile_name)
                &&& answer.allowed == allowed(path@, chosen(policy@, profile_name))
            },
            Err(e) => !choice_known(policy@, profile_name) && reports_unknown(
                e,
                policy@,
                profile_name->0@,
            ),
        },
{
    match policy.resolve_profile(profile_name) {
        Ok(profile) => Ok(
            PolicyAnswer {
                path: path.to_owned(),
                profile: name_or_tight(profile_name),
                allowed: is_allowed(path, profile),
            },
        ),
        Err(e) => Err(e),
    }
}

/// Whether a profile of the given name exists.
pub fn validate_profile(policy: &Policy, profile_name: &str) -> (r: Result<(), UnknownProfile>)
    ensures
        match r {
            Ok(_) => policy@.contains_key(profile_name@),
            Err(e) => !policy@.contains_key(profile_name@) && reports_unknown(
                e,
                policy@,
                profile_name@,
            ),
        },
{
    match policy.get_profile(profile_name) {
        Ok(_) => Ok(()),
        Err(e) => Err(e),
    }
}

/// The prefixes that a profile adds, the compiled defaults not among them.
pub fn load_profile_prefixes(policy: &Policy, profile_name: &str) -> (r: Result<
    Vec<String>,
    UnknownProfile,
>)
    ensures
        match r {
            Ok(prefixes) => policy@.contains_key(profile_name@) && text::strings(prefixes@)
                == policy@[profile_name@].allow,
            Err(e) => !policy@.contains_key(profile_name@) && reports_unknown(
                e,
                policy@,
                profile_name@,
            ),
        },
{
    match policy.get_profile(profile_name) {
        Ok(profile) => Ok(copy_strings(&profile.allow)),
        Err(e) => Err(e),
    }
}

/// Why a path prefix cannot go on the kernel allow-list.
#[derive(Debug)]
pub enum PrefixError {
    /// The prefix is empty.
    Empty,
    /// The prefix is not an absolute path.
    Relative(String),
}

/// The message for a refused prefix.
pub open spec fn prefix_error_message(e: PrefixError) -> Seq<char> {
    match e {
        PrefixError::Empty => "allow prefix must not be empty"@,
        PrefixError::Relative(prefix) => "allow prefix '"@ + prefix@
            + "' must be an absolute path (start with '/')"@,
    }
}

impl PrefixError {
    /// The message for people.
    pub fn to_string(&self) -> (r: String)
        ensures
            r@ == prefix_error_message(*self),
    {
        match self {
            PrefixError::Empty => "allow prefix must not be empty".to_owned(),
            PrefixError::Relative(prefix) => {
                let mut message = "allow prefix '".to_owned();
                message.append(prefix.as_str());
                message.append("' must be an absolute path (start with '/')");
                message
            },
        }
    }
}

/// Whether a path prefix is safe to put on the kernel allow-list.
pub fn validate_prefix(prefix: &str) -> (r: Result<(), PrefixError>)
    ensures
        r is Ok <==> prefix@.len() > 0 && prefix@.first() == '/',
        r matches Err(e) ==> match e {
            PrefixError::Empty => prefix@.len() == 0,
            PrefixError::Relative(p) => prefix@.len() > 0 && p@ == prefix@,
        },
{
    let cs = to_chars(prefix);
    if cs.len() == 0 {
        Err(PrefixError::Empty)
    } else if cs[0] != '/' {
        Err(PrefixError::Relative(prefix.to_owned()))
    } else {
        Ok(())
    }
}

// ---------------------------------------------------------------------------
// Laws
// ---------------------------------------------------------------------------

/// A profile can add to the compiled defaults but never remove one.
pub proof fn law_defaults_stay(path: Seq<char>, profile: ProfileView)
    ensures
        allowed(path, None) ==> allowed(path, Some(profile)),
        any_matches(defaults(), path) ==> allowed(path, Some(profile)),
{
}

/// A profile that has every prefix of another allows every write the other
/// allows, whatever the order and number of its prefixes.
pub proof fn law_more_prefixes_allow_more(path: Seq<char>, fewer: ProfileView, more: ProfileView)
    requires
        forall|p: Seq<char>| #[trigger] fewer.allow.contains(p) ==> more.allow.contains(p),
    ensures
        allowed(path, Some(fewer)) ==> allowed(path, Some(more)),
{
    if any_matches(fewer.allow, path) {
        let i = choose|i: int|
            0 <= i < fewer.allow.len() && matches_path(#[trigger] fewer.allow[i], path);
        assert(fewer.allow.contains(fewer.allow[i]));
        let k = choose|k: int| 0 <= k < more.allow.len() && more.allow[k] == fewer.allow[i];
        assert(matches_path(more.allow[k], path));
    }
}

/// A profile without prefixes is the compiled defaults alone.
pub proof fn law_tight(path: Seq<char>, profile: ProfileView)
    requires
        profile.allow.len() == 0,
    ensures
        allowed(path, Some(profile)) == allowed(path, None),
{
}

/// What matches begins with the prefix.
pub proof fn law_match_is_prefix(prefix: Seq<char>, path: Seq<char>)
    requires
        matches_path(prefix, path),
    ensures
        prefix.is_prefix_of(path),
{
    if prefix.push('/').is_prefix_of(path) {
        assert(prefix =~= path.subrange(0, prefix.len() as int)) by {
            assert forall|i: int| 0 <= i < prefix.len() implies prefix[i] == path.subrange(
                0,
                prefix.len() as int,
            )[i] by {
                assert(prefix.push('/')[i] == path.subrange(0, prefix.push('/').len() as int)[i]);
            }
        }
    } else if path == prefix {
        assert(prefix =~= path.subrange(0, prefix.len() as int));
    }
}

/// Matching is an order on paths: every path matches itself, what matches a
/// match is matched, and paths that match each other are one.
pub proof fn law_match_is_order(a: Seq<char>, b: Seq<char>, c: Seq<char>)
    ensures
        matches_path(a, a),
        matches_path(a, b) && matches_path(b, c) ==> matches_path(a, c),
        matches_path(a, b) && matches_path(b, a) ==> a == b,
{
    if matches_path(a, b) && matches_path(b, c) {
        law_match_is_prefix(a, b);
        law_match_is_prefix(b, c);
        if a != b {
            let bounded = if ends_with_slash(a) { a } else { a.push('/') };
            assert(bounded.is_prefix_of(b));
            assert(bounded =~= c.subrange(0, bounded.len() as int)) by {
                assert forall|i: int| 0 <= i < bounded.len() implies bounded[i] == c[i] by {
                    assert(bounded[i] == b.subrange(0, bounded.len() as int)[i]);
                    assert(b[i] == c.subrange(0, b.len() as int)[i]);
                }
            }
        }
    }
    if matches_path(a, b) && matches_path(b, a) {
        law_match_is_prefix(a, b);
        law_match_is_prefix(b, a);
        assert(a =~= b);
    }
}

/// A name is never matched by a shorter name: after a prefix without a slash
/// at its end, only a slash continues a match.
pub proof fn law_no_partial_name(prefix: Seq<char>, c: char, rest: Seq<char>)
    requires
        !ends_with_slash(prefix),
        c != '/',
    ensures
        !matches_path(prefix, prefix.push(c) + rest),
{
    let path = prefix.push(c) + rest;
    assert(path[prefix.len() as int] == c);
    if prefix.push('/').is_prefix_of(path) {
        assert(prefix.push('/')[prefix.len() as int] == path.subrange(
            0,
            prefix.push('/').len() as int,
        )[prefix.len() as int]);
    }
    assert(path.len() != prefix.len());
}

/// What lies below a path matched by a prefix is matched by it too.
pub proof fn law_subpaths_match(prefix: Seq<char>, path: Seq<char>, rest: Seq<char>)
    requires
        matches_path(prefix, path),
    ensures
        matches_path(prefix, path.push('/') + rest),
{
    let longer = path.push('/') + rest;
    law_match_is_prefix(prefix, path);
    if ends_with_slash(prefix) {
        assert(prefix =~= longer.subrange(0, prefix.len() as int)) by {
            assert forall|i: int| 0 <= i < prefix.len() implies prefix[i] == longer[i] by {
                assert(prefix[i] == path.subrange(0, prefix.len() as int)[i]);
            }
        }
    } else {
        let bounded = prefix.push('/');
        assert(bounded =~= longer.subrange(0, bounded.len() as int)) by {
            assert forall|i: int| 0 <= i < bounded.len() implies bounded[i] == longer[i] by {
                if path != prefix {
                    assert(bounded[i] == path.subrange(0, bounded.len() as int)[i]);
                }
            }
        }
    }
}

/// There is one longest match: two prefixes of which each is a longest match
/// are the same text.
pub proof fn law_longest_match_unique(
    prefixes: Seq<Seq<char>>,
    path: Seq<char>,
    a: Seq<char>,
    b: Seq<char>,
)
    requires
        longest_match(prefixes, path, a),
        longest_match(prefixes, path, b),
    ensures
        a == b,
{
    law_match_is_prefix(a, path);
    law_match_is_prefix(b, path);
    let i = choose|i: int| 0 <= i < prefixes.len() && prefixes[i] == a;
    let j = choose|j: int| 0 <= j < prefixes.len() && prefixes[j] == b;
    assert(matches_path(prefixes[i], path) && matches_path(prefixes[j], path));
    assert(a =~= b);
}

/// What `show` lists is what `check` goes by: a write is allowed exactly when
/// one of the listed prefixes matches.
pub proof fn law_show_agrees_with_check(
    list: ResolvedAllowList,
    name: Option<&str>,
    profile: Option<ProfileView>,
    path: Seq<char>,
)
    requires
        list.shows(name, profile),
    ensures
        allowed(path, profile) <==> any_matches(text::strings(list.compiled_defaults@), path)
            || any_matches(text::strings(list.profile_prefixes@), path),
{
}

} // verus!
