//! Laws of the policy: which writes are allowed, and what is said about it.

use vstd::prelude::*;

use crate::json;
use crate::policy;
use crate::policy::{
    cmd_policy_check, cmd_policy_show, is_allowed, is_default_allowed, load_profile_prefixes,
    longest_prefix_match, prefix_matches, validate_prefix, validate_profile, Policy, PolicyAnswer,
    PrefixError, Profile, ResolvedAllowList, UnknownProfile,
};
use crate::text;

verus! {

// ---------------------------------------------------------------------------
// Matching
// ---------------------------------------------------------------------------

/// `path` is `start` with something after it, or nothing.
pub open spec fn continues(start: Seq<char>, path: Seq<char>) -> bool {
    exists|rest: Seq<char>| path == #[trigger] (start + rest)
}

/// `path` is the prefix, or lies below it: any continuation of a prefix that
/// ends with a slash does, and one of another prefix where a slash comes first.
pub open spec fn covers(prefix: Seq<char>, path: Seq<char>) -> bool {
    ||| path == prefix
    ||| prefix.len() > 0 && prefix[prefix.len() - 1] == '/' && continues(prefix, path)
    ||| !(prefix.len() > 0 && prefix[prefix.len() - 1] == '/') && continues(
        prefix + seq!['/'],
        path,
    )
}

/// One of the compiled defaults covers the path.
pub open spec fn default_covers(path: Seq<char>) -> bool {
    ||| covers("/tmp/"@, path)
    ||| covers("/dev/null"@, path)
    ||| covers("/dev/tty"@, path)
    ||| covers("/dev/stdin"@, path)
    ||| covers("/dev/stdout"@, path)
    ||| covers("/dev/stderr"@, path)
    ||| covers("/dev/pts/"@, path)
    ||| covers("/proc/self/"@, path)
}

/// One of the prefixes covers the path.
pub open spec fn some_covers(prefixes: Seq<String>, path: Seq<char>) -> bool {
    exists|i: int| 0 <= i < prefixes.len() && covers((#[trigger] prefixes[i])@, path)
}

proof fn lemma_continues(start: Seq<char>, path: Seq<char>)
    ensures
        start.is_prefix_of(path) <==> continues(start, path),
{
    if start.is_prefix_of(path) {
        let rest = path.skip(start.len() as int);
        assert(path =~= start + rest) by {
            assert forall|i: int| 0 <= i < path.len() implies path[i] == (start + rest)[i] by {
                if i < start.len() {
                    assert(start[i] == path.subrange(0, start.len() as int)[i]);
                }
            }
        }
    }
    if continues(start, path) {
        let rest = choose|rest: Seq<char>| path == #[trigger] (start + rest);
        assert(start =~= path.subrange(0, start.len() as int));
    }
}

proof fn lemma_covers(prefix: Seq<char>, path: Seq<char>)
    ensures
        policy::matches_path(prefix, path) <==> covers(prefix, path),
{
    lemma_continues(prefix, path);
    lemma_continues(prefix.push('/'), path);
    assert(prefix.push('/') =~= prefix + seq!['/']);
}

proof fn lemma_default_covers(path: Seq<char>)
    ensures
        policy::any_matches(policy::defaults(), path) <==> default_covers(path),
{
    let d = policy::defaults();
    assert(d.len() == 8);
    assert(d[0] == "/tmp/"@ && d[1] == "/dev/null"@ && d[2] == "/dev/tty"@ && d[3] == "/dev/stdin"@);
    assert(d[4] == "/dev/stdout"@ && d[5] == "/dev/stderr"@ && d[6] == "/dev/pts/"@ && d[7]
        == "/proc/self/"@);
    lemma_covers(d[0], path);
    lemma_covers(d[1], path);
    lemma_covers(d[2], path);
    lemma_covers(d[3], path);
    lemma_covers(d[4], path);
    lemma_covers(d[5], path);
    lemma_covers(d[6], path);
    lemma_covers(d[7], path);
    if policy::any_matches(d, path) {
        let i = choose|i: int| 0 <= i < d.len() && policy::matches_path(#[trigger] d[i], path);
        assert(i == 0 || i == 1 || i == 2 || i == 3 || i == 4 || i == 5 || i == 6 || i == 7);
    }
}

proof fn lemma_some_covers(prefixes: Seq<String>, path: Seq<char>)
    ensures
        policy::any_matches(text::strings(prefixes), path) <==> some_covers(prefixes, path),
{
    let all = text::strings(prefixes);
    if policy::any_matches(all, path) {
        let i = choose|i: int| 0 <= i < all.len() && policy::matches_path(#[trigger] all[i], path);
        lemma_covers(all[i], path);
        assert(covers(prefixes[i]@, path));
    }
    if some_covers(prefixes, path) {
        let i = choose|i: int| 0 <= i < prefixes.len() && covers((#[trigger] prefixes[i])@, path);
        lemma_covers(all[i], path);
        assert(policy::matches_path(all[i], path));
    }
}

/// A prefix matches the paths that it covers, and no others.
pub proof fn law_prefix_matches(prefix: &str, path: &str, r: bool)
    requires
        call_ensures(prefix_matches, (prefix, path), r),
    ensures
        r <==> covers(prefix@, path@),
{
    lemma_covers(prefix@, path@);
}

/// Below a prefix that ends with a slash everything is matched, whatever its
/// name; below another, everything behind a slash.
pub proof fn law_everything_below(prefix: Seq<char>, rest: Seq<char>)
    ensures
        prefix.len() > 0 && prefix.last() == '/' ==> policy::matches_path(prefix, prefix + rest),
        !(prefix.len() > 0 && prefix.last() == '/') ==> policy::matches_path(
            prefix,
            prefix + seq!['/'] + rest,
        ),
{
    lemma_covers(prefix, prefix + rest);
    lemma_covers(prefix, prefix + seq!['/'] + rest);
}

/// The defaults allow what is at or below one of the eight, and nothing else.
pub proof fn law_is_default_allowed(path: &str, r: bool)
    requires
        call_ensures(is_default_allowed, (path,), r),
    ensures
        r <==> default_covers(path@),
{
    lemma_default_covers(path@);
}

/// A write is allowed exactly when a default or a prefix of the profile covers
/// the path.
pub proof fn law_is_allowed(path: &str, profile: Option<&Profile>, r: bool)
    requires
        call_ensures(is_allowed, (path, profile), r),
    ensures
        r <==> default_covers(path@) || (profile matches Some(p) && some_covers(p.allow@, path@)),
{
    lemma_default_covers(path@);
    if let Some(p) = profile {
        lemma_some_covers(p.allow@, path@);
    }
}

/// The longest match is one of the prefixes and covers the path, and none that
/// does is longer; there is one whenever some prefix covers the path.
pub proof fn law_longest_prefix_match(prefixes: &[&str], path: &str, r: Option<&str>, j: int)
    requires
        call_ensures(longest_prefix_match, (prefixes, path), r),
    ensures
        r matches Some(p) ==> covers(p@, path@) && exists|i: int|
            0 <= i < prefixes@.len() && (#[trigger] prefixes@[i])@ == p@,
        0 <= j < prefixes@.len() && covers(prefixes@[j]@, path@) ==> r is Some && r->0@.len()
            >= prefixes@[j]@.len(),
{
    let all = text::strs(prefixes@);
    if let Some(p) = r {
        lemma_covers(p@, path@);
        let i = choose|i: int| 0 <= i < all.len() && all[i] == p@;
        assert(prefixes@[i]@ == p@);
    }
    if 0 <= j < prefixes@.len() {
        lemma_covers(prefixes@[j]@, path@);
        assert(all[j] == prefixes@[j]@);
        assert(covers(prefixes@[j]@, path@) ==> policy::matches_path(all[j], path@));
    }
}

// ---------------------------------------------------------------------------
// Profiles
// ---------------------------------------------------------------------------

/// The entry at position `i` is the last one of its name.
pub open spec fn last_of_name(entries: Seq<(String, Profile)>, i: int) -> bool {
    &&& 0 <= i < entries.len()
    &&& forall|j: int| i < j < entries.len() ==> (#[trigger] entries[j]).0@ != entries[i].0@
}

proof fn lemma_by_name_keys(entries: Seq<(String, Profile)>, name: Seq<char>)
    ensures
        policy::by_name(policy::entries_view(entries)).contains_key(name) <==> exists|i: int|
            0 <= i < entries.len() && (#[trigger] entries[i]).0@ == name,
    decreases entries.len(),
{
    let all = policy::entries_view(entries);
    if entries.len() > 0 {
        let rest = entries.drop_last();
        lemma_by_name_keys(rest, name);
        assert(all.drop_last() =~= policy::entries_view(rest));
        assert(all.last() == (entries.last().0@, entries.last().1@));
        assert(entries[entries.len() - 1] == entries.last());
        if policy::by_name(policy::entries_view(rest)).contains_key(name) {
            let i = choose|i: int| 0 <= i < rest.len() && (#[trigger] rest[i]).0@ == name;
            assert(entries[i].0@ == name);
        }
        if exists|i: int| 0 <= i < entries.len() && (#[trigger] entries[i]).0@ == name {
            let i = choose|i: int| 0 <= i < entries.len() && (#[trigger] entries[i]).0@ == name;
            if i < rest.len() {
                assert(rest[i].0@ == name);
            }
        }
    }
}

proof fn lemma_by_name_last(entries: Seq<(String, Profile)>, i: int)
    requires
        last_of_name(entries, i),
    ensures
        policy::by_name(policy::entries_view(entries))[entries[i].0@] == entries[i].1@,
    decreases entries.len(),
{
    let all = policy::entries_view(entries);
    let rest = entries.drop_last();
    assert(all.drop_last() =~= policy::entries_view(rest));
    assert(all.last() == (entries.last().0@, entries.last().1@));
    if i < rest.len() {
        assert(rest[i] == entries[i]);
        assert(entries[entries.len() - 1].0@ != entries[i].0@);
        assert(last_of_name(rest, i)) by {
            assert forall|j: int| i < j < rest.len() implies (#[trigger] rest[j]).0@
                != rest[i].0@ by {
                assert(rest[j] == entries[j]);
            }
        }
        lemma_by_name_last(rest, i);
    }
}

/// A policy made of named profiles knows exactly their names. Of profiles with
/// one name it gives the last, with its description and its prefixes.
pub proof fn law_lookup(
    source: &str,
    entries: Vec<(String, Profile)>,
    made: Policy,
    name: &str,
    r: Result<&Profile, UnknownProfile>,
)
    requires
        call_ensures(Policy::from_profiles, (source, entries), made),
        call_ensures(Policy::get_profile, (&made, name), r),
    ensures
        made.path() == source@,
        made@.contains_key(name@) <==> exists|i: int|
            0 <= i < entries@.len() && (#[trigger] entries@[i]).0@ == name@,
        forall|i: int|
            last_of_name(entries@, i) && (#[trigger] entries@[i]).0@ == name@
                ==> made@[name@].description == entries@[i].1.description@ && made@[name@].allow
                == text::strings(entries@[i].1.allow@),
        r is Ok <==> exists|i: int| 0 <= i < entries@.len() && (#[trigger] entries@[i]).0@ == name@,
        r matches Ok(p) ==> forall|i: int|
            last_of_name(entries@, i) && (#[trigger] entries@[i]).0@ == name@ ==> p.description@
                == entries@[i].1.description@ && text::strings(p.allow@) == text::strings(
                entries@[i].1.allow@,
            ),
        r matches Err(e) ==> e.name@ == name@ && forall|n: Seq<char>| #[trigger]
            text::strings(e.known@).contains(n) <==> exists|i: int|
                0 <= i < entries@.len() && (#[trigger] entries@[i]).0@ == n,
        r matches Err(e) ==> forall|i: int, j: int|
            0 <= i < j < e.known@.len() ==> text::lex_le(
                (#[trigger] e.known@[i])@,
                (#[trigger] e.known@[j])@,
            ) && e.known@[i]@ != e.known@[j]@,
{
    lemma_by_name_keys(entries@, name@);
    assert forall|i: int| last_of_name(entries@, i) && (#[trigger] entries@[i]).0@
        == name@ implies made@[name@] == entries@[i].1@ by {
        lemma_by_name_last(entries@, i);
    }
    if let Err(e) = r {
        let known = text::strings(e.known@);
        assert forall|n: Seq<char>| #[trigger] known.contains(n) <==> exists|i: int|
            0 <= i < entries@.len() && (#[trigger] entries@[i]).0@ == n by {
            lemma_by_name_keys(entries@, n);
        }
        assert forall|i: int, j: int| 0 <= i < j < e.known@.len() implies text::lex_le(
            (#[trigger] e.known@[i])@,
            (#[trigger] e.known@[j])@,
        ) && e.known@[i]@ != e.known@[j]@ by {
            assert(known[i] == e.known@[i]@ && known[j] == e.known@[j]@);
        }
    }
}

/// The names are listed once each, in ascending order, and all of them.
pub proof fn law_profile_names(policy: &Policy, r: Vec<String>, i: int, j: int, name: Seq<char>)
    requires
        call_ensures(Policy::profile_names, (policy,), r),
    ensures
        0 <= i < j < r@.len() ==> text::lex_le(r@[i]@, r@[j]@) && r@[i]@ != r@[j]@,
        policy@.contains_key(name) <==> exists|k: int| 0 <= k < r@.len() && (#[trigger] r@[k])@
            == name,
{
    let names = text::strings(r@);
    if 0 <= i < j < r@.len() {
        assert(names[i] == r@[i]@ && names[j] == r@[j]@);
    }
    assert(policy@.dom().contains(name) <==> names.contains(name));
    if names.contains(name) {
        let k = choose|k: int| 0 <= k < names.len() && names[k] == name;
        assert(r@[k]@ == name);
    }
    if exists|k: int| 0 <= k < r@.len() && (#[trigger] r@[k])@ == name {
        let k = choose|k: int| 0 <= k < r@.len() && (#[trigger] r@[k])@ == name;
        assert(names[k] == name);
    }
}

/// Where there is no file, the policy knows no profile; else it is the one that
/// was loaded.
pub proof fn law_load_or_empty(path: &str, loaded: Option<Policy>, r: Policy, name: Seq<char>)
    requires
        call_ensures(Policy::load_or_empty, (path, loaded), r),
    ensures
        loaded is None ==> !r@.contains_key(name) && r.path() == path@,
        loaded matches Some(p) ==> r == p,
{
}

/// A profile is found exactly when its name is known, and is the one of that
/// name; else the names that are known are told.
pub proof fn law_get_profile(policy: &Policy, name: &str, r: Result<&Profile, UnknownProfile>)
    requires
        call_ensures(Policy::get_profile, (policy, name), r),
    ensures
        r is Ok <==> policy@.contains_key(name@),
        r matches Ok(p) ==> p.description@ == policy@[name@].description && text::strings(p.allow@)
            == policy@[name@].allow,
        r matches Err(e) ==> e.name@ == name@ && text::ascending_listing(
            text::strings(e.known@),
            policy@.dom(),
        ),
{
}

/// A copy is the same profile, or the same policy, and a policy tells where it
/// came from.
pub proof fn law_copies(
    profile: &Profile,
    p: Profile,
    policy: &Policy,
    q: Policy,
    source: &str,
    v: &Vec<String>,
    w: Vec<String>,
)
    requires
        call_ensures(<Profile as Clone>::clone, (profile,), p),
        call_ensures(<Policy as Clone>::clone, (policy,), q),
        call_ensures(Policy::source_path, (policy,), source),
        call_ensures(policy::copy_strings, (v,), w),
    ensures
        p.description@ == profile.description@,
        text::strings(p.allow@) == text::strings(profile.allow@),
        q@ == policy@,
        q.path() == policy.path(),
        source@ == policy.path(),
        text::strings(w@) == text::strings(v@),
{
}

/// A choice by name is the profile of that name, and no choice is no profile.
pub proof fn law_resolve(
    policy: &Policy,
    name: Option<&str>,
    r: Result<Option<&Profile>, UnknownProfile>,
)
    requires
        call_ensures(Policy::resolve_profile, (policy, name), r),
    ensures
        name is None ==> r == Ok::<Option<&Profile>, UnknownProfile>(None),
        name matches Some(n) ==> (r is Ok <==> policy@.contains_key(n@)),
        name matches Some(n) ==> (r matches Ok(p) ==> p is Some && p->0.description@
            == policy@[n@].description && text::strings(p->0.allow@) == policy@[n@].allow),
        name matches Some(n) ==> (r matches Err(e) ==> e.name@ == n@ && text::ascending_listing(
            text::strings(e.known@),
            policy@.dom(),
        )),
{
}

/// What is checked is validated: a profile is valid, and its prefixes can be had,
/// exactly when its name is known.
pub proof fn law_profile_commands(
    policy: &Policy,
    name: &str,
    valid: Result<(), UnknownProfile>,
    prefixes: Result<Vec<String>, UnknownProfile>,
)
    requires
        call_ensures(validate_profile, (policy, name), valid),
        call_ensures(load_profile_prefixes, (policy, name), prefixes),
    ensures
        valid is Ok <==> policy@.contains_key(name@),
        prefixes is Ok <==> policy@.contains_key(name@),
        prefixes matches Ok(v) ==> text::strings(v@) == policy@[name@].allow,
        valid matches Err(e) ==> e.name@ == name@ && text::ascending_listing(
            text::strings(e.known@),
            policy@.dom(),
        ),
        prefixes matches Err(e) ==> e.name@ == name@ && text::ascending_listing(
            text::strings(e.known@),
            policy@.dom(),
        ),
{
}

/// The policy file's path, from the home directory.
pub proof fn law_default_path(home: Option<&str>, r: Result<String, String>)
    requires
        call_ensures(Policy::default_path, (home,), r),
    ensures
        home is None ==> r is Err && r->Err_0@ == "$HOME is not set; cannot locate policy.toml"@,
        home matches Some(h) ==> r is Ok && r->Ok_0@ == text::join_path(
            h@,
            ".config/bpolicy/policy.toml"@,
        ),
{
}

// ---------------------------------------------------------------------------
// Commands
// ---------------------------------------------------------------------------

/// A check answers for the path and the profile it was asked about, `tight`
/// where none was named, and allows exactly what a default or a prefix of that
/// profile covers. It fails exactly where the profile is not known.
pub proof fn law_policy_check(
    policy: &Policy,
    path: &str,
    name: Option<&str>,
    r: Result<PolicyAnswer, UnknownProfile>,
)
    requires
        call_ensures(cmd_policy_check, (policy, path, name), r),
    ensures
        r is Err <==> (name matches Some(n) && !policy@.contains_key(n@)),
        r matches Err(e) ==> e.name@ == name->0@ && text::ascending_listing(
            text::strings(e.known@),
            policy@.dom(),
        ),
        r matches Ok(a) ==> a.path@ == path@,
        name is None ==> (r matches Ok(a) ==> a.profile@ == "tight"@ && (a.allowed
            <==> default_covers(path@))),
        name matches Some(n) ==> (r matches Ok(a) ==> a.profile@ == n@ && (a.allowed
            <==> default_covers(path@) || exists|i: int|
            0 <= i < policy@[n@].allow.len() && covers(#[trigger] policy@[n@].allow[i], path@))),
{
    lemma_default_covers(path@);
    if let Some(n) = name {
        let allow = policy@[n@].allow;
        if policy::any_matches(allow, path@) {
            let i = choose|i: int|
                0 <= i < allow.len() && policy::matches_path(#[trigger] allow[i], path@);
            lemma_covers(allow[i], path@);
            assert(covers(allow[i], path@));
        }
        if exists|i: int| 0 <= i < allow.len() && covers(#[trigger] allow[i], path@) {
            let i = choose|i: int| 0 <= i < allow.len() && covers(#[trigger] allow[i], path@);
            lemma_covers(allow[i], path@);
            assert(policy::matches_path(allow[i], path@));
        }
    }
}

/// The eight defaults, in their order.
pub open spec fn eight_defaults() -> Seq<Seq<char>> {
    seq![
        "/tmp/"@,
        "/dev/null"@,
        "/dev/tty"@,
        "/dev/stdin"@,
        "/dev/stdout"@,
        "/dev/stderr"@,
        "/dev/pts/"@,
        "/proc/self/"@,
    ]
}

/// A listing shows the eight defaults and the prefixes of the profile, in their
/// orders, under the profile's name, `tight` where there is none.
pub proof fn law_build(name: Option<&str>, profile: Option<&Profile>, r: ResolvedAllowList)
    requires
        call_ensures(ResolvedAllowList::build, (name, profile), r),
    ensures
        text::strings(r.compiled_defaults@) == eight_defaults(),
        name is None ==> r.profile@ == "tight"@,
        name matches Some(n) ==> r.profile@ == n@,
        profile is None ==> r.profile_prefixes@.len() == 0,
        profile matches Some(p) ==> text::strings(r.profile_prefixes@) == text::strings(p.allow@),
{
    assert(text::strings(r.profile_prefixes@).len() == r.profile_prefixes@.len());
}

/// Showing lists the chosen profile, and fails exactly where it is not known.
pub proof fn law_policy_show(
    policy: &Policy,
    name: Option<&str>,
    r: Result<ResolvedAllowList, UnknownProfile>,
)
    requires
        call_ensures(cmd_policy_show, (policy, name), r),
    ensures
        r is Err <==> (name matches Some(n) && !policy@.contains_key(n@)),
        r matches Err(e) ==> e.name@ == name->0@ && text::ascending_listing(
            text::strings(e.known@),
            policy@.dom(),
        ),
        r matches Ok(list) ==> text::strings(list.compiled_defaults@) == eight_defaults(),
        name is None ==> (r matches Ok(list) ==> list.profile@ == "tight"@
            && list.profile_prefixes@.len() == 0),
        name matches Some(n) ==> (r matches Ok(list) ==> list.profile@ == n@ && text::strings(
            list.profile_prefixes@,
        ) == policy@[n@].allow),
{
    if let Ok(list) = r {
        assert(text::strings(list.profile_prefixes@).len() == list.profile_prefixes@.len());
    }
}

// ---------------------------------------------------------------------------
// Messages
// ---------------------------------------------------------------------------

/// The message for an unknown profile names it and lists the known ones, or says
/// that there are none.
pub proof fn law_unknown_profile_message(e: &UnknownProfile, r: String)
    requires
        call_ensures(UnknownProfile::to_string, (e,), r),
    ensures
        e.known@.len() == 0 || text::join(text::strings(e.known@), ", "@).len() == 0 ==> r@
            == "unknown profile '"@ + e.name@ + "'; "@ + "(no profiles defined)"@,
        text::join(text::strings(e.known@), ", "@).len() > 0 ==> r@ == "unknown profile '"@ + e.name@
            + "'; "@ + ("known: "@ + text::join(text::strings(e.known@), ", "@)),
{
    if e.known@.len() == 0 {
        assert(text::strings(e.known@) =~= Seq::empty());
    }
}

/// A prefix can go on the kernel allow-list exactly when it begins with a slash,
/// and the message says what is wrong with another.
pub proof fn law_validate_prefix(prefix: &str, r: Result<(), PrefixError>, m: String)
    requires
        call_ensures(validate_prefix, (prefix,), r),
        r matches Err(e) ==> call_ensures(PrefixError::to_string, (&e,), m),
    ensures
        r is Ok <==> continues("/"@, prefix@),
        prefix@.len() == 0 ==> m@ == "allow prefix must not be empty"@,
        r is Err && prefix@.len() > 0 ==> m@ == "allow prefix '"@ + prefix@
            + "' must be an absolute path (start with '/')"@,
{
    reveal_strlit("/");
    lemma_continues("/"@, prefix@);
    if prefix@.len() > 0 {
        assert(prefix@.subrange(0, 1) =~= seq![prefix@.first()]);
        assert("/"@ =~= seq!['/']);
        if "/"@.is_prefix_of(prefix@) {
            assert("/"@[0] == prefix@.subrange(0, 1)[0]);
        }
    }
}

/// An answer is printed with its path, its profile and its verdict.
pub proof fn law_answer_text(answer: &PolicyAnswer, r: String)
    requires
        call_ensures(PolicyAnswer::to_text, (answer,), r),
    ensures
        r@ == json::json_pretty(
            json::object_text(
                map![
                    "allowed"@ => if answer.allowed { "true"@ } else { "false"@ },
                    "path"@ => json::json_string(answer.path@),
                    "profile"@ => json::json_string(answer.profile@),
                ],
            ),
        ),
{
    assert(answer.printed_members() =~= map![
        "allowed"@ => if answer.allowed { "true"@ } else { "false"@ },
        "path"@ => json::json_string(answer.path@),
        "profile"@ => json::json_string(answer.profile@),
    ]) by {
        reveal_strlit("allowed");
        reveal_strlit("path");
        reveal_strlit("profile");
        assert("allowed"@[0] == 'a' && "path"@.len() == 4 && "profile"@.len() == 7 && "profile"@[0]
            == 'p');
    }
}

} // verus!
