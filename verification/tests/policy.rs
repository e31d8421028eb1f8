//! Prefix matching, profiles and the resolved allow-list.

use bpolicy::policy::{
    cmd_policy_check, cmd_policy_show, is_allowed, is_default_allowed, load_profile_prefixes,
    longest_prefix_match, prefix_matches, validate_prefix, validate_profile, Policy, PrefixError,
    Profile, ResolvedAllowList,
};

fn workspace_profile() -> Profile {
    Profile {
        description: "test workspace".to_owned(),
        allow: vec![
            "/home/jsy/wintermute".to_owned(),
            "/home/jsy/.agent".to_owned(),
            "/home/jsy/.cache".to_owned(),
            "/home/jsy/.config/bpolicy".to_owned(),
        ],
    }
}

fn profile(allow: &[&str]) -> Profile {
    Profile { description: String::new(), allow: allow.iter().map(|s| (*s).to_owned()).collect() }
}

fn policy_from_toml(path: &str, contents: &str) -> Policy {
    let table: toml::Table = toml::from_str(contents).expect("parse policy");
    let mut entries = Vec::new();
    if let Some(profiles) = table.get("profile").and_then(toml::Value::as_table) {
        for (name, value) in profiles {
            let description = value
                .get("description")
                .and_then(toml::Value::as_str)
                .unwrap_or_default()
                .to_owned();
            let allow = value
                .get("allow")
                .and_then(toml::Value::as_array)
                .map(|a| a.iter().filter_map(toml::Value::as_str).map(str::to_owned).collect())
                .unwrap_or_default();
            entries.push((name.clone(), Profile { description, allow }));
        }
    }
    Policy::from_profiles(path, entries)
}

#[test]
fn test_prefix_exact_match() {
    assert!(prefix_matches("/tmp", "/tmp"));
}

#[test]
fn test_prefix_slash_suffix() {
    assert!(prefix_matches("/tmp/", "/tmp/foo"));
    assert!(prefix_matches("/tmp/", "/tmp/a/b/c"));
}

#[test]
fn test_prefix_no_partial_name() {
    assert!(!prefix_matches("/home/jsy/s", "/home/jsy/sec"));
}

#[test]
fn test_prefix_directory_boundary() {
    assert!(prefix_matches("/home/jsy/wintermute", "/home/jsy/wintermute/foo"));
    assert!(!prefix_matches("/home/jsy/wintermute", "/home/jsy/wintermute_evil"));
}

#[test]
fn test_prefix_path_separator() {
    assert!(prefix_matches("/home/jsy", "/home/jsy/x"));
    assert!(!prefix_matches("/home/jsy", "/home/jsyevil"));
}

#[test]
fn prefix_edges() {
    assert!(prefix_matches("", ""));
    assert!(prefix_matches("", "/etc"));
    assert!(!prefix_matches("", "etc"));
    assert!(!prefix_matches("/tmp/", "/tmp"));
    assert!(prefix_matches("/", "/etc/passwd"));
    assert!(prefix_matches("/données", "/données/é"));
    assert!(!prefix_matches("/tmp/foo", "/tmp"));
}

#[test]
fn test_default_tmp() {
    assert!(is_default_allowed("/tmp/foo"));
    assert!(is_default_allowed("/tmp/nested/path"));
}

#[test]
fn test_default_dev_null() {
    assert!(is_default_allowed("/dev/null"));
}

#[test]
fn test_default_dev_pts() {
    assert!(is_default_allowed("/dev/pts/0"));
}

#[test]
fn test_default_proc_self() {
    assert!(is_default_allowed("/proc/self/fd/1"));
}

#[test]
fn test_default_denied_home() {
    assert!(!is_default_allowed("/home/jsy/wintermute/foo"));
}

#[test]
fn test_default_denied_etc() {
    assert!(!is_default_allowed("/etc/passwd"));
}

#[test]
fn every_default_is_allowed() {
    for path in ["/dev/tty", "/dev/stdin", "/dev/stdout", "/dev/stderr", "/tmp/", "/dev/pts/"] {
        assert!(is_default_allowed(path), "{path}");
    }
    assert!(!is_default_allowed("/tmp"));
    assert!(!is_default_allowed("/dev/ttyS0"));
}

#[test]
fn test_ac3_allowed_paths() {
    let p = workspace_profile();
    assert!(is_allowed("/home/jsy/wintermute/x/y", Some(&p)));
    assert!(is_allowed("/tmp/z", Some(&p)));
    assert!(is_allowed("/dev/null", Some(&p)));
}

#[test]
fn test_ac3_denied_paths() {
    let p = workspace_profile();
    assert!(!is_allowed("/home/jsy/Documents/secret", Some(&p)));
    assert!(!is_allowed("/etc/passwd", Some(&p)));
}

#[test]
fn test_ac3_table_driven() {
    let p = workspace_profile();
    let cases: &[(&str, bool)] = &[
        ("/home/jsy/wintermute/x/y", true),
        ("/tmp/z", true),
        ("/dev/null", true),
        ("/dev/pts/3", true),
        ("/proc/self/fd/1", true),
        ("/home/jsy/.agent/settings.json", true),
        ("/home/jsy/.cache/something", true),
        ("/home/jsy/.config/bpolicy/policy.toml", true),
        ("/home/jsy/Documents/secret", false),
        ("/etc/passwd", false),
        ("/root/.ssh/id_rsa", false),
        ("/home/jsy/wintermute_evil/x", false),
    ];
    for &(path, expected) in cases {
        assert_eq!(is_allowed(path, Some(&p)), expected, "path={path} expected={expected}");
    }
}

#[test]
fn test_ac4_longest_prefix() {
    let prefixes = &["/home/jsy", "/home/jsy/wintermute", "/home"];
    let matched = longest_prefix_match(prefixes, "/home/jsy/wintermute/foo");
    assert_eq!(matched, Some("/home/jsy/wintermute"));
}

#[test]
fn test_ac4_no_match() {
    let prefixes = &["/home/jsy/wintermute"];
    let matched = longest_prefix_match(prefixes, "/etc/passwd");
    assert!(matched.is_none());
}

#[test]
fn longest_match_is_one_text_in_any_order() {
    let path = "/a/b/c/d";
    let there = ["/a", "/a/b/c", "/a/b", "/a/b/c"];
    let back = ["/a/b/c", "/a/b", "/a"];
    assert_eq!(longest_prefix_match(&there, path), Some("/a/b/c"));
    assert_eq!(longest_prefix_match(&back, path), Some("/a/b/c"));
    assert_eq!(longest_prefix_match(&[], path), None);
}

#[test]
fn test_tight_profile_only_defaults() {
    let tight = Profile { description: "tight".to_owned(), allow: vec![] };
    assert!(is_allowed("/tmp/x", Some(&tight)));
    assert!(!is_allowed("/home/jsy/wintermute/x", Some(&tight)));
}

#[test]
fn a_profile_only_adds() {
    let narrow = profile(&["/srv"]);
    let wide = profile(&["/opt", "/srv", "/srv"]);
    for path in ["/tmp/x", "/dev/null", "/srv/a", "/etc/x"] {
        if is_allowed(path, None) {
            assert!(is_allowed(path, Some(&narrow)));
        }
        if is_allowed(path, Some(&narrow)) {
            assert!(is_allowed(path, Some(&wide)));
        }
        assert_eq!(is_allowed(path, Some(&profile(&[]))), is_allowed(path, None));
    }
    assert!(is_allowed("/srv/a", Some(&narrow)));
    assert!(is_allowed("/srv/a/deeper", Some(&narrow)));
    assert!(!is_allowed("/srv/a", None));
}

#[test]
fn test_validate_prefix_ok() {
    assert!(validate_prefix("/home/jsy").is_ok());
    assert!(validate_prefix("/tmp/").is_ok());
}

#[test]
fn test_validate_prefix_empty() {
    assert!(validate_prefix("").is_err());
}

#[test]
fn test_validate_prefix_relative() {
    assert!(validate_prefix("home/jsy").is_err());
}

#[test]
fn prefix_error_messages() {
    let empty = validate_prefix("").expect_err("empty");
    assert!(matches!(empty, PrefixError::Empty));
    assert_eq!(empty.to_string(), "allow prefix must not be empty");
    let relative = validate_prefix("home/jsy").expect_err("relative");
    assert_eq!(
        relative.to_string(),
        "allow prefix 'home/jsy' must be an absolute path (start with '/')"
    );
}

#[test]
fn test_load_policy_from_toml() {
    let toml = r#"
[profile.workspace]
description = "workspace profile"
allow = ["/home/jsy/wintermute", "/home/jsy/.agent"]

[profile.tight]
description = "tmp + dev only"
allow = []
"#;
    let policy = policy_from_toml("policy.toml", toml);
    let profile = policy.get_profile("workspace").expect("workspace profile");
    assert_eq!(profile.allow.len(), 2);
    assert_eq!(profile.allow[0], "/home/jsy/wintermute");
    assert_eq!(profile.description, "workspace profile");
    assert_eq!(policy.source_path(), "policy.toml");
}

#[test]
fn test_ac1_unknown_profile_error() {
    let toml = r#"
[profile.workspace]
allow = ["/home/jsy/wintermute"]
"#;
    let policy = policy_from_toml("policy.toml", toml);
    let err = policy.get_profile("nonexistent").expect_err("should error");
    let msg = err.to_string();
    assert!(msg.contains("nonexistent"), "error mentions unknown name");
    assert!(msg.contains("workspace"), "error lists known profiles");
}

#[test]
fn unknown_profile_messages() {
    let none = Policy::load_or_empty("/p/policy.toml", None);
    assert_eq!(none.source_path(), "/p/policy.toml");
    assert!(none.profile_names().is_empty());
    assert_eq!(
        none.get_profile("x").expect_err("unknown").to_string(),
        "unknown profile 'x'; (no profiles defined)"
    );
    let some = Policy::from_profiles(
        "p",
        vec![("zeta".to_owned(), profile(&[])), ("alpha".to_owned(), profile(&[]))],
    );
    assert_eq!(
        some.get_profile("x").expect_err("unknown").to_string(),
        "unknown profile 'x'; known: alpha, zeta"
    );
}

#[test]
fn names_are_listed_in_ascending_order() {
    let names = ["b", "a", "ab", "Z", "é", "a", ""];
    let entries = names.iter().map(|n| ((*n).to_owned(), profile(&[]))).collect();
    let policy = Policy::from_profiles("p", entries);
    assert_eq!(policy.profile_names(), vec!["", "Z", "a", "ab", "b", "é"]);
}

#[test]
fn a_later_profile_replaces_an_earlier_one() {
    let policy = Policy::from_profiles(
        "p",
        vec![
            ("w".to_owned(), profile(&["/old"])),
            ("v".to_owned(), profile(&["/v"])),
            ("w".to_owned(), profile(&["/new"])),
        ],
    );
    assert_eq!(policy.get_profile("w").expect("w").allow, vec!["/new"]);
    assert_eq!(policy.get_profile("v").expect("v").allow, vec!["/v"]);
    assert_eq!(policy.profile_names(), vec!["v", "w"]);
    let copy = policy.clone();
    assert_eq!(copy.get_profile("w").expect("w").allow, vec!["/new"]);
    assert_eq!(copy.source_path(), "p");
}

#[test]
fn choices_resolve() {
    let policy = Policy::from_profiles("p", vec![("w".to_owned(), profile(&["/w"]))]);
    assert!(policy.resolve_profile(None).expect("none").is_none());
    assert_eq!(policy.resolve_profile(Some("w")).expect("w").expect("some").allow, vec!["/w"]);
    assert!(policy.resolve_profile(Some("tight")).is_err());
    assert!(validate_profile(&policy, "w").is_ok());
    assert!(validate_profile(&policy, "x").is_err());
    assert_eq!(load_profile_prefixes(&policy, "w").expect("w"), vec!["/w"]);
    assert!(load_profile_prefixes(&policy, "x").is_err());
}

#[test]
fn show_and_check_agree() {
    let policy = Policy::from_profiles("p", vec![("w".to_owned(), profile(&["/w"]))]);
    for name in [None, Some("w")] {
        let list = cmd_policy_show(&policy, name).expect("show");
        for path in ["/w/x", "/tmp/x", "/etc/x", "/wx"] {
            let answer = cmd_policy_check(&policy, path, name).expect("check");
            let listed = list
                .compiled_defaults
                .iter()
                .chain(list.profile_prefixes.iter())
                .any(|p| prefix_matches(p, path));
            assert_eq!(answer.allowed, listed, "{path}");
            assert_eq!(answer.path, path);
            assert_eq!(answer.profile, name.unwrap_or("tight"));
        }
    }
    assert!(cmd_policy_show(&policy, Some("x")).is_err());
    assert!(cmd_policy_check(&policy, "/tmp/x", Some("x")).is_err());
}

#[test]
fn test_ac2_resolved_list_includes_defaults() {
    let empty_profile = Profile { description: "tight".to_owned(), allow: vec![] };
    let resolved = ResolvedAllowList::build(Some("tight"), Some(&empty_profile));
    assert!(!resolved.compiled_defaults.is_empty(), "defaults present");
    assert!(resolved.compiled_defaults.contains(&"/tmp/".to_owned()), "/tmp/ in defaults");
    assert!(resolved.profile_prefixes.is_empty(), "empty profile_prefixes");
}

#[test]
fn test_ac2_workspace_show_has_both() {
    let p = workspace_profile();
    let resolved = ResolvedAllowList::build(Some("workspace"), Some(&p));
    assert!(!resolved.compiled_defaults.is_empty());
    assert!(resolved.profile_prefixes.contains(&"/home/jsy/wintermute".to_owned()));
}

#[test]
fn resolved_list_without_profile_is_tight() {
    let resolved = ResolvedAllowList::build(None, None);
    assert_eq!(resolved.profile, "tight");
    assert_eq!(
        resolved.compiled_defaults,
        vec![
            "/tmp/",
            "/dev/null",
            "/dev/tty",
            "/dev/stdin",
            "/dev/stdout",
            "/dev/stderr",
            "/dev/pts/",
            "/proc/self/"
        ]
    );
    assert!(resolved.profile_prefixes.is_empty());
}

#[test]
fn policy_path_below_home() {
    assert_eq!(
        Policy::default_path(Some("/home/jsy")),
        Ok("/home/jsy/.config/bpolicy/policy.toml".to_owned())
    );
    assert_eq!(
        Policy::default_path(Some("/home/jsy/")),
        Ok("/home/jsy/.config/bpolicy/policy.toml".to_owned())
    );
    assert_eq!(Policy::default_path(Some("")), Ok(".config/bpolicy/policy.toml".to_owned()));
    assert_eq!(
        Policy::default_path(None),
        Err("$HOME is not set; cannot locate policy.toml".to_owned())
    );
}

#[test]
fn answers_as_text() {
    let policy = Policy::load_or_empty("p", None);
    let answer = cmd_policy_check(&policy, "/tmp/\"x\"", None).expect("check");
    assert_eq!(
        answer.to_text(),
        "{\n  \"allowed\": true,\n  \"path\": \"/tmp/\\\"x\\\"\",\n  \"profile\": \"tight\"\n}"
    );
}

#[test]
fn matching_is_an_order() {
    let paths = ["", "/", "/a", "/a/", "/a/b", "/ab", "a", "/a//b"];
    for a in paths {
        assert!(prefix_matches(a, a));
        for b in paths {
            assert!(a == b || !prefix_matches(a, b) || !prefix_matches(b, a));
            for c in paths {
                assert!(!prefix_matches(a, b) || !prefix_matches(b, c) || prefix_matches(a, c));
            }
        }
    }
}
