//! The status that the map dumps show.

use bpolicy::audit::PINNED_MAP_CONFIG;
use bpolicy::bpf::{BpfOps, PINNED_MAP_PIDS};
use bpolicy::deadman::{armed_state, Clock, TTL_PERMANENT};
use bpolicy::dump::{parse_dump, DumpEntry};
use bpolicy::status::{
    assemble_status, cmd_status, loaded_report, pids_of_entries, stats_of_entries, Status,
    StatusReport,
};
use bpolicy::session::BpfSession;
use serde_json::Value;

fn compact(v: &Option<Value>) -> Option<String> {
    v.as_ref().map(Value::to_string)
}

struct FakeClock(u64);

impl Clock for FakeClock {
    fn now_secs(&self) -> u64 {
        self.0
    }
}

struct Mock {
    loaded: bool,
    pids: &'static str,
    stats: &'static str,
    config: &'static str,
}

impl BpfOps for Mock {
    fn is_loaded(&self) -> bool {
        self.loaded
    }

    fn load_prog(&self, _: &str, _: &str) -> Result<(), String> {
        Ok(())
    }

    fn unload_prog(&self, _: &str) -> Result<(), String> {
        Ok(())
    }

    fn map_update(&self, _: &str, _: &[String]) -> Result<(), String> {
        Ok(())
    }

    fn map_delete(&self, _: &str, _: &[String]) -> Result<(), String> {
        Ok(())
    }

    fn allowlist_add_prefix(&self, _: &str, _: &str) -> Result<(), String> {
        Ok(())
    }

    fn map_dump_json(&self, pinned: &str) -> String {
        if pinned == PINNED_MAP_PIDS {
            self.pids.to_owned()
        } else if pinned == PINNED_MAP_CONFIG {
            self.config.to_owned()
        } else {
            self.stats.to_owned()
        }
    }

    fn tail_trace_pipe(&self, _: usize) -> Result<(), String> {
        Ok(())
    }

    fn obj_path(&self) -> String {
        String::new()
    }
}

#[test]
fn test_pids_sorted_ascending() {
    let pids_raw = r#"[
        {"formatted": {"key": 500, "value": 1}},
        {"formatted": {"key": 100, "value": 1}},
        {"formatted": {"key": 300, "value": 1}}
    ]"#;
    let stats_raw = r#"[
        {"formatted": {"key": 0, "value": 42}},
        {"formatted": {"key": 1, "value": 40}},
        {"formatted": {"key": 2, "value": 2}},
        {"formatted": {"key": 3, "value": 5}}
    ]"#;
    let out = assemble_status(pids_raw, stats_raw);
    let pids = out["protected_pids"].as_array().expect("protected_pids");
    assert_eq!(pids.len(), 3);
    assert_eq!(pids[0].as_i64(), Some(100));
    assert_eq!(pids[1].as_i64(), Some(300));
    assert_eq!(pids[2].as_i64(), Some(500));
}

#[test]
fn test_stats_keys() {
    let pids_raw = "[]";
    let stats_raw = r#"[
        {"formatted": {"key": 0, "value": 10}},
        {"formatted": {"key": 1, "value": 8}},
        {"formatted": {"key": 2, "value": 2}},
        {"formatted": {"key": 3, "value": 1}}
    ]"#;
    let out = assemble_status(pids_raw, stats_raw);
    assert_eq!(out["stats"]["checked"].as_i64(), Some(10));
    assert_eq!(out["stats"]["allowed"].as_i64(), Some(8));
    assert_eq!(out["stats"]["denied"].as_i64(), Some(2));
    assert_eq!(out["stats"]["forked_in"].as_i64(), Some(1));
}

#[test]
fn test_empty_raw_gives_empty_maps() {
    let out = assemble_status("", "");
    assert_eq!(out["loaded"], Value::from(true));
    assert_eq!(out["protected_pids"].as_array().map(Vec::len), Some(0));
}

#[test]
fn test_status_not_loaded_json() {
    let mock = Mock { loaded: false, pids: "[]", stats: "[]", config: "[]" };
    let report = cmd_status(&mut BpfSession::new(&mock), None, None, &FakeClock(0));
    assert!(matches!(report, StatusReport::NotLoaded));
    let serialized = report.to_text();
    assert_eq!(serialized, r#"{"loaded":false}"#);
}

#[test]
fn test_status_loaded_shape() {
    let pids_raw = r#"[
        {"formatted": {"key": 1234, "value": 1}},
        {"formatted": {"key": 100,  "value": 1}},
        {"formatted": {"key": 5678, "value": 1}}
    ]"#;
    let stats_raw = r#"[
        {"formatted": {"key": 0, "value": 999}},
        {"formatted": {"key": 1, "value": 990}},
        {"formatted": {"key": 2, "value": 9}},
        {"formatted": {"key": 3, "value": 3}}
    ]"#;

    let out = assemble_status(pids_raw, stats_raw);

    // loaded: true
    assert_eq!(out["loaded"], Value::from(true));

    // protected_pids sorted ascending
    let pids = out["protected_pids"].as_array().expect("protected_pids array");
    assert_eq!(pids.len(), 3);
    assert_eq!(pids[0], Value::from(100));
    assert_eq!(pids[1], Value::from(1234));
    assert_eq!(pids[2], Value::from(5678));

    // stats has exactly checked/allowed/denied/forked_in
    let stats = out["stats"].as_object().expect("stats object");
    assert!(stats.contains_key("checked"), "missing checked");
    assert!(stats.contains_key("allowed"), "missing allowed");
    assert!(stats.contains_key("denied"), "missing denied");
    assert!(stats.contains_key("forked_in"), "missing forked_in");
    assert_eq!(stats["checked"], Value::from(999));
    assert_eq!(stats["allowed"], Value::from(990));
    assert_eq!(stats["denied"], Value::from(9));
    assert_eq!(stats["forked_in"], Value::from(3));
}

#[test]
fn test_status_loaded_empty_maps() {
    let out = assemble_status("[]", "[]");
    assert_eq!(out["loaded"], Value::from(true));
    assert_eq!(out["protected_pids"].as_array().map(Vec::len), Some(0));
}

#[test]
fn the_status_has_three_members() {
    let out = assemble_status("[]", r#"[{"formatted": {"key": 1, "value": "a\"b"}}]"#);
    assert_eq!(
        out.to_string(),
        r#"{"loaded":true,"protected_pids":[],"stats":{"allowed":"a\"b"}}"#
    );
}

#[test]
fn only_integer_keys_are_pids() {
    let raw = r#"[
        {"formatted": {"key": 7}},
        {"formatted": {"key": -3}},
        {"formatted": {"key": 18446744073709551615}},
        {"formatted": {"key": 1.5}},
        {"formatted": {"key": "9"}},
        {"key": 4},
        3,
        {"formatted": {"key": 7}}
    ]"#;
    assert_eq!(Status::from_dumps(raw, "").protected_pids, vec![-3, 7, 7]);
    assert!(Status::from_dumps("oops", "{}").protected_pids.is_empty());
}

#[test]
fn counters_keep_their_json_and_the_last_one_counts() {
    let raw = r#"[
        {"formatted": {"key": 1, "value": "x"}},
        {"formatted": {"key": 1, "value": {"b": [1, null], "a": true}}},
        {"formatted": {"key": 2}},
        {"formatted": {"key": 4, "value": 9}},
        {"formatted": {"key": -1, "value": 9}},
        {"formatted": {"key": 3, "value": null}}
    ]"#;
    let stats = Status::from_dumps("", raw).stats;
    assert_eq!(stats.checked, None);
    assert_eq!(compact(&stats.allowed).as_deref(), Some(r#"{"a":true,"b":[1,null]}"#));
    assert_eq!(stats.denied, None);
    assert_eq!(compact(&stats.forked_in).as_deref(), Some("null"));
}

#[test]
fn plain_entries() {
    let entry = |signed_key, key, value: Option<u64>| DumpEntry {
        key,
        signed_key,
        number: None,
        value: value.map(Value::from),
    };
    let entries = vec![
        entry(Some(5), Some(0), Some(10)),
        entry(None, None, Some(1)),
        entry(Some(-5), None, None),
        entry(Some(0), Some(0), Some(11)),
    ];
    assert_eq!(pids_of_entries(&entries), vec![-5, 0, 5]);
    let stats = stats_of_entries(&entries);
    assert_eq!(stats.checked, Some(Value::from(11)));
    assert!(stats.allowed.is_none());
}

#[test]
fn dumps_parse_into_entries() {
    let entries = parse_dump(r#"[{"formatted": {"key": 3, "value": 4}}, {}]"#).expect("array");
    assert_eq!(entries.len(), 2);
    assert_eq!(entries[0].key, Some(3));
    assert_eq!(entries[0].signed_key, Some(3));
    assert_eq!(entries[0].number, Some(4));
    assert_eq!(entries[0].value, Some(Value::from(4)));
    assert_eq!(entries[1].key, None);
    let keys = parse_dump(
        r#"[
            {"formatted": {"key": -7}},
            {"formatted": {"key": 9223372036854775807}},
            {"formatted": {"key": 9223372036854775808}},
            {"formatted": {"key": 18446744073709551616}},
            {"formatted": {"key": 5.0}},
            {"formatted": {"key": "5"}},
            {"formatted": {"key": -0}}
        ]"#,
    )
    .expect("array");
    let read: Vec<(Option<u64>, Option<i64>)> =
        keys.iter().map(|e| (e.key, e.signed_key)).collect();
    assert_eq!(
        read,
        vec![
            (None, Some(-7)),
            (Some(i64::MAX as u64), Some(i64::MAX)),
            (Some(1 << 63), None),
            (None, None),
            (None, None),
            (None, None),
            (None, None),
        ]
    );
    assert!(parse_dump("{}").is_none());
    assert!(parse_dump("[1,]").is_none());
}

#[test]
fn the_report_of_a_loaded_enforcer() {
    let mock = Mock {
        loaded: true,
        pids: r#"[{"formatted": {"key": 2}}, {"formatted": {"key": 1}}]"#,
        stats: r#"[{"formatted": {"key": 2, "value": 6}}]"#,
        config: r#"[{"formatted": {"key": 0, "value": 1}}]"#,
    };
    let arm = armed_state(600, 1_000, 7);
    match cmd_status(&mut BpfSession::new(&mock), Some(arm), Some("workspace".to_owned()), &FakeClock(1_100)) {
        StatusReport::NotLoaded => panic!("loaded"),
        StatusReport::Loaded { status, mode, ttl_remaining_s, profile } => {
            assert_eq!(status.protected_pids, vec![1, 2]);
            assert_eq!(status.stats.denied, Some(Value::from(6)));
            assert_eq!(mode, "audit");
            assert_eq!(ttl_remaining_s, Some(500));
            assert_eq!(profile.as_deref(), Some("workspace"));
        }
    }
    let permanent = armed_state(TTL_PERMANENT, 1_000, 7);
    let silent = Mock { config: "", ..mock };
    match cmd_status(&mut BpfSession::new(&silent), Some(permanent), None, &FakeClock(1_100)) {
        StatusReport::NotLoaded => panic!("loaded"),
        StatusReport::Loaded { mode, ttl_remaining_s, profile, .. } => {
            assert_eq!(mode, "enforce");
            assert_eq!(ttl_remaining_s, None);
            assert_eq!(profile, None);
        }
    }
}

#[test]
fn reports_as_text() {
    let report = loaded_report(
        r#"[{"formatted": {"key": 2}}, {"formatted": {"key": -1}}]"#,
        r#"[{"formatted": {"key": 0, "value": 1.5}}]"#,
        r#"[{"formatted": {"key": 0, "value": 1}}]"#,
        Some(30),
        Some("work\nspace".to_owned()),
    );
    let text = report.to_text();
    assert!(text.starts_with("{\n  \"loaded\": true,\n  \"mode\": \"audit\""));
    let out: Value = serde_json::from_str(&text).expect("json");
    assert_eq!(
        out.to_string(),
        [
            r#"{"loaded":true,"mode":"audit","profile":"work\nspace","protected_pids":[-1,2],"#,
            r#""stats":{"checked":1.5},"ttl_remaining_s":30}"#,
        ]
        .concat()
    );
    let bare = loaded_report("", "", "", None, None).to_text();
    let out: Value = serde_json::from_str(&bare).expect("json");
    assert_eq!(
        out.to_string(),
        [
            r#"{"loaded":true,"mode":"enforce","protected_pids":[],"#,
            r#""stats":{},"ttl_remaining_s":null}"#,
        ]
        .concat()
    );
}

#[test]
fn strings_are_escaped() {
    for (name, printed) in [
        ("a\"b\\c", r#""a\"b\\c""#),
        ("\u{8}\t\n\u{c}\r", r#""\b\t\n\f\r""#),
        ("\u{0}\u{b}\u{1f} \u{7f}", "\"\\u0000\\u000b\\u001f \u{7f}\""),
        ("/é\u{2028}\u{10000}", "\"/é\u{2028}\u{10000}\""),
    ] {
        let text = loaded_report("", "", "", None, Some(name.to_owned())).to_text();
        assert!(text.contains(&format!("\"profile\": {printed},")), "{text}");
    }
}
