//! Modes: encoding, words and dumps.

use bpolicy::audit::{
    load_mode, mode_label, mode_map_bytes, mode_of_entries, needs_confirmation, parse_mode,
    MODE_AUDIT, MODE_ENFORCE,
};
use bpolicy::dump::DumpEntry;

fn entry(key: Option<u64>, number: Option<u64>) -> DumpEntry {
    DumpEntry { key, signed_key: None, number, value: None }
}

#[test]
fn test_mode_map_bytes_enforce() {
    let (key, val) = mode_map_bytes(MODE_ENFORCE);
    assert_eq!(key, vec!["0", "0", "0", "0"]);
    assert_eq!(val, vec!["0", "0", "0", "0", "0", "0", "0", "0"]);
}

#[test]
fn test_mode_map_bytes_audit() {
    let (key, val) = mode_map_bytes(MODE_AUDIT);
    assert_eq!(key, vec!["0", "0", "0", "0"]);
    assert_eq!(val, vec!["1", "0", "0", "0", "0", "0", "0", "0"]);
}

#[test]
fn mode_bytes_denote_the_mode() {
    let (_, val) = mode_map_bytes(0x0102_0304_0506_0708);
    let bytes: Vec<u8> = val.iter().map(|w| w.parse().expect("byte")).collect();
    assert_eq!(bytes, 0x0102_0304_0506_0708u64.to_le_bytes());
}

#[test]
fn test_mode_label() {
    assert_eq!(mode_label(MODE_ENFORCE), "enforce");
    assert_eq!(mode_label(MODE_AUDIT), "audit");
    assert_eq!(mode_label(99), "enforce"); // unknown counts as enforcing
}

#[test]
fn the_low_byte_encodes_the_mode() {
    assert_eq!(mode_label(257), "audit");
    assert_eq!(mode_label(256), "enforce");
    assert_eq!(mode_label(u64::MAX - 254), "audit");
}

#[test]
fn test_parse_mode_audit() {
    let raw = r#"[{"formatted": {"key": 0, "value": 1}}]"#;
    assert_eq!(parse_mode(raw), Some(1));
}

#[test]
fn test_parse_mode_enforce() {
    let raw = r#"[{"formatted": {"key": 0, "value": 0}}]"#;
    assert_eq!(parse_mode(raw), Some(0));
}

#[test]
fn test_parse_mode_empty() {
    assert_eq!(parse_mode(""), None);
}

#[test]
fn test_parse_mode_invalid_json() {
    assert_eq!(parse_mode("not json"), None);
}

#[test]
fn parse_mode_takes_the_first_entry_at_key_zero() {
    let raw = r#"[
        {"raw": 1},
        {"formatted": {"key": 1, "value": 7}},
        {"formatted": {"key": "0", "value": 8}},
        {"formatted": {"key": 0, "value": 5}},
        {"formatted": {"key": 0, "value": 6}}
    ]"#;
    assert_eq!(parse_mode(raw), Some(5));
    assert_eq!(parse_mode(r#"[{"formatted": {"key": 0, "value": -1}}]"#), None);
    assert_eq!(parse_mode(r#"[{"formatted": {"key": 0}}]"#), None);
    assert_eq!(parse_mode(r#"{"formatted": {"key": 0, "value": 1}}"#), None);
    assert_eq!(parse_mode("[]"), None);
}

#[test]
fn mode_of_plain_entries() {
    assert_eq!(mode_of_entries(&vec![]), None);
    assert_eq!(
        mode_of_entries(&vec![entry(None, Some(3)), entry(Some(1), Some(4)), entry(Some(0), Some(1))]),
        Some(1)
    );
    assert_eq!(mode_of_entries(&vec![entry(Some(0), None), entry(Some(0), Some(1))]), None);
}

#[test]
fn only_an_enforcing_arm_at_a_terminal_needs_a_yes() {
    assert!(needs_confirmation(false, true, false));
    assert!(!needs_confirmation(false, true, true));
    assert!(!needs_confirmation(false, false, false));
    assert!(!needs_confirmation(true, true, false));
    assert_eq!(load_mode(true), MODE_AUDIT);
    assert_eq!(load_mode(false), MODE_ENFORCE);
}
