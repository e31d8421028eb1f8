//! Key bytes for PIDs.

use bpolicy::pids::{le_words, pid_to_key_bytes};

#[test]
fn pids_test_pid_zero() {
    assert_eq!(pid_to_key_bytes(0), vec!["0", "0", "0", "0"]);
}

#[test]
fn pids_test_pid_one() {
    assert_eq!(pid_to_key_bytes(1), vec!["1", "0", "0", "0"]);
}

#[test]
fn pids_test_pid_1000() {
    // 1000 = 0x000003E8, lowest byte first: E8 03 00 00
    assert_eq!(pid_to_key_bytes(1000), vec!["232", "3", "0", "0"]);
}

#[test]
fn pids_test_pid_65535() {
    // 65535 = 0x0000FFFF, lowest byte first: FF FF 00 00
    assert_eq!(pid_to_key_bytes(65_535), vec!["255", "255", "0", "0"]);
}

#[test]
fn pids_test_pid_4194304() {
    // 4194304 = 0x00400000, lowest byte first: 00 00 40 00
    assert_eq!(pid_to_key_bytes(4_194_304), vec!["0", "0", "64", "0"]);
}

#[test]
fn acceptance_pidkey_test_pid_zero() {
    assert_eq!(pid_to_key_bytes(0), vec!["0", "0", "0", "0"]);
}

#[test]
fn acceptance_pidkey_test_pid_one() {
    assert_eq!(pid_to_key_bytes(1), vec!["1", "0", "0", "0"]);
}

#[test]
fn acceptance_pidkey_test_pid_1000() {
    assert_eq!(pid_to_key_bytes(1000), vec!["232", "3", "0", "0"]);
}

#[test]
fn acceptance_pidkey_test_pid_65535() {
    assert_eq!(pid_to_key_bytes(65535), vec!["255", "255", "0", "0"]);
}

#[test]
fn acceptance_pidkey_test_pid_4194304() {
    assert_eq!(pid_to_key_bytes(4_194_304), vec!["0", "0", "64", "0"]);
}

#[test]
fn test_pid_max() {
    assert_eq!(pid_to_key_bytes(u32::MAX), vec!["255", "255", "255", "255"]);
}

#[test]
fn key_bytes_denote_the_pid() {
    for pid in [0u32, 1, 99, 100, 256, 0x1234_5678, u32::MAX] {
        let bytes: Vec<u8> =
            pid_to_key_bytes(pid).iter().map(|w| w.parse().expect("byte")).collect();
        assert_eq!(bytes, pid.to_le_bytes());
    }
    assert!(le_words(7, 0).is_empty());
}
