//! The doctor's judgements and its output.

use bpolicy::doctor::{
    check_boot_arm, check_bpf_fs, check_btf, check_capability, check_lsm_list, cmd_doctor,
    docket_line, find_gap, human_line, json_report, next_unit_query, prop_value, Check,
    DoctorFormat, DoctorReport, FileProbe, Probes, Verdict,
};

fn bare_probes() -> Probes {
    Probes {
        lsm_security: None,
        cmdline: None,
        btf: FileProbe::Missing,
        self_status: None,
        mounts: String::new(),
        loaded_pin: false,
        bpf_root: false,
        unit_outputs: vec![],
    }
}

fn good_probes() -> Probes {
    Probes {
        lsm_security: Some("lockdown,capability,bpf\n".to_owned()),
        cmdline: None,
        btf: FileProbe::Present(5_000_000),
        self_status: Some("Name:\tx\nCapEff:\t000001ffffffffff\n".to_owned()),
        mounts: "bpf /sys/fs/bpf bpf rw,nosuid 0 0\n".to_owned(),
        loaded_pin: true,
        bpf_root: true,
        unit_outputs: vec![Some(
            "LoadState=loaded\nActiveState=inactive\nSubState=exited\n".to_owned(),
        )],
    }
}

fn text(s: &str) -> Option<String> {
    Some(s.to_owned())
}

#[test]
fn test_report_has_five_checks() {
    for probes in [bare_probes(), good_probes()] {
        let report = DoctorReport::run(&probes);
        assert_eq!(report.checks.len(), 5);
        let names = ["lsm-list", "btf", "capability", "bpf-fs", "boot-arm"];
        for (i, name) in names.iter().enumerate() {
            assert_eq!(report.checks[i].name, *name);
        }
    }
}

#[test]
fn test_verdict_display() {
    assert_eq!(Verdict::Okay.to_string(), "ok");
    assert_eq!(Verdict::Gap.to_string(), "gap");
    assert_eq!(Verdict::Unknown.to_string(), "unknown");
}

#[test]
fn test_json_parseable() {
    let report = DoctorReport::run(&bare_probes());
    let mut obj = serde_json::Map::new();
    for c in &report.checks {
        let mut fields = serde_json::Map::new();
        fields.insert("verdict".to_owned(), serde_json::Value::String(c.verdict.to_string()));
        fields.insert("detail".to_owned(), serde_json::Value::String(c.detail.clone()));
        fields.insert("label".to_owned(), serde_json::Value::String(c.label.clone()));
        obj.insert(c.name.clone(), serde_json::Value::Object(fields));
    }
    if let Some(ref g) = report.first_gap {
        obj.insert("first_gap".to_owned(), serde_json::Value::String(g.clone()));
    }
    let json_str = serde_json::to_string(&serde_json::Value::Object(obj)).expect("serialize");
    let parsed: serde_json::Value = serde_json::from_str(&json_str).expect("parse");
    assert!(parsed.is_object());
}

#[test]
fn test_docket_format_when_gap() {
    let report = DoctorReport {
        checks: vec![Check::gap("lsm-list", "LSM list", "bpf not in active LSMs".to_owned())],
        first_gap: Some("lsm-list".to_owned()),
    };
    let buf = docket_line(&report);
    assert!(buf.starts_with("docket report --key warden-enforcer-inert --evidence cause:lsm-list"));
}

#[test]
fn docket_lines() {
    let spaced = DoctorReport { checks: vec![], first_gap: text("a b c") };
    assert_eq!(
        docket_line(&spaced),
        "docket report --key warden-enforcer-inert --evidence cause:a_b_c"
    );
    let none = DoctorReport { checks: vec![], first_gap: None };
    assert_eq!(
        docket_line(&none),
        "# bpolicy doctor: no gaps found — all checks ok or unknown"
    );
}

#[test]
fn test_all_checks_return_a_verdict() {
    for probes in [bare_probes(), good_probes()] {
        let report = DoctorReport::run(&probes);
        for c in &report.checks {
            assert!(
                matches!(c.verdict, Verdict::Okay | Verdict::Gap | Verdict::Unknown),
                "check {} has unexpected verdict",
                c.name
            );
            assert!(!c.detail.is_empty(), "check {} has empty detail", c.name);
        }
    }
}

#[test]
fn test_format_from_str() {
    assert_eq!("human".parse::<DoctorFormat>(), Ok(DoctorFormat::Human));
    assert_eq!("json".parse::<DoctorFormat>(), Ok(DoctorFormat::Json));
    assert_eq!("docket".parse::<DoctorFormat>(), Ok(DoctorFormat::Docket));
    assert!("bad".parse::<DoctorFormat>().is_err());
    assert_eq!(
        DoctorFormat::from_name("bad"),
        Err("unknown format `bad`; choose human | json | docket".to_owned())
    );
}

#[test]
fn test_prop_value() {
    let text = "LoadState=loaded\nActiveState=active\nSubState=exited\n";
    assert_eq!(prop_value(text, "LoadState"), Some("loaded".to_owned()));
    assert_eq!(prop_value(text, "ActiveState"), Some("active".to_owned()));
    assert_eq!(prop_value(text, "SubState"), Some("exited".to_owned()));
    assert_eq!(prop_value(text, "Missing"), None);
}

#[test]
fn property_edges() {
    assert_eq!(prop_value("Key2=x\nKey=\nKey=y", "Key"), text(""));
    assert_eq!(prop_value("Key=a=b\r\n", "Key"), text("a=b"));
    assert_eq!(prop_value("Key", "Key"), None);
    assert_eq!(prop_value("", "Key"), None);
}

#[test]
fn lsm_list_verdicts() {
    let unknown = check_lsm_list(&None, &text("quiet splash"));
    assert_eq!(unknown.verdict, Verdict::Unknown);
    assert_eq!(unknown.detail, "cannot read /sys/kernel/security/lsm or /proc/cmdline");
    assert_eq!(unknown.label, "Kernel LSM list includes 'bpf'");
    let ok = check_lsm_list(&text("lockdown, bpf ,yama"), &text("lsm=yama"));
    assert_eq!((ok.verdict, ok.detail.as_str()), (Verdict::Okay, "active lsms: lockdown, bpf ,yama"));
    let gap = check_lsm_list(&text("lockdown,bpfx"), &text("lsm=bpf"));
    assert_eq!(gap.verdict, Verdict::Gap);
    assert_eq!(
        gap.detail,
        "bpf not in active LSM list [lockdown,bpfx]; add lsm=...,bpf to kernel cmdline"
    );
    let cmdline = check_lsm_list(&None, &text("ro\u{a0}x lsm=lsm=a,bpf lsm=c\n"));
    assert_eq!((cmdline.verdict, cmdline.detail.as_str()), (Verdict::Okay, "active lsms: a,bpf"));
    assert_eq!(check_lsm_list(&text(""), &None).verdict, Verdict::Gap);
    assert_eq!(check_lsm_list(&None, &None).verdict, Verdict::Unknown);
}

#[test]
fn btf_verdicts() {
    let missing = check_btf(&FileProbe::Missing);
    assert_eq!(missing.verdict, Verdict::Gap);
    assert_eq!(
        missing.detail,
        "/sys/kernel/btf/vmlinux not found; kernel may lack BTF support"
    );
    let unreadable = check_btf(&FileProbe::Unreadable("denied".to_owned()));
    assert_eq!(unreadable.verdict, Verdict::Unknown);
    assert_eq!(unreadable.detail, "/sys/kernel/btf/vmlinux: denied");
    let empty = check_btf(&FileProbe::Present(0));
    assert_eq!(
        (empty.verdict, empty.detail.as_str()),
        (Verdict::Gap, "/sys/kernel/btf/vmlinux exists but is empty")
    );
    let present = check_btf(&FileProbe::Present(6_123_450));
    assert_eq!(
        (present.verdict, present.detail.as_str()),
        (Verdict::Okay, "/sys/kernel/btf/vmlinux present (6123450 bytes)")
    );
}

#[test]
fn capability_verdicts() {
    let status = |caps: &str| text(&format!("Name:\tbpolicy\nCapPrm:\t0\nCapEff:\t{caps}\nX: 1\n"));
    let root = check_capability(&status("000001ffffffffff"));
    assert_eq!(
        (root.verdict, root.detail.as_str()),
        (Verdict::Okay, "has CAP_BPF (CapEff=0x000001ffffffffff)")
    );
    let admin = check_capability(&status("200000"));
    assert_eq!(
        (admin.verdict, admin.detail.as_str()),
        (Verdict::Okay, "has CAP_SYS_ADMIN (CapEff=0x0000000000200000)")
    );
    let none = check_capability(&status("0000000000000000"));
    assert_eq!(none.verdict, Verdict::Gap);
    assert_eq!(
        none.detail,
        "neither CAP_BPF nor CAP_SYS_ADMIN set (CapEff=0x0000000000000000); \
         run as root or grant CAP_BPF"
    );
    assert_eq!(check_capability(&status("+80000000AB")).detail, "has CAP_BPF (CapEff=0x00000080000000ab)");
    for bad in ["", "xyz", "+", "-1", "10000000000000000", "0x1"] {
        let check = check_capability(&status(bad));
        assert_eq!(check.verdict, Verdict::Unknown, "{bad}");
        assert_eq!(check.detail, "cannot parse /proc/self/status CapEff");
    }
    assert_eq!(check_capability(&None).verdict, Verdict::Unknown);
    assert_eq!(check_capability(&status("ffffffffffffffff")).verdict, Verdict::Okay);
}

#[test]
fn bpf_fs_verdicts() {
    let mounts = "proc /proc proc rw 0 0\nnone /sys/fs/bpf bpf rw 0 0\n";
    let unmounted = check_bpf_fs("none /sys/fs/bpf tmpfs rw\n", true, true);
    assert_eq!(unmounted.verdict, Verdict::Gap);
    assert_eq!(
        unmounted.detail,
        "/sys/fs/bpf not mounted as bpf type; try: mount -t bpf bpf /sys/fs/bpf"
    );
    assert_eq!(check_bpf_fs("", false, false).verdict, Verdict::Gap);
    assert_eq!(check_bpf_fs("bpf /sys/fs/bpf", false, false).verdict, Verdict::Gap);
    let loaded = check_bpf_fs(mounts, true, true);
    assert_eq!(loaded.verdict, Verdict::Okay);
    assert_eq!(
        loaded.detail,
        "bpffs mounted at /sys/fs/bpf; enforcer pin /sys/fs/bpf/bpolicy/file_open_check present"
    );
    let half = check_bpf_fs(mounts, false, true);
    assert_eq!(half.verdict, Verdict::Gap);
    assert_eq!(
        half.detail,
        "bpffs mounted at /sys/fs/bpf; /sys/fs/bpf/bpolicy exists but enforcer pin \
         /sys/fs/bpf/bpolicy/file_open_check missing"
    );
    let inert = check_bpf_fs(mounts, false, false);
    assert_eq!(
        (inert.verdict, inert.detail.as_str()),
        (Verdict::Okay, "bpffs mounted at /sys/fs/bpf (enforcer not yet pinned)")
    );
}

#[test]
fn boot_arm_asks_until_a_unit_decides() {
    let mut outputs: Vec<Option<String>> = vec![];
    let mut asked = vec![];
    while let Some(query) = next_unit_query(&outputs) {
        asked.push((query.unit.clone(), query.user));
        let mut args = vec!["show", query.unit.as_str(), "--property=LoadState,ActiveState,SubState"];
        if query.user {
            args.insert(0, "--user");
        }
        assert_eq!(query.args(), args);
        outputs.push(match asked.len() {
            1 => None,
            5 => text("LoadState=loaded\nActiveState=failed\nSubState=dead\n"),
            _ => text("LoadState=not-found\n"),
        });
    }
    let names = ["bpolicy-arm.service", "bpolicy.service", "bpolicy-load.service"];
    assert_eq!(asked.len(), 5);
    for (i, (unit, user)) in asked.iter().enumerate() {
        assert_eq!(unit, names[i % 3]);
        assert_eq!(*user, i < 3);
    }
    let check = check_boot_arm(&outputs, true);
    assert_eq!(check.verdict, Verdict::Gap);
    assert_eq!(check.detail, "bpolicy.service (system) found but active=failed sub=dead");
    outputs.push(text("LoadState=loaded\nActiveState=active\n"));
    assert_eq!(check_boot_arm(&outputs, true).detail, check.detail);
}

#[test]
fn boot_arm_verdicts() {
    let user_ok = check_boot_arm(
        &vec![text("LoadState=loaded\nActiveState=active\nSubState=running\n")],
        false,
    );
    assert_eq!(
        (user_ok.verdict, user_ok.detail.as_str()),
        (Verdict::Okay, "bpolicy-arm.service active=active sub=running")
    );
    let user_gap = check_boot_arm(&vec![None, text("LoadState=masked\n")], false);
    assert_eq!(user_gap.verdict, Verdict::Gap);
    assert_eq!(
        user_gap.detail,
        "bpolicy.service found but active= sub=; check: journalctl --user -u bpolicy.service"
    );
    let system_ok =
        check_boot_arm(&vec![None, None, None, text("LoadState=loaded\nSubState=exited\n")], false);
    assert_eq!(
        (system_ok.verdict, system_ok.detail.as_str()),
        (Verdict::Okay, "bpolicy-arm.service (system) active= sub=exited")
    );
    let nothing = vec![None, text(""), None, None, None, text("ActiveState=active")];
    assert!(next_unit_query(&nothing).is_none());
    let armed = check_boot_arm(&nothing, true);
    assert_eq!(
        (armed.verdict, armed.detail.as_str()),
        (Verdict::Okay, "no boot-arm unit found but enforcer is currently loaded")
    );
    let inert = check_boot_arm(&nothing, false);
    assert_eq!(
        (inert.verdict, inert.detail.as_str()),
        (Verdict::Gap, "no bpolicy boot-arm systemd unit found; enforcer is not armed at boot")
    );
}

#[test]
fn the_first_gap_is_named() {
    let check = |name: &str, verdict| Check::new(name, "l", verdict, "d".to_owned());
    let checks = vec![
        check("a", Verdict::Unknown),
        check("b", Verdict::Gap),
        check("c", Verdict::Gap),
    ];
    assert_eq!(find_gap(&checks), text("b"));
    assert_eq!(find_gap(&vec![check("a", Verdict::Okay), check("b", Verdict::Unknown)]), None);
    assert_eq!(DoctorReport::run(&good_probes()).first_gap, None);
    assert_eq!(DoctorReport::run(&bare_probes()).first_gap, text("btf"));
    let unknown = Check::unknown("n", "l", "d".to_owned());
    let ok = Check::ok("n", "l", "d".to_owned());
    assert_eq!((unknown.verdict, ok.verdict), (Verdict::Unknown, Verdict::Okay));
}

#[test]
fn output_by_format() {
    let ok = Check::ok("btf", "l", "fine".to_owned());
    assert_eq!(human_line(&ok), "btf          ok fine");
    let long = Check::gap("a-name-beyond-twelve", "l", "d".to_owned());
    assert_eq!(human_line(&long), "a-name-beyond-twelve gap d");

    let lines = cmd_doctor(DoctorFormat::Human, &bare_probes());
    assert_eq!(lines.len(), 5);
    assert!(lines[0].starts_with("lsm-list     unknown cannot read"));
    assert_eq!(
        cmd_doctor(DoctorFormat::Docket, &bare_probes()),
        vec!["docket report --key warden-enforcer-inert --evidence cause:btf"]
    );
    let report = DoctorReport::run(&bare_probes());
    assert_eq!(
        cmd_doctor(DoctorFormat::Json, &bare_probes()),
        vec![json_report(&report)]
    );
}

#[test]
fn the_json_report_is_keyed_by_check_name() {
    let report = DoctorReport {
        checks: vec![
            Check::gap("b", "B label", "detail \"b\"".to_owned()),
            Check::ok("a", "A label", "detail a".to_owned()),
        ],
        first_gap: text("b"),
    };
    let out: serde_json::Value =
        serde_json::from_str(&json_report(&report)).expect("parse");
    assert_eq!(
        out.to_string(),
        [
            r#"{"a":{"detail":"detail a","label":"A label","verdict":"ok"},"#,
            r#""b":{"detail":"detail \"b\"","label":"B label","verdict":"gap"},"#,
            r#""first_gap":"b"}"#,
        ]
        .concat()
    );
    let none = json_report(&DoctorReport { checks: vec![], first_gap: None });
    assert_eq!(none, "{}");
    let full: serde_json::Value =
        serde_json::from_str(&json_report(&DoctorReport::run(&good_probes())))
            .expect("parse");
    let names: Vec<&String> = full.as_object().expect("object").keys().collect();
    assert_eq!(names, vec!["boot-arm", "bpf-fs", "btf", "capability", "lsm-list"]);
}
