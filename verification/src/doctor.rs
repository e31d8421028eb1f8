//! Why is the enforcer inert?
//!
//! Each precondition for the LSM hook to arm is judged as `ok`, `gap` or
//! `unknown` from what a read-only probe observed. Nothing here touches the
//! system: the observations come in as plain values, the judgement goes out.
//!
//! The checks, in order: `lsm-list`, `btf`, `capability`, `bpf-fs`, `boot-arm`.

use vstd::prelude::*;

use crate::bpf::{BPF_ROOT, LOADED_PIN};
use crate::json;
use crate::json::{no_members, object_value, pretty_text, set_member, string_value};
use crate::text;
use crate::text::{
    find_with_prefix, from_chars, hex_to_u64, padded, push_decimal, push_hex, replaced, same,
    same_str, slice_of, split, split_lines, split_words, stripped, to_chars, trimmed, Separator,
};

verus! {

/// The verdict for a single precondition check.
#[derive(Debug, Clone, Copy, PartialEq, Eq, Structural)]
pub enum Verdict {
    /// The condition is satisfied.
    Okay,
    /// The condition is not satisfied: a concrete activation gap.
    Gap,
    /// Could not be determined, for instance for want of permission.
    Unknown,
}

/// The word for a verdict.
pub open spec fn verdict_word(v: Verdict) -> Seq<char> {
    match v {
        Verdict::Okay => "ok"@,
        Verdict::Gap => "gap"@,
        Verdict::Unknown => "unknown"@,
    }
}

impl Verdict {
    /// The word for this verdict.
    pub fn to_string(&self) -> (r: String)
        ensures
            r@ == verdict_word(*self),
    {
        match self {
            Verdict::Okay => "ok".to_owned(),
            Verdict::Gap => "gap".to_owned(),
            Verdict::Unknown => "unknown".to_owned(),
        }
    }
}

/// One precondition check result.
#[derive(Debug, Clone)]
pub struct Check {
    /// Short machine-readable name.
    pub name: String,
    /// Human label for the check.
    pub label: String,
    /// Whether the check passed.
    pub verdict: Verdict,
    /// The observed value or the reason.
    pub detail: String,
}

/// What a [`Check`] says.
pub struct CheckView {
    /// Short machine-readable name.
    pub name: Seq<char>,
    /// Human label for the check.
    pub label: Seq<char>,
    /// Whether the check passed.
    pub verdict: Verdict,
    /// The observed value or the reason.
    pub detail: Seq<char>,
}

impl View for Check {
    type V = CheckView;

    open spec fn view(&self) -> CheckView {
        CheckView {
            name: self.name@,
            label: self.label@,
            verdict: self.verdict,
            detail: self.detail@,
        }
    }
}

/// The check result with the given parts.
pub open spec fn judged(
    name: Seq<char>,
    label: Seq<char>,
    verdict: Verdict,
    detail: Seq<char>,
) -> CheckView {
    CheckView { name, label, verdict, detail }
}

impl Check {
    /// A check result with the given parts.
    pub fn new(name: &str, label: &str, verdict: Verdict, detail: String) -> (r: Self)
        ensures
            r@ == judged(name@, label@, verdict, detail@),
    {
        Check { name: name.to_owned(), label: label.to_owned(), verdict, detail }
    }

    /// A satisfied precondition.
    pub fn ok(name: &str, label: &str, detail: String) -> (r: Self)
        ensures
            r@ == judged(name@, label@, Verdict::Okay, detail@),
    {
        Check::new(name, label, Verdict::Okay, detail)
    }

    /// An activation gap.
    pub fn gap(name: &str, label: &str, detail: String) -> (r: Self)
        ensures
            r@ == judged(name@, label@, Verdict::Gap, detail@),
    {
        Check::new(name, label, Verdict::Gap, detail)
    }

    /// A precondition that could not be determined.
    pub fn unknown(name: &str, label: &str, detail: String) -> (r: Self)
        ensures
            r@ == judged(name@, label@, Verdict::Unknown, detail@),
    {
        Check::new(name, label, Verdict::Unknown, detail)
    }
}

// ---------------------------------------------------------------------------
// Kernel LSM list
// ---------------------------------------------------------------------------

/// Name of the LSM list check.
pub const LSM_NAME: &'static str = "lsm-list";
/// Label of the LSM list check.
pub const LSM_LABEL: &'static str = "Kernel LSM list includes 'bpf'";

/// The LSM list that the kernel command line asks for: the first word that
/// begins with `lsm=`, every leading `lsm=` taken off.
pub open spec fn cmdline_lsms(cmdline: Seq<char>) -> Option<Seq<char>> {
    match text::first_with_prefix(text::words(cmdline), "lsm="@) {
        Some(word) => Some(text::strip_all(word, "lsm="@)),
        None => None,
    }
}

/// The active LSM list: the kernel's own, else the one on the command line.
pub open spec fn active_lsms(
    security: Option<Seq<char>>,
    cmdline: Option<Seq<char>>,
) -> Option<Seq<char>> {
    match (security, cmdline) {
        (Some(list), _) => Some(list),
        (None, Some(line)) => cmdline_lsms(line),
        (None, None) => None,
    }
}

/// `bpf` is an entry of a comma-separated list, white space around it aside.
pub open spec fn lists_bpf(lsms: Seq<char>) -> bool {
    exists|i: int|
        0 <= i < text::pieces(lsms, Separator::Char(',')).len() && text::trim(
            #[trigger] text::pieces(lsms, Separator::Char(','))[i],
        ) == "bpf"@
}

/// The judgement on the LSM list.
pub open spec fn lsm_check(security: Option<Seq<char>>, cmdline: Option<Seq<char>>) -> CheckView {
    match active_lsms(security, cmdline) {
        None => judged(
            LSM_NAME@,
            LSM_LABEL@,
            Verdict::Unknown,
            "cannot read /sys/kernel/security/lsm or /proc/cmdline"@,
        ),
        Some(lsms) => if lists_bpf(lsms) {
            judged(LSM_NAME@, LSM_LABEL@, Verdict::Okay, "active lsms: "@ + lsms)
        } else {
            judged(
                LSM_NAME@,
                LSM_LABEL@,
                Verdict::Gap,
                "bpf not in active LSM list ["@ + lsms
                    + "]; add lsm=...,bpf to kernel cmdline"@,
            )
        },
    }
}

fn lsms_of_cmdline(cmdline: &str) -> (r: Option<String>)
    ensures
        text::opt_text(r) == cmdline_lsms(cmdline@),
{
    let marker = to_chars("lsm=");
    let words = split_words(&to_chars(cmdline));
    match find_with_prefix(&words, &marker) {
        Some(word) => Some(from_chars(&stripped(&word, &marker))),
        None => None,
    }
}

fn has_bpf_entry(lsms: &str) -> (r: bool)
    ensures
        r == lists_bpf(lsms@),
{
    let wanted = to_chars("bpf");
    let entries = split(&to_chars(lsms), Separator::Char(','));
    let ghost ps = text::pieces(lsms@, Separator::Char(','));
    for i in 0..entries.len()
        invariant
            wanted@ == "bpf"@,
            ps == text::pieces(lsms@, Separator::Char(',')),
            ps == text::texts(entries@),
            forall|j: int| 0 <= j < i ==> text::trim(#[trigger] ps[j]) != "bpf"@,
    {
        assert(ps[i as int] == entries@[i as int]@);
        if same(&trimmed(&entries[i]), &wanted) {
            return true;
        }
    }
    false
}

/// Is `bpf` in the active kernel LSM list?
///
/// `security` is `/sys/kernel/security/lsm` and `cmdline` is `/proc/cmdline`,
/// each where it could be read.
pub fn check_lsm_list(security: &Option<String>, cmdline: &Option<String>) -> (r: Check)
    ensures
        r@ == lsm_check(text::opt_text(*security), text::opt_text(*cmdline)),
{
    let active: Option<String> = match (security, cmdline) {
        (Some(list), _) => Some(list.clone()),
        (None, Some(line)) => lsms_of_cmdline(line.as_str()),
        (None, None) => None,
    };
    match active {
        None => Check::unknown(
            LSM_NAME,
            LSM_LABEL,
            "cannot read /sys/kernel/security/lsm or /proc/cmdline".to_owned(),
        ),
        Some(lsms) => {
            if has_bpf_entry(lsms.as_str()) {
                let mut detail = "active lsms: ".to_owned();
                detail.append(lsms.as_str());
                Check::ok(LSM_NAME, LSM_LABEL, detail)
            } else {
                let mut detail = "bpf not in active LSM list [".to_owned();
                detail.append(lsms.as_str());
                detail.append("]; add lsm=...,bpf to kernel cmdline");
                Check::gap(LSM_NAME, LSM_LABEL, detail)
            }
        },
    }
}

// ---------------------------------------------------------------------------
// Kernel type information
// ---------------------------------------------------------------------------

/// Name of the BTF check.
pub const BTF_NAME: &'static str = "btf";
/// Label of the BTF check.
pub const BTF_LABEL: &'static str = "BTF vmlinux available (CO-RE)";
/// Where the kernel exposes its own type information.
pub const BTF_PATH: &'static str = "/sys/kernel/btf/vmlinux";

/// What looking at a file gave.
#[derive(Debug, Clone)]
pub enum FileProbe {
    /// There is no such file.
    Missing,
    /// The file could not be looked at, for the given reason.
    Unreadable(String),
    /// The file is there, with the given length in bytes.
    Present(u64),
}

/// The judgement on the kernel's type information.
pub open spec fn btf_check(probe: FileProbe) -> CheckView {
    match probe {
        FileProbe::Missing => judged(
            BTF_NAME@,
            BTF_LABEL@,
            Verdict::Gap,
            BTF_PATH@ + " not found; kernel may lack BTF support"@,
        ),
        FileProbe::Unreadable(reason) => judged(
            BTF_NAME@,
            BTF_LABEL@,
            Verdict::Unknown,
            BTF_PATH@ + ": "@ + reason@,
        ),
        FileProbe::Present(bytes) => if bytes > 0 {
            judged(
                BTF_NAME@,
                BTF_LABEL@,
                Verdict::Okay,
                BTF_PATH@ + " present ("@ + text::decimal(bytes as nat) + " bytes)"@,
            )
        } else {
            judged(BTF_NAME@, BTF_LABEL@, Verdict::Gap, BTF_PATH@ + " exists but is empty"@)
        },
    }
}

/// Is the kernel's type information present and not empty?
pub fn check_btf(probe: &FileProbe) -> (r: Check)
    ensures
        r@ == btf_check(*probe),
{
    let mut detail = BTF_PATH.to_owned();
    match probe {
        FileProbe::Missing => {
            detail.append(" not found; kernel may lack BTF support");
            Check::gap(BTF_NAME, BTF_LABEL, detail)
        },
        FileProbe::Unreadable(reason) => {
            detail.append(": ");
            detail.append(reason.as_str());
            Check::unknown(BTF_NAME, BTF_LABEL, detail)
        },
        FileProbe::Present(bytes) => {
            if *bytes > 0 {
                detail.append(" present (");
                push_decimal(&mut detail, *bytes);
                detail.append(" bytes)");
                Check::ok(BTF_NAME, BTF_LABEL, detail)
            } else {
                detail.append(" exists but is empty");
                Check::gap(BTF_NAME, BTF_LABEL, detail)
            }
        },
    }
}

// ---------------------------------------------------------------------------
// Capabilities
// ---------------------------------------------------------------------------

/// Name of the capability check.
pub const CAP_NAME: &'static str = "capability";
/// Label of the capability check.
pub const CAP_LABEL: &'static str = "Invoking user has CAP_BPF or CAP_SYS_ADMIN";
/// The mask of `CAP_SYS_ADMIN`, bit 21.
pub const CAP_SYS_ADMIN_BIT: u64 = 0x20_0000;
/// The mask of `CAP_BPF`, bit 39.
pub const CAP_BPF_BIT: u64 = 0x80_0000_0000;

/// The effective capabilities that a process status shows: the second word of
/// the first line that begins with `CapEff:`, in base sixteen.
pub open spec fn effective_caps(status: Seq<char>) -> Option<u64> {
    match text::first_with_prefix(text::lines(status), "CapEff:"@) {
        Some(line) => if text::words(line).len() > 1 {
            text::parse_hex(text::words(line)[1])
        } else {
            None
        },
        None => None,
    }
}

/// The bit that `mask`, a power of two, selects is set.
pub open spec fn bit_set(caps: u64, mask: u64) -> bool {
    (caps / mask) % 2 == 1
}

/// The judgement on the capabilities in a process status, where it could be read.
pub open spec fn capability_check(status: Option<Seq<char>>) -> CheckView {
    let caps = match status {
        Some(s) => effective_caps(s),
        None => None,
    };
    match caps {
        None => judged(
            CAP_NAME@,
            CAP_LABEL@,
            Verdict::Unknown,
            "cannot parse /proc/self/status CapEff"@,
        ),
        Some(c) => if bit_set(c, CAP_BPF_BIT) {
            judged(
                CAP_NAME@,
                CAP_LABEL@,
                Verdict::Okay,
                "has "@ + "CAP_BPF"@ + " (CapEff=0x"@ + text::hex(c as nat, 16) + ")"@,
            )
        } else if bit_set(c, CAP_SYS_ADMIN_BIT) {
            judged(
                CAP_NAME@,
                CAP_LABEL@,
                Verdict::Okay,
                "has "@ + "CAP_SYS_ADMIN"@ + " (CapEff=0x"@ + text::hex(c as nat, 16) + ")"@,
            )
        } else {
            judged(
                CAP_NAME@,
                CAP_LABEL@,
                Verdict::Gap,
                "neither CAP_BPF nor CAP_SYS_ADMIN set (CapEff=0x"@ + text::hex(c as nat, 16)
                    + "); run as root or grant CAP_BPF"@,
            )
        },
    }
}

fn caps_of_status(status: &str) -> (r: Option<u64>)
    ensures
        r == effective_caps(status@),
{
    let lines = split_lines(&to_chars(status));
    match find_with_prefix(&lines, &to_chars("CapEff:")) {
        Some(line) => {
            let words = split_words(&line);
            assert(words@.len() == text::words(line@).len());
            if words.len() > 1 {
                assert(words@[1]@ == text::words(line@)[1]);
                hex_to_u64(&words[1])
            } else {
                None
            }
        },
        None => None,
    }
}

/// Does the invoking user hold `CAP_BPF` or `CAP_SYS_ADMIN`?
///
/// `status` is `/proc/self/status`, where it could be read.
pub fn check_capability(status: &Option<String>) -> (r: Check)
    ensures
        r@ == capability_check(text::opt_text(*status)),
{
    let caps: Option<u64> = match status {
        Some(s) => caps_of_status(s.as_str()),
        None => None,
    };
    match caps {
        None => Check::unknown(
            CAP_NAME,
            CAP_LABEL,
            "cannot parse /proc/self/status CapEff".to_owned(),
        ),
        Some(c) => {
            let has_bpf = (c & CAP_BPF_BIT) != 0;
            let has_admin = (c & CAP_SYS_ADMIN_BIT) != 0;
            assert(((c & 0x80_0000_0000u64) != 0) == ((c / 0x80_0000_0000u64) % 2 == 1))
                by (bit_vector);
            assert(((c & 0x20_0000u64) != 0) == ((c / 0x20_0000u64) % 2 == 1)) by (bit_vector);
            if has_bpf || has_admin {
                let mut detail = "has ".to_owned();
                if has_bpf {
                    detail.append("CAP_BPF");
                } else {
                    detail.append("CAP_SYS_ADMIN");
                }
                detail.append(" (CapEff=0x");
                push_hex(&mut detail, c, 16);
                detail.append(")");
                Check::ok(CAP_NAME, CAP_LABEL, detail)
            } else {
                let mut detail = "neither CAP_BPF nor CAP_SYS_ADMIN set (CapEff=0x".to_owned();
                push_hex(&mut detail, c, 16);
                detail.append("); run as root or grant CAP_BPF");
                Check::gap(CAP_NAME, CAP_LABEL, detail)
            }
        },
    }
}

// ---------------------------------------------------------------------------
// BPF filesystem
// ---------------------------------------------------------------------------

/// Name of the BPF filesystem check.
pub const BPFFS_NAME: &'static str = "bpf-fs";
/// Label of the BPF filesystem check.
pub const BPFFS_LABEL: &'static str = "BPF filesystem mounted and pin root accessible";
/// Where the BPF filesystem is mounted.
pub const BPFFS: &'static str = "/sys/fs/bpf";

/// The word at position `i`, empty where there are not so many.
pub open spec fn word_or_empty(ws: Seq<Seq<char>>, i: int) -> Seq<char> {
    if i < ws.len() {
        ws[i]
    } else {
        Seq::empty()
    }
}

/// A line of the mount table mounts a `bpf` filesystem at [`BPFFS`].
pub open spec fn mounts_bpffs(line: Seq<char>) -> bool {
    &&& word_or_empty(text::words(line), 1) == BPFFS@
    &&& word_or_empty(text::words(line), 2) == "bpf"@
}

/// Some line of the mount table mounts a `bpf` filesystem at [`BPFFS`].
pub open spec fn bpffs_mounted(mounts: Seq<char>) -> bool {
    exists|i: int|
        0 <= i < text::lines(mounts).len() && mounts_bpffs(#[trigger] text::lines(mounts)[i])
}

/// The judgement on the BPF filesystem.
pub open spec fn bpf_fs_check(mounts: Seq<char>, pin: bool, root: bool) -> CheckView {
    if !bpffs_mounted(mounts) {
        judged(
            BPFFS_NAME@,
            BPFFS_LABEL@,
            Verdict::Gap,
            BPFFS@ + " not mounted as bpf type; try: mount -t bpf bpf /sys/fs/bpf"@,
        )
    } else if pin {
        judged(
            BPFFS_NAME@,
            BPFFS_LABEL@,
            Verdict::Okay,
            "bpffs mounted at "@ + BPFFS@ + "; enforcer pin "@ + LOADED_PIN@ + " present"@,
        )
    } else if root {
        judged(
            BPFFS_NAME@,
            BPFFS_LABEL@,
            Verdict::Gap,
            "bpffs mounted at "@ + BPFFS@ + "; "@ + BPF_ROOT@ + " exists but enforcer pin "@
                + LOADED_PIN@ + " missing"@,
        )
    } else {
        judged(
            BPFFS_NAME@,
            BPFFS_LABEL@,
            Verdict::Okay,
            "bpffs mounted at "@ + BPFFS@ + " (enforcer not yet pinned)"@,
        )
    }
}

fn line_mounts_bpffs(line: &Vec<char>) -> (r: bool)
    ensures
        r == mounts_bpffs(line@),
{
    let words = split_words(line);
    let ghost ws = text::words(line@);
    assert(words@.len() == ws.len());
    proof {
        reveal_strlit("/sys/fs/bpf");
        reveal_strlit("bpf");
    }
    if words.len() < 3 {
        assert(word_or_empty(ws, 2).len() == 0);
        return false;
    }
    assert(words@[1]@ == ws[1] && words@[2]@ == ws[2]);
    same(&words[1], &to_chars(BPFFS)) && same(&words[2], &to_chars("bpf"))
}

fn has_bpffs_mount(mounts: &str) -> (r: bool)
    ensures
        r == bpffs_mounted(mounts@),
{
    let lines = split_lines(&to_chars(mounts));
    let ghost ls = text::lines(mounts@);
    for i in 0..lines.len()
        invariant
            ls == text::lines(mounts@),
            ls == text::texts(lines@),
            forall|j: int| 0 <= j < i ==> !mounts_bpffs(#[trigger] ls[j]),
    {
        assert(ls[i as int] == lines@[i as int]@);
        if line_mounts_bpffs(&lines[i]) {
            return true;
        }
    }
    false
}

/// Is the BPF filesystem mounted and the pin root in order?
///
/// `mounts` is `/proc/mounts`, empty where it could not be read; `pin` and
/// `root` say whether [`LOADED_PIN`] and [`BPF_ROOT`] exist.
pub fn check_bpf_fs(mounts: &str, pin: bool, root: bool) -> (r: Check)
    ensures
        r@ == bpf_fs_check(mounts@, pin, root),
{
    if !has_bpffs_mount(mounts) {
        let mut detail = BPFFS.to_owned();
        detail.append(" not mounted as bpf type; try: mount -t bpf bpf /sys/fs/bpf");
        return Check::gap(BPFFS_NAME, BPFFS_LABEL, detail);
    }
    let mut detail = "bpffs mounted at ".to_owned();
    detail.append(BPFFS);
    if pin {
        detail.append("; enforcer pin ");
        detail.append(LOADED_PIN);
        detail.append(" present");
        Check::ok(BPFFS_NAME, BPFFS_LABEL, detail)
    } else if root {
        detail.append("; ");
        detail.append(BPF_ROOT);
        detail.append(" exists but enforcer pin ");
        detail.append(LOADED_PIN);
        detail.append(" missing");
        Check::gap(BPFFS_NAME, BPFFS_LABEL, detail)
    } else {
        detail.append(" (enforcer not yet pinned)");
        Check::ok(BPFFS_NAME, BPFFS_LABEL, detail)
    }
}

// ---------------------------------------------------------------------------
// Boot-time arming
// ---------------------------------------------------------------------------

/// Name of the boot-arm check.
pub const BOOT_NAME: &'static str = "boot-arm";
/// Label of the boot-arm check.
pub const BOOT_LABEL: &'static str = "Boot-time arming unit configured and ran";

/// The value of `key` in `Key=Value` lines: what follows `key=` in the first
/// line that begins with it.
pub open spec fn property(props: Seq<char>, key: Seq<char>) -> Option<Seq<char>> {
    match text::first_with_prefix(text::lines(props), key.push('=')) {
        Some(line) => Some(line.skip(key.len() as int + 1)),
        None => None,
    }
}

/// The value of `key` in the output of `systemctl show`.
pub fn prop_value(props: &str, key: &str) -> (r: Option<String>)
    ensures
        text::opt_text(r) == property(props@, key@),
{
    let mut marker = to_chars(key);
    marker.push('=');
    let lines = split_lines(&to_chars(props));
    proof {
        text::lemma_first_with_prefix(text::lines(props@), marker@);
    }
    match find_with_prefix(&lines, &marker) {
        Some(line) => {
            let value = slice_of(&line, marker.len(), line.len());
            assert(value@ =~= line@.skip(key@.len() as int + 1));
            Some(from_chars(&value))
        },
        None => None,
    }
}

/// A unit to ask `systemctl show` about.
#[derive(Debug, Clone)]
pub struct UnitQuery {
    /// The unit's name.
    pub unit: String,
    /// Whether it is the user's own service manager that is asked.
    pub user: bool,
}

/// How many queries there are: three units, asked of two service managers.
pub const UNIT_QUERIES: usize = 6;

/// The unit that the query at position `i` asks about.
pub open spec fn query_unit(i: int) -> Seq<char> {
    if i % 3 == 0 {
        "bpolicy-arm.service"@
    } else if i % 3 == 1 {
        "bpolicy.service"@
    } else {
        "bpolicy-load.service"@
    }
}

/// The query at position `i` asks the user's own service manager.
pub open spec fn query_user(i: int) -> bool {
    i < 3
}

/// The query at position `i`.
pub fn unit_query(i: usize) -> (r: UnitQuery)
    requires
        i < UNIT_QUERIES,
    ensures
        r.unit@ == query_unit(i as int),
        r.user == query_user(i as int),
{
    let unit = if i % 3 == 0 {
        "bpolicy-arm.service"
    } else if i % 3 == 1 {
        "bpolicy.service"
    } else {
        "bpolicy-load.service"
    };
    UnitQuery { unit: unit.to_owned(), user: i < 3 }
}

impl UnitQuery {
    /// The arguments for `systemctl`.
    pub open spec fn arguments(self) -> Seq<Seq<char>> {
        if self.user {
            seq![
                "--user"@,
                "show"@,
                self.unit@,
                "--property=LoadState,ActiveState,SubState"@,
            ]
        } else {
            seq!["show"@, self.unit@, "--property=LoadState,ActiveState,SubState"@]
        }
    }

    /// The arguments for `systemctl`.
    pub fn args(&self) -> (r: Vec<String>)
        ensures
            text::strings(r@) == self.arguments(),
    {
        let mut args: Vec<String> = Vec::new();
        if self.user {
            args.push("--user".to_owned());
        }
        args.push("show".to_owned());
        args.push(self.unit.clone());
        args.push("--property=LoadState,ActiveState,SubState".to_owned());
        assert(text::strings(args@) =~= self.arguments());
        args
    }
}

/// The value of a property, empty where it is absent.
pub open spec fn property_or_empty(props: Seq<char>, key: Seq<char>) -> Seq<char> {
    match property(props, key) {
        Some(v) => v,
        None => Seq::empty(),
    }
}

/// The service manager knows the unit.
pub open spec fn unit_found(props: Seq<char>) -> bool {
    match property(props, "LoadState"@) {
        Some(state) => state != "not-found"@,
        None => false,
    }
}

/// The unit is active, or ran and exited.
pub open spec fn unit_ran(props: Seq<char>) -> bool {
    ||| property_or_empty(props, "ActiveState"@) == "active"@
    ||| property_or_empty(props, "SubState"@) == "exited"@
}

/// What the output of the query at position `i` decides; nothing where the
/// query failed or the unit is not known.
pub open spec fn unit_check(i: int, output: Option<Seq<char>>) -> Option<CheckView> {
    match output {
        None => None,
        Some(props) => if !unit_found(props) {
            None
        } else {
            let unit = query_unit(i);
            let states = "active="@ + property_or_empty(props, "ActiveState"@) + " sub="@
                + property_or_empty(props, "SubState"@);
            if unit_ran(props) {
                Some(
                    judged(
                        BOOT_NAME@,
                        BOOT_LABEL@,
                        Verdict::Okay,
                        if query_user(i) {
                            unit + " "@ + states
                        } else {
                            unit + " (system) "@ + states
                        },
                    ),
                )
            } else {
                Some(
                    judged(
                        BOOT_NAME@,
                        BOOT_LABEL@,
                        Verdict::Gap,
                        if query_user(i) {
                            unit + " found but "@ + states + "; check: journalctl --user -u "@
                                + unit
                        } else {
                            unit + " (system) found but "@ + states
                        },
                    ),
                )
            }
        },
    }
}

/// The outputs of the queries asked so far, in order.
pub open spec fn outputs_view(outputs: Seq<Option<String>>) -> Seq<Option<Seq<char>>> {
    outputs.map_values(|o: Option<String>| text::opt_text(o))
}

/// What the first decisive output from position `i` on decides.
pub open spec fn first_decision(outputs: Seq<Option<Seq<char>>>, i: int) -> Option<CheckView>
    decreases outputs.len() - i,
{
    if i < 0 || i >= outputs.len() || i >= UNIT_QUERIES {
        None
    } else if unit_check(i, outputs[i]) is Some {
        unit_check(i, outputs[i])
    } else {
        first_decision(outputs, i + 1)
    }
}

/// The judgement on boot-time arming.
pub open spec fn boot_arm_check(outputs: Seq<Option<Seq<char>>>, loaded: bool) -> CheckView {
    match first_decision(outputs, 0) {
        Some(check) => check,
        None => if loaded {
            judged(
                BOOT_NAME@,
                BOOT_LABEL@,
                Verdict::Okay,
                "no boot-arm unit found but enforcer is currently loaded"@,
            )
        } else {
            judged(
                BOOT_NAME@,
                BOOT_LABEL@,
                Verdict::Gap,
                "no bpolicy boot-arm systemd unit found; enforcer is not armed at boot"@,
            )
        },
    }
}

/// Judges the output of the query at position `i`.
pub fn judge_unit(i: usize, output: &Option<String>) -> (r: Option<Check>)
    requires
        i < UNIT_QUERIES,
    ensures
        r is Some == unit_check(i as int, text::opt_text(*output)) is Some,
        r matches Some(check) ==> unit_check(i as int, text::opt_text(*output)) == Some(check@),
{
    let props = match output {
        None => {
            return None;
        },
        Some(props) => props.as_str(),
    };
    match prop_value(props, "LoadState") {
        None => {
            return None;
        },
        Some(state) => {
            if same_str(state.as_str(), "not-found") {
                return None;
            }
        },
    }
    let query = unit_query(i);
    let active = match prop_value(props, "ActiveState") {
        Some(v) => v,
        None => String::new(),
    };
    let sub = match prop_value(props, "SubState") {
        Some(v) => v,
        None => String::new(),
    };
    let mut states = "active=".to_owned();
    states.append(active.as_str());
    states.append(" sub=");
    states.append(sub.as_str());
    let mut detail = query.unit.clone();
    if same_str(active.as_str(), "active") || same_str(sub.as_str(), "exited") {
        if query.user {
            detail.append(" ");
        } else {
            detail.append(" (system) ");
        }
        detail.append(states.as_str());
        Some(Check::ok(BOOT_NAME, BOOT_LABEL, detail))
    } else {
        if query.user {
            detail.append(" found but ");
            detail.append(states.as_str());
            detail.append("; check: journalctl --user -u ");
            detail.append(query.unit.as_str());
        } else {
            detail.append(" (system) found but ");
            detail.append(states.as_str());
        }
        Some(Check::gap(BOOT_NAME, BOOT_LABEL, detail))
    }
}

fn first_decided(outputs: &Vec<Option<String>>) -> (r: Option<Check>)
    ensures
        r is Some == first_decision(outputs_view(outputs@), 0) is Some,
        r matches Some(check) ==> first_decision(outputs_view(outputs@), 0) == Some(check@),
{
    let ghost seen = outputs_view(outputs@);
    let mut i: usize = 0;
    while i < outputs.len() && i < UNIT_QUERIES
        invariant
            i <= outputs@.len(),
            i <= UNIT_QUERIES,
            seen == outputs_view(outputs@),
            first_decision(seen, 0) == first_decision(seen, i as int),
        decreases UNIT_QUERIES - i,
    {
        assert(seen[i as int] == text::opt_text(outputs@[i as int]));
        let found = judge_unit(i, &outputs[i]);
        if found.is_some() {
            return found;
        }
        i = i + 1;
    }
    None
}

/// The next unit to ask about, given the outputs so far; none once an output
/// has decided or every query has been asked.
pub fn next_unit_query(outputs: &Vec<Option<String>>) -> (r: Option<UnitQuery>)
    ensures
        r is Some == (first_decision(outputs_view(outputs@), 0) is None && outputs@.len()
            < UNIT_QUERIES),
        r matches Some(query) ==> query.unit@ == query_unit(outputs@.len() as int) && query.user
            == query_user(outputs@.len() as int),
{
    if outputs.len() >= UNIT_QUERIES {
        return None;
    }
    match first_decided(outputs) {
        Some(_) => None,
        None => Some(unit_query(outputs.len())),
    }
}

/// Is there a unit that arms the enforcer at boot, and did it run?
///
/// `outputs` are the outputs of the queries of [`next_unit_query`], in order,
/// `None` where `systemctl` could not be run; `loaded` says whether
/// [`LOADED_PIN`] exists.
pub fn check_boot_arm(outputs: &Vec<Option<String>>, loaded: bool) -> (r: Check)
    ensures
        r@ == boot_arm_check(outputs_view(outputs@), loaded),
{
    match first_decided(outputs) {
        Some(check) => check,
        None => {
            if loaded {
                Check::ok(
                    BOOT_NAME,
                    BOOT_LABEL,
                    "no boot-arm unit found but enforcer is currently loaded".to_owned(),
                )
            } else {
                Check::gap(
                    BOOT_NAME,
                    BOOT_LABEL,
                    "no bpolicy boot-arm systemd unit found; enforcer is not armed at boot".to_owned(),
                )
            }
        },
    }
}

// ---------------------------------------------------------------------------
// The report
// ---------------------------------------------------------------------------

/// What the read-only probes observed.
#[derive(Debug, Clone)]
pub struct Probes {
    /// `/sys/kernel/security/lsm`, where it could be read.
    pub lsm_security: Option<String>,
    /// `/proc/cmdline`, where it could be read.
    pub cmdline: Option<String>,
    /// [`BTF_PATH`].
    pub btf: FileProbe,
    /// `/proc/self/status`, where it could be read.
    pub self_status: Option<String>,
    /// `/proc/mounts`, empty where it could not be read.
    pub mounts: String,
    /// Whether [`LOADED_PIN`] exists.
    pub loaded_pin: bool,
    /// Whether [`BPF_ROOT`] exists.
    pub bpf_root: bool,
    /// The outputs of the unit queries, in the order of [`next_unit_query`].
    pub unit_outputs: Vec<Option<String>>,
}

/// The five judgements on what the probes observed, in order.
pub open spec fn all_checks(probes: Probes) -> Seq<CheckView> {
    seq![
        lsm_check(text::opt_text(probes.lsm_security), text::opt_text(probes.cmdline)),
        btf_check(probes.btf),
        capability_check(text::opt_text(probes.self_status)),
        bpf_fs_check(probes.mounts@, probes.loaded_pin, probes.bpf_root),
        boot_arm_check(outputs_view(probes.unit_outputs@), probes.loaded_pin),
    ]
}

/// The name of the first check whose verdict is a gap.
pub open spec fn gap_name(checks: Seq<CheckView>) -> Option<Seq<char>>
    decreases checks.len(),
{
    if checks.len() == 0 {
        None
    } else if checks.first().verdict == Verdict::Gap {
        Some(checks.first().name)
    } else {
        gap_name(checks.drop_first())
    }
}

/// What a sequence of checks says.
pub open spec fn checks_view(checks: Seq<Check>) -> Seq<CheckView> {
    checks.map_values(|c: Check| c@)
}

/// The full doctor report.
#[derive(Debug)]
pub struct DoctorReport {
    /// Per-check results in probe order.
    pub checks: Vec<Check>,
    /// Name of the first gap found, `None` if all are `ok` or `unknown`.
    pub first_gap: Option<String>,
}

/// The name of the first check whose verdict is a gap.
pub fn find_gap(checks: &Vec<Check>) -> (r: Option<String>)
    ensures
        text::opt_text(r) == gap_name(checks_view(checks@)),
{
    let ghost all = checks_view(checks@);
    assert(all.skip(0) =~= all);
    for i in 0..checks.len()
        invariant
            all == checks_view(checks@),
            gap_name(all) == gap_name(all.skip(i as int)),
    {
        assert(all.skip(i as int).first() == checks@[i as int]@);
        assert(all.skip(i as int).drop_first() =~= all.skip(i + 1));
        if checks[i].verdict == Verdict::Gap {
            return Some(checks[i].name.clone());
        }
    }
    None
}

impl DoctorReport {
    /// Judges every precondition on what the probes observed.
    pub fn run(probes: &Probes) -> (r: Self)
        ensures
            checks_view(r.checks@) == all_checks(*probes),
            text::opt_text(r.first_gap) == gap_name(all_checks(*probes)),
    {
        let mut checks: Vec<Check> = Vec::new();
        checks.push(check_lsm_list(&probes.lsm_security, &probes.cmdline));
        checks.push(check_btf(&probes.btf));
        checks.push(check_capability(&probes.self_status));
        checks.push(check_bpf_fs(probes.mounts.as_str(), probes.loaded_pin, probes.bpf_root));
        checks.push(check_boot_arm(&probes.unit_outputs, probes.loaded_pin));
        assert(checks_view(checks@) =~= all_checks(*probes));
        let first_gap = find_gap(&checks);
        DoctorReport { checks, first_gap }
    }
}

// ---------------------------------------------------------------------------
// Output
// ---------------------------------------------------------------------------

/// Output format of the doctor.
#[derive(Debug, Clone, Copy, PartialEq, Eq, Structural)]
pub enum DoctorFormat {
    /// Human-readable, one line per check.
    Human,
    /// JSON object keyed by check name.
    Json,
    /// Single `docket report` command line for the first gap.
    Docket,
}

/// The format that a name stands for.
pub open spec fn format_named(name: Seq<char>) -> Option<DoctorFormat> {
    if name == "human"@ {
        Some(DoctorFormat::Human)
    } else if name == "json"@ {
        Some(DoctorFormat::Json)
    } else if name == "docket"@ {
        Some(DoctorFormat::Docket)
    } else {
        None
    }
}

impl DoctorFormat {
    /// The format that `name` stands for, or a message that lists the choices.
    pub fn from_name(name: &str) -> (r: Result<DoctorFormat, String>)
        ensures
            match format_named(name@) {
                Some(format) => r == Ok::<DoctorFormat, String>(format),
                None => r is Err && r->Err_0@ == "unknown format `"@ + name@
                    + "`; choose human | json | docket"@,
            },
    {
        if same_str(name, "human") {
            Ok(DoctorFormat::Human)
        } else if same_str(name, "json") {
            Ok(DoctorFormat::Json)
        } else if same_str(name, "docket") {
            Ok(DoctorFormat::Docket)
        } else {
            let mut message = "unknown format `".to_owned();
            message.append(name);
            message.append("`; choose human | json | docket");
            Err(message)
        }
    }
}

impl std::str::FromStr for DoctorFormat {
    type Err = String;

    /// The format that `s` stands for, or a message that lists the choices.
    fn from_str(s: &str) -> (r: Result<DoctorFormat, String>)
        ensures
            match format_named(s@) {
                Some(format) => r == Ok::<DoctorFormat, String>(format),
                None => r is Err && r->Err_0@ == "unknown format `"@ + s@
                    + "`; choose human | json | docket"@,
            },
    {
        DoctorFormat::from_name(s)
    }
}

/// The human-readable line for a check: the name filled up to twelve
/// characters, the verdict, the detail.
pub open spec fn human_line_of(check: CheckView) -> Seq<char> {
    text::pad_right(check.name, 12) + " "@ + verdict_word(check.verdict) + " "@ + check.detail
}

/// The human-readable line for a check.
pub fn human_line(check: &Check) -> (r: String)
    ensures
        r@ == human_line_of(check@),
{
    let mut line = padded(check.name.as_str(), 12);
    line.append(" ");
    line.append(check.verdict.to_string().as_str());
    line.append(" ");
    line.append(check.detail.as_str());
    line
}

/// The single line that files the first gap, or a comment where there is none.
pub open spec fn docket_line_of(gap: Option<Seq<char>>) -> Seq<char> {
    match gap {
        Some(name) => "docket report --key warden-enforcer-inert --evidence cause:"@
            + text::replace_char(name, ' ', '_'),
        None => "# bpolicy doctor: no gaps found — all checks ok or unknown"@,
    }
}

/// The single line that files the first gap, or a comment where there is none.
pub fn docket_line(report: &DoctorReport) -> (r: String)
    ensures
        r@ == docket_line_of(text::opt_text(report.first_gap)),
{
    match &report.first_gap {
        Some(gap) => {
            let mut line = "docket report --key warden-enforcer-inert --evidence cause:".to_owned();
            line.append(replaced(gap.as_str(), ' ', '_').as_str());
            line
        },
        None => "# bpolicy doctor: no gaps found — all checks ok or unknown".to_owned(),
    }
}

/// The members of the object that a check is printed as.
pub open spec fn check_members(check: CheckView) -> Map<Seq<char>, Seq<char>> {
    map![
        "verdict"@ => json::json_string(verdict_word(check.verdict)),
        "detail"@ => json::json_string(check.detail),
        "label"@ => json::json_string(check.label),
    ]
}

/// The checks as objects, keyed by their names.
pub open spec fn checks_members(checks: Seq<CheckView>) -> Map<Seq<char>, Seq<char>>
    decreases checks.len(),
{
    if checks.len() == 0 {
        json::empty_members()
    } else {
        checks_members(checks.drop_last()).insert(
            checks.last().name,
            json::object_text(check_members(checks.last())),
        )
    }
}

/// The members of the object that a report is printed as: the checks keyed by
/// their names, and the first gap where there is one.
pub open spec fn report_members(checks: Seq<CheckView>, gap: Option<Seq<char>>) -> Map<
    Seq<char>,
    Seq<char>,
> {
    match gap {
        Some(name) => checks_members(checks).insert("first_gap"@, json::json_string(name)),
        None => checks_members(checks),
    }
}

fn check_value(check: &Check) -> (r: serde_json::Value)
    ensures
        json::value_text(r) == json::object_text(check_members(check@)),
{
    let mut m = no_members();
    set_member(&mut m, "verdict", string_value(check.verdict.to_string().as_str()));
    set_member(&mut m, "detail", string_value(check.detail.as_str()));
    set_member(&mut m, "label", string_value(check.label.as_str()));
    assert(json::members(m) =~= check_members(check@));
    object_value(m)
}

/// The report as a JSON object keyed by check name.
pub fn json_report(report: &DoctorReport) -> (r: String)
    ensures
        r@ == json::json_pretty(
            json::object_text(
                report_members(checks_view(report.checks@), text::opt_text(report.first_gap)),
            ),
        ),
{
    let ghost all = checks_view(report.checks@);
    let mut m = no_members();
    assert(all.take(0) =~= Seq::empty());
    for i in 0..report.checks.len()
        invariant
            all == checks_view(report.checks@),
            json::members(m) == checks_members(all.take(i as int)),
    {
        let check = &report.checks[i];
        assert(all.take(i + 1).drop_last() =~= all.take(i as int));
        assert(all.take(i + 1).last() == check@);
        set_member(&mut m, check.name.as_str(), check_value(check));
    }
    assert(all.take(all.len() as int) =~= all);
    if let Some(gap) = &report.first_gap {
        set_member(&mut m, "first_gap", string_value(gap.as_str()));
    }
    pretty_text(&object_value(m))
}

/// What the doctor prints in the given format for the given checks: the texts,
/// one after the other.
pub open spec fn printed(format: DoctorFormat, checks: Seq<CheckView>) -> Seq<Seq<char>> {
    match format {
        DoctorFormat::Human => checks.map_values(|c: CheckView| human_line_of(c)),
        DoctorFormat::Json => seq![
            json::json_pretty(json::object_text(report_members(checks, gap_name(checks)))),
        ],
        DoctorFormat::Docket => seq![docket_line_of(gap_name(checks))],
    }
}

fn human_lines(checks: &Vec<Check>) -> (r: Vec<String>)
    ensures
        text::strings(r@) == checks_view(checks@).map_values(|c: CheckView| human_line_of(c)),
{
    let mut lines: Vec<String> = Vec::new();
    let ghost wanted = checks_view(checks@).map_values(|c: CheckView| human_line_of(c));
    for i in 0..checks.len()
        invariant
            wanted == checks_view(checks@).map_values(|c: CheckView| human_line_of(c)),
            text::strings(lines@) =~= wanted.take(i as int),
    {
        let ghost before = lines@;
        let line = human_line(&checks[i]);
        assert(line@ == wanted[i as int]);
        lines.push(line);
        assert(text::strings(lines@) =~= text::strings(before).push(line@));
    }
    assert(wanted.take(wanted.len() as int) =~= wanted);
    lines
}

/// Runs the doctor on what the probes observed: the texts to print, one after
/// the other.
pub fn cmd_doctor(format: DoctorFormat, probes: &Probes) -> (r: Vec<String>)
    ensures
        text::strings(r@) == printed(format, all_checks(*probes)),
{
    let report = DoctorReport::run(probes);
    let text = match format {
        DoctorFormat::Human => {
            return human_lines(&report.checks);
        },
        DoctorFormat::Json => json_report(&report),
        DoctorFormat::Docket => docket_line(&report),
    };
    let mut texts: Vec<String> = Vec::new();
    texts.push(text);
    assert(text::strings(texts@) =~= seq![text@]);
    texts
}

// ---------------------------------------------------------------------------
// Laws
// ---------------------------------------------------------------------------

/// The check at position `i` is the first one whose verdict is a gap.
pub open spec fn first_gap_at(checks: Seq<CheckView>, i: int) -> bool {
    &&& 0 <= i < checks.len()
    &&& checks[i].verdict == Verdict::Gap
    &&& forall|j: int| 0 <= j < i ==> (#[trigger] checks[j]).verdict != Verdict::Gap
}

/// The gap that a report names is the first one in probe order, and a report
/// names one exactly when some check is a gap.
pub proof fn law_first_gap(checks: Seq<CheckView>)
    ensures
        gap_name(checks) is None <==> forall|j: int|
            0 <= j < checks.len() ==> (#[trigger] checks[j]).verdict != Verdict::Gap,
        gap_name(checks) matches Some(name) ==> exists|i: int|
            #[trigger] first_gap_at(checks, i) && checks[i].name == name,
    decreases checks.len(),
{
    if checks.len() > 0 {
        let rest = checks.drop_first();
        assert(forall|j: int| 0 <= j < rest.len() ==> rest[j] == checks[j + 1]);
        if checks.first().verdict == Verdict::Gap {
            assert(first_gap_at(checks, 0));
        } else {
            law_first_gap(rest);
            if gap_name(rest) is None {
                assert forall|j: int| 0 <= j < checks.len() implies (#[trigger] checks[j]).verdict
                    != Verdict::Gap by {
                    if j > 0 {
                        assert(rest[j - 1] == checks[j]);
                    }
                }
            } else {
                let name = gap_name(rest)->0;
                let i = choose|i: int| #[trigger] first_gap_at(rest, i) && rest[i].name == name;
                assert forall|j: int| 0 <= j < i + 1 implies (#[trigger] checks[j]).verdict
                    != Verdict::Gap by {
                    if j > 0 {
                        assert(rest[j - 1] == checks[j]);
                    }
                }
                assert(first_gap_at(checks, i + 1));
            }
        }
    }
}

/// A decision on boot-time arming carries the name of its check and a detail
/// that begins with the unit's name.
proof fn lemma_decision(outputs: Seq<Option<Seq<char>>>, i: int)
    requires
        0 <= i,
    ensures
        first_decision(outputs, i) matches Some(check) ==> check.name == BOOT_NAME@
            && check.detail.len() > 0,
    decreases outputs.len() - i,
{
    reveal_strlit("bpolicy-arm.service");
    reveal_strlit("bpolicy.service");
    reveal_strlit("bpolicy-load.service");
    if i < outputs.len() && i < UNIT_QUERIES && unit_check(i, outputs[i]) is None {
        lemma_decision(outputs, i + 1);
    }
}

/// Every report has the five checks, under their names and in their order.
pub proof fn law_five_checks(probes: Probes)
    ensures
        all_checks(probes).map_values(|c: CheckView| c.name) == seq![
            "lsm-list"@,
            "btf"@,
            "capability"@,
            "bpf-fs"@,
            "boot-arm"@,
        ],
{
    lemma_decision(outputs_view(probes.unit_outputs@), 0);
    assert(all_checks(probes).map_values(|c: CheckView| c.name) =~= seq![
        "lsm-list"@,
        "btf"@,
        "capability"@,
        "bpf-fs"@,
        "boot-arm"@,
    ]);
}

proof fn lemma_keyed(checks: Seq<CheckView>, i: int)
    requires
        0 <= i < checks.len(),
        forall|j: int, k: int|
            0 <= j < k < checks.len() ==> (#[trigger] checks[j]).name != (#[trigger] checks[k]).name,
    ensures
        checks_members(checks).contains_key(checks[i].name),
        checks_members(checks)[checks[i].name] == json::object_text(check_members(checks[i])),
    decreases checks.len(),
{
    let rest = checks.drop_last();
    if i < rest.len() {
        assert forall|j: int, k: int| 0 <= j < k < rest.len() implies (#[trigger] rest[j]).name != (
        #[trigger] rest[k]).name by {
            assert(rest[j] == checks[j] && rest[k] == checks[k]);
        }
        lemma_keyed(rest, i);
        assert(rest[i] == checks[i]);
        assert(checks[i].name != checks[checks.len() - 1].name);
    }
}

/// The JSON report loses no check: each stands under its own name, beside the
/// first gap.
pub proof fn law_json_report_keyed(probes: Probes, gap: Option<Seq<char>>, i: int)
    requires
        0 <= i < 5,
    ensures
        report_members(all_checks(probes), gap).contains_key(all_checks(probes)[i].name),
        report_members(all_checks(probes), gap)[all_checks(probes)[i].name] == json::object_text(
            check_members(all_checks(probes)[i]),
        ),
{
    let checks = all_checks(probes);
    let names = checks.map_values(|c: CheckView| c.name);
    law_five_checks(probes);
    reveal_strlit("lsm-list");
    reveal_strlit("btf");
    reveal_strlit("capability");
    reveal_strlit("bpf-fs");
    reveal_strlit("boot-arm");
    reveal_strlit("first_gap");
    assert("lsm-list"@.len() == 8 && "btf"@.len() == 3 && "capability"@.len() == 10);
    assert("bpf-fs"@.len() == 6 && "boot-arm"@.len() == 8 && "first_gap"@.len() == 9);
    assert("lsm-list"@[0] == 'l' && "boot-arm"@[0] == 'b');
    assert forall|j: int, k: int| 0 <= j < k < checks.len() implies (#[trigger] checks[j]).name != (
    #[trigger] checks[k]).name by {
        assert(names[j] == checks[j].name && names[k] == checks[k].name);
    }
    assert(names[i] == checks[i].name);
    lemma_keyed(checks, i);
}

/// No check is reported without a detail.
pub proof fn law_detail_never_empty(probes: Probes, i: int)
    requires
        0 <= i < all_checks(probes).len(),
    ensures
        all_checks(probes)[i].detail.len() > 0,
{
    lemma_decision(outputs_view(probes.unit_outputs@), 0);
    reveal_strlit("cannot read /sys/kernel/security/lsm or /proc/cmdline");
    reveal_strlit("active lsms: ");
    reveal_strlit("bpf not in active LSM list [");
    reveal_strlit("/sys/kernel/btf/vmlinux");
    reveal_strlit("cannot parse /proc/self/status CapEff");
    reveal_strlit("has ");
    reveal_strlit("neither CAP_BPF nor CAP_SYS_ADMIN set (CapEff=0x");
    reveal_strlit("/sys/fs/bpf");
    reveal_strlit("bpffs mounted at ");
    reveal_strlit("no boot-arm unit found but enforcer is currently loaded");
    reveal_strlit("no bpolicy boot-arm systemd unit found; enforcer is not armed at boot");
}

proof fn lemma_early_stop(
    outputs: Seq<Option<Seq<char>>>,
    more: Seq<Option<Seq<char>>>,
    i: int,
)
    requires
        0 <= i,
        first_decision(outputs, i) is Some,
    ensures
        first_decision(outputs + more, i) == first_decision(outputs, i),
    decreases outputs.len() - i,
{
    assert((outputs + more)[i] == outputs[i]);
    if unit_check(i, outputs[i]) is None {
        lemma_early_stop(outputs, more, i + 1);
    }
}

/// Once an output has decided, asking further units changes nothing: the
/// judgement on boot-time arming is final when there is no next query.
pub proof fn law_early_stop(
    outputs: Seq<Option<Seq<char>>>,
    more: Seq<Option<Seq<char>>>,
    loaded: bool,
)
    requires
        first_decision(outputs, 0) is Some || outputs.len() >= UNIT_QUERIES,
    ensures
        boot_arm_check(outputs + more, loaded) == boot_arm_check(outputs, loaded),
{
    if first_decision(outputs, 0) is Some {
        lemma_early_stop(outputs, more, 0);
    } else {
        lemma_undecided(outputs, more, 0);
    }
}

proof fn lemma_undecided(outputs: Seq<Option<Seq<char>>>, more: Seq<Option<Seq<char>>>, i: int)
    requires
        0 <= i,
        first_decision(outputs, i) is None,
        outputs.len() >= UNIT_QUERIES,
    ensures
        first_decision(outputs + more, i) is None,
    decreases outputs.len() - i,
{
    if i < UNIT_QUERIES {
        assert((outputs + more)[i] == outputs[i]);
        lemma_undecided(outputs, more, i + 1);
    }
}

} // verus!
