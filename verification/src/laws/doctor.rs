//! Laws of the doctor: which observation gives which verdict, and what is said.

use vstd::prelude::*;

use crate::doctor;
use crate::doctor::{
    check_boot_arm, check_bpf_fs, check_btf, check_capability, check_lsm_list, cmd_doctor,
    docket_line, find_gap, human_line, json_report, judge_unit, next_unit_query, prop_value,
    unit_query, Check, DoctorFormat, DoctorReport, FileProbe, Probes, UnitQuery, Verdict,
};
use crate::json;
use crate::text;
use crate::text::Separator;

verus! {

/// A check says exactly this.
pub open spec fn says(
    check: Check,
    name: Seq<char>,
    label: Seq<char>,
    verdict: Verdict,
    detail: Seq<char>,
) -> bool {
    &&& check.name@ == name
    &&& check.label@ == label
    &&& check.verdict == verdict
    &&& check.detail@ == detail
}

/// Two checks say the same.
pub open spec fn alike(a: Check, b: Check) -> bool {
    &&& a.name@ == b.name@
    &&& a.label@ == b.label@
    &&& a.verdict == b.verdict
    &&& a.detail@ == b.detail@
}

/// The words for the verdicts.
pub proof fn law_verdict_words(v: &Verdict, r: String)
    requires
        call_ensures(Verdict::to_string, (v,), r),
    ensures
        *v == Verdict::Okay ==> r@ == "ok"@,
        *v == Verdict::Gap ==> r@ == "gap"@,
        *v == Verdict::Unknown ==> r@ == "unknown"@,
{
}

/// A check is made of what it is given, with the verdict it is named after.
pub proof fn law_checks_made(
    name: &str,
    label: &str,
    verdict: Verdict,
    detail: String,
    made: Check,
    ok: Check,
    gap: Check,
    unknown: Check,
)
    requires
        call_ensures(Check::new, (name, label, verdict, detail), made),
        call_ensures(Check::ok, (name, label, detail), ok),
        call_ensures(Check::gap, (name, label, detail), gap),
        call_ensures(Check::unknown, (name, label, detail), unknown),
    ensures
        says(made, name@, label@, verdict, detail@),
        says(ok, name@, label@, Verdict::Okay, detail@),
        says(gap, name@, label@, Verdict::Gap, detail@),
        says(unknown, name@, label@, Verdict::Unknown, detail@),
{
}

// ---------------------------------------------------------------------------
// LSM list
// ---------------------------------------------------------------------------

/// A list holds `bpf` where its first entry is that, white space aside, or the
/// rest of the list holds it.
pub proof fn law_lists_bpf(entry: Seq<char>, rest: Seq<char>)
    requires
        !entry.contains(','),
    ensures
        doctor::lists_bpf(entry) <==> text::trim(entry) == "bpf"@,
        doctor::lists_bpf(entry + seq![','] + rest) <==> text::trim(entry) == "bpf"@
            || doctor::lists_bpf(rest),
{
    let comma = Separator::Char(',');
    crate::laws::text::law_pieces(entry, ',', rest);
    assert(entry + seq![','] + rest =~= entry.push(',') + rest);
    let one = text::pieces(entry, comma);
    let tail = text::pieces(rest, comma);
    let all = text::pieces(entry + seq![','] + rest, comma);
    assert(all == seq![entry] + tail);
    if text::trim(entry) == "bpf"@ {
        assert(one[0] == entry && all[0] == entry);
    }
    if doctor::lists_bpf(rest) {
        let i = choose|i: int| 0 <= i < tail.len() && text::trim(#[trigger] tail[i]) == "bpf"@;
        assert(all[i + 1] == tail[i]);
    }
    if doctor::lists_bpf(entry + seq![','] + rest) {
        let i = choose|i: int| 0 <= i < all.len() && text::trim(#[trigger] all[i]) == "bpf"@;
        if i > 0 {
            assert(tail[i - 1] == all[i]);
        }
    }
}

/// Whether the list holds `bpf` decides, and the list is told.
pub open spec fn judges_list(check: Check, list: Seq<char>) -> bool {
    if doctor::lists_bpf(list) {
        says(
            check,
            "lsm-list"@,
            "Kernel LSM list includes 'bpf'"@,
            Verdict::Okay,
            "active lsms: "@ + list,
        )
    } else {
        says(
            check,
            "lsm-list"@,
            "Kernel LSM list includes 'bpf'"@,
            Verdict::Gap,
            "bpf not in active LSM list ["@ + list + "]; add lsm=...,bpf to kernel cmdline"@,
        )
    }
}

/// The kernel's own list decides where it could be read. Else the command line
/// does, by the first of its words that begins with `lsm=`. Without either
/// nothing is known.
pub proof fn law_check_lsm_list(security: &Option<String>, cmdline: &Option<String>, r: Check)
    requires
        call_ensures(check_lsm_list, (security, cmdline), r),
    ensures
        *security matches Some(list) ==> judges_list(r, list@),
        *security is None ==> (*cmdline matches Some(line) ==> (text::first_with_prefix(
            text::words(line@),
            "lsm="@,
        ) matches Some(word) ==> judges_list(r, text::strip_all(word, "lsm="@)))),
        *security is None && (*cmdline matches Some(line) ==> text::first_with_prefix(
            text::words(line@),
            "lsm="@,
        ) is None) ==> says(
            r,
            "lsm-list"@,
            "Kernel LSM list includes 'bpf'"@,
            Verdict::Unknown,
            "cannot read /sys/kernel/security/lsm or /proc/cmdline"@,
        ),
{
}

// ---------------------------------------------------------------------------
// Kernel type information
// ---------------------------------------------------------------------------

/// A file that is there and not empty is fine, one that is missing or empty is a
/// gap, and one that cannot be looked at is unknown.
pub proof fn law_check_btf(probe: &FileProbe, r: Check)
    requires
        call_ensures(check_btf, (probe,), r),
    ensures
        r.name@ == "btf"@ && r.label@ == "BTF vmlinux available (CO-RE)"@,
        *probe is Missing ==> r.verdict == Verdict::Gap && r.detail@ == "/sys/kernel/btf/vmlinux"@
            + " not found; kernel may lack BTF support"@,
        *probe matches FileProbe::Unreadable(why) ==> r.verdict == Verdict::Unknown && r.detail@
            == "/sys/kernel/btf/vmlinux"@ + ": "@ + why@,
        *probe matches FileProbe::Present(n) ==> n == 0 ==> r.verdict == Verdict::Gap && r.detail@
            == "/sys/kernel/btf/vmlinux"@ + " exists but is empty"@,
        *probe matches FileProbe::Present(n) ==> n > 0 ==> r.verdict == Verdict::Okay && r.detail@
            == "/sys/kernel/btf/vmlinux"@ + " present ("@ + text::decimal(n as nat) + " bytes)"@,
{
}

// ---------------------------------------------------------------------------
// Capabilities
// ---------------------------------------------------------------------------

/// The second word of the first line that begins with `CapEff:`.
pub open spec fn caps_word(status: Seq<char>) -> Option<Seq<char>> {
    match text::first_with_prefix(text::lines(status), "CapEff:"@) {
        Some(line) => if text::words(line).len() >= 2 {
            Some(text::words(line)[1])
        } else {
            None
        },
        None => None,
    }
}

/// Bit 39 or bit 21 of the effective capabilities is enough, and the first of
/// the two is named. Without a number to read nothing is known.
pub proof fn law_check_capability(status: &Option<String>, r: Check)
    requires
        call_ensures(check_capability, (status,), r),
    ensures
        r.name@ == "capability"@ && r.label@ == "Invoking user has CAP_BPF or CAP_SYS_ADMIN"@,
        (*status matches Some(s) ==> (caps_word(s@) matches Some(w) ==> text::parse_hex(w) is None))
            ==> r.verdict == Verdict::Unknown && r.detail@
            == "cannot parse /proc/self/status CapEff"@,
        *status matches Some(s) ==> (caps_word(s@) matches Some(w) ==> (text::parse_hex(
            w,
        ) matches Some(caps) ==> {
            let told = " (CapEff=0x"@ + text::hex(caps as nat, 16) + ")"@;
            let bpf = caps & (1u64 << 39u64) != 0;
            let admin = caps & (1u64 << 21u64) != 0;
            &&& bpf ==> r.verdict == Verdict::Okay && r.detail@ =~= "has CAP_BPF"@ + told
            &&& !bpf && admin ==> r.verdict == Verdict::Okay && r.detail@ =~= "has CAP_SYS_ADMIN"@
                + told
            &&& !bpf && !admin ==> r.verdict == Verdict::Gap && r.detail@
                == "neither CAP_BPF nor CAP_SYS_ADMIN set (CapEff=0x"@ + text::hex(
                caps as nat,
                16,
            ) + "); run as root or grant CAP_BPF"@
        })),
{
    reveal_strlit("has ");
    reveal_strlit("CAP_BPF");
    reveal_strlit("CAP_SYS_ADMIN");
    reveal_strlit("has CAP_BPF");
    reveal_strlit("has CAP_SYS_ADMIN");
    assert("has "@ + "CAP_BPF"@ =~= "has CAP_BPF"@);
    assert("has "@ + "CAP_SYS_ADMIN"@ =~= "has CAP_SYS_ADMIN"@);
    if let Some(s) = *status {
        if let Some(w) = caps_word(s@) {
            if let Some(caps) = text::parse_hex(w) {
                let h = text::hex(caps as nat, 16);
                assert((caps & (1u64 << 39u64) != 0) == ((caps / 0x80_0000_0000u64) % 2 == 1))
                    by (bit_vector);
                assert((caps & (1u64 << 21u64) != 0) == ((caps / 0x20_0000u64) % 2 == 1))
                    by (bit_vector);
                assert("has "@ + "CAP_BPF"@ + " (CapEff=0x"@ + h + ")"@ =~= "has CAP_BPF"@ + (
                " (CapEff=0x"@ + h + ")"@));
                assert("has "@ + "CAP_SYS_ADMIN"@ + " (CapEff=0x"@ + h + ")"@
                    =~= "has CAP_SYS_ADMIN"@ + (" (CapEff=0x"@ + h + ")"@));
            }
        }
    }
}

// ---------------------------------------------------------------------------
// BPF filesystem
// ---------------------------------------------------------------------------

/// Some line of the table has the mount point for its second word and the type
/// for its third.
pub open spec fn mounted(mounts: Seq<char>) -> bool {
    exists|i: int|
        0 <= i < text::lines(mounts).len() && {
            let w = text::words(#[trigger] text::lines(mounts)[i]);
            w.len() >= 3 && w[1] == "/sys/fs/bpf"@ && w[2] == "bpf"@
        }
}

proof fn lemma_mounts(line: Seq<char>)
    ensures
        doctor::mounts_bpffs(line) <==> ({
            let w = text::words(line);
            w.len() >= 3 && w[1] == "/sys/fs/bpf"@ && w[2] == "bpf"@
        }),
{
    reveal_strlit("bpf");
    let w = text::words(line);
    assert("bpf"@.len() == 3);
    if doctor::mounts_bpffs(line) {
        assert(doctor::word_or_empty(w, 2).len() == 3);
        assert(Seq::<char>::empty().len() == 0);
        assert(2 < w.len());
    }
}

proof fn lemma_mounted(mounts: Seq<char>)
    ensures
        doctor::bpffs_mounted(mounts) <==> mounted(mounts),
{
    let ls = text::lines(mounts);
    if doctor::bpffs_mounted(mounts) {
        let i = choose|i: int| 0 <= i < ls.len() && doctor::mounts_bpffs(#[trigger] ls[i]);
        lemma_mounts(ls[i]);
        assert(mounted(mounts));
    }
    if mounted(mounts) {
        let i = choose|i: int|
            0 <= i < ls.len() && {
                let w = text::words(#[trigger] ls[i]);
                w.len() >= 3 && w[1] == "/sys/fs/bpf"@ && w[2] == "bpf"@
            };
        lemma_mounts(ls[i]);
        assert(doctor::mounts_bpffs(ls[i]));
    }
}

/// An unmounted filesystem is a gap, and so is a pin directory without the pin;
/// the pin itself, or nothing at all, is fine.
pub proof fn law_check_bpf_fs(mounts: &str, pin: bool, root: bool, r: Check)
    requires
        call_ensures(check_bpf_fs, (mounts, pin, root), r),
    ensures
        r.name@ == "bpf-fs"@ && r.label@ == "BPF filesystem mounted and pin root accessible"@,
        !mounted(mounts@) ==> r.verdict == Verdict::Gap && r.detail@ == "/sys/fs/bpf"@
            + " not mounted as bpf type; try: mount -t bpf bpf /sys/fs/bpf"@,
        mounted(mounts@) && pin ==> r.verdict == Verdict::Okay && r.detail@ == "bpffs mounted at "@
            + "/sys/fs/bpf"@ + "; enforcer pin "@ + "/sys/fs/bpf/bpolicy/file_open_check"@
            + " present"@,
        mounted(mounts@) && !pin && root ==> r.verdict == Verdict::Gap && r.detail@
            == "bpffs mounted at "@ + "/sys/fs/bpf"@ + "; "@ + "/sys/fs/bpf/bpolicy"@
            + " exists but enforcer pin "@ + "/sys/fs/bpf/bpolicy/file_open_check"@ + " missing"@,
        mounted(mounts@) && !pin && !root ==> r.verdict == Verdict::Okay && r.detail@
            == "bpffs mounted at "@ + "/sys/fs/bpf"@ + " (enforcer not yet pinned)"@,
{
    lemma_mounted(mounts@);
}

// ---------------------------------------------------------------------------
// Boot-time arming
// ---------------------------------------------------------------------------

/// A property is what follows its name and an equals sign in the first line that
/// begins with these; there is none where no line does.
pub proof fn law_prop_value(
    props: &str,
    key: &str,
    r: Option<String>,
    before: Seq<Seq<char>>,
    value: Seq<char>,
    after: Seq<Seq<char>>,
)
    requires
        call_ensures(prop_value, (props, key), r),
        forall|i: int| 0 <= i < before.len() ==> !(key@ + seq!['=']).is_prefix_of(
            #[trigger] before[i],
        ),
    ensures
        text::lines(props@) == before + (seq![key@ + seq!['='] + value] + after) ==> r is Some
            && r->0@ == value,
        text::lines(props@) == before ==> r is None,
{
    let marker = key@.push('=');
    let line = key@ + seq!['='] + value;
    assert(marker =~= key@ + seq!['=']);
    assert(marker =~= line.subrange(0, marker.len() as int));
    assert(line.skip(key@.len() as int + 1) =~= value);
    crate::laws::text::law_first_with_prefix(before, marker, line, after);
}

/// The units that are asked about: three names, first of the user's own service
/// manager, then of the system's.
pub proof fn law_unit_query(i: usize, r: UnitQuery)
    requires
        i < 6,
        call_ensures(unit_query, (i,), r),
    ensures
        r.user <==> i < 3,
        i == 0 || i == 3 ==> r.unit@ == "bpolicy-arm.service"@,
        i == 1 || i == 4 ==> r.unit@ == "bpolicy.service"@,
        i == 2 || i == 5 ==> r.unit@ == "bpolicy-load.service"@,
{
}

/// The arguments name the unit and the three properties.
pub proof fn law_unit_args(q: &UnitQuery, r: Vec<String>)
    requires
        call_ensures(UnitQuery::args, (q,), r),
    ensures
        q.user ==> text::strings(r@) == seq![
            "--user"@,
            "show"@,
            q.unit@,
            "--property=LoadState,ActiveState,SubState"@,
        ],
        !q.user ==> text::strings(r@) == seq![
            "show"@,
            q.unit@,
            "--property=LoadState,ActiveState,SubState"@,
        ],
{
}

/// The property, empty where it is absent.
pub open spec fn state_of(props: Seq<char>, key: Seq<char>) -> Seq<char> {
    match doctor::property(props, key) {
        Some(v) => v,
        None => Seq::empty(),
    }
}

/// A unit that the service manager knows decides, and no other does. It is fine
/// exactly when it is active or has exited, and a gap in every other state.
pub proof fn law_judge_unit(i: usize, output: &Option<String>, q: UnitQuery, r: Option<Check>)
    requires
        i < 6,
        call_ensures(unit_query, (i,), q),
        call_ensures(judge_unit, (i, output), r),
    ensures
        *output is None ==> r is None,
        *output matches Some(p) ==> (r is Some <==> (doctor::property(
            p@,
            "LoadState"@,
        ) matches Some(state) && state != "not-found"@)),
        *output matches Some(p) ==> (r matches Some(c) ==> {
            let active = state_of(p@, "ActiveState"@);
            let sub = state_of(p@, "SubState"@);
            let states = "active="@ + active + " sub="@ + sub;
            let good = active == "active"@ || sub == "exited"@;
            &&& c.name@ == "boot-arm"@
            &&& c.label@ == "Boot-time arming unit configured and ran"@
            &&& c.verdict == if good { Verdict::Okay } else { Verdict::Gap }
            &&& good && i < 3 ==> c.detail@ == q.unit@ + " "@ + states
            &&& good && i >= 3 ==> c.detail@ == q.unit@ + " (system) "@ + states
            &&& !good && i < 3 ==> c.detail@ == q.unit@ + " found but "@ + states
                + "; check: journalctl --user -u "@ + q.unit@
            &&& !good && i >= 3 ==> c.detail@ == q.unit@ + " (system) found but "@ + states
        }),
{
}

/// The first of the outputs that decides gives the judgement.
pub proof fn law_boot_arm_decided(
    outputs: &Vec<Option<String>>,
    loaded: bool,
    r: Check,
    k: usize,
    decided: Option<Check>,
    next: Option<UnitQuery>,
)
    requires
        call_ensures(check_boot_arm, (outputs, loaded), r),
        call_ensures(next_unit_query, (outputs,), next),
        k < outputs@.len(),
        k < 6,
        call_ensures(judge_unit, (k, &outputs@[k as int]), decided),
        decided is Some,
        forall|i: int|
            0 <= i < k ==> doctor::unit_check(i, text::opt_text(#[trigger] outputs@[i])) is None,
    ensures
        alike(r, decided->0),
        next is None,
{
    let seen = doctor::outputs_view(outputs@);
    assert(seen[k as int] == text::opt_text(outputs@[k as int]));
    lemma_first_decision(seen, 0, k as int);
}

proof fn lemma_first_decision(seen: Seq<Option<Seq<char>>>, i: int, k: int)
    requires
        0 <= i <= k < seen.len(),
        k < 6,
        forall|j: int| i <= j < k ==> doctor::unit_check(j, #[trigger] seen[j]) is None,
        doctor::unit_check(k, seen[k]) is Some,
    ensures
        doctor::first_decision(seen, i) == doctor::unit_check(k, seen[k]),
    decreases k - i,
{
    if i < k {
        assert(doctor::unit_check(i, seen[i]) is None);
        lemma_first_decision(seen, i + 1, k);
    }
}

proof fn lemma_no_decision(seen: Seq<Option<Seq<char>>>, i: int)
    requires
        0 <= i,
        forall|j: int|
            i <= j < seen.len() && j < 6 ==> doctor::unit_check(j, #[trigger] seen[j]) is None,
    ensures
        doctor::first_decision(seen, i) is None,
    decreases seen.len() - i,
{
    if i < seen.len() && i < 6 {
        assert(doctor::unit_check(i, seen[i]) is None);
        lemma_no_decision(seen, i + 1);
    }
}

/// While no output decides, the next unit is asked about, up to the sixth. Where
/// none of the six decides, an enforcer that is loaded is fine all the same, and
/// one that is not is a gap.
pub proof fn law_boot_arm_undecided(
    outputs: &Vec<Option<String>>,
    loaded: bool,
    r: Check,
    next: Option<UnitQuery>,
    q: UnitQuery,
)
    requires
        call_ensures(check_boot_arm, (outputs, loaded), r),
        call_ensures(next_unit_query, (outputs,), next),
        outputs@.len() < 6 ==> call_ensures(unit_query, (outputs@.len() as usize,), q),
        forall|i: int|
            0 <= i < outputs@.len() && i < 6 ==> doctor::unit_check(
                i,
                text::opt_text(#[trigger] outputs@[i]),
            ) is None,
    ensures
        outputs@.len() < 6 ==> next is Some && next->0.unit@ == q.unit@ && next->0.user == q.user,
        outputs@.len() >= 6 ==> next is None,
        loaded ==> says(
            r,
            "boot-arm"@,
            "Boot-time arming unit configured and ran"@,
            Verdict::Okay,
            "no boot-arm unit found but enforcer is currently loaded"@,
        ),
        !loaded ==> says(
            r,
            "boot-arm"@,
            "Boot-time arming unit configured and ran"@,
            Verdict::Gap,
            "no bpolicy boot-arm systemd unit found; enforcer is not armed at boot"@,
        ),
{
    let seen = doctor::outputs_view(outputs@);
    assert forall|j: int| 0 <= j < seen.len() && j < 6 implies doctor::unit_check(
        j,
        #[trigger] seen[j],
    ) is None by {
        assert(seen[j] == text::opt_text(outputs@[j]));
    }
    lemma_no_decision(seen, 0);
}

/// An output that is no output decides nothing, and neither does one of a unit
/// that is not known.
pub proof fn law_undecided(i: int, props: Seq<char>)
    ensures
        doctor::unit_check(i, None) is None,
        doctor::unit_check(i, Some(props)) is None <==> (doctor::property(
            props,
            "LoadState"@,
        ) matches Some(state) ==> state == "not-found"@),
{
}

// ---------------------------------------------------------------------------
// The report
// ---------------------------------------------------------------------------

/// The first gap is named: the first check with that verdict, and none where no
/// check has it.
pub proof fn law_find_gap(checks: &Vec<Check>, r: Option<String>, k: int)
    requires
        call_ensures(find_gap, (checks,), r),
    ensures
        r is None <==> forall|i: int|
            0 <= i < checks@.len() ==> (#[trigger] checks@[i]).verdict != Verdict::Gap,
        0 <= k < checks@.len() && checks@[k].verdict == Verdict::Gap && (forall|i: int|
            0 <= i < k ==> (#[trigger] checks@[i]).verdict != Verdict::Gap) ==> r is Some && r->0@
            == checks@[k].name@,
{
    let all = doctor::checks_view(checks@);
    doctor::law_first_gap(all);
    assert forall|i: int| 0 <= i < checks@.len() implies (#[trigger] checks@[i]).verdict
        == all[i].verdict && checks@[i].name@ == all[i].name by {}
    if forall|i: int| 0 <= i < checks@.len() ==> (#[trigger] checks@[i]).verdict != Verdict::Gap {
        assert forall|i: int| 0 <= i < all.len() implies (#[trigger] all[i]).verdict
            != Verdict::Gap by {
            assert(checks@[i].verdict != Verdict::Gap);
        }
    }
    if r is None {
        assert forall|i: int| 0 <= i < checks@.len() implies (#[trigger] checks@[i]).verdict
            != Verdict::Gap by {
            assert(all[i].verdict != Verdict::Gap);
        }
    }
    if 0 <= k < checks@.len() && checks@[k].verdict == Verdict::Gap && (forall|i: int|
        0 <= i < k ==> (#[trigger] checks@[i]).verdict != Verdict::Gap) {
        assert(all[k].verdict == Verdict::Gap);
        let name = doctor::gap_name(all)->0;
        let j = choose|j: int| #[trigger] doctor::first_gap_at(all, j) && all[j].name == name;
        if j < k {
            assert(checks@[j].verdict != Verdict::Gap);
        }
        assert(j == k);
    }
}

/// A report holds the five checks of what the probes observed, each as it is by
/// itself, in this order, and names their first gap.
pub proof fn law_run(
    p: &Probes,
    r: DoctorReport,
    lsm: Check,
    btf: Check,
    cap: Check,
    fs: Check,
    boot: Check,
    mounts: &str,
    gap: Option<String>,
)
    requires
        call_ensures(DoctorReport::run, (p,), r),
        call_ensures(check_lsm_list, (&p.lsm_security, &p.cmdline), lsm),
        call_ensures(check_btf, (&p.btf,), btf),
        call_ensures(check_capability, (&p.self_status,), cap),
        mounts@ == p.mounts@,
        call_ensures(check_bpf_fs, (mounts, p.loaded_pin, p.bpf_root), fs),
        call_ensures(check_boot_arm, (&p.unit_outputs, p.loaded_pin), boot),
        call_ensures(find_gap, (&r.checks,), gap),
    ensures
        r.checks@.len() == 5,
        alike(r.checks@[0], lsm),
        alike(r.checks@[1], btf),
        alike(r.checks@[2], cap),
        alike(r.checks@[3], fs),
        alike(r.checks@[4], boot),
        text::opt_text(r.first_gap) == text::opt_text(gap),
{
    let all = doctor::checks_view(r.checks@);
    assert(all.len() == r.checks@.len());
    assert(all[0] == r.checks@[0]@ && all[1] == r.checks@[1]@ && all[2] == r.checks@[2]@ && all[3]
        == r.checks@[3]@ && all[4] == r.checks@[4]@);
}

// ---------------------------------------------------------------------------
// Output
// ---------------------------------------------------------------------------

/// Three names are formats, and another is refused with the choices.
pub proof fn law_format_names(name: &str, r: Result<DoctorFormat, String>)
    requires
        call_ensures(DoctorFormat::from_name, (name,), r),
    ensures
        name@ == "human"@ ==> r == Ok::<DoctorFormat, String>(DoctorFormat::Human),
        name@ == "json"@ ==> r == Ok::<DoctorFormat, String>(DoctorFormat::Json),
        name@ == "docket"@ ==> r == Ok::<DoctorFormat, String>(DoctorFormat::Docket),
        name@ != "human"@ && name@ != "json"@ && name@ != "docket"@ ==> r is Err && r->Err_0@
            == "unknown format `"@ + name@ + "`; choose human | json | docket"@,
{
    reveal_strlit("human");
    reveal_strlit("json");
    reveal_strlit("docket");
    assert("human"@.len() == 5 && "json"@.len() == 4 && "docket"@.len() == 6);
}

/// The three names that stand for a format, and no others.
pub proof fn law_format_named(name: Seq<char>)
    ensures
        doctor::format_named(name) == Some(DoctorFormat::Human) <==> name == "human"@,
        doctor::format_named(name) == Some(DoctorFormat::Json) <==> name == "json"@,
        doctor::format_named(name) == Some(DoctorFormat::Docket) <==> name == "docket"@,
{
    reveal_strlit("human");
    reveal_strlit("json");
    reveal_strlit("docket");
    assert("human"@.len() == 5 && "json"@.len() == 4 && "docket"@.len() == 6);
}

/// A line for people: the name in twelve columns, the verdict's word, the detail.
pub proof fn law_human_line(check: &Check, word: String, r: String)
    requires
        call_ensures(human_line, (check,), r),
        call_ensures(Verdict::to_string, (&check.verdict,), word),
    ensures
        r@ == text::pad_right(check.name@, 12) + " "@ + word@ + " "@ + check.detail@,
{
}

/// The docket line files the first gap, blanks made underscores, or says that
/// there is none.
pub proof fn law_docket_line(report: &DoctorReport, r: String)
    requires
        call_ensures(docket_line, (report,), r),
    ensures
        report.first_gap is None ==> r@
            == "# bpolicy doctor: no gaps found — all checks ok or unknown"@,
        report.first_gap matches Some(gap) ==> r@
            == "docket report --key warden-enforcer-inert --evidence cause:"@ + text::replace_char(
            gap@,
            ' ',
            '_',
        ),
{
}

/// A check is printed with its verdict's word, its detail and its label.
pub proof fn law_check_members(check: Check, word: String)
    requires
        call_ensures(Verdict::to_string, (&check.verdict,), word),
    ensures
        doctor::check_members(check@).dom() == set!["verdict"@, "detail"@, "label"@],
        doctor::check_members(check@)["verdict"@] == json::json_string(word@),
        doctor::check_members(check@)["detail"@] == json::json_string(check.detail@),
        doctor::check_members(check@)["label"@] == json::json_string(check.label@),
{
    reveal_strlit("verdict");
    reveal_strlit("detail");
    reveal_strlit("label");
    assert("verdict"@.len() == 7 && "detail"@.len() == 6 && "label"@.len() == 5);
    assert(doctor::check_members(check@).dom() =~= set!["verdict"@, "detail"@, "label"@]);
}

/// The members of a report grow by one with each check, keyed by its name, and by
/// the first gap where there is one.
pub proof fn law_report_members(
    checks: Seq<doctor::CheckView>,
    last: doctor::CheckView,
    gap: Option<Seq<char>>,
)
    ensures
        doctor::report_members(Seq::empty(), None) == Map::<Seq<char>, Seq<char>>::empty(),
        doctor::report_members(checks.push(last), None) == doctor::report_members(
            checks,
            None,
        ).insert(last.name, json::object_text(doctor::check_members(last))),
        gap matches Some(name) ==> doctor::report_members(checks, gap) == doctor::report_members(
            checks,
            None,
        ).insert("first_gap"@, json::json_string(name)),
{
    assert(checks.push(last).drop_last() =~= checks);
}

/// The JSON report prints these members over several lines.
pub proof fn law_json_report(report: &DoctorReport, r: String)
    requires
        call_ensures(json_report, (report,), r),
    ensures
        r@ == json::json_pretty(
            json::object_text(
                doctor::report_members(
                    report.checks@.map_values(|c: Check| c@),
                    match report.first_gap {
                        Some(gap) => Some(gap@),
                        None => None,
                    },
                ),
            ),
        ),
{
    assert(report.checks@.map_values(|c: Check| c@) =~= doctor::checks_view(report.checks@));
}

/// The doctor prints its report in the format asked for: a line for each check,
/// or the JSON report, or the docket line.
pub proof fn law_cmd_doctor(
    format: DoctorFormat,
    p: &Probes,
    report: DoctorReport,
    r: Vec<String>,
    i: int,
    line: String,
    printed: String,
    docket: String,
)
    requires
        call_ensures(cmd_doctor, (format, p), r),
        call_ensures(DoctorReport::run, (p,), report),
        0 <= i < report.checks@.len(),
        call_ensures(human_line, (&report.checks@[i],), line),
        call_ensures(json_report, (&report,), printed),
        call_ensures(docket_line, (&report,), docket),
    ensures
        format == DoctorFormat::Human ==> r@.len() == report.checks@.len() && r@[i]@ == line@,
        format == DoctorFormat::Json ==> r@.len() == 1 && r@[0]@ == printed@,
        format == DoctorFormat::Docket ==> r@.len() == 1 && r@[0]@ == docket@,
{
    let texts = text::strings(r@);
    let all = doctor::checks_view(report.checks@);
    assert(texts.len() == r@.len());
    assert(all[i] == report.checks@[i]@);
    if format == DoctorFormat::Human {
        assert(texts[i] == r@[i]@);
    } else {
        assert(texts[0] == r@[0]@);
    }
}

} // verus!
