//! Laws of the status: what of the dumps is told, and under which names.

use vstd::prelude::*;

use crate::audit::{mode_label, parse_mode};
use crate::bpf::BpfOps;
use crate::deadman::{remaining_at, Clock, DeadmanState};
use crate::dump;
use crate::dump::{parse_dump, DumpEntry};
use crate::json;
use crate::session::{BpfCall, BpfSession};
use crate::status;
use crate::status::{
    assemble_status, cmd_status, loaded_report, pids_of_entries, stats_of_entries, Stats, Status,
    StatusReport,
};
use crate::text;

verus! {

// ---------------------------------------------------------------------------
// PIDs
// ---------------------------------------------------------------------------

/// The entries whose key is this number.
pub open spec fn entries_of(entries: Seq<DumpEntry>, pid: i64) -> Seq<DumpEntry> {
    entries.filter(|e: DumpEntry| e.signed_key == Some(pid))
}

/// The entries whose key is a number.
pub open spec fn numbered(entries: Seq<DumpEntry>) -> Seq<DumpEntry> {
    entries.filter(|e: DumpEntry| e.signed_key is Some)
}

/// A number is told exactly when an entry has it for its key, and as often as
/// entries do; as many numbers are told as entries have one. They ascend.
pub proof fn law_pids_of_entries(entries: &Vec<DumpEntry>, r: Vec<i64>, pid: i64)
    requires
        call_ensures(pids_of_entries, (entries,), r),
    ensures
        r@.contains(pid) <==> exists|i: int|
            0 <= i < entries@.len() && (#[trigger] entries@[i]).signed_key == Some(pid),
        r@.to_multiset().count(pid) == entries_of(entries@, pid).len(),
        r@.len() == numbered(entries@).len(),
        forall|i: int, j: int| 0 <= i < j < r@.len() ==> #[trigger] r@[i] <= #[trigger] r@[j],
{
    let keys = status::keys_in(dump::entries_view(entries@));
    lemma_keys(entries@, pid);
    r@.to_multiset_ensures();
    keys.to_multiset_ensures();
    assert(r@.to_multiset().count(pid) == keys.to_multiset().count(pid));
    assert(r@.len() == keys.len());
    if r@.contains(pid) {
        assert(keys.to_multiset().count(pid) > 0);
        assert(keys.contains(pid));
    }
    if exists|i: int| 0 <= i < entries@.len() && (#[trigger] entries@[i]).signed_key == Some(pid) {
        assert(keys.contains(pid));
        assert(r@.to_multiset().count(pid) > 0);
    }
}

proof fn lemma_keys(entries: Seq<DumpEntry>, pid: i64)
    ensures
        ({
            let keys = status::keys_in(dump::entries_view(entries));
            &&& keys.contains(pid) <==> exists|i: int|
                0 <= i < entries.len() && (#[trigger] entries[i]).signed_key == Some(pid)
            &&& keys.to_multiset().count(pid) == entries_of(entries, pid).len()
            &&& keys.len() == numbered(entries).len()
        }),
    decreases entries.len(),
{
    reveal(Seq::filter);
    let all = dump::entries_view(entries);
    let keys = status::keys_in(all);
    if entries.len() == 0 {
        assert(keys.to_multiset() =~= vstd::multiset::Multiset::empty()) by {
            keys.to_multiset_ensures();
        }
    } else {
        let rest = entries.drop_last();
        lemma_keys(rest, pid);
        assert(all.drop_last() =~= dump::entries_view(rest));
        assert(all.last() == entries.last()@);
        let before = status::keys_in(dump::entries_view(rest));
        if let Some(key) = entries.last().signed_key {
            vstd::seq_lib::to_multiset_build(before, key);
            assert(keys == before.push(key));
            assert(keys.last() == key);
            if before.contains(pid) {
                let i = choose|i: int| 0 <= i < before.len() && before[i] == pid;
                assert(keys[i] == pid);
            }
            if keys.contains(pid) && key != pid {
                let i = choose|i: int| 0 <= i < keys.len() && keys[i] == pid;
                assert(before[i] == pid);
            }
        } else {
            assert(keys == before);
        }
        if exists|i: int| 0 <= i < rest.len() && (#[trigger] rest[i]).signed_key == Some(pid) {
            let i = choose|i: int|
                0 <= i < rest.len() && (#[trigger] rest[i]).signed_key == Some(pid);
            assert(entries[i].signed_key == Some(pid));
        }
        if exists|i: int|
            0 <= i < entries.len() && (#[trigger] entries[i]).signed_key == Some(pid) {
            let i = choose|i: int|
                0 <= i < entries.len() && (#[trigger] entries[i]).signed_key == Some(pid);
            if i < rest.len() {
                assert(rest[i].signed_key == Some(pid));
            } else {
                assert(entries.last().signed_key == Some(pid));
            }
        }
        if entries.last().signed_key == Some(pid) {
            assert(entries[entries.len() - 1].signed_key == Some(pid));
        }
    }
}

// ---------------------------------------------------------------------------
// Statistics
// ---------------------------------------------------------------------------

/// The counter with the given key: zero counts the checked opens, one the
/// allowed, two the denied, and three the processes forked in.
pub open spec fn counter(stats: Stats, key: u64) -> Option<Seq<char>> {
    let value = if key == 0 {
        stats.checked
    } else if key == 1 {
        stats.allowed
    } else if key == 2 {
        stats.denied
    } else {
        stats.forked_in
    };
    match value {
        Some(v) => Some(json::value_text(v)),
        None => None,
    }
}

/// An entry gives a value for the counter with the given key.
pub open spec fn gives(e: DumpEntry, key: u64) -> bool {
    e.key == Some(key) && e.value is Some
}

/// Each counter has the value of the last entry that gives one, and none where no
/// entry does.
pub proof fn law_stats_of_entries(entries: &Vec<DumpEntry>, r: Stats, key: u64, k: int)
    requires
        call_ensures(stats_of_entries, (entries,), r),
        key <= 3,
    ensures
        (forall|i: int| 0 <= i < entries@.len() ==> !gives(#[trigger] entries@[i], key))
            ==> counter(r, key) is None,
        0 <= k < entries@.len() && gives(entries@[k], key) && (forall|i: int|
            k < i < entries@.len() ==> !gives(#[trigger] entries@[i], key)) ==> counter(r, key)
            == Some(json::value_text(entries@[k].value->0)),
{
    lemma_stats(entries@, key, k);
    assert(r@ == status::stats_in(dump::entries_view(entries@)));
}

/// The counter in the view of the statistics.
pub open spec fn counter_view(stats: status::StatsView, key: u64) -> Option<Seq<char>> {
    if key == 0 {
        stats.checked
    } else if key == 1 {
        stats.allowed
    } else if key == 2 {
        stats.denied
    } else {
        stats.forked_in
    }
}

proof fn lemma_stats(entries: Seq<DumpEntry>, key: u64, k: int)
    requires
        key <= 3,
    ensures
        ({
            let stats = status::stats_in(dump::entries_view(entries));
            &&& (forall|i: int| 0 <= i < entries.len() ==> !gives(#[trigger] entries[i], key))
                ==> counter_view(stats, key) is None
            &&& 0 <= k < entries.len() && gives(entries[k], key) && (forall|i: int|
                k < i < entries.len() ==> !gives(#[trigger] entries[i], key)) ==> counter_view(
                stats,
                key,
            ) == Some(json::value_text(entries[k].value->0))
        }),
    decreases entries.len(),
{
    let all = dump::entries_view(entries);
    if entries.len() > 0 {
        let rest = entries.drop_last();
        lemma_stats(rest, key, k);
        assert(all.drop_last() =~= dump::entries_view(rest));
        assert(all.last() == entries.last()@);
        assert(entries.last() == entries[entries.len() - 1]);
        if forall|i: int| 0 <= i < entries.len() ==> !gives(#[trigger] entries[i], key) {
            assert forall|i: int| 0 <= i < rest.len() implies !gives(#[trigger] rest[i], key) by {
                assert(rest[i] == entries[i]);
            }
        }
        if 0 <= k < entries.len() && gives(entries[k], key) && (forall|i: int|
            k < i < entries.len() ==> !gives(#[trigger] entries[i], key)) {
            if k < rest.len() {
                assert(rest[k] == entries[k]);
                assert forall|i: int| k < i < rest.len() implies !gives(
                    #[trigger] rest[i],
                    key,
                ) by {
                    assert(rest[i] == entries[i]);
                }
                assert(!gives(entries[entries.len() - 1], key));
            }
        }
    }
}

// ---------------------------------------------------------------------------
// The status object
// ---------------------------------------------------------------------------

/// A status that tells two dumps has the PIDs and the counters of their entries.
/// An empty dump, or one that is no array, has none.
pub proof fn law_tells(
    status: Status,
    pids_raw: &str,
    stats_raw: &str,
    pid_entries: Option<Vec<DumpEntry>>,
    stat_entries: Option<Vec<DumpEntry>>,
    pids: Vec<i64>,
    stats: Stats,
    key: u64,
)
    requires
        status.tells(pids_raw@, stats_raw@),
        call_ensures(parse_dump, (pids_raw,), pid_entries),
        call_ensures(parse_dump, (stats_raw,), stat_entries),
        pid_entries matches Some(v) ==> call_ensures(pids_of_entries, (&v,), pids),
        stat_entries matches Some(v) ==> call_ensures(stats_of_entries, (&v,), stats),
        key <= 3,
    ensures
        pids_raw@.len() == 0 || pid_entries is None ==> status.protected_pids@.len() == 0,
        pids_raw@.len() > 0 && pid_entries is Some ==> status.protected_pids@ == pids@,
        stats_raw@.len() == 0 || stat_entries is None ==> counter(status.stats, key) is None,
        stats_raw@.len() > 0 && stat_entries is Some ==> counter(status.stats, key) == counter(
            stats,
            key,
        ),
{
    status::law_unreadable_dump_is_empty(status, pids_raw@, stats_raw@);
    if pids_raw@.len() > 0 && pid_entries is Some {
        status::law_sorted_unique(
            status.protected_pids@,
            pids@,
            status::keys_in(status::entries_shown(pids_raw@)),
        );
    }
}

/// The status made from two dumps tells them.
pub proof fn law_from_dumps(pids_raw: &str, stats_raw: &str, r: Status)
    requires
        call_ensures(Status::from_dumps, (pids_raw, stats_raw), r),
    ensures
        r.tells(pids_raw@, stats_raw@),
{
}

/// The counters that are there stand under these four names.
pub proof fn law_stats_members(stats: Stats)
    ensures
        ({
            let m = status::stats_members(stats@);
            &&& m.contains_key("checked"@) <==> stats.checked is Some
            &&& m.contains_key("allowed"@) <==> stats.allowed is Some
            &&& m.contains_key("denied"@) <==> stats.denied is Some
            &&& m.contains_key("forked_in"@) <==> stats.forked_in is Some
            &&& stats.checked matches Some(v) ==> m["checked"@] == json::value_text(v)
            &&& stats.allowed matches Some(v) ==> m["allowed"@] == json::value_text(v)
            &&& stats.denied matches Some(v) ==> m["denied"@] == json::value_text(v)
            &&& stats.forked_in matches Some(v) ==> m["forked_in"@] == json::value_text(v)
            &&& forall|name: Seq<char>| #[trigger]
                m.contains_key(name) ==> name == "checked"@ || name == "allowed"@ || name
                    == "denied"@ || name == "forked_in"@
        }),
{
    reveal_strlit("checked");
    reveal_strlit("allowed");
    reveal_strlit("denied");
    reveal_strlit("forked_in");
    assert("checked"@.len() == 7 && "allowed"@.len() == 7 && "denied"@.len() == 6
        && "forked_in"@.len() == 9);
    assert("checked"@[0] == 'c' && "allowed"@[0] == 'a');
}

/// The status as JSON says that the enforcer is loaded, and tells the PIDs and
/// the counters.
pub proof fn law_assemble_status(
    pids_raw: &str,
    stats_raw: &str,
    r: serde_json::Value,
    told: Status,
)
    requires
        call_ensures(assemble_status, (pids_raw, stats_raw), r),
        told.tells(pids_raw@, stats_raw@),
    ensures
        json::value_text(r) == json::object_text(
            map![
                "loaded"@ => "true"@,
                "protected_pids"@ => json::integers_text(told.protected_pids@),
                "stats"@ => json::object_text(status::stats_members(told.stats@)),
            ],
        ),
        json::json_member(json::value_text(r), "loaded"@) == Some("true"@),
        json::json_member(json::value_text(r), "protected_pids"@) == Some(
            json::integers_text(told.protected_pids@),
        ),
        json::json_member(json::value_text(r), "stats"@) == Some(
            json::object_text(status::stats_members(told.stats@)),
        ),
{
    let keys = status::keys_in(status::entries_shown(pids_raw@));
    let stats = status::stats_in(status::entries_shown(stats_raw@));
    let pids = choose|pids: Seq<i64>| #[trigger]
        status::sorted_from(pids, keys) && json::value_text(r) == json::object_text(
            status::status_members(pids, stats),
        ) && json::json_member(json::value_text(r), "protected_pids"@) == Some(
            json::integers_text(pids),
        );
    status::law_sorted_unique(pids, told.protected_pids@, keys);
    assert(status::status_members(pids, stats) =~= map![
        "loaded"@ => "true"@,
        "protected_pids"@ => json::integers_text(told.protected_pids@),
        "stats"@ => json::object_text(status::stats_members(told.stats@)),
    ]);
}

// ---------------------------------------------------------------------------
// The report
// ---------------------------------------------------------------------------

/// A report that tells three dumps is one on a loaded enforcer, with the status
/// of the first two and the mode of the third. Where no mode is shown, the
/// enforcer enforces.
pub proof fn law_report_tells(
    report: StatusReport,
    pids_raw: Seq<char>,
    stats_raw: Seq<char>,
    config_raw: &str,
    mode: Option<u64>,
    word: &'static str,
)
    requires
        status::report_tells(report, pids_raw, stats_raw, config_raw@),
        call_ensures(parse_mode, (config_raw,), mode),
        mode matches Some(m) ==> call_ensures(mode_label, (m,), word),
    ensures
        report is Loaded,
        report->status.tells(pids_raw, stats_raw),
        mode is Some ==> report->mode@ == word@,
        mode is None ==> report->mode@ == "enforce"@,
{
}

/// The report on a loaded enforcer tells the three dumps and hands on the time
/// and the profile.
pub proof fn law_loaded_report(
    pids_raw: &str,
    stats_raw: &str,
    config_raw: &str,
    ttl: Option<u64>,
    profile: Option<String>,
    r: StatusReport,
)
    requires
        call_ensures(loaded_report, (pids_raw, stats_raw, config_raw, ttl, profile), r),
    ensures
        status::report_tells(r, pids_raw@, stats_raw@, config_raw@),
        r->ttl_remaining_s == ttl,
        r->profile == profile,
{
}

/// A report on an enforcer that is not loaded is one line. One on a loaded
/// enforcer goes over several and has its PIDs, its counters, its mode, its time
/// left, and its profile where that is known.
pub proof fn law_report_text(report: &StatusReport, r: String)
    requires
        call_ensures(StatusReport::to_text, (report,), r),
    ensures
        report is NotLoaded ==> r@ == "{\"loaded\":false}"@,
        *report matches StatusReport::Loaded { status, mode, ttl_remaining_s, profile } ==> ({
            let known = map![
                "loaded"@ => "true"@,
                "protected_pids"@ => json::integers_text(status.protected_pids@),
                "stats"@ => json::object_text(status::stats_members(status.stats@)),
                "mode"@ => json::json_string(mode@),
                "ttl_remaining_s"@ => match ttl_remaining_s {
                    Some(n) => text::decimal(n as nat),
                    None => "null"@,
                },
            ];
            r@ == json::json_pretty(
                json::object_text(
                    match profile {
                        Some(name) => known.insert("profile"@, json::json_string(name@)),
                        None => known,
                    },
                ),
            )
        }),
{
    status::law_not_loaded_text();
    if let StatusReport::Loaded { status, mode, ttl_remaining_s, profile } = *report {
        let known = map![
            "loaded"@ => "true"@,
            "protected_pids"@ => json::integers_text(status.protected_pids@),
            "stats"@ => json::object_text(status::stats_members(status.stats@)),
            "mode"@ => json::json_string(mode@),
            "ttl_remaining_s"@ => match ttl_remaining_s {
                Some(n) => text::decimal(n as nat),
                None => "null"@,
            },
        ];
        let all = status::loaded_members(
            status,
            mode@,
            ttl_remaining_s,
            text::opt_text(profile),
        );
        if let Some(name) = profile {
            assert(all =~= known.insert("profile"@, json::json_string(name@)));
        } else {
            assert(all =~= known);
        }
    }
}

/// Reporting asks whether the enforcer is loaded, and only where it is dumps the
/// three maps, once each. The report tells these dumps, the time left of the arm,
/// and the profile that was given.
pub proof fn law_cmd_status<O: BpfOps, C: Clock>(
    ops: &mut BpfSession<O>,
    arm: Option<DeadmanState>,
    profile: Option<String>,
    clock: &C,
    r: StatusReport,
)
    requires
        call_ensures(cmd_status::<O, C>, (ops, arm, profile, clock), r),
    ensures
        r is NotLoaded ==> final(ops).log() == old(ops).log() + seq![BpfCall::IsLoaded(false)],
        r is Loaded ==> exists|p: Seq<char>, s: Seq<char>, c: Seq<char>|
            #![trigger status::report_tells(r, p, s, c)]
            {
                &&& status::report_tells(r, p, s, c)
                &&& final(ops).log() == old(ops).log() + seq![
                    BpfCall::IsLoaded(true),
                    BpfCall::Dump { pinned: "/sys/fs/bpf/bpolicy/protected_pids"@, dump: p },
                    BpfCall::Dump { pinned: "/sys/fs/bpf/bpolicy/stats"@, dump: s },
                    BpfCall::Dump { pinned: "/sys/fs/bpf/bpolicy/bpolicy_config"@, dump: c },
                ]
            },
        r is Loaded ==> r->profile == profile,
        r is Loaded && arm is None ==> r->ttl_remaining_s is None,
        r is Loaded ==> (arm matches Some(state) ==> state.expires_at is None
            ==> r->ttl_remaining_s is None),
        r is Loaded ==> (arm matches Some(state) ==> state.expires_at is Some ==> exists|now: u64|
            #[trigger] call_ensures(C::now_secs, (clock,), now) && (forall|left: Option<u64>|
                call_ensures(remaining_at, (&state, now), left) ==> r->ttl_remaining_s == left)),
{
    let calls = choose|calls: Seq<BpfCall>| #[trigger]
        final(ops).made(old(ops), calls) && status::status_ran(calls, r);
    if r is Loaded {
        let (p, s, c) = choose|p: Seq<char>, s: Seq<char>, c: Seq<char>|
            calls == #[trigger] status::status_calls(p, s, c) && status::report_tells(r, p, s, c);
        assert(status::report_tells(r, p, s, c));
        assert(status::status_calls(p, s, c) =~= seq![
            BpfCall::IsLoaded(true),
            BpfCall::Dump { pinned: "/sys/fs/bpf/bpolicy/protected_pids"@, dump: p },
            BpfCall::Dump { pinned: "/sys/fs/bpf/bpolicy/stats"@, dump: s },
            BpfCall::Dump { pinned: "/sys/fs/bpf/bpolicy/bpolicy_config"@, dump: c },
        ]);
    }
}

} // verus!
