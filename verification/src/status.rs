//! The enforcer's status: the protected PIDs in ascending order, the
//! statistics by label, the mode, the time left and the profile.

use vstd::prelude::*;

use crate::audit;
use crate::audit::{mode_label, parse_mode, MODE_ENFORCE, PINNED_MAP_CONFIG};
use crate::bpf;
use crate::bpf::{BpfOps, PINNED_MAP_PIDS, PINNED_MAP_STATS};
use crate::deadman;
use crate::deadman::{ttl_remaining, Clock, DeadmanState};
use crate::dump;
use crate::dump::{parse_dump, DumpEntry};
use crate::json;
use crate::json::{
    bool_value, compact, copy_value, count_value, integers_value, no_members, object_value, pretty_text,
    set_member, string_value,
};
use crate::session;
use crate::session::{BpfCall, BpfSession};
use crate::text;

verus! {

// ---------------------------------------------------------------------------
// Protected PIDs
// ---------------------------------------------------------------------------

/// The integer keys of the entries, in the order of the entries.
pub open spec fn keys_in(entries: Seq<dump::DumpEntryView>) -> Seq<i64>
    decreases entries.len(),
{
    if entries.len() == 0 {
        Seq::empty()
    } else {
        let before = keys_in(entries.drop_last());
        match entries.last().signed_key {
            Some(key) => before.push(key),
            None => before,
        }
    }
}

/// The numbers do not descend.
pub open spec fn ascending(v: Seq<i64>) -> bool {
    forall|i: int, j: int| 0 <= i < j < v.len() ==> #[trigger] v[i] <= #[trigger] v[j]
}

/// `sorted` holds the same numbers as `v`, each as often, in ascending order.
pub open spec fn sorted_from(sorted: Seq<i64>, v: Seq<i64>) -> bool {
    ascending(sorted) && sorted.to_multiset() == v.to_multiset()
}

/// Puts `key` at its place in an ascending list.
fn insert_key(keys: &mut Vec<i64>, key: i64)
    requires
        ascending(old(keys)@),
    ensures
        ascending(final(keys)@),
        final(keys)@.to_multiset() == old(keys)@.to_multiset().insert(key),
{
    let ghost before = keys@;
    let mut at: usize = keys.len();
    while at > 0 && keys[at - 1] > key
        invariant
            at <= keys@.len(),
            keys@ == before,
            ascending(before),
            forall|i: int| at <= i < before.len() ==> key < #[trigger] before[i],
        decreases at,
    {
        at = at - 1;
    }
    keys.insert(at, key);
    let ghost after = keys@;
    assert(after == before.insert(at as int, key));
    assert forall|i: int, j: int| 0 <= i < j < after.len() implies #[trigger] after[i]
        <= #[trigger] after[j] by {
        if i == at {
            assert(after[j] == before[j - 1]);
        } else if j == at {
            assert(after[i] == before[i]);
            assert(before[i] <= before[at - 1]);
        }
    }
    proof {
        vstd::seq_lib::to_multiset_remove(after, at as int);
        assert(after.remove(at as int) =~= before);
        after.to_multiset_ensures();
        assert(after[at as int] == key);
        assert(after.contains(key));
        assert(after.to_multiset().remove(key).insert(key) =~= after.to_multiset());
    }
}

/// The integer keys of the entries in ascending order.
pub fn pids_of_entries(entries: &Vec<DumpEntry>) -> (r: Vec<i64>)
    ensures
        sorted_from(r@, keys_in(dump::entries_view(entries@))),
{
    let ghost all = dump::entries_view(entries@);
    let mut keys: Vec<i64> = Vec::new();
    assert(all.take(0) =~= Seq::empty());
    for i in 0..entries.len()
        invariant
            all == dump::entries_view(entries@),
            sorted_from(keys@, keys_in(all.take(i as int))),
    {
        assert(all.take(i + 1).drop_last() =~= all.take(i as int));
        assert(all.take(i + 1).last() == entries@[i as int]@);
        if let Some(key) = entries[i].signed_key {
            proof {
                vstd::seq_lib::to_multiset_build(keys_in(all.take(i as int)), key);
            }
            insert_key(&mut keys, key);
        }
    }
    assert(all.take(all.len() as int) =~= all);
    keys
}

// ---------------------------------------------------------------------------
// Statistics
// ---------------------------------------------------------------------------

/// The statistics, each counter where the dump shows it.
#[derive(Debug)]
pub struct Stats {
    /// Write opens that were checked.
    pub checked: Option<serde_json::Value>,
    /// Write opens that were allowed.
    pub allowed: Option<serde_json::Value>,
    /// Write opens that were denied.
    pub denied: Option<serde_json::Value>,
    /// Processes that became protected by a fork.
    pub forked_in: Option<serde_json::Value>,
}

/// What [`Stats`] says: each counter as compact JSON text.
pub struct StatsView {
    /// Write opens that were checked.
    pub checked: Option<Seq<char>>,
    /// Write opens that were allowed.
    pub allowed: Option<Seq<char>>,
    /// Write opens that were denied.
    pub denied: Option<Seq<char>>,
    /// Processes that became protected by a fork.
    pub forked_in: Option<Seq<char>>,
}

impl View for Stats {
    type V = StatsView;

    open spec fn view(&self) -> StatsView {
        StatsView {
            checked: json::opt_value_text(self.checked),
            allowed: json::opt_value_text(self.allowed),
            denied: json::opt_value_text(self.denied),
            forked_in: json::opt_value_text(self.forked_in),
        }
    }
}

/// No counter.
pub open spec fn no_stats() -> StatsView {
    StatsView { checked: None, allowed: None, denied: None, forked_in: None }
}

/// The statistics with the counter at `key` set. Keys above three name no counter.
pub open spec fn with_counter(stats: StatsView, key: u64, value: Seq<char>) -> StatsView {
    if key == 0 {
        StatsView { checked: Some(value), ..stats }
    } else if key == 1 {
        StatsView { allowed: Some(value), ..stats }
    } else if key == 2 {
        StatsView { denied: Some(value), ..stats }
    } else if key == 3 {
        StatsView { forked_in: Some(value), ..stats }
    } else {
        stats
    }
}

/// The counters that the entries show, a later entry in place of an earlier one.
pub open spec fn stats_in(entries: Seq<dump::DumpEntryView>) -> StatsView
    decreases entries.len(),
{
    if entries.len() == 0 {
        no_stats()
    } else {
        let before = stats_in(entries.drop_last());
        match (entries.last().key, entries.last().value) {
            (Some(key), Some(value)) => with_counter(before, key, value),
            _ => before,
        }
    }
}

/// The counters that the entries show.
pub fn stats_of_entries(entries: &Vec<DumpEntry>) -> (r: Stats)
    ensures
        r@ == stats_in(dump::entries_view(entries@)),
{
    let ghost all = dump::entries_view(entries@);
    let mut stats = Stats { checked: None, allowed: None, denied: None, forked_in: None };
    assert(all.take(0) =~= Seq::empty());
    for i in 0..entries.len()
        invariant
            all == dump::entries_view(entries@),
            stats@ == stats_in(all.take(i as int)),
    {
        assert(all.take(i + 1).drop_last() =~= all.take(i as int));
        assert(all.take(i + 1).last() == entries@[i as int]@);
        if let Some(key) = entries[i].key {
            if let Some(value) = &entries[i].value {
                if key == 0 {
                    stats.checked = Some(copy_value(value));
                } else if key == 1 {
                    stats.allowed = Some(copy_value(value));
                } else if key == 2 {
                    stats.denied = Some(copy_value(value));
                } else if key == 3 {
                    stats.forked_in = Some(copy_value(value));
                }
            }
        }
    }
    assert(all.take(all.len() as int) =~= all);
    stats
}

// ---------------------------------------------------------------------------
// Status of a loaded enforcer
// ---------------------------------------------------------------------------

/// The entries of a dump, none where it is empty or cannot be parsed.
pub open spec fn entries_shown(raw: Seq<char>) -> Seq<dump::DumpEntryView> {
    if raw.len() == 0 {
        Seq::empty()
    } else {
        match dump::dump_of(raw) {
            Some(entries) => entries,
            None => Seq::empty(),
        }
    }
}

fn entries_or_none(raw: &str) -> (r: Vec<DumpEntry>)
    ensures
        dump::entries_view(r@) == entries_shown(raw@),
{
    let none: Vec<DumpEntry> = Vec::new();
    assert(dump::entries_view(none@) =~= Seq::empty());
    if raw.is_empty() {
        return none;
    }
    match parse_dump(raw) {
        Some(entries) => entries,
        None => none,
    }
}

/// What the kernel maps show of a loaded enforcer.
#[derive(Debug)]
pub struct Status {
    /// The protected PIDs in ascending order.
    pub protected_pids: Vec<i64>,
    /// The statistics.
    pub stats: Stats,
}

/// The members of the statistics object: the counters that are shown, by label.
pub open spec fn stats_members(stats: StatsView) -> Map<Seq<char>, Seq<char>> {
    let none = json::empty_members();
    let first = json::with_optional(none, "checked"@, stats.checked);
    let second = json::with_optional(first, "allowed"@, stats.allowed);
    let third = json::with_optional(second, "denied"@, stats.denied);
    json::with_optional(third, "forked_in"@, stats.forked_in)
}

/// The members of the status object.
pub open spec fn status_members(pids: Seq<i64>, stats: StatsView) -> Map<Seq<char>, Seq<char>> {
    json::empty_members().insert("loaded"@, "true"@).insert(
        "protected_pids"@,
        json::integers_text(pids),
    ).insert("stats"@, json::object_text(stats_members(stats)))
}

impl Stats {
    fn to_value(&self) -> (r: serde_json::Value)
        ensures
            json::value_text(r) == json::object_text(stats_members(self@)),
    {
        let mut m = no_members();
        if let Some(v) = &self.checked {
            set_member(&mut m, "checked", copy_value(v));
        }
        if let Some(v) = &self.allowed {
            set_member(&mut m, "allowed", copy_value(v));
        }
        if let Some(v) = &self.denied {
            set_member(&mut m, "denied", copy_value(v));
        }
        if let Some(v) = &self.forked_in {
            set_member(&mut m, "forked_in", copy_value(v));
        }
        object_value(m)
    }
}

impl Status {
    /// The status tells what these dumps show.
    pub open spec fn tells(self, pids_raw: Seq<char>, stats_raw: Seq<char>) -> bool {
        &&& sorted_from(self.protected_pids@, keys_in(entries_shown(pids_raw)))
        &&& self.stats@ == stats_in(entries_shown(stats_raw))
    }

    /// The status that the dumps of the two maps show. A dump that is empty or
    /// cannot be parsed counts as an empty map.
    pub fn from_dumps(pids_raw: &str, stats_raw: &str) -> (r: Status)
        ensures
            r.tells(pids_raw@, stats_raw@),
    {
        let pids = entries_or_none(pids_raw);
        let stats = entries_or_none(stats_raw);
        Status { protected_pids: pids_of_entries(&pids), stats: stats_of_entries(&stats) }
    }

    fn to_members(&self) -> (r: serde_json::Map<String, serde_json::Value>)
        ensures
            json::members(r) == status_members(self.protected_pids@, self.stats@),
    {
        let mut m = no_members();
        set_member(&mut m, "loaded", bool_value(true));
        set_member(&mut m, "protected_pids", integers_value(&self.protected_pids));
        set_member(&mut m, "stats", self.stats.to_value());
        m
    }
}

/// The status as JSON that the dumps of the two maps show: an object with the
/// members `loaded`, `protected_pids` and `stats`. A dump that is empty or
/// cannot be parsed counts as an empty map.
pub fn assemble_status(pids_raw: &str, stats_raw: &str) -> (r: serde_json::Value)
    ensures
        exists|pids: Seq<i64>| #[trigger]
            sorted_from(pids, keys_in(entries_shown(pids_raw@))) && json::value_text(r)
                == json::object_text(status_members(pids, stats_in(entries_shown(stats_raw@))))
                && json::json_member(json::value_text(r), "protected_pids"@) == Some(
                json::integers_text(pids),
            ),
        json::json_member(json::value_text(r), "loaded"@) == Some("true"@),
        json::json_member(json::value_text(r), "stats"@) == Some(
            json::object_text(stats_members(stats_in(entries_shown(stats_raw@)))),
        ),
{
    let status = Status::from_dumps(pids_raw, stats_raw);
    proof {
        reveal_strlit("loaded");
        reveal_strlit("protected_pids");
        reveal_strlit("stats");
        assert("loaded"@.len() == 6 && "protected_pids"@.len() == 14 && "stats"@.len() == 5);
    }
    object_value(status.to_members())
}

// ---------------------------------------------------------------------------
// The command
// ---------------------------------------------------------------------------

/// What there is to report.
#[derive(Debug)]
pub enum StatusReport {
    /// The enforcer is not loaded.
    NotLoaded,
    /// The enforcer is loaded.
    Loaded {
        /// What the kernel maps show.
        status: Status,
        /// `enforce` or `audit`.
        mode: String,
        /// Seconds until the watchdog fires, `None` for a permanent arm.
        ttl_remaining_s: Option<u64>,
        /// The profile, where it is known.
        profile: Option<String>,
    },
}

/// The word for the mode that a dump of the configuration map shows; where it
/// shows none, the enforcer enforces.
pub open spec fn mode_told(raw: Seq<char>) -> Seq<char> {
    match audit::mode_shown(raw) {
        Some(mode) => audit::mode_word(mode),
        None => audit::mode_word(MODE_ENFORCE),
    }
}

/// `report` tells what the three dumps show.
pub open spec fn report_tells(
    report: StatusReport,
    pids_raw: Seq<char>,
    stats_raw: Seq<char>,
    config_raw: Seq<char>,
) -> bool {
    match report {
        StatusReport::NotLoaded => false,
        StatusReport::Loaded { status, mode, .. } => status.tells(pids_raw, stats_raw) && mode@
            == mode_told(config_raw),
    }
}

/// The members of the object that a report on a loaded enforcer is printed as.
/// A profile that is not known is left out.
pub open spec fn loaded_members(
    status: Status,
    mode: Seq<char>,
    ttl_remaining_s: Option<u64>,
    profile: Option<Seq<char>>,
) -> Map<Seq<char>, Seq<char>> {
    let known = status_members(status.protected_pids@, status.stats@).insert(
        "mode"@,
        json::json_string(mode),
    ).insert("ttl_remaining_s"@, json::count_text(ttl_remaining_s));
    match profile {
        Some(name) => known.insert("profile"@, json::json_string(name)),
        None => known,
    }
}

impl StatusReport {
    /// The report as JSON text: on one line where the enforcer is not loaded,
    /// else over several.
    pub fn to_text(&self) -> (r: String)
        ensures
            r@ == match *self {
                StatusReport::NotLoaded => json::object_text(map!["loaded"@ => "false"@]),
                StatusReport::Loaded { status, mode, ttl_remaining_s, profile } =>
                    json::json_pretty(
                    json::object_text(
                        loaded_members(status, mode@, ttl_remaining_s, text::opt_text(profile)),
                    ),
                ),
            },
    {
        match self {
            StatusReport::NotLoaded => {
                let mut m = no_members();
                set_member(&mut m, "loaded", bool_value(false));
                assert(json::members(m) =~= map!["loaded"@ => "false"@]);
                compact(&object_value(m))
            },
            StatusReport::Loaded { status, mode, ttl_remaining_s, profile } => {
                let mut m = status.to_members();
                set_member(&mut m, "mode", string_value(mode.as_str()));
                set_member(&mut m, "ttl_remaining_s", count_value(*ttl_remaining_s));
                if let Some(name) = profile {
                    set_member(&mut m, "profile", string_value(name.as_str()));
                }
                pretty_text(&object_value(m))
            },
        }
    }
}

/// The report on a loaded enforcer.
pub fn loaded_report(
    pids_raw: &str,
    stats_raw: &str,
    config_raw: &str,
    ttl_remaining_s: Option<u64>,
    profile: Option<String>,
) -> (r: StatusReport)
    ensures
        report_tells(r, pids_raw@, stats_raw@, config_raw@),
        r->ttl_remaining_s == ttl_remaining_s,
        r->profile == profile,
{
    let mode = match parse_mode(config_raw) {
        Some(mode) => mode_label(mode),
        None => mode_label(MODE_ENFORCE),
    };
    StatusReport::Loaded {
        status: Status::from_dumps(pids_raw, stats_raw),
        mode: mode.to_owned(),
        ttl_remaining_s,
        profile,
    }
}

/// The seconds left of an arm by the clock; `None` without an arm or for a
/// permanent one.
pub open spec fn ttl_told<C: Clock>(
    arm: Option<DeadmanState>,
    clock: &C,
    ttl: Option<u64>,
) -> bool {
    match arm {
        Some(state) => if state.expires_at is None {
            ttl is None
        } else {
            exists|now: u64|
                #[trigger] call_ensures(C::now_secs, (clock,), now) && ttl == deadman::left_at(
                    state,
                    now,
                )
        },
        None => ttl is None,
    }
}

/// The calls of a report on a loaded enforcer, with these dumps.
pub open spec fn status_calls(
    pids_raw: Seq<char>,
    stats_raw: Seq<char>,
    config_raw: Seq<char>,
) -> Seq<BpfCall> {
    seq![
        BpfCall::IsLoaded(true),
        BpfCall::Dump { pinned: PINNED_MAP_PIDS@, dump: pids_raw },
        BpfCall::Dump { pinned: PINNED_MAP_STATS@, dump: stats_raw },
        BpfCall::Dump { pinned: PINNED_MAP_CONFIG@, dump: config_raw },
    ]
}

/// What reporting does and comes to, as far as the kernel is asked: nothing but
/// the answer where the enforcer is not loaded, else one dump of each map.
pub open spec fn status_ran(calls: Seq<BpfCall>, report: StatusReport) -> bool {
    ||| calls == seq![BpfCall::IsLoaded(false)] && report is NotLoaded
    ||| exists|p: Seq<char>, s: Seq<char>, c: Seq<char>|
        calls == #[trigger] status_calls(p, s, c) && report_tells(report, p, s, c)
}

/// Reports the enforcer's status. `arm` is the stored state of the deadman
/// timer and `profile` the profile in force, each where it is known.
pub fn cmd_status<O: BpfOps, C: Clock>(
    ops: &mut BpfSession<O>,
    arm: Option<DeadmanState>,
    profile: Option<String>,
    clock: &C,
) -> (r: StatusReport)
    ensures
        exists|calls: Seq<BpfCall>| #[trigger]
            final(ops).made(old(ops), calls) && status_ran(calls, r),
        r is Loaded ==> ttl_told(arm, clock, r->ttl_remaining_s) && r->profile == profile,
{
    let ghost start = *ops;
    let loaded = ops.is_loaded();
    let ghost asked = *ops;
    if !loaded {
        return StatusReport::NotLoaded;
    }
    let pids_raw = ops.map_dump_json(PINNED_MAP_PIDS);
    let ghost first = *ops;
    let stats_raw = ops.map_dump_json(PINNED_MAP_STATS);
    let ghost second = *ops;
    let config_raw = ops.map_dump_json(PINNED_MAP_CONFIG);
    proof {
        let all = status_calls(pids_raw@, stats_raw@, config_raw@);
        session::lemma_made_trans(&start, &asked, &first, seq![all[0]], seq![all[1]]);
        session::lemma_made_trans(
            &start,
            &first,
            &second,
            seq![all[0]] + seq![all[1]],
            seq![all[2]],
        );
        session::lemma_made_trans(
            &start,
            &second,
            ops,
            seq![all[0]] + seq![all[1]] + seq![all[2]],
            seq![all[3]],
        );
        assert(seq![all[0]] + seq![all[1]] + seq![all[2]] + seq![all[3]] =~= all);
    }
    let ttl = match &arm {
        Some(state) => ttl_remaining(state, clock),
        None => None,
    };
    loaded_report(pids_raw.as_str(), stats_raw.as_str(), config_raw.as_str(), ttl, profile)
}

// ---------------------------------------------------------------------------
// Laws
// ---------------------------------------------------------------------------

/// The ascending order of a list of numbers is one list.
pub proof fn law_sorted_unique(a: Seq<i64>, b: Seq<i64>, v: Seq<i64>)
    requires
        sorted_from(a, v),
        sorted_from(b, v),
    ensures
        a == b,
{
    let leq = |x: i64, y: i64| x <= y;
    assert(vstd::relations::sorted_by(a, leq));
    assert(vstd::relations::sorted_by(b, leq));
    assert(vstd::relations::total_ordering(leq));
    vstd::seq_lib::lemma_sorted_unique(a, b, leq);
}

/// No protected PID is lost and none is made up: the numbers in the status are
/// the integer keys of the dump.
pub proof fn law_status_keeps_pids(
    status: Status,
    pids_raw: Seq<char>,
    stats_raw: Seq<char>,
    pid: i64,
)
    requires
        status.tells(pids_raw, stats_raw),
    ensures
        status.protected_pids@.contains(pid) <==> keys_in(entries_shown(pids_raw)).contains(pid),
        status.protected_pids@.len() == keys_in(entries_shown(pids_raw)).len(),
{
    let keys = keys_in(entries_shown(pids_raw));
    status.protected_pids@.to_multiset_ensures();
    keys.to_multiset_ensures();
    assert(status.protected_pids@.to_multiset().count(pid) == keys.to_multiset().count(pid));
}

/// A dump that is empty or cannot be parsed counts as an empty map.
pub proof fn law_unreadable_dump_is_empty(status: Status, pids_raw: Seq<char>, stats_raw: Seq<char>)
    requires
        status.tells(pids_raw, stats_raw),
    ensures
        pids_raw.len() == 0 || dump::dump_of(pids_raw) is None ==> status.protected_pids@.len()
            == 0,
        stats_raw.len() == 0 || dump::dump_of(stats_raw) is None ==> status.stats@ == no_stats(),
{
    law_status_keeps_pids(status, pids_raw, stats_raw, 0);
}

/// Reporting changes nothing.
pub proof fn law_status_changes_nothing(
    k: bpf::Kernel,
    calls: Seq<BpfCall>,
    report: StatusReport,
)
    requires
        status_ran(calls, report),
    ensures
        bpf::after_calls(k, calls) == k,
{
    assert forall|i: int| 0 <= i < calls.len() implies bpf::after_call(k, #[trigger] calls[i])
        == k by {}
    lemma_no_effect(k, calls);
}

proof fn lemma_no_effect(k: bpf::Kernel, calls: Seq<BpfCall>)
    requires
        forall|i: int| 0 <= i < calls.len() ==> bpf::after_call(k, #[trigger] calls[i]) == k,
    ensures
        bpf::after_calls(k, calls) == k,
    decreases calls.len(),
{
    if calls.len() > 0 {
        lemma_no_effect(k, calls.drop_last());
        assert(calls.last() == calls[calls.len() - 1]);
    }
}

/// The report on an enforcer that is not loaded, letter for letter.
pub proof fn law_not_loaded_text()
    ensures
        json::object_text(map!["loaded"@ => "false"@]) == "{\"loaded\":false}"@,
{
    reveal_strlit("{");
    reveal_strlit("}");
    reveal_strlit(":");
    reveal_strlit("false");
    reveal_strlit("loaded");
    reveal_strlit("{\"loaded\":false}");
    json::law_plain_string("loaded"@);
    json::law_single_member("loaded"@, "false"@);
    assert("{"@ + (json::json_string("loaded"@) + ":"@ + "false"@) + "}"@
        =~= "{\"loaded\":false}"@);
}

} // verus!
