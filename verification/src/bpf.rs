//! The enforcer's commands.
//!
//! All privileged and external work stands behind the [`BpfOps`] trait, so the
//! commands can be driven without a kernel. A command works in a
//! [`BpfSession`], and its contract says which calls it makes. It reports what
//! there is to print; it prints nothing itself.

use vstd::prelude::*;

use crate::json;
use crate::json::{
    bool_value, compact, integers_value, no_members, object_value, set_member, string_value,
};
use crate::pids;
use crate::pids::pid_to_key_bytes;
use crate::session;
use crate::session::{BpfCall, BpfSession};
use crate::text;
use crate::text::{below, occurs, to_chars};

verus! {

/// Path where the BPF programs and maps are pinned.
pub const BPF_ROOT: &'static str = "/sys/fs/bpf/bpolicy";
/// The pin that signals that the enforcer is loaded.
pub const LOADED_PIN: &'static str = "/sys/fs/bpf/bpolicy/file_open_check";
/// Pinned map of the protected PIDs.
pub const PINNED_MAP_PIDS: &'static str = "/sys/fs/bpf/bpolicy/protected_pids";
/// Pinned map of the allowed path prefixes.
pub const PINNED_MAP_ALLOWLIST: &'static str = "/sys/fs/bpf/bpolicy/allowlist";
/// Pinned map of the statistics.
pub const PINNED_MAP_STATS: &'static str = "/sys/fs/bpf/bpolicy/stats";
/// Where the BPF object lies below the home directory.
pub const DEFAULT_BPF_OBJ_SUFFIX: &'static str = ".local/src/bpolicy/bpolicy.bpf.o";

/// The privileged and external operations.
pub trait BpfOps {
    /// Whether the enforcer's pin exists, that is, whether it is loaded.
    fn is_loaded(&self) -> bool;

    /// Loads the BPF object at `obj_path` and pins it below `bpf_root`.
    fn load_prog(&self, obj_path: &str, bpf_root: &str) -> Result<(), String>;

    /// Removes `bpf_root` with all it holds.
    fn unload_prog(&self, bpf_root: &str) -> Result<(), String>;

    /// Sets a key of a pinned map to one.
    fn map_update(&self, pinned: &str, key_bytes: &[String]) -> Result<(), String>;

    /// Deletes a key from a pinned map; a missing key is no error.
    fn map_delete(&self, pinned: &str, key_bytes: &[String]) -> Result<(), String>;

    /// Adds a path prefix to a pinned allow-list.
    fn allowlist_add_prefix(&self, pinned: &str, prefix: &str) -> Result<(), String>;

    /// Dumps a pinned map as JSON, empty where that fails.
    fn map_dump_json(&self, pinned: &str) -> String;

    /// Prints trace lines about the enforcer, `n` of them, or without end
    /// where `n` is zero.
    fn tail_trace_pipe(&self, n: usize) -> Result<(), String>;

    /// The path of the BPF object to load.
    fn obj_path(&self) -> String;
}

/// Where the BPF object lies: at `chosen`, else at its usual place below the
/// home directory, which is `/root` where it is not known.
pub fn default_obj_path(chosen: Option<&str>, home: Option<&str>) -> (r: String)
    ensures
        r@ == match (chosen, home) {
            (Some(path), _) => path@,
            (None, Some(h)) => text::join_path(h@, DEFAULT_BPF_OBJ_SUFFIX@),
            (None, None) => text::join_path("/root"@, DEFAULT_BPF_OBJ_SUFFIX@),
        },
{
    match (chosen, home) {
        (Some(path), _) => path.to_owned(),
        (None, Some(h)) => below(h, DEFAULT_BPF_OBJ_SUFFIX),
        (None, None) => below("/root", DEFAULT_BPF_OBJ_SUFFIX),
    }
}

/// The message where a command needs the enforcer loaded.
pub open spec fn not_loaded() -> Seq<char> {
    "bpolicy not loaded — run: bpolicy load"@
}

// ---------------------------------------------------------------------------
// Load and unload
// ---------------------------------------------------------------------------

/// What loading did.
#[derive(Debug, Clone, Copy, PartialEq, Eq, Structural)]
pub enum LoadReport {
    /// The enforcer was loaded before; nothing was done.
    AlreadyLoaded,
    /// The enforcer was loaded below [`BPF_ROOT`].
    Loaded,
}

/// What unloading did.
#[derive(Debug, Clone, Copy, PartialEq, Eq, Structural)]
pub enum UnloadReport {
    /// The enforcer was not loaded; nothing was done.
    AlreadyUnloaded,
    /// The enforcer was unloaded.
    Unloaded,
}

impl LoadReport {
    /// The members of the object that the report is printed as.
    pub open spec fn printed_members(self) -> Map<Seq<char>, Seq<char>> {
        match self {
            LoadReport::AlreadyLoaded => map!["already_loaded"@ => "true"@],
            LoadReport::Loaded => map![
                "loaded"@ => "true"@,
                "path"@ => json::json_string(BPF_ROOT@),
            ],
        }
    }

    /// The report as JSON text.
    pub fn to_text(&self) -> (r: String)
        ensures
            r@ == json::object_text(self.printed_members()),
    {
        let mut m = no_members();
        match self {
            LoadReport::AlreadyLoaded => {
                set_member(&mut m, "already_loaded", bool_value(true));
            },
            LoadReport::Loaded => {
                set_member(&mut m, "loaded", bool_value(true));
                set_member(&mut m, "path", string_value(BPF_ROOT));
            },
        }
        assert(json::members(m) =~= self.printed_members());
        compact(&object_value(m))
    }
}

impl UnloadReport {
    /// The members of the object that the report is printed as.
    pub open spec fn printed_members(self) -> Map<Seq<char>, Seq<char>> {
        match self {
            UnloadReport::AlreadyUnloaded => map!["already_unloaded"@ => "true"@],
            UnloadReport::Unloaded => map!["unloaded"@ => "true"@],
        }
    }

    /// The report as JSON text.
    pub fn to_text(&self) -> (r: String)
        ensures
            r@ == json::object_text(self.printed_members()),
    {
        let mut m = no_members();
        match self {
            UnloadReport::AlreadyUnloaded => {
                set_member(&mut m, "already_unloaded", bool_value(true));
            },
            UnloadReport::Unloaded => {
                set_member(&mut m, "unloaded", bool_value(true));
            },
        }
        assert(json::members(m) =~= self.printed_members());
        compact(&object_value(m))
    }
}

/// The calls of a load that goes ahead.
pub open spec fn load_calls(path: Seq<char>, answer: Result<(), String>) -> Seq<BpfCall> {
    seq![
        BpfCall::IsLoaded(false),
        BpfCall::ObjPath(path),
        BpfCall::Load { path, root: BPF_ROOT@, answer },
    ]
}

/// `ops` has answered a load with success.
pub open spec fn load_done<O: BpfOps>(ops: O) -> bool {
    exists|path: Seq<char>| session::all_answered(ops, #[trigger] load_calls(path, Ok(())))
}

/// What loading does and comes to: the enforcer is loaded once, from the path of
/// the object, unless it is loaded already.
pub open spec fn load_ran(calls: Seq<BpfCall>, r: Result<LoadReport, String>) -> bool {
    ||| calls == seq![BpfCall::IsLoaded(true)] && r == Ok::<LoadReport, String>(
        LoadReport::AlreadyLoaded,
    )
    ||| exists|path: Seq<char>, answer: Result<(), String>|
        calls == #[trigger] load_calls(path, answer) && r == match answer {
            Ok(_) => Ok(LoadReport::Loaded),
            Err(e) => Err(e),
        }
}

/// Loads the enforcer unless it is loaded already.
pub fn cmd_load<O: BpfOps>(ops: &mut BpfSession<O>) -> (r: Result<LoadReport, String>)
    ensures
        exists|calls: Seq<BpfCall>| #[trigger]
            final(ops).made(old(ops), calls) && load_ran(calls, r),
{
    let ghost start = *ops;
    let loaded = ops.is_loaded();
    let ghost asked = *ops;
    if loaded {
        return Ok(LoadReport::AlreadyLoaded);
    }
    let path = ops.obj_path();
    let ghost located = *ops;
    let done = ops.load_prog(path.as_str(), BPF_ROOT);
    proof {
        let last = BpfCall::Load { path: path@, root: BPF_ROOT@, answer: done };
        let first = seq![BpfCall::IsLoaded(false)];
        let second = seq![BpfCall::ObjPath(path@)];
        session::lemma_made_trans(&start, &asked, &located, first, second);
        session::lemma_made_trans(&start, &located, ops, first + second, seq![last]);
        assert(first + second + seq![last] =~= load_calls(path@, done));
    }
    match done {
        Ok(_) => Ok(LoadReport::Loaded),
        Err(e) => Err(e),
    }
}

/// The calls of an unload that goes ahead.
pub open spec fn unload_calls(answer: Result<(), String>) -> Seq<BpfCall> {
    seq![BpfCall::IsLoaded(true), BpfCall::Unload { root: BPF_ROOT@, answer }]
}

/// What unloading does and comes to: the enforcer is removed once, unless it is
/// not loaded.
pub open spec fn unload_ran(calls: Seq<BpfCall>, r: Result<UnloadReport, String>) -> bool {
    ||| calls == seq![BpfCall::IsLoaded(false)] && r == Ok::<UnloadReport, String>(
        UnloadReport::AlreadyUnloaded,
    )
    ||| exists|answer: Result<(), String>|
        calls == #[trigger] unload_calls(answer) && r == match answer {
            Ok(_) => Ok(UnloadReport::Unloaded),
            Err(e) => Err(e),
        }
}

/// Unloads the enforcer unless it is not loaded.
pub fn cmd_unload<O: BpfOps>(ops: &mut BpfSession<O>) -> (r: Result<UnloadReport, String>)
    ensures
        exists|calls: Seq<BpfCall>| #[trigger]
            final(ops).made(old(ops), calls) && unload_ran(calls, r),
{
    let ghost start = *ops;
    let loaded = ops.is_loaded();
    let ghost asked = *ops;
    if !loaded {
        return Ok(UnloadReport::AlreadyUnloaded);
    }
    let done = ops.unload_prog(BPF_ROOT);
    proof {
        let first = seq![BpfCall::IsLoaded(true)];
        let last = seq![BpfCall::Unload { root: BPF_ROOT@, answer: done }];
        session::lemma_made_trans(&start, &asked, ops, first, last);
        assert(first + last =~= unload_calls(done));
    }
    match done {
        Ok(_) => Ok(UnloadReport::Unloaded),
        Err(e) => Err(e),
    }
}

// ---------------------------------------------------------------------------
// Enforce and release
// ---------------------------------------------------------------------------

/// The keys of PIDs in the map of protected PIDs, in order: what enforcing sets
/// and what releasing deletes.
pub open spec fn pid_keys(pids: Seq<u32>) -> Seq<Seq<Seq<char>>> {
    pids.map_values(|pid: u32| pids::pid_key(pid))
}

/// The update that protects the PID at position `i`.
pub open spec fn protect_call(pids: Seq<u32>) -> spec_fn(int, Result<(), String>) -> BpfCall {
    |i: int, answer: Result<(), String>|
        BpfCall::Update { pinned: PINNED_MAP_PIDS@, key: pid_keys(pids)[i], answer }
}

/// The deletion that releases the PID at position `i`.
pub open spec fn release_call(pids: Seq<u32>) -> spec_fn(int, Result<(), String>) -> BpfCall {
    |i: int, answer: Result<(), String>|
        BpfCall::Delete { pinned: PINNED_MAP_PIDS@, key: pid_keys(pids)[i], answer }
}

/// What a command on PIDs does and comes to: nothing but a message where the
/// enforcer is not loaded, else one call for each PID, in order, up to the first
/// failure.
pub open spec fn pids_ran(
    calls: Seq<BpfCall>,
    n: nat,
    call: spec_fn(int, Result<(), String>) -> BpfCall,
    r: Result<(), String>,
) -> bool {
    ||| calls == seq![BpfCall::IsLoaded(false)] && r is Err && r->Err_0@ == not_loaded()
    ||| calls.len() > 0 && calls.first() == BpfCall::IsLoaded(true) && session::in_order(
        calls.drop_first(),
        n,
        call,
        r,
    )
}

/// What enforcing does and comes to.
pub open spec fn enforce_ran(calls: Seq<BpfCall>, pids: Seq<u32>, r: Result<(), String>) -> bool {
    pids_ran(calls, pids.len(), protect_call(pids), r)
}

/// What releasing does and comes to.
pub open spec fn release_ran(calls: Seq<BpfCall>, pids: Seq<u32>, r: Result<(), String>) -> bool {
    pids_ran(calls, pids.len(), release_call(pids), r)
}

/// Adds PIDs to the protected set, in order, up to the first failure.
pub fn cmd_enforce<O: BpfOps>(ops: &mut BpfSession<O>, pids: &[u32]) -> (r: Result<(), String>)
    ensures
        exists|calls: Seq<BpfCall>| #[trigger]
            final(ops).made(old(ops), calls) && enforce_ran(calls, pids@, r),
{
    let ghost start = *ops;
    let loaded = ops.is_loaded();
    if !loaded {
        return Err("bpolicy not loaded — run: bpolicy load".to_owned());
    }
    let ghost call = protect_call(pids@);
    let ghost head = seq![BpfCall::IsLoaded(true)];
    let ghost mut calls: Seq<BpfCall> = Seq::empty();
    assert(head + calls =~= head);
    for i in 0..pids.len()
        invariant
            start == *old(ops),
            head == seq![BpfCall::IsLoaded(true)],
            call == protect_call(pids@),
            ops.made(&start, head + calls),
            session::in_order(calls, i as nat, call, Ok(())),
    {
        let ghost between = *ops;
        let key = pid_to_key_bytes(pids[i]);
        let done = ops.map_update(PINNED_MAP_PIDS, key.as_slice());
        proof {
            let made = BpfCall::Update {
                pinned: PINNED_MAP_PIDS@,
                key: text::strings(key@),
                answer: done,
            };
            assert(made == call(i as int, done));
            session::lemma_made_trans(&start, &between, ops, head + calls, seq![made]);
            assert(head + calls + seq![made] =~= head + calls.push(made));
            calls = calls.push(made);
        }
        match done {
            Ok(unit) => {
                assert(unit == ());
            },
            Err(e) => {
                assert((head + calls).drop_first() =~= calls);
                return Err(e);
            },
        }
    }
    assert((head + calls).drop_first() =~= calls);
    Ok(())
}

/// Removes PIDs from the protected set, in order, up to the first failure.
pub fn cmd_release<O: BpfOps>(ops: &mut BpfSession<O>, pids: &[u32]) -> (r: Result<(), String>)
    ensures
        exists|calls: Seq<BpfCall>| #[trigger]
            final(ops).made(old(ops), calls) && release_ran(calls, pids@, r),
{
    let ghost start = *ops;
    let loaded = ops.is_loaded();
    if !loaded {
        return Err("bpolicy not loaded — run: bpolicy load".to_owned());
    }
    let ghost call = release_call(pids@);
    let ghost head = seq![BpfCall::IsLoaded(true)];
    let ghost mut calls: Seq<BpfCall> = Seq::empty();
    assert(head + calls =~= head);
    for i in 0..pids.len()
        invariant
            start == *old(ops),
            head == seq![BpfCall::IsLoaded(true)],
            call == release_call(pids@),
            ops.made(&start, head + calls),
            session::in_order(calls, i as nat, call, Ok(())),
    {
        let ghost between = *ops;
        let key = pid_to_key_bytes(pids[i]);
        let done = ops.map_delete(PINNED_MAP_PIDS, key.as_slice());
        proof {
            let made = BpfCall::Delete {
                pinned: PINNED_MAP_PIDS@,
                key: text::strings(key@),
                answer: done,
            };
            assert(made == call(i as int, done));
            session::lemma_made_trans(&start, &between, ops, head + calls, seq![made]);
            assert(head + calls + seq![made] =~= head + calls.push(made));
            calls = calls.push(made);
        }
        match done {
            Ok(unit) => {
                assert(unit == ());
            },
            Err(e) => {
                assert((head + calls).drop_first() =~= calls);
                return Err(e);
            },
        }
    }
    assert((head + calls).drop_first() =~= calls);
    Ok(())
}

/// The addition of the prefix at position `i` to the kernel allow-list.
pub open spec fn prefix_call(prefixes: Seq<Seq<char>>) -> spec_fn(int, Result<(), String>) -> BpfCall {
    |i: int, answer: Result<(), String>|
        BpfCall::AddPrefix { pinned: PINNED_MAP_ALLOWLIST@, prefix: prefixes[i], answer }
}

/// Adds the prefixes of a profile to the kernel allow-list, in order, up to the
/// first failure.
pub fn apply_prefixes<O: BpfOps>(ops: &mut BpfSession<O>, prefixes: &Vec<String>) -> (r: Result<
    (),
    String,
>)
    ensures
        exists|calls: Seq<BpfCall>| #[trigger]
            final(ops).made(old(ops), calls) && session::in_order(
                calls,
                prefixes@.len(),
                prefix_call(text::strings(prefixes@)),
                r,
            ),
{
    let ghost start = *ops;
    let ghost call = prefix_call(text::strings(prefixes@));
    let ghost mut calls: Seq<BpfCall> = Seq::empty();
    assert(start.log() + calls =~= start.log());
    for i in 0..prefixes.len()
        invariant
            start == *old(ops),
            call == prefix_call(text::strings(prefixes@)),
            ops.made(&start, calls),
            session::in_order(calls, i as nat, call, Ok(())),
    {
        let ghost between = *ops;
        let done = ops.allowlist_add_prefix(PINNED_MAP_ALLOWLIST, prefixes[i].as_str());
        proof {
            let made = BpfCall::AddPrefix {
                pinned: PINNED_MAP_ALLOWLIST@,
                prefix: prefixes@[i as int]@,
                answer: done,
            };
            assert(made == call(i as int, done));
            session::lemma_made_trans(&start, &between, ops, calls, seq![made]);
            assert(calls + seq![made] =~= calls.push(made));
            calls = calls.push(made);
        }
        match done {
            Ok(unit) => {
                assert(unit == ());
            },
            Err(e) => {
                return Err(e);
            },
        }
    }
    Ok(())
}

/// The JSON text that names PIDs under a label.
pub open spec fn pids_text(label: Seq<char>, pids: Seq<u32>) -> Seq<char> {
    json::object_text(map![label => json::integers_text(pids.map_values(|p: u32| p as i64))])
}

fn labelled_pids(label: &str, pids: &[u32]) -> (r: String)
    ensures
        r@ == pids_text(label@, pids@),
{
    let mut numbers: Vec<i64> = Vec::new();
    let ghost wanted = pids@.map_values(|p: u32| p as i64);
    for i in 0..pids.len()
        invariant
            wanted == pids@.map_values(|p: u32| p as i64),
            numbers@ =~= wanted.take(i as int),
    {
        numbers.push(pids[i] as i64);
    }
    assert(numbers@ =~= wanted);
    let mut m = no_members();
    set_member(&mut m, label, integers_value(&numbers));
    assert(json::members(m) =~= map![label@ => json::integers_text(wanted)]);
    compact(&object_value(m))
}

/// What [`cmd_enforce`] has to print once it is done.
pub fn enforcing_text(pids: &[u32]) -> (r: String)
    ensures
        r@ == pids_text("enforcing"@, pids@),
{
    labelled_pids("enforcing", pids)
}

/// What [`cmd_release`] has to print once it is done.
pub fn released_text(pids: &[u32]) -> (r: String)
    ensures
        r@ == pids_text("released"@, pids@),
{
    labelled_pids("released", pids)
}

// ---------------------------------------------------------------------------
// Trace output
// ---------------------------------------------------------------------------

/// Prints trace lines about the enforcer.
pub fn cmd_log<O: BpfOps>(ops: &mut BpfSession<O>, n: usize) -> (r: Result<(), String>)
    ensures
        final(ops).made(old(ops), seq![BpfCall::Tail { n, answer: r }]),
{
    ops.tail_trace_pipe(n)
}

/// What to do with a trace line.
#[derive(Debug, Clone, Copy, PartialEq, Eq, Structural)]
pub enum TraceAction {
    /// The line is not about the enforcer.
    Skip,
    /// Print the line and go on.
    Show,
    /// Print the line; it is the last one.
    ShowAndStop,
}

/// Picks the trace lines to print.
#[derive(Debug)]
pub struct TraceTail {
    limit: usize,
    shown: usize,
}

/// A trace line is about the enforcer.
pub open spec fn about_enforcer(line: Seq<char>) -> bool {
    text::contains(line, "bpolicy"@)
}

/// What to do with a line, `left` lines before the last one; without a limit,
/// `left` is `None`.
pub open spec fn trace_action(left: Option<nat>, line: Seq<char>) -> TraceAction {
    if !about_enforcer(line) {
        TraceAction::Skip
    } else if left == Some(1nat) {
        TraceAction::ShowAndStop
    } else {
        TraceAction::Show
    }
}

/// How many lines are left to print after a line.
pub open spec fn trace_left(left: Option<nat>, line: Seq<char>) -> Option<nat> {
    if about_enforcer(line) && left is Some {
        Some((left->0 - 1) as nat)
    } else {
        left
    }
}

impl TraceTail {
    /// How many lines are left to print; `None` means without end.
    pub closed spec fn left(&self) -> Option<nat> {
        if self.limit == 0 {
            None
        } else {
            Some((self.limit - self.shown) as nat)
        }
    }

    /// No more lines were printed than asked for.
    #[verifier::type_invariant]
    closed spec fn within_limit(self) -> bool {
        self.shown <= self.limit
    }

    /// Prints `n` lines, or without end where `n` is zero.
    pub fn new(n: usize) -> (r: Self)
        ensures
            r.left() == (if n == 0 {
                None::<nat>
            } else {
                Some(n as nat)
            }),
    {
        TraceTail { limit: n, shown: 0 }
    }

    /// Decides on the next line. Nothing may follow the last one.
    pub fn observe(&mut self, line: &str) -> (r: TraceAction)
        requires
            old(self).left() != Some(0nat),
        ensures
            r == trace_action(old(self).left(), line@),
            final(self).left() == trace_left(old(self).left(), line@),
    {
        proof {
            use_type_invariant(&*self);
        }
        if !occurs(&to_chars(line), &to_chars("bpolicy")) {
            return TraceAction::Skip;
        }
        if self.limit == 0 {
            return TraceAction::Show;
        }
        let shown: usize = self.shown + 1;
        self.shown = shown;
        if shown >= self.limit {
            TraceAction::ShowAndStop
        } else {
            TraceAction::Show
        }
    }
}

// ---------------------------------------------------------------------------
// Laws
// ---------------------------------------------------------------------------

/// The lines that are printed out of a stream, when each is decided on in turn
/// until one is the last.
pub open spec fn printed(left: Option<nat>, lines: Seq<Seq<char>>) -> Seq<Seq<char>>
    decreases lines.len(),
{
    if lines.len() == 0 {
        Seq::empty()
    } else {
        match trace_action(left, lines.first()) {
            TraceAction::Skip => printed(
                trace_left(left, lines.first()),
                lines.drop_first(),
            ),
            TraceAction::Show => seq![lines.first()] + printed(
                trace_left(left, lines.first()),
                lines.drop_first(),
            ),
            TraceAction::ShowAndStop => seq![lines.first()],
        }
    }
}

/// The lines of a stream that are about the enforcer, in order.
pub open spec fn relevant(lines: Seq<Seq<char>>) -> Seq<Seq<char>>
    decreases lines.len(),
{
    if lines.len() == 0 {
        Seq::empty()
    } else if about_enforcer(lines.first()) {
        seq![lines.first()] + relevant(lines.drop_first())
    } else {
        relevant(lines.drop_first())
    }
}

/// With a limit, what is printed are the first lines about the enforcer, as
/// many as the limit says or as there are.
pub proof fn law_tail_prints_first_lines(n: nat, lines: Seq<Seq<char>>)
    requires
        n > 0,
    ensures
        printed(Some(n), lines) == relevant(lines).take(
            if n <= relevant(lines).len() {
                n as int
            } else {
                relevant(lines).len() as int
            },
        ),
    decreases lines.len(),
{
    let all = relevant(lines);
    if lines.len() > 0 {
        let rest = lines.drop_first();
        if !about_enforcer(lines.first()) {
            law_tail_prints_first_lines(n, rest);
        } else if n == 1 {
            assert(all.take(1) =~= seq![lines.first()]);
        } else {
            law_tail_prints_first_lines((n - 1) as nat, rest);
            let k = if n - 1 <= relevant(rest).len() {
                n - 1
            } else {
                relevant(rest).len() as int
            };
            assert(all.take(k + 1) =~= seq![lines.first()] + relevant(rest).take(k));
        }
    } else {
        assert(all.take(0) =~= Seq::empty());
    }
}

/// Without a limit, every line about the enforcer is printed.
pub proof fn law_tail_without_limit(lines: Seq<Seq<char>>)
    ensures
        printed(None, lines) == relevant(lines),
    decreases lines.len(),
{
    if lines.len() > 0 {
        law_tail_without_limit(lines.drop_first());
    }
}

/// The part of the kernel's state that the commands change.
pub struct Kernel {
    /// Whether the enforcer is loaded.
    pub loaded: bool,
    /// The keys in the map of protected PIDs.
    pub held: Set<Seq<Seq<char>>>,
}

/// The kernel after a call. A call that failed changes nothing, and the maps of
/// an enforcer go with it.
pub open spec fn after_call(k: Kernel, call: BpfCall) -> Kernel {
    match call {
        BpfCall::Load { answer: Ok(_), .. } => Kernel { loaded: true, held: Set::empty() },
        BpfCall::Unload { answer: Ok(_), .. } => Kernel { loaded: false, held: Set::empty() },
        BpfCall::Update { pinned, key, answer: Ok(_) } => if pinned == PINNED_MAP_PIDS@ {
            Kernel { held: k.held.insert(key), ..k }
        } else {
            k
        },
        BpfCall::Delete { pinned, key, answer: Ok(_) } => if pinned == PINNED_MAP_PIDS@ {
            Kernel { held: k.held.remove(key), ..k }
        } else {
            k
        },
        _ => k,
    }
}

/// The kernel after calls made in turn.
pub open spec fn after_calls(k: Kernel, calls: Seq<BpfCall>) -> Kernel
    decreases calls.len(),
{
    if calls.len() == 0 {
        k
    } else {
        after_call(after_calls(k, calls.drop_last()), calls.last())
    }
}

/// Whenever the kernel was asked whether the enforcer is loaded, it told the
/// truth.
pub open spec fn truthful(k: Kernel, calls: Seq<BpfCall>) -> bool {
    forall|i: int|
        0 <= i < calls.len() ==> (#[trigger] calls[i] matches BpfCall::IsLoaded(loaded) ==> loaded
            == after_calls(k, calls.take(i)).loaded)
}

proof fn lemma_one_call(k: Kernel, call: BpfCall)
    ensures
        after_calls(k, seq![call]) == after_call(k, call),
{
    reveal_with_fuel(after_calls, 2);
    assert(seq![call].drop_last() =~= Seq::empty());
}

proof fn lemma_starts_truthful(k: Kernel, calls: Seq<BpfCall>, loaded: bool)
    requires
        truthful(k, calls),
        calls.len() > 0,
        calls.first() == BpfCall::IsLoaded(loaded),
    ensures
        loaded == k.loaded,
{
    assert(calls[0] == BpfCall::IsLoaded(loaded));
    assert(calls.take(0) =~= Seq::empty());
}

proof fn lemma_load_effect(k: Kernel, calls: Seq<BpfCall>, r: Result<LoadReport, String>)
    requires
        truthful(k, calls),
        load_ran(calls, r),
    ensures
        k.loaded ==> calls == seq![BpfCall::IsLoaded(true)] && r == Ok::<LoadReport, String>(
            LoadReport::AlreadyLoaded,
        ) && after_calls(k, calls) == k,
        !k.loaded ==> (r is Ok <==> after_calls(k, calls).loaded) && r != Ok::<LoadReport, String>(
            LoadReport::AlreadyLoaded,
        ),
{
    if calls == seq![BpfCall::IsLoaded(true)] {
        lemma_starts_truthful(k, calls, true);
        lemma_one_call(k, BpfCall::IsLoaded(true));
    } else {
        lemma_starts_truthful(k, calls, false);
        reveal_with_fuel(after_calls, 4);
        let two = calls.drop_last();
        assert(two.drop_last().drop_last() =~= Seq::empty());
        assert(two.last() == calls[1] && two.drop_last().last() == calls[0]);
    }
}

/// Loading is idempotent: after a load that came to something good the enforcer
/// is loaded, and loading again asks whether it is, does nothing and says so.
pub proof fn law_load_idempotent(
    k: Kernel,
    first: Seq<BpfCall>,
    r: Result<LoadReport, String>,
    second: Seq<BpfCall>,
    again: Result<LoadReport, String>,
)
    requires
        truthful(k, first),
        load_ran(first, r),
        r is Ok,
        truthful(after_calls(k, first), second),
        load_ran(second, again),
    ensures
        after_calls(k, first).loaded,
        second == seq![BpfCall::IsLoaded(true)],
        again == Ok::<LoadReport, String>(LoadReport::AlreadyLoaded),
        after_calls(after_calls(k, first), second) == after_calls(k, first),
{
    lemma_load_effect(k, first, r);
    lemma_load_effect(after_calls(k, first), second, again);
}

proof fn lemma_unload_effect(k: Kernel, calls: Seq<BpfCall>, r: Result<UnloadReport, String>)
    requires
        truthful(k, calls),
        unload_ran(calls, r),
    ensures
        !k.loaded ==> calls == seq![BpfCall::IsLoaded(false)] && r == Ok::<UnloadReport, String>(
            UnloadReport::AlreadyUnloaded,
        ) && after_calls(k, calls) == k,
        k.loaded ==> (r is Ok <==> !after_calls(k, calls).loaded) && r != Ok::<
            UnloadReport,
            String,
        >(UnloadReport::AlreadyUnloaded),
{
    if calls == seq![BpfCall::IsLoaded(false)] {
        lemma_starts_truthful(k, calls, false);
        lemma_one_call(k, BpfCall::IsLoaded(false));
    } else {
        lemma_starts_truthful(k, calls, true);
        reveal_with_fuel(after_calls, 3);
        assert(calls.drop_last().drop_last() =~= Seq::empty());
        assert(calls.drop_last().last() == calls[0]);
    }
}

/// Unloading is idempotent: after an unload that came to something good the
/// enforcer is not loaded, and unloading again asks whether it is, does nothing
/// and says so.
pub proof fn law_unload_idempotent(
    k: Kernel,
    first: Seq<BpfCall>,
    r: Result<UnloadReport, String>,
    second: Seq<BpfCall>,
    again: Result<UnloadReport, String>,
)
    requires
        truthful(k, first),
        unload_ran(first, r),
        r is Ok,
        truthful(after_calls(k, first), second),
        unload_ran(second, again),
    ensures
        !after_calls(k, first).loaded,
        second == seq![BpfCall::IsLoaded(false)],
        again == Ok::<UnloadReport, String>(UnloadReport::AlreadyUnloaded),
        after_calls(after_calls(k, first), second) == after_calls(k, first),
{
    lemma_unload_effect(k, first, r);
    lemma_unload_effect(after_calls(k, first), second, again);
}

/// After a load that went ahead, an unload goes ahead too, and the enforcer is
/// not loaded where it came to something good.
pub proof fn law_load_then_unload(
    k: Kernel,
    first: Seq<BpfCall>,
    second: Seq<BpfCall>,
    r: Result<UnloadReport, String>,
)
    requires
        truthful(k, first),
        load_ran(first, Ok(LoadReport::Loaded)),
        truthful(after_calls(k, first), second),
        unload_ran(second, r),
    ensures
        !k.loaded,
        r matches Ok(report) ==> report == UnloadReport::Unloaded && second == unload_calls(Ok(()))
            && !after_calls(after_calls(k, first), second).loaded,
{
    lemma_load_effect(k, first, Ok(LoadReport::Loaded));
    lemma_unload_effect(after_calls(k, first), second, r);
    if r is Ok {
        let answer = choose|answer: Result<(), String>| second == #[trigger] unload_calls(answer);
        assert(second[1] == BpfCall::Unload { root: BPF_ROOT@, answer });
        assert(answer matches Ok(unit) ==> unit == ());
    }
}

proof fn lemma_keys_contain(keys: Seq<Seq<Seq<char>>>, n: int, key: Seq<Seq<char>>)
    requires
        0 < n <= keys.len(),
    ensures
        keys.take(n).contains(key) <==> keys.take(n - 1).contains(key) || key == keys[n - 1],
{
    let rest = keys.take(n - 1);
    assert(keys.take(n)[n - 1] == keys[n - 1]);
    if rest.contains(key) {
        let i = choose|i: int| 0 <= i < rest.len() && rest[i] == key;
        assert(keys.take(n)[i] == key);
    }
    if keys.take(n).contains(key) {
        let i = choose|i: int| 0 <= i < n && keys.take(n)[i] == key;
        if i < n - 1 {
            assert(rest[i] == key);
        }
    }
}

/// The kernel after the first `n` calls of a command on PIDs that succeeded.
proof fn lemma_pids_effect(
    k: Kernel,
    calls: Seq<BpfCall>,
    pids: Seq<u32>,
    protect: bool,
    n: int,
    key: Seq<Seq<char>>,
)
    requires
        if protect {
            enforce_ran(calls, pids, Ok(()))
        } else {
            release_ran(calls, pids, Ok(()))
        },
        0 <= n <= pids.len(),
    ensures
        calls.len() == pids.len() + 1,
        after_calls(k, calls.take(n + 1)).loaded == k.loaded,
        after_calls(k, calls.take(n + 1)).held.contains(key) <==> (if protect {
            k.held.contains(key) || pid_keys(pids).take(n).contains(key)
        } else {
            k.held.contains(key) && !pid_keys(pids).take(n).contains(key)
        }),
    decreases n,
{
    let now = calls.take(n + 1);
    if n == 0 {
        assert(now =~= seq![BpfCall::IsLoaded(true)]);
        lemma_one_call(k, BpfCall::IsLoaded(true));
    } else {
        lemma_pids_effect(k, calls, pids, protect, n - 1, key);
        assert(now.drop_last() =~= calls.take(n));
        assert(now.last() == calls[n] && calls[n] == calls.drop_first()[n - 1]);
        lemma_keys_contain(pid_keys(pids), n, key);
    }
}

/// Enforcing protects the PIDs, and releasing undoes it: the keys that it
/// deletes are those that enforcing set. Every other PID is as it was, and where
/// none of the PIDs was protected before, all is as it was.
pub proof fn law_release_undoes_enforce(
    k: Kernel,
    enforced: Seq<BpfCall>,
    released: Seq<BpfCall>,
    pids: Seq<u32>,
    pid: u32,
)
    requires
        enforce_ran(enforced, pids, Ok(())),
        release_ran(released, pids, Ok(())),
    ensures
        ({
            let between = after_calls(k, enforced);
            let after = after_calls(between, released);
            let key = pids::pid_key(pid);
            &&& enforced.len() == released.len()
            &&& forall|i: int|
                0 < i < enforced.len() ==> #[trigger] released[i] == BpfCall::Delete {
                    pinned: enforced[i]->Update_pinned,
                    key: enforced[i]->Update_key,
                    answer: Ok(()),
                }
            &&& pids.contains(pid) ==> between.held.contains(key) && !after.held.contains(key)
            &&& !pids.contains(pid) ==> (between.held.contains(key) <==> k.held.contains(key)) && (
            after.held.contains(key) <==> k.held.contains(key))
            &&& (forall|i: int|
                0 <= i < pids.len() ==> !k.held.contains(#[trigger] pid_keys(pids)[i])) ==> after
                == k
        }),
{
    let keys = pid_keys(pids);
    let n = pids.len() as int;
    let between = after_calls(k, enforced);
    let after = after_calls(between, released);
    let key = pids::pid_key(pid);
    assert forall|x: Seq<Seq<char>>|
        (between.held.contains(x) <==> k.held.contains(x) || keys.contains(x)) && (
        #[trigger] after.held.contains(x) <==> between.held.contains(x) && !keys.contains(x)) by {
        lemma_pids_effect(k, enforced, pids, true, n, x);
        lemma_pids_effect(between, released, pids, false, n, x);
        assert(enforced.take(n + 1) =~= enforced && released.take(n + 1) =~= released);
        assert(keys.take(n) =~= keys);
    }
    lemma_pids_effect(k, enforced, pids, true, n, key);
    lemma_pids_effect(between, released, pids, false, n, key);
    assert(enforced.take(n + 1) =~= enforced && released.take(n + 1) =~= released);
    assert forall|i: int| 0 < i < enforced.len() implies #[trigger] released[i]
        == (BpfCall::Delete {
        pinned: enforced[i]->Update_pinned,
        key: enforced[i]->Update_key,
        answer: Ok(()),
    }) by {
        assert(enforced[i] == enforced.drop_first()[i - 1]);
        assert(released[i] == released.drop_first()[i - 1]);
    }
    assert(after.held.contains(key) || !after.held.contains(key));
    if pids.contains(pid) {
        let i = choose|i: int| 0 <= i < pids.len() && pids[i] == pid;
        assert(keys[i] == key);
    } else if keys.contains(key) {
        let i = choose|i: int| 0 <= i < keys.len() && keys[i] == key;
        pids::law_key_identifies_pid(pids[i], pid);
        assert(pids.contains(pids[i]));
    }
    if forall|i: int| 0 <= i < pids.len() ==> !k.held.contains(#[trigger] keys[i]) {
        assert forall|x: Seq<Seq<char>>| after.held.contains(x) <==> k.held.contains(x) by {
            if keys.contains(x) {
                let i = choose|i: int| 0 <= i < keys.len() && keys[i] == x;
                assert(!k.held.contains(keys[i]));
            }
        }
        assert(after.held =~= k.held);
    }
}

/// A command on PIDs changes nothing where the enforcer is not loaded.
pub proof fn law_pids_need_enforcer(
    k: Kernel,
    calls: Seq<BpfCall>,
    pids: Seq<u32>,
    r: Result<(), String>,
)
    requires
        !k.loaded,
        truthful(k, calls),
        enforce_ran(calls, pids, r) || release_ran(calls, pids, r),
    ensures
        r is Err && r->Err_0@ == not_loaded(),
        calls == seq![BpfCall::IsLoaded(false)],
        after_calls(k, calls) == k,
{
    if calls == seq![BpfCall::IsLoaded(false)] {
        lemma_one_call(k, BpfCall::IsLoaded(false));
    } else {
        lemma_starts_truthful(k, calls, true);
    }
}

/// The reports of loading and unloading, letter for letter.
pub proof fn law_report_texts()
    ensures
        json::object_text(LoadReport::AlreadyLoaded.printed_members())
            == "{\"already_loaded\":true}"@,
        json::object_text(LoadReport::Loaded.printed_members())
            == "{\"loaded\":true,\"path\":\"/sys/fs/bpf/bpolicy\"}"@,
        json::object_text(UnloadReport::AlreadyUnloaded.printed_members())
            == "{\"already_unloaded\":true}"@,
        json::object_text(UnloadReport::Unloaded.printed_members()) == "{\"unloaded\":true}"@,
{
    reveal_strlit("{");
    reveal_strlit("}");
    reveal_strlit(":");
    reveal_strlit(",");
    reveal_strlit("true");
    reveal_strlit("already_loaded");
    reveal_strlit("already_unloaded");
    reveal_strlit("unloaded");
    reveal_strlit("loaded");
    reveal_strlit("path");
    reveal_strlit("/sys/fs/bpf/bpolicy");
    reveal_strlit("{\"already_loaded\":true}");
    reveal_strlit("{\"already_unloaded\":true}");
    reveal_strlit("{\"unloaded\":true}");
    reveal_strlit("{\"loaded\":true,\"path\":\"/sys/fs/bpf/bpolicy\"}");
    json::law_plain_string("already_loaded"@);
    json::law_plain_string("already_unloaded"@);
    json::law_plain_string("unloaded"@);
    json::law_plain_string("loaded"@);
    json::law_plain_string("path"@);
    json::law_plain_string("/sys/fs/bpf/bpolicy"@);
    json::law_single_member("already_loaded"@, "true"@);
    json::law_single_member("already_unloaded"@, "true"@);
    json::law_single_member("unloaded"@, "true"@);
    assert("loaded"@.first() == 'l' && "path"@.first() == 'p');
    json::law_two_members("loaded"@, "true"@, "path"@, json::json_string(BPF_ROOT@));
    assert("{"@ + (json::json_string("already_loaded"@) + ":"@ + "true"@) + "}"@
        =~= "{\"already_loaded\":true}"@);
    assert("{"@ + (json::json_string("already_unloaded"@) + ":"@ + "true"@) + "}"@
        =~= "{\"already_unloaded\":true}"@);
    assert("{"@ + (json::json_string("unloaded"@) + ":"@ + "true"@) + "}"@
        =~= "{\"unloaded\":true}"@);
    assert("{"@ + (json::json_string("loaded"@) + ":"@ + "true"@ + ","@ + (json::json_string(
        "path"@,
    ) + ":"@ + json::json_string(BPF_ROOT@))) + "}"@
        =~= "{\"loaded\":true,\"path\":\"/sys/fs/bpf/bpolicy\"}"@);
}

} // verus!
