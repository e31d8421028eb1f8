//! Laws of the enforcer's commands: which calls reach the kernel, in which order,
//! and what is answered.

use vstd::prelude::*;

use crate::bpf;
use crate::bpf::{
    apply_prefixes, cmd_enforce, cmd_load, cmd_log, cmd_release, cmd_unload, default_obj_path,
    enforcing_text, released_text, BpfOps, LoadReport, TraceAction, TraceTail, UnloadReport,
};
use crate::json;
use crate::pids::pid_to_key_bytes;
use crate::session;
use crate::session::{BpfCall, BpfSession, WatchdogCall, WatchdogSession};
use crate::text;

verus! {

/// Where the enforcer and its maps are pinned.
pub proof fn law_pins()
    ensures
        bpf::BPF_ROOT@ == "/sys/fs/bpf/bpolicy"@,
        bpf::LOADED_PIN@ == "/sys/fs/bpf/bpolicy/file_open_check"@,
        bpf::PINNED_MAP_PIDS@ == "/sys/fs/bpf/bpolicy/protected_pids"@,
        bpf::PINNED_MAP_ALLOWLIST@ == "/sys/fs/bpf/bpolicy/allowlist"@,
        bpf::PINNED_MAP_STATS@ == "/sys/fs/bpf/bpolicy/stats"@,
        bpf::DEFAULT_BPF_OBJ_SUFFIX@ == ".local/src/bpolicy/bpolicy.bpf.o"@,
{
}

/// The object lies where it was chosen to, else at its place in the home
/// directory, else at its place in `/root`.
pub proof fn law_obj_path(chosen: Option<&str>, home: Option<&str>, r: String)
    requires
        call_ensures(default_obj_path, (chosen, home), r),
    ensures
        chosen matches Some(path) ==> r@ == path@,
        chosen is None ==> (home matches Some(h) ==> r@ == text::join_path(
            h@,
            ".local/src/bpolicy/bpolicy.bpf.o"@,
        )),
        chosen is None && home is None ==> r@ == text::join_path(
            "/root"@,
            ".local/src/bpolicy/bpolicy.bpf.o"@,
        ),
{
}

// ---------------------------------------------------------------------------
// Sessions
// ---------------------------------------------------------------------------

/// A session starts with no call and stays with its operations; the calls that
/// were made are what its log grew by, and each was answered.
pub proof fn law_session_log<O: BpfOps>(
    ops: &O,
    started: BpfSession<O>,
    before: &BpfSession<O>,
    after: &BpfSession<O>,
    calls: Seq<BpfCall>,
)
    requires
        call_ensures(BpfSession::<O>::new, (ops,), started),
        after.made(before, calls),
    ensures
        started.log() == Seq::<BpfCall>::empty(),
        started.ops() == *ops,
        after.ops() == before.ops(),
        after.log() == before.log() + calls,
        forall|i: int|
            0 <= i < calls.len() ==> session::answered(before.ops(), #[trigger] calls[i]),
{
}

/// Asking whether the enforcer is loaded, or where its object lies, is one call
/// with its answer.
pub proof fn law_session_asks<O: BpfOps>(
    ops: &mut BpfSession<O>,
    loaded: bool,
    other: &mut BpfSession<O>,
    path: String,
)
    requires
        call_ensures(BpfSession::<O>::is_loaded, (ops,), loaded),
        call_ensures(BpfSession::<O>::obj_path, (other,), path),
    ensures
        final(ops).made(old(ops), seq![BpfCall::IsLoaded(loaded)]),
        final(other).made(old(other), seq![BpfCall::ObjPath(path@)]),
{
}

/// Loading and removing the enforcer are one call each, with what they were
/// handed and the answer.
pub proof fn law_session_loads<O: BpfOps>(
    ops: &mut BpfSession<O>,
    path: &str,
    root: &str,
    r: Result<(), String>,
    other: &mut BpfSession<O>,
    s: Result<(), String>,
)
    requires
        call_ensures(BpfSession::<O>::load_prog, (ops, path, root), r),
        call_ensures(BpfSession::<O>::unload_prog, (other, root), s),
    ensures
        final(ops).made(
            old(ops),
            seq![BpfCall::Load { path: path@, root: root@, answer: r }],
        ),
        final(other).made(old(other), seq![BpfCall::Unload { root: root@, answer: s }]),
{
}

/// Work on a map is one call, with what it was handed and the answer.
pub proof fn law_session_maps<O: BpfOps>(
    updated: &mut BpfSession<O>,
    deleted: &mut BpfSession<O>,
    added: &mut BpfSession<O>,
    dumped: &mut BpfSession<O>,
    tailed: &mut BpfSession<O>,
    pinned: &str,
    key: &[String],
    prefix: &str,
    n: usize,
    r: Result<(), String>,
    dump: String,
)
    requires
        call_ensures(BpfSession::<O>::map_update, (updated, pinned, key), r),
        call_ensures(BpfSession::<O>::map_delete, (deleted, pinned, key), r),
        call_ensures(BpfSession::<O>::allowlist_add_prefix, (added, pinned, prefix), r),
        call_ensures(BpfSession::<O>::map_dump_json, (dumped, pinned), dump),
        call_ensures(BpfSession::<O>::tail_trace_pipe, (tailed, n), r),
    ensures
        final(updated).made(
            old(updated),
            seq![BpfCall::Update { pinned: pinned@, key: text::strings(key@), answer: r }],
        ),
        final(deleted).made(
            old(deleted),
            seq![BpfCall::Delete { pinned: pinned@, key: text::strings(key@), answer: r }],
        ),
        final(added).made(
            old(added),
            seq![BpfCall::AddPrefix { pinned: pinned@, prefix: prefix@, answer: r }],
        ),
        final(dumped).made(old(dumped), seq![BpfCall::Dump { pinned: pinned@, dump: dump@ }]),
        final(tailed).made(old(tailed), seq![BpfCall::Tail { n, answer: r }]),
{
}

/// A watchdog session starts with no call and stays with its watchdog; arming and
/// cancelling are one call each, with the seconds handed over and the answer.
pub proof fn law_watchdog_session<W: crate::deadman::Watchdog>(
    watchdog: &W,
    started: WatchdogSession<W>,
    armed: &mut WatchdogSession<W>,
    secs: u64,
    cancelled: &mut WatchdogSession<W>,
    r: Result<(), String>,
    s: Result<(), String>,
)
    requires
        call_ensures(WatchdogSession::<W>::new, (watchdog,), started),
        call_ensures(WatchdogSession::<W>::arm, (armed, secs), r),
        call_ensures(WatchdogSession::<W>::cancel, (cancelled,), s),
    ensures
        started.log() == Seq::<WatchdogCall>::empty(),
        started.watchdog() == *watchdog,
        final(armed).watchdog() == old(armed).watchdog(),
        final(armed).log() == old(armed).log().push(WatchdogCall::Arm(secs, r)),
        call_ensures(W::arm, (&old(armed).watchdog(), secs), r),
        final(cancelled).watchdog() == old(cancelled).watchdog(),
        final(cancelled).log() == old(cancelled).log().push(WatchdogCall::Cancel(s)),
        call_ensures(W::cancel, (&old(cancelled).watchdog(),), s),
{
}

/// A question that was answered is one that the operations answered so.
pub proof fn law_answered<O: BpfOps>(
    ops: O,
    loaded: bool,
    n: usize,
    path: Seq<char>,
    answer: Result<(), String>,
)
    ensures
        session::answered(ops, BpfCall::IsLoaded(loaded)) <==> call_ensures(
            O::is_loaded,
            (&ops,),
            loaded,
        ),
        session::answered(ops, BpfCall::Tail { n, answer }) <==> call_ensures(
            O::tail_trace_pipe,
            (&ops, n),
            answer,
        ),
        session::answered(ops, BpfCall::ObjPath(path)) <==> exists|r: String| #[trigger]
            call_ensures(O::obj_path, (&ops,), r) && r@ == path,
{
}

/// A load or an unload that was answered was handed to the operations as it is.
pub proof fn law_load_answered<O: BpfOps>(
    ops: O,
    path: Seq<char>,
    root: Seq<char>,
    answer: Result<(), String>,
)
    ensures
        session::answered(ops, BpfCall::Load { path, root, answer }) <==> exists|
            p: &str,
            q: &str,
        | #[trigger]
            call_ensures(O::load_prog, (&ops, p, q), answer) && p@ == path && q@ == root,
        session::answered(ops, BpfCall::Unload { root, answer }) <==> exists|q: &str| #[trigger]
            call_ensures(O::unload_prog, (&ops, q), answer) && q@ == root,
{
}

/// Work on a map that was answered was handed to the operations as it is.
pub proof fn law_map_answered<O: BpfOps>(
    ops: O,
    pinned: Seq<char>,
    key: Seq<Seq<char>>,
    prefix: Seq<char>,
    dump: Seq<char>,
    answer: Result<(), String>,
)
    ensures
        session::answered(ops, BpfCall::Update { pinned, key, answer }) <==> exists|
            p: &str,
            k: &[String],
        | #[trigger]
            call_ensures(O::map_update, (&ops, p, k), answer) && p@ == pinned && text::strings(k@)
                == key,
        session::answered(ops, BpfCall::Delete { pinned, key, answer }) <==> exists|
            p: &str,
            k: &[String],
        | #[trigger]
            call_ensures(O::map_delete, (&ops, p, k), answer) && p@ == pinned && text::strings(k@)
                == key,
        session::answered(ops, BpfCall::AddPrefix { pinned, prefix, answer }) <==> exists|
            p: &str,
            q: &str,
        | #[trigger]
            call_ensures(O::allowlist_add_prefix, (&ops, p, q), answer) && p@ == pinned && q@
                == prefix,
        session::answered(ops, BpfCall::Dump { pinned, dump }) <==> exists|p: &str, r: String|
            #[trigger] call_ensures(O::map_dump_json, (&ops, p), r) && p@ == pinned && r@ == dump,
{
}

/// A watchdog session is idle while its log stays as it is, and a call is what
/// its log grew by.
pub proof fn law_watchdog_log<W: crate::deadman::Watchdog>(
    before: &WatchdogSession<W>,
    after: &WatchdogSession<W>,
    call: WatchdogCall,
)
    ensures
        after.idle(before) <==> after.watchdog() == before.watchdog() && after.log()
            == before.log(),
        after.made(before, call) ==> after.watchdog() == before.watchdog() && after.log()
            == before.log().push(call) && session::watchdog_answered(before.watchdog(), call),
{
}

// ---------------------------------------------------------------------------
// Loading and unloading
// ---------------------------------------------------------------------------

/// The calls of a load that came to this: the path is asked for once and handed
/// on as it is.
pub open spec fn loading(path: Seq<char>, r: Result<LoadReport, String>) -> Seq<BpfCall> {
    let answer = match r {
        Ok(_) => Ok(()),
        Err(e) => Err(e),
    };
    seq![
        BpfCall::IsLoaded(false),
        BpfCall::ObjPath(path),
        BpfCall::Load { path, root: "/sys/fs/bpf/bpolicy"@, answer },
    ]
}

/// What loading is said to do is that, or one question where the enforcer is
/// loaded already.
pub proof fn law_load_ran(calls: Seq<BpfCall>, r: Result<LoadReport, String>)
    requires
        bpf::load_ran(calls, r),
    ensures
        r == Ok::<LoadReport, String>(LoadReport::AlreadyLoaded) ==> calls
            == seq![BpfCall::IsLoaded(true)],
        r != Ok::<LoadReport, String>(LoadReport::AlreadyLoaded) ==> exists|path: Seq<char>|
            calls == #[trigger] loading(path, r),
{
    if r != Ok::<LoadReport, String>(LoadReport::AlreadyLoaded) {
        let (path, answer) = choose|path: Seq<char>, answer: Result<(), String>|
            calls == #[trigger] bpf::load_calls(path, answer) && r == match answer {
                Ok(_) => Ok(LoadReport::Loaded),
                Err(e) => Err(e),
            };
        assert(answer matches Ok(unit) ==> unit == ());
        assert(calls =~= loading(path, r));
    }
}

/// Loading asks whether the enforcer is loaded. Where it is, that is all. Else
/// the object is located and loaded below the root, once, and the answer decides.
pub proof fn law_cmd_load<O: BpfOps>(ops: &mut BpfSession<O>, r: Result<LoadReport, String>)
    requires
        call_ensures(cmd_load::<O>, (ops,), r),
    ensures
        final(ops).ops() == old(ops).ops(),
        r == Ok::<LoadReport, String>(LoadReport::AlreadyLoaded) ==> final(ops).log()
            == old(ops).log() + seq![BpfCall::IsLoaded(true)],
        r != Ok::<LoadReport, String>(LoadReport::AlreadyLoaded) ==> exists|path: Seq<char>|
            #![trigger loading(path, r)]
            final(ops).log() == old(ops).log() + loading(path, r),
{
    let calls = choose|calls: Seq<BpfCall>| #[trigger]
        final(ops).made(old(ops), calls) && bpf::load_ran(calls, r);
    law_load_ran(calls, r);
}

/// The calls of an unload that came to this.
pub open spec fn unloading(r: Result<UnloadReport, String>) -> Seq<BpfCall> {
    match r {
        Ok(UnloadReport::AlreadyUnloaded) => seq![BpfCall::IsLoaded(false)],
        Ok(UnloadReport::Unloaded) => seq![
            BpfCall::IsLoaded(true),
            BpfCall::Unload { root: "/sys/fs/bpf/bpolicy"@, answer: Ok(()) },
        ],
        Err(e) => seq![
            BpfCall::IsLoaded(true),
            BpfCall::Unload { root: "/sys/fs/bpf/bpolicy"@, answer: Err(e) },
        ],
    }
}

/// What unloading is said to do is that.
pub proof fn law_unload_ran(calls: Seq<BpfCall>, r: Result<UnloadReport, String>)
    ensures
        bpf::unload_ran(calls, r) <==> calls == unloading(r),
{
    let answer = match r {
        Ok(_) => Ok(()),
        Err(e) => Err(e),
    };
    assert(bpf::unload_calls(answer) =~= unloading(r) || r == Ok::<UnloadReport, String>(
        UnloadReport::AlreadyUnloaded,
    ));
    if bpf::unload_ran(calls, r) && r != Ok::<UnloadReport, String>(
        UnloadReport::AlreadyUnloaded,
    ) {
        let given = choose|given: Result<(), String>|
            calls == #[trigger] bpf::unload_calls(given) && r == match given {
                Ok(_) => Ok(UnloadReport::Unloaded),
                Err(e) => Err(e),
            };
        assert(given matches Ok(unit) ==> unit == ());
        assert(given == answer);
    }
}

/// Unloading asks whether the enforcer is loaded. Where it is not, that is all.
/// Else the root is removed, once, and the answer decides.
pub proof fn law_cmd_unload<O: BpfOps>(ops: &mut BpfSession<O>, r: Result<UnloadReport, String>)
    requires
        call_ensures(cmd_unload::<O>, (ops,), r),
    ensures
        final(ops).ops() == old(ops).ops(),
        final(ops).log() == old(ops).log() + unloading(r),
{
    let calls = choose|calls: Seq<BpfCall>| #[trigger]
        final(ops).made(old(ops), calls) && bpf::unload_ran(calls, r);
    law_unload_ran(calls, r);
}

/// The reports of loading and unloading, letter for letter.
pub proof fn law_reports(load: &LoadReport, l: String, unload: &UnloadReport, u: String)
    requires
        call_ensures(LoadReport::to_text, (load,), l),
        call_ensures(UnloadReport::to_text, (unload,), u),
    ensures
        *load is AlreadyLoaded ==> l@ == "{\"already_loaded\":true}"@,
        *load is Loaded ==> l@ == "{\"loaded\":true,\"path\":\"/sys/fs/bpf/bpolicy\"}"@,
        *unload is AlreadyUnloaded ==> u@ == "{\"already_unloaded\":true}"@,
        *unload is Unloaded ==> u@ == "{\"unloaded\":true}"@,
{
    bpf::law_report_texts();
}

// ---------------------------------------------------------------------------
// Enforcing and releasing
// ---------------------------------------------------------------------------

/// The answer of the call at position `i` of calls that came to `r`, the last of
/// which is at position `last`.
pub open spec fn answer_at(i: int, last: int, r: Result<(), String>) -> Result<(), String> {
    if i == last {
        match r {
            Ok(_) => Ok(()),
            Err(e) => Err(e),
        }
    } else {
        Ok(())
    }
}

/// Without a failure every PID gets one update of the map of protected PIDs, with
/// its own key, in order. With a failure the PIDs before it do, and none behind
/// it. An enforcer that is not loaded is asked nothing else.
pub proof fn law_cmd_enforce<O: BpfOps>(
    ops: &mut BpfSession<O>,
    pids: &[u32],
    r: Result<(), String>,
    i: int,
    key: Vec<String>,
)
    requires
        call_ensures(cmd_enforce::<O>, (ops, pids), r),
        0 <= i < pids@.len() ==> call_ensures(pid_to_key_bytes, (pids@[i],), key),
    ensures
        ({
            let start = old(ops).log().len() as int;
            let log = final(ops).log();
            let n = log.len() - start - 1;
            &&& final(ops).ops() == old(ops).ops()
            &&& log.len() > start
            &&& log.take(start) == old(ops).log()
            &&& log[start] == BpfCall::IsLoaded(false) ==> n == 0 && r is Err && r->Err_0@
                == "bpolicy not loaded — run: bpolicy load"@
            &&& log[start] != BpfCall::IsLoaded(false) ==> {
                &&& log[start] == BpfCall::IsLoaded(true)
                &&& r is Ok ==> n == pids@.len()
                &&& r is Err ==> 0 < n <= pids@.len()
                &&& 0 <= i < n ==> log[start + 1 + i] == (BpfCall::Update {
                    pinned: "/sys/fs/bpf/bpolicy/protected_pids"@,
                    key: text::strings(key@),
                    answer: answer_at(i, n - 1, r),
                })
            }
        }),
{
    let calls = choose|calls: Seq<BpfCall>| #[trigger]
        final(ops).made(old(ops), calls) && bpf::enforce_ran(calls, pids@, r);
    let start = old(ops).log().len() as int;
    let log = final(ops).log();
    assert(log == old(ops).log() + calls);
    assert(log.take(start) =~= old(ops).log());
    assert(log[start] == calls[0]);
    let n = log.len() - start - 1;
    if calls[0] == BpfCall::IsLoaded(true) && 0 <= i < n {
        let rest = calls.drop_first();
        assert(log[start + 1 + i] == rest[i]);
        assert(bpf::pid_keys(pids@)[i] == text::strings(key@));
        assert(rest.len() == n);
        assert(rest.last() == rest[n - 1]);
    }
}

/// Releasing goes as enforcing does, with deletions in place of updates.
pub proof fn law_cmd_release<O: BpfOps>(
    ops: &mut BpfSession<O>,
    pids: &[u32],
    r: Result<(), String>,
    i: int,
    key: Vec<String>,
)
    requires
        call_ensures(cmd_release::<O>, (ops, pids), r),
        0 <= i < pids@.len() ==> call_ensures(pid_to_key_bytes, (pids@[i],), key),
    ensures
        ({
            let start = old(ops).log().len() as int;
            let log = final(ops).log();
            let n = log.len() - start - 1;
            &&& final(ops).ops() == old(ops).ops()
            &&& log.len() > start
            &&& log.take(start) == old(ops).log()
            &&& log[start] == BpfCall::IsLoaded(false) ==> n == 0 && r is Err && r->Err_0@
                == "bpolicy not loaded — run: bpolicy load"@
            &&& log[start] != BpfCall::IsLoaded(false) ==> {
                &&& log[start] == BpfCall::IsLoaded(true)
                &&& r is Ok ==> n == pids@.len()
                &&& r is Err ==> 0 < n <= pids@.len()
                &&& 0 <= i < n ==> log[start + 1 + i] == (BpfCall::Delete {
                    pinned: "/sys/fs/bpf/bpolicy/protected_pids"@,
                    key: text::strings(key@),
                    answer: answer_at(i, n - 1, r),
                })
            }
        }),
{
    let calls = choose|calls: Seq<BpfCall>| #[trigger]
        final(ops).made(old(ops), calls) && bpf::release_ran(calls, pids@, r);
    let start = old(ops).log().len() as int;
    let log = final(ops).log();
    assert(log == old(ops).log() + calls);
    assert(log.take(start) =~= old(ops).log());
    assert(log[start] == calls[0]);
    let n = log.len() - start - 1;
    if calls[0] == BpfCall::IsLoaded(true) && 0 <= i < n {
        let rest = calls.drop_first();
        assert(log[start + 1 + i] == rest[i]);
        assert(bpf::pid_keys(pids@)[i] == text::strings(key@));
        assert(rest.len() == n);
        assert(rest.last() == rest[n - 1]);
    }
}

/// Each prefix got one addition to the allow-list, as it is, in order, up to the
/// first failure, which is the outcome.
pub open spec fn adds(calls: Seq<BpfCall>, prefixes: Seq<String>, r: Result<(), String>) -> bool {
    &&& r is Ok ==> calls.len() == prefixes.len()
    &&& r is Err ==> 0 < calls.len() <= prefixes.len()
    &&& forall|i: int|
        0 <= i < calls.len() ==> #[trigger] calls[i] == (BpfCall::AddPrefix {
            pinned: "/sys/fs/bpf/bpolicy/allowlist"@,
            prefix: prefixes[i]@,
            answer: answer_at(i, calls.len() - 1, r),
        })
}

/// What adding prefixes is said to do is that.
pub proof fn law_prefixes_in_order(
    calls: Seq<BpfCall>,
    prefixes: Seq<String>,
    r: Result<(), String>,
)
    requires
        session::in_order(calls, prefixes.len(), bpf::prefix_call(text::strings(prefixes)), r),
    ensures
        adds(calls, prefixes, r),
{
    let wanted = text::strings(prefixes);
    assert forall|i: int| 0 <= i < calls.len() implies #[trigger] calls[i] == (BpfCall::AddPrefix {
        pinned: "/sys/fs/bpf/bpolicy/allowlist"@,
        prefix: prefixes[i]@,
        answer: answer_at(i, calls.len() - 1, r),
    }) by {
        assert(wanted[i] == prefixes[i]@);
        assert(calls.last() == calls[calls.len() - 1]);
    }
}

/// Applying a policy adds its prefixes, and makes no other call.
pub proof fn law_apply_prefixes<O: BpfOps>(
    ops: &mut BpfSession<O>,
    prefixes: &Vec<String>,
    r: Result<(), String>,
)
    requires
        call_ensures(apply_prefixes::<O>, (ops, prefixes), r),
    ensures
        final(ops).ops() == old(ops).ops(),
        exists|calls: Seq<BpfCall>| #[trigger]
            adds(calls, prefixes@, r) && final(ops).log() == old(ops).log() + calls,
{
    let calls = choose|calls: Seq<BpfCall>| #[trigger]
        final(ops).made(old(ops), calls) && session::in_order(
            calls,
            prefixes@.len(),
            bpf::prefix_call(text::strings(prefixes@)),
            r,
        );
    law_prefixes_in_order(calls, prefixes@, r);
}

/// The PIDs that were enforced, or released, are printed under that word, in
/// order.
pub proof fn law_pids_printed(pids: &[u32], e: String, r: String, numbers: Seq<i64>)
    requires
        call_ensures(enforcing_text, (pids,), e),
        call_ensures(released_text, (pids,), r),
        numbers.len() == pids@.len(),
        forall|i: int| 0 <= i < pids@.len() ==> #[trigger] numbers[i] == pids@[i] as int,
    ensures
        e@ == "{\"enforcing\":"@ + json::integers_text(numbers) + "}"@,
        r@ == "{\"released\":"@ + json::integers_text(numbers) + "}"@,
{
    assert(pids@.map_values(|p: u32| p as i64) =~= numbers);
    reveal_strlit("enforcing");
    reveal_strlit("released");
    reveal_strlit("{");
    reveal_strlit("}");
    reveal_strlit(":");
    reveal_strlit("{\"enforcing\":");
    reveal_strlit("{\"released\":");
    json::law_plain_string("enforcing"@);
    json::law_plain_string("released"@);
    let list = json::integers_text(numbers);
    json::law_single_member("enforcing"@, list);
    json::law_single_member("released"@, list);
    assert("{"@ + (json::json_string("enforcing"@) + ":"@ + list) + "}"@ =~= "{\"enforcing\":"@
        + list + "}"@);
    assert("{"@ + (json::json_string("released"@) + ":"@ + list) + "}"@ =~= "{\"released\":"@ + list
        + "}"@);
}

// ---------------------------------------------------------------------------
// Trace output
// ---------------------------------------------------------------------------

/// Logging is one tail of so many lines, and its answer is the outcome.
pub proof fn law_cmd_log<O: BpfOps>(ops: &mut BpfSession<O>, n: usize, r: Result<(), String>)
    requires
        call_ensures(cmd_log::<O>, (ops, n), r),
    ensures
        final(ops).ops() == old(ops).ops(),
        final(ops).log() == old(ops).log().push(BpfCall::Tail { n, answer: r }),
{
    assert(old(ops).log() + seq![BpfCall::Tail { n, answer: r }] =~= old(ops).log().push(
        BpfCall::Tail { n, answer: r },
    ));
}

/// A tail of `n` lines has `n` left, and one of zero lines has no end.
pub proof fn law_tail_starts(n: usize, r: TraceTail)
    requires
        call_ensures(TraceTail::new, (n,), r),
    ensures
        n == 0 ==> r.left() is None,
        n > 0 ==> r.left() == Some(n as nat),
{
}

/// A line that names the enforcer anywhere is shown and counts; every other is
/// skipped and does not. The last line that is left stops the tail.
pub proof fn law_tail_observes(
    tail: &mut TraceTail,
    line: &str,
    r: TraceAction,
    before: Seq<char>,
    after: Seq<char>,
)
    requires
        call_ensures(TraceTail::observe, (tail, line), r),
    ensures
        line@ == before + "bpolicy"@ + after ==> (match old(tail).left() {
            Some(n) => if n == 1 {
                r == TraceAction::ShowAndStop
            } else {
                r == TraceAction::Show && (n > 1 ==> final(tail).left() == Some((n - 1) as nat))
            },
            None => r == TraceAction::Show && final(tail).left() is None,
        }),
        (forall|a: Seq<char>, b: Seq<char>| line@ != #[trigger] (a + "bpolicy"@ + b)) ==> r
            == TraceAction::Skip && final(tail).left() == old(tail).left(),
{
    crate::laws::text::law_contains(line@, "bpolicy"@, before, after);
}

} // verus!
