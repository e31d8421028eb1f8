//! Laws of loading and unloading as a whole: who is admitted, and what is done.

use vstd::prelude::*;

use crate::audit;
use crate::audit::load_mode;
use crate::bpf;
use crate::bpf::{BpfOps, LoadReport, UnloadReport};
use crate::deadman;
use crate::deadman::{load_ttl, Clock, DeadmanState, Watchdog};
use crate::enforcer;
use crate::enforcer::{load_admitted, load_enforcer, unload_enforcer};
use crate::laws;
use crate::policy::{Policy, Profile, UnknownProfile};
use crate::session;
use crate::session::{BpfCall, BpfSession, WatchdogSession};
use crate::text;

verus! {

// ---------------------------------------------------------------------------
// Admission
// ---------------------------------------------------------------------------

/// The prefixes of the profile that was found, none where none was asked for.
pub open spec fn prefixes_of(profile: Option<&Profile>) -> Seq<String> {
    match profile {
        Some(p) => p.allow@,
        None => Seq::empty(),
    }
}

/// The prefix begins with a slash.
pub open spec fn absolute(prefix: Seq<char>) -> bool {
    prefix.len() > 0 && prefix[0] == '/'
}

/// An unknown profile is refused with its own message; else the first prefix
/// that does not begin with a slash is refused; else an enforcing arm at a
/// terminal is, where it was not confirmed. Every other load is admitted, with
/// exactly the prefixes of the profile.
pub proof fn law_load_admitted(
    policy: &Policy,
    profile: Option<&str>,
    audit: bool,
    terminal: bool,
    yes: bool,
    r: Result<Vec<String>, String>,
    found: Result<Option<&Profile>, UnknownProfile>,
    message: String,
    k: int,
)
    requires
        call_ensures(load_admitted, (policy, profile, audit, terminal, yes), r),
        call_ensures(Policy::resolve_profile, (policy, profile), found),
        found matches Err(e) ==> call_ensures(UnknownProfile::to_string, (&e,), message),
    ensures
        found is Err ==> r is Err && r->Err_0@ == message@,
        found matches Ok(p) ==> ({
            let prefixes = prefixes_of(p);
            &&& 0 <= k < prefixes.len() && !absolute(prefixes[k]@) && (forall|i: int|
                0 <= i < k ==> absolute((#[trigger] prefixes[i])@)) ==> r is Err && r->Err_0@
                == if prefixes[k]@.len() == 0 {
                "allow prefix must not be empty"@
            } else {
                "allow prefix '"@ + prefixes[k]@ + "' must be an absolute path (start with '/')"@
            }
            &&& (forall|i: int| 0 <= i < prefixes.len() ==> absolute((#[trigger] prefixes[i])@))
                ==> if terminal && !audit && !yes {
                r is Err && r->Err_0@
                    == "refusing to arm in enforce mode on a terminal without --yes"@
            } else {
                r is Ok && text::strings(r->Ok_0@) == text::strings(prefixes)
            }
        }),
{
    let wanted = crate::policy::added_prefixes(crate::policy::chosen(policy@, profile));
    if let Err(e) = found {
        let known = choose|known: Seq<Seq<char>>| #[trigger]
            text::ascending_listing(known, policy@.dom()) && r->Err_0@
                == crate::policy::unknown_profile_message(profile->0@, known);
        text::law_listing_unique(known, text::strings(e.known@), policy@.dom());
    }
    if let Ok(p) = found {
        let prefixes = prefixes_of(p);
        assert(text::strings(prefixes) =~= wanted);
        if forall|i: int| 0 <= i < prefixes.len() ==> absolute((#[trigger] prefixes[i])@) {
            assert forall|i: int| 0 <= i < wanted.len() implies absolute(#[trigger] wanted[i]) by {
                assert(wanted[i] == prefixes[i]@);
            }
            lemma_no_fault(wanted, 0);
        }
        if 0 <= k < prefixes.len() && !absolute(prefixes[k]@) && (forall|i: int|
            0 <= i < k ==> absolute((#[trigger] prefixes[i])@)) {
            assert forall|i: int| 0 <= i < k implies absolute(#[trigger] wanted[i]) by {
                assert(wanted[i] == prefixes[i]@);
            }
            assert(wanted[k] == prefixes[k]@);
            lemma_fault_at(wanted, 0, k);
        }
    }
}

proof fn lemma_no_fault(prefixes: Seq<Seq<char>>, i: int)
    requires
        0 <= i,
        forall|j: int| i <= j < prefixes.len() ==> absolute(#[trigger] prefixes[j]),
    ensures
        enforcer::first_fault(prefixes, i) is None,
    decreases prefixes.len() - i,
{
    if i < prefixes.len() {
        assert(absolute(prefixes[i]));
        lemma_no_fault(prefixes, i + 1);
    }
}

proof fn lemma_fault_at(prefixes: Seq<Seq<char>>, i: int, k: int)
    requires
        0 <= i <= k < prefixes.len(),
        forall|j: int| i <= j < k ==> absolute(#[trigger] prefixes[j]),
        !absolute(prefixes[k]),
    ensures
        enforcer::first_fault(prefixes, i) == enforcer::prefix_fault(prefixes[k]),
        enforcer::first_fault(prefixes, i) is Some,
    decreases k - i,
{
    if i < k {
        assert(absolute(prefixes[i]));
        lemma_fault_at(prefixes, i + 1, k);
    }
}

// ---------------------------------------------------------------------------
// Loading and unloading
// ---------------------------------------------------------------------------

/// A load went ahead: the object was loaded, the prefixes were added, the mode
/// was handed over and the timer was armed for exactly the time to live. The
/// first failure is the outcome.
pub open spec fn goes_ahead<
    M: FnOnce(u64) -> Result<(), String>,
    F: FnOnce(&DeadmanState) -> Result<(), String>,
    C: Clock,
    W: Watchdog,
>(
    calls: Seq<BpfCall>,
    prefixes: Seq<String>,
    mode: u64,
    set_mode: M,
    secs: u64,
    pid: u32,
    write: F,
    clock: &C,
    before: &WatchdogSession<W>,
    after: &WatchdogSession<W>,
    r: Result<LoadReport, String>,
) -> bool {
    exists|
        path: Seq<char>,
        added: Seq<BpfCall>,
        applied: Result<(), String>,
        mode_set: Result<(), String>,
        armed: Result<(), String>,
    |
        {
            &&& calls == #[trigger] laws::bpf::loading(path, Ok(LoadReport::Loaded)) + added
            &&& #[trigger] laws::bpf::adds(added, prefixes, applied)
            &&& #[trigger] call_ensures(set_mode, (mode,), mode_set)
            &&& #[trigger] laws::deadman::arms(secs, pid, write, clock, before, after, armed)
            &&& applied matches Err(e) ==> r == Err::<LoadReport, String>(e)
            &&& applied is Ok ==> (mode_set matches Err(e) ==> r == Err::<LoadReport, String>(e))
            &&& applied is Ok && mode_set is Ok ==> (armed matches Err(e) ==> r == Err::<
                LoadReport,
                String,
            >(e))
            &&& applied is Ok && mode_set is Ok && armed is Ok ==> r == Ok::<LoadReport, String>(
                LoadReport::Loaded,
            )
        }
}

/// An enforcer that is loaded already is left as it is, with its timer. A load
/// that fails ends there, with the timer left alone. Else the load goes ahead,
/// with the mode and the time to live of the load.
pub proof fn law_load_enforcer<
    O: BpfOps,
    M: FnOnce(u64) -> Result<(), String>,
    F: FnOnce(&DeadmanState) -> Result<(), String>,
    C: Clock,
    W: Watchdog,
>(
    ops: &mut BpfSession<O>,
    prefixes: &Vec<String>,
    audit: bool,
    set_mode: M,
    ttl: Option<u64>,
    pid: u32,
    write: F,
    clock: &C,
    watchdog: &mut WatchdogSession<W>,
    r: Result<LoadReport, String>,
    mode: u64,
    secs: u64,
)
    requires
        call_ensures(
            load_enforcer::<O, M, F, C, W>,
            (ops, prefixes, audit, set_mode, ttl, pid, write, clock, watchdog),
            r,
        ),
        call_ensures(load_mode, (audit,), mode),
        call_ensures(load_ttl, (ttl,), secs),
    ensures
        final(ops).ops() == old(ops).ops(),
        exists|calls: Seq<BpfCall>|
            #![trigger old(ops).log() + calls]
            {
                &&& final(ops).log() == old(ops).log() + calls
                &&& {
                    ||| {
                        &&& r == Ok::<LoadReport, String>(LoadReport::AlreadyLoaded)
                        &&& calls == seq![BpfCall::IsLoaded(true)]
                        &&& final(watchdog).idle(old(watchdog))
                    }
                    ||| {
                        &&& r is Err
                        &&& exists|path: Seq<char>| calls == #[trigger] laws::bpf::loading(path, r)
                        &&& final(watchdog).idle(old(watchdog))
                    }
                    ||| goes_ahead(
                        calls,
                        prefixes@,
                        mode,
                        set_mode,
                        secs,
                        pid,
                        write,
                        clock,
                        old(watchdog),
                        final(watchdog),
                        r,
                    )
                }
            },
{
    let calls = choose|calls: Seq<BpfCall>| #[trigger]
        final(ops).made(old(ops), calls) && {
            ||| {
                &&& bpf::load_ran(calls, r)
                &&& r != Ok::<LoadReport, String>(LoadReport::Loaded)
                &&& final(watchdog).idle(old(watchdog))
            }
            ||| exists|
                path: Seq<char>,
                added: Seq<BpfCall>,
                applied: Result<(), String>,
                mode_set: Result<(), String>,
                armed: Result<(), String>,
            |
                {
                    &&& calls == #[trigger] bpf::load_calls(path, Ok(())) + added
                    &&& #[trigger] session::in_order(
                        added,
                        prefixes@.len(),
                        bpf::prefix_call(text::strings(prefixes@)),
                        applied,
                    )
                    &&& #[trigger] call_ensures(
                        set_mode,
                        (audit::mode_of_load(audit),),
                        mode_set,
                    )
                    &&& #[trigger] deadman::arm_answered(
                        deadman::ttl_of_load(ttl),
                        pid,
                        write,
                        clock,
                        old(watchdog),
                        final(watchdog),
                        armed,
                    )
                    &&& r == enforcer::load_outcome(applied, mode_set, armed)
                }
        };
    assert(final(ops).log() == old(ops).log() + calls);
    if bpf::load_ran(calls, r) && r != Ok::<LoadReport, String>(LoadReport::Loaded)
        && final(watchdog).idle(old(watchdog)) {
        laws::bpf::law_load_ran(calls, r);
    } else {
        let (path, added, applied, mode_set, armed) = choose|
            path: Seq<char>,
            added: Seq<BpfCall>,
            applied: Result<(), String>,
            mode_set: Result<(), String>,
            armed: Result<(), String>,
        |
            {
                &&& calls == #[trigger] bpf::load_calls(path, Ok(())) + added
                &&& #[trigger] session::in_order(
                    added,
                    prefixes@.len(),
                    bpf::prefix_call(text::strings(prefixes@)),
                    applied,
                )
                &&& #[trigger] call_ensures(set_mode, (audit::mode_of_load(audit),), mode_set)
                &&& #[trigger] deadman::arm_answered(
                    deadman::ttl_of_load(ttl),
                    pid,
                    write,
                    clock,
                    old(watchdog),
                    final(watchdog),
                    armed,
                )
                &&& r == enforcer::load_outcome(applied, mode_set, armed)
            };
        laws::bpf::law_prefixes_in_order(added, prefixes@, applied);
        laws::deadman::law_arm_answered(
            secs,
            pid,
            write,
            clock,
            old(watchdog),
            final(watchdog),
            armed,
        );
        assert(bpf::load_calls(path, Ok(())) =~= laws::bpf::loading(path, Ok(LoadReport::Loaded)));
        assert(call_ensures(set_mode, (mode,), mode_set));
        assert(calls == laws::bpf::loading(path, Ok(LoadReport::Loaded)) + added);
    }
}

/// Unloading removes the enforcer where it is loaded. Where that fails, the
/// failure is the outcome and the timer is left alone. Else the timer is
/// disarmed, also for an enforcer that was not loaded, and a failure to do so is
/// the outcome.
pub proof fn law_unload_enforcer<O: BpfOps, F: FnOnce() -> Result<(), String>, W: Watchdog>(
    ops: &mut BpfSession<O>,
    remove: F,
    watchdog: &mut WatchdogSession<W>,
    r: Result<UnloadReport, String>,
)
    requires
        call_ensures(unload_enforcer::<O, F, W>, (ops, remove, watchdog), r),
    ensures
        final(ops).ops() == old(ops).ops(),
        exists|unloaded: Result<UnloadReport, String>|
            #![trigger laws::bpf::unloading(unloaded)]
            {
                &&& final(ops).log() == old(ops).log() + laws::bpf::unloading(unloaded)
                &&& unloaded matches Err(e) ==> r == Err::<UnloadReport, String>(e)
                    && final(watchdog).idle(old(watchdog))
                &&& unloaded matches Ok(report) ==> exists|disarmed: Result<(), String>| #[trigger]
                    laws::deadman::disarms(remove, old(watchdog), final(watchdog), disarmed) && (
                    disarmed is Ok ==> r == Ok::<UnloadReport, String>(report)) && (
                    disarmed matches Err(e) ==> r == Err::<UnloadReport, String>(e))
            },
{
    let (calls, unloaded) = choose|calls: Seq<BpfCall>, unloaded: Result<UnloadReport, String>|
        {
            &&& #[trigger] final(ops).made(old(ops), calls)
            &&& #[trigger] bpf::unload_ran(calls, unloaded)
            &&& match unloaded {
                Err(e) => r == Err::<UnloadReport, String>(e) && final(watchdog).idle(
                    old(watchdog),
                ),
                Ok(report) => exists|disarmed: Result<(), String>|
                    #[trigger] deadman::disarm_answered(
                        remove,
                        old(watchdog),
                        final(watchdog),
                        disarmed,
                    ) && r == match disarmed {
                        Ok(_) => Ok(report),
                        Err(e) => Err(e),
                    },
            }
        };
    laws::bpf::law_unload_ran(calls, unloaded);
    assert(final(ops).log() == old(ops).log() + laws::bpf::unloading(unloaded));
    if let Ok(report) = unloaded {
        let disarmed = choose|disarmed: Result<(), String>|
            #[trigger] deadman::disarm_answered(
                remove,
                old(watchdog),
                final(watchdog),
                disarmed,
            ) && r == match disarmed {
                Ok(_) => Ok(report),
                Err(e) => Err(e),
            };
        laws::deadman::law_disarm_answered(remove, old(watchdog), final(watchdog), disarmed);
        assert(laws::deadman::disarms(remove, old(watchdog), final(watchdog), disarmed));
    }
}

} // verus!
