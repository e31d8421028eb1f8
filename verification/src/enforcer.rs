//! Loading and unloading as a whole: the enforcer with its policy, its mode and
//! its deadman timer.

use vstd::prelude::*;

use crate::audit;
use crate::audit::{load_mode, needs_confirmation};
use crate::bpf;
use crate::bpf::{apply_prefixes, cmd_load, cmd_unload, BpfOps, LoadReport, UnloadReport};
use crate::deadman;
use crate::deadman::{arm_to, disarm_at, load_ttl, Clock, DeadmanState, Watchdog};
use crate::policy;
use crate::policy::{validate_prefix, Policy};
use crate::session;
use crate::session::{BpfCall, BpfSession, WatchdogSession};
use crate::text;

verus! {

// ---------------------------------------------------------------------------
// Admission
// ---------------------------------------------------------------------------

/// Why a prefix cannot go on the kernel allow-list, `None` where it can.
pub open spec fn prefix_fault(prefix: Seq<char>) -> Option<Seq<char>> {
    if prefix.len() == 0 {
        Some("allow prefix must not be empty"@)
    } else if prefix.first() != '/' {
        Some("allow prefix '"@ + prefix + "' must be an absolute path (start with '/')"@)
    } else {
        None
    }
}

/// The first fault of the prefixes from position `i` on.
pub open spec fn first_fault(prefixes: Seq<Seq<char>>, i: int) -> Option<Seq<char>>
    decreases prefixes.len() - i,
{
    if i < 0 || i >= prefixes.len() {
        None
    } else if prefix_fault(prefixes[i]) is Some {
        prefix_fault(prefixes[i])
    } else {
        first_fault(prefixes, i + 1)
    }
}

/// The message that refuses an arm that was not confirmed.
pub open spec fn refusal() -> Seq<char> {
    "refusing to arm in enforce mode on a terminal without --yes"@
}

/// Whether a load may go ahead, with the prefixes that its profile adds. The
/// profile has to be known, each of its prefixes has to be an absolute path, and
/// an enforcing arm at a terminal has to be confirmed.
pub fn load_admitted(
    policy: &Policy,
    profile: Option<&str>,
    audit: bool,
    terminal: bool,
    yes: bool,
) -> (r: Result<Vec<String>, String>)
    ensures
        ({
            let prefixes = policy::added_prefixes(policy::chosen(policy@, profile));
            if !policy::choice_known(policy@, profile) {
                r is Err && exists|known: Seq<Seq<char>>| #[trigger]
                    text::ascending_listing(known, policy@.dom()) && r->Err_0@
                        == policy::unknown_profile_message(profile->0@, known)
            } else if first_fault(prefixes, 0) is Some {
                r is Err && first_fault(prefixes, 0) == Some(r->Err_0@)
            } else if !audit && terminal && !yes {
                r is Err && r->Err_0@ == refusal()
            } else {
                r is Ok && text::strings(r->Ok_0@) == prefixes
            }
        }),
{
    let prefixes: Vec<String> = match policy.resolve_profile(profile) {
        Err(e) => {
            return Err(e.to_string());
        },
        Ok(None) => Vec::new(),
        Ok(Some(p)) => policy::copy_strings(&p.allow),
    };
    let ghost all = text::strings(prefixes@);
    assert(all =~= policy::added_prefixes(policy::chosen(policy@, profile)));
    for i in 0..prefixes.len()
        invariant
            all == text::strings(prefixes@),
            policy::choice_known(policy@, profile),
            all == policy::added_prefixes(policy::chosen(policy@, profile)),
            first_fault(all, 0) == first_fault(all, i as int),
    {
        assert(all[i as int] == prefixes@[i as int]@);
        if let Err(e) = validate_prefix(prefixes[i].as_str()) {
            return Err(e.to_string());
        }
    }
    if needs_confirmation(audit, terminal, yes) {
        return Err("refusing to arm in enforce mode on a terminal without --yes".to_owned());
    }
    Ok(prefixes)
}

// ---------------------------------------------------------------------------
// Loading and unloading
// ---------------------------------------------------------------------------

/// The outcome of a load whose policy, mode and timer were answered so: the
/// first failure, if there is one.
pub open spec fn load_outcome(
    applied: Result<(), String>,
    mode_set: Result<(), String>,
    armed: Result<(), String>,
) -> Result<LoadReport, String> {
    match (applied, mode_set, armed) {
        (Err(e), _, _) => Err(e),
        (Ok(_), Err(e), _) => Err(e),
        (Ok(_), Ok(_), Err(e)) => Err(e),
        (Ok(_), Ok(_), Ok(_)) => Ok(LoadReport::Loaded),
    }
}

/// Loads the enforcer, adds the prefixes to the kernel allow-list, sets the mode
/// and arms the deadman timer, in this order. One that is loaded already is left
/// as it is, and so is its timer.
///
/// The timer is armed even where the policy could not be applied or the mode
/// could not be set: an enforcer that was attached does not stay without the
/// time to live that was asked for. The first failure is the outcome.
///
/// `set_mode` may rely on the load having been answered with success, and
/// `write` on the mode having been handed over: neither is called before.
pub fn load_enforcer<
    O: BpfOps,
    M: FnOnce(u64) -> Result<(), String>,
    F: FnOnce(&DeadmanState) -> Result<(), String>,
    C: Clock,
    W: Watchdog,
>(
    ops: &mut BpfSession<O>,
    prefixes: &Vec<String>,
    audit: bool,
    set_mode: M,
    ttl: Option<u64>,
    pid: u32,
    write: F,
    clock: &C,
    watchdog: &mut WatchdogSession<W>,
) -> (r: Result<LoadReport, String>)
    requires
        bpf::load_done(old(ops).ops()) ==> call_requires(
            set_mode,
            (audit::mode_of_load(audit),),
        ),
        forall|mode_set: Result<(), String>| #[trigger]
            call_ensures(set_mode, (audit::mode_of_load(audit),), mode_set)
                ==> deadman::can_write_arm(deadman::ttl_of_load(ttl), pid, write, clock),
    ensures
        exists|calls: Seq<BpfCall>| #[trigger]
            final(ops).made(old(ops), calls) && {
                ||| {
                    &&& bpf::load_ran(calls, r)
                    &&& r != Ok::<LoadReport, String>(LoadReport::Loaded)
                    &&& final(watchdog).idle(old(watchdog))
                }
                ||| exists|
                    path: Seq<char>,
                    added: Seq<BpfCall>,
                    applied: Result<(), String>,
                    mode_set: Result<(), String>,
                    armed: Result<(), String>,
                |
                    {
                        &&& calls == #[trigger] bpf::load_calls(path, Ok(())) + added
                        &&& #[trigger] session::in_order(
                            added,
                            prefixes@.len(),
                            bpf::prefix_call(text::strings(prefixes@)),
                            applied,
                        )
                        &&& #[trigger] call_ensures(
                            set_mode,
                            (audit::mode_of_load(audit),),
                            mode_set,
                        )
                        &&& #[trigger] deadman::arm_answered(
                            deadman::ttl_of_load(ttl),
                            pid,
                            write,
                            clock,
                            old(watchdog),
                            final(watchdog),
                            armed,
                        )
                        &&& r == load_outcome(applied, mode_set, armed)
                    }
            },
{
    let ghost start = *ops;
    match cmd_load(ops) {
        Err(e) => {
            return Err(e);
        },
        Ok(LoadReport::AlreadyLoaded) => {
            return Ok(LoadReport::AlreadyLoaded);
        },
        Ok(LoadReport::Loaded) => {},
    }
    let ghost between = *ops;
    let ghost loading = choose|calls: Seq<BpfCall>| #[trigger]
        between.made(&start, calls) && bpf::load_ran(calls, Ok(LoadReport::Loaded));
    let ghost (path, answer) = choose|path: Seq<char>, answer: Result<(), String>|
        loading == #[trigger] bpf::load_calls(path, answer) && answer is Ok;
    assert(answer == Ok::<(), String>(())) by {
        assert(answer->Ok_0 == ());
    }
    let applied = apply_prefixes(ops, prefixes);
    let ghost added = choose|calls: Seq<BpfCall>| #[trigger]
        ops.made(&between, calls) && session::in_order(
            calls,
            prefixes@.len(),
            bpf::prefix_call(text::strings(prefixes@)),
            applied,
        );
    proof {
        session::lemma_made_trans(&start, &between, ops, loading, added);
    }
    let mode_set = set_mode(load_mode(audit));
    let armed = arm_to(load_ttl(ttl), pid, write, clock, watchdog);
    assert(ops.made(&start, bpf::load_calls(path, Ok(())) + added));
    match applied {
        Err(e) => Err(e),
        Ok(_) => match mode_set {
            Err(e) => Err(e),
            Ok(_) => match armed {
                Err(e) => Err(e),
                Ok(_) => Ok(LoadReport::Loaded),
            },
        },
    }
}

/// Unloads the enforcer, then disarms the deadman timer. One that is not loaded
/// has its timer disarmed all the same. Where unloading fails, the watchdog is
/// left alone.
///
/// `remove` may rely on the watchdog having answered that it is cancelled.
pub fn unload_enforcer<O: BpfOps, F: FnOnce() -> Result<(), String>, W: Watchdog>(
    ops: &mut BpfSession<O>,
    remove: F,
    watchdog: &mut WatchdogSession<W>,
) -> (r: Result<UnloadReport, String>)
    requires
        deadman::can_remove_cancelled(remove, old(watchdog).watchdog()),
    ensures
        exists|calls: Seq<BpfCall>, unloaded: Result<UnloadReport, String>|
            {
                &&& #[trigger] final(ops).made(old(ops), calls)
                &&& #[trigger] bpf::unload_ran(calls, unloaded)
                &&& match unloaded {
                    Err(e) => r == Err::<UnloadReport, String>(e) && final(watchdog).idle(
                        old(watchdog),
                    ),
                    Ok(report) => exists|disarmed: Result<(), String>|
                        #[trigger] deadman::disarm_answered(
                            remove,
                            old(watchdog),
                            final(watchdog),
                            disarmed,
                        ) && r == match disarmed {
                            Ok(_) => Ok(report),
                            Err(e) => Err(e),
                        },
                }
            },
{
    let report = match cmd_unload(ops) {
        Err(e) => {
            return Err(e);
        },
        Ok(report) => report,
    };
    match disarm_at(remove, watchdog) {
        Err(e) => Err(e),
        Ok(_) => Ok(report),
    }
}

} // verus!
