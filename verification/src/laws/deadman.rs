//! Laws of the deadman timer: which time to live is in force, when it runs out,
//! and what is written and armed on the way.

use vstd::prelude::*;

use crate::deadman;
use crate::deadman::{
    arm_step, arm_to, armed_state, disarm_at, disarm_step, load_ttl, remaining_at, removal_result,
    renew_at, renew_step, renewal_ttl, renewed_state, state_path, ttl_remaining, ArmEvent, ArmStep,
    Clock, DeadmanState, DisarmEvent, DisarmStep, Removal, Watchdog,
};
use crate::session::{WatchdogCall, WatchdogSession};
use crate::text;

verus! {

/// `end` is `span` seconds after `now`, or the last timestamp where that is not
/// reached.
pub open spec fn ends(end: u64, now: u64, span: u64) -> bool {
    if now + span <= u64::MAX {
        end - now == span
    } else {
        end == u64::MAX
    }
}

// ---------------------------------------------------------------------------
// Times to live
// ---------------------------------------------------------------------------

/// A load that asks for a time to live gets exactly that one, whatever it is. A
/// bare load gets thirty minutes.
pub proof fn law_load_ttl(asked: Option<u64>, r: u64)
    requires
        call_ensures(load_ttl, (asked,), r),
    ensures
        asked matches Some(t) ==> r == t,
        asked is None ==> r == 30 * 60,
        deadman::TTL_PERMANENT == 0,
        deadman::WATCHDOG_UNIT@ == "bpolicy-deadman.service"@,
{
}

/// From the load on, the seconds left are the time asked for less the time gone
/// by, down to zero. A load that asks for zero has no end.
pub proof fn law_load_counts_down(
    t: u64,
    ttl: u64,
    now: u64,
    pid: u32,
    state: DeadmanState,
    later: u64,
    left: Option<u64>,
)
    requires
        call_ensures(load_ttl, (Some(t),), ttl),
        call_ensures(armed_state, (ttl, now, pid), state),
        call_ensures(remaining_at, (&state, later), left),
        now <= later,
    ensures
        t == 0 ==> left is None,
        t > 0 && now + t <= u64::MAX && later - now <= t ==> left == Some((t - (later - now)) as u64),
        t > 0 && now + t <= u64::MAX && later - now > t ==> left == Some(0u64),
        t > 0 && now + t > u64::MAX ==> left == Some((u64::MAX - later) as u64),
{
}

/// The state of an arm: when and by whom it was made, for how long, and when it
/// ends. A time to live of zero is permanent.
pub proof fn law_armed_state(ttl: u64, now: u64, pid: u32, r: DeadmanState)
    requires
        call_ensures(armed_state, (ttl, now, pid), r),
    ensures
        r.loaded_at == now,
        r.pid_of_arm == pid,
        ttl == 0 ==> r.ttl_secs is None && r.expires_at is None,
        ttl > 0 ==> r.ttl_secs == Some(ttl) && r.expires_at is Some && ends(
            r.expires_at->0,
            now,
            ttl,
        ),
{
}

/// A renewal that is given a time to live above zero uses exactly that one,
/// whatever was stored. Else it uses the stored one, and there is nothing to
/// renew where none above zero is stored.
pub proof fn law_renewal_ttl(asked: Option<u64>, state: &DeadmanState, r: Option<u64>)
    requires
        call_ensures(renewal_ttl, (asked, state), r),
    ensures
        asked matches Some(t) ==> t > 0 ==> r == Some(t),
        asked is None || asked == Some(0u64) ==> (match state.ttl_secs {
            Some(stored) => if stored > 0 {
                r == Some(stored)
            } else {
                r is None
            },
            None => r is None,
        }),
{
}

/// The renewed state has the new time to live, which starts at the renewal; who
/// armed and when stay as they are.
pub proof fn law_renewed_state(state: &DeadmanState, ttl: u64, now: u64, r: DeadmanState)
    requires
        call_ensures(renewed_state, (state, ttl, now), r),
    ensures
        r.loaded_at == state.loaded_at,
        r.pid_of_arm == state.pid_of_arm,
        r.ttl_secs == Some(ttl),
        r.expires_at is Some,
        ends(r.expires_at->0, now, ttl),
{
}

/// After a renewal for `t` seconds the seconds left are `t` less the time gone
/// by, down to zero, whatever was stored.
pub proof fn law_renewal_counts_down(
    t: u64,
    stored: &DeadmanState,
    ttl: Option<u64>,
    now: u64,
    state: DeadmanState,
    later: u64,
    left: Option<u64>,
)
    requires
        t > 0,
        call_ensures(renewal_ttl, (Some(t), stored), ttl),
        ttl matches Some(secs) ==> call_ensures(renewed_state, (stored, secs, now), state),
        call_ensures(remaining_at, (&state, later), left),
        now <= later,
        now + t <= u64::MAX,
    ensures
        ttl is Some,
        later - now <= t ==> left == Some((t - (later - now)) as u64),
        later - now > t ==> left == Some(0u64),
{
}

/// The seconds left are those until the end, none once it has passed; without an
/// end they are not told.
pub proof fn law_remaining_at(state: &DeadmanState, now: u64, r: Option<u64>)
    requires
        call_ensures(remaining_at, (state, now), r),
    ensures
        state.expires_at is None ==> r is None,
        state.expires_at matches Some(end) ==> r is Some && if now <= end {
            now + r->0 == end
        } else {
            r->0 == 0
        },
{
}

/// The seconds left by a clock are those at a time that it showed.
pub proof fn law_ttl_remaining<C: Clock>(state: &DeadmanState, clock: &C, r: Option<u64>)
    requires
        call_ensures(ttl_remaining::<C>, (state, clock), r),
    ensures
        state.expires_at is None ==> r is None,
        state.expires_at matches Some(end) ==> exists|now: u64|
            #![trigger call_ensures(C::now_secs, (clock,), now)]
            {
                &&& call_ensures(C::now_secs, (clock,), now)
                &&& r is Some
                &&& if now <= end {
                    now + r->0 == end
                } else {
                    r->0 == 0
                }
            },
{
    if let Some(end) = state.expires_at {
        let now = choose|now: u64|
            #[trigger] call_ensures(C::now_secs, (clock,), now) && r == deadman::left_at(
                *state,
                now,
            );
        assert(call_ensures(C::now_secs, (clock,), now));
    }
}

/// The state lies in the directory that was set, else in the configuration of
/// the home directory, else in that of `/root`.
pub proof fn law_state_path(dir: Option<&str>, home: Option<&str>, r: String)
    requires
        call_ensures(state_path, (dir, home), r),
    ensures
        dir matches Some(d) ==> r@ == text::join_path(d@, "deadman.json"@),
        dir is None ==> (home matches Some(h) ==> r@ == text::join_path(
            h@,
            ".config/bpolicy/deadman.json"@,
        )),
        dir is None && home is None ==> r@ == text::join_path(
            "/root"@,
            ".config/bpolicy/deadman.json"@,
        ),
{
}

// ---------------------------------------------------------------------------
// Steps
// ---------------------------------------------------------------------------

/// Arming reads the clock, writes the state of an arm at that time, arms the
/// watchdog for exactly the time to live unless that is zero, and hands on the
/// answer. A failure to write ends it with that failure.
pub proof fn law_arm_step(ttl: u64, pid: u32, event: ArmEvent, r: ArmStep)
    requires
        call_ensures(arm_step, (ttl, pid, event), r),
    ensures
        event is Begun ==> r == ArmStep::ReadClock,
        event matches ArmEvent::Ticked(now) ==> r is Write && ({
            let state = r->Write_0;
            &&& state.loaded_at == now
            &&& state.pid_of_arm == pid
            &&& ttl == 0 ==> state.ttl_secs is None && state.expires_at is None
            &&& ttl > 0 ==> state.ttl_secs == Some(ttl) && state.expires_at is Some && ends(
                state.expires_at->0,
                now,
                ttl,
            )
        }),
        event matches ArmEvent::Written(Err(e)) ==> r == ArmStep::Finish(Err(e)),
        event matches ArmEvent::Written(Ok(_)) ==> r == if ttl > 0 {
            ArmStep::Arm(ttl)
        } else {
            ArmStep::Finish(Ok(()))
        },
        event matches ArmEvent::Armed(answer) ==> r == ArmStep::Finish(answer),
{
}

/// Renewing with a time to live above zero goes the same way with that time to
/// live, whatever was stored.
pub proof fn law_renew_step(t: u64, stored: &DeadmanState, event: ArmEvent, r: ArmStep)
    requires
        t > 0,
        call_ensures(renew_step, (Some(t), stored, event), r),
    ensures
        event is Begun ==> r == ArmStep::ReadClock,
        event matches ArmEvent::Ticked(now) ==> r is Write && ({
            let state = r->Write_0;
            &&& state.loaded_at == stored.loaded_at
            &&& state.pid_of_arm == stored.pid_of_arm
            &&& state.ttl_secs == Some(t)
            &&& state.expires_at is Some
            &&& ends(state.expires_at->0, now, t)
        }),
        event matches ArmEvent::Written(Err(e)) ==> r == ArmStep::Finish(Err(e)),
        event matches ArmEvent::Written(Ok(_)) ==> r == ArmStep::Arm(t),
        event matches ArmEvent::Armed(answer) ==> r == ArmStep::Finish(answer),
{
}

/// Renewing without a time to live goes as it would with the stored one, and
/// where none above zero is stored it ends at once with all as it was.
pub proof fn law_renew_step_stored(
    asked: Option<u64>,
    stored: &DeadmanState,
    event: ArmEvent,
    r: ArmStep,
    given: ArmStep,
)
    requires
        asked is None || asked == Some(0u64),
        call_ensures(renew_step, (asked, stored, event), r),
        call_ensures(renew_step, (stored.ttl_secs, stored, event), given),
    ensures
        stored.ttl_secs matches Some(t) ==> t > 0 ==> r == given,
        stored.ttl_secs is None || stored.ttl_secs == Some(0u64) ==> r == ArmStep::Finish(Ok(())),
{
}

/// Disarming cancels the watchdog, then removes the state, then hands on the
/// answer. A failure to cancel ends it with that failure.
pub proof fn law_disarm_step(event: DisarmEvent, r: DisarmStep)
    requires
        call_ensures(disarm_step, (event,), r),
    ensures
        event is Begun ==> r == DisarmStep::Cancel,
        event matches DisarmEvent::Cancelled(Err(e)) ==> r == DisarmStep::Finish(Err(e)),
        event matches DisarmEvent::Cancelled(Ok(_)) ==> r == DisarmStep::Remove,
        event matches DisarmEvent::Removed(answer) ==> r == DisarmStep::Finish(answer),
{
}

/// A state that is gone, or was never there, is no error; one that could not be
/// removed is.
pub proof fn law_removal(removal: Removal, r: Result<(), String>)
    requires
        call_ensures(removal_result, (removal,), r),
    ensures
        removal is Removed || removal is Absent ==> r is Ok,
        removal is Failed ==> r is Err && r->Err_0@ == "remove deadman state"@,
{
}

// ---------------------------------------------------------------------------
// Arming, renewing, disarming
// ---------------------------------------------------------------------------

/// Exactly one state was handed to be written, that of an arm at a time which the
/// clock showed. Where that succeeded and the time to live is above zero, the
/// watchdog got one call, for exactly that time, and its answer is the outcome;
/// else the watchdog got none.
pub open spec fn arms<
    F: FnOnce(&DeadmanState) -> Result<(), String>,
    C: Clock,
    W: Watchdog,
>(
    ttl: u64,
    pid: u32,
    write: F,
    clock: &C,
    before: &WatchdogSession<W>,
    after: &WatchdogSession<W>,
    r: Result<(), String>,
) -> bool {
    &&& after.watchdog() == before.watchdog()
    &&& exists|now: u64, state: DeadmanState, written: Result<(), String>|
        #![trigger call_ensures(C::now_secs, (clock,), now), call_ensures(write, (&state,), written)]
        {
            &&& call_ensures(C::now_secs, (clock,), now)
            &&& call_ensures(write, (&state,), written)
            &&& state.loaded_at == now
            &&& state.pid_of_arm == pid
            &&& ttl == 0 ==> state.ttl_secs is None && state.expires_at is None
            &&& ttl > 0 ==> state.ttl_secs == Some(ttl) && state.expires_at is Some && ends(
                state.expires_at->0,
                now,
                ttl,
            )
            &&& written matches Err(e) ==> r == Err::<(), String>(e)
            &&& written is Ok && ttl == 0 ==> r is Ok
            &&& written is Ok && ttl > 0 ==> after.log() == before.log().push(
                WatchdogCall::Arm(ttl, r),
            )
            &&& written is Err || ttl == 0 ==> after.log() == before.log()
        }
}

/// What arming is said to come to is that.
pub proof fn law_arm_answered<
    F: FnOnce(&DeadmanState) -> Result<(), String>,
    C: Clock,
    W: Watchdog,
>(
    ttl: u64,
    pid: u32,
    write: F,
    clock: &C,
    before: &WatchdogSession<W>,
    after: &WatchdogSession<W>,
    r: Result<(), String>,
)
    requires
        deadman::arm_answered(ttl, pid, write, clock, before, after, r),
    ensures
        arms(ttl, pid, write, clock, before, after, r),
{
    let (now, written) = choose|now: u64, written: Result<(), String>|
        #![trigger call_ensures(write, (&deadman::armed(ttl, now, pid),), written)]
        {
            &&& call_ensures(C::now_secs, (clock,), now)
            &&& call_ensures(write, (&deadman::armed(ttl, now, pid),), written)
            &&& match written {
                Err(e) => r == Err::<(), String>(e) && after.idle(before),
                Ok(_) => if ttl == deadman::TTL_PERMANENT {
                    r is Ok && after.idle(before)
                } else {
                    after.made(before, WatchdogCall::Arm(ttl, r))
                },
            }
        };
    let state = deadman::armed(ttl, now, pid);
    assert(call_ensures(C::now_secs, (clock,), now));
    assert(call_ensures(write, (&state,), written));
}

/// Arming writes one state and arms the watchdog once for exactly the time to
/// live, unless that is zero.
pub proof fn law_arm_to<
    F: FnOnce(&DeadmanState) -> Result<(), String>,
    C: Clock,
    W: Watchdog,
>(
    ttl: u64,
    pid: u32,
    write: F,
    clock: &C,
    watchdog: &mut WatchdogSession<W>,
    r: Result<(), String>,
)
    requires
        call_ensures(arm_to::<F, C, W>, (ttl, pid, write, clock, watchdog), r),
    ensures
        arms(ttl, pid, write, clock, old(watchdog), final(watchdog), r),
{
    law_arm_answered(ttl, pid, write, clock, old(watchdog), final(watchdog), r);
}

/// Renewing for `t` seconds, above zero, hands exactly one state to be written:
/// the stored one with time to live `t`, which ends `t` after a time that the
/// clock showed. Where that succeeds the watchdog gets one call, for exactly `t`,
/// and its answer is the outcome.
pub proof fn law_renew_for<
    F: FnOnce(&DeadmanState) -> Result<(), String>,
    C: Clock,
    W: Watchdog,
>(
    t: u64,
    stored: DeadmanState,
    write: F,
    clock: &C,
    watchdog: &mut WatchdogSession<W>,
    r: Result<(), String>,
)
    requires
        t > 0,
        call_ensures(renew_at::<F, C, W>, (Some(t), Some(stored), write, clock, watchdog), r),
    ensures
        renews(t, stored, write, clock, old(watchdog), final(watchdog), r),
{
    lemma_renews(Some(t), t, stored, write, clock, watchdog, r);
}

/// The renewal for `t` seconds took place.
pub open spec fn renews<
    F: FnOnce(&DeadmanState) -> Result<(), String>,
    C: Clock,
    W: Watchdog,
>(
    t: u64,
    stored: DeadmanState,
    write: F,
    clock: &C,
    before: &WatchdogSession<W>,
    after: &WatchdogSession<W>,
    r: Result<(), String>,
) -> bool {
    &&& after.watchdog() == before.watchdog()
    &&& exists|now: u64, state: DeadmanState, written: Result<(), String>|
        #![trigger call_ensures(C::now_secs, (clock,), now), call_ensures(write, (&state,), written)]
        {
            &&& call_ensures(C::now_secs, (clock,), now)
            &&& call_ensures(write, (&state,), written)
            &&& state.loaded_at == stored.loaded_at
            &&& state.pid_of_arm == stored.pid_of_arm
            &&& state.ttl_secs == Some(t)
            &&& state.expires_at is Some
            &&& ends(state.expires_at->0, now, t)
            &&& written matches Err(e) ==> r == Err::<(), String>(e) && after.log() == before.log()
            &&& written is Ok ==> after.log() == before.log().push(WatchdogCall::Arm(t, r))
        }
}

proof fn lemma_renews<
    F: FnOnce(&DeadmanState) -> Result<(), String>,
    C: Clock,
    W: Watchdog,
>(
    asked: Option<u64>,
    t: u64,
    stored: DeadmanState,
    write: F,
    clock: &C,
    watchdog: &mut WatchdogSession<W>,
    r: Result<(), String>,
)
    requires
        t > 0,
        asked == Some(t) || (asked is None || asked == Some(0u64)) && stored.ttl_secs == Some(t),
        call_ensures(renew_at::<F, C, W>, (asked, Some(stored), write, clock, watchdog), r),
    ensures
        renews(t, stored, write, clock, old(watchdog), final(watchdog), r),
{
    assert(deadman::renewal(asked, stored) == Some(t));
    let (now, written) = choose|now: u64, written: Result<(), String>|
        #![trigger call_ensures(write, (&deadman::renewed(stored, t, now),), written)]
        {
            &&& call_ensures(C::now_secs, (clock,), now)
            &&& call_ensures(write, (&deadman::renewed(stored, t, now),), written)
            &&& match written {
                Err(e) => r == Err::<(), String>(e) && final(watchdog).idle(old(watchdog)),
                Ok(_) => final(watchdog).made(old(watchdog), WatchdogCall::Arm(t, r)),
            }
        };
    let state = deadman::renewed(stored, t, now);
    assert(call_ensures(C::now_secs, (clock,), now));
    assert(call_ensures(write, (&state,), written));
}

/// Renewing without a time to live, or with one of zero, renews for the stored
/// one. Without a stored one above zero nothing is called and that is fine; with
/// no stored state at all nothing is called and that is an error.
pub proof fn law_renew_stored<
    F: FnOnce(&DeadmanState) -> Result<(), String>,
    C: Clock,
    W: Watchdog,
>(
    asked: Option<u64>,
    stored: Option<DeadmanState>,
    write: F,
    clock: &C,
    watchdog: &mut WatchdogSession<W>,
    r: Result<(), String>,
)
    requires
        call_ensures(renew_at::<F, C, W>, (asked, stored, write, clock, watchdog), r),
    ensures
        stored is None ==> r is Err && r->Err_0@ == "no deadman state — enforcer not loaded"@
            && final(watchdog).log() == old(watchdog).log(),
        asked is None || asked == Some(0u64) ==> (stored matches Some(state) ==> match state.ttl_secs {
            Some(t) => if t > 0 {
                renews(t, state, write, clock, old(watchdog), final(watchdog), r)
            } else {
                r is Ok && final(watchdog).log() == old(watchdog).log()
            },
            None => r is Ok && final(watchdog).log() == old(watchdog).log(),
        }),
{
    if asked is None || asked == Some(0u64) {
        if let Some(state) = stored {
            if let Some(t) = state.ttl_secs {
                if t > 0 {
                    lemma_renews(asked, t, state, write, clock, watchdog, r);
                }
            }
        }
    }
}

/// The watchdog got one call, to cancel. Where that failed, the failure is the
/// outcome; else the answer of the removal is.
pub open spec fn disarms<F: FnOnce() -> Result<(), String>, W: Watchdog>(
    remove: F,
    before: &WatchdogSession<W>,
    after: &WatchdogSession<W>,
    r: Result<(), String>,
) -> bool {
    &&& after.watchdog() == before.watchdog()
    &&& exists|cancelled: Result<(), String>|
        #![trigger before.log().push(WatchdogCall::Cancel(cancelled))]
        {
            &&& after.log() == before.log().push(WatchdogCall::Cancel(cancelled))
            &&& cancelled matches Err(e) ==> r == Err::<(), String>(e)
            &&& cancelled is Ok ==> call_ensures(remove, (), r)
        }
}

/// What disarming is said to come to is that.
pub proof fn law_disarm_answered<F: FnOnce() -> Result<(), String>, W: Watchdog>(
    remove: F,
    before: &WatchdogSession<W>,
    after: &WatchdogSession<W>,
    r: Result<(), String>,
)
    requires
        deadman::disarm_answered(remove, before, after, r),
    ensures
        disarms(remove, before, after, r),
{
    let cancelled = choose|cancelled: Result<(), String>| #[trigger]
        after.made(before, WatchdogCall::Cancel(cancelled)) && match cancelled {
            Err(e) => r == Err::<(), String>(e),
            Ok(_) => call_ensures(remove, (), r),
        };
    assert(after.made(before, WatchdogCall::Cancel(cancelled)));
}

/// Disarming cancels the watchdog once and only then removes the state.
pub proof fn law_disarm_at<F: FnOnce() -> Result<(), String>, W: Watchdog>(
    remove: F,
    watchdog: &mut WatchdogSession<W>,
    r: Result<(), String>,
)
    requires
        call_ensures(disarm_at::<F, W>, (remove, watchdog), r),
    ensures
        disarms(remove, old(watchdog), final(watchdog), r),
{
    law_disarm_answered(remove, old(watchdog), final(watchdog), r);
}

} // verus!
