//! The deadman timer: a watchdog that unloads the enforcer unless the arm is
//! renewed within its time to live.
//!
//! The state of the timer is persisted beside the policy file. Time and the
//! watchdog come in through [`Clock`] and [`Watchdog`], the watchdog in a
//! [`WatchdogSession`]; reading, writing and removing the state is handed in by
//! the caller.

use vstd::prelude::*;

use crate::session;
use crate::session::{WatchdogCall, WatchdogSession};
use crate::text;
use crate::text::below;

verus! {

/// Default time to live for a bare `bpolicy load`: thirty minutes.
pub const DEFAULT_TTL_SECS: u64 = 1800;
/// A time to live of zero arms permanently.
pub const TTL_PERMANENT: u64 = 0;
/// Name of the transient unit used as the watchdog.
pub const WATCHDOG_UNIT: &'static str = "bpolicy-deadman.service";

/// Persisted state of the deadman timer.
#[derive(Debug, Clone, Copy, PartialEq, Eq, Structural)]
pub struct DeadmanState {
    /// Unix timestamp in seconds when the enforcer was loaded.
    pub loaded_at: u64,
    /// Time to live in seconds; `None` means permanent.
    pub ttl_secs: Option<u64>,
    /// Unix timestamp in seconds when the watchdog fires; `None` if permanent.
    pub expires_at: Option<u64>,
    /// PID of the process that armed the enforcer.
    pub pid_of_arm: u32,
}

/// Wall-clock time.
pub trait Clock: Send + Sync {
    /// Current Unix time in seconds.
    fn now_secs(&self) -> u64;
}

/// The watchdog that unloads the enforcer.
pub trait Watchdog: Send + Sync {
    /// Arms the watchdog to fire after `ttl_secs` seconds, in place of one that
    /// is already armed.
    fn arm(&self, ttl_secs: u64) -> Result<(), String>;

    /// Cancels the watchdog; one that is not armed is no error.
    fn cancel(&self) -> Result<(), String>;
}

/// The state file's path: below `state_dir` where that is set, else below the
/// home directory, which is `/root` where it is not known.
pub fn state_path(state_dir: Option<&str>, home: Option<&str>) -> (r: String)
    ensures
        r@ == match (state_dir, home) {
            (Some(dir), _) => text::join_path(dir@, "deadman.json"@),
            (None, Some(h)) => text::join_path(h@, ".config/bpolicy/deadman.json"@),
            (None, None) => text::join_path("/root"@, ".config/bpolicy/deadman.json"@),
        },
{
    match (state_dir, home) {
        (Some(dir), _) => below(dir, "deadman.json"),
        (None, Some(h)) => below(h, ".config/bpolicy/deadman.json"),
        (None, None) => below("/root", ".config/bpolicy/deadman.json"),
    }
}

/// The time to live of a load: the one asked for, else the default.
pub open spec fn ttl_of_load(asked: Option<u64>) -> u64 {
    match asked {
        Some(ttl) => ttl,
        None => DEFAULT_TTL_SECS,
    }
}

/// The time to live of a load: the one asked for, else the default.
pub fn load_ttl(asked: Option<u64>) -> (r: u64)
    ensures
        r == ttl_of_load(asked),
{
    match asked {
        Some(ttl) => ttl,
        None => DEFAULT_TTL_SECS,
    }
}

// ---------------------------------------------------------------------------
// States
// ---------------------------------------------------------------------------

/// The end of a time to live that starts at `now`, at most the last timestamp.
pub open spec fn expiry(now: u64, ttl_secs: u64) -> u64 {
    if now + ttl_secs <= u64::MAX {
        (now + ttl_secs) as u64
    } else {
        u64::MAX
    }
}

/// The state after arming at `now`.
pub open spec fn armed(ttl_secs: u64, now: u64, pid: u32) -> DeadmanState {
    if ttl_secs == TTL_PERMANENT {
        DeadmanState { loaded_at: now, ttl_secs: None, expires_at: None, pid_of_arm: pid }
    } else {
        DeadmanState {
            loaded_at: now,
            ttl_secs: Some(ttl_secs),
            expires_at: Some(expiry(now, ttl_secs)),
            pid_of_arm: pid,
        }
    }
}

/// The state after arming at `now`.
pub fn armed_state(ttl_secs: u64, now: u64, pid: u32) -> (r: DeadmanState)
    ensures
        r == armed(ttl_secs, now, pid),
{
    if ttl_secs == TTL_PERMANENT {
        DeadmanState { loaded_at: now, ttl_secs: None, expires_at: None, pid_of_arm: pid }
    } else {
        DeadmanState {
            loaded_at: now,
            ttl_secs: Some(ttl_secs),
            expires_at: Some(now.saturating_add(ttl_secs)),
            pid_of_arm: pid,
        }
    }
}

/// The time to live that a renewal uses: a new one above zero, else the stored
/// one. A permanent arm that is given no new one has nothing to renew.
pub open spec fn renewal(new_ttl_secs: Option<u64>, state: DeadmanState) -> Option<u64> {
    match new_ttl_secs {
        Some(t) if t > 0 => Some(t),
        _ => match state.ttl_secs {
            Some(stored) if stored > 0 => Some(stored),
            _ => None,
        },
    }
}

/// The time to live that a renewal uses, `None` where there is nothing to renew.
pub fn renewal_ttl(new_ttl_secs: Option<u64>, state: &DeadmanState) -> (r: Option<u64>)
    ensures
        r == renewal(new_ttl_secs, *state),
{
    if let Some(t) = new_ttl_secs {
        if t > 0 {
            return Some(t);
        }
    }
    match state.ttl_secs {
        Some(stored) => if stored > 0 {
            Some(stored)
        } else {
            None
        },
        None => None,
    }
}

/// The state after a renewal at `now`: the time to live starts again, the arm
/// itself is the same.
pub open spec fn renewed(state: DeadmanState, ttl_secs: u64, now: u64) -> DeadmanState {
    DeadmanState {
        ttl_secs: Some(ttl_secs),
        expires_at: Some(expiry(now, ttl_secs)),
        ..state
    }
}

/// The state after a renewal at `now`.
pub fn renewed_state(state: &DeadmanState, ttl_secs: u64, now: u64) -> (r: DeadmanState)
    ensures
        r == renewed(*state, ttl_secs, now),
{
    DeadmanState {
        loaded_at: state.loaded_at,
        ttl_secs: Some(ttl_secs),
        expires_at: Some(now.saturating_add(ttl_secs)),
        pid_of_arm: state.pid_of_arm,
    }
}

/// Seconds from `now` until `expires_at`, zero once it has passed.
pub open spec fn seconds_left(expires_at: u64, now: u64) -> u64 {
    if now < expires_at {
        (expires_at - now) as u64
    } else {
        0
    }
}

/// Seconds left at `now`, `None` if permanent.
pub open spec fn left_at(state: DeadmanState, now: u64) -> Option<u64> {
    match state.expires_at {
        Some(expires_at) => Some(seconds_left(expires_at, now)),
        None => None,
    }
}

/// Seconds left at `now`, `None` if permanent.
pub fn remaining_at(state: &DeadmanState, now: u64) -> (r: Option<u64>)
    ensures
        r == left_at(*state, now),
{
    match state.expires_at {
        Some(expires_at) => Some(expires_at.saturating_sub(now)),
        None => None,
    }
}

/// Seconds left on the clock, `None` if permanent, zero once expired.
pub fn ttl_remaining<C: Clock>(state: &DeadmanState, clock: &C) -> (r: Option<u64>)
    ensures
        state.expires_at is None ==> r is None,
        state.expires_at is Some ==> exists|now: u64|
            #[trigger] call_ensures(C::now_secs, (clock,), now) && r == left_at(*state, now),
{
    if state.expires_at.is_none() {
        return None;
    }
    let now = clock.now_secs();
    remaining_at(state, now)
}

// ---------------------------------------------------------------------------
// Steps
// ---------------------------------------------------------------------------

/// What has happened on the way to an armed or renewed timer.
#[derive(Debug)]
pub enum ArmEvent {
    /// Nothing yet.
    Begun,
    /// The clock was read.
    Ticked(u64),
    /// The state was handed over to be written, with this answer.
    Written(Result<(), String>),
    /// The watchdog was asked to arm, with this answer.
    Armed(Result<(), String>),
}

/// What to do next on the way to an armed or renewed timer.
#[derive(Debug, PartialEq, Eq)]
pub enum ArmStep {
    /// Read the clock.
    ReadClock,
    /// Write this state.
    Write(DeadmanState),
    /// Arm the watchdog for so many seconds.
    Arm(u64),
    /// Nothing more; this is the outcome.
    Finish(Result<(), String>),
}

/// What has happened on the way to a disarmed timer.
#[derive(Debug)]
pub enum DisarmEvent {
    /// Nothing yet.
    Begun,
    /// The watchdog was asked to stop, with this answer.
    Cancelled(Result<(), String>),
    /// The state was to be removed, with this answer.
    Removed(Result<(), String>),
}

/// What to do next on the way to a disarmed timer.
#[derive(Debug, PartialEq, Eq)]
pub enum DisarmStep {
    /// Cancel the watchdog.
    Cancel,
    /// Remove the state.
    Remove,
    /// Nothing more; this is the outcome.
    Finish(Result<(), String>),
}

/// What follows an event when the timer is armed: the state is written, then
/// the watchdog is armed unless the arm is permanent. The first failure ends it.
pub open spec fn arm_next(ttl_secs: u64, pid: u32, event: ArmEvent) -> ArmStep {
    match event {
        ArmEvent::Begun => ArmStep::ReadClock,
        ArmEvent::Ticked(now) => ArmStep::Write(armed(ttl_secs, now, pid)),
        ArmEvent::Written(Err(e)) => ArmStep::Finish(Err(e)),
        ArmEvent::Written(Ok(_)) => if ttl_secs == TTL_PERMANENT {
            ArmStep::Finish(Ok(()))
        } else {
            ArmStep::Arm(ttl_secs)
        },
        ArmEvent::Armed(answer) => ArmStep::Finish(answer),
    }
}

/// The next step in arming the timer.
pub fn arm_step(ttl_secs: u64, pid: u32, event: ArmEvent) -> (r: ArmStep)
    ensures
        r == arm_next(ttl_secs, pid, event),
{
    match event {
        ArmEvent::Begun => ArmStep::ReadClock,
        ArmEvent::Ticked(now) => ArmStep::Write(armed_state(ttl_secs, now, pid)),
        ArmEvent::Written(Err(e)) => ArmStep::Finish(Err(e)),
        ArmEvent::Written(Ok(_)) => if ttl_secs == TTL_PERMANENT {
            ArmStep::Finish(Ok(()))
        } else {
            ArmStep::Arm(ttl_secs)
        },
        ArmEvent::Armed(answer) => ArmStep::Finish(answer),
    }
}

/// What follows an event when an arm with the stored `state` is renewed: the
/// renewed state is written, then the watchdog is armed. The first failure ends
/// it. Where there is nothing to renew, all stays as it is.
pub open spec fn renew_next(
    new_ttl_secs: Option<u64>,
    state: DeadmanState,
    event: ArmEvent,
) -> ArmStep {
    match renewal(new_ttl_secs, state) {
        None => ArmStep::Finish(Ok(())),
        Some(ttl) => match event {
            ArmEvent::Begun => ArmStep::ReadClock,
            ArmEvent::Ticked(now) => ArmStep::Write(renewed(state, ttl, now)),
            ArmEvent::Written(Err(e)) => ArmStep::Finish(Err(e)),
            ArmEvent::Written(Ok(_)) => ArmStep::Arm(ttl),
            ArmEvent::Armed(answer) => ArmStep::Finish(answer),
        },
    }
}

/// The next step in renewing an arm with the stored `state`.
pub fn renew_step(new_ttl_secs: Option<u64>, state: &DeadmanState, event: ArmEvent) -> (r: ArmStep)
    ensures
        r == renew_next(new_ttl_secs, *state, event),
{
    match renewal_ttl(new_ttl_secs, state) {
        None => ArmStep::Finish(Ok(())),
        Some(ttl) => match event {
            ArmEvent::Begun => ArmStep::ReadClock,
            ArmEvent::Ticked(now) => ArmStep::Write(renewed_state(state, ttl, now)),
            ArmEvent::Written(Err(e)) => ArmStep::Finish(Err(e)),
            ArmEvent::Written(Ok(_)) => ArmStep::Arm(ttl),
            ArmEvent::Armed(answer) => ArmStep::Finish(answer),
        },
    }
}

/// What follows an event when the timer is disarmed: the watchdog is cancelled,
/// then the state is removed. The first failure ends it.
pub open spec fn disarm_next(event: DisarmEvent) -> DisarmStep {
    match event {
        DisarmEvent::Begun => DisarmStep::Cancel,
        DisarmEvent::Cancelled(Err(e)) => DisarmStep::Finish(Err(e)),
        DisarmEvent::Cancelled(Ok(_)) => DisarmStep::Remove,
        DisarmEvent::Removed(answer) => DisarmStep::Finish(answer),
    }
}

/// The next step in disarming the timer.
pub fn disarm_step(event: DisarmEvent) -> (r: DisarmStep)
    ensures
        r == disarm_next(event),
{
    match event {
        DisarmEvent::Begun => DisarmStep::Cancel,
        DisarmEvent::Cancelled(Err(e)) => DisarmStep::Finish(Err(e)),
        DisarmEvent::Cancelled(Ok(_)) => DisarmStep::Remove,
        DisarmEvent::Removed(answer) => DisarmStep::Finish(answer),
    }
}

/// What removing the state file came to.
#[derive(Debug, Clone, Copy, PartialEq, Eq, Structural)]
pub enum Removal {
    /// The file was removed.
    Removed,
    /// There was no file.
    Absent,
    /// The file could not be removed.
    Failed,
}

/// Whether the state is gone. A file that was not there is no error.
pub fn removal_result(removal: Removal) -> (r: Result<(), String>)
    ensures
        r is Ok <==> removal != Removal::Failed,
        r matches Err(e) ==> e@ == "remove deadman state"@,
{
    match removal {
        Removal::Removed | Removal::Absent => Ok(()),
        Removal::Failed => Err("remove deadman state".to_owned()),
    }
}

// ---------------------------------------------------------------------------
// Arming, renewing, disarming
// ---------------------------------------------------------------------------

/// `write` can be handed the state of an arm at any time the clock may show.
pub open spec fn can_write_arm<F: FnOnce(&DeadmanState) -> Result<(), String>, C: Clock>(
    ttl_secs: u64,
    pid: u32,
    write: F,
    clock: &C,
) -> bool {
    forall|now: u64| #[trigger]
        call_ensures(C::now_secs, (clock,), now) ==> call_requires(
            write,
            (&armed(ttl_secs, now, pid),),
        )
}

/// Arming came to `r`: the clock showed some time, the state of an arm at that
/// time was handed to `write`, and the watchdog was then armed once for the time
/// to live. It was left alone where writing failed and for a permanent arm.
pub open spec fn arm_answered<
    F: FnOnce(&DeadmanState) -> Result<(), String>,
    C: Clock,
    W: Watchdog,
>(
    ttl_secs: u64,
    pid: u32,
    write: F,
    clock: &C,
    before: &WatchdogSession<W>,
    after: &WatchdogSession<W>,
    r: Result<(), String>,
) -> bool {
    exists|now: u64, written: Result<(), String>|
        #![trigger call_ensures(write, (&armed(ttl_secs, now, pid),), written)]
        {
            &&& call_ensures(C::now_secs, (clock,), now)
            &&& call_ensures(write, (&armed(ttl_secs, now, pid),), written)
            &&& match written {
                Err(e) => r == Err::<(), String>(e) && after.idle(before),
                Ok(_) => if ttl_secs == TTL_PERMANENT {
                    r is Ok && after.idle(before)
                } else {
                    after.made(before, WatchdogCall::Arm(ttl_secs, r))
                },
            }
        }
}

/// Arms the deadman timer: writes the state, then arms the watchdog unless the
/// arm is permanent. The first failure ends it.
///
/// `write` need only take the state of an arm at a time that the clock shows.
pub fn arm_to<F: FnOnce(&DeadmanState) -> Result<(), String>, C: Clock, W: Watchdog>(
    ttl_secs: u64,
    pid: u32,
    write: F,
    clock: &C,
    watchdog: &mut WatchdogSession<W>,
) -> (r: Result<(), String>)
    requires
        can_write_arm(ttl_secs, pid, write, clock),
    ensures
        arm_answered(ttl_secs, pid, write, clock, old(watchdog), final(watchdog), r),
{
    let now = clock.now_secs();
    let state = match arm_step(ttl_secs, pid, ArmEvent::Ticked(now)) {
        ArmStep::Write(state) => state,
        _ => unreached(),
    };
    let written = write(&state);
    assert(call_ensures(write, (&armed(ttl_secs, now, pid),), written));
    match arm_step(ttl_secs, pid, ArmEvent::Written(written)) {
        ArmStep::Arm(secs) => watchdog.arm(secs),
        ArmStep::Finish(r) => r,
        _ => unreached(),
    }
}

/// `write` can be handed the renewed state at any time the clock may show, where
/// there is something to renew.
pub open spec fn can_write_renewal<F: FnOnce(&DeadmanState) -> Result<(), String>, C: Clock>(
    new_ttl_secs: Option<u64>,
    stored: Option<DeadmanState>,
    write: F,
    clock: &C,
) -> bool {
    stored matches Some(state) ==> renewal(new_ttl_secs, state) matches Some(ttl) ==> forall|
        now: u64,
    | #[trigger]
        call_ensures(C::now_secs, (clock,), now) ==> call_requires(
            write,
            (&renewed(state, ttl, now),),
        )
}

/// Renews the deadman timer from the stored state: writes the renewed state,
/// then arms the watchdog again, once. The first failure ends it. Without a
/// stored state there is nothing to renew, and that is an error; a permanent arm
/// that is given no new time to live stays as it is. In both cases, and where
/// writing fails, the watchdog is left alone.
///
/// `write` need only take the renewed state at a time that the clock shows, and
/// only where there is something to renew: nothing else is written.
pub fn renew_at<F: FnOnce(&DeadmanState) -> Result<(), String>, C: Clock, W: Watchdog>(
    new_ttl_secs: Option<u64>,
    stored: Option<DeadmanState>,
    write: F,
    clock: &C,
    watchdog: &mut WatchdogSession<W>,
) -> (r: Result<(), String>)
    requires
        can_write_renewal(new_ttl_secs, stored, write, clock),
    ensures
        match stored {
            None => {
                &&& r is Err
                &&& r->Err_0@ == "no deadman state — enforcer not loaded"@
                &&& final(watchdog).idle(old(watchdog))
            },
            Some(state) => match renewal(new_ttl_secs, state) {
                None => r is Ok && final(watchdog).idle(old(watchdog)),
                Some(ttl) => exists|now: u64, written: Result<(), String>|
                    #![trigger call_ensures(write, (&renewed(state, ttl, now),), written)]
                    {
                        &&& call_ensures(C::now_secs, (clock,), now)
                        &&& call_ensures(write, (&renewed(state, ttl, now),), written)
                        &&& match written {
                            Err(e) => r == Err::<(), String>(e) && final(watchdog).idle(
                                old(watchdog),
                            ),
                            Ok(_) => final(watchdog).made(
                                old(watchdog),
                                WatchdogCall::Arm(ttl, r),
                            ),
                        }
                    },
            },
        },
{
    let state = match stored {
        None => {
            return Err("no deadman state — enforcer not loaded".to_owned());
        },
        Some(state) => state,
    };
    match renew_step(new_ttl_secs, &state, ArmEvent::Begun) {
        ArmStep::Finish(r) => {
            return r;
        },
        _ => {},
    }
    let ghost ttl = renewal(new_ttl_secs, state)->0;
    let now = clock.now_secs();
    let next = match renew_step(new_ttl_secs, &state, ArmEvent::Ticked(now)) {
        ArmStep::Write(next) => next,
        _ => unreached(),
    };
    let written = write(&next);
    assert(call_ensures(write, (&renewed(state, ttl, now),), written));
    match renew_step(new_ttl_secs, &state, ArmEvent::Written(written)) {
        ArmStep::Arm(secs) => watchdog.arm(secs),
        ArmStep::Finish(r) => r,
        _ => unreached(),
    }
}

/// Disarming came to `r`: the watchdog was cancelled once, and its answer, then
/// that of `remove`, decided.
pub open spec fn disarm_answered<F: FnOnce() -> Result<(), String>, W: Watchdog>(
    remove: F,
    before: &WatchdogSession<W>,
    after: &WatchdogSession<W>,
    r: Result<(), String>,
) -> bool {
    exists|cancelled: Result<(), String>| #[trigger]
        after.made(before, WatchdogCall::Cancel(cancelled)) && match cancelled {
            Err(e) => r == Err::<(), String>(e),
            Ok(_) => call_ensures(remove, (), r),
        }
}

/// `remove` can be called once the watchdog has answered that it is cancelled.
pub open spec fn can_remove_cancelled<F: FnOnce() -> Result<(), String>, W: Watchdog>(
    remove: F,
    watchdog: W,
) -> bool {
    session::watchdog_answered(watchdog, WatchdogCall::Cancel(Ok(()))) ==> call_requires(remove, ())
}

/// Disarms the deadman timer: cancels the watchdog, then removes the state.
/// The first failure ends it.
///
/// `remove` may rely on the watchdog having answered that it is cancelled: it is
/// never called before, nor after a failure to cancel.
pub fn disarm_at<F: FnOnce() -> Result<(), String>, W: Watchdog>(
    remove: F,
    watchdog: &mut WatchdogSession<W>,
) -> (r: Result<(), String>)
    requires
        can_remove_cancelled(remove, old(watchdog).watchdog()),
    ensures
        disarm_answered(remove, old(watchdog), final(watchdog), r),
{
    let cancelled = watchdog.cancel();
    assert(cancelled matches Ok(unit) ==> unit == ());
    assert(watchdog.made(old(watchdog), WatchdogCall::Cancel(cancelled)));
    match disarm_step(DisarmEvent::Cancelled(cancelled)) {
        DisarmStep::Remove => remove(),
        DisarmStep::Finish(r) => r,
        DisarmStep::Cancel => unreached(),
    }
}

// ---------------------------------------------------------------------------
// Laws
// ---------------------------------------------------------------------------

/// A state in order: it expires exactly when it has a time to live.
pub open spec fn consistent(state: DeadmanState) -> bool {
    state.ttl_secs is Some <==> state.expires_at is Some
}

/// Arming gives a consistent state, and renewing any state does.
pub proof fn law_states_consistent(
    ttl_secs: u64,
    now: u64,
    pid: u32,
    state: DeadmanState,
    later: u64,
)
    ensures
        consistent(armed(ttl_secs, now, pid)),
        consistent(renewed(state, ttl_secs, later)),
{
}

/// From arming on, the seconds left count down with the clock to zero, and no
/// further. They start at the time to live, or at what is left until the last
/// timestamp where that is less.
pub proof fn law_countdown(ttl_secs: u64, now: u64, pid: u32, elapsed: u64)
    requires
        ttl_secs != TTL_PERMANENT,
        now + elapsed <= u64::MAX,
    ensures
        ({
            let span = if now + ttl_secs <= u64::MAX {
                ttl_secs as int
            } else {
                u64::MAX - now
            };
            left_at(armed(ttl_secs, now, pid), (now + elapsed) as u64) == Some(
                if elapsed < span {
                    (span - elapsed) as u64
                } else {
                    0u64
                },
            )
        }),
{
}

/// A bare load heals itself: once the default time to live has passed, no time
/// is left. A load that asks for a time to live of zero never expires.
pub proof fn law_bare_load_self_heals(now: u64, pid: u32, later: u64)
    requires
        now + DEFAULT_TTL_SECS <= later,
    ensures
        left_at(armed(ttl_of_load(None), now, pid), later) == Some(0u64),
        left_at(armed(ttl_of_load(Some(0u64)), now, pid), later) is None,
{
}

/// A permanent arm never expires.
pub proof fn law_permanent_never_expires(now: u64, pid: u32, later: u64)
    ensures
        left_at(armed(TTL_PERMANENT, now, pid), later) is None,
{
}

/// Renewing leaves the time and the process of the arm as they are.
pub proof fn law_renewal_keeps_arm(state: DeadmanState, ttl_secs: u64, now: u64)
    ensures
        renewed(state, ttl_secs, now).loaded_at == state.loaded_at,
        renewed(state, ttl_secs, now).pid_of_arm == state.pid_of_arm,
{
}

/// The time to live of `state`, above zero, started at `at`.
pub open spec fn started(state: DeadmanState, at: u64) -> bool {
    &&& state.ttl_secs is Some
    &&& state.ttl_secs->0 > 0
    &&& state.expires_at == Some(expiry(at, state.ttl_secs->0))
}

/// Every state that is written, but for a permanent one, started when it was
/// written: when the enforcer was armed, or when the arm was last renewed.
pub proof fn law_written_states_started(
    ttl_secs: u64,
    now: u64,
    pid: u32,
    state: DeadmanState,
    new_ttl_secs: Option<u64>,
    later: u64,
)
    ensures
        ttl_secs != TTL_PERMANENT ==> started(armed(ttl_secs, now, pid), now),
        renewal(new_ttl_secs, state) matches Some(ttl) ==> started(
            renewed(state, ttl, later),
            later,
        ),
{
}

/// Renewing an arm without a new time to live keeps the time to live and never
/// brings the expiry forward; it pushes it back by the time gone by, up to the
/// last timestamp.
pub proof fn law_renewal_pushes_expiry(state: DeadmanState, at: u64, now: u64)
    requires
        started(state, at),
        at <= now,
    ensures
        renewal(None, state) == state.ttl_secs,
        ({
            let next = renewed(state, renewal(None, state)->0, now);
            &&& next.ttl_secs == state.ttl_secs
            &&& next.expires_at->0 >= state.expires_at->0
            &&& now + state.ttl_secs->0 <= u64::MAX ==> next.expires_at->0
                - state.expires_at->0 == now - at
        }),
{
}

/// An arm that started can always be renewed, with or without a new time to
/// live.
pub proof fn law_started_arm_renews(new_ttl_secs: Option<u64>, state: DeadmanState, at: u64)
    requires
        started(state, at),
    ensures
        renewal(new_ttl_secs, state) is Some,
        renewal(new_ttl_secs, state)->0 > 0,
{
}

/// A permanent arm stays permanent unless it is given a new time to live: a
/// renewal finishes at once, and neither writes nor arms anything.
pub proof fn law_permanent_arm_stays(
    new_ttl_secs: Option<u64>,
    now: u64,
    pid: u32,
    event: ArmEvent,
)
    requires
        new_ttl_secs is None || new_ttl_secs == Some(0u64),
    ensures
        renew_next(new_ttl_secs, armed(TTL_PERMANENT, now, pid), event) == ArmStep::Finish(Ok(())),
{
}

/// Renewing twice at one time is renewing once.
pub proof fn law_renewal_idempotent(state: DeadmanState, ttl_secs: u64, now: u64)
    ensures
        renewed(renewed(state, ttl_secs, now), ttl_secs, now) == renewed(state, ttl_secs, now),
{
}

/// A new time to live of zero asks for no change: it renews like none.
pub proof fn law_zero_reuses_stored(state: DeadmanState)
    ensures
        renewal(Some(0u64), state) == renewal(None, state),
        state.ttl_secs != Some(0u64) ==> renewal(None, state) == state.ttl_secs,
{
}

/// The watchdog is armed for the time to live of the arm, only after the state
/// was written, and never for a permanent arm; a failure to write ends it.
pub proof fn law_arm_writes_first(ttl_secs: u64, pid: u32, event: ArmEvent, secs: u64)
    ensures
        arm_next(ttl_secs, pid, event) == ArmStep::Arm(secs) <==> event == ArmEvent::Written(
            Ok(()),
        ) && ttl_secs != TTL_PERMANENT && secs == ttl_secs,
        event matches ArmEvent::Written(Err(e)) ==> arm_next(ttl_secs, pid, event)
            == ArmStep::Finish(Err(e)),
{
    assert(event matches ArmEvent::Written(Ok(unit)) ==> unit == ());
}

/// The steps that disarming takes, with these answers of the watchdog and of
/// the removal.
pub open spec fn disarm_run(
    cancelled: Result<(), String>,
    removed: Result<(), String>,
) -> Seq<DisarmStep> {
    let second = disarm_next(DisarmEvent::Cancelled(cancelled));
    let start = seq![disarm_next(DisarmEvent::Begun), second];
    if second == DisarmStep::Remove {
        start.push(disarm_next(DisarmEvent::Removed(removed)))
    } else {
        start
    }
}

/// Disarming cancels the watchdog once, first of all. Where that fails, the
/// state is left as it was and the failure is the outcome; else the state is
/// removed, and the answer to that is the outcome.
pub proof fn law_disarm_cancels_first(cancelled: Result<(), String>, removed: Result<(), String>)
    ensures
        disarm_run(cancelled, removed) == match cancelled {
            Err(e) => seq![DisarmStep::Cancel, DisarmStep::Finish(Err(e))],
            Ok(_) => seq![DisarmStep::Cancel, DisarmStep::Remove, DisarmStep::Finish(removed)],
        },
{
    assert(disarm_run(cancelled, removed) =~= match cancelled {
        Err(e) => seq![DisarmStep::Cancel, DisarmStep::Finish(Err(e))],
        Ok(_) => seq![DisarmStep::Cancel, DisarmStep::Remove, DisarmStep::Finish(removed)],
    });
}

} // verus!
