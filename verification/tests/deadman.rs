//! The deadman timer, with a clock and a watchdog under the test's control.

use bpolicy::deadman::{
    arm_step, arm_to, armed_state, disarm_at, disarm_step, load_ttl, remaining_at,
    removal_result, renew_at, renew_step, renewal_ttl, renewed_state, state_path,
    ttl_remaining, ArmEvent, ArmStep, Clock, DeadmanState, DisarmEvent, DisarmStep, Removal,
    Watchdog, TTL_PERMANENT,
};
use bpolicy::session::WatchdogSession;
use std::cell::Cell;
use std::sync::Mutex;

/// Fake clock with a fixed "now" value.
struct FakeClock(u64);

impl Clock for FakeClock {
    fn now_secs(&self) -> u64 {
        self.0
    }
}

/// Fake watchdog that records calls.
#[derive(Default)]
struct FakeWatchdog {
    arms: Mutex<Vec<u64>>,
    cancels: Mutex<u32>,
    broken: bool,
}

impl Watchdog for FakeWatchdog {
    fn arm(&self, ttl_secs: u64) -> Result<(), String> {
        if self.broken {
            return Err("no service manager".to_owned());
        }
        *self.cancels.lock().unwrap() += 1;
        self.arms.lock().unwrap().push(ttl_secs);
        Ok(())
    }

    fn cancel(&self) -> Result<(), String> {
        if self.broken {
            return Err("no service manager".to_owned());
        }
        *self.cancels.lock().unwrap() += 1;
        Ok(())
    }
}

/// Where the state would be stored.
#[derive(Default)]
struct Store(Cell<Option<DeadmanState>>);

impl Store {
    fn write(&self, s: &DeadmanState) -> Result<(), String> {
        self.0.set(Some(*s));
        Ok(())
    }

    fn read(&self) -> Option<DeadmanState> {
        self.0.get()
    }

    fn remove(&self) -> Result<(), String> {
        self.0.set(None);
        Ok(())
    }
}

fn arm(ttl: u64, store: &Store, clock: &FakeClock, wd: &FakeWatchdog) -> Result<(), String> {
    arm_to(ttl, 42, |s| store.write(s), clock, &mut WatchdogSession::new(wd))
}

fn renew(
    ttl: Option<u64>,
    store: &Store,
    clock: &FakeClock,
    wd: &FakeWatchdog,
) -> Result<(), String> {
    renew_at(ttl, store.read(), |s| store.write(s), clock, &mut WatchdogSession::new(wd))
}

#[test]
fn test_arm_with_ttl() {
    let store = Store::default();
    let clock = FakeClock(1_000_000);
    let wd = FakeWatchdog::default();

    arm(900, &store, &clock, &wd).expect("arm");

    let state = store.read().expect("state written");
    assert_eq!(state.loaded_at, 1_000_000);
    assert_eq!(state.ttl_secs, Some(900));
    assert_eq!(state.expires_at, Some(1_000_900));
    assert_eq!(wd.arms.lock().unwrap().as_slice(), &[900u64]);
    assert_eq!(state.pid_of_arm, 42);
}

#[test]
fn test_arm_permanent() {
    let store = Store::default();
    let clock = FakeClock(2_000_000);
    let wd = FakeWatchdog::default();

    arm(TTL_PERMANENT, &store, &clock, &wd).expect("arm permanent");

    let state = store.read().expect("state written");
    assert_eq!(state.ttl_secs, None);
    assert_eq!(state.expires_at, None);
    assert!(wd.arms.lock().unwrap().is_empty());
}

#[test]
fn test_renew_updates_expiry() {
    let store = Store::default();
    let wd = FakeWatchdog::default();
    arm(600, &store, &FakeClock(1_000), &wd).expect("arm");

    renew(Some(300), &store, &FakeClock(1_300), &wd).expect("renew");

    let state = store.read().expect("state after renew");
    assert_eq!(state.ttl_secs, Some(300));
    assert_eq!(state.expires_at, Some(1_600));
    assert_eq!(state.loaded_at, 1_000);
}

#[test]
fn test_renew_twice_leaves_separate_arm_calls() {
    let store = Store::default();
    let clock = FakeClock(1_000);
    let wd = FakeWatchdog::default();
    arm(600, &store, &clock, &wd).expect("arm");

    renew(None, &store, &clock, &wd).expect("renew 1");
    renew(None, &store, &clock, &wd).expect("renew 2");

    let arms = wd.arms.lock().unwrap();
    assert_eq!(arms.len(), 3, "initial arm + 2 renews = 3 arm calls");
}

#[test]
fn test_disarm_removes_state() {
    let store = Store::default();
    let wd = FakeWatchdog::default();
    arm(600, &store, &FakeClock(1_000), &wd).expect("arm");
    assert!(store.read().is_some());

    disarm_at(|| store.remove(), &mut WatchdogSession::new(&wd)).expect("disarm");
    assert!(store.read().is_none());
}

#[test]
fn test_disarm_idempotent() {
    let store = Store::default();
    let wd = FakeWatchdog::default();
    // Disarm without ever arming
    disarm_at(|| store.remove(), &mut WatchdogSession::new(&wd)).expect("disarm idempotent");
}

#[test]
fn test_ttl_remaining_counts_down() {
    let state = DeadmanState {
        loaded_at: 1000,
        ttl_secs: Some(600),
        expires_at: Some(1600),
        pid_of_arm: 42,
    };
    let clock = FakeClock(1_200);
    assert_eq!(ttl_remaining(&state, &clock), Some(400));
}

#[test]
fn test_ttl_remaining_expired() {
    let state = DeadmanState {
        loaded_at: 1000,
        ttl_secs: Some(60),
        expires_at: Some(1060),
        pid_of_arm: 42,
    };
    let clock = FakeClock(2_000);
    assert_eq!(ttl_remaining(&state, &clock), Some(0));
}

#[test]
fn test_ttl_remaining_permanent() {
    let state =
        DeadmanState { loaded_at: 1000, ttl_secs: None, expires_at: None, pid_of_arm: 42 };
    let clock = FakeClock(9_999_999);
    assert_eq!(ttl_remaining(&state, &clock), None);
}

#[test]
fn a_failure_ends_the_arm() {
    let store = Store::default();
    let wd = FakeWatchdog::default();
    let mut session = WatchdogSession::new(&wd);
    let unwritten =
        arm_to(600, 1, |_| Err("disk full".to_owned()), &FakeClock(1), &mut session);
    assert_eq!(unwritten, Err("disk full".to_owned()));
    assert!(wd.arms.lock().unwrap().is_empty());

    let broken = FakeWatchdog { broken: true, ..FakeWatchdog::default() };
    assert_eq!(arm(600, &store, &FakeClock(1), &broken), Err("no service manager".to_owned()));
    assert!(store.read().is_some());
    assert_eq!(
        renew(None, &store, &FakeClock(2), &broken),
        Err("no service manager".to_owned())
    );
    assert_eq!(
        disarm_at(|| store.remove(), &mut WatchdogSession::new(&broken)),
        Err("no service manager".to_owned())
    );
    assert!(store.read().is_some());
    assert_eq!(disarm_at(|| Err("busy".to_owned()), &mut WatchdogSession::new(&wd)), Err("busy".to_owned()));
}

#[test]
fn nothing_to_renew() {
    let store = Store::default();
    let wd = FakeWatchdog::default();
    assert_eq!(
        renew(Some(60), &store, &FakeClock(1), &wd),
        Err("no deadman state — enforcer not loaded".to_owned())
    );
    let zero = DeadmanState { loaded_at: 1, ttl_secs: Some(0), expires_at: None, pid_of_arm: 1 };
    store.write(&zero).expect("write");
    assert_eq!(renew(None, &store, &FakeClock(9), &wd), Ok(()));
    assert_eq!(store.read(), Some(zero));
    assert!(wd.arms.lock().unwrap().is_empty());
}

#[test]
fn a_permanent_arm_stays_permanent() {
    let store = Store::default();
    let wd = FakeWatchdog::default();
    arm(TTL_PERMANENT, &store, &FakeClock(1_000), &wd).expect("arm");
    for ttl in [None, Some(0)] {
        assert_eq!(renew(ttl, &store, &FakeClock(2_000), &wd), Ok(()));
        let state = store.read().expect("state");
        assert_eq!(state.loaded_at, 1_000);
        assert_eq!(state.ttl_secs, None);
        assert_eq!(state.expires_at, None);
        assert!(wd.arms.lock().unwrap().is_empty());
        assert_eq!(renew_step(ttl, &state, ArmEvent::Begun), ArmStep::Finish(Ok(())));
    }
    assert_eq!(renew(Some(7), &store, &FakeClock(2_000), &wd), Ok(()));
    assert_eq!(store.read().expect("state").expires_at, Some(2_007));
    assert_eq!(wd.arms.lock().unwrap().as_slice(), &[7u64]);
}

#[test]
fn the_ttl_of_a_renewal() {
    let permanent = armed_state(TTL_PERMANENT, 5, 1);
    assert_eq!(renewal_ttl(None, &permanent), None);
    assert_eq!(renewal_ttl(Some(0), &permanent), None);
    assert_eq!(renewal_ttl(Some(7), &permanent), Some(7));
    let timed = armed_state(600, 5, 1);
    assert_eq!(renewal_ttl(None, &timed), Some(600));
    assert_eq!(renewal_ttl(Some(0), &timed), Some(600));
    assert_eq!(renewal_ttl(Some(7), &timed), Some(7));
}

#[test]
fn steps_of_arming_and_renewing() {
    let failed = || Err("no".to_owned());
    assert_eq!(arm_step(60, 7, ArmEvent::Begun), ArmStep::ReadClock);
    assert_eq!(arm_step(60, 7, ArmEvent::Ticked(5)), ArmStep::Write(armed_state(60, 5, 7)));
    assert_eq!(arm_step(60, 7, ArmEvent::Written(Ok(()))), ArmStep::Arm(60));
    assert_eq!(arm_step(0, 7, ArmEvent::Written(Ok(()))), ArmStep::Finish(Ok(())));
    assert_eq!(arm_step(60, 7, ArmEvent::Written(failed())), ArmStep::Finish(failed()));
    assert_eq!(arm_step(60, 7, ArmEvent::Armed(failed())), ArmStep::Finish(failed()));
    let state = armed_state(60, 5, 7);
    assert_eq!(renew_step(None, &state, ArmEvent::Begun), ArmStep::ReadClock);
    assert_eq!(
        renew_step(Some(9), &state, ArmEvent::Ticked(8)),
        ArmStep::Write(renewed_state(&state, 9, 8))
    );
    assert_eq!(renew_step(Some(9), &state, ArmEvent::Written(Ok(()))), ArmStep::Arm(9));
    assert_eq!(renew_step(None, &state, ArmEvent::Written(failed())), ArmStep::Finish(failed()));
    assert_eq!(renew_step(None, &state, ArmEvent::Armed(Ok(()))), ArmStep::Finish(Ok(())));
}

#[test]
fn steps_of_disarming() {
    let failed = || Err("no".to_owned());
    assert_eq!(disarm_step(DisarmEvent::Begun), DisarmStep::Cancel);
    assert_eq!(disarm_step(DisarmEvent::Cancelled(Ok(()))), DisarmStep::Remove);
    assert_eq!(disarm_step(DisarmEvent::Cancelled(failed())), DisarmStep::Finish(failed()));
    assert_eq!(disarm_step(DisarmEvent::Removed(failed())), DisarmStep::Finish(failed()));
    assert_eq!(disarm_step(DisarmEvent::Removed(Ok(()))), DisarmStep::Finish(Ok(())));
}

#[test]
fn an_absent_state_file_is_no_error() {
    assert_eq!(removal_result(Removal::Removed), Ok(()));
    assert_eq!(removal_result(Removal::Absent), Ok(()));
    assert_eq!(removal_result(Removal::Failed), Err("remove deadman state".to_owned()));
}

#[test]
fn expiry_stops_at_the_last_timestamp() {
    let state = armed_state(10, u64::MAX - 3, 1);
    assert_eq!(state.expires_at, Some(u64::MAX));
    let renewed = renewed_state(&state, u64::MAX, 1);
    assert_eq!(renewed.expires_at, Some(u64::MAX));
    assert_eq!(renewed.loaded_at, u64::MAX - 3);
}

#[test]
fn the_seconds_left_count_down_to_zero() {
    let state = armed_state(600, 1_000, 1);
    for elapsed in [0u64, 1, 599, 600, 601, 10_000] {
        assert_eq!(remaining_at(&state, 1_000 + elapsed), Some(600u64.saturating_sub(elapsed)));
    }
    assert_eq!(remaining_at(&armed_state(TTL_PERMANENT, 1_000, 1), u64::MAX), None);
    let late = armed_state(600, u64::MAX - 5, 1);
    assert_eq!(remaining_at(&late, u64::MAX - 3), Some(3));
    assert_eq!(remaining_at(&late, u64::MAX), Some(0));
}

#[test]
fn renewing_pushes_the_expiry_and_keeps_the_arm() {
    let state = armed_state(600, 1_000, 7);
    let next = renewed_state(&state, renewal_ttl(None, &state).expect("timed"), 1_400);
    assert_eq!(next.expires_at, Some(2_000));
    assert_eq!((next.loaded_at, next.pid_of_arm, next.ttl_secs), (1_000, 7, Some(600)));
    assert_eq!(renewed_state(&next, 600, 1_400), next);
}

#[test]
fn a_bare_load_lives_for_thirty_minutes() {
    assert_eq!(load_ttl(None), 1800);
    assert_eq!(load_ttl(Some(0)), TTL_PERMANENT);
    assert_eq!(load_ttl(Some(60)), 60);
    let bare = armed_state(load_ttl(None), 1_000, 1);
    assert_eq!(remaining_at(&bare, 2_799), Some(1));
    assert_eq!(remaining_at(&bare, 2_800), Some(0));
    assert_eq!(remaining_at(&armed_state(load_ttl(Some(0)), 1_000, 1), 2_800), None);
}

#[test]
fn state_paths() {
    assert_eq!(state_path(Some("/run/b"), Some("/home/j")), "/run/b/deadman.json");
    assert_eq!(state_path(Some("/run/b/"), None), "/run/b/deadman.json");
    assert_eq!(state_path(None, Some("/home/j")), "/home/j/.config/bpolicy/deadman.json");
    assert_eq!(state_path(None, None), "/root/.config/bpolicy/deadman.json");
    assert_eq!(state_path(Some(""), None), "deadman.json");
}
