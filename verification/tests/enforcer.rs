//! Loading and unloading as a whole.

use bpolicy::audit::{MODE_AUDIT, MODE_ENFORCE};
use bpolicy::bpf::{cmd_enforce, cmd_release, BpfOps, LoadReport, UnloadReport};
use bpolicy::deadman::{armed_state, Clock, DeadmanState, Watchdog};
use bpolicy::enforcer::{load_admitted, load_enforcer, unload_enforcer};
use bpolicy::policy::{Policy, Profile};
use bpolicy::session::{BpfSession, WatchdogSession};
use std::cell::RefCell;
use std::collections::BTreeSet;
use std::sync::Mutex;

#[derive(Default)]
struct World {
    loaded: bool,
    broken: Option<&'static str>,
    log: RefCell<Vec<String>>,
    held: RefCell<BTreeSet<String>>,
}

impl World {
    fn act(&self, what: &str) -> Result<(), String> {
        self.log.borrow_mut().push(what.to_owned());
        if self.broken == Some(what) {
            Err(format!("{what} failed"))
        } else {
            Ok(())
        }
    }
}

impl BpfOps for World {
    fn is_loaded(&self) -> bool {
        self.loaded
    }

    fn load_prog(&self, _: &str, _: &str) -> Result<(), String> {
        self.act("load")
    }

    fn unload_prog(&self, _: &str) -> Result<(), String> {
        self.act("unload")
    }

    fn map_update(&self, pinned: &str, key: &[String]) -> Result<(), String> {
        self.held.borrow_mut().insert(format!("{pinned} {}", key.join(" ")));
        Ok(())
    }

    fn map_delete(&self, pinned: &str, key: &[String]) -> Result<(), String> {
        self.held.borrow_mut().remove(&format!("{pinned} {}", key.join(" ")));
        Ok(())
    }

    fn allowlist_add_prefix(&self, _: &str, prefix: &str) -> Result<(), String> {
        self.act(prefix)
    }

    fn map_dump_json(&self, _: &str) -> String {
        String::new()
    }

    fn tail_trace_pipe(&self, _: usize) -> Result<(), String> {
        Ok(())
    }

    fn obj_path(&self) -> String {
        "/obj.o".to_owned()
    }
}

struct FakeClock(u64);

impl Clock for FakeClock {
    fn now_secs(&self) -> u64 {
        self.0
    }
}

#[derive(Default)]
struct FakeWatchdog {
    broken: bool,
    calls: Mutex<Vec<Option<u64>>>,
}

impl FakeWatchdog {
    fn act(&self, call: Option<u64>) -> Result<(), String> {
        self.calls.lock().unwrap().push(call);
        if self.broken {
            Err("watchdog failed".to_owned())
        } else {
            Ok(())
        }
    }
}

impl Watchdog for FakeWatchdog {
    fn arm(&self, ttl_secs: u64) -> Result<(), String> {
        self.act(Some(ttl_secs))
    }

    fn cancel(&self) -> Result<(), String> {
        self.act(None)
    }
}

fn load(
    world: &World,
    audit: bool,
    ttl: Option<u64>,
    wd: &FakeWatchdog,
) -> (Result<LoadReport, String>, Option<u64>, Option<DeadmanState>) {
    let mode = RefCell::new(None);
    let state = RefCell::new(None);
    let set_mode = |m: u64| {
        *mode.borrow_mut() = Some(m);
        world.act("mode")
    };
    let write = |s: &DeadmanState| {
        *state.borrow_mut() = Some(*s);
        world.act("write")
    };
    let prefixes = vec!["/a".to_owned(), "/b".to_owned()];
    let r = load_enforcer(
        &mut BpfSession::new(world),
        &prefixes,
        audit,
        set_mode,
        ttl,
        7,
        write,
        &FakeClock(1_000),
        &mut WatchdogSession::new(wd),
    );
    (r, mode.into_inner(), state.into_inner())
}

fn unload(world: &World, wd: &FakeWatchdog) -> Result<UnloadReport, String> {
    let remove = || world.act("remove");
    unload_enforcer(&mut BpfSession::new(world), remove, &mut WatchdogSession::new(wd))
}

#[test]
fn a_load_sets_the_mode_and_arms_the_timer() {
    let world = World::default();
    let wd = FakeWatchdog::default();
    let (r, mode, state) = load(&world, false, None, &wd);
    assert_eq!(r, Ok(LoadReport::Loaded));
    assert_eq!(mode, Some(MODE_ENFORCE));
    assert_eq!(state, Some(armed_state(1800, 1_000, 7)));
    assert_eq!(*world.log.borrow(), vec!["load", "/a", "/b", "mode", "write"]);
    assert_eq!(*wd.calls.lock().unwrap(), vec![Some(1800)]);

    let wd = FakeWatchdog::default();
    let (r, mode, state) = load(&World::default(), true, Some(0), &wd);
    assert_eq!(r, Ok(LoadReport::Loaded));
    assert_eq!(mode, Some(MODE_AUDIT));
    assert_eq!(state, Some(armed_state(0, 1_000, 7)));
    assert!(wd.calls.lock().unwrap().is_empty());
}

#[test]
fn a_second_load_changes_nothing() {
    let world = World { loaded: true, ..World::default() };
    let wd = FakeWatchdog::default();
    let (r, mode, state) = load(&world, false, None, &wd);
    assert_eq!(r, Ok(LoadReport::AlreadyLoaded));
    assert_eq!((mode, state), (None, None));
    assert!(world.log.borrow().is_empty() && wd.calls.lock().unwrap().is_empty());
}

#[test]
fn a_load_that_fails_half_way() {
    let world = World { broken: Some("load"), ..World::default() };
    let (r, mode, state) = load(&world, false, None, &FakeWatchdog::default());
    assert_eq!(r, Err("load failed".to_owned()));
    assert_eq!((mode, state), (None, None));

    let world = World { broken: Some("/a"), ..World::default() };
    let wd = FakeWatchdog::default();
    let (r, _, state) = load(&world, true, Some(60), &wd);
    assert_eq!(r, Err("/a failed".to_owned()));
    assert_eq!(state, Some(armed_state(60, 1_000, 7)));
    assert_eq!(*world.log.borrow(), vec!["load", "/a", "mode", "write"]);
    assert_eq!(*wd.calls.lock().unwrap(), vec![Some(60)]);

    let world = World { broken: Some("mode"), ..World::default() };
    let wd = FakeWatchdog::default();
    let (r, _, state) = load(&world, true, Some(60), &wd);
    assert_eq!(r, Err("mode failed".to_owned()));
    assert_eq!(state, Some(armed_state(60, 1_000, 7)));
    assert_eq!(*wd.calls.lock().unwrap(), vec![Some(60)]);

    let world = World { broken: Some("write"), ..World::default() };
    let (r, _, _) = load(&world, true, Some(60), &FakeWatchdog::default());
    assert_eq!(r, Err("write failed".to_owned()));

    let wd = FakeWatchdog { broken: true, ..FakeWatchdog::default() };
    let (r, _, _) = load(&World::default(), true, Some(60), &wd);
    assert_eq!(r, Err("watchdog failed".to_owned()));
}

#[test]
fn an_unload_disarms_the_timer() {
    let world = World { loaded: true, ..World::default() };
    let wd = FakeWatchdog::default();
    assert_eq!(
        unload(&world, &wd),
        Ok(UnloadReport::Unloaded)
    );
    assert_eq!(*world.log.borrow(), vec!["unload", "remove"]);
    assert_eq!(*wd.calls.lock().unwrap(), vec![None]);

    let world = World::default();
    assert_eq!(
        unload(&world, &wd),
        Ok(UnloadReport::AlreadyUnloaded)
    );
    assert_eq!(*world.log.borrow(), vec!["remove"]);
}

#[test]
fn an_unload_that_fails_half_way() {
    let world = World { loaded: true, broken: Some("unload"), ..World::default() };
    let wd = FakeWatchdog::default();
    let r = unload(&world, &wd);
    assert_eq!(r, Err("unload failed".to_owned()));
    assert!(wd.calls.lock().unwrap().is_empty());

    let world = World { loaded: true, ..World::default() };
    let wd = FakeWatchdog { broken: true, ..FakeWatchdog::default() };
    let r = unload(&world, &wd);
    assert_eq!(r, Err("watchdog failed".to_owned()));
    assert_eq!(*world.log.borrow(), vec!["unload"]);

    let world = World { broken: Some("remove"), ..World::default() };
    let r = unload(&world, &FakeWatchdog::default());
    assert_eq!(r, Err("remove failed".to_owned()));
}

#[test]
fn releasing_undoes_enforcing() {
    let world = World { loaded: true, ..World::default() };
    cmd_enforce(&mut BpfSession::new(&world), &[9]).expect("enforce");
    let before = world.held.borrow().clone();
    cmd_enforce(&mut BpfSession::new(&world), &[1000, 7, 1000]).expect("enforce");
    assert_eq!(world.held.borrow().len(), 3);
    cmd_release(&mut BpfSession::new(&world), &[1000, 7, 1000]).expect("release");
    assert_eq!(*world.held.borrow(), before);
}

#[test]
fn admission_of_a_load() {
    let profile = |allow: &[&str]| Profile {
        description: String::new(),
        allow: allow.iter().map(|s| (*s).to_owned()).collect(),
    };
    let policy = Policy::from_profiles(
        "p",
        vec![
            ("good".to_owned(), profile(&["/a", "/b"])),
            ("bad".to_owned(), profile(&["/a", "b", ""])),
            ("blank".to_owned(), profile(&[""])),
        ],
    );
    let admitted = |name, audit, terminal, yes| load_admitted(&policy, name, audit, terminal, yes);
    assert_eq!(admitted(None, false, false, false), Ok(vec![]));
    assert_eq!(
        admitted(Some("good"), false, true, true),
        Ok(vec!["/a".to_owned(), "/b".to_owned()])
    );
    assert_eq!(admitted(Some("good"), true, true, false).map(|v| v.len()), Ok(2));
    assert_eq!(
        admitted(Some("good"), false, true, false),
        Err("refusing to arm in enforce mode on a terminal without --yes".to_owned())
    );
    assert_eq!(
        admitted(Some("bad"), false, true, false),
        Err("allow prefix 'b' must be an absolute path (start with '/')".to_owned())
    );
    assert_eq!(
        admitted(Some("blank"), true, false, false),
        Err("allow prefix must not be empty".to_owned())
    );
    assert_eq!(
        admitted(Some("none"), false, true, false),
        Err("unknown profile 'none'; known: bad, blank, good".to_owned())
    );
}
