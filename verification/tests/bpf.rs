//! The enforcer's commands, driven by a mock.

use bpolicy::bpf::{
    apply_prefixes, cmd_enforce, cmd_load, cmd_log, cmd_release, cmd_unload, default_obj_path, enforcing_text,
    released_text, BpfOps, LoadReport, TraceAction, TraceTail, UnloadReport, BPF_ROOT,
    PINNED_MAP_ALLOWLIST, PINNED_MAP_PIDS,
};
use bpolicy::session::BpfSession;
use std::cell::{Cell, RefCell};

/// Mock that tracks load and unload state.
struct TogglingMock {
    loaded: Cell<bool>,
    load_called: Cell<u32>,
    unload_called: Cell<u32>,
}

impl TogglingMock {
    fn new(initially_loaded: bool) -> Self {
        Self {
            loaded: Cell::new(initially_loaded),
            load_called: Cell::new(0),
            unload_called: Cell::new(0),
        }
    }
}

impl BpfOps for TogglingMock {
    fn is_loaded(&self) -> bool {
        self.loaded.get()
    }

    fn load_prog(&self, _obj: &str, _root: &str) -> Result<(), String> {
        self.load_called.set(self.load_called.get() + 1);
        self.loaded.set(true);
        Ok(())
    }

    fn unload_prog(&self, _root: &str) -> Result<(), String> {
        self.unload_called.set(self.unload_called.get() + 1);
        self.loaded.set(false);
        Ok(())
    }

    fn map_update(&self, _: &str, _: &[String]) -> Result<(), String> {
        Ok(())
    }

    fn map_delete(&self, _: &str, _: &[String]) -> Result<(), String> {
        Ok(())
    }

    fn allowlist_add_prefix(&self, _: &str, _: &str) -> Result<(), String> {
        Ok(())
    }

    fn map_dump_json(&self, _: &str) -> String {
        String::new()
    }

    fn tail_trace_pipe(&self, _: usize) -> Result<(), String> {
        Ok(())
    }

    fn obj_path(&self) -> String {
        "/obj.o".to_owned()
    }
}

/// Mock that records every call and can be told to fail on one PID's key.
struct Recorder {
    loaded: bool,
    fail_on: Option<Vec<String>>,
    calls: RefCell<Vec<String>>,
}

impl Recorder {
    fn new(loaded: bool) -> Self {
        Self { loaded, fail_on: None, calls: RefCell::new(vec![]) }
    }

    fn note(&self, call: String) -> Result<(), String> {
        self.calls.borrow_mut().push(call);
        Ok(())
    }
}

impl BpfOps for Recorder {
    fn is_loaded(&self) -> bool {
        self.loaded
    }

    fn load_prog(&self, obj: &str, root: &str) -> Result<(), String> {
        self.note(format!("load {obj} {root}"))?;
        Err("no bpftool".to_owned())
    }

    fn unload_prog(&self, root: &str) -> Result<(), String> {
        self.note(format!("unload {root}"))?;
        Err("no sudo".to_owned())
    }

    fn map_update(&self, pinned: &str, key: &[String]) -> Result<(), String> {
        if self.fail_on.as_deref() == Some(key) {
            return Err("map full".to_owned());
        }
        self.note(format!("update {pinned} {}", key.join(" ")))
    }

    fn map_delete(&self, pinned: &str, key: &[String]) -> Result<(), String> {
        if self.fail_on.as_deref() == Some(key) {
            return Err("no sudo".to_owned());
        }
        self.note(format!("delete {pinned} {}", key.join(" ")))
    }

    fn allowlist_add_prefix(&self, pinned: &str, prefix: &str) -> Result<(), String> {
        if prefix == "/bad" {
            return Err("no room".to_owned());
        }
        self.note(format!("allow {pinned} {prefix}"))
    }

    fn map_dump_json(&self, _: &str) -> String {
        String::new()
    }

    fn tail_trace_pipe(&self, n: usize) -> Result<(), String> {
        self.note(format!("tail {n}"))
    }

    fn obj_path(&self) -> String {
        "/obj.o".to_owned()
    }
}

#[test]
fn test_load_idempotent() {
    let mock = TogglingMock::new(true);
    cmd_load(&mut BpfSession::new(&mock)).expect("cmd_load 1");
    assert_eq!(mock.load_called.get(), 0, "load_prog should not be called when already loaded");

    cmd_load(&mut BpfSession::new(&mock)).expect("cmd_load 2");
    assert_eq!(mock.load_called.get(), 0, "load_prog should still not be called");
}

#[test]
fn test_unload_idempotent() {
    let mock = TogglingMock::new(false);
    cmd_unload(&mut BpfSession::new(&mock)).expect("cmd_unload 1");
    assert_eq!(mock.unload_called.get(), 0, "unload_prog should not be called when not loaded");

    cmd_unload(&mut BpfSession::new(&mock)).expect("cmd_unload 2");
    assert_eq!(mock.unload_called.get(), 0, "unload_prog should still not be called");
}

#[test]
fn test_load_then_unload() {
    let mock = TogglingMock::new(false);
    assert_eq!(cmd_load(&mut BpfSession::new(&mock)), Ok(LoadReport::Loaded));
    assert!(mock.loaded.get(), "should be loaded after cmd_load");
    assert_eq!(mock.load_called.get(), 1);
    assert_eq!(cmd_load(&mut BpfSession::new(&mock)), Ok(LoadReport::AlreadyLoaded));

    assert_eq!(cmd_unload(&mut BpfSession::new(&mock)), Ok(UnloadReport::Unloaded));
    assert!(!mock.loaded.get(), "should not be loaded after cmd_unload");
    assert_eq!(mock.unload_called.get(), 1);
    assert_eq!(cmd_unload(&mut BpfSession::new(&mock)), Ok(UnloadReport::AlreadyUnloaded));
}

#[test]
fn failures_pass_through() {
    let mock = Recorder::new(false);
    assert_eq!(cmd_load(&mut BpfSession::new(&mock)), Err("no bpftool".to_owned()));
    assert_eq!(*mock.calls.borrow(), vec![format!("load /obj.o {BPF_ROOT}")]);
    let mock = Recorder::new(true);
    assert_eq!(cmd_unload(&mut BpfSession::new(&mock)), Err("no sudo".to_owned()));
    assert_eq!(*mock.calls.borrow(), vec![format!("unload {BPF_ROOT}")]);
}

#[test]
fn enforce_and_release_write_the_keys_in_order() {
    let mock = Recorder::new(true);
    assert_eq!(cmd_enforce(&mut BpfSession::new(&mock), &[1000, 1]), Ok(()));
    assert_eq!(cmd_release(&mut BpfSession::new(&mock), &[65535]), Ok(()));
    assert_eq!(
        *mock.calls.borrow(),
        vec![
            format!("update {PINNED_MAP_PIDS} 232 3 0 0"),
            format!("update {PINNED_MAP_PIDS} 1 0 0 0"),
            format!("delete {PINNED_MAP_PIDS} 255 255 0 0"),
        ]
    );
}

#[test]
fn enforce_and_release_stop_at_the_first_failure() {
    let fail_on: Option<Vec<String>> =
        Some(["2", "0", "0", "0"].iter().map(|s| (*s).to_owned()).collect());
    let mock = Recorder { fail_on, ..Recorder::new(true) };
    assert_eq!(cmd_enforce(&mut BpfSession::new(&mock), &[1, 2, 3]), Err("map full".to_owned()));
    assert_eq!(cmd_release(&mut BpfSession::new(&mock), &[2, 3]), Err("no sudo".to_owned()));
    assert_eq!(*mock.calls.borrow(), vec![format!("update {PINNED_MAP_PIDS} 1 0 0 0")]);
}

#[test]
fn enforce_and_release_need_the_enforcer() {
    let mock = Recorder::new(false);
    let message = Err("bpolicy not loaded — run: bpolicy load".to_owned());
    assert_eq!(cmd_enforce(&mut BpfSession::new(&mock), &[1]), message);
    assert_eq!(cmd_release(&mut BpfSession::new(&mock), &[1]), message);
    assert!(mock.calls.borrow().is_empty());
    assert_eq!(cmd_log(&mut BpfSession::new(&mock), 3), Ok(()));
    assert_eq!(*mock.calls.borrow(), vec!["tail 3"]);
}

#[test]
fn the_tail_shows_the_first_lines_about_the_enforcer() {
    let lines = ["x", "a bpolicy b", "bpolic", "bpolicy", "ybpolicy", "bpolicy again"];
    let mut tail = TraceTail::new(2);
    let actions: Vec<TraceAction> = lines[..4].iter().map(|l| tail.observe(l)).collect();
    assert_eq!(
        actions,
        vec![
            TraceAction::Skip,
            TraceAction::Show,
            TraceAction::Skip,
            TraceAction::ShowAndStop
        ]
    );
    let mut endless = TraceTail::new(0);
    let shown = lines.iter().filter(|l| endless.observe(l) == TraceAction::Show).count();
    assert_eq!(shown, 4);
    assert_eq!(TraceTail::new(1).observe("bpolicy"), TraceAction::ShowAndStop);
}

#[test]
fn object_paths() {
    assert_eq!(default_obj_path(Some("x.o"), Some("/h")), "x.o");
    assert_eq!(default_obj_path(None, Some("/h")), "/h/.local/src/bpolicy/bpolicy.bpf.o");
    assert_eq!(default_obj_path(None, None), "/root/.local/src/bpolicy/bpolicy.bpf.o");
}

#[test]
fn reports_of_commands_as_text() {
    assert_eq!(LoadReport::AlreadyLoaded.to_text(), r#"{"already_loaded":true}"#);
    assert_eq!(LoadReport::Loaded.to_text(), r#"{"loaded":true,"path":"/sys/fs/bpf/bpolicy"}"#);
    assert_eq!(UnloadReport::AlreadyUnloaded.to_text(), r#"{"already_unloaded":true}"#);
    assert_eq!(UnloadReport::Unloaded.to_text(), r#"{"unloaded":true}"#);
    assert_eq!(enforcing_text(&[1000, u32::MAX]), r#"{"enforcing":[1000,4294967295]}"#);
    assert_eq!(released_text(&[]), r#"{"released":[]}"#);
}

#[test]
fn prefixes_are_added_in_order_up_to_the_first_failure() {
    let mock = Recorder::new(true);
    let words = |v: &[&str]| -> Vec<String> { v.iter().map(|s| (*s).to_owned()).collect() };
    let mut session = BpfSession::new(&mock);
    assert_eq!(apply_prefixes(&mut session, &words(&["/a", "/b"])), Ok(()));
    assert_eq!(
        apply_prefixes(&mut session, &words(&["/c", "/bad", "/d"])),
        Err("no room".to_owned())
    );
    assert_eq!(apply_prefixes(&mut session, &words(&[])), Ok(()));
    assert_eq!(
        *mock.calls.borrow(),
        vec![
            format!("allow {PINNED_MAP_ALLOWLIST} /a"),
            format!("allow {PINNED_MAP_ALLOWLIST} /b"),
            format!("allow {PINNED_MAP_ALLOWLIST} /c"),
        ]
    );
}
