//! The command lines the control plane runs, and what their outcomes mean.
//!
//! Privileged work goes through `sudo -n bpftool`, the watchdog through the
//! user's service manager. Here stand the programs, the arguments and the
//! messages; running them is left to the caller.

use vstd::prelude::*;

use crate::audit::{mode_map_bytes, PINNED_MAP_CONFIG};
use crate::bpf::LOADED_PIN;
use crate::deadman::WATCHDOG_UNIT;
use crate::pids;
use crate::text;
use crate::text::push_decimal;

verus! {

/// A program with its arguments.
#[derive(Debug)]
pub struct Invocation {
    /// The program.
    pub program: String,
    /// Its arguments.
    pub args: Vec<String>,
}

impl Invocation {
    /// Runs `program` with exactly these arguments.
    pub open spec fn runs(self, program: Seq<char>, args: Seq<Seq<char>>) -> bool {
        &&& self.program@ == program
        &&& text::strings(self.args@) == args
    }
}

/// How running a program ended.
#[derive(Debug, Clone, Copy, PartialEq, Eq, Structural)]
pub enum Outcome {
    /// The program could not be started.
    NotSpawned,
    /// The program ended, with success or without.
    Exited(bool),
}

/// An invocation that has to be started, and mostly has to succeed, with the
/// messages for when it is not or does not.
#[derive(Debug)]
pub struct Step {
    /// What to run.
    pub run: Invocation,
    /// The message where the program could not be started.
    pub spawn_error: String,
    /// The message where the program ended without success; `None` where that
    /// does not matter.
    pub failure: Option<String>,
}

/// What is wrong with a step that ended so, `None` where nothing is.
pub open spec fn step_fault(step: Step, outcome: Outcome) -> Option<Seq<char>> {
    match outcome {
        Outcome::NotSpawned => Some(step.spawn_error@),
        Outcome::Exited(success) => if success {
            None
        } else {
            text::opt_text(step.failure)
        },
    }
}

impl Step {
    /// Whether the step is done, or the message that says why not.
    pub fn judge(&self, outcome: Outcome) -> (r: Result<(), String>)
        ensures
            match step_fault(*self, outcome) {
                None => r is Ok,
                Some(message) => r is Err && r->Err_0@ == message,
            },
    {
        match outcome {
            Outcome::NotSpawned => Err(self.spawn_error.clone()),
            Outcome::Exited(true) => Ok(()),
            Outcome::Exited(false) => match &self.failure {
                Some(message) => Err(message.clone()),
                None => Ok(()),
            },
        }
    }
}

/// What to do next in a row of steps.
#[derive(Debug, PartialEq, Eq)]
pub enum Progress {
    /// Run the step at this position.
    Run(usize),
    /// All steps are done.
    Done,
    /// A step failed, for this reason; no further step is run.
    Failed(String),
}

/// What is wrong with the first step, from position `i` on, that went wrong.
pub open spec fn row_fault(steps: Seq<Step>, outcomes: Seq<Outcome>, i: int) -> Option<Seq<char>>
    decreases outcomes.len() - i,
{
    if i < 0 || i >= outcomes.len() || i >= steps.len() {
        None
    } else if step_fault(steps[i], outcomes[i]) is Some {
        step_fault(steps[i], outcomes[i])
    } else {
        row_fault(steps, outcomes, i + 1)
    }
}

/// What to do next in a row of steps of which the first ended so: they are run
/// in order, up to the first that fails.
pub fn next_step(steps: &Vec<Step>, outcomes: &Vec<Outcome>) -> (r: Progress)
    ensures
        match row_fault(steps@, outcomes@, 0) {
            Some(message) => r is Failed && r->Failed_0@ == message,
            None => if outcomes@.len() < steps@.len() {
                r == Progress::Run(outcomes@.len() as usize)
            } else {
                r == Progress::Done
            },
        },
{
    let mut i: usize = 0;
    while i < steps.len() && i < outcomes.len()
        invariant
            i <= steps@.len(),
            i <= outcomes@.len(),
            row_fault(steps@, outcomes@, 0) == row_fault(steps@, outcomes@, i as int),
        decreases steps@.len() - i,
    {
        if let Err(message) = steps[i].judge(outcomes[i]) {
            return Progress::Failed(message);
        }
        i = i + 1;
    }
    if outcomes.len() < steps.len() {
        Progress::Run(outcomes.len())
    } else {
        Progress::Done
    }
}

/// What further steps come to is never asked once one failed: the fault of a row
/// is that of its first part.
pub proof fn law_row_stops(steps: Seq<Step>, outcomes: Seq<Outcome>, more: Seq<Outcome>)
    requires
        row_fault(steps, outcomes, 0) is Some,
    ensures
        row_fault(steps, outcomes + more, 0) == row_fault(steps, outcomes, 0),
{
    lemma_row_stops(steps, outcomes, more, 0);
}

proof fn lemma_row_stops(steps: Seq<Step>, outcomes: Seq<Outcome>, more: Seq<Outcome>, i: int)
    requires
        0 <= i,
        row_fault(steps, outcomes, i) is Some,
    ensures
        row_fault(steps, outcomes + more, i) == row_fault(steps, outcomes, i),
    decreases outcomes.len() - i,
{
    assert((outcomes + more)[i] == outcomes[i]);
    if step_fault(steps[i], outcomes[i]) is None {
        lemma_row_stops(steps, outcomes, more, i + 1);
    }
}

/// The words as strings.
fn words(list: &[&str]) -> (r: Vec<String>)
    ensures
        text::strings(r@) == text::strs(list@),
{
    let mut out: Vec<String> = Vec::new();
    for i in 0..list.len()
        invariant
            text::strings(out@) =~= text::strs(list@).take(i as int),
    {
        let ghost before = out@;
        let s = list[i].to_owned();
        out.push(s);
        assert(text::strings(out@) =~= text::strings(before).push(s@));
    }
    assert(text::strings(out@) =~= text::strs(list@));
    out
}

/// Appends copies of `more`.
fn extend(list: &mut Vec<String>, more: &[String])
    ensures
        text::strings(final(list)@) == text::strings(old(list)@) + text::strings(more@),
{
    let ghost start = text::strings(list@);
    for i in 0..more.len()
        invariant
            text::strings(list@) =~= start + text::strings(more@).take(i as int),
    {
        let ghost before = list@;
        let s = more[i].clone();
        list.push(s);
        assert(text::strings(list@) =~= text::strings(before).push(s@));
    }
    assert(text::strings(list@) =~= start + text::strings(more@));
}

fn sudo(args: Vec<String>) -> (r: Invocation)
    ensures
        r.program@ == "sudo"@,
        r.args == args,
{
    Invocation { program: "sudo".to_owned(), args }
}

// ---------------------------------------------------------------------------
// The enforcer
// ---------------------------------------------------------------------------

/// Asks whether the pin of the loaded enforcer exists: success means loaded.
pub fn loaded_query() -> (r: Invocation)
    ensures
        r.runs("sudo"@, seq!["-n"@, "test"@, "-e"@, LOADED_PIN@]),
{
    let args = words(&["-n", "test", "-e", LOADED_PIN]);
    assert(text::strings(args@) =~= seq!["-n"@, "test"@, "-e"@, LOADED_PIN@]);
    sudo(args)
}

/// Whether the outcome of [`loaded_query`] says that the enforcer is loaded.
pub fn says_loaded(outcome: Outcome) -> (r: bool)
    ensures
        r == (outcome == Outcome::Exited(true)),
{
    match outcome {
        Outcome::NotSpawned => false,
        Outcome::Exited(success) => success,
    }
}

/// The steps that load and attach the object at `obj_path`, in order: make the
/// pin directory, then load every program and pin the maps below it.
pub fn load_steps(obj_path: &str, bpf_root: &str) -> (r: Vec<Step>)
    ensures
        r@.len() == 2,
        r@[0].run.runs("sudo"@, seq!["-n"@, "mkdir"@, "-p"@, bpf_root@]),
        r@[0].spawn_error@ == "sudo mkdir -p"@,
        text::opt_text(r@[0].failure) == Some("sudo mkdir -p "@ + bpf_root@ + ": failed"@),
        r@[1].run.runs(
            "sudo"@,
            seq![
                "-n"@,
                "bpftool"@,
                "prog"@,
                "loadall"@,
                obj_path@,
                bpf_root@,
                "autoattach"@,
                "pinmaps"@,
                bpf_root@,
            ],
        ),
        r@[1].spawn_error@ == "sudo bpftool prog loadall"@,
        text::opt_text(r@[1].failure) == Some("bpftool prog loadall failed"@),
{
    let mut failure = "sudo mkdir -p ".to_owned();
    failure.append(bpf_root);
    failure.append(": failed");
    let mkdir_args = words(&["-n", "mkdir", "-p", bpf_root]);
    assert(text::strings(mkdir_args@) =~= seq!["-n"@, "mkdir"@, "-p"@, bpf_root@]);
    let load_args = words(
        &[
            "-n",
            "bpftool",
            "prog",
            "loadall",
            obj_path,
            bpf_root,
            "autoattach",
            "pinmaps",
            bpf_root,
        ],
    );
    assert(text::strings(load_args@) =~= seq![
        "-n"@,
        "bpftool"@,
        "prog"@,
        "loadall"@,
        obj_path@,
        bpf_root@,
        "autoattach"@,
        "pinmaps"@,
        bpf_root@,
    ]);
    let mut steps: Vec<Step> = Vec::new();
    steps.push(Step { run: sudo(mkdir_args), spawn_error: "sudo mkdir -p".to_owned(), failure: Some(failure) });
    steps.push(
        Step {
            run: sudo(load_args),
            spawn_error: "sudo bpftool prog loadall".to_owned(),
            failure: Some("bpftool prog loadall failed".to_owned()),
        },
    );
    steps
}

/// The step that unloads: remove the pin directory with all it holds.
pub fn unload_step(bpf_root: &str) -> (r: Step)
    ensures
        r.run.runs("sudo"@, seq!["-n"@, "rm"@, "-rf"@, bpf_root@]),
        r.spawn_error@ == "sudo rm -rf"@,
        text::opt_text(r.failure) == Some("sudo rm -rf "@ + bpf_root@ + ": failed"@),
{
    let args = words(&["-n", "rm", "-rf", bpf_root]);
    assert(text::strings(args@) =~= seq!["-n"@, "rm"@, "-rf"@, bpf_root@]);
    let mut failure = "sudo rm -rf ".to_owned();
    failure.append(bpf_root);
    failure.append(": failed");
    Step { run: sudo(args), spawn_error: "sudo rm -rf".to_owned(), failure: Some(failure) }
}

/// The arguments of `bpftool map` up to the key words.
pub open spec fn map_args(verb: Seq<char>, pinned: Seq<char>, key: Seq<Seq<char>>) -> Seq<
    Seq<char>,
> {
    seq!["-n"@, "bpftool"@, "map"@, verb, "pinned"@, pinned, "key"@] + key
}

fn map_words(verb: &str, pinned: &str, key_bytes: &[String]) -> (r: Vec<String>)
    ensures
        text::strings(r@) == map_args(verb@, pinned@, text::strings(key_bytes@)),
{
    let mut args = words(&["-n", "bpftool", "map", verb, "pinned", pinned, "key"]);
    assert(text::strings(args@) =~= seq![
        "-n"@,
        "bpftool"@,
        "map"@,
        verb@,
        "pinned"@,
        pinned@,
        "key"@,
    ]);
    extend(&mut args, key_bytes);
    args
}

/// The message for an update that failed.
pub open spec fn update_failure(pinned: Seq<char>) -> Seq<char> {
    "bpftool map update pinned "@ + pinned + ": failed"@
}

fn update_step(pinned: &str, key_bytes: &[String], value_bytes: &[String]) -> (r: Step)
    ensures
        r.run.runs(
            "sudo"@,
            map_args("update"@, pinned@, text::strings(key_bytes@)) + seq!["value"@]
                + text::strings(value_bytes@),
        ),
        r.spawn_error@ == "sudo bpftool map update"@,
        text::opt_text(r.failure) == Some(update_failure(pinned@)),
{
    let mut args = map_words("update", pinned, key_bytes);
    let ghost head = text::strings(args@);
    args.push("value".to_owned());
    assert(text::strings(args@) =~= head + seq!["value"@]);
    extend(&mut args, value_bytes);
    let mut failure = "bpftool map update pinned ".to_owned();
    failure.append(pinned);
    failure.append(": failed");
    Step { run: sudo(args), spawn_error: "sudo bpftool map update".to_owned(), failure: Some(failure) }
}

/// The step that sets a key of a pinned map to one.
pub fn map_update_step(pinned: &str, key_bytes: &[String]) -> (r: Step)
    ensures
        r.run.runs(
            "sudo"@,
            map_args("update"@, pinned@, text::strings(key_bytes@)) + seq!["value"@, "1"@],
        ),
        r.spawn_error@ == "sudo bpftool map update"@,
        text::opt_text(r.failure) == Some(update_failure(pinned@)),
{
    let one = words(&["1"]);
    assert(text::strings(one@) =~= seq!["1"@]);
    let step = update_step(pinned, key_bytes, &one);
    let ghost head = map_args("update"@, pinned@, text::strings(key_bytes@));
    assert(head + seq!["value"@] + seq!["1"@] =~= head + seq!["value"@, "1"@]);
    step
}

/// The step that writes a mode into the configuration map.
pub fn mode_update_step(mode: u64) -> (r: Step)
    ensures
        r.run.runs(
            "sudo"@,
            map_args("update"@, PINNED_MAP_CONFIG@, pids::byte_words(pids::le_bytes(0, 4)))
                + seq!["value"@] + pids::byte_words(pids::le_bytes(mode as nat, 8)),
        ),
        r.spawn_error@ == "sudo bpftool map update"@,
        text::opt_text(r.failure) == Some(update_failure(PINNED_MAP_CONFIG@)),
{
    let (key, value) = mode_map_bytes(mode);
    update_step(PINNED_MAP_CONFIG, &key, &value)
}

/// The step that deletes a key from a pinned map. Whether it succeeds does not
/// matter, as the key may be absent.
pub fn map_delete_step(pinned: &str, key_bytes: &[String]) -> (r: Step)
    ensures
        r.run.runs("sudo"@, map_args("delete"@, pinned@, text::strings(key_bytes@))),
        r.spawn_error@ == "sudo bpftool map delete"@,
        r.failure is None,
{
    Step {
        run: sudo(map_words("delete", pinned, key_bytes)),
        spawn_error: "sudo bpftool map delete".to_owned(),
        failure: None,
    }
}

/// Dumps a pinned map as JSON.
pub fn map_dump_invocation(pinned: &str) -> (r: Invocation)
    ensures
        r.runs("sudo"@, seq!["-n"@, "bpftool"@, "-j"@, "map"@, "dump"@, "pinned"@, pinned@]),
{
    let args = words(&["-n", "bpftool", "-j", "map", "dump", "pinned", pinned]);
    assert(text::strings(args@) =~= seq![
        "-n"@,
        "bpftool"@,
        "-j"@,
        "map"@,
        "dump"@,
        "pinned"@,
        pinned@,
    ]);
    sudo(args)
}

/// Follows the kernel's trace output.
pub fn trace_invocation() -> (r: Invocation)
    ensures
        r.runs("sudo"@, seq!["-n"@, "cat"@, "/sys/kernel/tracing/trace_pipe"@]),
{
    let args = words(&["-n", "cat", "/sys/kernel/tracing/trace_pipe"]);
    assert(text::strings(args@) =~= seq!["-n"@, "cat"@, "/sys/kernel/tracing/trace_pipe"@]);
    sudo(args)
}

// ---------------------------------------------------------------------------
// The watchdog
// ---------------------------------------------------------------------------

/// The step starts a transient unit that runs `bpolicy unload` after `ttl_secs`
/// seconds.
pub open spec fn arms_watchdog(step: Step, ttl_secs: u64) -> bool {
    &&& step.run.runs(
        "systemd-run"@,
        seq![
            "--user"@,
            "--on-active"@,
            text::decimal(ttl_secs as nat) + "s"@,
            "--unit="@ + WATCHDOG_UNIT@,
            "--"@,
            "bpolicy"@,
            "unload"@,
        ],
    )
    &&& step.spawn_error@ == "systemd-run --user"@
    &&& text::opt_text(step.failure) == Some(
        "systemd-run failed to arm watchdog (ttl="@ + text::decimal(ttl_secs as nat) + "s)"@,
    )
}

/// The step that starts the watchdog's unit.
pub fn watchdog_arm_step(ttl_secs: u64) -> (r: Step)
    ensures
        arms_watchdog(r, ttl_secs),
{
    let mut on_active = text::to_decimal(ttl_secs);
    on_active.append("s");
    let mut unit = "--unit=".to_owned();
    unit.append(WATCHDOG_UNIT);
    let args = words(
        &[
            "--user",
            "--on-active",
            on_active.as_str(),
            unit.as_str(),
            "--",
            "bpolicy",
            "unload",
        ],
    );
    assert(text::strings(args@) =~= seq![
        "--user"@,
        "--on-active"@,
        text::decimal(ttl_secs as nat) + "s"@,
        "--unit="@ + WATCHDOG_UNIT@,
        "--"@,
        "bpolicy"@,
        "unload"@,
    ]);
    let mut failure = "systemd-run failed to arm watchdog (ttl=".to_owned();
    push_decimal(&mut failure, ttl_secs);
    failure.append("s)");
    Step {
        run: Invocation { program: "systemd-run".to_owned(), args },
        spawn_error: "systemd-run --user".to_owned(),
        failure: Some(failure),
    }
}

/// The step that stops the watchdog. Whether it succeeds does not matter, as it
/// may not be running.
pub fn watchdog_cancel_step() -> (r: Step)
    ensures
        r.run.runs("systemctl"@, seq!["--user"@, "stop"@, WATCHDOG_UNIT@]),
        r.spawn_error@ == "systemctl --user stop"@,
        r.failure is None,
{
    let args = words(&["--user", "stop", WATCHDOG_UNIT]);
    assert(text::strings(args@) =~= seq!["--user"@, "stop"@, WATCHDOG_UNIT@]);
    Step {
        run: Invocation { program: "systemctl".to_owned(), args },
        spawn_error: "systemctl --user stop".to_owned(),
        failure: None,
    }
}

/// The steps that arm the watchdog, in order: stop one that is armed already,
/// then start a new one.
pub fn watchdog_arm_steps(ttl_secs: u64) -> (r: Vec<Step>)
    ensures
        r@.len() == 2,
        r@[0].run.runs("systemctl"@, seq!["--user"@, "stop"@, WATCHDOG_UNIT@]),
        r@[0].spawn_error@ == "systemctl --user stop"@,
        r@[0].failure is None,
        arms_watchdog(r@[1], ttl_secs),
{
    let mut steps: Vec<Step> = Vec::new();
    steps.push(watchdog_cancel_step());
    steps.push(watchdog_arm_step(ttl_secs));
    steps
}

} // verus!
