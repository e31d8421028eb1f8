//! Laws of the command lines: which program is run with which arguments, and
//! what its end means.

use vstd::prelude::*;

use crate::command;
use crate::command::{
    load_steps, loaded_query, map_delete_step, map_dump_invocation, map_update_step,
    mode_update_step, next_step, says_loaded, trace_invocation, unload_step, watchdog_arm_step,
    watchdog_arm_steps, watchdog_cancel_step, Invocation, Outcome, Progress, Step,
};
use crate::pids::le_words;
use crate::text;

verus! {

// ---------------------------------------------------------------------------
// Outcomes
// ---------------------------------------------------------------------------

/// A step that could not be started gives that message, one that ended without
/// success gives its own where it has one, and every other is done.
pub proof fn law_judge(step: &Step, outcome: Outcome, r: Result<(), String>)
    requires
        call_ensures(Step::judge, (step, outcome), r),
    ensures
        outcome == Outcome::NotSpawned ==> r is Err && r->Err_0@ == step.spawn_error@,
        outcome == Outcome::Exited(true) ==> r is Ok,
        outcome == Outcome::Exited(false) && step.failure is None ==> r is Ok,
        outcome == Outcome::Exited(false) ==> (step.failure matches Some(message) ==> r is Err
            && r->Err_0@ == message@),
{
}

/// Steps are run in order. While those that ended are done, the next one is run,
/// until there is none; the first that is not done fails the row with its
/// message, whatever comes behind it.
pub proof fn law_next_step(
    steps: &Vec<Step>,
    outcomes: &Vec<Outcome>,
    r: Progress,
    k: int,
    judged: Result<(), String>,
)
    requires
        call_ensures(next_step, (steps, outcomes), r),
        0 <= k < steps@.len() && k < outcomes@.len() ==> call_ensures(
            Step::judge,
            (&steps@[k], outcomes@[k]),
            judged,
        ),
    ensures
        (forall|i: int|
            0 <= i < steps@.len() && i < outcomes@.len() ==> done(
                #[trigger] steps@[i],
                outcomes@[i],
            )) ==> r == if outcomes@.len() < steps@.len() {
            Progress::Run(outcomes@.len() as usize)
        } else {
            Progress::Done
        },
        0 <= k < steps@.len() && k < outcomes@.len() && judged is Err && (forall|i: int|
            0 <= i < k ==> done(#[trigger] steps@[i], outcomes@[i])) ==> r is Failed
            && r->Failed_0@ == judged->Err_0@,
{
    if forall|i: int|
        0 <= i < steps@.len() && i < outcomes@.len() ==> done(#[trigger] steps@[i], outcomes@[i]) {
        lemma_row_done(steps@, outcomes@, 0);
    }
    if 0 <= k < steps@.len() && k < outcomes@.len() && judged is Err && (forall|i: int|
        0 <= i < k ==> done(#[trigger] steps@[i], outcomes@[i])) {
        lemma_row_at(steps@, outcomes@, 0, k);
    }
}

/// The step is done.
pub open spec fn done(step: Step, outcome: Outcome) -> bool {
    outcome == Outcome::Exited(true) || outcome == Outcome::Exited(false) && step.failure is None
}

proof fn lemma_row_done(steps: Seq<Step>, outcomes: Seq<Outcome>, i: int)
    requires
        0 <= i,
        forall|j: int|
            i <= j < steps.len() && j < outcomes.len() ==> done(#[trigger] steps[j], outcomes[j]),
    ensures
        command::row_fault(steps, outcomes, i) is None,
    decreases outcomes.len() - i,
{
    if i < outcomes.len() && i < steps.len() {
        assert(done(steps[i], outcomes[i]));
        lemma_row_done(steps, outcomes, i + 1);
    }
}

proof fn lemma_row_at(steps: Seq<Step>, outcomes: Seq<Outcome>, i: int, k: int)
    requires
        0 <= i <= k < steps.len(),
        k < outcomes.len(),
        forall|j: int| i <= j < k ==> done(#[trigger] steps[j], outcomes[j]),
        !done(steps[k], outcomes[k]),
    ensures
        command::row_fault(steps, outcomes, i) == command::step_fault(steps[k], outcomes[k]),
        command::step_fault(steps[k], outcomes[k]) is Some,
    decreases k - i,
{
    assert(outcomes[k] matches Outcome::Exited(success) ==> !success);
    if i < k {
        assert(done(steps[i], outcomes[i]));
        lemma_row_at(steps, outcomes, i + 1, k);
    }
}

// ---------------------------------------------------------------------------
// The enforcer
// ---------------------------------------------------------------------------

/// An invocation is a program with these arguments, word for word.
pub open spec fn is_run(run: Invocation, program: Seq<char>, args: Seq<Seq<char>>) -> bool {
    &&& run.program@ == program
    &&& run.args@.len() == args.len()
    &&& forall|i: int| 0 <= i < args.len() ==> (#[trigger] run.args@[i])@ == args[i]
}

proof fn lemma_is_run(run: Invocation, program: Seq<char>, args: Seq<Seq<char>>)
    requires
        run.runs(program, args),
    ensures
        is_run(run, program, args),
{
    let words = text::strings(run.args@);
    assert(words.len() == run.args@.len());
    assert forall|i: int| 0 <= i < args.len() implies (#[trigger] run.args@[i])@ == args[i] by {
        assert(words[i] == run.args@[i]@);
    }
}

/// The pin is tested for, and only success says that the enforcer is loaded.
pub proof fn law_loaded_query(query: Invocation, outcome: Outcome, r: bool)
    requires
        call_ensures(loaded_query, (), query),
        call_ensures(says_loaded, (outcome,), r),
    ensures
        is_run(
            query,
            "sudo"@,
            seq!["-n"@, "test"@, "-e"@, "/sys/fs/bpf/bpolicy/file_open_check"@],
        ),
        outcome == Outcome::Exited(true) ==> r,
        outcome != Outcome::Exited(true) ==> !r,
{
    lemma_is_run(
        query,
        "sudo"@,
        seq!["-n"@, "test"@, "-e"@, "/sys/fs/bpf/bpolicy/file_open_check"@],
    );
}

/// Loading makes the root, then loads all programs of the object below it,
/// attaches them and pins the maps there.
pub proof fn law_load_steps(obj: &str, root: &str, r: Vec<Step>)
    requires
        call_ensures(load_steps, (obj, root), r),
    ensures
        r@.len() == 2,
        is_run(r@[0].run, "sudo"@, seq!["-n"@, "mkdir"@, "-p"@, root@]),
        r@[0].spawn_error@ == "sudo mkdir -p"@,
        r@[0].failure is Some && r@[0].failure->0@ == "sudo mkdir -p "@ + root@ + ": failed"@,
        is_run(
            r@[1].run,
            "sudo"@,
            seq![
                "-n"@,
                "bpftool"@,
                "prog"@,
                "loadall"@,
                obj@,
                root@,
                "autoattach"@,
                "pinmaps"@,
                root@,
            ],
        ),
        r@[1].spawn_error@ == "sudo bpftool prog loadall"@,
        r@[1].failure is Some && r@[1].failure->0@ == "bpftool prog loadall failed"@,
{
    lemma_is_run(r@[0].run, "sudo"@, seq!["-n"@, "mkdir"@, "-p"@, root@]);
    lemma_is_run(
        r@[1].run,
        "sudo"@,
        seq![
            "-n"@,
            "bpftool"@,
            "prog"@,
            "loadall"@,
            obj@,
            root@,
            "autoattach"@,
            "pinmaps"@,
            root@,
        ],
    );
}

/// Unloading removes the root with all it holds.
pub proof fn law_unload_step(root: &str, r: Step)
    requires
        call_ensures(unload_step, (root,), r),
    ensures
        is_run(r.run, "sudo"@, seq!["-n"@, "rm"@, "-rf"@, root@]),
        r.spawn_error@ == "sudo rm -rf"@,
        r.failure is Some && r.failure->0@ == "sudo rm -rf "@ + root@ + ": failed"@,
{
    lemma_is_run(r.run, "sudo"@, seq!["-n"@, "rm"@, "-rf"@, root@]);
}

/// An update sets the whole key of the pinned map to one, and its failure counts.
pub proof fn law_map_update_step(pinned: &str, key: &[String], r: Step)
    requires
        call_ensures(map_update_step, (pinned, key), r),
    ensures
        is_run(
            r.run,
            "sudo"@,
            seq!["-n"@, "bpftool"@, "map"@, "update"@, "pinned"@, pinned@, "key"@] + text::strings(
                key@,
            ) + seq!["value"@, "1"@],
        ),
        r.spawn_error@ == "sudo bpftool map update"@,
        r.failure is Some && r.failure->0@ == "bpftool map update pinned "@ + pinned@
            + ": failed"@,
{
    lemma_is_run(
        r.run,
        "sudo"@,
        seq!["-n"@, "bpftool"@, "map"@, "update"@, "pinned"@, pinned@, "key"@] + text::strings(key@)
            + seq!["value"@, "1"@],
    );
}

/// The mode is written under key zero of the configuration map, in its eight
/// bytes.
pub proof fn law_mode_update_step(mode: u64, r: Step, key: Vec<String>, value: Vec<String>)
    requires
        call_ensures(mode_update_step, (mode,), r),
        call_ensures(le_words, (0, 4), key),
        call_ensures(le_words, (mode, 8), value),
    ensures
        is_run(
            r.run,
            "sudo"@,
            seq![
                "-n"@,
                "bpftool"@,
                "map"@,
                "update"@,
                "pinned"@,
                "/sys/fs/bpf/bpolicy/bpolicy_config"@,
                "key"@,
            ] + text::strings(key@) + seq!["value"@] + text::strings(value@),
        ),
        r.spawn_error@ == "sudo bpftool map update"@,
        r.failure is Some && r.failure->0@ == "bpftool map update pinned "@
            + "/sys/fs/bpf/bpolicy/bpolicy_config"@ + ": failed"@,
{
    lemma_is_run(
        r.run,
        "sudo"@,
        seq![
            "-n"@,
            "bpftool"@,
            "map"@,
            "update"@,
            "pinned"@,
            "/sys/fs/bpf/bpolicy/bpolicy_config"@,
            "key"@,
        ] + text::strings(key@) + seq!["value"@] + text::strings(value@),
    );
}

/// A deletion takes the whole key from the pinned map, and its failure does not
/// count.
pub proof fn law_map_delete_step(pinned: &str, key: &[String], r: Step)
    requires
        call_ensures(map_delete_step, (pinned, key), r),
    ensures
        is_run(
            r.run,
            "sudo"@,
            seq!["-n"@, "bpftool"@, "map"@, "delete"@, "pinned"@, pinned@, "key"@] + text::strings(
                key@,
            ),
        ),
        r.spawn_error@ == "sudo bpftool map delete"@,
        r.failure is None,
{
    lemma_is_run(
        r.run,
        "sudo"@,
        seq!["-n"@, "bpftool"@, "map"@, "delete"@, "pinned"@, pinned@, "key"@] + text::strings(key@),
    );
}

/// A dump asks for the pinned map as JSON, and the trace is read from its pipe.
pub proof fn law_reading(pinned: &str, dump: Invocation, trace: Invocation)
    requires
        call_ensures(map_dump_invocation, (pinned,), dump),
        call_ensures(trace_invocation, (), trace),
    ensures
        is_run(
            dump,
            "sudo"@,
            seq!["-n"@, "bpftool"@, "-j"@, "map"@, "dump"@, "pinned"@, pinned@],
        ),
        is_run(trace, "sudo"@, seq!["-n"@, "cat"@, "/sys/kernel/tracing/trace_pipe"@]),
{
    lemma_is_run(
        dump,
        "sudo"@,
        seq!["-n"@, "bpftool"@, "-j"@, "map"@, "dump"@, "pinned"@, pinned@],
    );
    lemma_is_run(trace, "sudo"@, seq!["-n"@, "cat"@, "/sys/kernel/tracing/trace_pipe"@]);
}

// ---------------------------------------------------------------------------
// The watchdog
// ---------------------------------------------------------------------------

/// The watchdog's unit runs an unload after exactly so many seconds.
pub open spec fn starts_unit(step: Step, secs: u64) -> bool {
    &&& is_run(
        step.run,
        "systemd-run"@,
        seq![
            "--user"@,
            "--on-active"@,
            text::decimal(secs as nat) + "s"@,
            "--unit="@ + "bpolicy-deadman.service"@,
            "--"@,
            "bpolicy"@,
            "unload"@,
        ],
    )
    &&& step.spawn_error@ == "systemd-run --user"@
    &&& step.failure is Some
    &&& step.failure->0@ == "systemd-run failed to arm watchdog (ttl="@ + text::decimal(
        secs as nat,
    ) + "s)"@
}

/// The watchdog's unit is stopped, and its failure does not count.
pub open spec fn stops_unit(step: Step) -> bool {
    &&& is_run(step.run, "systemctl"@, seq!["--user"@, "stop"@, "bpolicy-deadman.service"@])
    &&& step.spawn_error@ == "systemctl --user stop"@
    &&& step.failure is None
}

proof fn lemma_starts(step: Step, secs: u64)
    requires
        command::arms_watchdog(step, secs),
    ensures
        starts_unit(step, secs),
{
    lemma_is_run(
        step.run,
        "systemd-run"@,
        seq![
            "--user"@,
            "--on-active"@,
            text::decimal(secs as nat) + "s"@,
            "--unit="@ + "bpolicy-deadman.service"@,
            "--"@,
            "bpolicy"@,
            "unload"@,
        ],
    );
}

/// Arming the watchdog stops its unit, then starts it anew for exactly so many
/// seconds; cancelling stops it.
pub proof fn law_watchdog_steps(secs: u64, one: Step, cancel: Step, all: Vec<Step>)
    requires
        call_ensures(watchdog_arm_step, (secs,), one),
        call_ensures(watchdog_cancel_step, (), cancel),
        call_ensures(watchdog_arm_steps, (secs,), all),
    ensures
        starts_unit(one, secs),
        stops_unit(cancel),
        all@.len() == 2,
        stops_unit(all@[0]),
        starts_unit(all@[1], secs),
{
    lemma_starts(one, secs);
    lemma_starts(all@[1], secs);
    let stop = seq!["--user"@, "stop"@, "bpolicy-deadman.service"@];
    lemma_is_run(cancel.run, "systemctl"@, stop);
    lemma_is_run(all@[0].run, "systemctl"@, stop);
}

} // verus!
