//! The command lines and what their outcomes mean.

use bpolicy::command::{
    load_steps, loaded_query, map_delete_step, map_dump_invocation, map_update_step,
    mode_update_step, next_step, says_loaded, trace_invocation, unload_step, watchdog_arm_step,
    watchdog_arm_steps, watchdog_cancel_step, Invocation, Outcome, Progress,
};

fn line(run: &Invocation) -> String {
    format!("{} {}", run.program, run.args.join(" "))
}

fn key() -> Vec<String> {
    ["232", "3", "0", "0"].iter().map(|s| (*s).to_owned()).collect()
}

#[test]
fn loading_is_two_steps() {
    let steps = load_steps("/o.o", "/sys/fs/bpf/bpolicy");
    assert_eq!(steps.len(), 2);
    assert_eq!(line(&steps[0].run), "sudo -n mkdir -p /sys/fs/bpf/bpolicy");
    assert_eq!(
        line(&steps[1].run),
        "sudo -n bpftool prog loadall /o.o /sys/fs/bpf/bpolicy autoattach pinmaps \
         /sys/fs/bpf/bpolicy"
    );
    assert_eq!(steps[0].judge(Outcome::Exited(true)), Ok(()));
    assert_eq!(steps[0].judge(Outcome::NotSpawned), Err("sudo mkdir -p".to_owned()));
    assert_eq!(
        steps[0].judge(Outcome::Exited(false)),
        Err("sudo mkdir -p /sys/fs/bpf/bpolicy: failed".to_owned())
    );
    assert_eq!(steps[1].judge(Outcome::NotSpawned), Err("sudo bpftool prog loadall".to_owned()));
    assert_eq!(
        steps[1].judge(Outcome::Exited(false)),
        Err("bpftool prog loadall failed".to_owned())
    );
}

#[test]
fn map_commands() {
    let update = map_update_step("/m", &key());
    assert_eq!(line(&update.run), "sudo -n bpftool map update pinned /m key 232 3 0 0 value 1");
    assert_eq!(
        update.judge(Outcome::Exited(false)),
        Err("bpftool map update pinned /m: failed".to_owned())
    );
    assert_eq!(update.judge(Outcome::NotSpawned), Err("sudo bpftool map update".to_owned()));
    assert_eq!(
        line(&map_delete_step("/m", &key()).run),
        "sudo -n bpftool map delete pinned /m key 232 3 0 0"
    );
    assert_eq!(line(&map_dump_invocation("/m")), "sudo -n bpftool -j map dump pinned /m");
    assert_eq!(
        line(&mode_update_step(1).run),
        "sudo -n bpftool map update pinned /sys/fs/bpf/bpolicy/bpolicy_config \
         key 0 0 0 0 value 1 0 0 0 0 0 0 0"
    );
}

#[test]
fn other_commands() {
    assert_eq!(
        line(&loaded_query()),
        "sudo -n test -e /sys/fs/bpf/bpolicy/file_open_check"
    );
    assert!(says_loaded(Outcome::Exited(true)));
    assert!(!says_loaded(Outcome::Exited(false)));
    assert!(!says_loaded(Outcome::NotSpawned));
    let unload = unload_step("/r");
    assert_eq!(line(&unload.run), "sudo -n rm -rf /r");
    assert_eq!(unload.judge(Outcome::Exited(false)), Err("sudo rm -rf /r: failed".to_owned()));
    assert_eq!(unload.judge(Outcome::NotSpawned), Err("sudo rm -rf".to_owned()));
    assert_eq!(line(&trace_invocation()), "sudo -n cat /sys/kernel/tracing/trace_pipe");
}

#[test]
fn watchdog_commands() {
    let arm = watchdog_arm_step(1800);
    assert_eq!(
        line(&arm.run),
        "systemd-run --user --on-active 1800s --unit=bpolicy-deadman.service -- bpolicy unload"
    );
    assert_eq!(
        arm.judge(Outcome::Exited(false)),
        Err("systemd-run failed to arm watchdog (ttl=1800s)".to_owned())
    );
    assert_eq!(arm.judge(Outcome::NotSpawned), Err("systemd-run --user".to_owned()));
    assert_eq!(
        line(&watchdog_cancel_step().run),
        "systemctl --user stop bpolicy-deadman.service"
    );
}

#[test]
fn a_tolerated_step_has_to_be_started() {
    let delete = map_delete_step("/m", &key());
    assert_eq!(delete.judge(Outcome::Exited(true)), Ok(()));
    assert_eq!(delete.judge(Outcome::Exited(false)), Ok(()));
    assert_eq!(delete.judge(Outcome::NotSpawned), Err("sudo bpftool map delete".to_owned()));
    let cancel = watchdog_cancel_step();
    assert_eq!(cancel.judge(Outcome::Exited(false)), Ok(()));
    assert_eq!(cancel.judge(Outcome::NotSpawned), Err("systemctl --user stop".to_owned()));
}

#[test]
fn a_row_of_steps_stops_at_the_first_failure() {
    let steps = load_steps("/o.o", "/r");
    let (good, bad) = (Outcome::Exited(true), Outcome::Exited(false));
    assert_eq!(next_step(&steps, &vec![]), Progress::Run(0));
    assert_eq!(next_step(&steps, &vec![good]), Progress::Run(1));
    assert_eq!(next_step(&steps, &vec![good, good]), Progress::Done);
    assert_eq!(
        next_step(&steps, &vec![bad]),
        Progress::Failed("sudo mkdir -p /r: failed".to_owned())
    );
    assert_eq!(
        next_step(&steps, &vec![bad, Outcome::NotSpawned]),
        Progress::Failed("sudo mkdir -p /r: failed".to_owned())
    );
    assert_eq!(
        next_step(&steps, &vec![good, Outcome::NotSpawned]),
        Progress::Failed("sudo bpftool prog loadall".to_owned())
    );
}

#[test]
fn a_new_watchdog_takes_the_place_of_the_old() {
    let steps = watchdog_arm_steps(60);
    assert_eq!(steps.len(), 2);
    assert_eq!(line(&steps[0].run), "systemctl --user stop bpolicy-deadman.service");
    assert_eq!(line(&steps[1].run), line(&watchdog_arm_step(60).run));
    assert_eq!(next_step(&steps, &vec![Outcome::Exited(false)]), Progress::Run(1));
    assert_eq!(
        next_step(&steps, &vec![Outcome::NotSpawned]),
        Progress::Failed("systemctl --user stop".to_owned())
    );
}
