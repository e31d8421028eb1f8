# bpolicy

A write-enforcer for the file system, in two halves: a BPF-LSM `file_open` hook
in the kernel that denies write-opens outside an allow-list, and this control
plane that loads it, sets the policy and tears it down.

`src/` is the control plane's logic as a Verus library: every rule is a function
with a proved contract.

- `policy`: profiles, prefix matching, the resolved allow-list
- `enforcer`: loading and unloading as a whole, with the policy, the mode and the
  timer
- `session`: the record of every outside call, which the contracts speak of
- `bpf`: load, unload, enforce, release, the trace tail
- `command`: the command lines that are run and what their outcomes mean
- `deadman`: the timer that unloads the enforcer unless the arm is renewed
- `audit`: the mode, full enforcement or audit only
- `pids`: the key words of the kernel maps
- `dump`, `status`: what the map dumps show
- `json`: reading and printing JSON
- `doctor`: why the enforcer is inert
- `text`: splitting, trimming, ordering and formatting of text

What is taken on trust stands in `json` (calls into `serde_json`) and in `text`
(`String::push`), each with its contract.

`app/` is the `bpolicy` program around the library: arguments, files, processes
and printing.

## Subcommands

```
bpolicy load [--profile NAME] [--audit] [--ttl SECS] [--yes]
bpolicy unload
bpolicy enforce --pid PID [--pid ...]
bpolicy release --pid PID [--pid ...]
bpolicy renew [--ttl SECS]
bpolicy status
bpolicy policy show [--profile NAME]
bpolicy policy check PATH [--profile NAME]
bpolicy doctor [--format human|json|docket]
bpolicy log [-n N]
```

A bare `load` arms a deadman timer of 30 minutes; `--ttl 0` arms permanently, and
`renew` leaves a permanent arm as it is unless it names a TTL. An
enforce-mode arm on a terminal refuses without `--yes`; `--audit` never asks.
`load --profile` hands each prefix of the profile to the kernel's allow-list; the
program does not encode the keys of that map, so a profile that adds prefixes
fails there, with the deadman armed.

`BPOLICY_OBJ` names the BPF object to load, in place of
`~/.local/src/bpolicy/bpolicy.bpf.o`. `BPOLICY_STATE_DIR` names the directory of
the deadman state file, in place of `~/.config/bpolicy`.
