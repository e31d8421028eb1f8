//! Sessions: the only way from a command to the outside, with a record of every
//! call.
//!
//! A command gets a [`BpfSession`] or a [`WatchdogSession`] in place of the
//! operations themselves. Each call goes to the operations once and is recorded
//! with its answer, so what a command did is what its session's log grew by:
//! which calls, in which order, and no others.

use vstd::prelude::*;

use crate::bpf::BpfOps;
use crate::deadman::Watchdog;
use crate::text;

verus! {

// ---------------------------------------------------------------------------
// The kernel
// ---------------------------------------------------------------------------

/// A call of [`BpfOps`] with what it was handed and what it answered.
pub enum BpfCall {
    /// Whether the enforcer is loaded.
    IsLoaded(bool),
    /// The path of the BPF object.
    ObjPath(Seq<char>),
    /// A load of the object at `path`, pinned below `root`.
    Load { path: Seq<char>, root: Seq<char>, answer: Result<(), String> },
    /// A removal of `root`.
    Unload { root: Seq<char>, answer: Result<(), String> },
    /// An update of a key of a pinned map.
    Update { pinned: Seq<char>, key: Seq<Seq<char>>, answer: Result<(), String> },
    /// A deletion of a key from a pinned map.
    Delete { pinned: Seq<char>, key: Seq<Seq<char>>, answer: Result<(), String> },
    /// An addition of a path prefix to a pinned allow-list.
    AddPrefix { pinned: Seq<char>, prefix: Seq<char>, answer: Result<(), String> },
    /// A dump of a pinned map.
    Dump { pinned: Seq<char>, dump: Seq<char> },
    /// A tail of the trace output.
    Tail { n: usize, answer: Result<(), String> },
}

/// `ops` gave this answer to this call.
pub open spec fn answered<O: BpfOps>(ops: O, call: BpfCall) -> bool {
    match call {
        BpfCall::IsLoaded(loaded) => call_ensures(O::is_loaded, (&ops,), loaded),
        BpfCall::ObjPath(path) => exists|r: String|
            #[trigger] call_ensures(O::obj_path, (&ops,), r) && r@ == path,
        BpfCall::Load { path, root, answer } => exists|p: &str, q: &str|
            #[trigger] call_ensures(O::load_prog, (&ops, p, q), answer) && p@ == path && q@ == root,
        BpfCall::Unload { root, answer } => exists|q: &str|
            #[trigger] call_ensures(O::unload_prog, (&ops, q), answer) && q@ == root,
        BpfCall::Update { pinned, key, answer } => exists|p: &str, k: &[String]|
            #[trigger] call_ensures(O::map_update, (&ops, p, k), answer) && p@ == pinned
                && text::strings(k@) == key,
        BpfCall::Delete { pinned, key, answer } => exists|p: &str, k: &[String]|
            #[trigger] call_ensures(O::map_delete, (&ops, p, k), answer) && p@ == pinned
                && text::strings(k@) == key,
        BpfCall::AddPrefix { pinned, prefix, answer } => exists|p: &str, q: &str|
            #[trigger] call_ensures(O::allowlist_add_prefix, (&ops, p, q), answer) && p@ == pinned
                && q@ == prefix,
        BpfCall::Dump { pinned, dump } => exists|p: &str, r: String|
            #[trigger] call_ensures(O::map_dump_json, (&ops, p), r) && p@ == pinned && r@ == dump,
        BpfCall::Tail { n, answer } => call_ensures(O::tail_trace_pipe, (&ops, n), answer),
    }
}

/// `ops` gave these answers to these calls.
pub open spec fn all_answered<O: BpfOps>(ops: O, calls: Seq<BpfCall>) -> bool {
    forall|i: int| 0 <= i < calls.len() ==> answered(ops, #[trigger] calls[i])
}

/// The operations of the kernel, with a record of the calls.
pub struct BpfSession<'a, O: BpfOps> {
    ops: &'a O,
    log: Ghost<Seq<BpfCall>>,
}

impl<'a, O: BpfOps> BpfSession<'a, O> {
    /// The operations.
    pub closed spec fn ops(&self) -> O {
        *self.ops
    }

    /// The calls made so far, in order.
    pub closed spec fn log(&self) -> Seq<BpfCall> {
        self.log@
    }

    /// Since `before`, these calls were made, in this order, and no others.
    pub open spec fn made(&self, before: &BpfSession<'a, O>, calls: Seq<BpfCall>) -> bool {
        &&& self.ops() == before.ops()
        &&& self.log() == before.log() + calls
        &&& all_answered(self.ops(), calls)
    }

    /// A session on the given operations, with no calls made.
    pub fn new(ops: &'a O) -> (r: Self)
        ensures
            r.ops() == *ops,
            r.log() == Seq::<BpfCall>::empty(),
    {
        BpfSession { ops, log: Ghost(Seq::empty()) }
    }

    /// Asks whether the enforcer is loaded.
    pub fn is_loaded(&mut self) -> (r: bool)
        ensures
            final(self).made(old(self), seq![BpfCall::IsLoaded(r)]),
    {
        let r = self.ops.is_loaded();
        self.log = Ghost(self.log@ + seq![BpfCall::IsLoaded(r)]);
        r
    }

    /// Asks for the path of the BPF object.
    pub fn obj_path(&mut self) -> (r: String)
        ensures
            final(self).made(old(self), seq![BpfCall::ObjPath(r@)]),
    {
        let r = self.ops.obj_path();
        self.log = Ghost(self.log@ + seq![BpfCall::ObjPath(r@)]);
        r
    }

    /// Loads the BPF object.
    pub fn load_prog(&mut self, obj_path: &str, bpf_root: &str) -> (r: Result<(), String>)
        ensures
            final(self).made(
                old(self),
                seq![BpfCall::Load { path: obj_path@, root: bpf_root@, answer: r }],
            ),
    {
        let r = self.ops.load_prog(obj_path, bpf_root);
        self.log = Ghost(
            self.log@ + seq![BpfCall::Load { path: obj_path@, root: bpf_root@, answer: r }],
        );
        r
    }

    /// Removes the pin directory.
    pub fn unload_prog(&mut self, bpf_root: &str) -> (r: Result<(), String>)
        ensures
            final(self).made(old(self), seq![BpfCall::Unload { root: bpf_root@, answer: r }]),
    {
        let r = self.ops.unload_prog(bpf_root);
        self.log = Ghost(self.log@ + seq![BpfCall::Unload { root: bpf_root@, answer: r }]);
        r
    }

    /// Sets a key of a pinned map.
    pub fn map_update(&mut self, pinned: &str, key_bytes: &[String]) -> (r: Result<(), String>)
        ensures
            final(self).made(
                old(self),
                seq![
                    BpfCall::Update {
                        pinned: pinned@,
                        key: text::strings(key_bytes@),
                        answer: r,
                    },
                ],
            ),
    {
        let r = self.ops.map_update(pinned, key_bytes);
        self.log = Ghost(
            self.log@ + seq![
                BpfCall::Update { pinned: pinned@, key: text::strings(key_bytes@), answer: r },
            ],
        );
        r
    }

    /// Deletes a key from a pinned map.
    pub fn map_delete(&mut self, pinned: &str, key_bytes: &[String]) -> (r: Result<(), String>)
        ensures
            final(self).made(
                old(self),
                seq![
                    BpfCall::Delete {
                        pinned: pinned@,
                        key: text::strings(key_bytes@),
                        answer: r,
                    },
                ],
            ),
    {
        let r = self.ops.map_delete(pinned, key_bytes);
        self.log = Ghost(
            self.log@ + seq![
                BpfCall::Delete { pinned: pinned@, key: text::strings(key_bytes@), answer: r },
            ],
        );
        r
    }

    /// Adds a path prefix to a pinned allow-list.
    pub fn allowlist_add_prefix(&mut self, pinned: &str, prefix: &str) -> (r: Result<(), String>)
        ensures
            final(self).made(
                old(self),
                seq![BpfCall::AddPrefix { pinned: pinned@, prefix: prefix@, answer: r }],
            ),
    {
        let r = self.ops.allowlist_add_prefix(pinned, prefix);
        self.log = Ghost(
            self.log@ + seq![BpfCall::AddPrefix { pinned: pinned@, prefix: prefix@, answer: r }],
        );
        r
    }

    /// Dumps a pinned map.
    pub fn map_dump_json(&mut self, pinned: &str) -> (r: String)
        ensures
            final(self).made(old(self), seq![BpfCall::Dump { pinned: pinned@, dump: r@ }]),
    {
        let r = self.ops.map_dump_json(pinned);
        self.log = Ghost(self.log@ + seq![BpfCall::Dump { pinned: pinned@, dump: r@ }]);
        r
    }

    /// Tails the trace output.
    pub fn tail_trace_pipe(&mut self, n: usize) -> (r: Result<(), String>)
        ensures
            final(self).made(old(self), seq![BpfCall::Tail { n, answer: r }]),
    {
        let r = self.ops.tail_trace_pipe(n);
        self.log = Ghost(self.log@ + seq![BpfCall::Tail { n, answer: r }]);
        r
    }
}

/// Calls made in two runs, one after the other, are the calls of both.
pub proof fn lemma_made_trans<O: BpfOps>(
    before: &BpfSession<O>,
    between: &BpfSession<O>,
    after: &BpfSession<O>,
    first: Seq<BpfCall>,
    second: Seq<BpfCall>,
)
    requires
        between.made(before, first),
        after.made(between, second),
    ensures
        after.made(before, first + second),
{
    assert(before.log() + first + second =~= before.log() + (first + second));
    assert forall|i: int| 0 <= i < (first + second).len() implies answered(
        after.ops(),
        #[trigger] (first + second)[i],
    ) by {
        if i < first.len() {
            assert((first + second)[i] == first[i]);
        } else {
            assert((first + second)[i] == second[i - first.len()]);
        }
    }
}

/// The calls `call(0)`, `call(1)` and so on, `n` at most, each with its answer,
/// up to and with the first that failed; `r` is that failure, or success where
/// all `n` succeeded.
pub open spec fn in_order(
    calls: Seq<BpfCall>,
    n: nat,
    call: spec_fn(int, Result<(), String>) -> BpfCall,
    r: Result<(), String>,
) -> bool {
    match r {
        Ok(_) => {
            &&& calls.len() == n
            &&& forall|i: int| 0 <= i < n ==> #[trigger] calls[i] == call(i, Ok(()))
        },
        Err(e) => {
            &&& 0 < calls.len() <= n
            &&& calls.last() == call(calls.len() - 1, Err(e))
            &&& forall|i: int| 0 <= i < calls.len() - 1 ==> #[trigger] calls[i] == call(i, Ok(()))
        },
    }
}

// ---------------------------------------------------------------------------
// The watchdog
// ---------------------------------------------------------------------------

/// A call of [`Watchdog`] with what it was handed and what it answered.
pub enum WatchdogCall {
    /// An arm for so many seconds.
    Arm(u64, Result<(), String>),
    /// A cancel.
    Cancel(Result<(), String>),
}

/// `watchdog` gave this answer to this call.
pub open spec fn watchdog_answered<W: Watchdog>(watchdog: W, call: WatchdogCall) -> bool {
    match call {
        WatchdogCall::Arm(ttl_secs, answer) => call_ensures(W::arm, (&watchdog, ttl_secs), answer),
        WatchdogCall::Cancel(answer) => call_ensures(W::cancel, (&watchdog,), answer),
    }
}

/// The watchdog, with a record of the calls.
pub struct WatchdogSession<'a, W: Watchdog> {
    watchdog: &'a W,
    log: Ghost<Seq<WatchdogCall>>,
}

impl<'a, W: Watchdog> WatchdogSession<'a, W> {
    /// The watchdog.
    pub closed spec fn watchdog(&self) -> W {
        *self.watchdog
    }

    /// The calls made so far, in order.
    pub closed spec fn log(&self) -> Seq<WatchdogCall> {
        self.log@
    }

    /// Since `before`, this call was made and no other.
    pub open spec fn made(&self, before: &WatchdogSession<'a, W>, call: WatchdogCall) -> bool {
        &&& self.watchdog() == before.watchdog()
        &&& self.log() == before.log().push(call)
        &&& watchdog_answered(self.watchdog(), call)
    }

    /// Since `before`, no call was made.
    pub open spec fn idle(&self, before: &WatchdogSession<'a, W>) -> bool {
        &&& self.watchdog() == before.watchdog()
        &&& self.log() == before.log()
    }

    /// A session on the given watchdog, with no calls made.
    pub fn new(watchdog: &'a W) -> (r: Self)
        ensures
            r.watchdog() == *watchdog,
            r.log() == Seq::<WatchdogCall>::empty(),
    {
        WatchdogSession { watchdog, log: Ghost(Seq::empty()) }
    }

    /// Arms the watchdog.
    pub fn arm(&mut self, ttl_secs: u64) -> (r: Result<(), String>)
        ensures
            final(self).made(old(self), WatchdogCall::Arm(ttl_secs, r)),
    {
        let r = self.watchdog.arm(ttl_secs);
        self.log = Ghost(self.log@.push(WatchdogCall::Arm(ttl_secs, r)));
        r
    }

    /// Cancels the watchdog.
    pub fn cancel(&mut self) -> (r: Result<(), String>)
        ensures
            final(self).made(old(self), WatchdogCall::Cancel(r)),
    {
        let r = self.watchdog.cancel();
        self.log = Ghost(self.log@.push(WatchdogCall::Cancel(r)));
        r
    }
}

} // verus!
