//! Signalling and killing the processes of a run after it has started.

use crate::kill_barrier::KillBarrier;
use vstd::prelude::*;

pub use nix::sys::signal::Signal;

verus! {

/// The signals of the operating system, as `nix` names them.
#[verifier::external_type_specification]
#[verifier::external_body]
pub struct ExSignal(nix::sys::signal::Signal);

/// The error numbers of the operating system, as `nix` names them.
#[verifier::external_type_specification]
#[verifier::external_body]
pub struct ExErrno(nix::errno::Errno);

/// Where one command's process is to be found: the command's name, and the
/// process id of its latest start, if it has been started.
#[derive(Clone, Debug, PartialEq, Eq)]
pub struct PidSlot {
    pub name: String,
    pub pid: Option<u32>,
}

/// The mathematical value of a [`PidSlot`].
pub struct SlotView {
    pub name: Seq<char>,
    pub pid: Option<u32>,
}

impl View for PidSlot {
    type V = SlotView;

    open spec fn view(&self) -> SlotView {
        SlotView { name: self.name@, pid: self.pid }
    }
}

/// The slots of `v` as values.
pub open spec fn slots_view(v: Seq<PidSlot>) -> Seq<SlotView> {
    v.map_values(|s: PidSlot| s@)
}

/// Why a signal was not delivered.
#[derive(Clone, Debug, PartialEq, Eq)]
pub enum SignalError {
    /// No command of this name has a process to signal.
    NotFound(String),
    /// The operating system refused the signal; the text says why.
    DeliveryFailed(String),
}

/// Whether `pid` names one process. Zero and the numbers beyond `i32::MAX`
/// name groups of processes to the operating system, never a single one.
pub open spec fn is_process_id(pid: u32) -> bool {
    0 < pid <= i32::MAX
}

/// The position of the first slot named `name` at or after `from`.
pub open spec fn slot_position(slots: Seq<SlotView>, name: Seq<char>, from: int) -> Option<int>
    decreases slots.len() - from,
{
    if from < 0 || from >= slots.len() {
        None
    } else if slots[from].name == name {
        Some(from)
    } else {
        slot_position(slots, name, from + 1)
    }
}

/// The process that a signal for `name` goes to: that of the first slot
/// of this name, if the slot holds the id of a process.
pub open spec fn live_pid(slots: Seq<SlotView>, name: Seq<char>) -> Option<u32> {
    match slot_position(slots, name, 0) {
        Some(i) => match slots[i].pid {
            Some(pid) => if is_process_id(pid) {
                Some(pid)
            } else {
                None
            },
            None => None,
        },
        None => None,
    }
}

/// The processes that a signal for all goes to: the process ids held by
/// the first `n` slots, in the order of the slots.
pub open spec fn live_pids(slots: Seq<SlotView>, n: int) -> Seq<u32>
    decreases n,
{
    if n <= 0 {
        Seq::empty()
    } else {
        let before = live_pids(slots, n - 1);
        match slots[n - 1].pid {
            Some(pid) => if is_process_id(pid) {
                before.push(pid)
            } else {
                before
            },
            None => before,
        }
    }
}

/// A slot position found by `slot_position` lies in the sequence at or
/// after `from`, holds the name, and no slot between `from` and it does.
pub proof fn lemma_slot_position(slots: Seq<SlotView>, name: Seq<char>, from: int)
    requires
        0 <= from,
    ensures
        match slot_position(slots, name, from) {
            Some(i) => {
                &&& from <= i < slots.len()
                &&& slots[i].name == name
                &&& forall|k: int| from <= k < i ==> (#[trigger] slots[k]).name != name
            },
            None => forall|k: int| from <= k < slots.len() ==> (#[trigger] slots[k]).name != name,
        },
    decreases slots.len() - from,
{
    if from < slots.len() && slots[from].name != name {
        lemma_slot_position(slots, name, from + 1);
    }
}

/// A name that no slot carries has no process to signal, whatever the
/// slots hold.
pub proof fn lemma_unknown_name_has_no_process(slots: Seq<SlotView>, name: Seq<char>)
    requires
        forall|k: int| 0 <= k < slots.len() ==> (#[trigger] slots[k]).name != name,
    ensures
        live_pid(slots, name) is None,
{
    lemma_slot_position(slots, name, 0);
}

/// A command that has not been started has no process to signal: where the
/// first slot of a name holds no process id, there is none for the name.
pub proof fn lemma_unstarted_command_has_no_process(slots: Seq<SlotView>, name: Seq<char>, i: int)
    requires
        0 <= i < slots.len(),
        slots[i].name == name,
        slots[i].pid is None,
        forall|k: int| 0 <= k < i ==> (#[trigger] slots[k]).name != name,
    ensures
        live_pid(slots, name) is None,
{
    lemma_slot_position(slots, name, 0);
}

/// Calls `nix::sys::signal::kill` on the process `pid` with `signal`.
/// What comes back is the operating system's answer at that moment;
/// nothing is claimed of it.
#[verifier::external_body]
fn send_signal(pid: u32, signal: Signal) -> (outcome: Result<(), nix::errno::Errno>)
    requires
        is_process_id(pid),
{
    nix::sys::signal::kill(nix::unistd::Pid::from_raw(pid as i32), signal)
}

/// The text that `nix` prints for an error number, through its `Display`.
#[verifier::external_body]
fn errno_text(errno: nix::errno::Errno) -> (text: String) {
    errno.to_string()
}

/// What the caller is told after the operating system has answered
/// `outcome` to a signal: success as success, a refusal as
/// `DeliveryFailed`.
pub fn signal_outcome(outcome: Result<(), nix::errno::Errno>) -> (r: Result<(), SignalError>)
    ensures
        outcome is Ok <==> r is Ok,
        outcome is Err <==> r matches Err(SignalError::DeliveryFailed(_)),
{
    match outcome {
        Ok(()) => Ok(()),
        Err(errno) => Err(SignalError::DeliveryFailed(errno_text(errno))),
    }
}

/// The control surface of a run: the registry of process ids, one slot for
/// each command, and the barrier that cancels the whole group. A run has
/// one, which cannot be copied; whoever needs it shares the one value.
#[derive(Debug, PartialEq, Eq)]
pub struct HandleControl {
    pids: Vec<PidSlot>,
    kill_barrier: KillBarrier,
}

impl HandleControl {
    /// The registry, slot by slot.
    pub closed spec fn slots(&self) -> Seq<SlotView> {
        slots_view(self.pids@)
    }

    /// The barrier that cancels the group.
    pub closed spec fn barrier(&self) -> KillBarrier {
        self.kill_barrier
    }

    /// A control surface over the registry `pids` and the barrier `barrier`.
    pub fn new(pids: Vec<PidSlot>, barrier: KillBarrier) -> (r: HandleControl)
        ensures
            r.slots() == slots_view(pids@),
            r.barrier() == barrier,
    {
        HandleControl { pids, kill_barrier: barrier }
    }

    /// The number of slots.
    pub fn len(&self) -> (n: usize)
        ensures
            n == self.slots().len(),
    {
        self.pids.len()
    }

    /// Notes that the command of slot `index` now runs as process `pid`.
    /// The id of an earlier start of the command is forgotten.
    pub fn record_pid(&mut self, index: usize, pid: u32)
        requires
            index < old(self).slots().len(),
        ensures
            final(self).barrier() == old(self).barrier(),
            final(self).slots() == old(self).slots().update(
                index as int,
                SlotView { name: old(self).slots()[index as int].name, pid: Some(pid) },
            ),
    {
        self.pids[index].pid = Some(pid);
        proof {
            assert(self.slots() =~= old(self).slots().update(
                index as int,
                SlotView { name: old(self).slots()[index as int].name, pid: Some(pid) },
            ));
        }
    }

    /// Asks to pass the barrier, as a watcher does before it kills its
    /// process: `true` once the group is cancelled.
    pub fn is_killed(&self) -> (killed: bool)
        ensures
            killed == self.barrier().is_open(),
    {
        self.kill_barrier.wait()
    }

    /// Cancels the whole group by opening the barrier. The registry is not
    /// touched and no signal is sent; with no process started yet, or with
    /// the barrier open already, nothing else changes. It never fails.
    pub fn kill_all(&mut self) -> (r: Result<(), String>)
        ensures
            r is Ok,
            final(self).barrier() == old(self).barrier().after_kill(),
            final(self).barrier().is_open(),
            final(self).slots() == old(self).slots(),
    {
        let r = self.kill_barrier.initiate_kill();
        proof {
            old(self).kill_barrier.lemma_kill_opens();
        }
        r
    }

    /// The process that a signal for `cmd_name` goes to, if there is one.
    pub fn find_pid(&self, cmd_name: &str) -> (r: Option<u32>)
        ensures
            r == live_pid(self.slots(), cmd_name@),
    {
        let key: String = cmd_name.to_owned();
        let mut i: usize = 0;
        while i < self.pids.len()
            invariant
                i <= self.pids@.len(),
                key@ == cmd_name@,
                slot_position(self.slots(), cmd_name@, 0) == slot_position(
                    self.slots(),
                    cmd_name@,
                    i as int,
                ),
            decreases self.pids@.len() - i,
        {
            if self.pids[i].name == key {
                return match self.pids[i].pid {
                    Some(pid) => if 0 < pid && pid <= 0x7fff_ffff {
                        Some(pid)
                    } else {
                        None
                    },
                    None => None,
                };
            }
            i = i + 1;
        }
        None
    }

    /// The processes that a signal for all goes to, in the order of their
    /// slots.
    pub fn all_pids(&self) -> (r: Vec<u32>)
        ensures
            r@ == live_pids(self.slots(), self.slots().len() as int),
            forall|k: int| 0 <= k < r@.len() ==> is_process_id(#[trigger] r@[k]),
    {
        let mut out: Vec<u32> = Vec::new();
        let mut i: usize = 0;
        while i < self.pids.len()
            invariant
                i <= self.pids@.len(),
                out@ == live_pids(self.slots(), i as int),
                forall|k: int| 0 <= k < out@.len() ==> is_process_id(#[trigger] out@[k]),
            decreases self.pids@.len() - i,
        {
            match self.pids[i].pid {
                Some(pid) => if 0 < pid && pid <= 0x7fff_ffff {
                    out.push(pid);
                },
                None => {},
            }
            i = i + 1;
        }
        out
    }

    /// Sends `signal` to the process of the command named `cmd_name`.
    ///
    /// Where no command of this name has a process (the name is unknown,
    /// or the command has not been started) the answer is `NotFound` with
    /// the name, and nothing is sent. Otherwise the signal is sent to that
    /// one process, and the answer is the operating system's: `Ok`, or
    /// `DeliveryFailed`. Of several commands with one name the first is
    /// meant.
    pub fn signal_one(&self, cmd_name: &str, signal: Signal) -> (r: Result<(), SignalError>)
        ensures
            live_pid(self.slots(), cmd_name@) is None ==> (r matches Err(SignalError::NotFound(name))
                && name@ == cmd_name@),
            live_pid(self.slots(), cmd_name@) is Some ==> (r is Ok || r matches Err(
                SignalError::DeliveryFailed(_),
            )),
    {
        match self.find_pid(cmd_name) {
            Some(pid) => signal_outcome(send_signal(pid, signal)),
            None => Err(SignalError::NotFound(cmd_name.to_owned())),
        }
    }

    /// Sends `signal` to every process of the registry, in the order of
    /// the slots. A refusal for one process is passed over and the rest are
    /// still signalled.
    pub fn signal_all(&self, signal: Signal) {
        let pids = self.all_pids();
        let mut i: usize = 0;
        while i < pids.len()
            invariant
                i <= pids@.len(),
                forall|k: int| 0 <= k < pids@.len() ==> is_process_id(#[trigger] pids@[k]),
            decreases pids@.len() - i,
        {
            let _ = send_signal(pids[i], signal);
            i = i + 1;
        }
    }
}

} // verus!
