//! The barrier by which a whole group of processes is cancelled.

use vstd::prelude::*;

verus! {

/// A barrier that starts closed and can be opened once, by anyone, for good.
///
/// Whoever arrives at the barrier waits while it is closed and passes as soon
/// as it is open; whoever arrives after the opening passes at once. This
/// type is the barrier's state. There is one barrier for a run, so the state
/// cannot be copied: a caller that shares it between threads keeps the one
/// value behind a lock, parks those whom [`KillBarrier::wait`] turns away,
/// and wakes them all after [`KillBarrier::initiate_kill`].
#[derive(Debug, PartialEq, Eq, Structural)]
pub struct KillBarrier {
    open: bool,
}

impl KillBarrier {
    /// Whether the barrier has been opened.
    pub closed spec fn is_open(&self) -> bool {
        self.open
    }

    /// The barrier after one call of `initiate_kill`.
    pub closed spec fn after_kill(self) -> KillBarrier {
        KillBarrier { open: true }
    }

    /// The barrier after `n` calls of `initiate_kill`.
    pub open spec fn after_kills(self, n: nat) -> KillBarrier
        decreases n,
    {
        if n == 0 {
            self
        } else {
            self.after_kill().after_kills((n - 1) as nat)
        }
    }

    /// A closed barrier.
    pub fn new() -> (r: KillBarrier)
        ensures
            !r.is_open(),
    {
        KillBarrier { open: false }
    }

    /// Asks to pass the barrier. `true` lets the caller through; `false`
    /// tells it to wait for the opening and ask again.
    pub fn wait(&self) -> (passed: bool)
        ensures
            passed == self.is_open(),
    {
        self.open
    }

    /// Opens the barrier. On an open barrier this changes nothing. It never fails.
    pub fn initiate_kill(&mut self) -> (r: Result<(), String>)
        ensures
            r is Ok,
            final(self).is_open(),
            *final(self) == old(self).after_kill(),
    {
        self.open = true;
        Ok(())
    }

    /// After `initiate_kill` the barrier is open: every later `wait` passes.
    pub proof fn lemma_kill_opens(self)
        ensures
            self.after_kill().is_open(),
    {
    }

    /// On an open barrier `initiate_kill` changes nothing.
    pub proof fn lemma_kill_on_open_is_noop(self)
        requires
            self.is_open(),
        ensures
            self.after_kill() == self,
    {
    }

    /// Opening twice is the same as opening once.
    pub proof fn lemma_kill_is_idempotent(self)
        ensures
            self.after_kill().after_kill() == self.after_kill(),
    {
    }

    /// The barrier never closes again: however many calls of `initiate_kill`
    /// follow, an open barrier stays as it is, and one call or more leave any
    /// barrier as the first call left it.
    pub proof fn lemma_open_is_final(self, n: nat)
        ensures
            self.is_open() ==> self.after_kills(n) == self,
            n >= 1 ==> self.after_kills(n) == self.after_kill(),
            n >= 1 ==> self.after_kills(n).is_open(),
        decreases n,
    {
        if n >= 1 {
            self.after_kill().lemma_open_is_final((n - 1) as nat);
        }
    }
}

impl Default for KillBarrier {
    fn default() -> (r: KillBarrier)
        ensures
            !r.is_open(),
    {
        KillBarrier::new()
    }
}

} // verus!
