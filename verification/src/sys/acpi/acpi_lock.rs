//! The mutex and semaphore the ACPI interpreter is given to synchronise with.
use vstd::prelude::*;

verus! {

/// A spin lock: `state` is 1 while held and 0 while free.
pub struct Mutex {
    pub state: u32,
}

impl Mutex {
    /// A free lock.
    pub fn new() -> (m: Self)
        ensures
            m.state == 0,
    {
        Mutex { state: 0 }
    }

    /// Take the lock. Taking a held lock spins until its holder lets go, which
    /// cannot happen while the caller holds the only reference, so the lock
    /// must be free.
    pub fn lock(&mut self)
        requires
            old(self).state != 1,
        ensures
            final(self).state == 1,
    {
        self.state = 1;
    }

    /// Let go of the lock.
    pub fn unlock(&mut self)
        ensures
            final(self).state == 0,
    {
        self.state = 0;
    }
}

/// A counting semaphore: `state` counts the signals not yet waited for. In
/// proofs only, `signalled` and `waited` count the signals and the waits
/// since it was made or last reset.
pub struct Semaphore {
    pub state: u32,
    pub signalled: Ghost<nat>,
    pub waited: Ghost<nat>,
}

impl Semaphore {
    /// Each signal since the last reset is pending until one wait takes it:
    /// the pending count is the signals less the waits.
    pub open spec fn balanced(&self) -> bool {
        self.waited@ <= self.signalled@ && self.state == self.signalled@ - self.waited@
    }

    /// A semaphore with no pending signal.
    pub fn new() -> (s: Self)
        ensures
            s.state == 0,
            s.signalled@ == 0 && s.waited@ == 0,
            s.balanced(),
    {
        Semaphore { state: 0, signalled: Ghost(0), waited: Ghost(0) }
    }

    /// Record one signal; the counter wraps as an atomic add does.
    pub fn signal(&mut self)
        ensures
            final(self).state == (old(self).state + 1) % 0x1_0000_0000,
            final(self).signalled@ == old(self).signalled@ + 1,
            final(self).waited@ == old(self).waited@,
            old(self).balanced() && old(self).state < u32::MAX ==> final(self).balanced(),
    {
        self.state = self.state.wrapping_add(1);
        proof {
            self.signalled@ = self.signalled@ + 1;
        }
    }

    /// Consume one pending signal. With none pending the wait spins until
    /// another holder signals, which cannot happen while the caller holds the
    /// only reference, so one must be pending: since the last reset, the
    /// waits that go through are at most the signals, one wait per signal.
    /// The timeout is not honoured: the wait always succeeds.
    pub fn wait_for_event(&mut self, timeout: Option<u16>) -> (r: bool)
        requires
            old(self).state > 0,
        ensures
            r,
            final(self).state == old(self).state - 1,
            final(self).signalled@ == old(self).signalled@,
            final(self).waited@ == old(self).waited@ + 1,
            old(self).balanced() ==> final(self).balanced() && final(self).waited@ <= final(self).signalled@,
    {
        self.state = self.state - 1;
        proof {
            self.waited@ = self.waited@ + 1;
        }
        true
    }

    /// Drop every pending signal.
    pub fn reset(&mut self)
        ensures
            final(self).state == 0,
            final(self).signalled@ == 0 && final(self).waited@ == 0,
            final(self).balanced(),
    {
        self.state = 0;
        proof {
            self.signalled@ = 0;
            self.waited@ = 0;
        }
    }
}

/// Each signal allows one wait: while the waits since the last reset are
/// fewer than the signals, a signal is pending, so the next wait goes
/// through; once they are as many, none is pending.
pub proof fn lemma_signals_admit_waits(s: Semaphore)
    requires
        s.balanced(),
    ensures
        s.waited@ < s.signalled@ <==> s.state > 0,
{
}

/// A signal followed by a wait leaves the semaphore as it was, whenever the
/// signal does not wrap the counter.
pub proof fn lemma_signal_then_wait(before: Semaphore, signalled: Semaphore, after: Semaphore)
    requires
        before.state < u32::MAX,
        signalled.state == (before.state + 1) % 0x1_0000_0000,
        after.state == signalled.state - 1,
    ensures
        after.state == before.state,
{
}

proof fn lemma_wait_steps(n: u32, states: Seq<u32>, k: int)
    requires
        states.len() == n + 1,
        states[0] == n,
        forall|i: int| 0 <= i < n && #[trigger] states[i] > 0 ==> states[i + 1] == states[i] - 1,
        0 <= k <= n,
    ensures
        states[k] == n - k,
    decreases k,
{
    if k > 0 {
        lemma_wait_steps(n, states, k - 1);
        assert(states[k - 1] > 0);
    }
}

/// Each signal allows exactly one wait: from `n` pending signals, `n` waits
/// in a row (each taking the state the last one left, as `wait_for_event`
/// does) each find a signal pending, so none blocks, and they leave none.
pub proof fn lemma_waits_drain(n: u32, states: Seq<u32>)
    requires
        states.len() == n + 1,
        states[0] == n,
        forall|i: int| 0 <= i < n && #[trigger] states[i] > 0 ==> states[i + 1] == states[i] - 1,
    ensures
        forall|i: int| 0 <= i < n ==> #[trigger] states[i] > 0,
        states[n as int] == 0,
{
    assert forall|i: int| 0 <= i < n implies #[trigger] states[i] > 0 by {
        lemma_wait_steps(n, states, i);
    }
    lemma_wait_steps(n, states, n as int);
}

} // verus!
