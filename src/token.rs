use vstd::prelude::*;

verus! {

/// The flag behind suspension: set by a resume signal, consumed by a suspend.
/// Signals do not queue: any number of them set the flag once.
pub struct ResumeToken {
    available: bool,
}

impl View for ResumeToken {
    type V = bool;

    /// True when a resume signal is waiting to be consumed.
    closed spec fn view(&self) -> bool {
        self.available
    }
}

/// Whether a suspend made with the flag at `available` blocks the thread.
pub open spec fn suspend_blocks(available: bool) -> bool {
    !available
}

/// The flag after a suspend: any waiting signal has been consumed.
pub open spec fn after_suspend(available: bool) -> bool {
    false
}

impl ResumeToken {
    /// Armed: no resume signal is waiting.
    pub fn new() -> (r: ResumeToken)
        ensures
            !r@,
    {
        ResumeToken { available: false }
    }

    /// A resume signal arrives.
    pub fn signal(&mut self)
        ensures
            final(self)@,
    {
        self.available = true;
    }

    /// The thread reaches its suspend point. Returns true when it must block
    /// until the next signal; false when a signal was waiting, which this
    /// consumes, and the suspend returns at once.
    pub fn suspend(&mut self) -> (blocks: bool)
        ensures
            blocks == suspend_blocks(old(self)@),
            final(self)@ == after_suspend(old(self)@),
    {
        let blocks = !self.available;
        self.available = false;
        blocks
    }

    pub fn is_available(&self) -> (r: bool)
        ensures
            r == self@,
    {
        self.available
    }
}

/// The flag after `k` resume signals, starting from `available`.
pub open spec fn after_signals(available: bool, k: nat) -> bool
    decreases k,
{
    if k == 0 {
        available
    } else {
        after_signals(true, (k - 1) as nat)
    }
}

proof fn lemma_after_signals(available: bool, k: nat)
    ensures
        after_signals(available, k) == (available || k > 0),
    decreases k,
{
    if k > 0 {
        lemma_after_signals(true, (k - 1) as nat);
    }
}

/// A resume signal sent before the thread reaches its suspend point is not
/// lost: whatever the flag held before, after one or more signals the next
/// suspend returns at once.
pub proof fn law_signal_before_suspend_is_kept(available: bool, k: nat)
    requires
        k >= 1,
    ensures
        !suspend_blocks(after_signals(available, k)),
{
    lemma_after_signals(available, k);
}

/// Signals do not queue: however many arrive before a suspend, that suspend
/// returns at once and consumes them all, and a second suspend with no signal
/// in between blocks.
pub proof fn law_signals_collapse(available: bool, k: nat)
    requires
        k >= 1,
    ensures
        !suspend_blocks(after_signals(available, k)),
        suspend_blocks(after_suspend(after_signals(available, k))),
{
    lemma_after_signals(available, k);
}

} // verus!
