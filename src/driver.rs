use vstd::prelude::*;

verus! {

/// What one progress attempt on the computation reported.
pub enum Attempt<T> {
    Ready(T),
    Pending,
}

/// Where the run loop stands.
#[derive(Clone, Copy, Debug, PartialEq, Eq, Structural)]
pub enum Phase {
    /// About to attempt progress.
    Polling,
    /// The last attempt reported pending: the thread waits for a resume signal.
    Suspended,
    /// An attempt produced the final value; no further attempt is made.
    Finished,
}

/// What the run loop does after an attempt.
pub enum Step<T> {
    /// Return the final value to the caller.
    Finish(T),
    /// Suspend the calling thread until a resume signal arrives.
    Suspend,
}

/// The state of one blocking run, as counted by the loop.
pub struct DriverView {
    pub phase: Phase,
    pub attempts: nat,
    pub suspensions: nat,
}

/// The state before the first attempt.
pub open spec fn initial() -> DriverView {
    DriverView { phase: Phase::Polling, attempts: 0, suspensions: 0 }
}

/// The state after one attempt that reported `a`, and the step it calls for.
pub open spec fn after_attempt<T>(v: DriverView, a: Attempt<T>) -> (DriverView, Step<T>) {
    match a {
        Attempt::Ready(x) => (
            DriverView { phase: Phase::Finished, attempts: v.attempts + 1, ..v },
            Step::Finish(x),
        ),
        Attempt::Pending => (
            DriverView {
                phase: Phase::Suspended,
                attempts: v.attempts + 1,
                suspensions: v.suspensions + 1,
            },
            Step::Suspend,
        ),
    }
}

/// The state after the suspended thread was resumed.
pub open spec fn after_resume(v: DriverView) -> DriverView {
    DriverView { phase: Phase::Polling, ..v }
}

/// Runs the loop over the outcomes that successive attempts report, resuming
/// after each pending one: the final state and the value returned, if any.
pub open spec fn run<T>(v: DriverView, outcomes: Seq<Attempt<T>>) -> (DriverView, Option<T>)
    decreases outcomes.len(),
{
    if outcomes.len() == 0 {
        (v, None)
    } else {
        let (v1, step) = after_attempt(v, outcomes[0]);
        match step {
            Step::Finish(x) => (v1, Some(x)),
            Step::Suspend => run(after_resume(v1), outcomes.drop_first()),
        }
    }
}

/// `n` pending reports followed by one that is ready with `x`.
pub open spec fn pending_then_ready<T>(n: nat, x: T) -> Seq<Attempt<T>> {
    Seq::new(n, |i: int| Attempt::<T>::Pending).push(Attempt::Ready(x))
}

proof fn lemma_run_stops_at_first_ready<T>(v: DriverView, outcomes: Seq<Attempt<T>>, i: int)
    requires
        v.phase == Phase::Polling,
        0 <= i <= outcomes.len(),
        forall|j: int| 0 <= j < i ==> outcomes[j] is Pending,
        i < outcomes.len() ==> outcomes[i] is Ready,
    ensures
        i < outcomes.len() ==> run(v, outcomes) == (
        DriverView {
            phase: Phase::Finished,
            attempts: v.attempts + i as nat + 1,
            suspensions: v.suspensions + i as nat,
        },
        Some(outcomes[i]->0)),
        i == outcomes.len() ==> run(v, outcomes) == (
        DriverView {
            phase: Phase::Polling,
            attempts: v.attempts + i as nat,
            suspensions: v.suspensions + i as nat,
        },
        None::<T>),
    decreases outcomes.len(),
{
    if outcomes.len() > 0 && i > 0 {
        let v1 = after_resume(after_attempt(v, outcomes[0]).0);
        let rest = outcomes.drop_first();
        assert forall|j: int| 0 <= j < i - 1 implies rest[j] is Pending by {
            assert(rest[j] == outcomes[j + 1]);
        }
        lemma_run_stops_at_first_ready(v1, rest, i - 1);
    }
}

/// The run never returns while the computation reports pending: it returns
/// the value of the first ready report, after exactly one attempt per report
/// up to it and one suspension per pending report before it. Without a ready
/// report it returns nothing and is polling again.
pub proof fn law_run_returns_first_ready<T>(outcomes: Seq<Attempt<T>>, i: int)
    requires
        0 <= i <= outcomes.len(),
        forall|j: int| 0 <= j < i ==> outcomes[j] is Pending,
        i < outcomes.len() ==> outcomes[i] is Ready,
    ensures
        i < outcomes.len() ==> run(initial(), outcomes) == (
        DriverView { phase: Phase::Finished, attempts: i as nat + 1, suspensions: i as nat },
        Some(outcomes[i]->0)),
        i == outcomes.len() ==> run(initial(), outcomes) == (
        DriverView { phase: Phase::Polling, attempts: i as nat, suspensions: i as nat },
        None::<T>),
{
    lemma_run_stops_at_first_ready(initial(), outcomes, i);
}

/// A computation that reports pending exactly `n` times and then is ready
/// with `x`, resumed after each pending report, is attempted exactly `n + 1`
/// times, suspends the thread exactly `n` times, and the run returns `x`.
pub proof fn law_attempts_are_pending_count_plus_one<T>(n: nat, x: T)
    ensures
        run(initial(), pending_then_ready(n, x)) == (
        DriverView { phase: Phase::Finished, attempts: n + 1, suspensions: n },
        Some(x)),
{
    let s = pending_then_ready(n, x);
    assert(forall|j: int| 0 <= j < n ==> s[j] is Pending);
    assert(s[n as int] == Attempt::Ready(x));
    law_run_returns_first_ready(s, n as int);
}

/// The run loop's bookkeeping: its phase and how many attempts and suspensions
/// it has made.
pub struct Driver {
    phase: Phase,
    attempts: u64,
    suspensions: u64,
}

impl View for Driver {
    type V = DriverView;

    closed spec fn view(&self) -> DriverView {
        DriverView {
            phase: self.phase,
            attempts: self.attempts as nat,
            suspensions: self.suspensions as nat,
        }
    }
}

impl Driver {
    /// Every attempt but a final one was followed by a suspension.
    pub closed spec fn wf(&self) -> bool {
        if self.phase == Phase::Finished {
            self.attempts == self.suspensions + 1
        } else {
            self.attempts == self.suspensions
        }
    }

    pub fn new() -> (r: Driver)
        ensures
            r@ == initial(),
            r.wf(),
    {
        Driver { phase: Phase::Polling, attempts: 0, suspensions: 0 }
    }

    /// Records what an attempt reported and says what the loop does next.
    pub fn record_attempt<T>(&mut self, a: Attempt<T>) -> (r: Step<T>)
        requires
            old(self).wf(),
            old(self)@.phase == Phase::Polling,
            old(self)@.attempts < u64::MAX,
        ensures
            final(self).wf(),
            (final(self)@, r) == after_attempt(old(self)@, a),
    {
        self.attempts = self.attempts + 1;
        match a {
            Attempt::Ready(x) => {
                self.phase = Phase::Finished;
                Step::Finish(x)
            },
            Attempt::Pending => {
                self.phase = Phase::Suspended;
                self.suspensions = self.suspensions + 1;
                Step::Suspend
            },
        }
    }

    /// Records that the suspended thread was resumed, by a wake or spuriously:
    /// the loop attempts progress again.
    pub fn resume(&mut self)
        requires
            old(self).wf(),
            old(self)@.phase == Phase::Suspended,
        ensures
            final(self).wf(),
            final(self)@ == after_resume(old(self)@),
    {
        self.phase = Phase::Polling;
    }

    pub fn phase(&self) -> (r: Phase)
        ensures
            r == self@.phase,
    {
        self.phase
    }

    pub fn attempts(&self) -> (r: u64)
        ensures
            r == self@.attempts,
    {
        self.attempts
    }

    pub fn suspensions(&self) -> (r: u64)
        ensures
            r == self@.suspensions,
    {
        self.suspensions
    }
}

} // verus!
