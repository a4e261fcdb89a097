//! How a thread waits for a signal that a peer is about to resolve.
use vstd::prelude::*;
use core::time::Duration;
use crate::signal::{PENDING, SIGNALLED};

verus! {

/// `core::hint::spin_loop` tells the processor that the thread spins. Nothing
/// that this library can see changes.
pub assume_specification[ core::hint::spin_loop ]();

/// `spin_loop` was called. A proof learns this only where the call is made.
pub open spec fn spun() -> bool {
    call_ensures(core::hint::spin_loop, (), ())
}

/// Spins once, in the given round.
pub fn spin(round: u128)
    ensures
        spun(),
{
    let _ = round;
    core::hint::spin_loop();
}

/// [`spin`] was called in the round.
pub open spec fn spun_in(round: u128) -> bool {
    call_ensures(spin, (round,), ())
}

/// `Duration::as_nanos` gives the whole of a duration in nanoseconds. Nothing is
/// claimed of the number; the proofs only keep that this duration gave it
/// ([`lasts`]).
pub assume_specification[ core::time::Duration::as_nanos ](
    duration: &core::time::Duration,
) -> u128;

/// `Duration::from_nanos` makes a duration of so many nanoseconds: that many is
/// what `Duration::as_nanos` gives of it.
pub assume_specification[ core::time::Duration::from_nanos ](nanos: u64) -> (duration:
    core::time::Duration)
    ensures
        forall|n: u128|
            call_ensures(core::time::Duration::as_nanos, (&duration,), n) ==> n == nanos,
;

/// The duration was found to be so many nanoseconds. A proof learns this only where
/// `as_nanos` is called.
pub open spec fn lasts(duration: Duration, nanos: u128) -> bool {
    call_ensures(Duration::as_nanos, (&duration,), nanos)
}

/// Passes about the time of the duration by spinning, once for each nanosecond,
/// where there is no operating system that could put the thread to sleep.
pub fn sleep(duration: Duration)
    ensures
        exists|nanos: u128|
            {
                &&& #[trigger] lasts(duration, nanos)
                &&& nanos > 0 ==> spun()
                &&& forall|round: u128| round < nanos ==> #[trigger] spun_in(round)
            },
{
    let nanos: u128 = duration.as_nanos();
    assert(lasts(duration, nanos));
    let mut i: u128 = 0;
    while i < nanos
        invariant
            i <= nanos,
            i > 0 ==> spun(),
            forall|round: u128| round < i ==> #[trigger] spun_in(round),
        decreases nanos - i,
    {
        spin(i);
        i = i + 1;
    }
}

/// Lets a short while pass, where there is no operating system to yield to.
pub fn yield_now()
    ensures
        spun(),
        forall|round: u128| round < 128 ==> #[trigger] spun_in(round),
{
    sleep(Duration::from_nanos(128));
}

/// How often a wait yields before it starts to sleep.
pub const YIELDS: u32 = 32;

/// How often the time to sleep is doubled.
pub const DOUBLINGS: u32 = 8;

/// The first time to sleep, in nanoseconds.
pub const SHORTEST_SLEEP: u64 = 1024;

/// The time to sleep from the last doubling on, in nanoseconds.
pub const LONGEST_SLEEP: u64 = 262144;

/// What to do next while a signal is watched.
#[derive(Clone, Copy, PartialEq, Eq, Debug, Structural)]
pub enum WaitStep {
    /// The signal is resolved; the flag tells whether its value has moved.
    Resolved(bool),
    /// Yield, then look at the state again.
    Yield,
    /// Sleep for so many nanoseconds, then look at the state again.
    Sleep(u64),
}

/// What to do after the signal was found unresolved for the given time, counted
/// from zero: yield for a while, then sleep, each time twice as long as before
/// until the longest sleep is reached.
pub open spec fn plan(round: nat) -> WaitStep {
    if round < YIELDS {
        WaitStep::Yield
    } else if round < YIELDS + DOUBLINGS {
        WaitStep::Sleep((SHORTEST_SLEEP * vstd::arithmetic::power2::pow2((round - YIELDS) as nat)) as u64)
    } else {
        WaitStep::Sleep(LONGEST_SLEEP)
    }
}

/// A wait yields a fixed number of times before it ever sleeps; each sleep is as
/// long as the one before or twice as long, and none is longer than the longest.
pub proof fn sleeps_grow_to_a_limit(round: nat)
    ensures
        plan(round) is Yield <==> round < YIELDS,
        plan(YIELDS as nat) == WaitStep::Sleep(SHORTEST_SLEEP),
        plan(round) matches WaitStep::Sleep(nanos) ==> {
            &&& SHORTEST_SLEEP <= nanos <= LONGEST_SLEEP
            &&& plan(round + 1) == WaitStep::Sleep(
                if nanos < LONGEST_SLEEP {
                    (2 * nanos) as u64
                } else {
                    LONGEST_SLEEP
                },
            )
        },
{
    vstd::arithmetic::power2::lemma2_to64();
}

/// A wait for a signal to be resolved, without a waker.
///
/// It is for a signal in flight: one that a peer has taken from the wait list and
/// has yet to resolve. A channel behind its lock does both in one step, so that the
/// handles have no use for this.
pub struct BlockingWait {
    /// How often the signal was found unresolved so far, as far as that matters.
    rounds: u32,
    /// The next time to sleep.
    sleep_time: u64,
}

impl BlockingWait {
    /// The rounds that have passed, up to the one from which on all are alike.
    pub closed spec fn rounds(self) -> nat {
        self.rounds as nat
    }

    /// The time to sleep belongs to the round.
    pub closed spec fn wf(self) -> bool {
        &&& self.rounds <= YIELDS + DOUBLINGS
        &&& self.rounds <= YIELDS ==> self.sleep_time == SHORTEST_SLEEP
        &&& self.rounds >= YIELDS ==> self.sleep_time == SHORTEST_SLEEP
            * vstd::arithmetic::power2::pow2((self.rounds - YIELDS) as nat)
    }

    /// A wait that is about to start.
    pub fn new() -> (wait: BlockingWait)
        ensures
            wait.wf(),
            wait.rounds() == 0,
    {
        BlockingWait { rounds: 0, sleep_time: SHORTEST_SLEEP }
    }

    /// Looks at the state of the signal once more and tells what to do.
    pub fn step(&mut self, state: usize) -> (next: WaitStep)
        requires
            old(self).wf(),
        ensures
            final(self).wf(),
            state > PENDING ==> {
                &&& next == WaitStep::Resolved(state == SIGNALLED)
                &&& final(self).rounds() == old(self).rounds()
            },
            state <= PENDING ==> {
                &&& next == plan(old(self).rounds())
                &&& final(self).rounds() == (if old(self).rounds() < YIELDS + DOUBLINGS {
                    old(self).rounds() + 1
                } else {
                    old(self).rounds()
                })
            },
    {
        if branches::likely(state > PENDING) {
            return WaitStep::Resolved(state == SIGNALLED);
        }
        if self.rounds < YIELDS {
            self.rounds = self.rounds + 1;
            proof {
                vstd::arithmetic::power2::lemma2_to64();
            }
            return WaitStep::Yield;
        }
        let sleep_time: u64 = self.sleep_time;
        proof {
            vstd::arithmetic::power2::lemma2_to64();
        }
        if sleep_time < LONGEST_SLEEP {
            self.sleep_time = sleep_time * 2;
            self.rounds = self.rounds + 1;
        }
        WaitStep::Sleep(sleep_time)
    }
}

} // verus!
