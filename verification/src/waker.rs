//! The waker of a waiting task, kept until the task is woken once.
//!
//! To the proofs a `Waker` is the task that it wakes and nothing more: two
//! wakers are equal when they wake the same task.
use vstd::prelude::*;
use core::task::Waker;

verus! {

/// `core::task::Waker`, a handle that wakes one task.
#[verifier::external_type_specification]
#[verifier::external_body]
pub struct ExWaker(core::task::Waker);

/// `Waker::will_wake` compares two wakers: where it answers `true`, both wake
/// the same task. It may answer `false` of two wakers of one task.
pub assume_specification[ core::task::Waker::will_wake ](
    waker: &core::task::Waker,
    other: &core::task::Waker,
) -> (same: bool)
    ensures
        same ==> *waker == *other,
;

/// `Clone` of a `Waker` gives a second waker of the same task.
pub assume_specification[ <core::task::Waker as Clone>::clone ](
    waker: &core::task::Waker,
) -> (copy: core::task::Waker)
    ensures
        copy == *waker,
;

/// `Waker::wake` wakes the task. Nothing that this library can see changes.
pub assume_specification[ core::task::Waker::wake ](waker: core::task::Waker);

/// `Waker::wake` was called for the task.
///
/// `call_ensures` says of a call what it may give back. Nothing is stated of what
/// `wake` does, so a proof learns this of a task only where the call is made.
pub open spec fn woken(task: Waker) -> bool {
    call_ensures(Waker::wake, (task,), ())
}

/// The task was woken, if there is one.
pub open spec fn one_woken(task: Option<Waker>) -> bool {
    task matches Some(task) ==> woken(task)
}

/// All these tasks were woken.
pub open spec fn all_woken(tasks: Seq<Waker>) -> bool {
    forall|i: int| 0 <= i < tasks.len() ==> woken(#[trigger] tasks[i])
}

/// The waker of a signal: none yet, a task to wake, or already handed out.
///
/// Once the waker has been handed out no other can be stored, so that a task
/// is woken at most once for one signal.
pub enum OnceWaker {
    /// No task has registered yet.
    Uninited,
    /// The waker was taken; this state is final.
    Notified,
    /// The task to wake.
    Waker(Waker),
}

impl OnceWaker {
    /// The task that would be woken now.
    pub open spec fn task(self) -> Option<Waker> {
        match self {
            OnceWaker::Waker(waker) => Some(waker),
            _ => None,
        }
    }

    /// The slot after `waker` was offered to it.
    pub open spec fn updated(self, waker: Waker) -> OnceWaker {
        if self is Notified {
            self
        } else {
            OnceWaker::Waker(waker)
        }
    }

    /// The waker that is left over when `waker` is offered to the slot.
    pub open spec fn spare(self, waker: Waker) -> Option<Waker> {
        match self {
            OnceWaker::Uninited => None,
            OnceWaker::Notified => Some(waker),
            OnceWaker::Waker(old) => Some(old),
        }
    }

    /// Once a waker was taken, none comes out again, whatever is offered; until
    /// then the last one that was offered comes out.
    pub proof fn at_most_one_wake(self, waker: Waker, later: Waker)
        ensures
            OnceWaker::Notified.task() is None,
            OnceWaker::Notified.updated(waker).task() is None,
            !(self is Notified) ==> self.updated(waker).updated(later).task() == Some(later),
    {
    }

    /// A slot without a waker.
    pub fn new() -> (slot: OnceWaker)
        ensures
            slot == OnceWaker::Uninited,
    {
        OnceWaker::Uninited
    }

    /// Stores a waker of the task of `other`, unless the slot was notified.
    /// Returns whether the slot now holds it, and the waker that is left over.
    ///
    /// To drop a waker is to run code of its executor. The caller does that when
    /// no lock is held any more.
    pub fn update(&mut self, other: Waker) -> (updated: (bool, Option<Waker>))
        ensures
            updated.0 == !(*old(self) is Notified),
            updated.1 == old(self).spare(other),
            *final(self) == old(self).updated(other),
    {
        match self {
            OnceWaker::Waker(waker) => {
                let mut spare = other;
                if !waker.will_wake(&spare) {
                    core::mem::swap(waker, &mut spare);
                }
                (true, Some(spare))
            },
            OnceWaker::Notified => (false, Some(other)),
            OnceWaker::Uninited => {
                *self = OnceWaker::Waker(other);
                (true, None)
            },
        }
    }

    /// Takes the waker out, if there is one, and leaves the slot notified.
    pub fn take(&mut self) -> (waker: Option<Waker>)
        ensures
            waker == old(self).task(),
            *final(self) == OnceWaker::Notified,
    {
        let mut slot = OnceWaker::Notified;
        core::mem::swap(&mut slot, self);
        match slot {
            OnceWaker::Waker(waker) => Some(waker),
            _ => None,
        }
    }
}

} // verus!
