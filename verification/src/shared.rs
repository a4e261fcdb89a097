//! A channel behind a lock, as its senders and receivers share it.
use vstd::prelude::*;
use std::collections::VecDeque;
use std::sync::Arc;
use core::task::Waker;
use xutex::{AsyncMutex, MutexGuard};
use crate::error::{CloseError, ReceiveError, ReceiveErrorTimeout, SendError};
use crate::internal::{ChannelInternal, RecvStep, SendStep};
use crate::signal::{Signal, SignalKind, SignalPoll};
use crate::state::ChannelState;

verus! {

/// `xutex::AsyncMutex`, a lock that threads and tasks can wait for. What it
/// guards is not visible from outside the lock.
#[verifier::external_type_specification]
#[verifier::external_body]
#[verifier::reject_recursive_types(T)]
pub struct ExAsyncMutex<T>(xutex::AsyncMutex<T>);

/// `xutex::MutexGuard`, which holds an `AsyncMutex` locked while it lives.
#[verifier::external_type_specification]
#[verifier::external_body]
#[verifier::reject_recursive_types(T)]
pub struct ExMutexGuard<'a, T>(xutex::MutexGuard<'a, T>);

/// `AsyncMutex::new` makes an unlocked lock that guards `data`. What it guards
/// later depends on all that lock it. Nothing is claimed of the lock itself; the
/// proofs only keep that it was made of `data` ([`Internal::began_as`]).
pub assume_specification<T>[ xutex::AsyncMutex::<T>::new ](data: T) -> xutex::AsyncMutex<T>;

/// `AsyncMutex::lock_sync` blocks the thread until it holds the lock. What is
/// found behind the lock depends on all that held it before. Nothing is claimed of
/// the guard; the proofs only keep that this lock gave it
/// ([`Internal::locked_by`]).
pub assume_specification<T>[ xutex::AsyncMutex::<T>::lock_sync ](
    mutex: &xutex::AsyncMutex<T>,
) -> xutex::MutexGuard<'_, T>;

/// `AsyncMutex::try_lock` gives the guard if nobody else holds the lock at this
/// moment. Nothing is claimed of the answer; the proofs only keep that this lock
/// gave it ([`Internal::locked_by`], [`Internal::busy`]).
pub assume_specification<T>[ xutex::AsyncMutex::<T>::try_lock ](
    mutex: &xutex::AsyncMutex<T>,
) -> Option<xutex::MutexGuard<'_, T>>;

/// `DerefMut` of a `MutexGuard` gives access to what is behind the lock, which is
/// whatever the last holder left there. Nothing is claimed of it; the proofs
/// only keep that it was reached through this guard ([`reaches`]).
pub assume_specification<'a, 'b, T>[ <xutex::MutexGuard<'a, T> as core::ops::DerefMut>::deref_mut ](
    guard: &'b mut xutex::MutexGuard<'a, T>,
) -> &'b mut <xutex::MutexGuard<'a, T> as core::ops::Deref>::Target;

/// `access` is a borrow of a guard that gave access to `data`.
///
/// This rests on `call_ensures` of a function of which nothing is stated: a proof
/// learns it only where `deref_mut` is called, and of what that call gave. The same
/// holds of the relations of [`Internal`] and of [`unlocked`].
///
/// Nothing is stated of the guard after a borrow either. So a guard that is the one
/// that a borrow left was not borrowed again. That the lock was not taken another time
/// with another guard, this does not say.
#[verifier::inline]
pub open spec fn gives<T>(access: &mut MutexGuard<'_, T>, data: &mut T) -> bool {
    call_ensures(<MutexGuard<'_, T> as core::ops::DerefMut>::deref_mut, (access,), data)
}

/// The guard gave access to `data`.
pub open spec fn reaches<T>(guard: MutexGuard<'_, T>, data: &mut T) -> bool {
    exists|g: &mut MutexGuard<'_, T>| *g == guard && #[trigger] gives(g, data)
}

/// Gives the lock back.
pub fn unlock<T>(guard: MutexGuard<'_, T>) {
}

/// The lock was given back with the guard as it is.
pub open spec fn unlocked<T>(guard: MutexGuard<'_, T>) -> bool {
    call_ensures(unlock::<T>, (guard,), ())
}

/// What the lock guards: a channel that is orderly whenever the lock is free.
#[verifier::reject_recursive_types(T)]
pub struct Shared<T, const CAPACITY: usize> {
    channel: ChannelInternal<T, CAPACITY>,
}

impl<T, const CAPACITY: usize> View for Shared<T, CAPACITY> {
    type V = ChannelState<T>;

    closed spec fn view(&self) -> ChannelState<T> {
        self.channel@
    }
}

impl<T, const CAPACITY: usize> Shared<T, CAPACITY> {
    /// The channel is well formed and orderly.
    #[verifier::type_invariant]
    spec fn guarded_is_orderly(self) -> bool {
        self.channel.wf() && self.channel@.orderly(CAPACITY)
    }

    /// A new channel with one sender and one receiver.
    pub fn new() -> (shared: Self)
        ensures
            shared@ == ChannelState::<T>::empty(1, 1, 2),
    {
        proof {
            crate::laws::new_is_orderly::<T>(CAPACITY, 1, 1, 2);
        }
        Shared { channel: ChannelInternal::new() }
    }

    /// Takes the channel out for one operation. Until it is put back, a closed
    /// channel stands in for it.
    fn take(&mut self) -> (channel: ChannelInternal<T, CAPACITY>)
        ensures
            channel.wf(),
            channel@ == old(self)@,
            channel@.wf(CAPACITY),
            channel@.orderly(CAPACITY),
    {
        proof {
            use_type_invariant(&*self);
            self.channel.lemma_wf();
            crate::laws::new_is_orderly::<T>(CAPACITY, 0, 0, 0);
        }
        let mut channel = ChannelInternal::vacant();
        core::mem::swap(&mut channel, &mut self.channel);
        channel
    }

    /// Count of buffered values, never more than the capacity.
    pub fn len(&self) -> (len: usize)
        ensures
            len == self@.queue.len(),
            len <= CAPACITY,
    {
        proof {
            use_type_invariant(self);
        }
        self.channel.len()
    }

    /// Whether no value is buffered.
    pub fn is_empty(&self) -> (empty: bool)
        ensures
            empty == (self@.queue.len() == 0),
            CAPACITY == 0 ==> empty,
    {
        proof {
            use_type_invariant(self);
        }
        self.channel.is_empty()
    }

    /// Whether the buffer is full; without a buffer it always is.
    pub fn is_full(&self) -> (full: bool)
        ensures
            full == (self@.queue.len() == CAPACITY),
            CAPACITY == 0 ==> full,
    {
        proof {
            use_type_invariant(self);
        }
        self.channel.is_full()
    }

    /// Count of alive receivers.
    pub fn receiver_count(&self) -> (count: usize)
        ensures
            count == self@.recv_count,
    {
        self.channel.receiver_count()
    }

    /// Count of alive senders.
    pub fn sender_count(&self) -> (count: usize)
        ensures
            count == self@.send_count,
    {
        self.channel.sender_count()
    }

    /// Whether the channel is closed on both sides.
    pub fn is_closed(&self) -> (closed: bool)
        ensures
            closed == self@.closed(),
    {
        self.channel.is_closed()
    }

    /// Whether no sender is left and no value is buffered.
    pub fn is_terminated(&self) -> (terminated: bool)
        ensures
            terminated == self@.terminated(),
    {
        self.channel.is_terminated()
    }

    /// Closes the channel on both sides, once. Returns the wakers to wake.
    pub fn close(&mut self) -> (closed: (Result<(), CloseError>, VecDeque<Waker>))
        ensures
            if old(self)@.closed() {
                &&& closed.0 == Err::<(), CloseError>(CloseError())
                &&& closed.1@ == Seq::<Waker>::empty()
                &&& final(self)@ == old(self)@
            } else {
                &&& closed.0 == Ok::<(), CloseError>(())
                &&& closed.1@ == old(self)@.tasks()
                &&& final(self)@ == old(self)@.after_close()
            },
    {
        let mut channel = self.take();
        proof {
            crate::laws::closing_keeps_order(channel@, CAPACITY);
        }
        let closed = channel.close();
        self.channel = channel;
        closed
    }

    /// Counts one more handle on the given side. Returns `false`, and counts
    /// nothing, if a count has come to the limit of the machine.
    pub fn attach(&mut self, is_sender: bool) -> (counted: bool)
        ensures
            counted == old(self)@.countable(),
            final(self)@ == (if counted {
                old(self)@.after_inc(is_sender)
            } else {
                old(self)@
            }),
    {
        let mut channel = self.take();
        proof {
            crate::laws::counting_keeps_order(channel@, CAPACITY, is_sender);
        }
        let counted = channel.handle_count() < usize::MAX && channel.sender_count() < usize::MAX
            && channel.receiver_count() < usize::MAX;
        if counted {
            channel.inc_ref_count(is_sender);
        }
        self.channel = channel;
        counted
    }

    /// Counts one handle less on the given side, if any is counted. Returns
    /// whether it was the last of all, and the wakers to wake.
    pub fn detach(&mut self, is_sender: bool) -> (last: (bool, VecDeque<Waker>))
        ensures
            if old(self)@.ref_count == 0 {
                &&& !last.0
                &&& last.1@ == Seq::<Waker>::empty()
                &&& final(self)@ == old(self)@
            } else {
                &&& last.0 == (old(self)@.ref_count == 1)
                &&& last.1@ == (if old(self)@.last_of_side(is_sender) {
                    old(self)@.tasks()
                } else {
                    Seq::empty()
                })
                &&& final(self)@ == old(self)@.after_dec(is_sender)
            },
    {
        let mut channel = self.take();
        proof {
            crate::laws::counting_keeps_order(channel@, CAPACITY, is_sender);
        }
        let mut last = (false, VecDeque::new());
        if channel.handle_count() > 0 {
            last = channel.dec_ref_count(is_sender);
        }
        self.channel = channel;
        last
    }

    /// Sends without waiting. The waker that comes back is to be woken.
    pub fn try_send(&mut self, data: T) -> (sent: (Result<(), SendError<T>>, Option<Waker>))
        ensures
            old(self)@.wf(CAPACITY) && old(self)@.orderly(CAPACITY),
            (final(self)@, sent.0, sent.1) == old(self)@.try_send(CAPACITY, data),
    {
        let mut channel = self.take();
        proof {
            crate::laws::try_send_keeps_order(channel@, CAPACITY, data);
        }
        let sent = channel.try_send(data);
        self.channel = channel;
        sent
    }

    /// Receives without waiting. The waker that comes back is to be woken.
    pub fn try_recv(&mut self) -> (received: (Result<T, ReceiveErrorTimeout>, Option<Waker>))
        ensures
            old(self)@.wf(CAPACITY) && old(self)@.orderly(CAPACITY),
            (final(self)@, received.0, received.1) == old(self)@.try_recv(),
    {
        let mut channel = self.take();
        proof {
            crate::laws::try_recv_keeps_order(channel@, CAPACITY);
        }
        let received = channel.try_recv();
        self.channel = channel;
        received
    }

    /// Receives all values and appends them to `vec`. Returns how many there
    /// were, and the wakers to wake.
    pub fn drain_into(&mut self, vec: &mut Vec<T>) -> (drained: (
        Result<usize, ReceiveError>,
        VecDeque<Waker>,
    ))
        ensures
            old(self)@.wf(CAPACITY) && old(self)@.orderly(CAPACITY),
            if old(self)@.recv_count == 0 {
                &&& drained.0 == Err::<usize, ReceiveError>(ReceiveError())
                &&& drained.1@ == Seq::<Waker>::empty()
                &&& final(self)@ == old(self)@
                &&& final(vec)@ == old(vec)@
            } else {
                &&& drained.0 is Ok
                &&& drained.0->Ok_0 == old(self)@.pending().len()
                &&& drained.1@ == (if old(self)@.recv_blocking {
                    Seq::empty()
                } else {
                    old(self)@.tasks()
                })
                &&& final(self)@ == old(self)@.drained()
                &&& final(vec)@ == old(vec)@ + old(self)@.pending()
            },
    {
        let mut channel = self.take();
        proof {
            crate::laws::draining_keeps_order(channel@, CAPACITY);
        }
        let drained = channel.drain_into(vec);
        self.channel = channel;
        drained
    }

    /// Sends, or starts to wait.
    pub fn send(&mut self, data: T) -> (step: SendStep<T>)
        ensures
            old(self)@.wf(CAPACITY) && old(self)@.orderly(CAPACITY),
            match step {
                SendStep::Done { result, wake } => {
                    &&& old(self)@.sends_at_once(CAPACITY)
                    &&& (final(self)@, result, wake) == old(self)@.try_send(CAPACITY, data)
                },
                SendStep::Wait { signal } => {
                    &&& !old(self)@.sends_at_once(CAPACITY)
                    &&& !old(self)@.signals.dom().contains(signal)
                    &&& final(self)@ == old(self)@.for_senders().joined(
                        signal,
                        Signal::spec_send(data),
                    )
                },
            },
    {
        let mut channel = self.take();
        let ghost s = channel@;
        let step = channel.send(data);
        proof {
            if s.sends_at_once(CAPACITY) {
                crate::laws::try_send_keeps_order(s, CAPACITY, data);
            } else {
                crate::laws::waiting_send_keeps_order(s, CAPACITY, step->signal, data);
            }
        }
        self.channel = channel;
        step
    }

    /// Receives, or starts to wait.
    pub fn recv(&mut self) -> (step: RecvStep<T>)
        ensures
            old(self)@.wf(CAPACITY) && old(self)@.orderly(CAPACITY),
            match step {
                RecvStep::Done { result, wake } => if old(self)@.terminated() {
                    &&& result == Err::<T, ReceiveError>(ReceiveError())
                    &&& wake is None
                    &&& final(self)@ == old(self)@
                } else {
                    &&& old(self)@.has_value()
                    &&& result is Ok
                    &&& (final(self)@, result->Ok_0, wake) == old(self)@.received()
                },
                RecvStep::Wait { signal } => {
                    &&& !old(self)@.terminated()
                    &&& !old(self)@.has_value()
                    &&& !old(self)@.signals.dom().contains(signal)
                    &&& final(self)@ == old(self)@.for_receivers().joined(
                        signal,
                        Signal::<T>::spec_recv(),
                    )
                },
            },
    {
        let mut channel = self.take();
        let ghost s = channel@;
        let step = channel.recv();
        proof {
            if !s.terminated() {
                if s.has_value() {
                    crate::laws::receiving_keeps_order(s, CAPACITY);
                } else {
                    crate::laws::waiting_recv_keeps_order(s, CAPACITY, step->signal);
                }
            }
        }
        self.channel = channel;
        step
    }

    /// Polls the signal of a sender. The waker that is left over comes back too, to
    /// be dropped.
    pub fn poll_send(&mut self, id: usize, waker: Waker) -> (polled: (
        SignalPoll<Result<(), SendError<T>>>,
        Option<Waker>,
    ))
        ensures
            old(self)@.wf(CAPACITY) && old(self)@.orderly(CAPACITY),
            (final(self)@, polled.0) == old(self)@.poll_send(id, waker),
            polled.1 == old(self)@.spare(id, SignalKind::Send, waker),
            !(polled.0 is Claimed),
    {
        let mut channel = self.take();
        proof {
            crate::laws::polling_keeps_order(channel@, CAPACITY, id, waker);
        }
        let polled = channel.poll_send(id, waker);
        self.channel = channel;
        polled
    }

    /// Polls the signal of a receiver. The waker that is left over comes back too, to
    /// be dropped.
    pub fn poll_recv(&mut self, id: usize, waker: Waker) -> (polled: (
        SignalPoll<Result<T, ReceiveError>>,
        Option<Waker>,
    ))
        ensures
            old(self)@.wf(CAPACITY) && old(self)@.orderly(CAPACITY),
            (final(self)@, polled.0) == old(self)@.poll_recv(id, waker),
            polled.1 == old(self)@.spare(id, SignalKind::Receive, waker),
            !(polled.0 is Claimed),
    {
        let mut channel = self.take();
        proof {
            crate::laws::polling_keeps_order(channel@, CAPACITY, id, waker);
        }
        let polled = channel.poll_recv(id, waker);
        self.channel = channel;
        polled
    }

    /// Gives up a signal of the given kind. What leaves the channel comes back, to
    /// be dropped.
    pub fn abandon(&mut self, id: usize, kind: SignalKind) -> (gone: Option<Signal<T>>)
        ensures
            gone == (if old(self)@.has_signal(id, kind) {
                Some(old(self)@.signals[id])
            } else {
                None
            }),
            final(self)@ == (if old(self)@.has_signal(id, kind) {
                old(self)@.abandoned(id)
            } else {
                old(self)@
            }),
    {
        let mut channel = self.take();
        proof {
            crate::laws::abandoning_keeps_order(channel@, CAPACITY, id, kind);
        }
        let (_, gone) = match kind {
            SignalKind::Send => channel.abandon_send(id),
            SignalKind::Receive => channel.abandon_recv(id),
        };
        self.channel = channel;
        gone
    }
}

/// A reference to the lock of a channel; all handles of the channel have one.
#[verifier::reject_recursive_types(T)]
#[verifier::reject_recursive_types(CAPACITY)]
pub struct Internal<T, const CAPACITY: usize> {
    inner: Arc<AsyncMutex<Shared<T, CAPACITY>>>,
}

impl<T, const CAPACITY: usize> Internal<T, CAPACITY> {
    /// The lock.
    pub closed spec fn lock(self) -> AsyncMutex<Shared<T, CAPACITY>> {
        *self.inner
    }

    /// The lock was made around a channel in this state.
    pub closed spec fn began_as(self, s: ChannelState<T>) -> bool {
        exists|shared: Shared<T, CAPACITY>|
            shared@ == s && #[trigger] call_ensures(
                AsyncMutex::<Shared<T, CAPACITY>>::new,
                (shared,),
                *self.inner,
            )
    }

    /// The guard was given by the lock of this channel.
    pub closed spec fn locked_by(self, guard: MutexGuard<'_, Shared<T, CAPACITY>>) -> bool {
        ||| call_ensures(AsyncMutex::<Shared<T, CAPACITY>>::lock_sync, (&*self.inner,), guard)
        ||| call_ensures(AsyncMutex::<Shared<T, CAPACITY>>::try_lock, (&*self.inner,), Some(guard))
    }

    /// The lock was found to be held by somebody else.
    pub closed spec fn busy(self) -> bool {
        call_ensures(AsyncMutex::<Shared<T, CAPACITY>>::try_lock, (&*self.inner,), None)
    }

    /// The channel was reached by locking it.
    pub open spec fn reaches(self, shared: &mut Shared<T, CAPACITY>) -> bool {
        exists|guard: MutexGuard<'_, Shared<T, CAPACITY>>|
            self.locked_by(guard) && #[trigger] reaches(guard, shared)
    }

    /// A guard of the channel, and the answer that it is busy, came from a call of its
    /// own lock; and the lock was made around the channel in its first state.
    pub proof fn what_the_lock_gave(
        self,
        guard: MutexGuard<'_, Shared<T, CAPACITY>>,
        s: ChannelState<T>,
    )
        ensures
            self.locked_by(guard) ==> {
                ||| call_ensures(
                    AsyncMutex::<Shared<T, CAPACITY>>::lock_sync,
                    (&self.lock(),),
                    guard,
                )
                ||| call_ensures(
                    AsyncMutex::<Shared<T, CAPACITY>>::try_lock,
                    (&self.lock(),),
                    Some(guard),
                )
            },
            self.busy() ==> call_ensures(
                AsyncMutex::<Shared<T, CAPACITY>>::try_lock,
                (&self.lock(),),
                None,
            ),
            self.began_as(s) ==> exists|shared: Shared<T, CAPACITY>|
                shared@ == s && #[trigger] call_ensures(
                    AsyncMutex::<Shared<T, CAPACITY>>::new,
                    (shared,),
                    self.lock(),
                ),
    {
        assert(self.lock() == *self.inner);
    }

    /// A channel that was reached was reached through a guard of its lock, by a call of
    /// `deref_mut`; and a guard that was given back was handed to [`unlock`].
    pub proof fn what_was_reached(
        self,
        guard: MutexGuard<'_, Shared<T, CAPACITY>>,
        access: &mut MutexGuard<'_, Shared<T, CAPACITY>>,
        shared: &mut Shared<T, CAPACITY>,
    )
        ensures
            self.reaches(shared) ==> exists|g: &mut MutexGuard<'_, Shared<T, CAPACITY>>|
                self.locked_by(*g) && #[trigger] call_ensures(
                    <MutexGuard<'_, Shared<T, CAPACITY>> as core::ops::DerefMut>::deref_mut,
                    (g,),
                    shared,
                ),
            gives(access, shared) ==> call_ensures(
                <MutexGuard<'_, Shared<T, CAPACITY>> as core::ops::DerefMut>::deref_mut,
                (access,),
                shared,
            ),
            unlocked(guard) ==> call_ensures(unlock::<Shared<T, CAPACITY>>, (guard,), ()),
    {
    }

    /// What is reached through a guard of the channel is the channel.
    pub broadcast proof fn lemma_reaches(
        self,
        guard: MutexGuard<'_, Shared<T, CAPACITY>>,
        shared: &mut Shared<T, CAPACITY>,
    )
        requires
            #[trigger] self.locked_by(guard),
            #[trigger] reaches(guard, shared),
        ensures
            self.reaches(shared),
    {
    }

    /// The lock of a new channel with one sender and one receiver.
    pub fn new() -> (internal: Internal<T, CAPACITY>)
        ensures
            internal.began_as(ChannelState::empty(1, 1, 2)),
    {
        let shared = Shared::new();
        let ghost first = shared;
        let mutex = AsyncMutex::new(shared);
        let internal = Internal { inner: Arc::new(mutex) };
        assert(call_ensures(AsyncMutex::<Shared<T, CAPACITY>>::new, (first,), *internal.inner));
        internal
    }

    /// A second reference to the same lock.
    pub fn share(&self) -> (same: Internal<T, CAPACITY>)
        ensures
            same == *self,
    {
        Internal { inner: self.inner.clone() }
    }

    /// The lock itself, to be waited for by a task.
    pub fn mutex(&self) -> (mutex: &AsyncMutex<Shared<T, CAPACITY>>)
        ensures
            *mutex == self.lock(),
    {
        &*self.inner
    }

    /// Locks the channel and blocks the thread until it can.
    pub fn lock_sync(&self) -> (guard: MutexGuard<'_, Shared<T, CAPACITY>>)
        ensures
            self.locked_by(guard),
    {
        self.inner.lock_sync()
    }

    /// Locks the channel if nobody else holds the lock.
    pub fn try_lock(&self) -> (guard: Option<MutexGuard<'_, Shared<T, CAPACITY>>>)
        ensures
            match guard {
                Some(guard) => self.locked_by(guard),
                None => self.busy(),
            },
    {
        self.inner.try_lock()
    }
}

} // verus!
