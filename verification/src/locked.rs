//! The operations on a channel whose lock is held.
//!
//! Each takes the guard, does one operation on the channel behind it, unlocks the
//! channel and only then wakes the tasks that the operation has served. The
//! contracts speak of `shared`, the channel that was reached through the guard:
//! what it was before the operation, and what it is after. In what state it is
//! found depends on all that held the lock before, but it is always orderly. The
//! channel is unlocked as the one operation has left it: `access` is the borrow of
//! the guard for that operation, and the guard is given back as that borrow left it.
use vstd::prelude::*;
use std::collections::VecDeque;
use core::task::Waker;
use xutex::MutexGuard;
use crate::error::{CloseError, ReceiveError, ReceiveErrorTimeout, SendError};
use crate::internal::{RecvStep, SendStep};
use crate::shared::{unlock, Internal, Shared};
use crate::signal::{Signal, SignalKind, SignalPoll};
use crate::waiting::{ReceiveSignal, SendSignal};

verus! {

/// What is behind the lock.
fn guarded<'b, 'a, T>(guard: &'b mut MutexGuard<'a, T>) -> (data: &'b mut T)
    ensures
        exists|access: &mut MutexGuard<'a, T>|
            {
                &&& #[trigger] crate::shared::gives(access, data)
                &&& *access == *old(guard)
                &&& *final(access) == *final(guard)
            },
{
    core::ops::DerefMut::deref_mut(guard)
}

/// Wakes the tasks in this order.
fn wake_all(wakers: VecDeque<Waker>)
    ensures
        crate::waker::all_woken(wakers@),
{
    let ghost tasks = wakers@;
    let mut wakers = wakers;
    let ghost mut k: int = 0;
    while wakers.len() > 0
        invariant
            0 <= k <= tasks.len(),
            wakers@ == tasks.skip(k),
            forall|i: int| 0 <= i < k ==> crate::waker::woken(#[trigger] tasks[i]),
        decreases wakers.len(),
    {
        if let Some(waker) = wakers.pop_front() {
            assert(waker == tasks[k]);
            waker.wake();
            proof {
                k = k + 1;
            }
        }
    }
}

/// Wakes the task, if there is one.
fn wake_one(waker: Option<Waker>)
    ensures
        crate::waker::one_woken(waker),
{
    if let Some(waker) = waker {
        waker.wake();
    }
}

/// The outcome of a send that may wait.
#[verifier::reject_recursive_types(T)]
#[verifier::reject_recursive_types(CAPACITY)]
pub enum Sending<T, const CAPACITY: usize> {
    /// The send is over.
    Done(Result<(), SendError<T>>),
    /// The send waits.
    Wait(SendSignal<T, CAPACITY>),
}

/// The outcome of a receive that may wait.
#[verifier::reject_recursive_types(T)]
#[verifier::reject_recursive_types(CAPACITY)]
pub enum Receiving<T, const CAPACITY: usize> {
    /// The receive is over.
    Done(Result<T, ReceiveError>),
    /// The receive waits.
    Wait(ReceiveSignal<T, CAPACITY>),
}

/// Count of buffered values, never more than the capacity.
pub fn len<T, const CAPACITY: usize>(
    guard: MutexGuard<'_, Shared<T, CAPACITY>>,
) -> (len: usize)
    ensures
        len <= CAPACITY,
        exists|
            shared: &mut Shared<T, CAPACITY>,
            access: &mut MutexGuard<'_, Shared<T, CAPACITY>>,
        |
            {
                &&& crate::shared::reaches(guard, shared)
                &&& #[trigger] crate::shared::gives(access, shared)
                &&& *access == guard
                &&& crate::shared::unlocked(*final(access))
                &&& final(shared)@ == shared@
                &&& len == shared@.queue.len()
            },
{
    let mut guard = guard;
    let found = guarded(&mut guard).len();
    unlock(guard);
    found
}

/// Whether no value is buffered.
pub fn is_empty<T, const CAPACITY: usize>(
    guard: MutexGuard<'_, Shared<T, CAPACITY>>,
) -> (empty: bool)
    ensures
        CAPACITY == 0 ==> empty,
        exists|
            shared: &mut Shared<T, CAPACITY>,
            access: &mut MutexGuard<'_, Shared<T, CAPACITY>>,
        |
            {
                &&& crate::shared::reaches(guard, shared)
                &&& #[trigger] crate::shared::gives(access, shared)
                &&& *access == guard
                &&& crate::shared::unlocked(*final(access))
                &&& final(shared)@ == shared@
                &&& empty == (shared@.queue.len() == 0)
            },
{
    let mut guard = guard;
    let found = guarded(&mut guard).is_empty();
    unlock(guard);
    found
}

/// Whether the buffer is full; without a buffer it always is.
pub fn is_full<T, const CAPACITY: usize>(
    guard: MutexGuard<'_, Shared<T, CAPACITY>>,
) -> (full: bool)
    ensures
        CAPACITY == 0 ==> full,
        exists|
            shared: &mut Shared<T, CAPACITY>,
            access: &mut MutexGuard<'_, Shared<T, CAPACITY>>,
        |
            {
                &&& crate::shared::reaches(guard, shared)
                &&& #[trigger] crate::shared::gives(access, shared)
                &&& *access == guard
                &&& crate::shared::unlocked(*final(access))
                &&& final(shared)@ == shared@
                &&& full == (shared@.queue.len() == CAPACITY)
            },
{
    let mut guard = guard;
    let found = guarded(&mut guard).is_full();
    unlock(guard);
    found
}

/// Count of alive receivers.
pub fn receiver_count<T, const CAPACITY: usize>(
    guard: MutexGuard<'_, Shared<T, CAPACITY>>,
) -> (count: usize)
    ensures
        exists|
            shared: &mut Shared<T, CAPACITY>,
            access: &mut MutexGuard<'_, Shared<T, CAPACITY>>,
        |
            {
                &&& crate::shared::reaches(guard, shared)
                &&& #[trigger] crate::shared::gives(access, shared)
                &&& *access == guard
                &&& crate::shared::unlocked(*final(access))
                &&& final(shared)@ == shared@
                &&& count == shared@.recv_count
            },
{
    let mut guard = guard;
    let found = guarded(&mut guard).receiver_count();
    unlock(guard);
    found
}

/// Count of alive senders.
pub fn sender_count<T, const CAPACITY: usize>(
    guard: MutexGuard<'_, Shared<T, CAPACITY>>,
) -> (count: usize)
    ensures
        exists|
            shared: &mut Shared<T, CAPACITY>,
            access: &mut MutexGuard<'_, Shared<T, CAPACITY>>,
        |
            {
                &&& crate::shared::reaches(guard, shared)
                &&& #[trigger] crate::shared::gives(access, shared)
                &&& *access == guard
                &&& crate::shared::unlocked(*final(access))
                &&& final(shared)@ == shared@
                &&& count == shared@.send_count
            },
{
    let mut guard = guard;
    let found = guarded(&mut guard).sender_count();
    unlock(guard);
    found
}

/// Whether the channel is closed on both sides.
pub fn is_closed<T, const CAPACITY: usize>(
    guard: MutexGuard<'_, Shared<T, CAPACITY>>,
) -> (closed: bool)
    ensures
        exists|
            shared: &mut Shared<T, CAPACITY>,
            access: &mut MutexGuard<'_, Shared<T, CAPACITY>>,
        |
            {
                &&& crate::shared::reaches(guard, shared)
                &&& #[trigger] crate::shared::gives(access, shared)
                &&& *access == guard
                &&& crate::shared::unlocked(*final(access))
                &&& final(shared)@ == shared@
                &&& closed == shared@.closed()
            },
{
    let mut guard = guard;
    let found = guarded(&mut guard).is_closed();
    unlock(guard);
    found
}

/// Whether no sender is left and no value is buffered.
pub fn is_terminated<T, const CAPACITY: usize>(
    guard: MutexGuard<'_, Shared<T, CAPACITY>>,
) -> (terminated: bool)
    ensures
        exists|
            shared: &mut Shared<T, CAPACITY>,
            access: &mut MutexGuard<'_, Shared<T, CAPACITY>>,
        |
            {
                &&& crate::shared::reaches(guard, shared)
                &&& #[trigger] crate::shared::gives(access, shared)
                &&& *access == guard
                &&& crate::shared::unlocked(*final(access))
                &&& final(shared)@ == shared@
                &&& terminated == shared@.terminated()
            },
{
    let mut guard = guard;
    let found = guarded(&mut guard).is_terminated();
    unlock(guard);
    found
}

/// Closes the channel on both sides and wakes all that wait. Fails if it was
/// closed before.
pub fn close<T, const CAPACITY: usize>(
    guard: MutexGuard<'_, Shared<T, CAPACITY>>,
) -> (result: Result<(), CloseError>)
    ensures
        exists|
            shared: &mut Shared<T, CAPACITY>,
            access: &mut MutexGuard<'_, Shared<T, CAPACITY>>,
        |
            {
                &&& crate::shared::reaches(guard, shared)
                &&& #[trigger] crate::shared::gives(access, shared)
                &&& *access == guard
                &&& crate::shared::unlocked(*final(access))
                &&& if shared@.closed() {
                    &&& result == Err::<(), CloseError>(CloseError())
                    &&& final(shared)@ == shared@
                } else {
                    &&& result == Ok::<(), CloseError>(())
                    &&& final(shared)@ == shared@.after_close()
                    &&& crate::waker::all_woken(shared@.tasks())
                }
            },
{
    let mut guard = guard;
    let (result, wakers) = guarded(&mut guard).close();
    unlock(guard);
    wake_all(wakers);
    result
}

/// Counts one more handle on the given side. Returns `false`, and counts nothing,
/// if a count has come to the limit of the machine.
pub fn attach<T, const CAPACITY: usize>(
    guard: MutexGuard<'_, Shared<T, CAPACITY>>,
    is_sender: bool,
) -> (counted: bool)
    ensures
        exists|
            shared: &mut Shared<T, CAPACITY>,
            access: &mut MutexGuard<'_, Shared<T, CAPACITY>>,
        |
            {
                &&& crate::shared::reaches(guard, shared)
                &&& #[trigger] crate::shared::gives(access, shared)
                &&& *access == guard
                &&& crate::shared::unlocked(*final(access))
                &&& counted == shared@.countable()
                &&& final(shared)@ == (if counted {
                    shared@.after_inc(is_sender)
                } else {
                    shared@
                })
            },
{
    let mut guard = guard;
    let found = guarded(&mut guard).attach(is_sender);
    unlock(guard);
    found
}

/// Counts one handle less on the given side, and wakes those that wait if it was
/// the last of its side. Returns whether it was the last of all.
pub fn detach<T, const CAPACITY: usize>(
    guard: MutexGuard<'_, Shared<T, CAPACITY>>,
    is_sender: bool,
) -> (last: bool)
    ensures
        exists|
            shared: &mut Shared<T, CAPACITY>,
            access: &mut MutexGuard<'_, Shared<T, CAPACITY>>,
        |
            {
                &&& crate::shared::reaches(guard, shared)
                &&& #[trigger] crate::shared::gives(access, shared)
                &&& *access == guard
                &&& crate::shared::unlocked(*final(access))
                &&& last == (shared@.ref_count == 1)
                &&& final(shared)@ == (if shared@.ref_count == 0 {
                    shared@
                } else {
                    shared@.after_dec(is_sender)
                })
                &&& shared@.ref_count > 0 && shared@.last_of_side(is_sender)
                    ==> crate::waker::all_woken(shared@.tasks())
            },
{
    let mut guard = guard;
    let (last, wakers) = guarded(&mut guard).detach(is_sender);
    unlock(guard);
    wake_all(wakers);
    last
}

/// Sends without waiting.
pub fn try_send<T, const CAPACITY: usize>(
    guard: MutexGuard<'_, Shared<T, CAPACITY>>,
    data: T,
) -> (sent: Result<(), SendError<T>>)
    ensures
        exists|
            shared: &mut Shared<T, CAPACITY>,
            access: &mut MutexGuard<'_, Shared<T, CAPACITY>>,
        |
            {
                &&& crate::shared::reaches(guard, shared)
                &&& #[trigger] crate::shared::gives(access, shared)
                &&& *access == guard
                &&& crate::shared::unlocked(*final(access))
                &&& shared@.wf(CAPACITY) && shared@.orderly(CAPACITY)
                &&& (final(shared)@, sent) == (
                    shared@.try_send(CAPACITY, data).0,
                    shared@.try_send(CAPACITY, data).1,
                )
                &&& crate::waker::one_woken(shared@.try_send(CAPACITY, data).2)
                &&& sent is Err ==> {
                    &&& final(shared)@.queue == shared@.queue
                    &&& final(shared)@.wait_list == shared@.wait_list
                    &&& final(shared)@.signals == shared@.signals
                }
            },
{
    let mut guard = guard;
    let (sent, wake) = guarded(&mut guard).try_send(data);
    unlock(guard);
    wake_one(wake);
    sent
}

/// Receives without waiting.
pub fn try_recv<T, const CAPACITY: usize>(
    guard: MutexGuard<'_, Shared<T, CAPACITY>>,
) -> (received: Result<T, ReceiveErrorTimeout>)
    ensures
        exists|
            shared: &mut Shared<T, CAPACITY>,
            access: &mut MutexGuard<'_, Shared<T, CAPACITY>>,
        |
            {
                &&& crate::shared::reaches(guard, shared)
                &&& #[trigger] crate::shared::gives(access, shared)
                &&& *access == guard
                &&& crate::shared::unlocked(*final(access))
                &&& shared@.wf(CAPACITY) && shared@.orderly(CAPACITY)
                &&& (final(shared)@, received) == (shared@.try_recv().0, shared@.try_recv().1)
                &&& crate::waker::one_woken(shared@.try_recv().2)
            },
{
    let mut guard = guard;
    let (received, wake) = guarded(&mut guard).try_recv();
    unlock(guard);
    wake_one(wake);
    received
}

/// Receives all values of the channel and appends them to `vec`. Returns how many
/// there were.
pub fn drain_into<T, const CAPACITY: usize>(
    guard: MutexGuard<'_, Shared<T, CAPACITY>>,
    vec: &mut Vec<T>,
) -> (drained: Result<usize, ReceiveError>)
    ensures
        exists|
            shared: &mut Shared<T, CAPACITY>,
            access: &mut MutexGuard<'_, Shared<T, CAPACITY>>,
        |
            {
                &&& crate::shared::reaches(guard, shared)
                &&& #[trigger] crate::shared::gives(access, shared)
                &&& *access == guard
                &&& crate::shared::unlocked(*final(access))
                &&& shared@.wf(CAPACITY) && shared@.orderly(CAPACITY)
                &&& if shared@.recv_count == 0 {
                    &&& drained == Err::<usize, ReceiveError>(ReceiveError())
                    &&& final(shared)@ == shared@
                    &&& final(vec)@ == old(vec)@
                } else {
                    &&& drained is Ok
                    &&& drained->Ok_0 == shared@.pending().len()
                    &&& final(shared)@ == shared@.drained()
                    &&& final(vec)@ == old(vec)@ + shared@.pending()
                    &&& !shared@.recv_blocking ==> crate::waker::all_woken(shared@.tasks())
                }
            },
{
    let mut guard = guard;
    let (drained, wakers) = guarded(&mut guard).drain_into(vec);
    unlock(guard);
    wake_all(wakers);
    drained
}

/// Sends, or starts to wait. `internal` is the channel that is locked.
pub fn send<T, const CAPACITY: usize>(
    internal: &Internal<T, CAPACITY>,
    guard: MutexGuard<'_, Shared<T, CAPACITY>>,
    data: T,
) -> (sending: Sending<T, CAPACITY>)
    ensures
        exists|
            shared: &mut Shared<T, CAPACITY>,
            access: &mut MutexGuard<'_, Shared<T, CAPACITY>>,
        |
            {
                &&& crate::shared::reaches(guard, shared)
                &&& #[trigger] crate::shared::gives(access, shared)
                &&& *access == guard
                &&& crate::shared::unlocked(*final(access))
                &&& shared@.wf(CAPACITY) && shared@.orderly(CAPACITY)
                &&& match sending {
                    Sending::Done(sent) => {
                        &&& shared@.sends_at_once(CAPACITY)
                        &&& (final(shared)@, sent) == (
                            shared@.try_send(CAPACITY, data).0,
                            shared@.try_send(CAPACITY, data).1,
                        )
                        &&& crate::waker::one_woken(shared@.try_send(CAPACITY, data).2)
                    },
                    Sending::Wait(signal) => {
                        &&& signal.channel() == *internal
                        &&& !signal.over()
                        &&& !shared@.sends_at_once(CAPACITY)
                        &&& !shared@.signals.dom().contains(signal.id())
                        &&& final(shared)@ == shared@.for_senders().joined(
                            signal.id(),
                            Signal::spec_send(data),
                        )
                    },
                }
            },
{
    let mut guard = guard;
    let step = guarded(&mut guard).send(data);
    unlock(guard);
    match step {
        SendStep::Done { result, wake } => {
            wake_one(wake);
            Sending::Done(result)
        },
        SendStep::Wait { signal } => Sending::Wait(SendSignal::new(internal.share(), signal)),
    }
}

/// Receives, or starts to wait. `internal` is the channel that is locked.
pub fn recv<T, const CAPACITY: usize>(
    internal: &Internal<T, CAPACITY>,
    guard: MutexGuard<'_, Shared<T, CAPACITY>>,
) -> (receiving: Receiving<T, CAPACITY>)
    ensures
        exists|
            shared: &mut Shared<T, CAPACITY>,
            access: &mut MutexGuard<'_, Shared<T, CAPACITY>>,
        |
            {
                &&& crate::shared::reaches(guard, shared)
                &&& #[trigger] crate::shared::gives(access, shared)
                &&& *access == guard
                &&& crate::shared::unlocked(*final(access))
                &&& shared@.wf(CAPACITY) && shared@.orderly(CAPACITY)
                &&& match receiving {
                    Receiving::Done(received) => if shared@.terminated() {
                        &&& received == Err::<T, ReceiveError>(ReceiveError())
                        &&& final(shared)@ == shared@
                    } else {
                        &&& shared@.has_value()
                        &&& received is Ok
                        &&& (final(shared)@, received->Ok_0) == (
                            shared@.received().0,
                            shared@.received().1,
                        )
                        &&& crate::waker::one_woken(shared@.received().2)
                    },
                    Receiving::Wait(signal) => {
                        &&& signal.channel() == *internal
                        &&& !signal.over()
                        &&& !shared@.terminated() && !shared@.has_value()
                        &&& !shared@.signals.dom().contains(signal.id())
                        &&& final(shared)@ == shared@.for_receivers().joined(
                            signal.id(),
                            Signal::<T>::spec_recv(),
                        )
                    },
                }
            },
{
    let mut guard = guard;
    let step = guarded(&mut guard).recv();
    unlock(guard);
    match step {
        RecvStep::Done { result, wake } => {
            wake_one(wake);
            Receiving::Done(result)
        },
        RecvStep::Wait { signal } => Receiving::Wait(ReceiveSignal::new(internal.share(), signal)),
    }
}

/// Polls the signal of a sender. The waker that is left over is dropped when the
/// channel is unlocked.
pub(crate) fn poll_send<T, const CAPACITY: usize>(
    guard: MutexGuard<'_, Shared<T, CAPACITY>>,
    signal: usize,
    waker: Waker,
) -> (poll: SignalPoll<Result<(), SendError<T>>>)
    ensures
        !(poll is Claimed),
        exists|
            shared: &mut Shared<T, CAPACITY>,
            access: &mut MutexGuard<'_, Shared<T, CAPACITY>>,
        |
            {
                &&& crate::shared::reaches(guard, shared)
                &&& #[trigger] crate::shared::gives(access, shared)
                &&& *access == guard
                &&& crate::shared::unlocked(*final(access))
                &&& shared@.wf(CAPACITY) && shared@.orderly(CAPACITY)
                &&& (final(shared)@, poll) == shared@.poll_send(signal, waker)
            },
{
    let mut guard = guard;
    let (poll, _spare) = guarded(&mut guard).poll_send(signal, waker);
    unlock(guard);
    poll
}

/// Polls the signal of a receiver. The waker that is left over is dropped when the
/// channel is unlocked.
pub(crate) fn poll_recv<T, const CAPACITY: usize>(
    guard: MutexGuard<'_, Shared<T, CAPACITY>>,
    signal: usize,
    waker: Waker,
) -> (poll: SignalPoll<Result<T, ReceiveError>>)
    ensures
        !(poll is Claimed),
        exists|
            shared: &mut Shared<T, CAPACITY>,
            access: &mut MutexGuard<'_, Shared<T, CAPACITY>>,
        |
            {
                &&& crate::shared::reaches(guard, shared)
                &&& #[trigger] crate::shared::gives(access, shared)
                &&& *access == guard
                &&& crate::shared::unlocked(*final(access))
                &&& shared@.wf(CAPACITY) && shared@.orderly(CAPACITY)
                &&& (final(shared)@, poll) == shared@.poll_recv(signal, waker)
            },
{
    let mut guard = guard;
    let (poll, _spare) = guarded(&mut guard).poll_recv(signal, waker);
    unlock(guard);
    poll
}

/// `core::mem::forget` takes a value and does not drop it. Nothing that this library
/// can see changes; the proofs only keep that it was called ([`forgotten`]).
pub assume_specification<T>[ core::mem::forget::<T> ](value: T);

/// `core::mem::forget` was called for the value. A proof learns this only where the
/// call is made.
pub open spec fn forgotten<T>(value: T) -> bool {
    call_ensures(core::mem::forget::<T>, (value,), ())
}

/// Gives up a signal of the given kind. When the channel is unlocked, the value of a
/// sender is dropped; a value that was already delivered to a receiver is forgotten.
pub(crate) fn abandon<T, const CAPACITY: usize>(
    guard: MutexGuard<'_, Shared<T, CAPACITY>>,
    signal: usize,
    kind: SignalKind,
)
    ensures
        exists|
            shared: &mut Shared<T, CAPACITY>,
            access: &mut MutexGuard<'_, Shared<T, CAPACITY>>,
        |
            {
                &&& crate::shared::reaches(guard, shared)
                &&& #[trigger] crate::shared::gives(access, shared)
                &&& *access == guard
                &&& crate::shared::unlocked(*final(access))
                &&& final(shared)@ == (if shared@.has_signal(signal, kind) {
                    shared@.abandoned(signal)
                } else {
                    shared@
                })
                &&& kind is Receive && shared@.has_signal(signal, kind)
                    && shared@.signals[signal].data is Some ==> forgotten(
                    shared@.signals[signal].data->0,
                )
            },
{
    let mut guard = guard;
    let gone = guarded(&mut guard).abandon(signal, kind);
    unlock(guard);
    match kind {
        SignalKind::Send => {},
        SignalKind::Receive => {
            if let Some(signal) = gone {
                if let Some(value) = signal.data {
                    core::mem::forget(value);
                }
            }
        },
    }
}

} // verus!
