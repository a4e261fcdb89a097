//! The handles of a channel for threads that block.
use vstd::prelude::*;
use xutex::MutexGuard;
use core::task::Waker;
use crate::channel::{Receiver, ReceiverRef, Sender, SenderRef};
use crate::error::{CloseError, ReceiveError, ReceiveErrorTimeout, SendError};
use crate::locked::{self, Receiving, Sending};
use crate::shared::{Internal, Shared};
use crate::signal::{Signal, SignalPoll};
use crate::state::ChannelState;

verus! {

broadcast use crate::shared::Internal::lemma_reaches;

/// The sending side of a channel, for threads that block.
///
/// A sender counts as alive until it is released.
#[verifier::reject_recursive_types(T)]
#[verifier::reject_recursive_types(CAPACITY)]
pub struct SyncSender<T, const CAPACITY: usize> {
    internal: Internal<T, CAPACITY>,
}

impl<T, const CAPACITY: usize> SyncSender<T, CAPACITY> {
    /// The channel of the handle.
    pub closed spec fn channel(&self) -> Internal<T, CAPACITY> {
        self.internal
    }

    /// The channel of the handle.
    pub(crate) fn internal(&self) -> (internal: &Internal<T, CAPACITY>)
        ensures
            *internal == self.channel(),
    {
        &self.internal
    }

    /// A handle of the channel, which must count it.
    pub(crate) fn new(internal: Internal<T, CAPACITY>) -> (handle: Self)
        ensures
            handle.channel() == internal,
    {
        SyncSender { internal }
    }

    /// Count of values that are buffered at this moment.
    pub fn len(&self) -> (len: usize)
        ensures
            len <= CAPACITY,
            exists|
                shared: &mut Shared<T, CAPACITY>,
                access: &mut MutexGuard<'_, Shared<T, CAPACITY>>,
            |
                {
                    &&& self.channel().reaches(shared)
                    &&& #[trigger] crate::shared::gives(access, shared)
                    &&& self.channel().locked_by(*access)
                    &&& crate::shared::unlocked(*final(access))
                    &&& final(shared)@ == shared@
                    &&& len == shared@.queue.len()
                },
    {
        locked::len(self.internal().lock_sync())
    }

    /// Whether no value is buffered at this moment.
    pub fn is_empty(&self) -> (empty: bool)
        ensures
            CAPACITY == 0 ==> empty,
            exists|
                shared: &mut Shared<T, CAPACITY>,
                access: &mut MutexGuard<'_, Shared<T, CAPACITY>>,
            |
                {
                    &&& self.channel().reaches(shared)
                    &&& #[trigger] crate::shared::gives(access, shared)
                    &&& self.channel().locked_by(*access)
                    &&& crate::shared::unlocked(*final(access))
                    &&& final(shared)@ == shared@
                    &&& empty == (shared@.queue.len() == 0)
                },
    {
        self.len() == 0
    }

    /// Whether the buffer is full at this moment; without a buffer it always is.
    pub fn is_full(&self) -> (full: bool)
        ensures
            CAPACITY == 0 ==> full,
            CAPACITY == 0 || exists|
                shared: &mut Shared<T, CAPACITY>,
                access: &mut MutexGuard<'_, Shared<T, CAPACITY>>,
            |
                {
                    &&& self.channel().reaches(shared)
                    &&& #[trigger] crate::shared::gives(access, shared)
                    &&& self.channel().locked_by(*access)
                    &&& crate::shared::unlocked(*final(access))
                    &&& final(shared)@ == shared@
                    &&& full == (shared@.queue.len() == CAPACITY)
                },
    {
        if CAPACITY == 0 {
            return true;
        }
        locked::is_full(self.internal().lock_sync())
    }

    /// How many values the channel can buffer.
    pub fn capacity(&self) -> (capacity: usize)
        ensures
            capacity == CAPACITY,
    {
        CAPACITY
    }

    /// Count of receivers that are alive at this moment.
    pub fn receiver_count(&self) -> (count: usize)
        ensures
            exists|
                shared: &mut Shared<T, CAPACITY>,
                access: &mut MutexGuard<'_, Shared<T, CAPACITY>>,
            |
                {
                    &&& self.channel().reaches(shared)
                    &&& #[trigger] crate::shared::gives(access, shared)
                    &&& self.channel().locked_by(*access)
                    &&& crate::shared::unlocked(*final(access))
                    &&& final(shared)@ == shared@
                    &&& count == shared@.recv_count
                },
    {
        locked::receiver_count(self.internal().lock_sync())
    }

    /// Count of senders that are alive at this moment.
    pub fn sender_count(&self) -> (count: usize)
        ensures
            exists|
                shared: &mut Shared<T, CAPACITY>,
                access: &mut MutexGuard<'_, Shared<T, CAPACITY>>,
            |
                {
                    &&& self.channel().reaches(shared)
                    &&& #[trigger] crate::shared::gives(access, shared)
                    &&& self.channel().locked_by(*access)
                    &&& crate::shared::unlocked(*final(access))
                    &&& final(shared)@ == shared@
                    &&& count == shared@.send_count
                },
    {
        locked::sender_count(self.internal().lock_sync())
    }

    /// Closes the channel on both sides and releases all that wait. Fails if it
    /// was closed before.
    pub fn close(&self) -> (result: Result<(), CloseError>)
        ensures
            exists|
                shared: &mut Shared<T, CAPACITY>,
                access: &mut MutexGuard<'_, Shared<T, CAPACITY>>,
            |
                {
                    &&& self.channel().reaches(shared)
                    &&& #[trigger] crate::shared::gives(access, shared)
                    &&& self.channel().locked_by(*access)
                    &&& crate::shared::unlocked(*final(access))
                    &&& if shared@.closed() {
                        &&& result == Err::<(), CloseError>(CloseError())
                        &&& final(shared)@ == shared@
                    } else {
                        &&& result == Ok::<(), CloseError>(())
                        &&& final(shared)@ == shared@.after_close()
                        &&& crate::waker::all_woken(shared@.tasks())
                    }
                },
    {
        locked::close(self.internal().lock_sync())
    }

    /// Whether the channel is closed on both sides.
    pub fn is_closed(&self) -> (closed: bool)
        ensures
            exists|
                shared: &mut Shared<T, CAPACITY>,
                access: &mut MutexGuard<'_, Shared<T, CAPACITY>>,
            |
                {
                    &&& self.channel().reaches(shared)
                    &&& #[trigger] crate::shared::gives(access, shared)
                    &&& self.channel().locked_by(*access)
                    &&& crate::shared::unlocked(*final(access))
                    &&& final(shared)@ == shared@
                    &&& closed == shared@.closed()
                },
    {
        locked::is_closed(self.internal().lock_sync())
    }

    /// Sends `value`, and blocks the thread while it has to wait.
    ///
    /// The value comes back if there is no receiver left, or if the channel gives
    /// up on this sender while it waits.
    pub fn send(&self, value: T) -> (sent: Result<(), SendError<T>>)
        ensures
            exists|
                shared: &mut Shared<T, CAPACITY>,
                access: &mut MutexGuard<'_, Shared<T, CAPACITY>>,
            |
                {
                    &&& self.channel().reaches(shared)
                    &&& #[trigger] crate::shared::gives(access, shared)
                    &&& self.channel().locked_by(*access)
                    &&& crate::shared::unlocked(*final(access))
                    &&& shared@.wf(CAPACITY) && shared@.orderly(CAPACITY)
                    &&& if shared@.sends_at_once(CAPACITY) {
                        &&& (final(shared)@, sent) == (
                            shared@.try_send(CAPACITY, value).0,
                            shared@.try_send(CAPACITY, value).1,
                        )
                        &&& crate::waker::one_woken(shared@.try_send(CAPACITY, value).2)
                    } else {
                        exists|
                            id: usize,
                            later: &mut Shared<T, CAPACITY>,
                            turn: &mut MutexGuard<'_, Shared<T, CAPACITY>>,
                            waker: Waker,
                        |
                            {
                                &&& !shared@.signals.dom().contains(id)
                                &&& final(shared)@ == shared@.for_senders().joined(
                                    id,
                                    Signal::spec_send(value),
                                )
                                &&& self.channel().reaches(later)
                                &&& #[trigger] crate::shared::gives(turn, later)
                                &&& self.channel().locked_by(*turn)
                                &&& crate::shared::unlocked(*final(turn))
                                &&& later@.wf(CAPACITY) && later@.orderly(CAPACITY)
                                &&& (final(later)@, SignalPoll::Ready(sent))
                                    == #[trigger] later@.poll_send(id, waker)
                            }
                    }
                },
    {
        match locked::send(self.internal(), self.internal().lock_sync(), value) {
            Sending::Done(sent) => sent,
            Sending::Wait(signal) => signal.wait(),
        }
    }

    /// Sends `data` unless that would have to wait for a receiver.
    pub fn try_send(&self, data: T) -> (sent: Result<(), SendError<T>>)
        ensures
            sent matches Err(SendError(back)) ==> back == data,
            exists|
                shared: &mut Shared<T, CAPACITY>,
                access: &mut MutexGuard<'_, Shared<T, CAPACITY>>,
            |
                {
                    &&& self.channel().reaches(shared)
                    &&& #[trigger] crate::shared::gives(access, shared)
                    &&& self.channel().locked_by(*access)
                    &&& crate::shared::unlocked(*final(access))
                    &&& shared@.wf(CAPACITY) && shared@.orderly(CAPACITY)
                    &&& (final(shared)@, sent) == (
                        shared@.try_send(CAPACITY, data).0,
                        shared@.try_send(CAPACITY, data).1,
                    )
                    &&& crate::waker::one_woken(shared@.try_send(CAPACITY, data).2)
                },
    {
        locked::try_send(self.internal().lock_sync(), data)
    }

    /// Sends `data` without waiting, neither for a receiver nor for the lock.
    pub fn try_send_realtime(&self, data: T) -> (sent: Result<(), SendError<T>>)
        ensures
            sent matches Err(SendError(back)) ==> back == data,
            (self.channel().busy() && sent is Err) || exists|
                shared: &mut Shared<T, CAPACITY>,
                access: &mut MutexGuard<'_, Shared<T, CAPACITY>>,
            |
                {
                    &&& self.channel().reaches(shared)
                    &&& #[trigger] crate::shared::gives(access, shared)
                    &&& self.channel().locked_by(*access)
                    &&& crate::shared::unlocked(*final(access))
                    &&& shared@.wf(CAPACITY) && shared@.orderly(CAPACITY)
                    &&& (final(shared)@, sent) == (
                        shared@.try_send(CAPACITY, data).0,
                        shared@.try_send(CAPACITY, data).1,
                    )
                    &&& crate::waker::one_woken(shared@.try_send(CAPACITY, data).2)
                },
    {
        if let Some(guard) = self.internal().try_lock() {
            return locked::try_send(guard, data);
        }
        Err(SendError(data))
    }

    /// Whether no receiver is left at this moment.
    pub fn is_disconnected(&self) -> (disconnected: bool)
        ensures
            exists|
                shared: &mut Shared<T, CAPACITY>,
                access: &mut MutexGuard<'_, Shared<T, CAPACITY>>,
            |
                {
                    &&& self.channel().reaches(shared)
                    &&& #[trigger] crate::shared::gives(access, shared)
                    &&& self.channel().locked_by(*access)
                    &&& crate::shared::unlocked(*final(access))
                    &&& final(shared)@ == shared@
                    &&& disconnected == (shared@.recv_count == 0)
                },
    {
        locked::receiver_count(self.internal().lock_sync()) == 0
    }

    /// The same sender for tasks, on loan.
    pub fn as_async(&self) -> (sender: SenderRef<'_, T, CAPACITY>)
        ensures
            sender.channel() == self.channel(),
    {
        SenderRef::new(self)
    }

    /// Turns the sender into one for tasks.
    pub fn to_async(self) -> (sender: Sender<T, CAPACITY>)
        ensures
            sender.channel() == self.channel(),
    {
        Sender::new(self)
    }

    /// One more sender of the channel, unless there are too many to be counted.
    pub fn try_clone(&self) -> (clone: Option<Self>)
        ensures
            clone matches Some(sender) ==> sender.channel() == self.channel(),
            exists|
                shared: &mut Shared<T, CAPACITY>,
                access: &mut MutexGuard<'_, Shared<T, CAPACITY>>,
            |
                {
                    &&& self.channel().reaches(shared)
                    &&& #[trigger] crate::shared::gives(access, shared)
                    &&& self.channel().locked_by(*access)
                    &&& crate::shared::unlocked(*final(access))
                    &&& clone is Some == shared@.countable()
                    &&& final(shared)@ == (if clone is Some {
                        shared@.after_inc(true)
                    } else {
                        shared@
                    })
                },
    {
        if locked::attach(self.internal().lock_sync(), true) {
            Some(SyncSender { internal: self.internal.share() })
        } else {
            None
        }
    }

    /// Ends the life of the sender. When it was the last one, those that wait are
    /// released. Returns whether it was the last handle of the channel.
    pub fn release(self) -> (last: bool)
        ensures
            exists|
                shared: &mut Shared<T, CAPACITY>,
                access: &mut MutexGuard<'_, Shared<T, CAPACITY>>,
            |
                {
                    &&& self.channel().reaches(shared)
                    &&& #[trigger] crate::shared::gives(access, shared)
                    &&& self.channel().locked_by(*access)
                    &&& crate::shared::unlocked(*final(access))
                    &&& last == (shared@.ref_count == 1)
                    &&& final(shared)@ == (if shared@.ref_count == 0 {
                        shared@
                    } else {
                        shared@.after_dec(true)
                    })
                    &&& shared@.ref_count > 0 && shared@.last_of_side(true)
                        ==> crate::waker::all_woken(shared@.tasks())
                },
    {
        locked::detach(self.internal().lock_sync(), true)
    }
}

/// The receiving side of a channel, for threads that block.
///
/// A receiver counts as alive until it is released.
#[verifier::reject_recursive_types(T)]
#[verifier::reject_recursive_types(CAPACITY)]
pub struct SyncReceiver<T, const CAPACITY: usize> {
    internal: Internal<T, CAPACITY>,
}

impl<T, const CAPACITY: usize> SyncReceiver<T, CAPACITY> {
    /// The channel of the handle.
    pub closed spec fn channel(&self) -> Internal<T, CAPACITY> {
        self.internal
    }

    /// The channel of the handle.
    pub(crate) fn internal(&self) -> (internal: &Internal<T, CAPACITY>)
        ensures
            *internal == self.channel(),
    {
        &self.internal
    }

    /// A handle of the channel, which must count it.
    pub(crate) fn new(internal: Internal<T, CAPACITY>) -> (handle: Self)
        ensures
            handle.channel() == internal,
    {
        SyncReceiver { internal }
    }

    /// Count of values that are buffered at this moment.
    pub fn len(&self) -> (len: usize)
        ensures
            len <= CAPACITY,
            exists|
                shared: &mut Shared<T, CAPACITY>,
                access: &mut MutexGuard<'_, Shared<T, CAPACITY>>,
            |
                {
                    &&& self.channel().reaches(shared)
                    &&& #[trigger] crate::shared::gives(access, shared)
                    &&& self.channel().locked_by(*access)
                    &&& crate::shared::unlocked(*final(access))
                    &&& final(shared)@ == shared@
                    &&& len == shared@.queue.len()
                },
    {
        locked::len(self.internal().lock_sync())
    }

    /// Whether no value is buffered at this moment.
    pub fn is_empty(&self) -> (empty: bool)
        ensures
            CAPACITY == 0 ==> empty,
            exists|
                shared: &mut Shared<T, CAPACITY>,
                access: &mut MutexGuard<'_, Shared<T, CAPACITY>>,
            |
                {
                    &&& self.channel().reaches(shared)
                    &&& #[trigger] crate::shared::gives(access, shared)
                    &&& self.channel().locked_by(*access)
                    &&& crate::shared::unlocked(*final(access))
                    &&& final(shared)@ == shared@
                    &&& empty == (shared@.queue.len() == 0)
                },
    {
        self.len() == 0
    }

    /// Whether the buffer is full at this moment; without a buffer it always is.
    pub fn is_full(&self) -> (full: bool)
        ensures
            CAPACITY == 0 ==> full,
            CAPACITY == 0 || exists|
                shared: &mut Shared<T, CAPACITY>,
                access: &mut MutexGuard<'_, Shared<T, CAPACITY>>,
            |
                {
                    &&& self.channel().reaches(shared)
                    &&& #[trigger] crate::shared::gives(access, shared)
                    &&& self.channel().locked_by(*access)
                    &&& crate::shared::unlocked(*final(access))
                    &&& final(shared)@ == shared@
                    &&& full == (shared@.queue.len() == CAPACITY)
                },
    {
        if CAPACITY == 0 {
            return true;
        }
        locked::is_full(self.internal().lock_sync())
    }

    /// How many values the channel can buffer.
    pub fn capacity(&self) -> (capacity: usize)
        ensures
            capacity == CAPACITY,
    {
        CAPACITY
    }

    /// Count of receivers that are alive at this moment.
    pub fn receiver_count(&self) -> (count: usize)
        ensures
            exists|
                shared: &mut Shared<T, CAPACITY>,
                access: &mut MutexGuard<'_, Shared<T, CAPACITY>>,
            |
                {
                    &&& self.channel().reaches(shared)
                    &&& #[trigger] crate::shared::gives(access, shared)
                    &&& self.channel().locked_by(*access)
                    &&& crate::shared::unlocked(*final(access))
                    &&& final(shared)@ == shared@
                    &&& count == shared@.recv_count
                },
    {
        locked::receiver_count(self.internal().lock_sync())
    }

    /// Count of senders that are alive at this moment.
    pub fn sender_count(&self) -> (count: usize)
        ensures
            exists|
                shared: &mut Shared<T, CAPACITY>,
                access: &mut MutexGuard<'_, Shared<T, CAPACITY>>,
            |
                {
                    &&& self.channel().reaches(shared)
                    &&& #[trigger] crate::shared::gives(access, shared)
                    &&& self.channel().locked_by(*access)
                    &&& crate::shared::unlocked(*final(access))
                    &&& final(shared)@ == shared@
                    &&& count == shared@.send_count
                },
    {
        locked::sender_count(self.internal().lock_sync())
    }

    /// Closes the channel on both sides and releases all that wait. Fails if it
    /// was closed before.
    pub fn close(&self) -> (result: Result<(), CloseError>)
        ensures
            exists|
                shared: &mut Shared<T, CAPACITY>,
                access: &mut MutexGuard<'_, Shared<T, CAPACITY>>,
            |
                {
                    &&& self.channel().reaches(shared)
                    &&& #[trigger] crate::shared::gives(access, shared)
                    &&& self.channel().locked_by(*access)
                    &&& crate::shared::unlocked(*final(access))
                    &&& if shared@.closed() {
                        &&& result == Err::<(), CloseError>(CloseError())
                        &&& final(shared)@ == shared@
                    } else {
                        &&& result == Ok::<(), CloseError>(())
                        &&& final(shared)@ == shared@.after_close()
                        &&& crate::waker::all_woken(shared@.tasks())
                    }
                },
    {
        locked::close(self.internal().lock_sync())
    }

    /// Whether the channel is closed on both sides.
    pub fn is_closed(&self) -> (closed: bool)
        ensures
            exists|
                shared: &mut Shared<T, CAPACITY>,
                access: &mut MutexGuard<'_, Shared<T, CAPACITY>>,
            |
                {
                    &&& self.channel().reaches(shared)
                    &&& #[trigger] crate::shared::gives(access, shared)
                    &&& self.channel().locked_by(*access)
                    &&& crate::shared::unlocked(*final(access))
                    &&& final(shared)@ == shared@
                    &&& closed == shared@.closed()
                },
    {
        locked::is_closed(self.internal().lock_sync())
    }

    /// Receives the oldest value, and blocks the thread while there is none.
    ///
    /// Fails if no sender is left and no value either, or if the channel gives up
    /// on this receiver while it waits.
    pub fn recv(&self) -> (received: Result<T, ReceiveError>)
        ensures
            exists|
                shared: &mut Shared<T, CAPACITY>,
                access: &mut MutexGuard<'_, Shared<T, CAPACITY>>,
            |
                {
                    &&& self.channel().reaches(shared)
                    &&& #[trigger] crate::shared::gives(access, shared)
                    &&& self.channel().locked_by(*access)
                    &&& crate::shared::unlocked(*final(access))
                    &&& shared@.wf(CAPACITY) && shared@.orderly(CAPACITY)
                    &&& if shared@.terminated() {
                        &&& received == Err::<T, ReceiveError>(ReceiveError())
                        &&& final(shared)@ == shared@
                    } else if shared@.has_value() {
                        &&& received is Ok
                        &&& (final(shared)@, received->Ok_0) == (
                            shared@.received().0,
                            shared@.received().1,
                        )
                        &&& crate::waker::one_woken(shared@.received().2)
                    } else {
                        exists|
                            id: usize,
                            later: &mut Shared<T, CAPACITY>,
                            turn: &mut MutexGuard<'_, Shared<T, CAPACITY>>,
                            waker: Waker,
                        |
                            {
                                &&& !shared@.signals.dom().contains(id)
                                &&& final(shared)@ == shared@.for_receivers().joined(
                                    id,
                                    Signal::<T>::spec_recv(),
                                )
                                &&& self.channel().reaches(later)
                                &&& #[trigger] crate::shared::gives(turn, later)
                                &&& self.channel().locked_by(*turn)
                                &&& crate::shared::unlocked(*final(turn))
                                &&& later@.wf(CAPACITY) && later@.orderly(CAPACITY)
                                &&& (final(later)@, SignalPoll::Ready(received))
                                    == #[trigger] later@.poll_recv(id, waker)
                            }
                    }
                },
    {
        match locked::recv(self.internal(), self.internal().lock_sync()) {
            Receiving::Done(received) => received,
            Receiving::Wait(signal) => signal.wait(),
        }
    }

    /// Receives a value unless that would have to wait for a sender.
    pub fn try_recv(&self) -> (received: Result<T, ReceiveErrorTimeout>)
        ensures
            exists|
                shared: &mut Shared<T, CAPACITY>,
                access: &mut MutexGuard<'_, Shared<T, CAPACITY>>,
            |
                {
                    &&& self.channel().reaches(shared)
                    &&& #[trigger] crate::shared::gives(access, shared)
                    &&& self.channel().locked_by(*access)
                    &&& crate::shared::unlocked(*final(access))
                    &&& shared@.wf(CAPACITY) && shared@.orderly(CAPACITY)
                    &&& (final(shared)@, received) == (shared@.try_recv().0, shared@.try_recv().1)
                    &&& crate::waker::one_woken(shared@.try_recv().2)
                },
    {
        locked::try_recv(self.internal().lock_sync())
    }

    /// Receives a value without waiting, neither for a sender nor for the lock.
    pub fn try_recv_realtime(&self) -> (received: Result<T, ReceiveErrorTimeout>)
        ensures
            (self.channel().busy() && received == Err::<T, ReceiveErrorTimeout>(
                ReceiveErrorTimeout::Timeout,
            )) || exists|
                shared: &mut Shared<T, CAPACITY>,
                access: &mut MutexGuard<'_, Shared<T, CAPACITY>>,
            |
                {
                    &&& self.channel().reaches(shared)
                    &&& #[trigger] crate::shared::gives(access, shared)
                    &&& self.channel().locked_by(*access)
                    &&& crate::shared::unlocked(*final(access))
                    &&& shared@.wf(CAPACITY) && shared@.orderly(CAPACITY)
                    &&& (final(shared)@, received) == (shared@.try_recv().0, shared@.try_recv().1)
                    &&& crate::waker::one_woken(shared@.try_recv().2)
                },
    {
        if let Some(guard) = self.internal().try_lock() {
            return locked::try_recv(guard);
        }
        Err(ReceiveErrorTimeout::Timeout)
    }

    /// Whether no sender is left at this moment.
    pub fn is_disconnected(&self) -> (disconnected: bool)
        ensures
            exists|
                shared: &mut Shared<T, CAPACITY>,
                access: &mut MutexGuard<'_, Shared<T, CAPACITY>>,
            |
                {
                    &&& self.channel().reaches(shared)
                    &&& #[trigger] crate::shared::gives(access, shared)
                    &&& self.channel().locked_by(*access)
                    &&& crate::shared::unlocked(*final(access))
                    &&& final(shared)@ == shared@
                    &&& disconnected == (shared@.send_count == 0)
                },
    {
        locked::sender_count(self.internal().lock_sync()) == 0
    }

    /// The same receiver for tasks, on loan.
    pub fn as_async(&self) -> (receiver: ReceiverRef<'_, T, CAPACITY>)
        ensures
            receiver.channel() == self.channel(),
    {
        ReceiverRef::new(self)
    }

    /// Turns the receiver into one for tasks.
    pub fn to_async(self) -> (receiver: Receiver<T, CAPACITY>)
        ensures
            receiver.channel() == self.channel(),
    {
        Receiver::new(self)
    }

    /// One more receiver of the channel, unless there are too many to be counted.
    pub fn try_clone(&self) -> (clone: Option<Self>)
        ensures
            clone matches Some(receiver) ==> receiver.channel() == self.channel(),
            exists|
                shared: &mut Shared<T, CAPACITY>,
                access: &mut MutexGuard<'_, Shared<T, CAPACITY>>,
            |
                {
                    &&& self.channel().reaches(shared)
                    &&& #[trigger] crate::shared::gives(access, shared)
                    &&& self.channel().locked_by(*access)
                    &&& crate::shared::unlocked(*final(access))
                    &&& clone is Some == shared@.countable()
                    &&& final(shared)@ == (if clone is Some {
                        shared@.after_inc(false)
                    } else {
                        shared@
                    })
                },
    {
        if locked::attach(self.internal().lock_sync(), false) {
            Some(SyncReceiver { internal: self.internal.share() })
        } else {
            None
        }
    }

    /// Ends the life of the receiver. When it was the last one, those that wait
    /// are released and the buffered values dropped. Returns whether it was the
    /// last handle of the channel.
    pub fn release(self) -> (last: bool)
        ensures
            exists|
                shared: &mut Shared<T, CAPACITY>,
                access: &mut MutexGuard<'_, Shared<T, CAPACITY>>,
            |
                {
                    &&& self.channel().reaches(shared)
                    &&& #[trigger] crate::shared::gives(access, shared)
                    &&& self.channel().locked_by(*access)
                    &&& crate::shared::unlocked(*final(access))
                    &&& last == (shared@.ref_count == 1)
                    &&& final(shared)@ == (if shared@.ref_count == 0 {
                        shared@
                    } else {
                        shared@.after_dec(false)
                    })
                    &&& shared@.ref_count > 0 && shared@.last_of_side(false)
                        ==> crate::waker::all_woken(shared@.tasks())
                },
    {
        locked::detach(self.internal().lock_sync(), false)
    }
}

/// A channel that buffers up to `CAPACITY` values, for threads that block.
pub fn bounded_sync<T, const CAPACITY: usize>() -> (handles: (
    SyncSender<T, CAPACITY>,
    SyncReceiver<T, CAPACITY>,
))
    ensures
        handles.0.channel() == handles.1.channel(),
        handles.0.channel().began_as(ChannelState::empty(1, 1, 2)),
{
    let internal = Internal::new();
    (SyncSender { internal: internal.share() }, SyncReceiver { internal })
}

/// A channel without a buffer, for threads that block.
pub fn zero_sync<T>() -> (handles: (SyncSender<T, 0>, SyncReceiver<T, 0>))
    ensures
        handles.0.channel() == handles.1.channel(),
        handles.0.channel().began_as(ChannelState::empty(1, 1, 2)),
{
    bounded_sync::<T, 0>()
}

} // verus!
