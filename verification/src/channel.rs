//! The handles of a channel.
use vstd::prelude::*;
use xutex::MutexGuard;
use crate::error::{ReceiveErrorTimeout, SendError};
use crate::shared::{Internal, Shared};
use crate::state::ChannelState;
use crate::sync::{bounded_sync, SyncReceiver, SyncSender};

verus! {

/// The sending side of a channel.
///
/// A sender counts as alive until it is released.
#[verifier::reject_recursive_types(T)]
#[verifier::reject_recursive_types(CAPACITY)]
pub struct Sender<T, const CAPACITY: usize> {
    sync: SyncSender<T, CAPACITY>,
}

impl<T, const CAPACITY: usize> Sender<T, CAPACITY> {
    /// The channel of the sender.
    pub closed spec fn channel(&self) -> Internal<T, CAPACITY> {
        self.sync.channel()
    }

    /// A sender for tasks in place of one for threads that block.
    pub(crate) fn new(sync: SyncSender<T, CAPACITY>) -> (sender: Self)
        ensures
            sender.channel() == sync.channel(),
    {
        Sender { sync }
    }

    /// The channel of the sender.
    pub fn internal(&self) -> (internal: &Internal<T, CAPACITY>)
        ensures
            *internal == self.channel(),
    {
        self.sync.internal()
    }

    /// How many values the channel can buffer.
    pub fn capacity(&self) -> (capacity: usize)
        ensures
            capacity == CAPACITY,
    {
        CAPACITY
    }

    /// Sends `data` without waiting, neither for a receiver nor for the lock.
    pub fn try_send_realtime(&self, data: T) -> (sent: Result<(), SendError<T>>)
        ensures
            sent matches Err(SendError(back)) ==> back == data,
            (self.channel().busy() && sent is Err) || exists|
                shared: &mut Shared<T, CAPACITY>,
                access: &mut MutexGuard<'_, Shared<T, CAPACITY>>,
            |
                {
                    &&& self.channel().reaches(shared)
                    &&& #[trigger] crate::shared::gives(access, shared)
                    &&& self.channel().locked_by(*access)
                    &&& crate::shared::unlocked(*final(access))
                    &&& shared@.wf(CAPACITY) && shared@.orderly(CAPACITY)
                    &&& (final(shared)@, sent) == (
                        shared@.try_send(CAPACITY, data).0,
                        shared@.try_send(CAPACITY, data).1,
                    )
                    &&& crate::waker::one_woken(shared@.try_send(CAPACITY, data).2)
                },
    {
        self.as_sync().try_send_realtime(data)
    }

    /// The same sender for threads that block.
    pub fn as_sync(&self) -> (sync: &SyncSender<T, CAPACITY>)
        ensures
            sync.channel() == self.channel(),
    {
        &self.sync
    }

    /// Turns the sender into one for threads that block.
    pub fn to_sync(self) -> (sync: SyncSender<T, CAPACITY>)
        ensures
            sync.channel() == self.channel(),
    {
        self.sync
    }

    /// One more sender of the channel, unless there are too many to be counted.
    pub fn try_clone(&self) -> (clone: Option<Self>)
        ensures
            clone matches Some(sender) ==> sender.channel() == self.channel(),
            exists|
                shared: &mut Shared<T, CAPACITY>,
                access: &mut MutexGuard<'_, Shared<T, CAPACITY>>,
            |
                {
                    &&& self.channel().reaches(shared)
                    &&& #[trigger] crate::shared::gives(access, shared)
                    &&& self.channel().locked_by(*access)
                    &&& crate::shared::unlocked(*final(access))
                    &&& clone is Some == shared@.countable()
                    &&& final(shared)@ == (if clone is Some {
                        shared@.after_inc(true)
                    } else {
                        shared@
                    })
                },
    {
        match self.as_sync().try_clone() {
            Some(sync) => Some(Sender { sync }),
            None => None,
        }
    }

    /// Ends the life of the sender. When it was the last one, those that wait are
    /// released. Returns whether it was the last handle of the channel.
    pub fn release(self) -> (last: bool)
        ensures
            exists|
                shared: &mut Shared<T, CAPACITY>,
                access: &mut MutexGuard<'_, Shared<T, CAPACITY>>,
            |
                {
                    &&& self.channel().reaches(shared)
                    &&& #[trigger] crate::shared::gives(access, shared)
                    &&& self.channel().locked_by(*access)
                    &&& crate::shared::unlocked(*final(access))
                    &&& last == (shared@.ref_count == 1)
                    &&& final(shared)@ == (if shared@.ref_count == 0 {
                        shared@
                    } else {
                        shared@.after_dec(true)
                    })
                    &&& shared@.ref_count > 0 && shared@.last_of_side(true)
                        ==> crate::waker::all_woken(shared@.tasks())
                },
    {
        self.to_sync().release()
    }
}

/// A sender for tasks that is lent by one for threads. Both are the same sender, which
/// the channel counts once; so it cannot be released through this.
#[verifier::reject_recursive_types(T)]
#[verifier::reject_recursive_types(CAPACITY)]
pub struct SenderRef<'a, T, const CAPACITY: usize> {
    sender: Sender<T, CAPACITY>,
    /// The handle that lends the sender and outlives it.
    owner: &'a SyncSender<T, CAPACITY>,
}

impl<'a, T, const CAPACITY: usize> SenderRef<'a, T, CAPACITY> {
    /// The channel of the sender.
    pub closed spec fn channel(&self) -> Internal<T, CAPACITY> {
        self.sender.channel()
    }

    /// The sender for tasks that is the same as `owner`.
    pub(crate) fn new(owner: &'a SyncSender<T, CAPACITY>) -> (lent: Self)
        ensures
            lent.channel() == owner.channel(),
    {
        SenderRef { sender: Sender { sync: SyncSender::new(owner.internal().share()) }, owner }
    }
}

impl<'a, T, const CAPACITY: usize> core::ops::Deref for SenderRef<'a, T, CAPACITY> {
    type Target = Sender<T, CAPACITY>;

    fn deref(&self) -> (sender: &Sender<T, CAPACITY>)
        ensures
            sender.channel() == self.channel(),
    {
        &self.sender
    }
}

/// The receiving side of a channel.
///
/// A receiver counts as alive until it is released.
#[verifier::reject_recursive_types(T)]
#[verifier::reject_recursive_types(CAPACITY)]
pub struct Receiver<T, const CAPACITY: usize> {
    sync: SyncReceiver<T, CAPACITY>,
}

impl<T, const CAPACITY: usize> Receiver<T, CAPACITY> {
    /// The channel of the receiver.
    pub closed spec fn channel(&self) -> Internal<T, CAPACITY> {
        self.sync.channel()
    }

    /// A receiver for tasks in place of one for threads that block.
    pub(crate) fn new(sync: SyncReceiver<T, CAPACITY>) -> (receiver: Self)
        ensures
            receiver.channel() == sync.channel(),
    {
        Receiver { sync }
    }

    /// The channel of the receiver.
    pub fn internal(&self) -> (internal: &Internal<T, CAPACITY>)
        ensures
            *internal == self.channel(),
    {
        self.sync.internal()
    }

    /// How many values the channel can buffer.
    pub fn capacity(&self) -> (capacity: usize)
        ensures
            capacity == CAPACITY,
    {
        CAPACITY
    }

    /// Receives a value without waiting, neither for a sender nor for the lock.
    pub fn try_recv_realtime(&self) -> (received: Result<T, ReceiveErrorTimeout>)
        ensures
            (self.channel().busy() && received == Err::<T, ReceiveErrorTimeout>(
                ReceiveErrorTimeout::Timeout,
            )) || exists|
                shared: &mut Shared<T, CAPACITY>,
                access: &mut MutexGuard<'_, Shared<T, CAPACITY>>,
            |
                {
                    &&& self.channel().reaches(shared)
                    &&& #[trigger] crate::shared::gives(access, shared)
                    &&& self.channel().locked_by(*access)
                    &&& crate::shared::unlocked(*final(access))
                    &&& shared@.wf(CAPACITY) && shared@.orderly(CAPACITY)
                    &&& (final(shared)@, received) == (shared@.try_recv().0, shared@.try_recv().1)
                    &&& crate::waker::one_woken(shared@.try_recv().2)
                },
    {
        self.as_sync().try_recv_realtime()
    }

    /// The same receiver for threads that block.
    pub fn as_sync(&self) -> (sync: &SyncReceiver<T, CAPACITY>)
        ensures
            sync.channel() == self.channel(),
    {
        &self.sync
    }

    /// Turns the receiver into one for threads that block.
    pub fn to_sync(self) -> (sync: SyncReceiver<T, CAPACITY>)
        ensures
            sync.channel() == self.channel(),
    {
        self.sync
    }

    /// One more receiver of the channel, unless there are too many to be counted.
    pub fn try_clone(&self) -> (clone: Option<Self>)
        ensures
            clone matches Some(receiver) ==> receiver.channel() == self.channel(),
            exists|
                shared: &mut Shared<T, CAPACITY>,
                access: &mut MutexGuard<'_, Shared<T, CAPACITY>>,
            |
                {
                    &&& self.channel().reaches(shared)
                    &&& #[trigger] crate::shared::gives(access, shared)
                    &&& self.channel().locked_by(*access)
                    &&& crate::shared::unlocked(*final(access))
                    &&& clone is Some == shared@.countable()
                    &&& final(shared)@ == (if clone is Some {
                        shared@.after_inc(false)
                    } else {
                        shared@
                    })
                },
    {
        match self.as_sync().try_clone() {
            Some(sync) => Some(Receiver { sync }),
            None => None,
        }
    }

    /// Ends the life of the receiver. When it was the last one, those that wait
    /// are released and the buffered values dropped. Returns whether it was the
    /// last handle of the channel.
    pub fn release(self) -> (last: bool)
        ensures
            exists|
                shared: &mut Shared<T, CAPACITY>,
                access: &mut MutexGuard<'_, Shared<T, CAPACITY>>,
            |
                {
                    &&& self.channel().reaches(shared)
                    &&& #[trigger] crate::shared::gives(access, shared)
                    &&& self.channel().locked_by(*access)
                    &&& crate::shared::unlocked(*final(access))
                    &&& last == (shared@.ref_count == 1)
                    &&& final(shared)@ == (if shared@.ref_count == 0 {
                        shared@
                    } else {
                        shared@.after_dec(false)
                    })
                    &&& shared@.ref_count > 0 && shared@.last_of_side(false)
                        ==> crate::waker::all_woken(shared@.tasks())
                },
    {
        self.to_sync().release()
    }
}

/// A receiver for tasks that is lent by one for threads. Both are the same receiver, which
/// the channel counts once; so it cannot be released through this.
#[verifier::reject_recursive_types(T)]
#[verifier::reject_recursive_types(CAPACITY)]
pub struct ReceiverRef<'a, T, const CAPACITY: usize> {
    receiver: Receiver<T, CAPACITY>,
    /// The handle that lends the receiver and outlives it.
    owner: &'a SyncReceiver<T, CAPACITY>,
}

impl<'a, T, const CAPACITY: usize> ReceiverRef<'a, T, CAPACITY> {
    /// The channel of the receiver.
    pub closed spec fn channel(&self) -> Internal<T, CAPACITY> {
        self.receiver.channel()
    }

    /// The receiver for tasks that is the same as `owner`.
    pub(crate) fn new(owner: &'a SyncReceiver<T, CAPACITY>) -> (lent: Self)
        ensures
            lent.channel() == owner.channel(),
    {
        ReceiverRef { receiver: Receiver { sync: SyncReceiver::new(owner.internal().share()) }, owner }
    }
}

impl<'a, T, const CAPACITY: usize> core::ops::Deref for ReceiverRef<'a, T, CAPACITY> {
    type Target = Receiver<T, CAPACITY>;

    fn deref(&self) -> (receiver: &Receiver<T, CAPACITY>)
        ensures
            receiver.channel() == self.channel(),
    {
        &self.receiver
    }
}

/// A channel that buffers up to `CAPACITY` values.
pub fn bounded<T, const CAPACITY: usize>() -> (handles: (
    Sender<T, CAPACITY>,
    Receiver<T, CAPACITY>,
))
    ensures
        handles.0.channel() == handles.1.channel(),
        handles.0.channel().began_as(ChannelState::empty(1, 1, 2)),
{
    let (sender, receiver) = bounded_sync();
    (sender.to_async(), receiver.to_async())
}

/// A channel without a buffer: each value goes straight from a sender to a
/// receiver.
pub fn zero<T>() -> (handles: (Sender<T, 0>, Receiver<T, 0>))
    ensures
        handles.0.channel() == handles.1.channel(),
        handles.0.channel().began_as(ChannelState::empty(1, 1, 2)),
{
    bounded::<T, 0>()
}

} // verus!
