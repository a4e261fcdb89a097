//! A sender or a receiver that waits for its turn.
use vstd::prelude::*;
use core::task::Waker;
use xutex::MutexGuard;
use crate::error::{ReceiveError, SendError};
use crate::locked;
use crate::shared::{Internal, Shared};
use crate::signal::{SignalKind, SignalPoll};

verus! {

broadcast use crate::shared::Internal::lemma_reaches;

/// The outcome of a poll that gave this: it waits, or it is ready with the result.
pub open spec fn poll_of<R>(ready: Option<R>) -> SignalPoll<R> {
    match ready {
        Some(result) => SignalPoll::Ready(result),
        None => SignalPoll::Pending,
    }
}

/// A send that waits. It is polled until it is ready, or abandoned; after that
/// it is over.
#[verifier::reject_recursive_types(T)]
#[verifier::reject_recursive_types(CAPACITY)]
pub struct SendSignal<T, const CAPACITY: usize> {
    internal: Internal<T, CAPACITY>,
    signal: usize,
    /// The signal has left the channel, and its number may have been given away.
    over: bool,
}

impl<T, const CAPACITY: usize> SendSignal<T, CAPACITY> {
    /// The number of the signal.
    pub closed spec fn id(&self) -> usize {
        self.signal
    }

    /// The channel of the signal.
    pub closed spec fn channel(&self) -> Internal<T, CAPACITY> {
        self.internal
    }

    /// The send was ready, or it was abandoned.
    pub closed spec fn over(&self) -> bool {
        self.over
    }

    /// The channel of the signal.
    fn internal(&self) -> (internal: &Internal<T, CAPACITY>)
        ensures
            *internal == self.channel(),
    {
        &self.internal
    }

    /// The send that waits with this signal. No other handle may have the signal.
    pub(crate) fn new(internal: Internal<T, CAPACITY>, signal: usize) -> (send: Self)
        ensures
            send.id() == signal,
            send.channel() == internal,
            !send.over(),
    {
        SendSignal { internal, signal, over: false }
    }

    /// Locks the channel and polls the signal.
    fn poll_signal(&self, waker: &Waker) -> (poll: SignalPoll<Result<(), SendError<T>>>)
        ensures
            !(poll is Claimed),
            exists|
                shared: &mut Shared<T, CAPACITY>,
                access: &mut MutexGuard<'_, Shared<T, CAPACITY>>,
            |
                {
                    &&& self.channel().reaches(shared)
                    &&& #[trigger] crate::shared::gives(access, shared)
                    &&& self.channel().locked_by(*access)
                    &&& crate::shared::unlocked(*final(access))
                    &&& shared@.wf(CAPACITY) && shared@.orderly(CAPACITY)
                    &&& (final(shared)@, poll) == shared@.poll_send(self.id(), *waker)
                },
    {
        let waker = waker.clone();
        locked::poll_send(self.internal().lock_sync(), self.signal, waker)
    }

    /// Locks the channel and polls the signal; gives the result once there is one.
    fn ready(&self, waker: &Waker) -> (ready: Option<Result<(), SendError<T>>>)
        ensures
            exists|
                shared: &mut Shared<T, CAPACITY>,
                access: &mut MutexGuard<'_, Shared<T, CAPACITY>>,
            |
                {
                    &&& self.channel().reaches(shared)
                    &&& #[trigger] crate::shared::gives(access, shared)
                    &&& self.channel().locked_by(*access)
                    &&& crate::shared::unlocked(*final(access))
                    &&& shared@.wf(CAPACITY) && shared@.orderly(CAPACITY)
                    &&& (final(shared)@, poll_of(ready)) == shared@.poll_send(self.id(), *waker)
                },
    {
        match self.poll_signal(waker) {
            SignalPoll::Ready(result) => Some(result),
            _ => None,
        }
    }

    /// Whether the send is over. If not, `waker` is woken when it is. A send that
    /// was ready once, or abandoned, is not ready again.
    ///
    /// Blocks the thread until the channel is unlocked. A task waits for the lock
    /// first and then calls [`SendSignal::poll_locked`].
    pub fn poll(&mut self, waker: &Waker) -> (poll: SignalPoll<Result<(), SendError<T>>>)
        ensures
            final(self).id() == old(self).id(),
            final(self).channel() == old(self).channel(),
            final(self).over() == (old(self).over() || poll is Ready),
            !(poll is Claimed),
            old(self).over() ==> poll is Pending,
            old(self).over() || exists|
                shared: &mut Shared<T, CAPACITY>,
                access: &mut MutexGuard<'_, Shared<T, CAPACITY>>,
            |
                {
                    &&& old(self).channel().reaches(shared)
                    &&& #[trigger] crate::shared::gives(access, shared)
                    &&& old(self).channel().locked_by(*access)
                    &&& crate::shared::unlocked(*final(access))
                    &&& shared@.wf(CAPACITY) && shared@.orderly(CAPACITY)
                    &&& (final(shared)@, poll) == shared@.poll_send(old(self).id(), *waker)
                },
    {
        if self.over {
            return SignalPoll::Pending;
        }
        let poll = self.poll_signal(waker);
        if let SignalPoll::Ready(_) = &poll {
            self.over = true;
        }
        poll
    }

    /// Does as [`SendSignal::poll`] on the channel that `guard` has locked, which is
    /// the channel of this send. Does not block.
    pub fn poll_locked(
        &mut self,
        guard: MutexGuard<'_, Shared<T, CAPACITY>>,
        waker: Waker,
    ) -> (poll: SignalPoll<Result<(), SendError<T>>>)
        ensures
            final(self).id() == old(self).id(),
            final(self).channel() == old(self).channel(),
            final(self).over() == (old(self).over() || poll is Ready),
            !(poll is Claimed),
            old(self).over() ==> poll is Pending,
            old(self).over() || exists|
                shared: &mut Shared<T, CAPACITY>,
                access: &mut MutexGuard<'_, Shared<T, CAPACITY>>,
            |
                {
                    &&& crate::shared::reaches(guard, shared)
                    &&& #[trigger] crate::shared::gives(access, shared)
                    &&& *access == guard
                    &&& crate::shared::unlocked(*final(access))
                    &&& shared@.wf(CAPACITY) && shared@.orderly(CAPACITY)
                    &&& (final(shared)@, poll) == shared@.poll_send(old(self).id(), waker)
                },
    {
        if self.over {
            return SignalPoll::Pending;
        }
        let poll = locked::poll_send(guard, self.signal, waker);
        if let SignalPoll::Ready(_) = &poll {
            self.over = true;
        }
        poll
    }

    /// Gives the send up: its value is dropped, unless a receiver has it already.
    ///
    /// Blocks the thread until the channel is unlocked.
    pub fn abandon(&mut self)
        ensures
            final(self).id() == old(self).id(),
            final(self).channel() == old(self).channel(),
            final(self).over(),
            old(self).over() || exists|
                shared: &mut Shared<T, CAPACITY>,
                access: &mut MutexGuard<'_, Shared<T, CAPACITY>>,
            |
                {
                    &&& old(self).channel().reaches(shared)
                    &&& #[trigger] crate::shared::gives(access, shared)
                    &&& old(self).channel().locked_by(*access)
                    &&& crate::shared::unlocked(*final(access))
                    &&& final(shared)@ == (if shared@.has_signal(
                        old(self).id(),
                        SignalKind::Send,
                    ) {
                        shared@.abandoned(old(self).id())
                    } else {
                        shared@
                    })
                },
    {
        if !self.over {
            locked::abandon(self.internal().lock_sync(), self.signal, SignalKind::Send);
            self.over = true;
        }
    }

    /// Blocks the thread until the send is over.
    pub fn wait(self) -> (result: Result<(), SendError<T>>)
        requires
            !self.over(),
        ensures
            exists|
                shared: &mut Shared<T, CAPACITY>,
                access: &mut MutexGuard<'_, Shared<T, CAPACITY>>,
                waker: Waker,
            |
                {
                    &&& self.channel().reaches(shared)
                    &&& #[trigger] crate::shared::gives(access, shared)
                    &&& self.channel().locked_by(*access)
                    &&& crate::shared::unlocked(*final(access))
                    &&& shared@.wf(CAPACITY) && shared@.orderly(CAPACITY)
                    &&& (final(shared)@, SignalPoll::Ready(result)) == #[trigger] shared@.poll_send(
                        self.id(),
                        waker,
                    )
                },
    {
        let ready = |waker: &Waker| -> (ready: Option<Result<(), SendError<T>>>)
            ensures
                exists|
                    shared: &mut Shared<T, CAPACITY>,
                    access: &mut MutexGuard<'_, Shared<T, CAPACITY>>,
                |
                    {
                        &&& self.channel().reaches(shared)
                        &&& #[trigger] crate::shared::gives(access, shared)
                        &&& self.channel().locked_by(*access)
                        &&& crate::shared::unlocked(*final(access))
                        &&& shared@.wf(CAPACITY) && shared@.orderly(CAPACITY)
                        &&& (final(shared)@, poll_of(ready)) == shared@.poll_send(self.id(), *waker)
                    },
            { self.ready(waker) };
        block_on(ready)
    }
}

/// A receive that waits. It is polled until it is ready, or abandoned; after that
/// it is over.
#[verifier::reject_recursive_types(T)]
#[verifier::reject_recursive_types(CAPACITY)]
pub struct ReceiveSignal<T, const CAPACITY: usize> {
    internal: Internal<T, CAPACITY>,
    signal: usize,
    /// The signal has left the channel, and its number may have been given away.
    over: bool,
}

impl<T, const CAPACITY: usize> ReceiveSignal<T, CAPACITY> {
    /// The number of the signal.
    pub closed spec fn id(&self) -> usize {
        self.signal
    }

    /// The channel of the signal.
    pub closed spec fn channel(&self) -> Internal<T, CAPACITY> {
        self.internal
    }

    /// The receive was ready, or it was abandoned.
    pub closed spec fn over(&self) -> bool {
        self.over
    }

    /// The channel of the signal.
    fn internal(&self) -> (internal: &Internal<T, CAPACITY>)
        ensures
            *internal == self.channel(),
    {
        &self.internal
    }

    /// The receive that waits with this signal. No other handle may have the signal.
    pub(crate) fn new(internal: Internal<T, CAPACITY>, signal: usize) -> (receive: Self)
        ensures
            receive.id() == signal,
            receive.channel() == internal,
            !receive.over(),
    {
        ReceiveSignal { internal, signal, over: false }
    }

    /// Locks the channel and polls the signal.
    fn poll_signal(&self, waker: &Waker) -> (poll: SignalPoll<Result<T, ReceiveError>>)
        ensures
            !(poll is Claimed),
            exists|
                shared: &mut Shared<T, CAPACITY>,
                access: &mut MutexGuard<'_, Shared<T, CAPACITY>>,
            |
                {
                    &&& self.channel().reaches(shared)
                    &&& #[trigger] crate::shared::gives(access, shared)
                    &&& self.channel().locked_by(*access)
                    &&& crate::shared::unlocked(*final(access))
                    &&& shared@.wf(CAPACITY) && shared@.orderly(CAPACITY)
                    &&& (final(shared)@, poll) == shared@.poll_recv(self.id(), *waker)
                },
    {
        let waker = waker.clone();
        locked::poll_recv(self.internal().lock_sync(), self.signal, waker)
    }

    /// Locks the channel and polls the signal; gives the result once there is one.
    fn ready(&self, waker: &Waker) -> (ready: Option<Result<T, ReceiveError>>)
        ensures
            exists|
                shared: &mut Shared<T, CAPACITY>,
                access: &mut MutexGuard<'_, Shared<T, CAPACITY>>,
            |
                {
                    &&& self.channel().reaches(shared)
                    &&& #[trigger] crate::shared::gives(access, shared)
                    &&& self.channel().locked_by(*access)
                    &&& crate::shared::unlocked(*final(access))
                    &&& shared@.wf(CAPACITY) && shared@.orderly(CAPACITY)
                    &&& (final(shared)@, poll_of(ready)) == shared@.poll_recv(self.id(), *waker)
                },
    {
        match self.poll_signal(waker) {
            SignalPoll::Ready(result) => Some(result),
            _ => None,
        }
    }

    /// Whether the receive is over. If not, `waker` is woken when it is. A receive that
    /// was ready once, or abandoned, is not ready again.
    ///
    /// Blocks the thread until the channel is unlocked. A task waits for the lock
    /// first and then calls [`ReceiveSignal::poll_locked`].
    pub fn poll(&mut self, waker: &Waker) -> (poll: SignalPoll<Result<T, ReceiveError>>)
        ensures
            final(self).id() == old(self).id(),
            final(self).channel() == old(self).channel(),
            final(self).over() == (old(self).over() || poll is Ready),
            !(poll is Claimed),
            old(self).over() ==> poll is Pending,
            old(self).over() || exists|
                shared: &mut Shared<T, CAPACITY>,
                access: &mut MutexGuard<'_, Shared<T, CAPACITY>>,
            |
                {
                    &&& old(self).channel().reaches(shared)
                    &&& #[trigger] crate::shared::gives(access, shared)
                    &&& old(self).channel().locked_by(*access)
                    &&& crate::shared::unlocked(*final(access))
                    &&& shared@.wf(CAPACITY) && shared@.orderly(CAPACITY)
                    &&& (final(shared)@, poll) == shared@.poll_recv(old(self).id(), *waker)
                },
    {
        if self.over {
            return SignalPoll::Pending;
        }
        let poll = self.poll_signal(waker);
        if let SignalPoll::Ready(_) = &poll {
            self.over = true;
        }
        poll
    }

    /// Does as [`ReceiveSignal::poll`] on the channel that `guard` has locked, which is
    /// the channel of this receive. Does not block.
    pub fn poll_locked(
        &mut self,
        guard: MutexGuard<'_, Shared<T, CAPACITY>>,
        waker: Waker,
    ) -> (poll: SignalPoll<Result<T, ReceiveError>>)
        ensures
            final(self).id() == old(self).id(),
            final(self).channel() == old(self).channel(),
            final(self).over() == (old(self).over() || poll is Ready),
            !(poll is Claimed),
            old(self).over() ==> poll is Pending,
            old(self).over() || exists|
                shared: &mut Shared<T, CAPACITY>,
                access: &mut MutexGuard<'_, Shared<T, CAPACITY>>,
            |
                {
                    &&& crate::shared::reaches(guard, shared)
                    &&& #[trigger] crate::shared::gives(access, shared)
                    &&& *access == guard
                    &&& crate::shared::unlocked(*final(access))
                    &&& shared@.wf(CAPACITY) && shared@.orderly(CAPACITY)
                    &&& (final(shared)@, poll) == shared@.poll_recv(old(self).id(), waker)
                },
    {
        if self.over {
            return SignalPoll::Pending;
        }
        let poll = locked::poll_recv(guard, self.signal, waker);
        if let SignalPoll::Ready(_) = &poll {
            self.over = true;
        }
        poll
    }

    /// Gives the receive up: a value that was already delivered to it is lost. It is
    /// forgotten and never dropped.
    ///
    /// Blocks the thread until the channel is unlocked.
    pub fn abandon(&mut self)
        ensures
            final(self).id() == old(self).id(),
            final(self).channel() == old(self).channel(),
            final(self).over(),
            old(self).over() || exists|
                shared: &mut Shared<T, CAPACITY>,
                access: &mut MutexGuard<'_, Shared<T, CAPACITY>>,
            |
                {
                    &&& old(self).channel().reaches(shared)
                    &&& #[trigger] crate::shared::gives(access, shared)
                    &&& old(self).channel().locked_by(*access)
                    &&& crate::shared::unlocked(*final(access))
                    &&& final(shared)@ == (if shared@.has_signal(
                        old(self).id(),
                        SignalKind::Receive,
                    ) {
                        shared@.abandoned(old(self).id())
                    } else {
                        shared@
                    })
                    &&& shared@.has_signal(old(self).id(), SignalKind::Receive)
                        && shared@.signals[old(self).id()].data is Some
                        ==> locked::forgotten(shared@.signals[old(self).id()].data->0)
                },
    {
        if !self.over {
            locked::abandon(self.internal().lock_sync(), self.signal, SignalKind::Receive);
            self.over = true;
        }
    }

    /// Blocks the thread until the receive is over.
    pub fn wait(self) -> (result: Result<T, ReceiveError>)
        requires
            !self.over(),
        ensures
            exists|
                shared: &mut Shared<T, CAPACITY>,
                access: &mut MutexGuard<'_, Shared<T, CAPACITY>>,
                waker: Waker,
            |
                {
                    &&& self.channel().reaches(shared)
                    &&& #[trigger] crate::shared::gives(access, shared)
                    &&& self.channel().locked_by(*access)
                    &&& crate::shared::unlocked(*final(access))
                    &&& shared@.wf(CAPACITY) && shared@.orderly(CAPACITY)
                    &&& (final(shared)@, SignalPoll::Ready(result)) == #[trigger] shared@.poll_recv(
                        self.id(),
                        waker,
                    )
                },
    {
        let ready = |waker: &Waker| -> (ready: Option<Result<T, ReceiveError>>)
            ensures
                exists|
                    shared: &mut Shared<T, CAPACITY>,
                    access: &mut MutexGuard<'_, Shared<T, CAPACITY>>,
                |
                    {
                        &&& self.channel().reaches(shared)
                        &&& #[trigger] crate::shared::gives(access, shared)
                        &&& self.channel().locked_by(*access)
                        &&& crate::shared::unlocked(*final(access))
                        &&& shared@.wf(CAPACITY) && shared@.orderly(CAPACITY)
                        &&& (final(shared)@, poll_of(ready)) == shared@.poll_recv(self.id(), *waker)
                    },
            { self.ready(waker) };
        block_on(ready)
    }
}

/// `swait::swait` blocks the thread on a future, which calls `poll` with the
/// waker of the thread, and returns what a call of `poll` was ready with. Which
/// result that is, and whether there ever is one, depends on the other handles of
/// the channel.
#[verifier::external_body]
fn block_on<R, F: Fn(&Waker) -> Option<R>>(poll: F) -> (result: R)
    requires
        forall|waker: &Waker| #[trigger] poll.requires((waker,)),
    ensures
        exists|waker: &Waker| #[trigger] poll.ensures((waker,), Some(result)),
{
    swait::swait(
        core::future::poll_fn(
            |cx: &mut core::task::Context<'_>| match poll(cx.waker()) {
                Some(result) => core::task::Poll::Ready(result),
                None => core::task::Poll::Pending,
            },
        ),
    )
}

} // verus!
