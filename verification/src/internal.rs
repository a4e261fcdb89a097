//! The state that the senders and receivers of a channel share, and every
//! operation on it.
use vstd::prelude::*;
use std::collections::VecDeque;
use core::task::Waker;
use crate::error::{CloseError, ReceiveError, ReceiveErrorTimeout, SendError};
use crate::signal::{Signal, SignalKind, SignalPoll, SignalResult};
use crate::state::ChannelState;
use crate::table::SignalTable;
use crate::terminator::SignalTerimnator;

verus! {

/// The outcome of [`ChannelInternal::send`].
pub enum SendStep<T> {
    /// The send is over; the waker, if any, is to be woken.
    Done { result: Result<(), SendError<T>>, wake: Option<Waker> },
    /// The send waits on this signal.
    Wait { signal: usize },
}

/// The outcome of [`ChannelInternal::recv`].
pub enum RecvStep<T> {
    /// The receive is over; the waker, if any, is to be woken.
    Done { result: Result<T, ReceiveError>, wake: Option<Waker> },
    /// The receive waits on this signal.
    Wait { signal: usize },
}

/// The outcome of giving up a signal.
#[derive(Clone, Copy, PartialEq, Eq, Debug, Structural)]
pub enum Abandon {
    /// The signal has left the channel.
    Finished,
    /// A peer has taken the signal and has yet to resolve it: its state is to be
    /// watched before the signal can go. A channel behind its lock takes a signal
    /// and resolves it in one step, so that the handles never see this.
    InFlight,
}

/// The buffer, the wait list and the counts of a channel.
#[verifier::reject_recursive_types(T)]
pub struct ChannelInternal<T, const CAPACITY: usize> {
    /// The buffered values.
    queue: VecDeque<T>,
    /// Whether the signals in the wait list are those of receivers.
    recv_blocking: bool,
    /// The receivers that found nothing, or the senders that found no room.
    wait_list: VecDeque<SignalTerimnator>,
    /// The signals of all that wait or have yet to learn that they were served.
    signals: SignalTable<T>,
    /// Count of alive receivers.
    recv_count: usize,
    /// Count of alive senders.
    send_count: usize,
    /// Count of alive handles of both kinds.
    ref_count: usize,
}

impl<T, const CAPACITY: usize> View for ChannelInternal<T, CAPACITY> {
    type V = ChannelState<T>;

    closed spec fn view(&self) -> ChannelState<T> {
        ChannelState {
            queue: self.queue@,
            recv_blocking: self.recv_blocking,
            wait_list: self.wait_list@,
            signals: self.signals@,
            recv_count: self.recv_count as nat,
            send_count: self.send_count as nat,
            ref_count: self.ref_count as nat,
        }
    }
}

impl<T, const CAPACITY: usize> ChannelInternal<T, CAPACITY> {
    /// The parts of the channel agree.
    pub closed spec fn wf(&self) -> bool {
        &&& self.signals.wf()
        &&& self@.wf(CAPACITY)
    }

    /// A well-formed channel is well formed as a [`ChannelState`] too, and its
    /// counts are machine numbers.
    pub broadcast proof fn lemma_wf(&self)
        requires
            #[trigger] self.wf(),
        ensures
            self@.wf(CAPACITY),
            self@.recv_count <= usize::MAX,
            self@.send_count <= usize::MAX,
            self@.ref_count <= usize::MAX,
    {
    }

    /// A new channel with one sender and one receiver.
    pub fn new() -> (channel: Self)
        ensures
            channel.wf(),
            channel@ == ChannelState::<T>::empty(1, 1, 2),
    {
        ChannelInternal {
            queue: VecDeque::with_capacity(CAPACITY),
            recv_blocking: false,
            wait_list: VecDeque::new(),
            signals: SignalTable::new(),
            recv_count: 1,
            send_count: 1,
            ref_count: 2,
        }
    }

    /// A closed channel without handles.
    pub(crate) fn vacant() -> (channel: Self)
        ensures
            channel.wf(),
            channel@ == ChannelState::<T>::empty(0, 0, 0),
    {
        ChannelInternal {
            queue: VecDeque::new(),
            recv_blocking: false,
            wait_list: VecDeque::new(),
            signals: SignalTable::new(),
            recv_count: 0,
            send_count: 0,
            ref_count: 0,
        }
    }

    /// Gives up on all signals in the wait list, to tell those that wait that the
    /// channel closes. Returns the wakers of the tasks that wait, to be woken in
    /// this order.
    pub fn terminate_signals(&mut self) -> (wakers: VecDeque<Waker>)
        requires
            old(self).wf(),
        ensures
            final(self).wf(),
            final(self)@ == old(self)@.all_terminated(),
            wakers@ == old(self)@.tasks(),
    {
        let ghost s = self@;
        let mut wakers: VecDeque<Waker> = VecDeque::new();
        let mut i: usize = 0;
        while i < self.wait_list.len()
            invariant
                i <= s.wait_list.len(),
                s.wf(CAPACITY),
                self.signals.wf(),
                self@ == (ChannelState { signals: self.signals@, ..s }),
                self.signals@.dom() == s.signals.dom(),
                forall|id: usize| #[trigger]
                    s.signals.dom().contains(id) ==> self.signals@[id] == (
                    if s.wait_list.take(i as int).contains(SignalTerimnator::named(id)) {
                        s.signals[id].terminated()
                    } else {
                        s.signals[id]
                    }),
                wakers@ == ChannelState::<T>::tasks_of(s.signals, s.wait_list.take(i as int)),
            decreases s.wait_list.len() - i,
        {
            let t = self.wait_list[i];
            proof {
                ChannelState::<T>::lemma_tasks_take(s.signals, s.wait_list, i as int);
                SignalTerimnator::lemma_take_contains(s.wait_list, i as int);
                assert(s.may_wait(s.wait_list[i as int].inner));
                assert(!s.wait_list.take(i as int).contains(t));
            }
            let waker = t.terminate(&mut self.signals);
            if let Some(waker) = waker {
                wakers.push_back(waker);
            }
            i = i + 1;
        }
        assert(s.wait_list.take(s.wait_list.len() as int) =~= s.wait_list);
        self.wait_list.clear();
        assert(self@.signals =~= s.all_terminated().signals);
        wakers
    }

    /// Takes the first sender out of the wait list. Without one, the wait list is
    /// open to receivers from now on.
    pub fn next_send(&mut self) -> (signal: Option<SignalTerimnator>)
        requires
            old(self).wf(),
        ensures
            final(self).wf(),
            if old(self)@.senders_wait() {
                &&& signal == Some(old(self)@.wait_list[0])
                &&& final(self)@ == old(self)@.popped()
            } else {
                &&& signal is None
                &&& final(self)@ == old(self)@.for_receivers()
            },
    {
        let ghost s = self@;
        if self.recv_blocking {
            return None;
        }
        proof {
            if s.wait_list.len() > 0 {
                s.lemma_popped(CAPACITY);
            }
        }
        match self.wait_list.pop_front() {
            Some(signal) => {
                assert(self@ =~= s.popped());
                Some(signal)
            },
            None => {
                self.recv_blocking = true;
                assert(self@ =~= s.for_receivers());
                None
            },
        }
    }

    /// Adds a signal at the end of the wait list.
    pub fn push_signal(&mut self, s: SignalTerimnator)
        requires
            old(self).wf(),
            old(self)@.may_wait(s.inner),
            !old(self)@.wait_list.contains(s),
        ensures
            final(self).wf(),
            final(self)@ == (ChannelState {
                wait_list: old(self)@.wait_list.push(s),
                ..old(self)@
            }),
    {
        self.wait_list.push_back(s);
    }

    /// Takes the first receiver out of the wait list. Without one, the wait list
    /// is open to senders from now on.
    pub fn next_recv(&mut self) -> (signal: Option<SignalTerimnator>)
        requires
            old(self).wf(),
        ensures
            final(self).wf(),
            if old(self)@.receivers_wait() {
                &&& signal == Some(old(self)@.wait_list[0])
                &&& final(self)@ == old(self)@.popped()
            } else {
                &&& signal is None
                &&& final(self)@ == old(self)@.for_senders()
            },
    {
        let ghost s = self@;
        if !self.recv_blocking {
            return None;
        }
        proof {
            if s.wait_list.len() > 0 {
                s.lemma_popped(CAPACITY);
            }
        }
        match self.wait_list.pop_front() {
            Some(signal) => {
                assert(self@ =~= s.popped());
                Some(signal)
            },
            None => {
                self.recv_blocking = false;
                assert(self@ =~= s.for_senders());
                None
            },
        }
    }

    /// Sends `data` unless that would have to wait. The waker that comes back is
    /// to be woken.
    pub fn try_send(&mut self, data: T) -> (sent: (Result<(), SendError<T>>, Option<Waker>))
        requires
            old(self).wf(),
        ensures
            final(self).wf(),
            (final(self)@, sent.0, sent.1) == old(self)@.try_send(CAPACITY, data),
    {
        let ghost s = self@;
        if branches::unlikely(self.recv_count == 0) {
            return (Err(SendError(data)), None);
        }
        if let Some(first) = self.next_recv() {
            proof {
                s.lemma_popped(CAPACITY);
                s.popped().lemma_with_signal(
                    CAPACITY,
                    first.inner,
                    s.first().signalled(Some(data)),
                );
            }
            let wake = first.send(&mut self.signals, data);
            return (Ok(()), wake);
        }
        if CAPACITY > 0 && self.queue.len() < CAPACITY {
            self.queue.push_back(data);
            return (Ok(()), None);
        }
        (Err(SendError(data)), None)
    }

    /// Sends `data`, to the first waiting receiver or into the buffer. Where
    /// there is neither receiver nor room, the data waits with a signal.
    pub fn send(&mut self, data: T) -> (step: SendStep<T>)
        requires
            old(self).wf(),
        ensures
            final(self).wf(),
            match step {
                SendStep::Done { result, wake } => {
                    &&& old(self)@.sends_at_once(CAPACITY)
                    &&& (final(self)@, result, wake) == old(self)@.try_send(CAPACITY, data)
                },
                SendStep::Wait { signal } => {
                    &&& !old(self)@.sends_at_once(CAPACITY)
                    &&& !old(self)@.signals.dom().contains(signal)
                    &&& final(self)@ == old(self)@.for_senders().joined(
                        signal,
                        Signal::spec_send(data),
                    )
                },
            },
    {
        if branches::unlikely(self.recv_count == 0) {
            return SendStep::Done { result: Err(SendError(data)), wake: None };
        }
        match self.try_send(data) {
            (Ok(()), wake) => SendStep::Done { result: Ok(()), wake },
            (Err(SendError(data)), _) => {
                let signal: usize = self.signals.insert(Signal::new_send(data));
                self.push_signal(SignalTerimnator { inner: signal });
                SendStep::Wait { signal }
            },
        }
    }

    /// Takes the oldest value of the channel, out of the buffer or from the first
    /// waiting sender. The room that comes free in the buffer goes to the first
    /// waiting sender. The waker that comes back is to be woken.
    fn take_value(&mut self) -> (taken: Option<(T, Option<Waker>)>)
        requires
            old(self).wf(),
        ensures
            final(self).wf(),
            match taken {
                Some((value, wake)) => {
                    &&& old(self)@.has_value()
                    &&& (final(self)@, value, wake) == old(self)@.received()
                },
                None => {
                    &&& !old(self)@.has_value()
                    &&& final(self)@ == old(self)@.for_receivers()
                },
            },
    {
        let ghost s = self@;
        proof {
            if s.senders_wait() {
                s.lemma_popped(CAPACITY);
                s.popped().lemma_with_signal(
                    CAPACITY,
                    s.wait_list[0].inner,
                    s.first().signalled(None),
                );
            }
        }
        if CAPACITY > 0 {
            if let Some(value) = self.queue.pop_front() {
                assert(self@ =~= s.dequeued());
                let mut wake: Option<Waker> = None;
                if let Some(first) = self.next_send() {
                    let (data, waker) = first.recv(&mut self.signals);
                    self.queue.push_back(data);
                    wake = waker;
                    assert(self@ =~= s.received().0);
                }
                return Some((value, wake));
            }
        }
        if let Some(first) = self.next_send() {
            let (value, wake) = first.recv(&mut self.signals);
            return Some((value, wake));
        }
        None
    }

    /// Receives a value unless that would have to wait. The waker that comes back
    /// is to be woken.
    pub fn try_recv(&mut self) -> (received: (Result<T, ReceiveErrorTimeout>, Option<Waker>))
        requires
            old(self).wf(),
        ensures
            final(self).wf(),
            (final(self)@, received.0, received.1) == old(self)@.try_recv(),
    {
        if branches::unlikely(self.recv_count == 0) {
            return (Err(ReceiveErrorTimeout::Closed), None);
        }
        if let Some((value, wake)) = self.take_value() {
            return (Ok(value), wake);
        }
        if branches::unlikely(self.send_count == 0) {
            return (Err(ReceiveErrorTimeout::Closed), None);
        }
        (Err(ReceiveErrorTimeout::Timeout), None)
    }

    /// Receives a value, out of the buffer or from the first waiting sender.
    /// Where there is neither, the receiver waits with a signal, or fails if no
    /// sender is left.
    pub fn recv(&mut self) -> (step: RecvStep<T>)
        requires
            old(self).wf(),
        ensures
            final(self).wf(),
            match step {
                RecvStep::Done { result, wake } => if old(self)@.terminated() {
                    &&& result == Err::<T, ReceiveError>(ReceiveError())
                    &&& wake is None
                    &&& final(self)@ == old(self)@
                } else {
                    &&& old(self)@.has_value()
                    &&& result is Ok
                    &&& (final(self)@, result->Ok_0, wake) == old(self)@.received()
                },
                RecvStep::Wait { signal } => {
                    &&& !old(self)@.terminated()
                    &&& !old(self)@.has_value()
                    &&& !old(self)@.signals.dom().contains(signal)
                    &&& final(self)@ == old(self)@.for_receivers().joined(
                        signal,
                        Signal::<T>::spec_recv(),
                    )
                },
            },
    {
        if branches::unlikely(self.send_count == 0 && self.queue.len() == 0) {
            return RecvStep::Done { result: Err(ReceiveError()), wake: None };
        }
        if let Some((value, wake)) = self.take_value() {
            return RecvStep::Done { result: Ok(value), wake };
        }
        let signal: usize = self.signals.insert(Signal::new_recv());
        self.push_signal(SignalTerimnator { inner: signal });
        RecvStep::Wait { signal }
    }

    /// Closes the channel on both sides, once: the buffered values are dropped
    /// and those that wait are told. Returns the wakers to wake.
    pub fn close(&mut self) -> (closed: (Result<(), CloseError>, VecDeque<Waker>))
        requires
            old(self).wf(),
        ensures
            final(self).wf(),
            if old(self)@.closed() {
                &&& closed.0 == Err::<(), CloseError>(CloseError())
                &&& closed.1@ == Seq::<Waker>::empty()
                &&& final(self)@ == old(self)@
            } else {
                &&& closed.0 == Ok::<(), CloseError>(())
                &&& closed.1@ == old(self)@.tasks()
                &&& final(self)@ == old(self)@.after_close()
            },
    {
        if branches::unlikely(self.recv_count == 0 && self.send_count == 0) {
            return (Err(CloseError()), VecDeque::new());
        }
        self.recv_count = 0;
        self.send_count = 0;
        assert(self@.signals == old(self)@.signals);
        let wakers = self.terminate_signals();
        self.queue.clear();
        assert(self@ =~= old(self)@.after_close());
        assert(self@.signals == old(self)@.all_terminated().signals);
        (Ok(()), wakers)
    }

    /// Counts one more handle on the given side, unless the side is closed.
    pub fn inc_ref_count(&mut self, is_sender: bool)
        requires
            old(self).wf(),
            old(self)@.ref_count < usize::MAX,
            is_sender ==> old(self)@.send_count < usize::MAX,
            !is_sender ==> old(self)@.recv_count < usize::MAX,
        ensures
            final(self).wf(),
            final(self)@ == old(self)@.after_inc(is_sender),
    {
        if is_sender {
            if self.send_count > 0 {
                self.send_count = self.send_count + 1;
            }
        } else if self.recv_count > 0 {
            self.recv_count = self.recv_count + 1;
        }
        self.ref_count = self.ref_count + 1;
        assert(self@.signals == old(self)@.signals);
    }

    /// Counts one handle less on the given side. The last sender and the last
    /// receiver to go release those that wait; the last receiver drops the
    /// buffered values too. Returns whether this was the last handle of all, and
    /// the wakers to wake.
    pub fn dec_ref_count(&mut self, is_sender: bool) -> (last: (bool, VecDeque<Waker>))
        requires
            old(self).wf(),
            old(self)@.ref_count > 0,
        ensures
            final(self).wf(),
            final(self)@ == old(self)@.after_dec(is_sender),
            last.0 == (old(self)@.ref_count == 1),
            last.1@ == (if old(self)@.last_of_side(is_sender) {
                old(self)@.tasks()
            } else {
                Seq::empty()
            }),
    {
        let mut wakers: VecDeque<Waker> = VecDeque::new();
        if is_sender {
            if self.send_count > 0 {
                self.send_count = self.send_count - 1;
                assert(self@.signals == old(self)@.signals);
                if self.send_count == 0 && self.recv_count != 0 {
                    wakers = self.terminate_signals();
                }
            }
        } else if self.recv_count > 0 {
            self.recv_count = self.recv_count - 1;
            assert(self@.signals == old(self)@.signals);
            if self.recv_count == 0 {
                wakers = self.terminate_signals();
                if CAPACITY > 0 {
                    self.queue.clear();
                }
            }
        }
        self.ref_count = self.ref_count - 1;
        assert(self@ =~= old(self)@.after_dec(is_sender));
        (self.ref_count == 0, wakers)
    }

    /// Takes the signal out of the wait list, if it is there.
    fn unlist(&mut self, sig: usize) -> (found: bool)
        requires
            old(self).wf(),
        ensures
            final(self).wf(),
            found == old(self)@.waits(sig),
            final(self)@ == (if found {
                old(self)@.unlisted(sig)
            } else {
                old(self)@
            }),
    {
        let ghost s = self@;
        let mut i: usize = 0;
        while i < self.wait_list.len()
            invariant
                self.wf(),
                self@ == s,
                s == old(self)@,
                forall|k: int| 0 <= k < i ==> (#[trigger] s.wait_list[k]).inner != sig,
            decreases s.wait_list.len() - i,
        {
            if self.wait_list[i].eq_ptr(sig) {
                proof {
                    s.lemma_unlisted(CAPACITY, i as int);
                    assert(s.wait_list.contains(s.wait_list[i as int]));
                    assert(s.wait_list[i as int] == SignalTerimnator::named(sig));
                }
                let _ = self.wait_list.remove(i);
                assert(self@ =~= s.unlisted(sig));
                return true;
            }
            i = i + 1;
        }
        false
    }

    /// Takes the signal out of the wait list, if it is there, and resolves it.
    fn cancel_signal(&mut self, sig: usize) -> (found: bool)
        requires
            old(self).wf(),
        ensures
            final(self).wf(),
            found == old(self)@.waits(sig),
            final(self)@ == (if found {
                old(self)@.cancelled(sig)
            } else {
                old(self)@
            }),
    {
        let ghost s = self@;
        let found = self.unlist(sig);
        if found {
            proof {
                s.lemma_waits(CAPACITY, sig);
                let i = choose|i: int|
                    0 <= i < s.wait_list.len() && s.wait_list[i] == SignalTerimnator::named(sig);
                s.lemma_cancelled(CAPACITY, i);
            }
            SignalTerimnator { inner: sig }.cancel(&mut self.signals);
            assert(self@ =~= s.cancelled(sig));
        }
        found
    }

    /// Tries to remove the sender's signal from the wait list. Returns whether it
    /// was there.
    pub fn cancel_send_signal(&mut self, sig: usize) -> (found: bool)
        requires
            old(self).wf(),
        ensures
            final(self).wf(),
            found == (!old(self)@.recv_blocking && old(self)@.waits(sig)),
            final(self)@ == (if found {
                old(self)@.cancelled(sig)
            } else {
                old(self)@
            }),
    {
        !self.recv_blocking && self.cancel_signal(sig)
    }

    /// Tries to remove the receiver's signal from the wait list. Returns whether
    /// it was there.
    pub fn cancel_recv_signal(&mut self, sig: usize) -> (found: bool)
        requires
            old(self).wf(),
        ensures
            final(self).wf(),
            found == (old(self)@.recv_blocking && old(self)@.waits(sig)),
            final(self)@ == (if found {
                old(self)@.cancelled(sig)
            } else {
                old(self)@
            }),
    {
        self.recv_blocking && self.cancel_signal(sig)
    }

    /// Receives all values of the channel, those of the waiting senders too, and
    /// appends them to `vec`. Returns how many there were, and the wakers to wake.
    pub fn drain_into(&mut self, vec: &mut Vec<T>) -> (drained: (
        Result<usize, ReceiveError>,
        VecDeque<Waker>,
    ))
        requires
            old(self).wf(),
        ensures
            final(self).wf(),
            if old(self)@.recv_count == 0 {
                &&& drained.0 == Err::<usize, ReceiveError>(ReceiveError())
                &&& drained.1@ == Seq::<Waker>::empty()
                &&& final(self)@ == old(self)@
                &&& final(vec)@ == old(vec)@
            } else {
                &&& drained.0 is Ok
                &&& drained.0->Ok_0 == old(self)@.pending().len()
                &&& drained.1@ == (if old(self)@.recv_blocking {
                    Seq::empty()
                } else {
                    old(self)@.tasks()
                })
                &&& final(self)@ == old(self)@.drained()
                &&& final(vec)@ == old(vec)@ + old(self)@.pending()
            },
    {
        let ghost s = self@;
        let ghost v = vec@;
        let mut wakers: VecDeque<Waker> = VecDeque::new();
        if branches::unlikely(self.recv_count == 0) {
            return (Err(ReceiveError()), wakers);
        }
        let vec_initial_length: usize = vec.len();
        let waiting: usize = if self.recv_blocking {
            0
        } else {
            self.wait_list.len()
        };
        if let Some(required_cap) = self.queue.len().checked_add(waiting) {
            vec.reserve(required_cap);
        }
        if CAPACITY > 0 {
            while self.queue.len() > 0
                invariant
                    CAPACITY > 0,
                    s.wf(CAPACITY),
                    self.wf(),
                    self@ == (ChannelState { queue: self@.queue, ..s }),
                    vec@ + self@.queue == v + s.queue,
                decreases self@.queue.len(),
            {
                if let Some(value) = self.queue.pop_front() {
                    vec.push(value);
                }
                assert(self@ =~= (ChannelState { queue: self@.queue, ..s }));
                assert(vec@ + self@.queue =~= v + s.queue);
            }
        }
        assert(vec@ =~= v + s.queue);
        let ghost mut k: int = 0;
        assert(s.wait_list.skip(0) =~= s.wait_list);
        assert(Seq::new(0, |i: int| s.signals[s.wait_list[i].inner].data->0) =~= Seq::<T>::empty());
        loop
            invariant_except_break
                self@ == (ChannelState {
                    queue: Seq::empty(),
                    wait_list: s.wait_list.skip(k),
                    signals: self@.signals,
                    ..s
                }),
            invariant
                0 <= k <= s.wait_list.len(),
                k > 0 ==> !s.recv_blocking,
                s.wf(CAPACITY),
                vec@ == v + s.queue + Seq::new(
                    k as nat,
                    |i: int| s.signals[s.wait_list[i].inner].data->0,
                ),
                wakers@ == ChannelState::<T>::tasks_of(s.signals, s.wait_list.take(k)),
                self.wf(),
                self@.signals.dom() == s.signals.dom(),
                forall|id: usize| #[trigger]
                    s.signals.dom().contains(id) ==> self@.signals[id] == (
                    if s.wait_list.take(k).contains(SignalTerimnator::named(id)) {
                        s.signals[id].signalled(None)
                    } else {
                        s.signals[id]
                    }),
            ensures
                s.recv_blocking || k == s.wait_list.len(),
                self@ == (ChannelState {
                    queue: Seq::empty(),
                    wait_list: s.wait_list.skip(k),
                    signals: self@.signals,
                    ..s
                }).for_receivers(),
            decreases s.wait_list.len() - k,
        {
            let ghost now = self@;
            match self.next_send() {
                Some(first) => {
                    proof {
                        assert(first == s.wait_list[k]);
                        ChannelState::<T>::lemma_tasks_take(s.signals, s.wait_list, k);
                        SignalTerimnator::lemma_take_contains(s.wait_list, k);
                        assert(s.may_wait(s.wait_list[k].inner));
                        assert(!s.wait_list.take(k).contains(first));
                        now.lemma_popped(CAPACITY);
                        now.popped().lemma_with_signal(
                            CAPACITY,
                            first.inner,
                            now.first().signalled(None),
                        );
                    }
                    let (value, waker) = first.recv(&mut self.signals);
                    vec.push(value);
                    if let Some(waker) = waker {
                        wakers.push_back(waker);
                    }
                    proof {
                        assert(s.wait_list.skip(k).drop_first() =~= s.wait_list.skip(k + 1));
                        k = k + 1;
                        assert(vec@ =~= v + s.queue + Seq::new(
                            k as nat,
                            |i: int| s.signals[s.wait_list[i].inner].data->0,
                        ));
                    }
                },
                None => {
                    break;
                },
            }
        }
        proof {
            if !s.recv_blocking {
                assert(s.wait_list.take(k) =~= s.wait_list);
                assert(s.wait_list.skip(k) =~= Seq::<SignalTerimnator>::empty());
                assert(self@.signals =~= s.drained().signals);
            } else {
                assert(s.wait_list.take(k) =~= Seq::<SignalTerimnator>::empty());
                assert(self@.signals =~= s.drained().signals);
            }
            assert(vec@ =~= v + s.pending());
            assert(self@ =~= s.drained());
        }
        (Ok(vec.len() - vec_initial_length), wakers)
    }

    /// Polls the signal of a receiver. A resolved signal leaves the channel with
    /// this; a number that names no signal of a receiver stays pending.
    /// The waker that is left over comes back too, to be dropped.
    pub fn poll_recv(&mut self, id: usize, waker: Waker) -> (polled: (
        SignalPoll<Result<T, ReceiveError>>,
        Option<Waker>,
    ))
        requires
            old(self).wf(),
        ensures
            final(self).wf(),
            (final(self)@, polled.0) == old(self)@.poll_recv(id, waker),
            polled.1 == old(self)@.spare(id, SignalKind::Receive, waker),
    {
        let ghost s = self@;
        if !self.signals.contains(id) {
            return (SignalPoll::Pending, Some(waker));
        }
        match self.signals.get(id).kind {
            SignalKind::Send => {
                return (SignalPoll::Pending, Some(waker));
            },
            SignalKind::Receive => {},
        }
        let (poll, spare) = self.signals.get_mut(id).poll_recv(waker);
        match poll {
            SignalPoll::Ready(result) => {
                let _ = self.signals.remove(id);
                assert(self@ =~= s.without_signal(id));
                proof {
                    s.lemma_waits(CAPACITY, id);
                    s.lemma_without_signal(CAPACITY, id);
                }
                (SignalPoll::Ready(result), spare)
            },
            SignalPoll::Claimed => {
                assert(self@ =~= s);
                (SignalPoll::Claimed, spare)
            },
            SignalPoll::Pending => {
                assert(self@ =~= s.with_signal(id, s.signals[id].registered(waker)));
                proof {
                    s.lemma_registered(CAPACITY, id, waker);
                }
                (SignalPoll::Pending, spare)
            },
        }
    }

    /// Polls the signal of a sender. A resolved signal leaves the channel with
    /// this; a number that names no signal of a sender stays pending.
    /// The waker that is left over comes back too, to be dropped.
    pub fn poll_send(&mut self, id: usize, waker: Waker) -> (polled: (
        SignalPoll<Result<(), SendError<T>>>,
        Option<Waker>,
    ))
        requires
            old(self).wf(),
        ensures
            final(self).wf(),
            (final(self)@, polled.0) == old(self)@.poll_send(id, waker),
            polled.1 == old(self)@.spare(id, SignalKind::Send, waker),
    {
        let ghost s = self@;
        if !self.signals.contains(id) {
            return (SignalPoll::Pending, Some(waker));
        }
        match self.signals.get(id).kind {
            SignalKind::Send => {},
            SignalKind::Receive => {
                return (SignalPoll::Pending, Some(waker));
            },
        }
        let (poll, spare) = self.signals.get_mut(id).poll_send(waker);
        match poll {
            SignalPoll::Ready(result) => {
                let _ = self.signals.remove(id);
                assert(self@ =~= s.without_signal(id));
                proof {
                    s.lemma_waits(CAPACITY, id);
                    s.lemma_without_signal(CAPACITY, id);
                }
                (SignalPoll::Ready(result), spare)
            },
            SignalPoll::Claimed => {
                assert(self@ =~= s);
                (SignalPoll::Claimed, spare)
            },
            SignalPoll::Pending => {
                assert(self@ =~= s.with_signal(id, s.signals[id].registered(waker)));
                proof {
                    s.lemma_registered(CAPACITY, id, waker);
                }
                (SignalPoll::Pending, spare)
            },
        }
    }

    /// Gives up the signal of a receiver. One that waits leaves the wait list. What
    /// leaves the channel comes back; a value that was already delivered is lost
    /// with it.
    pub fn abandon_recv(&mut self, id: usize) -> (outcome: (Abandon, Option<Signal<T>>))
        requires
            old(self).wf(),
        ensures
            final(self).wf(),
            (final(self)@, outcome.0) == old(self)@.abandon(id, SignalKind::Receive),
            outcome.1 == old(self)@.leaving(id, SignalKind::Receive),
    {
        let ghost s = self@;
        if !self.signals.contains(id) {
            return (Abandon::Finished, None);
        }
        match self.signals.get(id).kind {
            SignalKind::Send => {
                return (Abandon::Finished, None);
            },
            SignalKind::Receive => {},
        }
        proof {
            s.lemma_waits(CAPACITY, id);
            s.lemma_abandoned(CAPACITY, id);
        }
        match self.signals.get(id).result() {
            SignalResult::Uninited | SignalResult::Pending => {
                if !self.unlist(id) {
                    return (Abandon::InFlight, None);
                }
            },
            SignalResult::Success | SignalResult::Failure => {},
        }
        let signal = self.signals.remove(id);
        assert(self@ =~= s.abandoned(id));
        (Abandon::Finished, Some(signal))
    }

    /// Lets go of the signal of a receiver that was given up in flight, once it
    /// is resolved. The value that came too late goes back into the buffer, if
    /// the channel has one, even beyond its capacity. Returns whether the signal
    /// has left the channel, and the value for which there is no buffer.
    ///
    /// Only a signal that was taken with [`ChannelInternal::next_recv`] and not yet
    /// filled can be given up in flight. A channel behind its lock does both in one
    /// step, so that the handles have no use for this.
    pub fn finish_abandoned_recv(&mut self, id: usize) -> (finished: (bool, Option<T>))
        requires
            old(self).wf(),
        ensures
            final(self).wf(),
            (final(self)@, finished.0) == old(self)@.finish_abandoned_recv(CAPACITY, id),
            finished.1 == old(self)@.left_over(CAPACITY, id),
    {
        let ghost s = self@;
        if !self.signals.contains(id) {
            return (true, None);
        }
        match self.signals.get(id).kind {
            SignalKind::Send => {
                return (true, None);
            },
            SignalKind::Receive => {},
        }
        proof {
            s.lemma_waits(CAPACITY, id);
        }
        match self.signals.get(id).result() {
            SignalResult::Uninited | SignalResult::Pending => {
                return (false, None);
            },
            SignalResult::Success | SignalResult::Failure => {},
        }
        let signal = self.signals.remove(id);
        proof {
            s.lemma_without_signal(CAPACITY, id);
        }
        assert(self@ =~= s.without_signal(id));
        if CAPACITY == 0 {
            return (true, signal.data);
        }
        if let Some(value) = signal.data {
            self.queue.push_back(value);
            assert(self@ =~= s.without_signal(id).enqueued(value));
        }
        (true, None)
    }

    /// Gives up the signal of a sender. The value of one that still waits, or that
    /// the channel gave up on, goes with it. What leaves the channel comes back, to
    /// be dropped.
    pub fn abandon_send(&mut self, id: usize) -> (outcome: (Abandon, Option<Signal<T>>))
        requires
            old(self).wf(),
        ensures
            final(self).wf(),
            (final(self)@, outcome.0) == old(self)@.abandon(id, SignalKind::Send),
            outcome.1 == old(self)@.leaving(id, SignalKind::Send),
    {
        let ghost s = self@;
        if !self.signals.contains(id) {
            return (Abandon::Finished, None);
        }
        match self.signals.get(id).kind {
            SignalKind::Send => {},
            SignalKind::Receive => {
                return (Abandon::Finished, None);
            },
        }
        proof {
            s.lemma_waits(CAPACITY, id);
            s.lemma_abandoned(CAPACITY, id);
        }
        match self.signals.get(id).result() {
            SignalResult::Uninited | SignalResult::Pending => {
                if !self.unlist(id) {
                    return (Abandon::InFlight, None);
                }
            },
            SignalResult::Success | SignalResult::Failure => {},
        }
        let signal = self.signals.remove(id);
        assert(self@ =~= s.abandoned(id));
        (Abandon::Finished, Some(signal))
    }

    /// The state of a signal, as [`crate::backoff::BlockingWait`] watches it. The
    /// handles have no use for this: behind the lock no signal is in flight.
    pub fn signal_state(&self, id: usize) -> (state: Option<usize>)
        ensures
            state == (if self@.signals.dom().contains(id) {
                Some(self@.signals[id].state)
            } else {
                None
            }),
    {
        if self.signals.contains(id) {
            Some(self.signals.get(id).state)
        } else {
            None
        }
    }

    /// Count of buffered values.
    pub fn len(&self) -> (len: usize)
        requires
            self.wf(),
        ensures
            len == self@.queue.len(),
    {
        if CAPACITY == 0 {
            return 0;
        }
        self.queue.len()
    }

    /// Whether no value is buffered.
    pub fn is_empty(&self) -> (empty: bool)
        ensures
            empty == (self@.queue.len() == 0),
    {
        self.queue.len() == 0
    }

    /// Whether the buffer is full; without a buffer it always is.
    pub fn is_full(&self) -> (full: bool)
        ensures
            full == (CAPACITY == 0 || self@.queue.len() == CAPACITY),
    {
        if CAPACITY == 0 {
            return true;
        }
        CAPACITY == self.queue.len()
    }

    /// How many values the buffer can hold.
    pub fn capacity(&self) -> (capacity: usize)
        ensures
            capacity == CAPACITY,
    {
        CAPACITY
    }

    /// Count of alive receivers.
    pub fn receiver_count(&self) -> (count: usize)
        ensures
            count == self@.recv_count,
    {
        self.recv_count
    }

    /// Count of alive senders.
    pub fn sender_count(&self) -> (count: usize)
        ensures
            count == self@.send_count,
    {
        self.send_count
    }

    /// Count of alive handles.
    pub(crate) fn handle_count(&self) -> (count: usize)
        ensures
            count == self@.ref_count,
    {
        self.ref_count
    }

    /// Whether the channel is closed on both sides.
    pub fn is_closed(&self) -> (closed: bool)
        ensures
            closed == self@.closed(),
    {
        self.send_count == 0 && self.recv_count == 0
    }

    /// Whether no sender is left and no value is buffered.
    pub fn is_terminated(&self) -> (terminated: bool)
        ensures
            terminated == self@.terminated(),
    {
        self.send_count == 0 && self.queue.len() == 0
    }
}

} // verus!
