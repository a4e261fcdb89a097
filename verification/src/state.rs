//! What a channel is to the proofs, and what each operation makes of it.
use vstd::prelude::*;
use core::task::Waker;
use crate::error::{ReceiveError, ReceiveErrorTimeout, SendError};
use crate::internal::Abandon;
use crate::signal::{Signal, SignalKind, SignalPoll, SIGNALLED};
use crate::terminator::SignalTerimnator;

verus! {

/// The contents of a channel.
#[verifier::ext_equal]
#[verifier::reject_recursive_types(T)]
pub struct ChannelState<T> {
    /// The buffered values, the oldest first.
    pub queue: Seq<T>,
    /// Whether those in the wait list are receivers.
    pub recv_blocking: bool,
    /// The signals that wait to be served, the oldest first.
    pub wait_list: Seq<SignalTerimnator>,
    /// All signals of the channel, the resolved ones as well.
    pub signals: Map<usize, Signal<T>>,
    /// The receivers that are alive.
    pub recv_count: nat,
    /// The senders that are alive.
    pub send_count: nat,
    /// The handles that are alive.
    pub ref_count: nat,
}

impl<T> ChannelState<T> {
    /// The tasks that wait on the named signals, in this order.
    pub open spec fn tasks_of(
        signals: Map<usize, Signal<T>>,
        names: Seq<SignalTerimnator>,
    ) -> Seq<Waker> {
        names.filter_map(|t: SignalTerimnator| signals[t.inner].task())
    }

    /// The tasks of one name more.
    pub proof fn lemma_tasks_take(
        signals: Map<usize, Signal<T>>,
        names: Seq<SignalTerimnator>,
        i: int,
    )
        requires
            0 <= i < names.len(),
        ensures
            Self::tasks_of(signals, names.take(i + 1)) == (match signals[names[i].inner].task() {
                Some(task) => Self::tasks_of(signals, names.take(i)).push(task),
                None => Self::tasks_of(signals, names.take(i)),
            }),
    {
        let f = |t: SignalTerimnator| signals[t.inner].task();
        names.lemma_filter_map_take_succ(f, i);
    }

    /// A channel without values and signals, with these counts.
    pub open spec fn empty(recv_count: nat, send_count: nat, ref_count: nat) -> Self {
        ChannelState {
            queue: Seq::empty(),
            recv_blocking: false,
            wait_list: Seq::empty(),
            signals: Map::empty(),
            recv_count,
            send_count,
            ref_count,
        }
    }

    /// The side that the wait list holds.
    pub open spec fn kind(self) -> SignalKind {
        if self.recv_blocking {
            SignalKind::Receive
        } else {
            SignalKind::Send
        }
    }

    /// A receiver waits for a value.
    pub open spec fn receivers_wait(self) -> bool {
        self.recv_blocking && self.wait_list.len() > 0
    }

    /// A sender waits for room.
    pub open spec fn senders_wait(self) -> bool {
        !self.recv_blocking && self.wait_list.len() > 0
    }

    /// The channel has a signal of this kind under this number.
    pub open spec fn has_signal(self, id: usize, kind: SignalKind) -> bool {
        self.signals.dom().contains(id) && self.signals[id].kind == kind
    }

    /// The signal may stand in the wait list.
    pub open spec fn may_wait(self, id: usize) -> bool {
        &&& self.has_signal(id, self.kind())
        &&& self.signals[id].waiting()
        &&& !(self.signals[id].waker is Notified)
    }

    /// The parts of the channel agree.
    pub open spec fn wf(self, capacity: usize) -> bool {
        &&& self.wait_list.no_duplicates()
        &&& forall|i: int|
            0 <= i < self.wait_list.len() ==> self.may_wait((#[trigger] self.wait_list[i]).inner)
        &&& forall|id: usize| #[trigger]
            self.signals.dom().contains(id) ==> self.signals[id].wf()
        &&& capacity == 0 ==> self.queue.len() == 0
    }

    /// No signal is between being taken from the wait list and being resolved.
    pub open spec fn settled(self) -> bool {
        forall|id: usize| #[trigger]
            self.signals.dom().contains(id) && self.signals[id].waiting()
                ==> self.wait_list.contains(SignalTerimnator::named(id))
    }

    /// Nobody waits without need: the buffer holds no more than its capacity,
    /// senders wait only when it is full and receivers only when it is empty.
    pub open spec fn orderly(self, capacity: usize) -> bool {
        &&& self.settled()
        &&& self.queue.len() <= capacity
        &&& self.senders_wait() ==> self.queue.len() == capacity
        &&& self.receivers_wait() ==> self.queue.len() == 0
    }

    /// The values that the waiting senders carry, the oldest first.
    pub open spec fn offered(self) -> Seq<T> {
        if self.recv_blocking {
            Seq::empty()
        } else {
            Seq::new(self.wait_list.len(), |i: int| self.signals[self.wait_list[i].inner].data->0)
        }
    }

    /// The values that were sent and not yet received, the oldest first.
    pub open spec fn pending(self) -> Seq<T> {
        self.queue + self.offered()
    }

    /// The tasks that wait, in the order of the wait list.
    pub open spec fn tasks(self) -> Seq<Waker> {
        Self::tasks_of(self.signals, self.wait_list)
    }

    /// The signal that is next to be served.
    pub open spec fn first(self) -> Signal<T> {
        self.signals[self.wait_list[0].inner]
    }

    /// The channel, with its wait list open to senders.
    pub open spec fn for_senders(self) -> Self {
        ChannelState { recv_blocking: false, ..self }
    }

    /// The channel, with its wait list open to receivers.
    pub open spec fn for_receivers(self) -> Self {
        ChannelState { recv_blocking: true, ..self }
    }

    /// The channel, without the first of its wait list.
    pub open spec fn popped(self) -> Self {
        ChannelState { wait_list: self.wait_list.drop_first(), ..self }
    }

    /// The channel after the first waiting receiver got `data`.
    pub open spec fn delivered(self, data: T) -> Self {
        ChannelState {
            signals: self.signals.insert(
                self.wait_list[0].inner,
                self.first().signalled(Some(data)),
            ),
            ..self.popped()
        }
    }

    /// The channel after the first waiting sender gave its value away.
    pub open spec fn collected(self) -> Self {
        ChannelState {
            signals: self.signals.insert(self.wait_list[0].inner, self.first().signalled(None)),
            ..self.popped()
        }
    }

    /// The channel with `data` behind the buffered values.
    pub open spec fn enqueued(self, data: T) -> Self {
        ChannelState { queue: self.queue.push(data), ..self }
    }

    /// The channel without the oldest buffered value.
    pub open spec fn dequeued(self) -> Self {
        ChannelState { queue: self.queue.drop_first(), ..self }
    }

    /// The channel with no buffered values.
    pub open spec fn cleared(self) -> Self {
        ChannelState { queue: Seq::empty(), ..self }
    }

    /// The channel with one more signal, which waits behind the others.
    pub open spec fn joined(self, id: usize, signal: Signal<T>) -> Self {
        ChannelState {
            signals: self.signals.insert(id, signal),
            wait_list: self.wait_list.push(SignalTerimnator::named(id)),
            ..self
        }
    }

    /// The signal stands in the wait list.
    pub open spec fn waits(self, id: usize) -> bool {
        self.wait_list.contains(SignalTerimnator::named(id))
    }

    /// The channel without the signal in its wait list.
    pub open spec fn unlisted(self, id: usize) -> Self {
        ChannelState {
            wait_list: self.wait_list.remove_value(SignalTerimnator::named(id)),
            ..self
        }
    }

    /// The channel after the signal left the wait list of its own accord.
    pub open spec fn cancelled(self, id: usize) -> Self {
        self.unlisted(id).with_signal(id, self.signals[id].terminated())
    }

    /// The channel with another signal under the number.
    pub open spec fn with_signal(self, id: usize, signal: Signal<T>) -> Self {
        ChannelState { signals: self.signals.insert(id, signal), ..self }
    }

    /// The channel without the signal.
    pub open spec fn without_signal(self, id: usize) -> Self {
        ChannelState { signals: self.signals.remove(id), ..self }
    }

    /// The channel after it gave up on all that wait.
    pub open spec fn all_terminated(self) -> Self {
        ChannelState {
            wait_list: Seq::empty(),
            signals: Map::new(
                |id: usize| self.signals.dom().contains(id),
                |id: usize|
                    if self.wait_list.contains(SignalTerimnator::named(id)) {
                        self.signals[id].terminated()
                    } else {
                        self.signals[id]
                    },
            ),
            ..self
        }
    }

    /// The channel after all that wait gave their values away.
    pub open spec fn all_collected(self) -> Self {
        ChannelState {
            wait_list: Seq::empty(),
            signals: Map::new(
                |id: usize| self.signals.dom().contains(id),
                |id: usize|
                    if self.wait_list.contains(SignalTerimnator::named(id)) {
                        self.signals[id].signalled(None)
                    } else {
                        self.signals[id]
                    },
            ),
            ..self
        }
    }

    /// A send comes to its end without waiting.
    pub open spec fn sends_at_once(self, capacity: usize) -> bool {
        self.recv_count == 0 || self.receivers_wait() || self.queue.len() < capacity
    }

    /// A send that does not wait: the channel after it, its result and the task
    /// to wake.
    ///
    /// Without receivers the value comes back. The first waiting receiver gets
    /// it, or else the buffer while there is room, or else it comes back.
    pub open spec fn try_send(
        self,
        capacity: usize,
        data: T,
    ) -> (Self, Result<(), SendError<T>>, Option<Waker>) {
        if self.recv_count == 0 {
            (self, Err(SendError(data)), None)
        } else if self.receivers_wait() {
            (self.delivered(data), Ok(()), self.first().task())
        } else if self.queue.len() < capacity {
            (self.for_senders().enqueued(data), Ok(()), None)
        } else {
            (self.for_senders(), Err(SendError(data)), None)
        }
    }

    /// A value can be received.
    pub open spec fn has_value(self) -> bool {
        self.queue.len() > 0 || self.senders_wait()
    }

    /// The channel after the oldest value was received, and the task to wake.
    ///
    /// The first waiting sender, if there is one, takes the room that has come
    /// free in the buffer.
    pub open spec fn received(self) -> (Self, T, Option<Waker>) {
        if self.queue.len() == 0 {
            (self.collected(), self.first().data->0, self.first().task())
        } else if self.senders_wait() {
            (
                self.collected().dequeued().enqueued(self.first().data->0),
                self.queue[0],
                self.first().task(),
            )
        } else {
            (self.for_receivers().dequeued(), self.queue[0], None)
        }
    }

    /// A receive that does not wait: the channel after it, its result and the
    /// task to wake.
    pub open spec fn try_recv(self) -> (Self, Result<T, ReceiveErrorTimeout>, Option<Waker>) {
        if self.recv_count == 0 {
            (self, Err(ReceiveErrorTimeout::Closed), None)
        } else if self.has_value() {
            let (next, value, task) = self.received();
            (next, Ok(value), task)
        } else if self.send_count == 0 {
            (self.for_receivers(), Err(ReceiveErrorTimeout::Closed), None)
        } else {
            (self.for_receivers(), Err(ReceiveErrorTimeout::Timeout), None)
        }
    }

    /// The senders are gone, and so are their values.
    pub open spec fn terminated(self) -> bool {
        self.send_count == 0 && self.queue.len() == 0
    }

    /// The channel was closed on both sides.
    pub open spec fn closed(self) -> bool {
        self.send_count == 0 && self.recv_count == 0
    }

    /// The channel after all its values were received.
    pub open spec fn drained(self) -> Self {
        if self.recv_blocking {
            self.cleared()
        } else {
            self.all_collected().for_receivers().cleared()
        }
    }

    /// The channel after it was closed.
    pub open spec fn after_close(self) -> Self {
        ChannelState { recv_count: 0, send_count: 0, ..self.all_terminated().cleared() }
    }

    /// The channel with one more handle on the given side. A side that is closed
    /// stays closed.
    pub open spec fn after_inc(self, is_sender: bool) -> Self {
        ChannelState {
            send_count: if is_sender && self.send_count > 0 {
                self.send_count + 1
            } else {
                self.send_count
            },
            recv_count: if !is_sender && self.recv_count > 0 {
                self.recv_count + 1
            } else {
                self.recv_count
            },
            ref_count: self.ref_count + 1,
            ..self
        }
    }

    /// One more handle can be counted: no count is at the limit of the machine.
    pub open spec fn countable(self) -> bool {
        &&& self.ref_count < usize::MAX
        &&& self.send_count < usize::MAX
        &&& self.recv_count < usize::MAX
    }

    /// The handle that goes is the last of its side, and there is somebody to
    /// tell: those that wait are released.
    pub open spec fn last_of_side(self, is_sender: bool) -> bool {
        if is_sender {
            self.send_count == 1 && self.recv_count != 0
        } else {
            self.recv_count == 1
        }
    }

    /// The channel with one handle less on the given side.
    ///
    /// When the last sender goes while there are receivers, the channel gives up
    /// on all that wait; when the last receiver goes, on all that wait and on the
    /// buffered values.
    pub open spec fn after_dec(self, is_sender: bool) -> Self {
        let rest = if !self.last_of_side(is_sender) {
            self
        } else if is_sender {
            self.all_terminated()
        } else {
            self.all_terminated().cleared()
        };
        ChannelState {
            send_count: if is_sender && self.send_count > 0 {
                (self.send_count - 1) as nat
            } else {
                self.send_count
            },
            recv_count: if !is_sender && self.recv_count > 0 {
                (self.recv_count - 1) as nat
            } else {
                self.recv_count
            },
            ref_count: (self.ref_count - 1) as nat,
            ..rest
        }
    }

    /// The signal waits, and no peer has claimed it yet.
    pub open spec fn registrable(self, id: usize) -> bool {
        self.signals[id].waiting() && !(self.signals[id].waker is Notified)
    }

    /// The waker that is left over when a signal of this kind is polled: the one
    /// that was registered before, or the one that was not registered.
    pub open spec fn spare(self, id: usize, kind: SignalKind, waker: Waker) -> Option<Waker> {
        if self.has_signal(id, kind) && self.registrable(id) {
            self.signals[id].task()
        } else {
            Some(waker)
        }
    }

    /// Polling the signal of a receiver: the channel after it, and the outcome.
    pub open spec fn poll_recv(self, id: usize, waker: Waker) -> (
        Self,
        SignalPoll<Result<T, ReceiveError>>,
    ) {
        let signal = self.signals[id];
        if !self.has_signal(id, SignalKind::Receive) {
            (self, SignalPoll::Pending)
        } else if self.registrable(id) {
            (self.with_signal(id, signal.registered(waker)), SignalPoll::Pending)
        } else if signal.waiting() {
            (self, SignalPoll::Claimed)
        } else if signal.state == SIGNALLED {
            (self.without_signal(id), SignalPoll::Ready(Ok(signal.data->0)))
        } else {
            (self.without_signal(id), SignalPoll::Ready(Err(ReceiveError())))
        }
    }

    /// Polling the signal of a sender: the channel after it, and the outcome.
    pub open spec fn poll_send(self, id: usize, waker: Waker) -> (
        Self,
        SignalPoll<Result<(), SendError<T>>>,
    ) {
        let signal = self.signals[id];
        if !self.has_signal(id, SignalKind::Send) {
            (self, SignalPoll::Pending)
        } else if self.registrable(id) {
            (self.with_signal(id, signal.registered(waker)), SignalPoll::Pending)
        } else if signal.waiting() {
            (self, SignalPoll::Claimed)
        } else if signal.state == SIGNALLED {
            (self.without_signal(id), SignalPoll::Ready(Ok(())))
        } else {
            (self.without_signal(id), SignalPoll::Ready(Err(SendError(signal.data->0))))
        }
    }

    /// The channel after a signal left it, and its wait list.
    pub open spec fn abandoned(self, id: usize) -> Self {
        if self.waits(id) {
            self.unlisted(id).without_signal(id)
        } else {
            self.without_signal(id)
        }
    }

    /// Giving up a signal of this kind: the channel after it, and the outcome.
    pub open spec fn abandon(self, id: usize, kind: SignalKind) -> (Self, Abandon) {
        if !self.has_signal(id, kind) {
            (self, Abandon::Finished)
        } else if self.signals[id].waiting() && !self.waits(id) {
            (self, Abandon::InFlight)
        } else {
            (self.abandoned(id), Abandon::Finished)
        }
    }

    /// What leaves the channel when a signal of this kind is given up.
    pub open spec fn leaving(self, id: usize, kind: SignalKind) -> Option<Signal<T>> {
        if self.has_signal(id, kind) && self.abandon(id, kind).1 is Finished {
            Some(self.signals[id])
        } else {
            None
        }
    }

    /// The value for which a channel without a buffer has no place when it lets go
    /// of the signal of a receiver that was given up in flight.
    pub open spec fn left_over(self, capacity: usize, id: usize) -> Option<T> {
        if capacity == 0 && self.has_signal(id, SignalKind::Receive) && self.signals[id].state
            == SIGNALLED {
            self.signals[id].data
        } else {
            None
        }
    }

    /// Letting go of the signal of a receiver that was given up in flight: the
    /// channel after it, and whether the signal has gone.
    pub open spec fn finish_abandoned_recv(self, capacity: usize, id: usize) -> (Self, bool) {
        if !self.has_signal(id, SignalKind::Receive) {
            (self, true)
        } else if self.signals[id].waiting() {
            (self, false)
        } else if self.signals[id].state == SIGNALLED && capacity > 0 {
            (self.without_signal(id).enqueued(self.signals[id].data->0), true)
        } else {
            (self.without_signal(id), true)
        }
    }

    /// A signal that leaves keeps the channel well formed.
    pub proof fn lemma_abandoned(self, capacity: usize, id: usize)
        requires
            self.wf(capacity),
        ensures
            self.abandoned(id).wf(capacity),
    {
        if self.waits(id) {
            let i = choose|i: int|
                0 <= i < self.wait_list.len() && self.wait_list[i] == SignalTerimnator::named(id);
            self.lemma_unlisted(capacity, i);
            self.unlisted(id).lemma_without_signal(capacity, id);
        } else {
            self.lemma_without_signal(capacity, id);
        }
    }

    /// A signal in the wait list may stand there.
    pub proof fn lemma_waits(self, capacity: usize, id: usize)
        requires
            self.wf(capacity),
        ensures
            self.waits(id) ==> self.may_wait(id),
    {
        if self.waits(id) {
            let i = choose|i: int|
                0 <= i < self.wait_list.len() && self.wait_list[i] == SignalTerimnator::named(id);
            assert(self.may_wait(self.wait_list[i].inner));
        }
    }

    /// Registering a waker keeps the channel well formed.
    pub proof fn lemma_registered(self, capacity: usize, id: usize, waker: Waker)
        requires
            self.wf(capacity),
            self.signals.dom().contains(id),
            self.registrable(id),
        ensures
            self.with_signal(id, self.signals[id].registered(waker)).wf(capacity),
    {
        let next = self.with_signal(id, self.signals[id].registered(waker));
        assert forall|i: int| 0 <= i < next.wait_list.len() implies next.may_wait(
            (#[trigger] next.wait_list[i]).inner,
        ) by {
            assert(self.may_wait(self.wait_list[i].inner));
        }
    }

    /// Taking the first off the wait list keeps the channel well formed.
    pub proof fn lemma_popped(self, capacity: usize)
        requires
            self.wf(capacity),
            self.wait_list.len() > 0,
        ensures
            self.popped().wf(capacity),
            self.may_wait(self.wait_list[0].inner),
            !self.popped().wait_list.contains(self.wait_list[0]),
    {
        let next = self.popped();
        assert(self.may_wait(self.wait_list[0].inner));
        assert forall|i: int| 0 <= i < next.wait_list.len() implies next.may_wait(
            (#[trigger] next.wait_list[i]).inner,
        ) by {
            assert(next.wait_list[i] == self.wait_list[i + 1]);
        }
        assert forall|i: int, j: int|
            0 <= i < next.wait_list.len() && 0 <= j < next.wait_list.len() && i
                != j implies next.wait_list[i] != next.wait_list[j] by {
            assert(next.wait_list[i] == self.wait_list[i + 1]);
            assert(next.wait_list[j] == self.wait_list[j + 1]);
        }
        if next.wait_list.contains(self.wait_list[0]) {
            let i = choose|i: int|
                0 <= i < next.wait_list.len() && next.wait_list[i] == self.wait_list[0];
            assert(next.wait_list[i] == self.wait_list[i + 1]);
        }
    }

    /// Resolving a signal that is not in the wait list keeps the channel well
    /// formed.
    pub proof fn lemma_with_signal(self, capacity: usize, id: usize, signal: Signal<T>)
        requires
            self.wf(capacity),
            !self.wait_list.contains(SignalTerimnator::named(id)),
            signal.wf(),
        ensures
            self.with_signal(id, signal).wf(capacity),
    {
        let next = self.with_signal(id, signal);
        assert forall|i: int| 0 <= i < next.wait_list.len() implies next.may_wait(
            (#[trigger] next.wait_list[i]).inner,
        ) by {
            assert(self.wait_list.contains(self.wait_list[i]));
            assert(self.may_wait(self.wait_list[i].inner));
            if self.wait_list[i].inner == id {
                assert(self.wait_list[i] == SignalTerimnator::named(id));
            }
        }
    }

    /// Taking a signal off the wait list and resolving it keeps the channel well
    /// formed.
    pub proof fn lemma_cancelled(self, capacity: usize, i: int)
        requires
            self.wf(capacity),
            0 <= i < self.wait_list.len(),
        ensures
            self.cancelled(self.wait_list[i].inner).wf(capacity),
    {
        let id = self.wait_list[i].inner;
        assert(self.may_wait(id));
        self.lemma_unlisted(capacity, i);
        self.unlisted(id).lemma_with_signal(capacity, id, self.signals[id].terminated());
    }

    /// Taking a signal off the wait list keeps the channel well formed, wherever
    /// in the list the signal stands.
    pub proof fn lemma_unlisted(self, capacity: usize, i: int)
        requires
            self.wf(capacity),
            0 <= i < self.wait_list.len(),
        ensures
            self.unlisted(self.wait_list[i].inner).wf(capacity),
            self.unlisted(self.wait_list[i].inner).wait_list == self.wait_list.remove(i),
            !self.unlisted(self.wait_list[i].inner).waits(self.wait_list[i].inner),
    {
        let id = self.wait_list[i].inner;
        let t = SignalTerimnator::named(id);
        let next = self.unlisted(id);
        assert(self.may_wait(id));
        assert(self.wait_list.contains(t));
        self.wait_list.index_of_first_ensures(t);
        assert(next.wait_list == self.wait_list.remove(i));
        assert forall|k: int| 0 <= k < next.wait_list.len() implies #[trigger] next.wait_list[k]
            == self.wait_list[if k < i {
            k
        } else {
            k + 1
        }] by {}
        assert forall|k: int| 0 <= k < next.wait_list.len() implies next.may_wait(
            (#[trigger] next.wait_list[k]).inner,
        ) by {
            let j = if k < i {
                k
            } else {
                k + 1
            };
            assert(self.may_wait(self.wait_list[j].inner));
            assert(self.wait_list[j] != self.wait_list[i]);
        }
        if next.wait_list.contains(t) {
            let k = choose|k: int| 0 <= k < next.wait_list.len() && next.wait_list[k] == t;
            let j = if k < i {
                k
            } else {
                k + 1
            };
            assert(self.wait_list[j] == self.wait_list[i]);
        }
    }

    /// Removing a signal that is not in the wait list keeps the channel well
    /// formed.
    pub proof fn lemma_without_signal(self, capacity: usize, id: usize)
        requires
            self.wf(capacity),
            !self.waits(id),
        ensures
            self.without_signal(id).wf(capacity),
    {
        let next = self.without_signal(id);
        assert forall|i: int| 0 <= i < next.wait_list.len() implies next.may_wait(
            (#[trigger] next.wait_list[i]).inner,
        ) by {
            assert(self.wait_list.contains(self.wait_list[i]));
            assert(self.may_wait(self.wait_list[i].inner));
            if self.wait_list[i].inner == id {
                assert(self.wait_list[i] == SignalTerimnator::named(id));
            }
        }
    }
}

} // verus!
