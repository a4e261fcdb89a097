//! What holds of a channel across its operations.
use vstd::prelude::*;
use core::task::Waker;
use crate::error::{ReceiveError, ReceiveErrorTimeout, SendError};
use crate::internal::Abandon;
use crate::signal::{Signal, SignalKind, SignalPoll, SIGNALLED};
use crate::state::ChannelState;
use crate::terminator::SignalTerimnator;

verus! {

/// A new channel is well formed and orderly.
pub proof fn new_is_orderly<T>(capacity: usize, recv_count: nat, send_count: nat, ref_count: nat)
    ensures
        ChannelState::<T>::empty(recv_count, send_count, ref_count).wf(capacity),
        ChannelState::<T>::empty(recv_count, send_count, ref_count).orderly(capacity),
{
}

/// Serving the first of the wait list leaves a channel settled.
proof fn settled_after_serving<T>(s: ChannelState<T>, capacity: usize, served: Signal<T>)
    requires
        s.wf(capacity),
        s.settled(),
        s.wait_list.len() > 0,
        !served.waiting(),
    ensures
        (ChannelState {
            signals: s.signals.insert(s.wait_list[0].inner, served),
            ..s.popped()
        }).settled(),
{
    let next = ChannelState {
        signals: s.signals.insert(s.wait_list[0].inner, served),
        ..s.popped()
    };
    assert forall|id: usize| #[trigger]
        next.signals.dom().contains(id) && next.signals[id].waiting() implies next.wait_list.contains(
        SignalTerimnator::named(id),
    ) by {
        if id != s.wait_list[0].inner {
            assert(s.may_wait(s.wait_list[0].inner));
            assert(s.signals.dom().contains(id));
            let i = choose|i: int|
                0 <= i < s.wait_list.len() && s.wait_list[i] == SignalTerimnator::named(id);
            assert(next.wait_list[i - 1] == SignalTerimnator::named(id));
        }
    }
}

/// A send that does not wait keeps a channel well formed and orderly.
pub proof fn try_send_keeps_order<T>(s: ChannelState<T>, capacity: usize, data: T)
    requires
        s.wf(capacity),
        s.orderly(capacity),
    ensures
        s.try_send(capacity, data).0.wf(capacity),
        s.try_send(capacity, data).0.orderly(capacity),
{
    if s.recv_count != 0 && s.receivers_wait() {
        s.lemma_popped(capacity);
        s.popped().lemma_with_signal(
            capacity,
            s.wait_list[0].inner,
            s.first().signalled(Some(data)),
        );
        settled_after_serving(s, capacity, s.first().signalled(Some(data)));
    }
}

/// A sender that starts to wait keeps a channel well formed and orderly.
pub proof fn waiting_send_keeps_order<T>(s: ChannelState<T>, capacity: usize, id: usize, data: T)
    requires
        s.wf(capacity),
        s.orderly(capacity),
        !s.sends_at_once(capacity),
        !s.signals.dom().contains(id),
    ensures
        s.for_senders().joined(id, Signal::spec_send(data)).wf(capacity),
        s.for_senders().joined(id, Signal::spec_send(data)).orderly(capacity),
{
    joining_keeps_order(s.for_senders(), capacity, id, Signal::spec_send(data));
}

/// A signal that joins the wait list of its side keeps a channel well formed and
/// settled.
proof fn joining_keeps_order<T>(
    s: ChannelState<T>,
    capacity: usize,
    id: usize,
    signal: Signal<T>,
)
    requires
        s.wf(capacity),
        s.settled(),
        !s.signals.dom().contains(id),
        signal.wf(),
        signal.waiting(),
        !(signal.waker is Notified),
        signal.kind == s.kind(),
    ensures
        s.joined(id, signal).wf(capacity),
        s.joined(id, signal).settled(),
{
    let next = s.joined(id, signal);
    s.lemma_waits(capacity, id);
    assert forall|i: int| 0 <= i < next.wait_list.len() implies next.may_wait(
        (#[trigger] next.wait_list[i]).inner,
    ) by {
        if i < s.wait_list.len() {
            assert(s.may_wait(s.wait_list[i].inner));
        }
    }
    assert forall|i: int, j: int|
        0 <= i < next.wait_list.len() && 0 <= j < next.wait_list.len() && i
            != j implies next.wait_list[i] != next.wait_list[j] by {
        assert(!s.wait_list.contains(SignalTerimnator::named(id)));
    }
    assert forall|other: usize| #[trigger]
        next.signals.dom().contains(other)
            && next.signals[other].waiting() implies next.wait_list.contains(
        SignalTerimnator::named(other),
    ) by {
        if other == id {
            assert(next.wait_list[s.wait_list.len() as int] == SignalTerimnator::named(id));
        } else {
            assert(s.signals.dom().contains(other));
            let i = choose|i: int|
                0 <= i < s.wait_list.len() && s.wait_list[i] == SignalTerimnator::named(other);
            assert(next.wait_list[i] == SignalTerimnator::named(other));
        }
    }
}

/// Receiving a value keeps a channel well formed and orderly.
pub proof fn receiving_keeps_order<T>(s: ChannelState<T>, capacity: usize)
    requires
        s.wf(capacity),
        s.orderly(capacity),
        s.has_value(),
    ensures
        s.received().0.wf(capacity),
        s.received().0.orderly(capacity),
{
    if s.senders_wait() {
        s.lemma_popped(capacity);
        s.popped().lemma_with_signal(
            capacity,
            s.wait_list[0].inner,
            s.first().signalled(None),
        );
        settled_after_serving(s, capacity, s.first().signalled(None));
    }
}

/// A receive that does not wait keeps a channel well formed and orderly.
pub proof fn try_recv_keeps_order<T>(s: ChannelState<T>, capacity: usize)
    requires
        s.wf(capacity),
        s.orderly(capacity),
    ensures
        s.try_recv().0.wf(capacity),
        s.try_recv().0.orderly(capacity),
{
    if s.has_value() {
        receiving_keeps_order(s, capacity);
    }
}

/// A receiver that starts to wait keeps a channel well formed and orderly.
pub proof fn waiting_recv_keeps_order<T>(s: ChannelState<T>, capacity: usize, id: usize)
    requires
        s.wf(capacity),
        s.orderly(capacity),
        !s.has_value(),
        !s.signals.dom().contains(id),
    ensures
        s.for_receivers().joined(id, Signal::<T>::spec_recv()).wf(capacity),
        s.for_receivers().joined(id, Signal::<T>::spec_recv()).orderly(capacity),
{
    joining_keeps_order(s.for_receivers(), capacity, id, Signal::<T>::spec_recv());
}

/// Draining a channel keeps it well formed and orderly.
pub proof fn draining_keeps_order<T>(s: ChannelState<T>, capacity: usize)
    requires
        s.wf(capacity),
        s.orderly(capacity),
    ensures
        s.drained().wf(capacity),
        s.drained().orderly(capacity),
{
    let next = s.drained();
    if !s.recv_blocking {
        assert forall|id: usize| #[trigger]
            next.signals.dom().contains(id) implies next.signals[id].wf()
            && !next.signals[id].waiting() by {
            assert(s.signals.dom().contains(id));
            s.lemma_waits(capacity, id);
        }
    }
}

/// Giving up on all that wait keeps a channel well formed and settled.
proof fn terminating_keeps_order<T>(s: ChannelState<T>, capacity: usize)
    requires
        s.wf(capacity),
        s.settled(),
    ensures
        s.all_terminated().wf(capacity),
        s.all_terminated().settled(),
{
    let next = s.all_terminated();
    assert forall|id: usize| #[trigger]
        next.signals.dom().contains(id) implies next.signals[id].wf()
        && !next.signals[id].waiting() by {
        assert(s.signals.dom().contains(id));
        s.lemma_waits(capacity, id);
    }
}

/// Closing a channel keeps it well formed and orderly.
pub proof fn closing_keeps_order<T>(s: ChannelState<T>, capacity: usize)
    requires
        s.wf(capacity),
        s.orderly(capacity),
    ensures
        s.after_close().wf(capacity),
        s.after_close().orderly(capacity),
{
    terminating_keeps_order(s, capacity);
    let all = s.all_terminated();
    let next = s.after_close();
    assert forall|id: usize| #[trigger]
        next.signals.dom().contains(id) implies next.signals[id].wf()
        && !next.signals[id].waiting() by {
        assert(all.signals.dom().contains(id));
    }
}

/// A handle that comes or goes keeps a channel well formed and orderly.
pub proof fn counting_keeps_order<T>(s: ChannelState<T>, capacity: usize, is_sender: bool)
    requires
        s.wf(capacity),
        s.orderly(capacity),
    ensures
        s.after_inc(is_sender).wf(capacity),
        s.after_inc(is_sender).orderly(capacity),
        s.after_dec(is_sender).wf(capacity),
        s.after_dec(is_sender).orderly(capacity),
{
    terminating_keeps_order(s, capacity);
    let more = s.after_inc(is_sender);
    assert forall|id: usize| #[trigger] more.signals.dom().contains(id) implies {
        &&& more.signals[id].wf()
        &&& more.signals[id].waiting() ==> more.wait_list.contains(SignalTerimnator::named(id))
    } by {
        assert(s.signals.dom().contains(id));
    }
    assert forall|i: int| 0 <= i < more.wait_list.len() implies more.may_wait(
        (#[trigger] more.wait_list[i]).inner,
    ) by {
        assert(s.may_wait(s.wait_list[i].inner));
    }
    let all = s.all_terminated();
    let less = s.after_dec(is_sender);
    assert forall|id: usize| #[trigger] less.signals.dom().contains(id) implies {
        &&& less.signals[id].wf()
        &&& less.signals[id].waiting() ==> less.wait_list.contains(SignalTerimnator::named(id))
    } by {
        assert(s.signals.dom().contains(id));
        assert(all.signals.dom().contains(id));
    }
    assert forall|i: int| 0 <= i < less.wait_list.len() implies less.may_wait(
        (#[trigger] less.wait_list[i]).inner,
    ) by {
        assert(s.may_wait(s.wait_list[i].inner));
    }
}

/// Polling a signal keeps a channel well formed and orderly, and in an orderly
/// channel no signal is found half claimed.
pub proof fn polling_keeps_order<T>(s: ChannelState<T>, capacity: usize, id: usize, waker: Waker)
    requires
        s.wf(capacity),
        s.orderly(capacity),
    ensures
        s.poll_recv(id, waker).0.wf(capacity),
        s.poll_recv(id, waker).0.orderly(capacity),
        !(s.poll_recv(id, waker).1 is Claimed),
        s.poll_send(id, waker).0.wf(capacity),
        s.poll_send(id, waker).0.orderly(capacity),
        !(s.poll_send(id, waker).1 is Claimed),
{
    s.lemma_waits(capacity, id);
    if s.signals.dom().contains(id) {
        if s.registrable(id) {
            let next = s.with_signal(id, s.signals[id].registered(waker));
            s.lemma_registered(capacity, id, waker);
            assert forall|other: usize| #[trigger]
                next.signals.dom().contains(other)
                    && next.signals[other].waiting() implies next.wait_list.contains(
                SignalTerimnator::named(other),
            ) by {
                assert(s.signals.dom().contains(other));
            }
        } else if !s.signals[id].waiting() {
            let next = s.without_signal(id);
            s.lemma_without_signal(capacity, id);
            assert forall|other: usize| #[trigger]
                next.signals.dom().contains(other)
                    && next.signals[other].waiting() implies next.wait_list.contains(
                SignalTerimnator::named(other),
            ) by {
                assert(s.signals.dom().contains(other));
            }
        }
    }
}

/// Giving up a signal keeps a channel well formed and orderly, and in an orderly
/// channel the signal goes at once.
pub proof fn abandoning_keeps_order<T>(
    s: ChannelState<T>,
    capacity: usize,
    id: usize,
    kind: SignalKind,
)
    requires
        s.wf(capacity),
        s.orderly(capacity),
    ensures
        s.abandon(id, kind).0.wf(capacity),
        s.abandon(id, kind).0.orderly(capacity),
        s.abandon(id, kind).1 is Finished,
{
    if s.has_signal(id, kind) {
        s.lemma_abandoned(capacity, id);
        let next = s.abandoned(id);
        let name = SignalTerimnator::named(id);
        if s.waits(id) {
            s.wait_list.index_of_first_ensures(name);
        }
        assert forall|other: usize| #[trigger]
            next.signals.dom().contains(other)
                && next.signals[other].waiting() implies next.wait_list.contains(
            SignalTerimnator::named(other),
        ) by {
            assert(s.signals.dom().contains(other));
            if s.waits(id) {
                let at = s.wait_list.index_of_first(name)->0;
                let i = choose|i: int|
                    0 <= i < s.wait_list.len() && s.wait_list[i] == SignalTerimnator::named(other);
                assert(next.wait_list == s.wait_list.remove(at));
                if i < at {
                    assert(next.wait_list[i] == SignalTerimnator::named(other));
                } else {
                    assert(next.wait_list[i - 1] == SignalTerimnator::named(other));
                }
            }
        }
    }
}

/// Whether one whole operation leads from one state of a channel to another.
pub open spec fn steps_to<T>(s: ChannelState<T>, next: ChannelState<T>, capacity: usize) -> bool {
    ||| exists|data: T| next == #[trigger] s.try_send(capacity, data).0
    ||| exists|id: usize, data: T|
        {
            &&& !s.sends_at_once(capacity)
            &&& !s.signals.dom().contains(id)
            &&& next == #[trigger] s.for_senders().joined(id, Signal::spec_send(data))
        }
    ||| next == s.try_recv().0
    ||| s.has_value() && next == s.received().0
    ||| exists|id: usize|
        {
            &&& !s.has_value()
            &&& !s.signals.dom().contains(id)
            &&& next == #[trigger] s.for_receivers().joined(id, Signal::<T>::spec_recv())
        }
    ||| next == s.drained()
    ||| next == s.after_close()
    ||| exists|is_sender: bool| next == #[trigger] s.after_inc(is_sender)
    ||| exists|is_sender: bool| next == #[trigger] s.after_dec(is_sender)
    ||| exists|id: usize, waker: Waker| next == #[trigger] s.poll_recv(id, waker).0
    ||| exists|id: usize, waker: Waker| next == #[trigger] s.poll_send(id, waker).0
    ||| exists|id: usize, kind: SignalKind| next == #[trigger] s.abandon(id, kind).0
}

/// Whatever is done with a channel, it stays well formed and orderly: it never
/// buffers more values than its capacity, a sender waits only while the buffer is
/// full, a receiver only while nothing is left to receive, and every signal that
/// is not resolved stands in the wait list.
pub proof fn every_step_keeps_order<T>(
    s: ChannelState<T>,
    next: ChannelState<T>,
    capacity: usize,
)
    requires
        s.wf(capacity),
        s.orderly(capacity),
        steps_to(s, next, capacity),
    ensures
        next.wf(capacity),
        next.orderly(capacity),
{
    if exists|data: T| next == #[trigger] s.try_send(capacity, data).0 {
        let data = choose|data: T| next == #[trigger] s.try_send(capacity, data).0;
        try_send_keeps_order(s, capacity, data);
    } else if exists|id: usize, data: T|
        {
            &&& !s.sends_at_once(capacity)
            &&& !s.signals.dom().contains(id)
            &&& next == #[trigger] s.for_senders().joined(id, Signal::spec_send(data))
        } {
        let (id, data) = choose|id: usize, data: T|
            {
                &&& !s.sends_at_once(capacity)
                &&& !s.signals.dom().contains(id)
                &&& next == #[trigger] s.for_senders().joined(id, Signal::spec_send(data))
            };
        waiting_send_keeps_order(s, capacity, id, data);
    } else if next == s.try_recv().0 {
        try_recv_keeps_order(s, capacity);
    } else if s.has_value() && next == s.received().0 {
        receiving_keeps_order(s, capacity);
    } else if exists|id: usize|
        {
            &&& !s.has_value()
            &&& !s.signals.dom().contains(id)
            &&& next == #[trigger] s.for_receivers().joined(id, Signal::<T>::spec_recv())
        } {
        let id = choose|id: usize|
            {
                &&& !s.has_value()
                &&& !s.signals.dom().contains(id)
                &&& next == #[trigger] s.for_receivers().joined(id, Signal::<T>::spec_recv())
            };
        waiting_recv_keeps_order(s, capacity, id);
    } else if next == s.drained() {
        draining_keeps_order(s, capacity);
    } else if next == s.after_close() {
        closing_keeps_order(s, capacity);
    } else if exists|is_sender: bool| next == #[trigger] s.after_inc(is_sender) {
        let is_sender = choose|is_sender: bool| next == #[trigger] s.after_inc(is_sender);
        counting_keeps_order(s, capacity, is_sender);
    } else if exists|is_sender: bool| next == #[trigger] s.after_dec(is_sender) {
        let is_sender = choose|is_sender: bool| next == #[trigger] s.after_dec(is_sender);
        counting_keeps_order(s, capacity, is_sender);
    } else if exists|id: usize, waker: Waker| next == #[trigger] s.poll_recv(id, waker).0 {
        let (id, waker) = choose|id: usize, waker: Waker|
            next == #[trigger] s.poll_recv(id, waker).0;
        polling_keeps_order(s, capacity, id, waker);
    } else if exists|id: usize, waker: Waker| next == #[trigger] s.poll_send(id, waker).0 {
        let (id, waker) = choose|id: usize, waker: Waker|
            next == #[trigger] s.poll_send(id, waker).0;
        polling_keeps_order(s, capacity, id, waker);
    } else {
        let (id, kind) = choose|id: usize, kind: SignalKind|
            next == #[trigger] s.abandon(id, kind).0;
        abandoning_keeps_order(s, capacity, id, kind);
    }
}

/// A value that is sent goes behind all values that were sent before it and not
/// yet received: into the buffer, or with its sender into the wait list.
pub proof fn sent_values_queue_up<T>(s: ChannelState<T>, capacity: usize, id: usize, data: T)
    requires
        s.wf(capacity),
        s.orderly(capacity),
        s.recv_count > 0,
        !s.receivers_wait(),
    ensures
        s.queue.len() < capacity ==> {
            &&& s.try_send(capacity, data).1 is Ok
            &&& s.try_send(capacity, data).0.pending() == s.pending().push(data)
        },
        s.queue.len() >= capacity && !s.signals.dom().contains(id) ==> {
            &&& !s.sends_at_once(capacity)
            &&& s.for_senders().joined(id, Signal::spec_send(data)).pending()
                == s.pending().push(data)
        },
{
    if s.queue.len() < capacity {
        assert(s.try_send(capacity, data).0.pending() =~= s.pending().push(data));
    } else if !s.signals.dom().contains(id) {
        let next = s.for_senders().joined(id, Signal::spec_send(data));
        assert forall|i: int| 0 <= i < s.wait_list.len() implies (
        #[trigger] s.wait_list[i]).inner != id by {
            assert(s.may_wait(s.wait_list[i].inner));
        }
        assert(next.offered() =~= s.offered().push(data));
        assert(next.pending() =~= s.pending().push(data));
    }
}

/// What is received is the value that was sent first, and the others keep their
/// order.
pub proof fn oldest_value_is_received<T>(s: ChannelState<T>, capacity: usize)
    requires
        s.wf(capacity),
    ensures
        s.has_value() <==> s.pending().len() > 0,
        s.has_value() ==> {
            &&& s.received().1 == s.pending()[0]
            &&& s.received().0.pending() == s.pending().drop_first()
        },
{
    if s.senders_wait() {
        s.lemma_popped(capacity);
        let next = s.received().0;
        assert forall|i: int| 0 <= i < next.wait_list.len() implies
            next.signals[#[trigger] next.wait_list[i].inner]
            == s.signals[s.wait_list[i + 1].inner] by {
            assert(next.wait_list[i] == s.wait_list[i + 1]);
            assert(next.wait_list.contains(next.wait_list[i]));
        }
        assert(next.offered() =~= s.offered().drop_first());
        assert(next.pending() =~= s.pending().drop_first());
    } else if s.has_value() {
        assert(s.received().0.pending() =~= s.pending().drop_first());
    }
}

/// A channel that was drained holds no value any more, and a receiver waits in an
/// orderly channel only while there is no value.
pub proof fn drained_holds_nothing<T>(s: ChannelState<T>, capacity: usize)
    requires
        s.wf(capacity),
        s.orderly(capacity),
    ensures
        s.drained().pending() == Seq::<T>::empty(),
        s.receivers_wait() ==> s.pending() == Seq::<T>::empty(),
{
    assert(s.drained().pending() =~= Seq::<T>::empty());
    if s.receivers_wait() {
        assert(s.pending() =~= Seq::<T>::empty());
    }
}

/// The channel after `data` was sent. Where the send has to wait, it does so with
/// the signal `id`.
pub open spec fn after_send<T>(
    s: ChannelState<T>,
    capacity: usize,
    id: usize,
    data: T,
) -> ChannelState<T> {
    if s.sends_at_once(capacity) {
        s.try_send(capacity, data).0
    } else {
        s.for_senders().joined(id, Signal::spec_send(data))
    }
}

/// The channel after the values were sent one after the other, each with the
/// number of the signal with which its sender waits if it has to.
pub open spec fn after_sends<T>(
    s: ChannelState<T>,
    capacity: usize,
    sends: Seq<(usize, T)>,
) -> ChannelState<T>
    decreases sends.len(),
{
    if sends.len() == 0 {
        s
    } else {
        let (id, data) = sends.last();
        after_send(after_sends(s, capacity, sends.drop_last()), capacity, id, data)
    }
}

/// The values that are sent.
pub open spec fn values_of<T>(sends: Seq<(usize, T)>) -> Seq<T> {
    Seq::new(sends.len(), |i: int| sends[i].1)
}

/// The numbers of the signals are different and not yet in use.
pub open spec fn fresh<T>(s: ChannelState<T>, sends: Seq<(usize, T)>) -> bool {
    &&& forall|i: int|
        0 <= i < sends.len() ==> !s.signals.dom().contains((#[trigger] sends[i]).0)
    &&& forall|i: int, j: int|
        0 <= i < j < sends.len() ==> (#[trigger] sends[i]).0 != (#[trigger] sends[j]).0
}

/// The values that come out of a channel one by one until it is empty.
pub open spec fn received_one_by_one<T>(s: ChannelState<T>, count: nat) -> Seq<T>
    decreases count,
{
    if count == 0 || !s.has_value() {
        Seq::empty()
    } else {
        seq![s.received().1] + received_one_by_one(s.received().0, (count - 1) as nat)
    }
}

/// Receiving one by one gives the values in the order in which they were sent.
pub proof fn received_in_order<T>(s: ChannelState<T>, capacity: usize)
    requires
        s.wf(capacity),
        s.orderly(capacity),
    ensures
        received_one_by_one(s, s.pending().len()) == s.pending(),
    decreases s.pending().len(),
{
    oldest_value_is_received(s, capacity);
    if s.has_value() {
        receiving_keeps_order(s, capacity);
        received_in_order(s.received().0, capacity);
        assert(s.pending() =~= seq![s.pending()[0]] + s.pending().drop_first());
    } else {
        assert(s.pending() =~= Seq::<T>::empty());
    }
}

/// The values that are sent to an open channel, however many they are, come out
/// again as they went in, behind those that were there before.
pub proof fn what_is_sent_is_received<T>(
    s: ChannelState<T>,
    capacity: usize,
    sends: Seq<(usize, T)>,
)
    requires
        s.wf(capacity),
        s.orderly(capacity),
        s.recv_count > 0,
        !s.receivers_wait(),
        fresh(s, sends),
    ensures
        ({
            let next = after_sends(s, capacity, sends);
            &&& next.wf(capacity)
            &&& next.orderly(capacity)
            &&& next.pending() == s.pending() + values_of(sends)
            &&& received_one_by_one(next, next.pending().len()) == s.pending() + values_of(sends)
        }),
{
    sends_queue_up(s, capacity, sends);
    received_in_order(after_sends(s, capacity, sends), capacity);
}

/// Values that are sent one after the other queue up one after the other.
proof fn sends_queue_up<T>(s: ChannelState<T>, capacity: usize, sends: Seq<(usize, T)>)
    requires
        s.wf(capacity),
        s.orderly(capacity),
        s.recv_count > 0,
        !s.receivers_wait(),
        fresh(s, sends),
    ensures
        ({
            let next = after_sends(s, capacity, sends);
            &&& next.wf(capacity)
            &&& next.orderly(capacity)
            &&& next.recv_count == s.recv_count
            &&& !next.receivers_wait()
            &&& next.pending() == s.pending() + values_of(sends)
            &&& forall|id: usize| #[trigger]
                next.signals.dom().contains(id) ==> s.signals.dom().contains(id) || exists|i: int|
                    0 <= i < sends.len() && (#[trigger] sends[i]).0 == id
        }),
    decreases sends.len(),
{
    let next = after_sends(s, capacity, sends);
    if sends.len() == 0 {
        assert(s.pending() + values_of(sends) =~= s.pending());
    } else {
        let rest = sends.drop_last();
        let before = after_sends(s, capacity, rest);
        let (id, data) = sends.last();
        assert(fresh(s, rest)) by {
            assert forall|i: int| 0 <= i < rest.len() implies !s.signals.dom().contains(
                (#[trigger] rest[i]).0,
            ) by {
                assert(rest[i] == sends[i]);
            }
            assert forall|i: int, j: int| 0 <= i < j < rest.len() implies (#[trigger] rest[i]).0
                != (#[trigger] rest[j]).0 by {
                assert(rest[i] == sends[i] && rest[j] == sends[j]);
            }
        }
        sends_queue_up(s, capacity, rest);
        assert(sends[sends.len() - 1].0 == id);
        assert(!before.signals.dom().contains(id)) by {
            if before.signals.dom().contains(id) {
                let i = choose|i: int| 0 <= i < rest.len() && (#[trigger] rest[i]).0 == id;
                assert(sends[i].0 != sends[sends.len() - 1].0);
            }
        }
        sent_values_queue_up(before, capacity, id, data);
        if before.sends_at_once(capacity) {
            try_send_keeps_order(before, capacity, data);
        } else {
            waiting_send_keeps_order(before, capacity, id, data);
        }
        assert(s.pending() + values_of(sends) =~= (s.pending() + values_of(rest)).push(data));
        assert forall|other: usize| #[trigger]
            next.signals.dom().contains(other) implies s.signals.dom().contains(other) || exists|
            i: int,
        |
            0 <= i < sends.len() && (#[trigger] sends[i]).0 == other by {
            if other != id {
                assert(before.signals.dom().contains(other));
                if !s.signals.dom().contains(other) {
                    let i = choose|i: int| 0 <= i < rest.len() && (#[trigger] rest[i]).0 == other;
                    assert(sends[i].0 == other);
                }
            }
        }
    }
}

/// Receivers that wait are served in the order in which they came: the first of
/// them gets the first value that is sent, the next one the next value. Those for
/// whom there is no value yet wait on.
pub proof fn waiting_receivers_are_served_in_order<T>(
    s: ChannelState<T>,
    capacity: usize,
    sends: Seq<(usize, T)>,
)
    requires
        s.wf(capacity),
        s.recv_count > 0,
        s.recv_blocking,
        sends.len() <= s.wait_list.len(),
    ensures
        ({
            let next = after_sends(s, capacity, sends);
            &&& next.recv_count == s.recv_count
            &&& next.recv_blocking
            &&& next.queue == s.queue
            &&& next.wait_list == s.wait_list.skip(sends.len() as int)
            &&& forall|i: int|
                0 <= i < s.wait_list.len() ==> next.signals[(#[trigger] s.wait_list[i]).inner]
                    == (if i < sends.len() {
                    s.signals[s.wait_list[i].inner].signalled(Some(sends[i].1))
                } else {
                    s.signals[s.wait_list[i].inner]
                })
        }),
    decreases sends.len(),
{
    let next = after_sends(s, capacity, sends);
    let n = sends.len() as int;
    if n == 0 {
        assert(s.wait_list.skip(0) =~= s.wait_list);
    } else {
        let rest = sends.drop_last();
        let before = after_sends(s, capacity, rest);
        waiting_receivers_are_served_in_order(s, capacity, rest);
        assert(before.wait_list[0] == s.wait_list[n - 1]);
        assert(before.wait_list.drop_first() =~= s.wait_list.skip(n));
        assert forall|i: int| 0 <= i < s.wait_list.len() implies next.signals[(
        #[trigger] s.wait_list[i]).inner] == (if i < n {
            s.signals[s.wait_list[i].inner].signalled(Some(sends[i].1))
        } else {
            s.signals[s.wait_list[i].inner]
        }) by {
            if i < n - 1 {
                assert(rest[i] == sends[i]);
            }
            if i != n - 1 {
                assert(s.wait_list[i] != s.wait_list[n - 1]);
            }
        }
    }
}

/// A refused send gives back the very value, and changes neither the values of
/// the channel nor its signals. It is refused if and only if no receiver is left,
/// or nobody waits for a value and the buffer is full.
pub proof fn refused_send_changes_nothing<T>(s: ChannelState<T>, capacity: usize, data: T)
    requires
        s.wf(capacity),
    ensures
        s.try_send(capacity, data).1 is Err <==> s.recv_count == 0 || (!s.receivers_wait()
            && s.queue.len() >= capacity),
        s.try_send(capacity, data).1 matches Err(SendError(back)) ==> {
            let next = s.try_send(capacity, data).0;
            &&& back == data
            &&& s.try_send(capacity, data).2 is None
            &&& next.pending() == s.pending()
            &&& next.signals == s.signals
            &&& next.wait_list == s.wait_list
        },
{
    assert(s.for_senders().pending() =~= s.pending() || s.receivers_wait());
}

/// The receiver that waits longest gets the next value that is sent: its signal
/// is then ready with that value, its task is the one to wake, and no other
/// signal changes.
pub proof fn waiting_receiver_gets_the_value<T>(
    s: ChannelState<T>,
    capacity: usize,
    data: T,
    waker: Waker,
)
    requires
        s.wf(capacity),
        s.recv_count > 0,
        s.receivers_wait(),
    ensures
        ({
            let id = s.wait_list[0].inner;
            let (next, result, task) = s.try_send(capacity, data);
            &&& result == Ok::<(), SendError<T>>(())
            &&& task == s.signals[id].task()
            &&& next.poll_recv(id, waker).1 == SignalPoll::<Result<T, ReceiveError>>::Ready(
                Ok(data),
            )
            &&& !next.poll_recv(id, waker).0.signals.dom().contains(id)
            &&& forall|other: usize|
                other != id ==> next.signals.dom().contains(other) == s.signals.dom().contains(
                    other,
                ) && #[trigger] next.signals[other] == s.signals[other]
        }),
{
    assert(s.may_wait(s.wait_list[0].inner));
}

/// The sender that waits longest is the first to be served: once a value is
/// received it has given its own away, its signal is ready with success, and its
/// task is the one to wake.
pub proof fn waiting_sender_gives_the_value<T>(s: ChannelState<T>, capacity: usize, waker: Waker)
    requires
        s.wf(capacity),
        s.senders_wait(),
    ensures
        ({
            let id = s.wait_list[0].inner;
            let (next, value, task) = s.received();
            &&& task == s.signals[id].task()
            &&& s.queue.len() == 0 ==> value == s.signals[id].data->0
            &&& s.queue.len() > 0 ==> next.queue.last() == s.signals[id].data->0
            &&& next.queue.len() == s.queue.len()
            &&& next.poll_send(id, waker).1 == SignalPoll::<Result<(), SendError<T>>>::Ready(
                Ok(()),
            )
            &&& !next.poll_send(id, waker).0.signals.dom().contains(id)
            &&& forall|other: usize|
                other != id ==> next.signals.dom().contains(other) == s.signals.dom().contains(
                    other,
                ) && #[trigger] next.signals[other] == s.signals[other]
        }),
{
    assert(s.may_wait(s.wait_list[0].inner));
}

/// Without a buffer a value goes straight from a sender to a receiver, whichever
/// of the two comes first and waits.
pub proof fn unbuffered_values_go_straight<T>(
    s: ChannelState<T>,
    sender: usize,
    receiver: usize,
    data: T,
    waker: Waker,
)
    requires
        s.wf(0),
        s.orderly(0),
        s.recv_count > 0,
        s.send_count > 0,
        s.wait_list.len() == 0,
        !s.signals.dom().contains(sender),
        !s.signals.dom().contains(receiver),
    ensures
        ({
            let waits = s.for_senders().joined(sender, Signal::spec_send(data));
            let (next, value, _) = waits.received();
            &&& !s.sends_at_once(0)
            &&& waits.has_value()
            &&& value == data
            &&& next.poll_send(sender, waker).1 == SignalPoll::<Result<(), SendError<T>>>::Ready(
                Ok(()),
            )
        }),
        ({
            let waits = s.for_receivers().joined(receiver, Signal::<T>::spec_recv());
            let (next, result, _) = waits.try_send(0, data);
            &&& !s.has_value() && !s.terminated()
            &&& result == Ok::<(), SendError<T>>(())
            &&& next.poll_recv(receiver, waker).1
                == SignalPoll::<Result<T, ReceiveError>>::Ready(Ok(data))
        }),
{
    waiting_send_keeps_order(s, 0, sender, data);
    waiting_recv_keeps_order(s, 0, receiver);
}

/// A send waits exactly when a send that does not wait would be refused by an
/// open channel, and a receive exactly when one that does not wait would find
/// nothing in an open channel.
pub proof fn waiting_replaces_refusal<T>(s: ChannelState<T>, capacity: usize, data: T)
    requires
        s.wf(capacity),
        s.recv_count > 0,
        s.send_count > 0,
    ensures
        !s.sends_at_once(capacity) <==> s.try_send(capacity, data).1 is Err,
        !s.terminated() && !s.has_value() <==> s.try_recv().1 == Err::<T, ReceiveErrorTimeout>(
            ReceiveErrorTimeout::Timeout,
        ),
{
}

/// All that wait when a channel gives up on them learn it: a sender gets its own
/// value back, a receiver its error.
pub proof fn released_when_terminated<T>(
    s: ChannelState<T>,
    capacity: usize,
    id: usize,
    waker: Waker,
)
    requires
        s.wf(capacity),
        s.waits(id),
    ensures
        s.recv_blocking ==> s.all_terminated().poll_recv(id, waker).1 == SignalPoll::<
            Result<T, ReceiveError>,
        >::Ready(Err(ReceiveError())),
        !s.recv_blocking ==> s.all_terminated().poll_send(id, waker).1 == SignalPoll::<
            Result<(), SendError<T>>,
        >::Ready(Err(SendError(s.signals[id].data->0))),
{
    s.lemma_waits(capacity, id);
}

/// A closed channel stays closed: it refuses every send and gives the value back,
/// every receive fails, nothing is left in it, and it cannot be closed again.
pub proof fn closed_for_good<T>(s: ChannelState<T>, capacity: usize, data: T)
    requires
        s.wf(capacity),
    ensures
        ({
            let closed = s.after_close();
            &&& closed.closed()
            &&& closed.terminated()
            &&& closed.pending() == Seq::<T>::empty()
            &&& closed.wait_list.len() == 0
            &&& closed.try_send(capacity, data) == (
                closed,
                Err::<(), SendError<T>>(SendError(data)),
                None::<Waker>,
            )
            &&& closed.try_recv() == (
                closed,
                Err::<T, ReceiveErrorTimeout>(ReceiveErrorTimeout::Closed),
                None::<Waker>,
            )
            &&& forall|is_sender: bool| #[trigger] closed.after_inc(is_sender).closed()
            &&& forall|is_sender: bool| #[trigger] closed.after_dec(is_sender).closed()
        }),
{
    assert(s.after_close().pending() =~= Seq::<T>::empty());
}

/// All that wait when a channel is closed are released with their error.
pub proof fn closing_releases_all<T>(s: ChannelState<T>, capacity: usize, id: usize, waker: Waker)
    requires
        s.wf(capacity),
        s.waits(id),
    ensures
        s.recv_blocking ==> s.after_close().poll_recv(id, waker).1 == SignalPoll::<
            Result<T, ReceiveError>,
        >::Ready(Err(ReceiveError())),
        !s.recv_blocking ==> s.after_close().poll_send(id, waker).1 == SignalPoll::<
            Result<(), SendError<T>>,
        >::Ready(Err(SendError(s.signals[id].data->0))),
{
    released_when_terminated(s, capacity, id, waker);
}

/// When the last sender goes, the buffered values can still be received, one by
/// one and in order; those that wait are released, and once the buffer is empty
/// every receive fails.
pub proof fn last_sender_leaves_the_buffer<T>(
    s: ChannelState<T>,
    capacity: usize,
    id: usize,
    waker: Waker,
)
    requires
        s.wf(capacity),
        s.orderly(capacity),
        s.send_count == 1,
        s.recv_count > 0,
    ensures
        ({
            let next = s.after_dec(true);
            &&& next.send_count == 0
            &&& next.wait_list.len() == 0
            &&& next.pending() == s.queue
            &&& received_one_by_one(next, s.queue.len()) == s.queue
            &&& next.terminated() <==> s.queue.len() == 0
            &&& s.queue.len() == 0 ==> next.try_recv().1 == Err::<T, ReceiveErrorTimeout>(
                ReceiveErrorTimeout::Closed,
            )
            &&& s.receivers_wait() && s.waits(id) ==> next.poll_recv(id, waker).1
                == SignalPoll::<Result<T, ReceiveError>>::Ready(Err(ReceiveError()))
            &&& s.senders_wait() && s.waits(id) ==> next.poll_send(id, waker).1
                == SignalPoll::<Result<(), SendError<T>>>::Ready(
                Err(SendError(s.signals[id].data->0)),
            )
        }),
{
    let next = s.after_dec(true);
    counting_keeps_order(s, capacity, true);
    assert(next.pending() =~= s.queue);
    received_in_order(next, capacity);
    if s.waits(id) {
        released_when_terminated(s, capacity, id, waker);
    }
}

/// When the last receiver goes, the buffered values go with it, every waiting
/// sender gets its value back, and so does every later one.
pub proof fn last_receiver_closes_the_way<T>(
    s: ChannelState<T>,
    capacity: usize,
    id: usize,
    waker: Waker,
    data: T,
)
    requires
        s.wf(capacity),
        s.recv_count == 1,
    ensures
        ({
            let next = s.after_dec(false);
            &&& next.recv_count == 0
            &&& next.wait_list.len() == 0
            &&& next.pending() == Seq::<T>::empty()
            &&& next.try_send(capacity, data).1 == Err::<(), SendError<T>>(SendError(data))
            &&& s.senders_wait() && s.waits(id) ==> next.poll_send(id, waker).1
                == SignalPoll::<Result<(), SendError<T>>>::Ready(
                Err(SendError(s.signals[id].data->0)),
            )
        }),
{
    assert(s.after_dec(false).pending() =~= Seq::<T>::empty());
    if s.waits(id) {
        released_when_terminated(s, capacity, id, waker);
    }
}

/// No receive brings a channel without senders and without values back to life.
pub proof fn terminated_for_good<T>(s: ChannelState<T>, capacity: usize)
    requires
        s.wf(capacity),
        s.orderly(capacity),
        s.terminated(),
        s.wait_list.len() == 0,
    ensures
        s.try_recv().1 == Err::<T, ReceiveErrorTimeout>(ReceiveErrorTimeout::Closed),
        s.try_recv().0.terminated(),
        s.drained().terminated(),
        forall|is_sender: bool| #[trigger] s.after_inc(is_sender).terminated(),
        forall|is_sender: bool| #[trigger] s.after_dec(is_sender).terminated(),
{
}

/// Whether a channel counts the handles that are alive: so many senders and so
/// many receivers, or on both sides none once it was closed.
pub open spec fn counts_handles<T>(s: ChannelState<T>, senders: nat, receivers: nat) -> bool {
    &&& s.ref_count == senders + receivers
    &&& s.closed() || (s.send_count == senders && s.recv_count == receivers)
}

/// The counts follow the handles as they are cloned and dropped and when the
/// channel is closed, and no operation but these changes them.
pub proof fn handles_are_counted<T>(
    s: ChannelState<T>,
    capacity: usize,
    senders: nat,
    receivers: nat,
    id: usize,
    waker: Waker,
    data: T,
)
    requires
        s.wf(capacity),
        counts_handles(s, senders, receivers),
        senders > 0 || receivers > 0,
    ensures
        senders > 0 ==> counts_handles(s.after_inc(true), senders + 1, receivers),
        receivers > 0 ==> counts_handles(s.after_inc(false), senders, receivers + 1),
        senders > 0 ==> counts_handles(s.after_dec(true), (senders - 1) as nat, receivers),
        receivers > 0 ==> counts_handles(s.after_dec(false), senders, (receivers - 1) as nat),
        s.ref_count == 1 <==> senders + receivers == 1,
        counts_handles(s.after_close(), senders, receivers),
        counts_handles(s.try_send(capacity, data).0, senders, receivers),
        counts_handles(
            s.for_senders().joined(id, Signal::spec_send(data)),
            senders,
            receivers,
        ),
        counts_handles(s.try_recv().0, senders, receivers),
        counts_handles(s.received().0, senders, receivers),
        counts_handles(
            s.for_receivers().joined(id, Signal::<T>::spec_recv()),
            senders,
            receivers,
        ),
        counts_handles(s.drained(), senders, receivers),
        counts_handles(s.poll_send(id, waker).0, senders, receivers),
        counts_handles(s.poll_recv(id, waker).0, senders, receivers),
        counts_handles(s.abandon(id, SignalKind::Send).0, senders, receivers),
        counts_handles(s.abandon(id, SignalKind::Receive).0, senders, receivers),
{
}

/// Dropping a clone undoes the cloning.
pub proof fn dropping_a_clone_undoes_it<T>(s: ChannelState<T>, is_sender: bool)
    ensures
        s.after_inc(is_sender).after_dec(is_sender) == s,
{
    assert(s.after_inc(is_sender).after_dec(is_sender) =~= s);
}

/// A signal that gives up leaves the others waiting as they were, in their order.
pub proof fn abandoning_leaves_the_others<T>(
    s: ChannelState<T>,
    capacity: usize,
    i: int,
    kind: SignalKind,
)
    requires
        s.wf(capacity),
        0 <= i < s.wait_list.len(),
        kind == s.kind(),
    ensures
        ({
            let id = s.wait_list[i].inner;
            let (next, outcome) = s.abandon(id, kind);
            &&& outcome == Abandon::Finished
            &&& next.wait_list == s.wait_list.remove(i)
            &&& next.signals == s.signals.remove(id)
            &&& next.queue == s.queue
        }),
{
    let id = s.wait_list[i].inner;
    assert(s.may_wait(id));
    s.lemma_unlisted(capacity, i);
    assert(s.wait_list[i] == SignalTerimnator::named(id));
    assert(s.wait_list.contains(SignalTerimnator::named(id)));
    assert(s.abandon(id, kind).0.signals =~= s.signals.remove(id));
}

/// A task is woken at most once for a signal: once the signal is resolved its
/// waker is gone.
pub proof fn resolved_signals_wake_nobody<T>(s: ChannelState<T>, capacity: usize, id: usize)
    requires
        s.wf(capacity),
        s.signals.dom().contains(id),
        !s.signals[id].waiting(),
    ensures
        s.signals[id].task() is None,
        !s.waits(id),
{
    s.lemma_waits(capacity, id);
}

/// Taking the first receiver off the wait list and then filling its signal comes
/// to the same as sending to it at once. In between, the signal is in flight: the
/// receiver cannot leave, and it learns nothing yet.
pub proof fn claiming_then_filling_is_sending<T>(
    s: ChannelState<T>,
    capacity: usize,
    data: T,
)
    requires
        s.wf(capacity),
        s.recv_count > 0,
        s.receivers_wait(),
    ensures
        ({
            let id = s.wait_list[0].inner;
            let claimed = s.popped();
            &&& claimed.with_signal(id, claimed.signals[id].signalled(Some(data)))
                == s.try_send(capacity, data).0
            &&& claimed.abandon(id, SignalKind::Receive) == (claimed, Abandon::InFlight)
            &&& claimed.finish_abandoned_recv(capacity, id) == (claimed, false)
        }),
{
    s.lemma_popped(capacity);
}

/// A value that was on its way to a receiver that gave up goes back into the
/// buffer, behind the others; a channel without a buffer drops it.
pub proof fn late_value_goes_back<T>(s: ChannelState<T>, capacity: usize, data: T)
    requires
        s.wf(capacity),
        s.recv_count > 0,
        s.receivers_wait(),
    ensures
        ({
            let id = s.wait_list[0].inner;
            let (next, finished) = s.try_send(capacity, data).0.finish_abandoned_recv(
                capacity,
                id,
            );
            &&& finished
            &&& !next.signals.dom().contains(id)
            &&& next.wait_list == s.wait_list.drop_first()
            &&& next.queue == (if capacity > 0 {
                s.queue.push(data)
            } else {
                s.queue
            })
        }),
{
    assert(s.may_wait(s.wait_list[0].inner));
}

/// Polling a signal, cloning a handle and dropping one that is not the last of
/// its side leave the values of the channel as they are.
pub proof fn other_steps_keep_the_values<T>(
    s: ChannelState<T>,
    capacity: usize,
    id: usize,
    waker: Waker,
    is_sender: bool,
)
    requires
        s.wf(capacity),
    ensures
        s.poll_send(id, waker).0.pending() == s.pending(),
        s.poll_recv(id, waker).0.pending() == s.pending(),
        s.after_inc(is_sender).pending() == s.pending(),
        !s.last_of_side(is_sender) ==> s.after_dec(is_sender).pending() == s.pending(),
{
    s.lemma_waits(capacity, id);
    assert forall|i: int| 0 <= i < s.wait_list.len() implies s.waits(
        (#[trigger] s.wait_list[i]).inner,
    ) by {
        assert(s.wait_list[i] == SignalTerimnator::named(s.wait_list[i].inner));
    }
    assert(s.poll_send(id, waker).0.pending() =~= s.pending());
    assert(s.poll_recv(id, waker).0.pending() =~= s.pending());
    assert(s.after_inc(is_sender).pending() =~= s.pending());
    if !s.last_of_side(is_sender) {
        assert(s.after_dec(is_sender).pending() =~= s.pending());
    }
}

/// A sender that gives up while it waits takes its own value with it and no
/// other; a receiver that gives up while it waits takes none.
pub proof fn leaving_takes_one_value<T>(s: ChannelState<T>, capacity: usize, i: int)
    requires
        s.wf(capacity),
        0 <= i < s.wait_list.len(),
    ensures
        s.recv_blocking ==> s.abandoned(s.wait_list[i].inner).pending() == s.pending(),
        !s.recv_blocking ==> s.abandoned(s.wait_list[i].inner).pending() == s.queue
            + s.offered().remove(i),
{
    let id = s.wait_list[i].inner;
    let next = s.abandoned(id);
    abandoning_leaves_the_others(s, capacity, i, s.kind());
    assert(s.may_wait(id));
    assert(s.wait_list[i] == SignalTerimnator::named(id));
    assert(s.wait_list.contains(SignalTerimnator::named(id)));
    if s.recv_blocking {
        assert(next.pending() =~= s.pending());
    } else {
        assert forall|k: int| 0 <= k < next.wait_list.len() implies #[trigger] next.offered()[k]
            == s.offered().remove(i)[k] by {
            let j = if k < i {
                k
            } else {
                k + 1
            };
            assert(next.wait_list[k] == s.wait_list[j]);
            assert(s.wait_list[j] != s.wait_list[i]);
        }
        assert(next.offered() =~= s.offered().remove(i));
    }
}

/// Something that is done with a channel and that neither closes a side of it nor
/// takes a value away unsent.
pub enum Step<T> {
    /// `data` is sent. Where the send has to wait, it does so with the signal `id`.
    Send { id: usize, data: T },
    /// `data` is sent without waiting.
    TrySend { data: T },
    /// A value is received. Where the receive has to wait, it does so with the
    /// signal `id`.
    Recv { id: usize },
    /// A value is received without waiting.
    TryRecv,
    /// All values are received.
    Drain,
    /// The signal of a sender is polled.
    PollSend { id: usize, waker: Waker },
    /// The signal of a receiver is polled.
    PollRecv { id: usize, waker: Waker },
    /// A receiver that waits gives up.
    ReceiverLeaves { id: usize },
    /// A handle is cloned.
    HandleComes { is_sender: bool },
    /// A handle that is not the last of its side is dropped.
    HandleGoes { is_sender: bool },
}

/// The step can be done now: the number of a new signal is not in use, a receiver
/// that leaves does wait, and a handle that goes is not the last of its side.
pub open spec fn possible<T>(s: ChannelState<T>, capacity: usize, step: Step<T>) -> bool {
    match step {
        Step::Send { id, data } => !s.signals.dom().contains(id),
        Step::Recv { id } => !s.signals.dom().contains(id),
        Step::ReceiverLeaves { id } => s.recv_blocking && s.waits(id),
        Step::HandleGoes { is_sender } => !s.last_of_side(is_sender),
        _ => true,
    }
}

/// The channel after the step.
pub open spec fn after_step<T>(
    s: ChannelState<T>,
    capacity: usize,
    step: Step<T>,
) -> ChannelState<T> {
    match step {
        Step::Send { id, data } => after_send(s, capacity, id, data),
        Step::TrySend { data } => s.try_send(capacity, data).0,
        Step::Recv { id } => if s.terminated() {
            s
        } else if s.has_value() {
            s.received().0
        } else {
            s.for_receivers().joined(id, Signal::<T>::spec_recv())
        },
        Step::TryRecv => s.try_recv().0,
        Step::Drain => if s.recv_count == 0 {
            s
        } else {
            s.drained()
        },
        Step::PollSend { id, waker } => s.poll_send(id, waker).0,
        Step::PollRecv { id, waker } => s.poll_recv(id, waker).0,
        Step::ReceiverLeaves { id } => s.abandon(id, SignalKind::Receive).0,
        Step::HandleComes { is_sender } => s.after_inc(is_sender),
        Step::HandleGoes { is_sender } => s.after_dec(is_sender),
    }
}

/// The values that the channel takes from a sender with the step: none if the send
/// is refused.
pub open spec fn taken_in<T>(s: ChannelState<T>, capacity: usize, step: Step<T>) -> Seq<T> {
    match step {
        Step::Send { id, data } => if s.recv_count == 0 {
            Seq::empty()
        } else {
            seq![data]
        },
        Step::TrySend { data } => if s.try_send(capacity, data).1 is Ok {
            seq![data]
        } else {
            Seq::empty()
        },
        _ => Seq::empty(),
    }
}

/// The values that the channel hands out with the step: to the receiver that asks
/// for them, or to the receiver that waits for the value that is sent.
pub open spec fn handed_out<T>(s: ChannelState<T>, capacity: usize, step: Step<T>) -> Seq<T> {
    match step {
        Step::Send { id, data } => if s.recv_count > 0 && s.receivers_wait() {
            seq![data]
        } else {
            Seq::empty()
        },
        Step::TrySend { data } => if s.recv_count > 0 && s.receivers_wait() {
            seq![data]
        } else {
            Seq::empty()
        },
        Step::Recv { id } => if !s.terminated() && s.has_value() {
            seq![s.received().1]
        } else {
            Seq::empty()
        },
        Step::TryRecv => match s.try_recv().1 {
            Ok(value) => seq![value],
            Err(_) => Seq::empty(),
        },
        Step::Drain => if s.recv_count == 0 {
            Seq::empty()
        } else {
            s.pending()
        },
        _ => Seq::empty(),
    }
}

/// No step loses a value, doubles it or changes the order: what is handed out,
/// followed by what is left, is what was there, followed by what was taken in.
pub proof fn a_step_loses_nothing<T>(s: ChannelState<T>, capacity: usize, step: Step<T>)
    requires
        s.wf(capacity),
        s.orderly(capacity),
        possible(s, capacity, step),
    ensures
        after_step(s, capacity, step).wf(capacity),
        after_step(s, capacity, step).orderly(capacity),
        handed_out(s, capacity, step) + after_step(s, capacity, step).pending() == s.pending()
            + taken_in(s, capacity, step),
{
    let next = after_step(s, capacity, step);
    let out = handed_out(s, capacity, step);
    let sent = taken_in(s, capacity, step);
    oldest_value_is_received(s, capacity);
    drained_holds_nothing(s, capacity);
    if s.has_value() {
        assert(s.pending() =~= seq![s.pending()[0]] + s.pending().drop_first());
    }
    match step {
        Step::Send { id, data } => {
            try_send_keeps_order(s, capacity, data);
            if !s.sends_at_once(capacity) {
                waiting_send_keeps_order(s, capacity, id, data);
            }
            if s.recv_count > 0 && !s.receivers_wait() {
                sent_values_queue_up(s, capacity, id, data);
            }
        },
        Step::TrySend { data } => {
            try_send_keeps_order(s, capacity, data);
            refused_send_changes_nothing(s, capacity, data);
            if s.recv_count > 0 && !s.receivers_wait() && s.queue.len() < capacity {
                assert(next.pending() =~= s.pending().push(data));
            }
        },
        Step::Recv { id } => {
            if s.has_value() {
                receiving_keeps_order(s, capacity);
            } else {
                waiting_recv_keeps_order(s, capacity, id);
            }
        },
        Step::TryRecv => {
            try_recv_keeps_order(s, capacity);
        },
        Step::Drain => {
            draining_keeps_order(s, capacity);
        },
        Step::PollSend { id, waker } => {
            polling_keeps_order(s, capacity, id, waker);
            other_steps_keep_the_values(s, capacity, id, waker, true);
        },
        Step::PollRecv { id, waker } => {
            polling_keeps_order(s, capacity, id, waker);
            other_steps_keep_the_values(s, capacity, id, waker, true);
        },
        Step::ReceiverLeaves { id } => {
            abandoning_keeps_order(s, capacity, id, SignalKind::Receive);
            s.lemma_waits(capacity, id);
            let i = choose|i: int|
                0 <= i < s.wait_list.len() && s.wait_list[i] == SignalTerimnator::named(id);
            leaving_takes_one_value(s, capacity, i);
        },
        Step::HandleComes { is_sender } => {
            counting_keeps_order(s, capacity, is_sender);
            assert(next.pending() =~= s.pending());
        },
        Step::HandleGoes { is_sender } => {
            counting_keeps_order(s, capacity, is_sender);
            assert(next.pending() =~= s.pending());
        },
    }
    assert(out + next.pending() =~= s.pending() + sent);
}

/// What a sequence of steps makes of a channel.
#[verifier::reject_recursive_types(T)]
pub struct Run<T> {
    /// The channel after the steps.
    pub state: ChannelState<T>,
    /// The values that were taken in, in order.
    pub taken_in: Seq<T>,
    /// The values that were handed out, in order.
    pub handed_out: Seq<T>,
}

/// The steps, done one after the other.
pub open spec fn run<T>(s: ChannelState<T>, capacity: usize, steps: Seq<Step<T>>) -> Run<T>
    decreases steps.len(),
{
    if steps.len() == 0 {
        Run { state: s, taken_in: Seq::empty(), handed_out: Seq::empty() }
    } else {
        let before = run(s, capacity, steps.drop_last());
        let step = steps.last();
        Run {
            state: after_step(before.state, capacity, step),
            taken_in: before.taken_in + taken_in(before.state, capacity, step),
            handed_out: before.handed_out + handed_out(before.state, capacity, step),
        }
    }
}

/// Each of the steps can be done when its turn comes.
pub open spec fn all_possible<T>(s: ChannelState<T>, capacity: usize, steps: Seq<Step<T>>) -> bool
    decreases steps.len(),
{
    steps.len() > 0 ==> {
        &&& all_possible(s, capacity, steps.drop_last())
        &&& possible(run(s, capacity, steps.drop_last()).state, capacity, steps.last())
    }
}

/// Sends, receives and polls in whatever order lose no value, double none and keep
/// their order: the values that are handed out, followed by those that are left, are
/// those that were there at first, followed by those that were taken in.
pub proof fn nothing_is_lost<T>(s: ChannelState<T>, capacity: usize, steps: Seq<Step<T>>)
    requires
        s.wf(capacity),
        s.orderly(capacity),
        all_possible(s, capacity, steps),
    ensures
        ({
            let end = run(s, capacity, steps);
            &&& end.state.wf(capacity)
            &&& end.state.orderly(capacity)
            &&& end.handed_out + end.state.pending() == s.pending() + end.taken_in
        }),
    decreases steps.len(),
{
    let end = run(s, capacity, steps);
    if steps.len() == 0 {
        assert(end.handed_out + end.state.pending() =~= s.pending() + end.taken_in);
    } else {
        let before = run(s, capacity, steps.drop_last());
        let step = steps.last();
        let out = handed_out(before.state, capacity, step);
        let sent = taken_in(before.state, capacity, step);
        nothing_is_lost(s, capacity, steps.drop_last());
        a_step_loses_nothing(before.state, capacity, step);
        assert(end.handed_out + end.state.pending() =~= before.handed_out + (out
            + end.state.pending()));
        assert(before.handed_out + (before.state.pending() + sent) =~= (before.handed_out
            + before.state.pending()) + sent);
        assert((s.pending() + before.taken_in) + sent =~= s.pending() + end.taken_in);
    }
}

/// A sender that waits keeps its own value, whatever else is done with the channel:
/// as long as its signal is there, the signal carries that value or has given it
/// away.
pub proof fn waiting_sender_keeps_its_value<T>(
    s: ChannelState<T>,
    next: ChannelState<T>,
    capacity: usize,
    id: usize,
)
    requires
        s.wf(capacity),
        s.orderly(capacity),
        steps_to(s, next, capacity),
        s.has_signal(id, SignalKind::Send),
        s.signals[id].waiting(),
        next.signals.dom().contains(id),
    ensures
        next.signals[id].kind is Send,
        next.signals[id].data == s.signals[id].data || next.signals[id].state == SIGNALLED,
{
}

/// A resolved signal stays as it is, whatever is done with the channel, until it is
/// polled or given up: a value that was delivered to a receiver is not replaced, and
/// neither is one that goes back to its sender.
pub proof fn resolved_signal_stays<T>(
    s: ChannelState<T>,
    next: ChannelState<T>,
    capacity: usize,
    id: usize,
)
    requires
        s.wf(capacity),
        s.orderly(capacity),
        steps_to(s, next, capacity),
        s.signals.dom().contains(id),
        !s.signals[id].waiting(),
        next.signals.dom().contains(id),
    ensures
        next.signals[id] == s.signals[id],
{
    s.lemma_waits(capacity, id);
}

/// A signal leaves the channel only when it is polled itself or given up itself:
/// nothing that is done with the others takes it away.
pub proof fn only_its_own_steps_remove_a_signal<T>(
    s: ChannelState<T>,
    next: ChannelState<T>,
    capacity: usize,
    id: usize,
)
    requires
        s.wf(capacity),
        s.orderly(capacity),
        steps_to(s, next, capacity),
        s.signals.dom().contains(id),
        !next.signals.dom().contains(id),
    ensures
        ({
            ||| exists|waker: Waker| next == #[trigger] s.poll_send(id, waker).0
            ||| exists|waker: Waker| next == #[trigger] s.poll_recv(id, waker).0
            ||| exists|kind: SignalKind| next == #[trigger] s.abandon(id, kind).0
        }),
{
}

/// The states follow each other by whole operations, and the signal is there in all
/// of them.
pub open spec fn history<T>(states: Seq<ChannelState<T>>, capacity: usize, id: usize) -> bool {
    &&& states.len() > 0
    &&& states[0].wf(capacity)
    &&& states[0].orderly(capacity)
    &&& forall|i: int|
        0 <= i < states.len() ==> (#[trigger] states[i]).signals.dom().contains(id)
    &&& forall|i: int|
        0 < i < states.len() ==> steps_to(states[i - 1], #[trigger] states[i], capacity)
}

/// Every state of a history is well formed and orderly.
proof fn history_is_orderly<T>(
    states: Seq<ChannelState<T>>,
    capacity: usize,
    id: usize,
    i: int,
)
    requires
        history(states, capacity, id),
        0 <= i < states.len(),
    ensures
        states[i].wf(capacity),
        states[i].orderly(capacity),
    decreases i,
{
    if i > 0 {
        history_is_orderly(states, capacity, id, i - 1);
        every_step_keeps_order(states[i - 1], states[i], capacity);
    }
}

/// A send that has to wait comes to one of two ends, whatever others do with the
/// channel in the meantime: its value has moved, or the very value that was sent
/// comes back. Until then it stays pending.
pub proof fn waiting_send_ends_with_its_own_value<T>(
    states: Seq<ChannelState<T>>,
    capacity: usize,
    id: usize,
    data: T,
    waker: Waker,
)
    requires
        history(states, capacity, id),
        states[0].signals[id] == Signal::spec_send(data),
    ensures
        ({
            let poll = states.last().poll_send(id, waker).1;
            ||| poll == SignalPoll::<Result<(), SendError<T>>>::Pending
            ||| poll == SignalPoll::<Result<(), SendError<T>>>::Ready(Ok(()))
            ||| poll == SignalPoll::<Result<(), SendError<T>>>::Ready(Err(SendError(data)))
        }),
{
    sender_keeps_its_value(states, capacity, id, data, states.len() - 1);
    history_is_orderly(states, capacity, id, states.len() - 1);
    polling_keeps_order(states.last(), capacity, id, waker);
}

/// All through a history the signal of a sender carries the value that was sent, or
/// has given it away.
proof fn sender_keeps_its_value<T>(
    states: Seq<ChannelState<T>>,
    capacity: usize,
    id: usize,
    data: T,
    i: int,
)
    requires
        history(states, capacity, id),
        states[0].signals[id] == Signal::spec_send(data),
        0 <= i < states.len(),
    ensures
        states[i].signals[id].kind is Send,
        states[i].signals[id].data == Some(data) || states[i].signals[id].state == SIGNALLED,
    decreases i,
{
    if i > 0 {
        sender_keeps_its_value(states, capacity, id, data, i - 1);
        history_is_orderly(states, capacity, id, i - 1);
        if states[i - 1].signals[id].waiting() {
            waiting_sender_keeps_its_value(states[i - 1], states[i], capacity, id);
        } else {
            resolved_signal_stays(states[i - 1], states[i], capacity, id);
        }
    }
}

/// A value that was delivered to a receiver that waits is the one that it gets,
/// whenever it asks and whatever others do with the channel in the meantime.
pub proof fn delivered_value_is_received<T>(
    states: Seq<ChannelState<T>>,
    capacity: usize,
    id: usize,
    data: T,
    waker: Waker,
)
    requires
        history(states, capacity, id),
        states[0].has_signal(id, SignalKind::Receive),
        states[0].signals[id].state == SIGNALLED,
        states[0].signals[id].data == Some(data),
    ensures
        states.last().poll_recv(id, waker).1 == SignalPoll::<Result<T, ReceiveError>>::Ready(
            Ok(data),
        ),
{
    resolved_signal_stays_through(states, capacity, id, states.len() - 1);
}

/// All through a history a resolved signal stays as it is.
proof fn resolved_signal_stays_through<T>(
    states: Seq<ChannelState<T>>,
    capacity: usize,
    id: usize,
    i: int,
)
    requires
        history(states, capacity, id),
        !states[0].signals[id].waiting(),
        0 <= i < states.len(),
    ensures
        states[i].signals[id] == states[0].signals[id],
    decreases i,
{
    if i > 0 {
        resolved_signal_stays_through(states, capacity, id, i - 1);
        history_is_orderly(states, capacity, id, i - 1);
        resolved_signal_stays(states[i - 1], states[i], capacity, id);
    }
}

} // verus!
