//! What each operation does, said of the parts of a channel alone: the buffered
//! values, the wait list, the signals and the counts, before and after, and what the
//! operation gives back.
use vstd::prelude::*;
use core::task::Waker;
use crate::error::{ReceiveError, ReceiveErrorTimeout, SendError};
use crate::internal::Abandon;
use crate::signal::{
    Signal, SignalKind, SignalPoll, SignalResult, PENDING, SIGNALLED, TERMINATED, UNINITED,
};
use crate::state::ChannelState;
use crate::terminator::SignalTerimnator;
use crate::waker::OnceWaker;

verus! {

/// The first that wait give their tasks, in order, to those that are to be woken.
proof fn tasks_of_prefix<T>(
    signals: Map<usize, Signal<T>>,
    names: Seq<SignalTerimnator>,
    n: int,
)
    requires
        0 <= n <= names.len(),
    ensures
        forall|i: int|
            0 <= i < n ==> (signals[(#[trigger] names[i]).inner].waker matches OnceWaker::Waker(w)
                ==> ChannelState::<T>::tasks_of(signals, names.take(n)).contains(w)),
        forall|k: int|
            0 <= k < ChannelState::<T>::tasks_of(signals, names.take(n)).len() ==> exists|i: int|
                0 <= i < n && signals[(#[trigger] names[i]).inner].waker == OnceWaker::Waker(
                    #[trigger] ChannelState::<T>::tasks_of(signals, names.take(n))[k],
                ),
        ChannelState::<T>::tasks_of(signals, names.take(n)).len() <= n,
    decreases n,
{
    let now = ChannelState::<T>::tasks_of(signals, names.take(n));
    if n == 0 {
        assert(names.take(0) =~= Seq::<SignalTerimnator>::empty());
        let f = |t: SignalTerimnator| signals[t.inner].task();
        assert(names.take(0).filter_map(f).len() == 0) by {
            reveal(Seq::filter_map);
        }
    } else {
        tasks_of_prefix(signals, names, n - 1);
        ChannelState::<T>::lemma_tasks_take(signals, names, n - 1);
        let before = ChannelState::<T>::tasks_of(signals, names.take(n - 1));
        assert forall|i: int| 0 <= i < n implies (signals[(
        #[trigger] names[i]).inner].waker matches OnceWaker::Waker(w) ==> now.contains(w)) by {
            if let OnceWaker::Waker(w) = signals[names[i].inner].waker {
                if i < n - 1 {
                    let k = choose|k: int| 0 <= k < before.len() && before[k] == w;
                    assert(now[k] == w);
                } else {
                    assert(now[before.len() as int] == w);
                }
            }
        }
        assert forall|k: int| 0 <= k < now.len() implies exists|i: int|
            0 <= i < n && signals[(#[trigger] names[i]).inner].waker == OnceWaker::Waker(
                #[trigger] now[k],
            ) by {
            if k < before.len() {
                assert(now[k] == before[k]);
                let i = choose|i: int|
                    0 <= i < n - 1 && signals[(#[trigger] names[i]).inner].waker
                        == OnceWaker::Waker(before[k]);
                assert(signals[names[i].inner].waker == OnceWaker::Waker(now[k]));
            } else {
                assert(signals[names[n - 1].inner].waker == OnceWaker::Waker(now[k]));
            }
        }
    }
}

/// The tasks to wake when a channel gives up on all that wait, or takes the values of
/// all that wait, are those that have registered with a signal in the wait list: none
/// is left out, and no other is among them.
pub proof fn all_that_wait_are_to_be_woken<T>(s: ChannelState<T>)
    ensures
        forall|i: int|
            0 <= i < s.wait_list.len() ==> (s.signals[(
            #[trigger] s.wait_list[i]).inner].waker matches OnceWaker::Waker(w)
                ==> s.tasks().contains(w)),
        forall|k: int|
            0 <= k < s.tasks().len() ==> exists|i: int|
                0 <= i < s.wait_list.len() && s.signals[(#[trigger] s.wait_list[i]).inner].waker
                    == OnceWaker::Waker(#[trigger] s.tasks()[k]),
        s.tasks().len() <= s.wait_list.len(),
{
    tasks_of_prefix(s.signals, s.wait_list, s.wait_list.len() as int);
    assert(s.wait_list.take(s.wait_list.len() as int) =~= s.wait_list);
}

/// The tasks are woken in the order of the wait list: one that waits behind all others
/// adds its task behind theirs, and nothing if it has not registered.
pub proof fn tasks_are_woken_in_order<T>(s: ChannelState<T>, id: usize)
    ensures
        s.wait_list.len() == 0 ==> s.tasks().len() == 0,
        (ChannelState { wait_list: s.wait_list.push(SignalTerimnator { inner: id }), ..s }).tasks()
            == (match s.signals[id].waker {
            OnceWaker::Waker(w) => s.tasks().push(w),
            _ => s.tasks(),
        }),
{
    tasks_of_prefix(s.signals, s.wait_list, s.wait_list.len() as int);
    let more = s.wait_list.push(SignalTerimnator { inner: id });
    let n = s.wait_list.len() as int;
    ChannelState::<T>::lemma_tasks_take(s.signals, more, n);
    assert(s.wait_list.take(n) =~= s.wait_list);
    assert(more.take(n) =~= s.wait_list);
    assert(more.take(n + 1) =~= more);
}

/// Who waits, and how many values are there, hangs on nothing but the parts.
pub proof fn what_a_channel_holds<T>(s: ChannelState<T>)
    ensures
        s.receivers_wait() <==> s.recv_blocking && s.wait_list.len() > 0,
        s.senders_wait() <==> !s.recv_blocking && s.wait_list.len() > 0,
        s.has_value() <==> s.queue.len() > 0 || (!s.recv_blocking && s.wait_list.len() > 0),
        s.terminated() <==> s.send_count == 0 && s.queue.len() == 0,
        s.pending().len() == s.queue.len() + (if s.recv_blocking {
            0
        } else {
            s.wait_list.len()
        }),
        forall|i: int| 0 <= i < s.queue.len() ==> #[trigger] s.pending()[i] == s.queue[i],
        forall|i: int|
            s.queue.len() <= i < s.pending().len() ==> #[trigger] s.pending()[i]
                == s.signals[s.wait_list[i - s.queue.len()].inner].data->0,
        forall|id: usize| #[trigger]
            s.waits(id) <==> exists|i: int|
                0 <= i < s.wait_list.len() && (#[trigger] s.wait_list[i]).inner == id,
        forall|id: usize, kind: SignalKind| #[trigger]
            s.has_signal(id, kind) <==> s.signals.dom().contains(id) && s.signals[id].kind == kind,
{
    assert forall|id: usize| #[trigger] s.waits(id) <==> exists|i: int|
        0 <= i < s.wait_list.len() && (#[trigger] s.wait_list[i]).inner == id by {
        if s.waits(id) {
            let i = choose|i: int|
                0 <= i < s.wait_list.len() && s.wait_list[i] == SignalTerimnator::named(id);
            assert(s.wait_list[i].inner == id);
        }
        if exists|i: int| 0 <= i < s.wait_list.len() && (#[trigger] s.wait_list[i]).inner == id {
            let i = choose|i: int|
                0 <= i < s.wait_list.len() && (#[trigger] s.wait_list[i]).inner == id;
            assert(s.wait_list[i] == SignalTerimnator::named(id));
        }
    }
}

/// A well-formed channel has each that waits once in its wait list, with an unresolved
/// signal of the side that the list is open to; without capacity it buffers nothing.
pub proof fn what_a_well_formed_channel_is<T>(s: ChannelState<T>, capacity: usize)
    requires
        s.wf(capacity),
    ensures
        forall|i: int, j: int|
            0 <= i < j < s.wait_list.len() ==> (#[trigger] s.wait_list[i]).inner != (
            #[trigger] s.wait_list[j]).inner,
        forall|i: int|
            0 <= i < s.wait_list.len() ==> {
                let id = (#[trigger] s.wait_list[i]).inner;
                &&& s.signals.dom().contains(id)
                &&& s.signals[id].kind == (if s.recv_blocking {
                    SignalKind::Receive
                } else {
                    SignalKind::Send
                })
                &&& s.signals[id].state == UNINITED || s.signals[id].state == PENDING
                &&& !(s.signals[id].waker is Notified)
                &&& s.signals[id].data is Some <==> !s.recv_blocking
            },
        capacity == 0 ==> s.queue.len() == 0,
{
    assert forall|i: int, j: int| 0 <= i < j < s.wait_list.len() implies (
    #[trigger] s.wait_list[i]).inner != (#[trigger] s.wait_list[j]).inner by {
        assert(s.wait_list[i] != s.wait_list[j]);
    }
    assert forall|i: int| 0 <= i < s.wait_list.len() implies s.may_wait(
        (#[trigger] s.wait_list[i]).inner,
    ) by {}
}

/// An orderly channel holds no more than its capacity; a sender waits only while the
/// buffer is full, a receiver only while it is empty, and every signal that is not
/// resolved stands in the wait list.
pub proof fn what_an_orderly_channel_is<T>(s: ChannelState<T>, capacity: usize)
    requires
        s.orderly(capacity),
    ensures
        s.queue.len() <= capacity,
        !s.recv_blocking && s.wait_list.len() > 0 ==> s.queue.len() == capacity,
        s.recv_blocking && s.wait_list.len() > 0 ==> s.queue.len() == 0,
        forall|id: usize| #[trigger]
            s.signals.dom().contains(id) && (s.signals[id].state == UNINITED || s.signals[id].state
                == PENDING) ==> s.wait_list.contains(SignalTerimnator { inner: id }),
{
}

/// A new channel holds nothing and counts the handles that it is made with.
pub proof fn a_new_channel_is_empty<T>(receivers: nat, senders: nat, handles: nat)
    ensures
        ({
            let s = ChannelState::<T>::empty(receivers, senders, handles);
            &&& s.queue.len() == 0 && s.wait_list.len() == 0
            &&& forall|id: usize| !#[trigger] s.signals.dom().contains(id)
            &&& s.recv_count == receivers && s.send_count == senders && s.ref_count == handles
            &&& !s.recv_blocking
        }),
{
}

/// A send that does not wait is refused if and only if no receiver is counted, or no
/// receiver waits and the buffer is full. The refused value is the one that comes
/// back, and nothing of the channel changes but the side that an empty wait list is
/// open to.
pub proof fn when_a_send_is_refused<T>(s: ChannelState<T>, capacity: usize, data: T)
    ensures
        ({
            let (next, sent, task) = s.try_send(capacity, data);
            let refused = s.recv_count == 0 || (s.queue.len() >= capacity && !(s.recv_blocking
                && s.wait_list.len() > 0));
            &&& sent == (if refused {
                Err::<(), SendError<T>>(SendError(data))
            } else {
                Ok::<(), SendError<T>>(())
            })
            &&& refused ==> {
                &&& task is None
                &&& next.queue == s.queue
                &&& next.wait_list == s.wait_list
                &&& next.signals == s.signals
                &&& s.wait_list.len() > 0 ==> next.recv_blocking == s.recv_blocking
            }
            &&& next.recv_count == s.recv_count
            &&& next.send_count == s.send_count
            &&& next.ref_count == s.ref_count
        }),
{
}

/// A value that is sent while a receiver waits goes to the one that waits longest, and
/// to no other: that one leaves the wait list with the value in its signal, and its
/// task is the one to wake.
pub proof fn a_sent_value_goes_to_the_first_receiver<T>(
    s: ChannelState<T>,
    capacity: usize,
    data: T,
)
    requires
        s.recv_count > 0,
        s.recv_blocking,
        s.wait_list.len() > 0,
    ensures
        ({
            let id = s.wait_list[0].inner;
            let (next, sent, task) = s.try_send(capacity, data);
            &&& next.signals == s.signals.insert(
                id,
                Signal {
                    state: SIGNALLED,
                    data: Some(data),
                    waker: OnceWaker::Notified,
                    kind: s.signals[id].kind,
                },
            )
            &&& next.wait_list == s.wait_list.subrange(1, s.wait_list.len() as int)
            &&& next.queue == s.queue
            &&& next.recv_blocking
            &&& task == (match s.signals[id].waker {
                OnceWaker::Waker(w) => Some(w),
                _ => None,
            })
        }),
{
}

/// A value that is sent while no receiver waits and there is room goes behind the
/// buffered ones, and wakes nobody.
pub proof fn a_sent_value_goes_into_the_buffer<T>(s: ChannelState<T>, capacity: usize, data: T)
    requires
        s.recv_count > 0,
        !(s.recv_blocking && s.wait_list.len() > 0),
        s.queue.len() < capacity,
    ensures
        ({
            let (next, sent, task) = s.try_send(capacity, data);
            &&& next.queue.len() == s.queue.len() + 1
            &&& next.queue[s.queue.len() as int] == data
            &&& forall|i: int| 0 <= i < s.queue.len() ==> #[trigger] next.queue[i] == s.queue[i]
            &&& next.wait_list == s.wait_list
            &&& next.signals == s.signals
            &&& !next.recv_blocking
            &&& task is None
        }),
{
}

/// A send has to wait if and only if there is a receiver, none waits, and the buffer
/// is full.
pub proof fn when_a_send_waits<T>(s: ChannelState<T>, capacity: usize)
    ensures
        !s.sends_at_once(capacity) <==> s.recv_count > 0 && s.queue.len() >= capacity && !(
        s.recv_blocking && s.wait_list.len() > 0),
{
}

/// One that starts to wait, sender or receiver and whatever the counts, stands behind
/// all that wait already, with its own new signal; nothing else changes.
pub proof fn newcomers_stand_last<T>(s: ChannelState<T>, id: usize, data: T)
    ensures
        ({
            let next = s.for_receivers().joined(id, Signal::<T>::spec_recv());
            &&& next.wait_list.len() == s.wait_list.len() + 1
            &&& next.wait_list[s.wait_list.len() as int].inner == id
            &&& forall|i: int|
                0 <= i < s.wait_list.len() ==> #[trigger] next.wait_list[i] == s.wait_list[i]
            &&& next.signals == s.signals.insert(
                id,
                Signal {
                    state: UNINITED,
                    data: None::<T>,
                    waker: OnceWaker::Uninited,
                    kind: SignalKind::Receive,
                },
            )
            &&& next.recv_blocking
            &&& next.queue == s.queue
            &&& (next.recv_count, next.send_count, next.ref_count) == (
                s.recv_count,
                s.send_count,
                s.ref_count,
            )
        }),
        ({
            let next = s.for_senders().joined(id, Signal::spec_send(data));
            &&& next.wait_list.len() == s.wait_list.len() + 1
            &&& next.wait_list[s.wait_list.len() as int].inner == id
            &&& forall|i: int|
                0 <= i < s.wait_list.len() ==> #[trigger] next.wait_list[i] == s.wait_list[i]
            &&& next.signals == s.signals.insert(
                id,
                Signal {
                    state: UNINITED,
                    data: Some(data),
                    waker: OnceWaker::Uninited,
                    kind: SignalKind::Send,
                },
            )
            &&& !next.recv_blocking
            &&& next.queue == s.queue
            &&& (next.recv_count, next.send_count, next.ref_count) == (
                s.recv_count,
                s.send_count,
                s.ref_count,
            )
        }),
{
}

/// Of two receivers that start to wait one after the other, the first gets the first
/// value that is sent and the second the second, whatever the counts.
pub proof fn receivers_are_served_as_they_came<T>(
    s: ChannelState<T>,
    capacity: usize,
    first: usize,
    second: usize,
    one: T,
    two: T,
)
    requires
        s.recv_count > 0,
        s.wait_list.len() == 0,
        first != second,
    ensures
        ({
            let waiting = s.for_receivers().joined(first, Signal::<T>::spec_recv()).for_receivers()
                .joined(second, Signal::<T>::spec_recv());
            let sent = waiting.try_send(capacity, one).0;
            let both = sent.try_send(capacity, two).0;
            &&& sent.signals[first].data == Some(one) && sent.signals[first].state == SIGNALLED
            &&& sent.signals[second].data is None && sent.signals[second].state == UNINITED
            &&& both.signals[first].data == Some(one)
            &&& both.signals[second].data == Some(two) && both.signals[second].state == SIGNALLED
            &&& both.wait_list.len() == 0
            &&& both.queue == s.queue
        }),
{
}

/// Of two senders that start to wait one after the other, the value of the first is
/// received before that of the second, whatever the counts.
pub proof fn senders_are_served_as_they_came<T>(
    s: ChannelState<T>,
    first: usize,
    second: usize,
    one: T,
    two: T,
)
    requires
        s.recv_count > 0,
        s.wait_list.len() == 0,
        s.queue.len() == 0,
        first != second,
    ensures
        ({
            let waiting = s.for_senders().joined(first, Signal::spec_send(one)).for_senders().joined(
                second,
                Signal::spec_send(two),
            );
            let (rest, received, _) = waiting.try_recv();
            &&& received == Ok::<T, ReceiveErrorTimeout>(one)
            &&& rest.signals[first].state == SIGNALLED && rest.signals[first].data is None
            &&& rest.signals[second].state == UNINITED && rest.signals[second].data == Some(two)
            &&& rest.try_recv().1 == Ok::<T, ReceiveErrorTimeout>(two)
        }),
{
}

/// A receive takes the oldest value: the first of the buffer, or the value of the
/// sender that waits longest if the buffer is empty. That sender gives its value away
/// in either case, into the buffer behind the others if there is one, and its task is
/// the one to wake.
pub proof fn what_a_receive_takes<T>(s: ChannelState<T>)
    requires
        s.queue.len() > 0 || (!s.recv_blocking && s.wait_list.len() > 0),
    ensures
        ({
            let served = !s.recv_blocking && s.wait_list.len() > 0;
            let id = s.wait_list[0].inner;
            let offered = s.signals[id].data->0;
            let (next, value, task) = s.received();
            &&& value == (if s.queue.len() > 0 {
                s.queue[0]
            } else {
                offered
            })
            &&& next.queue.len() == s.queue.len() - (if served {
                0int
            } else {
                1
            })
            &&& forall|i: int|
                0 <= i < s.queue.len() - 1 ==> #[trigger] next.queue[i] == s.queue[i + 1]
            &&& served && s.queue.len() > 0 ==> next.queue[s.queue.len() - 1] == offered
            &&& served ==> {
                &&& next.wait_list == s.wait_list.subrange(1, s.wait_list.len() as int)
                &&& next.signals == s.signals.insert(
                    id,
                    Signal {
                        state: SIGNALLED,
                        data: None,
                        waker: OnceWaker::Notified,
                        kind: s.signals[id].kind,
                    },
                )
                &&& !next.recv_blocking
                &&& task == (match s.signals[id].waker {
                    OnceWaker::Waker(w) => Some(w),
                    _ => None,
                })
            }
            &&& !served ==> {
                &&& next.wait_list == s.wait_list
                &&& next.signals == s.signals
                &&& next.recv_blocking
                &&& task is None
            }
            &&& (next.recv_count, next.send_count, next.ref_count) == (
                s.recv_count,
                s.send_count,
                s.ref_count,
            )
        }),
{
}

/// On a channel with a receiver that holds a value, a receive that does not wait
/// succeeds with the oldest one, and leaves the others in their order.
pub proof fn a_value_that_is_there_is_received<T>(s: ChannelState<T>, capacity: usize)
    requires
        s.wf(capacity),
        s.recv_count > 0,
        s.queue.len() > 0 || (!s.recv_blocking && s.wait_list.len() > 0),
    ensures
        ({
            let (next, received, task) = s.try_recv();
            &&& received == Ok::<T, ReceiveErrorTimeout>(
                if s.queue.len() > 0 {
                    s.queue[0]
                } else {
                    s.signals[s.wait_list[0].inner].data->0
                },
            )
            &&& received == Ok::<T, ReceiveErrorTimeout>(s.pending()[0])
            &&& next.pending() == s.pending().drop_first()
            &&& (next, received->Ok_0, task) == s.received()
        }),
{
    crate::laws::oldest_value_is_received(s, capacity);
    what_a_channel_holds(s);
}

/// A receive that does not wait fails if and only if no receiver is counted, or there
/// is no value. It says that the channel is closed if and only if a side of it is
/// gone. A failed receive changes nothing but the side that an empty wait list is
/// open to.
pub proof fn when_a_receive_fails<T>(s: ChannelState<T>)
    ensures
        ({
            let (next, received, task) = s.try_recv();
            let empty = s.queue.len() == 0 && (s.recv_blocking || s.wait_list.len() == 0);
            &&& received is Err <==> s.recv_count == 0 || empty
            &&& received is Err ==> {
                &&& received == Err::<T, ReceiveErrorTimeout>(
                    if s.recv_count == 0 || s.send_count == 0 {
                        ReceiveErrorTimeout::Closed
                    } else {
                        ReceiveErrorTimeout::Timeout
                    },
                )
                &&& task is None
                &&& next.queue == s.queue
                &&& next.wait_list == s.wait_list
                &&& next.signals == s.signals
                &&& s.wait_list.len() > 0 ==> next.recv_blocking == s.recv_blocking
            }
            &&& (next.recv_count, next.send_count, next.ref_count) == (
                s.recv_count,
                s.send_count,
                s.ref_count,
            )
        }),
{
}

/// Draining takes every value: the buffer is empty then, and each sender that waits
/// has given its value away. Receivers that wait are left as they are.
pub proof fn what_draining_leaves<T>(s: ChannelState<T>)
    ensures
        ({
            let next = s.drained();
            &&& next.queue.len() == 0
            &&& next.recv_blocking
            &&& s.recv_blocking ==> next.wait_list == s.wait_list && next.signals == s.signals
            &&& !s.recv_blocking ==> {
                &&& next.wait_list.len() == 0
                &&& next.signals.dom() == s.signals.dom()
                &&& forall|id: usize| #[trigger]
                    s.signals.dom().contains(id) ==> next.signals[id] == (
                    if s.wait_list.contains(SignalTerimnator { inner: id }) {
                        Signal {
                            state: SIGNALLED,
                            data: None,
                            waker: OnceWaker::Notified,
                            kind: s.signals[id].kind,
                        }
                    } else {
                        s.signals[id]
                    })
            }
            &&& (next.recv_count, next.send_count, next.ref_count) == (
                s.recv_count,
                s.send_count,
                s.ref_count,
            )
        }),
{
    assert(s.drained().signals.dom() =~= s.signals.dom());
}

/// A channel is closed if and only if no handle of either side is counted. While a
/// sender or a receiver is counted it is open, and then closing it succeeds.
pub proof fn when_a_channel_is_closed<T>(s: ChannelState<T>)
    ensures
        s.closed() <==> s.send_count == 0 && s.recv_count == 0,
        s.send_count > 0 || s.recv_count > 0 ==> !s.closed(),
        s.after_close().closed(),
        s.recv_count > 0 && s.send_count == 1 ==> !s.after_dec(true).closed(),
        s.send_count > 0 && s.recv_count == 1 ==> !s.after_dec(false).closed(),
{
}

/// Giving up on all that wait resolves each of their signals, which keep what they
/// carry, and no other.
pub proof fn what_giving_up_on_all_leaves<T>(s: ChannelState<T>)
    ensures
        ({
            let next = s.all_terminated();
            &&& next.wait_list.len() == 0
            &&& next.signals.dom() == s.signals.dom()
            &&& forall|id: usize| #[trigger]
                s.signals.dom().contains(id) ==> next.signals[id] == (if s.wait_list.contains(
                    SignalTerimnator { inner: id },
                ) {
                    Signal {
                        state: TERMINATED,
                        data: s.signals[id].data,
                        waker: OnceWaker::Notified,
                        kind: s.signals[id].kind,
                    }
                } else {
                    s.signals[id]
                })
            &&& next.queue == s.queue
            &&& next.recv_blocking == s.recv_blocking
            &&& (next.recv_count, next.send_count, next.ref_count) == (
                s.recv_count,
                s.send_count,
                s.ref_count,
            )
        }),
{
    assert(s.all_terminated().signals.dom() =~= s.signals.dom());
}

/// Closing a channel drops what is buffered, gives up on all that wait and counts
/// nobody any more on either side; the handles themselves are still counted.
pub proof fn what_closing_leaves<T>(s: ChannelState<T>)
    ensures
        ({
            let next = s.after_close();
            &&& next.queue.len() == 0
            &&& next.wait_list.len() == 0
            &&& next.recv_count == 0 && next.send_count == 0
            &&& next.ref_count == s.ref_count
            &&& next.signals == s.all_terminated().signals
            &&& next.signals.dom() == s.signals.dom()
            &&& forall|i: int|
                0 <= i < s.wait_list.len() && s.signals.dom().contains(
                    (#[trigger] s.wait_list[i]).inner,
                ) ==> {
                    let id = s.wait_list[i].inner;
                    &&& next.signals[id].state == TERMINATED
                    &&& next.signals[id].data == s.signals[id].data
                    &&& next.signals[id].kind == s.signals[id].kind
                }
        }),
{
    what_giving_up_on_all_leaves(s);
    assert forall|i: int| 0 <= i < s.wait_list.len() implies s.wait_list.contains(
        SignalTerimnator { inner: (#[trigger] s.wait_list[i]).inner },
    ) by {
        assert(s.wait_list[i] == SignalTerimnator { inner: s.wait_list[i].inner });
    }
}

/// A handle that comes is counted on its own side if that side is still open, and
/// among all handles in any case; nothing else changes.
pub proof fn what_cloning_changes<T>(s: ChannelState<T>, is_sender: bool)
    ensures
        ({
            let next = s.after_inc(is_sender);
            &&& next.ref_count == s.ref_count + 1
            &&& next.send_count == s.send_count + (if is_sender && s.send_count > 0 {
                1int
            } else {
                0
            })
            &&& next.recv_count == s.recv_count + (if !is_sender && s.recv_count > 0 {
                1int
            } else {
                0
            })
            &&& next.queue == s.queue
            &&& next.wait_list == s.wait_list
            &&& next.signals == s.signals
            &&& next.recv_blocking == s.recv_blocking
        }),
        s.countable() <==> s.ref_count < usize::MAX && s.send_count < usize::MAX && s.recv_count
            < usize::MAX,
{
}

/// A handle that goes is no longer counted. Only the last sender, while receivers are
/// counted, and the last receiver release all that wait; only the last receiver takes
/// the buffered values with it.
pub proof fn what_dropping_changes<T>(s: ChannelState<T>, is_sender: bool)
    requires
        s.ref_count > 0,
    ensures
        s.last_of_side(is_sender) <==> (if is_sender {
            s.send_count == 1 && s.recv_count > 0
        } else {
            s.recv_count == 1
        }),
        ({
            let next = s.after_dec(is_sender);
            let last = if is_sender {
                s.send_count == 1 && s.recv_count > 0
            } else {
                s.recv_count == 1
            };
            &&& next.ref_count == s.ref_count - 1
            &&& next.send_count == s.send_count - (if is_sender && s.send_count > 0 {
                1int
            } else {
                0
            })
            &&& next.recv_count == s.recv_count - (if !is_sender && s.recv_count > 0 {
                1int
            } else {
                0
            })
            &&& next.recv_blocking == s.recv_blocking
            &&& !last ==> next.queue == s.queue && next.wait_list == s.wait_list && next.signals
                == s.signals
            &&& last ==> next.wait_list.len() == 0 && next.signals == s.all_terminated().signals
            &&& last && is_sender ==> next.queue == s.queue
            &&& last && !is_sender ==> next.queue.len() == 0
        }),
{
}

/// What a poll of a signal of a receiver gives, and what it leaves. A number without
/// such a signal stays pending; a signal that waits takes the waker; one that was
/// claimed is reported as such; and a resolved one gives its value or the error, and
/// is gone.
pub proof fn what_polling_a_receive_gives<T>(s: ChannelState<T>, id: usize, waker: Waker)
    ensures
        ({
            let (next, poll) = s.poll_recv(id, waker);
            let there = s.signals.dom().contains(id) && s.signals[id].kind is Receive;
            let waits = s.signals[id].state == UNINITED || s.signals[id].state == PENDING;
            &&& !there ==> poll is Pending && next == s
            &&& there && waits && !(s.signals[id].waker is Notified) ==> {
                &&& poll is Pending
                &&& next == (ChannelState {
                    signals: s.signals.insert(
                        id,
                        Signal {
                            state: PENDING,
                            data: s.signals[id].data,
                            waker: OnceWaker::Waker(waker),
                            kind: s.signals[id].kind,
                        },
                    ),
                    ..s
                })
            }
            &&& there && waits && s.signals[id].waker is Notified ==> poll is Claimed && next == s
            &&& there && !waits ==> next == (ChannelState { signals: s.signals.remove(id), ..s })
            &&& there && s.signals[id].state == SIGNALLED ==> poll == SignalPoll::<
                Result<T, ReceiveError>,
            >::Ready(Ok(s.signals[id].data->0))
            &&& there && s.signals[id].state == TERMINATED ==> poll == SignalPoll::<
                Result<T, ReceiveError>,
            >::Ready(Err(ReceiveError()))
        }),
{
}

/// What a poll of a signal of a sender gives, and what it leaves: success once the
/// value has moved, the value that it carries once the channel gave up.
pub proof fn what_polling_a_send_gives<T>(s: ChannelState<T>, id: usize, waker: Waker)
    ensures
        ({
            let (next, poll) = s.poll_send(id, waker);
            let there = s.signals.dom().contains(id) && s.signals[id].kind is Send;
            let waits = s.signals[id].state == UNINITED || s.signals[id].state == PENDING;
            &&& !there ==> poll is Pending && next == s
            &&& there && waits && !(s.signals[id].waker is Notified) ==> {
                &&& poll is Pending
                &&& next == (ChannelState {
                    signals: s.signals.insert(
                        id,
                        Signal {
                            state: PENDING,
                            data: s.signals[id].data,
                            waker: OnceWaker::Waker(waker),
                            kind: s.signals[id].kind,
                        },
                    ),
                    ..s
                })
            }
            &&& there && waits && s.signals[id].waker is Notified ==> poll is Claimed && next == s
            &&& there && !waits ==> next == (ChannelState { signals: s.signals.remove(id), ..s })
            &&& there && s.signals[id].state == SIGNALLED ==> poll == SignalPoll::<
                Result<(), SendError<T>>,
            >::Ready(Ok(()))
            &&& there && s.signals[id].state == TERMINATED ==> poll == SignalPoll::<
                Result<(), SendError<T>>,
            >::Ready(Err(SendError(s.signals[id].data->0)))
        }),
{
}

/// The waker that a poll leaves over is the one that was registered before, or the
/// one that was offered and not taken.
pub proof fn which_waker_is_left_over<T>(
    s: ChannelState<T>,
    id: usize,
    kind: SignalKind,
    waker: Waker,
)
    ensures
        ({
            let taken = s.signals.dom().contains(id) && s.signals[id].kind == kind && (
            s.signals[id].state == UNINITED || s.signals[id].state == PENDING) && !(
            s.signals[id].waker is Notified);
            s.spare(id, kind, waker) == (if !taken {
                Some(waker)
            } else {
                match s.signals[id].waker {
                    OnceWaker::Waker(w) => Some(w),
                    _ => None,
                }
            })
        }),
{
}

/// Giving up a signal takes it, and its place in the wait list, out of the channel and
/// hands it over whole. It cannot go while a peer has it, and a number without such a
/// signal changes nothing.
pub proof fn what_giving_up_leaves<T>(
    s: ChannelState<T>,
    capacity: usize,
    id: usize,
    kind: SignalKind,
)
    requires
        s.wf(capacity),
    ensures
        ({
            let (next, outcome) = s.abandon(id, kind);
            let there = s.signals.dom().contains(id) && s.signals[id].kind == kind;
            let listed = s.wait_list.contains(SignalTerimnator { inner: id });
            let flies = !listed && (s.signals[id].state == UNINITED || s.signals[id].state
                == PENDING);
            &&& outcome == (if there && flies {
                Abandon::InFlight
            } else {
                Abandon::Finished
            })
            &&& !there || flies ==> next == s && s.leaving(id, kind) is None
            &&& there && !flies ==> {
                &&& next == s.abandoned(id)
                &&& s.leaving(id, kind) == Some(s.signals[id])
                &&& next.signals == s.signals.remove(id)
                &&& !listed ==> next.wait_list == s.wait_list
                &&& forall|i: int|
                    0 <= i < s.wait_list.len() && (#[trigger] s.wait_list[i]).inner == id
                        ==> next.wait_list == s.wait_list.remove(i)
                &&& next.queue == s.queue
                &&& next.recv_blocking == s.recv_blocking
                &&& (next.recv_count, next.send_count, next.ref_count) == (
                    s.recv_count,
                    s.send_count,
                    s.ref_count,
                )
            }
        }),
{
    let next = s.abandon(id, kind).0;
    assert forall|i: int|
        0 <= i < s.wait_list.len() && (#[trigger] s.wait_list[i]).inner
            == id implies s.unlisted(id).wait_list == s.wait_list.remove(i) && s.wait_list.contains(
        SignalTerimnator { inner: id },
    ) by {
        s.lemma_unlisted(capacity, i);
        assert(s.wait_list[i] == SignalTerimnator { inner: id });
    }
    assert(SignalTerimnator::named(id) == SignalTerimnator { inner: id });
    if s.has_signal(id, kind) {
        assert(next.signals =~= s.signals.remove(id) || next == s);
    }
}

/// Taking a signal off the wait list of its own accord resolves it and leaves what it
/// carries and all others as they are.
pub proof fn what_cancelling_leaves<T>(s: ChannelState<T>, capacity: usize, i: int)
    requires
        s.wf(capacity),
        0 <= i < s.wait_list.len(),
    ensures
        ({
            let id = s.wait_list[i].inner;
            let next = s.cancelled(id);
            &&& s.waits(id)
            &&& next == (ChannelState {
                wait_list: s.wait_list.remove(i),
                signals: s.signals.insert(
                    id,
                    Signal {
                        state: TERMINATED,
                        data: s.signals[id].data,
                        waker: OnceWaker::Notified,
                        kind: s.signals[id].kind,
                    },
                ),
                ..s
            })
        }),
{
    s.lemma_unlisted(capacity, i);
    assert(s.wait_list[i] == SignalTerimnator::named(s.wait_list[i].inner));
    assert(s.wait_list.contains(s.wait_list[i]));
}

/// Taking the first off the wait list leaves the others in their order, and turning an
/// empty wait list to a side changes nothing else.
pub proof fn what_claiming_leaves<T>(s: ChannelState<T>)
    ensures
        s.wait_list.len() > 0 ==> s.popped() == (ChannelState {
            wait_list: s.wait_list.subrange(1, s.wait_list.len() as int),
            ..s
        }),
        s.for_senders() == (ChannelState { recv_blocking: false, ..s }),
        s.for_receivers() == (ChannelState { recv_blocking: true, ..s }),
        forall|id: usize| #[trigger]
            s.may_wait(id) <==> {
                &&& s.signals.dom().contains(id)
                &&& s.signals[id].kind == (if s.recv_blocking {
                    SignalKind::Receive
                } else {
                    SignalKind::Send
                })
                &&& s.signals[id].state == UNINITED || s.signals[id].state == PENDING
                &&& !(s.signals[id].waker is Notified)
            },
{
}

/// Letting go of a receive that was given up in flight puts a value that came too late
/// behind the buffered ones. Without a buffer the value is handed over instead.
pub proof fn what_becomes_of_a_late_value<T>(s: ChannelState<T>, capacity: usize, id: usize)
    ensures
        ({
            let (next, finished) = s.finish_abandoned_recv(capacity, id);
            let there = s.signals.dom().contains(id) && s.signals[id].kind is Receive;
            let waits = s.signals[id].state == UNINITED || s.signals[id].state == PENDING;
            let came = s.signals[id].state == SIGNALLED;
            &&& finished <==> !(there && waits)
            &&& !there || waits ==> next == s
            &&& there && !waits ==> next == (ChannelState {
                signals: s.signals.remove(id),
                queue: if came && capacity > 0 {
                    s.queue.push(s.signals[id].data->0)
                } else {
                    s.queue
                },
                ..s
            })
            &&& s.left_over(capacity, id) == (if there && came && capacity == 0 {
                s.signals[id].data
            } else {
                None
            })
        }),
{
}

/// The states of a signal are four different numbers, and what each of them means.
pub proof fn what_the_states_mean()
    ensures
        UNINITED == 0,
        PENDING == 1,
        TERMINATED == usize::MAX - 1,
        SIGNALLED == usize::MAX,
        crate::signal::result_of(0) is Uninited,
        crate::signal::result_of(1) is Pending,
        crate::signal::result_of((usize::MAX - 1) as usize) is Failure,
        crate::signal::result_of(usize::MAX) is Success,
        forall|state: usize| #[trigger]
            crate::signal::result_of(state) == SignalResult::Success <==> state == usize::MAX,
        forall|state: usize| #[trigger]
            crate::signal::result_of(state) == SignalResult::Failure <==> state == usize::MAX - 1,
        forall|state: usize| #[trigger]
            crate::signal::result_of(state) == SignalResult::Pending <==> state == 1,
{
}

/// A signal waits until it is resolved. Resolving it hands its waker out for good;
/// registering a task keeps what it carries; and a new signal carries the value of its
/// sender, or nothing.
pub proof fn what_becomes_of_a_signal<T>(signal: Signal<T>, data: Option<T>, value: T, waker: Waker)
    ensures
        signal.waiting() <==> signal.state == UNINITED || signal.state == PENDING,
        signal.task() == (match signal.waker {
            OnceWaker::Waker(w) => Some(w),
            _ => None,
        }),
        signal.signalled(data) == (Signal {
            state: SIGNALLED,
            data,
            waker: OnceWaker::Notified,
            kind: signal.kind,
        }),
        signal.terminated() == (Signal {
            state: TERMINATED,
            data: signal.data,
            waker: OnceWaker::Notified,
            kind: signal.kind,
        }),
        signal.registered(waker) == (Signal {
            state: PENDING,
            data: signal.data,
            waker: OnceWaker::Waker(waker),
            kind: signal.kind,
        }),
        signal.emptied() == (Signal {
            state: signal.state,
            data: None::<T>,
            waker: signal.waker,
            kind: signal.kind,
        }),
        Signal::<T>::spec_recv() == (Signal {
            state: UNINITED,
            data: None::<T>,
            waker: OnceWaker::Uninited,
            kind: SignalKind::Receive,
        }),
        Signal::spec_send(value) == (Signal {
            state: UNINITED,
            data: Some(value),
            waker: OnceWaker::Uninited,
            kind: SignalKind::Send,
        }),
        signal.wf() && !signal.waiting() ==> signal.waker is Notified,
        signal.wf() ==> (signal.kind is Send ==> (signal.data is Some <==> signal.state
            != SIGNALLED)) && (signal.kind is Receive ==> (signal.data is Some <==> signal.state
            == SIGNALLED)),
{
}

/// A slot that was notified stays so and takes no waker; any other takes the one that
/// is offered. The waker that it had, or did not take, is left over.
pub proof fn what_a_slot_takes(slot: OnceWaker, waker: Waker)
    ensures
        slot.task() is Some <==> slot is Waker,
        slot matches OnceWaker::Waker(w) ==> slot.task() == Some(w) && slot.spare(waker) == Some(w),
        slot is Notified ==> slot.updated(waker) is Notified && slot.spare(waker) == Some(waker),
        slot is Uninited ==> slot.spare(waker) is None,
        !(slot is Notified) ==> slot.updated(waker) == OnceWaker::Waker(waker),
{
}

/// A wait yields thirty-two times, then sleeps for 1024 nanoseconds, and for twice as
/// long each time until it is 262144 nanoseconds for good.
pub proof fn how_a_wait_goes_on(round: nat)
    ensures
        round < 32 ==> crate::backoff::plan(round) is Yield,
        crate::backoff::plan(32) == crate::backoff::WaitStep::Sleep(1024),
        32 <= round < 40 ==> (crate::backoff::plan(round) matches crate::backoff::WaitStep::Sleep(n)
            && crate::backoff::plan(round + 1) == crate::backoff::WaitStep::Sleep((2 * n) as u64)
            && 1024 <= n < 262144),
        round >= 40 ==> crate::backoff::plan(round) == crate::backoff::WaitStep::Sleep(262144),
{
    crate::backoff::sleeps_grow_to_a_limit(round);
    vstd::arithmetic::power2::lemma2_to64();
}

/// That a task was woken, a value forgotten, time passed by spinning or a duration
/// measured says of each that the call was made.
pub proof fn what_is_done_was_called<T>(
    task: Waker,
    tasks: Seq<Waker>,
    value: T,
    duration: core::time::Duration,
    nanos: u128,
)
    ensures
        crate::waker::woken(task) ==> call_ensures(Waker::wake, (task,), ()),
        crate::waker::one_woken(Some(task)) ==> call_ensures(Waker::wake, (task,), ()),
        crate::waker::all_woken(tasks) ==> forall|i: int|
            0 <= i < tasks.len() ==> call_ensures(Waker::wake, (#[trigger] tasks[i],), ()),
        crate::locked::forgotten(value) ==> call_ensures(core::mem::forget::<T>, (value,), ()),
        crate::backoff::spun() ==> call_ensures(core::hint::spin_loop, (), ()),
        forall|round: u128| #[trigger]
            crate::backoff::spun_in(round) ==> call_ensures(crate::backoff::spin, (round,), ()),
        crate::backoff::lasts(duration, nanos) ==> call_ensures(
            core::time::Duration::as_nanos,
            (&duration,),
            nanos,
        ),
        crate::waiting::poll_of(Some(value)) == SignalPoll::<T>::Ready(value),
        crate::waiting::poll_of(None::<T>) is Pending,
{
    if crate::waker::all_woken(tasks) {
        assert forall|i: int| 0 <= i < tasks.len() implies call_ensures(
            Waker::wake,
            (#[trigger] tasks[i],),
            (),
        ) by {
            assert(crate::waker::woken(tasks[i]));
        }
    }
}

} // verus!
