//! The state of a channel, operation by operation.
use std::sync::atomic::{AtomicUsize, Ordering};
use std::sync::Arc;
use std::task::{Wake, Waker};
use way::internal::{Abandon, ChannelInternal, RecvStep, SendStep};
use way::signal::{Signal, SignalPoll, SignalResult, PENDING, SIGNALLED, TERMINATED, UNINITED};
use way::table::SignalTable;
use way::terminator::SignalTerimnator;
use way::waker::OnceWaker;
use way::{CloseError, ReceiveError, ReceiveErrorTimeout, SendError};

/// Counts how often it was woken.
struct Counter(AtomicUsize);

impl Wake for Counter {
    fn wake(self: Arc<Self>) {
        self.0.fetch_add(1, Ordering::SeqCst);
    }
}

fn counter() -> (Arc<Counter>, Waker) {
    let counter = Arc::new(Counter(AtomicUsize::new(0)));
    (counter.clone(), Waker::from(counter))
}

fn send_waits<const CAP: usize>(channel: &mut ChannelInternal<u32, CAP>, data: u32) -> usize {
    match channel.send(data) {
        SendStep::Wait { signal } => signal,
        SendStep::Done { .. } => panic!("the send should wait"),
    }
}

fn recv_waits<const CAP: usize>(channel: &mut ChannelInternal<u32, CAP>) -> usize {
    match channel.recv() {
        RecvStep::Wait { signal } => signal,
        RecvStep::Done { .. } => panic!("the receive should wait"),
    }
}

fn received<const CAP: usize>(channel: &mut ChannelInternal<u32, CAP>) -> Option<u32> {
    match channel.recv() {
        RecvStep::Done { result, .. } => result.ok(),
        RecvStep::Wait { .. } => panic!("the receive should not wait"),
    }
}

#[test]
fn values_come_out_in_the_order_in_which_they_went_in() {
    let mut channel = ChannelInternal::<u32, 2>::new();
    assert!(channel.try_send(1).0.is_ok());
    assert!(channel.try_send(2).0.is_ok());
    assert_eq!(channel.try_send(3).0, Err(SendError(3)));
    let third = send_waits(&mut channel, 3);
    let fourth = send_waits(&mut channel, 4);
    assert_ne!(third, fourth);
    assert_eq!(channel.len(), 2);
    for i in 1..5 {
        assert_eq!(received(&mut channel), Some(i));
    }
    let (_, waker) = counter();
    assert!(matches!(channel.poll_send(third, waker.clone()).0, SignalPoll::Ready(Ok(()))));
    assert!(matches!(channel.poll_send(fourth, waker.clone()).0, SignalPoll::Ready(Ok(()))));
    assert_eq!(channel.try_recv().0, Err(ReceiveErrorTimeout::Timeout));
}

#[test]
fn a_waiting_sender_takes_the_room_that_comes_free() {
    let mut channel = ChannelInternal::<u32, 1>::new();
    assert!(channel.try_send(1).0.is_ok());
    let (count, waker) = counter();
    let signal = send_waits(&mut channel, 2);
    assert!(matches!(channel.poll_send(signal, waker.clone()).0, SignalPoll::Pending));
    let (value, wake) = channel.try_recv();
    assert_eq!(value, Ok(1));
    wake.unwrap().wake();
    assert_eq!(count.0.load(Ordering::SeqCst), 1);
    assert!(channel.is_full());
    assert!(matches!(channel.poll_send(signal, waker.clone()).0, SignalPoll::Ready(Ok(()))));
    assert_eq!(channel.signal_state(signal), None);
    assert_eq!(channel.try_recv().0, Ok(2));
}

#[test]
fn the_receiver_that_waits_longest_gets_the_value() {
    let mut channel = ChannelInternal::<u32, 4>::new();
    let (first_count, first_waker) = counter();
    let (second_count, second_waker) = counter();
    let first = recv_waits(&mut channel);
    let second = recv_waits(&mut channel);
    assert_eq!(channel.signal_state(first), Some(UNINITED));
    assert!(matches!(channel.poll_recv(first, first_waker.clone()).0, SignalPoll::Pending));
    assert_eq!(channel.signal_state(first), Some(PENDING));
    assert!(matches!(channel.poll_recv(second, second_waker.clone()).0, SignalPoll::Pending));
    let (sent, wake) = channel.try_send(9);
    assert!(sent.is_ok());
    wake.unwrap().wake();
    assert_eq!(first_count.0.load(Ordering::SeqCst), 1);
    assert_eq!(second_count.0.load(Ordering::SeqCst), 0);
    assert_eq!(channel.signal_state(first), Some(SIGNALLED));
    assert_eq!(channel.len(), 0);
    assert!(matches!(channel.poll_recv(first, first_waker.clone()).0, SignalPoll::Ready(Ok(9))));
    assert!(matches!(channel.poll_recv(second, second_waker.clone()).0, SignalPoll::Pending));
}

#[test]
fn receivers_that_wait_are_served_in_order() {
    let mut channel = ChannelInternal::<u32, 4>::new();
    let (_, waker) = counter();
    let signals = [recv_waits(&mut channel), recv_waits(&mut channel), recv_waits(&mut channel)];
    for value in 10..14 {
        assert!(channel.try_send(value).0.is_ok());
    }
    assert_eq!(channel.len(), 1);
    assert!(matches!(channel.poll_recv(signals[2], waker.clone()).0, SignalPoll::Ready(Ok(12))));
    assert!(matches!(channel.poll_recv(signals[0], waker.clone()).0, SignalPoll::Ready(Ok(10))));
    assert!(matches!(channel.poll_recv(signals[1], waker.clone()).0, SignalPoll::Ready(Ok(11))));
    assert_eq!(received(&mut channel), Some(13));
}

#[test]
fn a_task_that_moved_is_woken_where_it_polled_last() {
    let mut channel = ChannelInternal::<u32, 0>::new();
    let (old_count, old_waker) = counter();
    let (new_count, new_waker) = counter();
    let signal = recv_waits(&mut channel);
    assert!(matches!(channel.poll_recv(signal, old_waker.clone()).0, SignalPoll::Pending));
    assert!(matches!(channel.poll_recv(signal, old_waker.clone()).0, SignalPoll::Pending));
    assert!(matches!(channel.poll_recv(signal, new_waker.clone()).0, SignalPoll::Pending));
    match channel.send(5) {
        SendStep::Done { result, wake } => {
            assert!(result.is_ok());
            wake.unwrap().wake();
        }
        SendStep::Wait { .. } => panic!("a receiver waits"),
    }
    assert_eq!(old_count.0.load(Ordering::SeqCst), 0);
    assert_eq!(new_count.0.load(Ordering::SeqCst), 1);
}

#[test]
fn closing_releases_all_that_wait() {
    let mut channel = ChannelInternal::<u32, 0>::new();
    let (count, waker) = counter();
    let signals = [send_waits(&mut channel, 1), send_waits(&mut channel, 2)];
    for signal in signals {
        assert!(matches!(channel.poll_send(signal, waker.clone()).0, SignalPoll::Pending));
    }
    let (closed, wakers) = channel.close();
    assert_eq!(closed, Ok(()));
    assert_eq!(wakers.len(), 2);
    for waker in wakers {
        waker.wake();
    }
    assert_eq!(count.0.load(Ordering::SeqCst), 2);
    assert_eq!(channel.signal_state(signals[0]), Some(TERMINATED));
    assert!(matches!(
        channel.poll_send(signals[0], waker.clone()).0,
        SignalPoll::Ready(Err(SendError(1)))
    ));
    assert!(matches!(
        channel.poll_send(signals[1], waker.clone()).0,
        SignalPoll::Ready(Err(SendError(2)))
    ));
    assert!(channel.is_closed() && channel.is_terminated());
    let (closed, wakers) = channel.close();
    assert_eq!(closed, Err(CloseError()));
    assert_eq!(wakers.len(), 0);
    assert_eq!(received(&mut channel), None);
    assert_eq!(channel.try_recv().0, Err(ReceiveErrorTimeout::Closed));
    assert_eq!(channel.try_send(3).0, Err(SendError(3)));
}

#[test]
fn the_last_sender_leaves_the_buffer_behind() {
    let mut channel = ChannelInternal::<u32, 4>::new();
    assert!(channel.try_send(1).0.is_ok());
    assert!(channel.try_send(2).0.is_ok());
    let (last, wakers) = channel.dec_ref_count(true);
    assert!(!last);
    assert_eq!(wakers.len(), 0);
    assert_eq!((channel.sender_count(), channel.receiver_count()), (0, 1));
    assert!(!channel.is_terminated());
    assert_eq!(channel.try_recv().0, Ok(1));
    assert_eq!(received(&mut channel), Some(2));
    assert!(channel.is_terminated());
    assert_eq!(channel.try_recv().0, Err(ReceiveErrorTimeout::Closed));
    assert_eq!(received(&mut channel), None);
    assert!(channel.dec_ref_count(false).0);
}

#[test]
fn the_last_sender_releases_the_waiting_receivers() {
    let mut channel = ChannelInternal::<u32, 4>::new();
    let (_, waker) = counter();
    let signal = recv_waits(&mut channel);
    assert!(matches!(channel.poll_recv(signal, waker.clone()).0, SignalPoll::Pending));
    channel.inc_ref_count(true);
    assert_eq!(channel.dec_ref_count(true).1.len(), 0);
    assert_eq!(channel.dec_ref_count(true).1.len(), 1);
    assert!(matches!(
        channel.poll_recv(signal, waker.clone()).0,
        SignalPoll::Ready(Err(ReceiveError()))
    ));
}

#[test]
fn the_last_receiver_takes_the_values_with_it() {
    let mut channel = ChannelInternal::<u32, 1>::new();
    let (_, waker) = counter();
    assert!(channel.try_send(1).0.is_ok());
    let signal = send_waits(&mut channel, 2);
    let (last, wakers) = channel.dec_ref_count(false);
    assert!(!last);
    assert_eq!(wakers.len(), 0);
    assert!(channel.is_empty());
    assert!(matches!(
        channel.poll_send(signal, waker.clone()).0,
        SignalPoll::Ready(Err(SendError(2)))
    ));
    assert_eq!(channel.try_send(3).0, Err(SendError(3)));
    let mut values = vec![7];
    assert_eq!(channel.drain_into(&mut values).0, Err(ReceiveError()));
    assert_eq!(values, vec![7]);
}

#[test]
fn dropping_a_clone_changes_nothing() {
    let mut channel = ChannelInternal::<u32, 1>::new();
    channel.inc_ref_count(false);
    assert_eq!((channel.sender_count(), channel.receiver_count()), (1, 2));
    assert!(!channel.dec_ref_count(false).0);
    assert_eq!((channel.sender_count(), channel.receiver_count()), (1, 1));
    channel.close().0.unwrap();
    channel.inc_ref_count(true);
    assert_eq!((channel.sender_count(), channel.receiver_count()), (0, 0));
    assert!(!channel.dec_ref_count(true).0);
    assert!(!channel.dec_ref_count(true).0);
    assert!(channel.dec_ref_count(false).0);
}

#[test]
fn draining_takes_the_values_of_the_waiting_senders_too() {
    let mut channel = ChannelInternal::<u32, 2>::new();
    let (_, waker) = counter();
    assert!(channel.try_send(1).0.is_ok());
    assert!(channel.try_send(2).0.is_ok());
    let third = send_waits(&mut channel, 3);
    let fourth = send_waits(&mut channel, 4);
    assert!(matches!(channel.poll_send(fourth, waker.clone()).0, SignalPoll::Pending));
    let mut values = vec![0];
    let (count, wakers) = channel.drain_into(&mut values);
    assert_eq!(count, Ok(4));
    assert_eq!(wakers.len(), 1);
    assert_eq!(values, vec![0, 1, 2, 3, 4]);
    assert!(matches!(channel.poll_send(third, waker.clone()).0, SignalPoll::Ready(Ok(()))));
    assert!(matches!(channel.poll_send(fourth, waker.clone()).0, SignalPoll::Ready(Ok(()))));
    assert_eq!(channel.drain_into(&mut values).0, Ok(0));
}

#[test]
fn draining_leaves_the_waiting_receivers_alone() {
    let mut channel = ChannelInternal::<u32, 2>::new();
    let (_, waker) = counter();
    let signal = recv_waits(&mut channel);
    let mut values = Vec::new();
    let (count, wakers) = channel.drain_into(&mut values);
    assert_eq!((count, wakers.len()), (Ok(0), 0));
    assert!(channel.try_send(6).0.is_ok());
    assert!(matches!(channel.poll_recv(signal, waker.clone()).0, SignalPoll::Ready(Ok(6))));
}

#[test]
fn giving_up_leaves_the_others_in_their_order() {
    let mut channel = ChannelInternal::<u32, 0>::new();
    let signals =
        [send_waits(&mut channel, 1), send_waits(&mut channel, 2), send_waits(&mut channel, 3)];
    assert_eq!(channel.abandon_recv(signals[1]).0, Abandon::Finished);
    assert_eq!(channel.signal_state(signals[1]), Some(UNINITED));
    assert_eq!(channel.abandon_send(signals[1]).0, Abandon::Finished);
    assert_eq!(channel.signal_state(signals[1]), None);
    assert_eq!(channel.abandon_send(signals[1]).0, Abandon::Finished);
    assert_eq!(received(&mut channel), Some(1));
    assert_eq!(received(&mut channel), Some(3));
    assert_eq!(channel.try_recv().0, Err(ReceiveErrorTimeout::Timeout));
}

#[test]
fn a_receive_that_gives_up_too_late_loses_its_value() {
    let mut channel = ChannelInternal::<u32, 2>::new();
    let signal = recv_waits(&mut channel);
    assert!(channel.try_send(1).0.is_ok());
    assert_eq!(channel.abandon_recv(signal).0, Abandon::Finished);
    assert_eq!(channel.try_recv().0, Err(ReceiveErrorTimeout::Timeout));
}

#[test]
fn a_signal_in_flight_cannot_leave() {
    let mut channel = ChannelInternal::<u32, 2>::new();
    let (_, waker) = counter();
    let signal = recv_waits(&mut channel);
    let claimed = channel.next_recv().unwrap();
    assert!(claimed.eq_ptr(signal));
    assert!(!claimed.eq_ptr(signal + 1));
    assert!(channel.next_recv().is_none());
    assert_eq!(channel.abandon_recv(signal).0, Abandon::InFlight);
    assert_eq!(channel.finish_abandoned_recv(signal), (false, None));
    assert!(!channel.cancel_recv_signal(signal));
    assert!(matches!(channel.poll_recv(signal, waker.clone()).0, SignalPoll::Pending));
    assert_eq!(channel.signal_state(signal), Some(PENDING));
}

#[test]
fn next_send_and_next_recv_serve_one_side_each() {
    let mut channel = ChannelInternal::<u32, 0>::new();
    assert!(channel.next_recv().is_none());
    let signal = send_waits(&mut channel, 4);
    assert!(channel.next_recv().is_none());
    assert_eq!(channel.next_send().unwrap(), SignalTerimnator { inner: signal });
    assert!(channel.next_send().is_none());
}

#[test]
fn cancelling_takes_a_signal_off_the_wait_list() {
    let mut channel = ChannelInternal::<u32, 0>::new();
    let signal = send_waits(&mut channel, 4);
    assert!(!channel.cancel_recv_signal(signal));
    assert!(channel.cancel_send_signal(signal));
    assert_eq!(channel.signal_state(signal), Some(TERMINATED));
    assert!(!channel.cancel_send_signal(signal));
    assert_eq!(channel.try_recv().0, Err(ReceiveErrorTimeout::Timeout));
    let signal = recv_waits(&mut channel);
    assert!(!channel.cancel_send_signal(signal));
    assert!(channel.cancel_recv_signal(signal));
    assert_eq!(channel.try_send(5).0, Err(SendError(5)));
}

#[test]
fn a_signal_moves_its_value_once() {
    let (count, waker) = counter();
    let mut signal = Signal::new_send(8u32);
    assert_eq!(signal.result(), SignalResult::Uninited);
    assert!(matches!(signal.poll_send(waker.clone()).0, SignalPoll::Pending));
    assert_eq!(signal.result(), SignalResult::Pending);
    let (value, wake) = signal.read_data();
    assert_eq!(value, 8);
    wake.unwrap().wake();
    assert_eq!(count.0.load(Ordering::SeqCst), 1);
    assert_eq!(signal.result(), SignalResult::Success);
    assert!(matches!(signal.poll_send(waker.clone()).0, SignalPoll::Ready(Ok(()))));

    let mut signal = Signal::<u32>::new_recv();
    assert!(matches!(signal.poll_recv(waker.clone()).0, SignalPoll::Pending));
    assert!(signal.write_data(3).is_some());
    assert!(matches!(signal.poll_recv(waker.clone()).0, SignalPoll::Ready(Ok(3))));

    let mut signal = Signal::new_send(1u32);
    assert!(signal.terminate().is_none());
    assert_eq!(signal.result(), SignalResult::Failure);
    assert!(matches!(signal.poll_send(waker.clone()).0, SignalPoll::Ready(Err(SendError(1)))));

    let mut signal = Signal::<u32>::new_recv();
    assert!(matches!(signal.poll_recv(waker.clone()).0, SignalPoll::Pending));
    signal.cancel();
    assert_eq!(count.0.load(Ordering::SeqCst), 1);
    assert!(matches!(signal.poll_recv(waker.clone()).0, SignalPoll::Ready(Err(ReceiveError()))));
}

#[test]
fn a_signal_whose_waker_was_taken_is_claimed() {
    let (_, waker) = counter();
    let mut signal = Signal::<u32>::new_recv();
    assert!(signal.waker.take().is_none());
    assert!(matches!(signal.poll_recv(waker.clone()).0, SignalPoll::Claimed));
    let mut signal = Signal::new_send(2u32);
    assert!(matches!(signal.poll_send(waker.clone()).0, SignalPoll::Pending));
    assert!(signal.waker.take().is_some());
    assert!(matches!(signal.poll_send(waker.clone()).0, SignalPoll::Claimed));
}

#[test]
fn sends_and_receives_in_any_order_lose_nothing() {
    let mut channel = ChannelInternal::<u32, 2>::new();
    let (_, waker) = counter();
    let mut out = Vec::new();
    let early = recv_waits(&mut channel);
    assert!(channel.try_send(1).0.is_ok());
    out.push(1);
    assert!(channel.try_send(2).0.is_ok());
    assert!(channel.try_send(3).0.is_ok());
    let late = send_waits(&mut channel, 4);
    assert!(matches!(channel.poll_send(late, waker.clone()).0, SignalPoll::Pending));
    out.push(received(&mut channel).unwrap());
    assert!(matches!(channel.poll_send(late, waker.clone()).0, SignalPoll::Ready(Ok(()))));
    assert_eq!(channel.try_send(5).0, Err(SendError(5)));
    let later = send_waits(&mut channel, 6);
    out.push(channel.try_recv().0.unwrap());
    assert!(matches!(channel.poll_recv(early, waker.clone()).0, SignalPoll::Ready(Ok(1))));
    assert_eq!(channel.drain_into(&mut out).0, Ok(2));
    assert!(matches!(channel.poll_send(later, waker.clone()).0, SignalPoll::Ready(Ok(()))));
    assert_eq!(out, vec![1, 2, 3, 4, 6]);
}

#[test]
fn a_waiting_sender_gets_its_own_value_back() {
    let mut channel = ChannelInternal::<u32, 1>::new();
    let (_, waker) = counter();
    assert!(channel.try_send(1).0.is_ok());
    let signals =
        [send_waits(&mut channel, 2), send_waits(&mut channel, 3), send_waits(&mut channel, 4)];
    assert_eq!(received(&mut channel), Some(1));
    assert_eq!(channel.abandon_send(signals[1]).1.unwrap().data, Some(3));
    channel.inc_ref_count(true);
    let other = send_waits(&mut channel, 5);
    channel.close().0.unwrap();
    assert!(matches!(channel.poll_send(signals[0], waker.clone()).0, SignalPoll::Ready(Ok(()))));
    assert!(matches!(
        channel.poll_send(other, waker.clone()).0,
        SignalPoll::Ready(Err(SendError(5)))
    ));
    assert!(matches!(
        channel.poll_send(signals[2], waker.clone()).0,
        SignalPoll::Ready(Err(SendError(4)))
    ));
}

#[test]
fn a_delivered_value_waits_for_its_receiver() {
    let mut channel = ChannelInternal::<u32, 1>::new();
    let (_, waker) = counter();
    let signal = recv_waits(&mut channel);
    assert!(channel.try_send(1).0.is_ok());
    assert!(channel.try_send(2).0.is_ok());
    assert_eq!(received(&mut channel), Some(2));
    channel.close().0.unwrap();
    assert!(matches!(channel.poll_recv(signal, waker.clone()).0, SignalPoll::Ready(Ok(1))));
}

#[test]
fn what_leaves_with_a_signal_comes_back() {
    let mut channel = ChannelInternal::<u32, 0>::new();
    let (_, waker) = counter();
    let (_, other) = counter();
    let signal = recv_waits(&mut channel);
    assert!(channel.poll_recv(signal, waker.clone()).1.is_none());
    assert!(channel.poll_recv(signal, other.clone()).1.unwrap().will_wake(&waker));
    assert!(channel.poll_recv(signal + 1, waker.clone()).1.unwrap().will_wake(&waker));
    assert!(channel.try_send(9).0.is_ok());
    assert_eq!(channel.finish_abandoned_recv(signal), (true, Some(9)));
    let signal = recv_waits(&mut channel);
    assert!(channel.abandon_send(signal).1.is_none());
    assert_eq!(channel.abandon_recv(signal).1.unwrap().state, UNINITED);
}

#[test]
fn a_waker_is_handed_out_once() {
    let (first_count, first) = counter();
    let (second_count, second) = counter();
    let mut slot = OnceWaker::new();
    assert!(slot.update(first.clone()).0);
    assert!(slot.update(first.clone()).0);
    assert!(slot.update(second.clone()).0);
    slot.take().unwrap().wake();
    assert_eq!(first_count.0.load(Ordering::SeqCst), 0);
    assert_eq!(second_count.0.load(Ordering::SeqCst), 1);
    assert!(slot.take().is_none());
    assert!(!slot.update(first.clone()).0);
    assert!(slot.take().is_none());
}

#[test]
fn the_numbers_of_signals_are_used_again() {
    let mut table = SignalTable::new();
    let first = table.insert(Signal::new_send(1u32));
    let second = table.insert(Signal::new_send(2u32));
    assert_ne!(first, second);
    assert!(table.contains(first) && table.contains(second));
    assert_eq!(table.remove(first).data, Some(1));
    assert!(!table.contains(first) && !table.contains(second + 1));
    let third = table.insert(Signal::new_send(3u32));
    assert_eq!(third, first);
    assert_eq!(table.get(third).data, Some(3));
    assert_eq!(table.get(second).data, Some(2));
    let name = SignalTerimnator { inner: second };
    assert_eq!(name.recv(&mut table).0, 2);
    assert_eq!(table.get(second).state, SIGNALLED);
    let name = SignalTerimnator { inner: third };
    assert!(name.terminate(&mut table).is_none());
    assert_eq!(table.get(third).state, TERMINATED);
    let fourth = table.insert(Signal::new_recv());
    let name = SignalTerimnator { inner: fourth };
    assert!(name.send(&mut table, 4).is_none());
    assert_eq!(table.get(fourth).data, Some(4));
    let fifth = table.insert(Signal::new_recv());
    SignalTerimnator { inner: fifth }.cancel(&mut table);
    assert_eq!(table.get(fifth).state, TERMINATED);
}
