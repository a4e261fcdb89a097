//! The behaviour of a channel as its handles show it.
use std::sync::Arc;
use std::task::{Wake, Waker};
use tokio::runtime::{Builder, Runtime};
use way::locked::{self, Receiving, Sending};
use way::signal::SignalPoll;
use way::{
    bounded, bounded_sync, zero, zero_sync, CloseError, ReceiveError, ReceiveErrorTimeout,
    SendError,
};

fn threads() -> Runtime {
    Builder::new_multi_thread().worker_threads(1).build().unwrap()
}

struct Quiet;

impl Wake for Quiet {
    fn wake(self: Arc<Self>) {}
}

fn quiet() -> Waker {
    Waker::from(Arc::new(Quiet))
}

#[test]
fn test_basic_send_recv() {
    let (tx, rx) = bounded_sync::<i32, 10>();
    tx.send(42).unwrap();
    assert_eq!(rx.recv().unwrap(), 42);
}

#[test]
fn test_multiple_sends() {
    let (tx, rx) = bounded_sync::<i32, 10>();
    for i in 0..5 {
        tx.send(i).unwrap();
    }
    for i in 0..5 {
        assert_eq!(rx.recv().unwrap(), i);
    }
}

#[test]
fn test_send_after_disconnect() {
    let (tx, rx) = bounded_sync::<i32, 10>();
    rx.release();
    assert!(tx.send(42).is_err());
}

#[test]
fn test_recv_after_disconnect() {
    let (tx, rx) = bounded_sync::<i32, 10>();
    tx.release();
    assert!(rx.recv().is_err());
}

#[test]
fn test_clone_sender() {
    let (tx, rx) = bounded_sync::<i32, 10>();
    let tx2 = tx.try_clone().unwrap();
    tx.send(1).unwrap();
    tx2.send(2).unwrap();
    assert_eq!(rx.recv().unwrap(), 1);
    assert_eq!(rx.recv().unwrap(), 2);
}

#[test]
fn test_clone_receiver() {
    let (tx, rx) = bounded_sync::<i32, 10>();
    let rx2 = rx.try_clone().unwrap();
    tx.send(1).unwrap();
    tx.send(2).unwrap();
    assert_eq!(rx.recv().unwrap(), 1);
    assert_eq!(rx2.recv().unwrap(), 2);
}

#[test]
fn test_capacity_limit() {
    let (tx, rx) = bounded_sync::<i32, 3>();
    tx.send(1).unwrap();
    tx.send(2).unwrap();
    tx.send(3).unwrap();
    let runtime = threads();
    let receiver = runtime.spawn_blocking(move || {
        assert_eq!(rx.recv().unwrap(), 1);
    });
    tx.send(4).unwrap();
    runtime.block_on(receiver).unwrap();
    assert_eq!(tx.len(), 3);
}

#[test]
fn test_try_send_success() {
    let (tx, rx) = bounded_sync::<i32, 10>();
    assert!(tx.try_send(42).is_ok());
    assert_eq!(rx.recv().unwrap(), 42);
}

#[test]
fn test_try_send_full() {
    let (tx, _rx) = bounded_sync::<i32, 2>();
    tx.try_send(1).unwrap();
    tx.try_send(2).unwrap();
    assert!(tx.try_send(3).is_err());
    assert_eq!(tx.try_send(3), Err(SendError(3)));
}

#[test]
fn test_try_recv_empty() {
    let (_tx, rx) = bounded_sync::<i32, 10>();
    assert_eq!(rx.try_recv(), Err(ReceiveErrorTimeout::Timeout));
}

#[test]
fn test_try_recv_with_data() {
    let (tx, rx) = bounded_sync::<i32, 10>();
    tx.send(42).unwrap();
    assert_eq!(rx.try_recv().unwrap(), 42);
}

#[test]
fn test_try_send_realtime() {
    let (tx, rx) = bounded::<i32, 10>();
    assert!(tx.try_send_realtime(42).is_ok());
    assert_eq!(rx.to_sync().recv().unwrap(), 42);
}

#[test]
fn test_try_recv_realtime() {
    let (tx, rx) = bounded::<i32, 10>();
    tx.to_sync().send(42).unwrap();
    assert_eq!(rx.try_recv_realtime().unwrap(), 42);
}

#[test]
fn realtime_fails_while_the_lock_is_held() {
    let (tx, rx) = bounded::<i32, 10>();
    tx.try_send_realtime(1).unwrap();
    let guard = tx.internal().lock_sync();
    assert_eq!(tx.try_send_realtime(2), Err(SendError(2)));
    assert_eq!(rx.try_recv_realtime(), Err(ReceiveErrorTimeout::Timeout));
    drop(guard);
    tx.try_send_realtime(2).unwrap();
    assert_eq!(rx.try_recv_realtime(), Ok(1));
    assert_eq!(rx.try_recv_realtime(), Ok(2));
    assert_eq!(rx.try_recv_realtime(), Err(ReceiveErrorTimeout::Timeout));
}

#[test]
fn test_drain_into() {
    let (tx, rx) = bounded::<i32, 10>();
    let sender = tx.as_sync();
    for i in 0..5 {
        sender.send(i).unwrap();
    }
    let mut vec = Vec::new();
    let count = locked::drain_into(rx.internal().lock_sync(), &mut vec).unwrap();
    assert_eq!(count, 5);
    assert_eq!(vec, vec![0, 1, 2, 3, 4]);
    assert_eq!(locked::drain_into(rx.internal().lock_sync(), &mut vec), Ok(0));
    rx.as_sync().close().unwrap();
    assert_eq!(
        locked::drain_into(rx.internal().lock_sync(), &mut vec),
        Err(ReceiveError())
    );
    assert_eq!(vec, vec![0, 1, 2, 3, 4]);
}

#[test]
fn test_is_disconnected_sender() {
    let (tx, rx) = bounded_sync::<i32, 10>();
    assert!(!tx.is_disconnected());
    rx.release();
    assert!(tx.is_disconnected());
}

#[test]
fn test_is_disconnected_receiver() {
    let (tx, rx) = bounded_sync::<i32, 10>();
    assert!(!rx.is_disconnected());
    tx.release();
    assert!(rx.is_disconnected());
}

#[test]
fn test_is_terminated() {
    let (tx, rx) = bounded::<i32, 10>();
    let receiver = rx.as_sync();
    tx.try_send_realtime(1).unwrap();
    assert!(!locked::is_terminated(rx.internal().lock_sync()));
    tx.release();
    assert!(!locked::is_terminated(rx.internal().lock_sync()));
    receiver.recv().unwrap();
    assert!(locked::is_terminated(rx.internal().lock_sync()));
}

#[test]
fn test_zero_capacity() {
    let (tx, rx) = zero_sync::<i32>();
    let tx_clone = tx.try_clone().unwrap();
    let runtime = threads();
    let handle = runtime.spawn_blocking(move || {
        tx_clone.send(42).unwrap();
    });
    assert_eq!(rx.recv().unwrap(), 42);
    runtime.block_on(handle).unwrap();
}

#[test]
fn test_concurrent_sends() {
    let (tx, rx) = bounded_sync::<i32, 100>();
    let runtime = threads();
    let mut handles = vec![];
    for i in 0..10 {
        let tx_clone = tx.try_clone().unwrap();
        handles.push(runtime.spawn_blocking(move || {
            tx_clone.send(i).unwrap();
            tx_clone.release();
        }));
    }
    for handle in handles {
        runtime.block_on(handle).unwrap();
    }
    tx.release();
    let mut results = vec![];
    while let Ok(v) = rx.recv() {
        results.push(v);
    }
    results.sort();
    assert_eq!(results, (0..10).collect::<Vec<_>>());
}

#[test]
fn test_concurrent_recvs() {
    let (tx, rx) = bounded_sync::<i32, 100>();
    for i in 0..10 {
        tx.send(i).unwrap();
    }
    tx.release();
    let runtime = threads();
    let mut handles = vec![];
    for _ in 0..10 {
        let rx_clone = rx.try_clone().unwrap();
        handles.push(runtime.spawn_blocking(move || rx_clone.recv().ok()));
    }
    let mut results = vec![];
    for handle in handles {
        if let Some(v) = runtime.block_on(handle).unwrap() {
            results.push(v);
        }
    }
    results.sort();
    assert_eq!(results, (0..10).collect::<Vec<_>>());
}

#[test]
fn lengths_and_counts() {
    let (s, r) = bounded_sync::<u64, 8>();
    assert_eq!((s.len(), r.len()), (0, 0));
    assert!(s.is_empty() && r.is_empty());
    s.send(10).unwrap();
    assert_eq!((s.len(), r.len()), (1, 1));
    assert!(!s.is_empty() && !s.is_full());
    assert_eq!((s.capacity(), r.capacity()), (8, 8));
    for i in 0..7 {
        s.send(i).unwrap();
    }
    assert!(s.is_full() && r.is_full());
    let other = r.try_clone().unwrap();
    assert_eq!((r.receiver_count(), s.sender_count()), (2, 1));
    let sender = s.try_clone().unwrap();
    assert_eq!((r.receiver_count(), r.sender_count()), (2, 2));
    assert!(!other.release());
    assert!(!sender.release());
    assert_eq!((s.receiver_count(), s.sender_count()), (1, 1));
    assert!(!s.release());
    assert!(r.release());
}

#[test]
fn a_channel_without_a_buffer_is_always_full() {
    let (s, r) = zero::<u64>();
    assert_eq!((s.capacity(), r.capacity()), (0, 0));
    let (s, r) = (s.to_sync(), r.to_sync());
    assert!(s.is_full() && r.is_full());
    assert!(s.is_empty() && r.is_empty());
    assert_eq!(s.try_send(1), Err(SendError(1)));
    assert_eq!(r.try_recv(), Err(ReceiveErrorTimeout::Timeout));
}

#[test]
fn a_channel_is_closed_once() {
    let (s, r) = bounded_sync::<u64, 8>();
    s.send(1).unwrap();
    assert!(!s.is_closed());
    assert_eq!(s.close(), Ok(()));
    assert!(r.is_closed() && s.is_closed());
    assert_eq!(r.close(), Err(CloseError()));
    assert_eq!(s.close(), Err(CloseError()));
    assert_eq!((r.receiver_count(), r.sender_count(), r.len()), (0, 0, 0));
    assert_eq!(s.try_send(2), Err(SendError(2)));
    assert_eq!(s.send(2), Err(SendError(2)));
    assert_eq!(r.try_recv(), Err(ReceiveErrorTimeout::Closed));
    assert_eq!(r.recv(), Err(ReceiveError()));
    // a clone of a handle does not open the channel again
    let clone = s.try_clone().unwrap();
    assert!(clone.is_closed());
    assert!(!clone.release());
    assert!(!s.release());
    assert!(r.release());
}

#[test]
fn the_handles_of_one_channel_turn_into_each_other() {
    let (s, r) = bounded_sync::<u64, 2>();
    s.send(1).unwrap();
    let s = s.to_async();
    assert_eq!(s.try_send_realtime(2), Ok(()));
    let r = r.to_async();
    assert_eq!(r.try_recv_realtime(), Ok(1));
    let (s, r) = (s.to_sync(), r.to_sync());
    assert_eq!(r.recv(), Ok(2));
    assert_eq!((s.sender_count(), r.receiver_count()), (1, 1));
    assert_eq!(s.as_async().try_send_realtime(3), Ok(()));
    assert_eq!(r.as_async().as_sync().recv(), Ok(3));
    assert_eq!((s.sender_count(), r.receiver_count()), (1, 1));
}

#[test]
fn a_waiting_receive_is_polled_and_blocked_on() {
    let (s, r) = bounded::<u64, 2>();
    let mut first = match locked::recv(r.internal(), r.internal().lock_sync()) {
        Receiving::Wait(signal) => signal,
        Receiving::Done(_) => panic!("nothing was sent"),
    };
    let mut second = match locked::recv(r.internal(), r.internal().lock_sync()) {
        Receiving::Wait(signal) => signal,
        Receiving::Done(_) => panic!("nothing was sent"),
    };
    let waker = quiet();
    assert!(matches!(first.poll(&waker), SignalPoll::Pending));
    s.try_send_realtime(7).unwrap();
    s.try_send_realtime(8).unwrap();
    assert!(matches!(second.poll(&waker), SignalPoll::Ready(Ok(8))));
    assert!(matches!(second.poll(&waker), SignalPoll::Pending));
    assert_eq!(first.wait(), Ok(7));
    assert_eq!(r.try_recv_realtime(), Err(ReceiveErrorTimeout::Timeout));
}

#[test]
fn a_waiting_send_is_polled_and_blocked_on() {
    let (s, r) = bounded::<u64, 1>();
    s.try_send_realtime(1).unwrap();
    let mut waiting = Vec::new();
    for i in 2..5 {
        match locked::send(s.internal(), s.internal().lock_sync(), i) {
            Sending::Wait(signal) => waiting.push(signal),
            Sending::Done(_) => panic!("there is no room"),
        }
    }
    let waker = quiet();
    assert!(matches!(waiting[0].poll(&waker), SignalPoll::Pending));
    assert_eq!(r.try_recv_realtime(), Ok(1));
    assert_eq!(waiting.remove(0).wait(), Ok(()));
    assert!(matches!(waiting[0].poll(&waker), SignalPoll::Pending));
    assert_eq!(r.try_recv_realtime(), Ok(2));
    assert!(matches!(waiting[0].poll(&waker), SignalPoll::Ready(Ok(()))));
    r.as_sync().close().unwrap();
    assert_eq!(waiting.remove(1).wait(), Err(SendError(4)));
}

#[test]
fn an_abandoned_send_takes_its_value_with_it() {
    let (s, r) = zero::<Arc<u64>>();
    let value = Arc::new(5);
    let mut signal = match locked::send(s.internal(), s.internal().lock_sync(), value.clone()) {
        Sending::Wait(signal) => signal,
        Sending::Done(_) => panic!("nobody waits"),
    };
    assert_eq!(Arc::strong_count(&value), 2);
    signal.abandon();
    assert_eq!(Arc::strong_count(&value), 1);
    assert_eq!(r.try_recv_realtime(), Err(ReceiveErrorTimeout::Timeout));
    assert!(matches!(signal.poll(&quiet()), SignalPoll::Pending));
}

#[test]
fn an_abandoned_receive_leaves_its_place_to_the_next() {
    let (s, r) = bounded::<u64, 1>();
    let mut waiting = Vec::new();
    for _ in 0..3 {
        match locked::recv(r.internal(), r.internal().lock_sync()) {
            Receiving::Wait(signal) => waiting.push(signal),
            Receiving::Done(_) => panic!("nothing was sent"),
        }
    }
    waiting[1].abandon();
    for i in 0..3 {
        s.try_send_realtime(i).unwrap();
    }
    assert_eq!(waiting.remove(0).wait(), Ok(0));
    assert_eq!(waiting.remove(1).wait(), Ok(1));
    assert_eq!(r.try_recv_realtime(), Ok(2));
}

#[test]
fn a_receive_abandoned_too_late_forgets_its_value() {
    let (s, r) = bounded::<Arc<u64>, 1>();
    let mut signal = match locked::recv(r.internal(), r.internal().lock_sync()) {
        Receiving::Wait(signal) => signal,
        Receiving::Done(_) => panic!("nothing was sent"),
    };
    let value = Arc::new(6);
    s.try_send_realtime(value.clone()).unwrap();
    signal.abandon();
    assert_eq!(Arc::strong_count(&value), 2);
    assert_eq!(r.try_recv_realtime(), Err(ReceiveErrorTimeout::Timeout));
}

#[test]
fn recv_abort_test() {
    let (_s, r) = bounded::<u64, 10>();
    let mut list = Vec::new();
    for _ in 0..10 {
        match locked::recv(r.internal(), r.internal().lock_sync()) {
            Receiving::Wait(signal) => list.push(signal),
            Receiving::Done(_) => panic!("should not be ok"),
        }
    }
    let waker = quiet();
    for signal in &mut list {
        assert!(matches!(signal.poll(&waker), SignalPoll::Pending));
    }
    for mut signal in list {
        signal.abandon();
    }
    r.as_sync().close().unwrap();
}

#[test]
fn send_abort_test() {
    let (s, r) = zero();
    let counter = Arc::new(1234);
    let mut list = Vec::new();
    for _ in 0..10 {
        match locked::send(s.internal(), s.internal().lock_sync(), counter.clone()) {
            Sending::Wait(signal) => list.push(signal),
            Sending::Done(_) => panic!("should not be ok"),
        }
    }
    let waker = quiet();
    for signal in &mut list {
        assert!(matches!(signal.poll(&waker), SignalPoll::Pending));
    }
    assert_eq!(Arc::strong_count(&counter), 11);
    for mut signal in list {
        signal.abandon();
    }
    assert_eq!(Arc::strong_count(&counter), 1);
    r.as_sync().close().unwrap();
}

#[test]
fn a_send_that_is_over_leaves_later_ones_alone() {
    let (s, r) = zero::<u64>();
    let start = |value: u64| match locked::send(s.internal(), s.internal().lock_sync(), value) {
        Sending::Wait(signal) => signal,
        Sending::Done(_) => panic!("nobody waits"),
    };
    let waker = quiet();
    let mut first = start(1);
    assert_eq!(r.try_recv_realtime(), Ok(1));
    assert!(matches!(first.poll(&waker), SignalPoll::Ready(Ok(()))));
    let mut second = start(2);
    second.abandon();
    // the third send waits with the number that the others had
    let third = start(3);
    assert_eq!(r.try_recv_realtime(), Ok(3));
    assert!(matches!(first.poll(&waker), SignalPoll::Pending));
    assert!(matches!(second.poll(&waker), SignalPoll::Pending));
    first.abandon();
    second.abandon();
    assert_eq!(third.wait(), Ok(()));
}

#[test]
fn a_receive_that_is_over_leaves_later_ones_alone() {
    let (s, r) = bounded::<u64, 1>();
    let start = || match locked::recv(r.internal(), r.internal().lock_sync()) {
        Receiving::Wait(signal) => signal,
        Receiving::Done(_) => panic!("nothing was sent"),
    };
    let waker = quiet();
    let mut first = start();
    s.try_send_realtime(1).unwrap();
    assert!(matches!(first.poll(&waker), SignalPoll::Ready(Ok(1))));
    let second = start();
    s.try_send_realtime(2).unwrap();
    first.abandon();
    assert!(matches!(first.poll(&waker), SignalPoll::Pending));
    assert_eq!(second.wait(), Ok(2));
}

#[test]
fn a_signal_is_polled_under_a_lock_that_is_held() {
    let (s, r) = zero::<u64>();
    let mut receive = match locked::recv(r.internal(), r.internal().lock_sync()) {
        Receiving::Wait(signal) => signal,
        Receiving::Done(_) => panic!("nothing was sent"),
    };
    let guard = r.internal().lock_sync();
    assert!(matches!(receive.poll_locked(guard, quiet()), SignalPoll::Pending));
    s.try_send_realtime(4).unwrap();
    let guard = r.internal().lock_sync();
    assert!(matches!(receive.poll_locked(guard, quiet()), SignalPoll::Ready(Ok(4))));
    let guard = r.internal().lock_sync();
    assert!(matches!(receive.poll_locked(guard, quiet()), SignalPoll::Pending));

    let mut send = match locked::send(s.internal(), s.internal().lock_sync(), 5) {
        Sending::Wait(signal) => signal,
        Sending::Done(_) => panic!("nobody waits"),
    };
    let guard = s.internal().lock_sync();
    assert!(matches!(send.poll_locked(guard, quiet()), SignalPoll::Pending));
    r.as_sync().close().unwrap();
    let guard = s.internal().lock_sync();
    assert!(matches!(send.poll_locked(guard, quiet()), SignalPoll::Ready(Err(SendError(5)))));
    assert!(s.internal().try_lock().is_some());
}

/// Uses its channel when it is dropped.
struct Nested {
    channel: Option<way::Sender<Nested, 0>>,
}

impl Drop for Nested {
    fn drop(&mut self) {
        if let Some(channel) = self.channel.take() {
            assert!(channel.as_sync().try_send(Nested { channel: None }).is_err());
            channel.release();
        }
    }
}

#[test]
fn a_value_is_dropped_when_the_channel_is_unlocked() {
    let (s, r) = zero::<Nested>();
    let value = Nested { channel: s.try_clone() };
    let mut signal = match locked::send(s.internal(), s.internal().lock_sync(), value) {
        Sending::Wait(signal) => signal,
        Sending::Done(_) => panic!("nobody waits"),
    };
    assert_eq!(r.as_sync().sender_count(), 2);
    signal.abandon();
    assert_eq!(r.as_sync().sender_count(), 1);
}

/// Uses the channel when the last of its wakers is dropped.
struct Executor(way::Receiver<u64, 1>);

impl Wake for Executor {
    fn wake(self: Arc<Self>) {}
}

impl Drop for Executor {
    fn drop(&mut self) {
        assert_eq!(self.0.as_sync().try_recv(), Err(ReceiveErrorTimeout::Timeout));
    }
}

#[test]
fn a_waker_is_dropped_when_the_channel_is_unlocked() {
    let (_s, r) = bounded::<u64, 1>();
    let mut signal = match locked::recv(r.internal(), r.internal().lock_sync()) {
        Receiving::Wait(signal) => signal,
        Receiving::Done(_) => panic!("nothing was sent"),
    };
    let waker = Waker::from(Arc::new(Executor(r.try_clone().unwrap())));
    assert!(matches!(signal.poll(&waker), SignalPoll::Pending));
    drop(waker);
    assert!(matches!(signal.poll(&quiet()), SignalPoll::Pending));
    let waker = Waker::from(Arc::new(Executor(r.try_clone().unwrap())));
    assert!(matches!(signal.poll(&waker), SignalPoll::Pending));
    drop(waker);
    signal.abandon();
}
