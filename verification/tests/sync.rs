//! The handles for threads that block, with senders and receivers on threads of
//! their own.
use std::fmt::Debug;
use std::sync::atomic::{AtomicUsize, Ordering};
use std::sync::Arc;
use tokio::runtime::{Builder, Runtime};
use tokio::task::JoinHandle;
use way::{bounded_sync, zero_sync, ReceiveError, SendError, SyncReceiver, SyncSender};

const THREADS: usize = 8;
const MESSAGES: usize = 8_000;

/// Runs closures on threads of their own.
struct Threads {
    runtime: Runtime,
    handles: Vec<JoinHandle<()>>,
}

impl Threads {
    fn new() -> Threads {
        Threads {
            runtime: Builder::new_multi_thread().worker_threads(1).build().unwrap(),
            handles: Vec::new(),
        }
    }

    fn spawn<F: FnOnce() + Send + 'static>(&mut self, f: F) {
        self.handles.push(self.runtime.spawn_blocking(f));
    }

    fn join(self) {
        for handle in self.handles {
            self.runtime.block_on(handle).unwrap();
        }
    }
}

#[derive(PartialEq, Eq, Debug, Clone, Copy)]
struct Padded {
    a: bool,
    b: u8,
    c: u32,
}

#[derive(PartialEq, Eq, Debug, Clone, Copy)]
struct PaddedReprC {
    a: bool,
    b: u8,
    c: u32,
}

/// Counts its drops.
struct DropTester {
    counter: Arc<AtomicUsize>,
    mark: usize,
}

impl DropTester {
    fn new(counter: Arc<AtomicUsize>, mark: usize) -> DropTester {
        DropTester { counter, mark }
    }
}

impl Drop for DropTester {
    fn drop(&mut self) {
        assert!(self.mark == 10 || self.mark == 1234);
        self.counter.fetch_add(1, Ordering::SeqCst);
    }
}

fn integrity_of<T, const CAP: usize>(
    (tx, rx): (SyncSender<T, CAP>, SyncReceiver<T, CAP>),
    zero: T,
    ones: T,
) where
    T: PartialEq + Debug + Clone + Send + 'static,
{
    let mut threads = Threads::new();
    let (z, o) = (zero.clone(), ones.clone());
    threads.spawn(move || {
        for _ in 0..MESSAGES {
            tx.send(z.clone()).unwrap();
            tx.send(o.clone()).unwrap();
        }
        tx.release();
    });
    for _ in 0..MESSAGES {
        assert_eq!(rx.recv().unwrap(), zero);
        assert_eq!(rx.recv().unwrap(), ones);
    }
    threads.join();
    assert_eq!(rx.recv(), Err(ReceiveError()));
}

fn integrity_test<T>(zero: T, ones: T)
where
    T: PartialEq + Debug + Clone + Send + 'static,
{
    integrity_of(zero_sync::<T>(), zero.clone(), ones.clone());
    integrity_of(bounded_sync::<T, 1>(), zero.clone(), ones.clone());
    integrity_of(zero_sync::<T>(), zero, ones);
}

fn mpmc_of<T, F, const CAP: usize>(make: F)
where
    T: Send + 'static,
    F: Fn() -> T + Clone + Send + 'static,
{
    let (tx, rx) = bounded_sync::<T, CAP>();
    let mut threads = Threads::new();
    for _ in 0..THREADS {
        let tx = tx.try_clone().unwrap();
        let make = make.clone();
        threads.spawn(move || {
            for _i in 0..MESSAGES / THREADS {
                assert!(tx.send(make()).is_ok());
            }
            tx.release();
        });
    }
    for _ in 0..THREADS {
        let rx = rx.try_clone().unwrap();
        threads.spawn(move || {
            for _i in 0..MESSAGES / THREADS {
                assert!(rx.recv().is_ok());
            }
            rx.release();
        });
    }
    threads.join();
    assert_eq!(tx.sender_count(), 1);
    assert_eq!(rx.receiver_count(), 1);
    assert!(rx.is_empty());
}

fn mpsc<const CAP: usize>() {
    let (tx, rx) = bounded_sync::<Box<u8>, CAP>();
    let mut threads = Threads::new();
    for _ in 0..THREADS {
        let tx = tx.try_clone().unwrap();
        threads.spawn(move || {
            for _i in 0..MESSAGES / THREADS {
                tx.send(Box::new(1)).unwrap();
            }
            tx.release();
        });
    }
    for _ in 0..MESSAGES {
        assert_eq!(rx.recv().unwrap(), Box::new(1));
    }
    threads.join();
}

fn seq<const CAP: usize>() {
    let (tx, rx) = bounded_sync::<Box<u8>, CAP>();
    for _i in 0..MESSAGES {
        tx.send(Box::new(1)).unwrap();
    }
    for _ in 0..MESSAGES {
        assert_eq!(rx.recv().unwrap(), Box::new(1));
    }
}

fn spsc<const CAP: usize>() {
    let (tx, rx) = bounded_sync::<Box<u8>, CAP>();
    let mut threads = Threads::new();
    threads.spawn(move || {
        for _i in 0..MESSAGES {
            tx.send(Box::new(1)).unwrap();
        }
    });
    for _ in 0..MESSAGES {
        assert_eq!(rx.recv().unwrap(), Box::new(1));
    }
    threads.join();
}

#[test]
fn sync_integrity_u8() {
    integrity_test(0u8, !0u8);
}

#[test]
fn sync_integrity_u16() {
    integrity_test(0u16, !0u16);
}

#[test]
fn sync_integrity_u32() {
    integrity_test(0u32, !0u32);
}

#[test]
fn sync_integrity_usize() {
    integrity_test(0u64, !0u64);
}

#[test]
fn sync_integrity_big() {
    integrity_test((0u64, 0u64, 0u64, 0u64), (!0u64, !0u64, !0u64, !0u64));
}

#[test]
fn sync_integrity_string() {
    integrity_test("", "not empty");
}

#[test]
fn sync_integrity_padded_rust() {
    integrity_test(
        Padded { a: false, b: 0x0, c: 0x0 },
        Padded { a: true, b: 0xFF, c: 0xFFFFFFFF },
    );
}

#[test]
fn sync_integrity_padded_c() {
    integrity_test(
        PaddedReprC { a: false, b: 0x0, c: 0x0 },
        PaddedReprC { a: true, b: 0xFF, c: 0xFFFFFFFF },
    );
}

#[test]
fn sync_drop_test() {
    let counter = Arc::new(AtomicUsize::new(0));
    let made = counter.clone();
    mpmc_of::<DropTester, _, 1>(move || DropTester::new(made.clone(), 10));
    assert_eq!(counter.load(Ordering::SeqCst), MESSAGES);
}

#[test]
fn sync_drop_test_in_signal() {
    let (s, r) = bounded_sync::<_, 10>();
    let counter = Arc::new(AtomicUsize::new(0));
    let mut threads = Threads::new();
    for _ in 0..10 {
        let counter = counter.clone();
        let s = s.try_clone().unwrap();
        threads.spawn(move || {
            let _ = s.send(DropTester::new(counter, 1234));
        });
    }
    r.close().unwrap();
    threads.join();
    assert_eq!(counter.load(Ordering::SeqCst), 10_usize);
}

#[test]
fn sync_recv_from_half_closed_queue() {
    let (tx, rx) = bounded_sync::<_, 1>();
    tx.send(Box::new(1)).unwrap();
    tx.release();
    // it's ok to receive data from queue of half closed channel
    assert_eq!(rx.recv().unwrap(), Box::new(1));
}

#[test]
fn sync_recv_from_half_closed_channel() {
    let (tx, rx) = bounded_sync::<u8, 1>();
    tx.release();
    assert_eq!(rx.recv().err().unwrap(), ReceiveError());
}

#[test]
fn sync_recv_from_closed_channel() {
    let (tx, rx) = bounded_sync::<u8, 1>();
    tx.close().unwrap();
    assert_eq!(rx.recv().err().unwrap(), ReceiveError());
}

#[test]
fn sync_recv_from_closed_channel_queue() {
    let (tx, rx) = bounded_sync::<_, 1>();
    tx.send(Box::new(1)).unwrap();
    tx.close().unwrap();
    // it's not possible to read data from queue of fully closed channel
    assert_eq!(rx.recv().err().unwrap(), ReceiveError());
}

#[test]
fn sync_send_to_half_closed_channel() {
    let (tx, rx) = bounded_sync::<_, 1>();
    rx.release();
    assert!(matches!(tx.send(Box::new(1)).err().unwrap(), SendError(_)));
}

#[test]
fn sync_send_to_closed_channel() {
    let (tx, rx) = bounded_sync::<_, 1>();
    rx.close().unwrap();
    assert!(matches!(tx.send(Box::new(1)).err().unwrap(), SendError(_)));
}

#[test]
fn sync_drop_test_in_queue() {
    let (s, r) = bounded_sync::<DropTester, 10>();
    let counter = Arc::new(AtomicUsize::new(0));
    let mut threads = Threads::new();
    for _ in 0..10 {
        let counter = counter.clone();
        let s = s.try_clone().unwrap();
        threads.spawn(move || {
            let _ = s.send(DropTester::new(counter, 1234));
        });
    }
    threads.join();
    r.close().unwrap();
    assert_eq!(counter.load(Ordering::SeqCst), 10_usize);
}

#[test]
fn sync_drop_test_in_unused_signal() {
    let (s, r) = bounded_sync::<_, 10>();
    let counter = Arc::new(AtomicUsize::new(0));
    for _ in 0..10 {
        let counter = counter.clone();
        drop(s.send(DropTester::new(counter, 1234)));
    }
    r.close().unwrap();
    assert_eq!(counter.load(Ordering::SeqCst), 10_usize);
}

#[test]
fn sync_drop_test_send_to_closed() {
    let (s, r) = bounded_sync::<_, 10>();
    r.close().unwrap();
    let counter = Arc::new(AtomicUsize::new(0));
    for _ in 0..10 {
        let counter = counter.clone();
        let _ = s.send(DropTester::new(counter, 1234));
    }
    assert_eq!(counter.load(Ordering::SeqCst), 10_usize);
}

#[test]
fn sync_drop_test_send_to_half_closed() {
    let (s, r) = bounded_sync::<_, 10>();
    r.release();
    let counter = Arc::new(AtomicUsize::new(0));
    for _ in 0..10 {
        let counter = counter.clone();
        let _ = s.send(DropTester::new(counter, 1234));
    }
    assert_eq!(counter.load(Ordering::SeqCst), 10_usize);
}

#[test]
fn sync_vec_test() {
    mpmc_of::<Vec<i32>, _, 1>(|| vec![1, 2, 3]);
}

#[test]
fn sync_one_msg() {
    let (s, r) = bounded_sync::<u8, 1>();
    s.send(0).unwrap();
    assert_eq!(r.recv().unwrap(), 0);
}

#[test]
fn sync_mpsc_0() {
    mpsc::<0>();
}

#[test]
fn sync_mpsc_n() {
    mpsc::<MESSAGES>();
}

#[test]
fn sync_mpsc_u() {
    mpsc::<0>();
}

#[test]
fn sync_mpmc_0() {
    mpmc_of::<Box<u8>, _, 0>(|| Box::new(1));
}

#[test]
fn sync_mpmc_n() {
    mpmc_of::<Box<u8>, _, MESSAGES>(|| Box::new(1));
}

#[test]
fn sync_spsc_0() {
    spsc::<0>();
}

#[test]
fn sync_spsc_1() {
    spsc::<1>();
}

#[test]
fn sync_spsc_n() {
    spsc::<MESSAGES>();
}

#[test]
fn sync_seq_n() {
    seq::<MESSAGES>();
}

#[test]
fn blocked_senders_get_their_values_back_on_close() {
    let (s, r) = zero_sync::<usize>();
    let mut threads = Threads::new();
    for i in 0..THREADS {
        let s = s.try_clone().unwrap();
        threads.spawn(move || {
            assert_eq!(s.send(i), Err(SendError(i)));
        });
    }
    let watch = s.try_clone().unwrap();
    assert_eq!(watch.sender_count(), THREADS + 2);
    r.close().unwrap();
    threads.join();
}

#[test]
fn blocked_receivers_fail_when_the_last_sender_goes() {
    let (s, r) = bounded_sync::<usize, 4>();
    let mut threads = Threads::new();
    for _ in 0..THREADS {
        let r = r.try_clone().unwrap();
        threads.spawn(move || {
            assert_eq!(r.recv(), Err(ReceiveError()));
        });
    }
    s.release();
    threads.join();
}
