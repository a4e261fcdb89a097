//! How a wait for a signal goes on.
use std::time::Duration;
use way::backoff::{sleep, yield_now, BlockingWait, WaitStep};
use way::signal::{PENDING, SIGNALLED, TERMINATED, UNINITED};

#[test]
fn a_wait_yields_and_then_sleeps_longer_and_longer() {
    let mut wait = BlockingWait::new();
    for i in 0..32 {
        let state = if i % 2 == 0 { UNINITED } else { PENDING };
        assert_eq!(wait.step(state), WaitStep::Yield);
    }
    for nanos in [1024, 2048, 4096, 8192, 16384, 32768, 65536, 131072, 262144, 262144, 262144] {
        assert_eq!(wait.step(PENDING), WaitStep::Sleep(nanos));
    }
    assert_eq!(wait.step(SIGNALLED), WaitStep::Resolved(true));
}

#[test]
fn a_wait_ends_when_the_signal_is_resolved() {
    assert_eq!(BlockingWait::new().step(SIGNALLED), WaitStep::Resolved(true));
    assert_eq!(BlockingWait::new().step(TERMINATED), WaitStep::Resolved(false));
}

#[test]
fn spinning_comes_to_an_end() {
    sleep(Duration::from_nanos(0));
    sleep(Duration::from_nanos(1000));
    yield_now();
}
