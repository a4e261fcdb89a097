//! Signals: the state of one sender or one receiver that waits.
//!
//! A sender that finds no room, or a receiver that finds no value, leaves a
//! signal with the channel. The peer that serves it moves the value through the
//! signal, resolves it and wakes the waiting task, which then polls it.
use vstd::prelude::*;
use core::task::Waker;
use crate::error::{ReceiveError, SendError};
use crate::waker::OnceWaker;

verus! {

/// `branches::likely` tells the optimiser which way a branch goes and returns
/// its argument.
pub assume_specification[ branches::likely ](b: bool) -> (same: bool)
    ensures
        same == b,
;

/// `branches::unlikely` tells the optimiser which way a branch goes and returns
/// its argument.
pub assume_specification[ branches::unlikely ](b: bool) -> (same: bool)
    ensures
        same == b,
;

/// The signal was never polled.
pub const UNINITED: usize = 0;

/// The signal was polled and has a waker.
pub const PENDING: usize = UNINITED + 1;

/// The channel gave up on the signal.
pub const TERMINATED: usize = usize::MAX - 1;

/// The value has moved.
pub const SIGNALLED: usize = usize::MAX;

/// Which side of the channel waits.
#[derive(Clone, Copy, PartialEq, Eq, Debug, Structural)]
pub enum SignalKind {
    /// A sender, whose signal carries the value to send.
    Send,
    /// A receiver, whose signal is to be filled.
    Receive,
}

/// What the state of a signal means to the one that waits.
#[derive(Clone, Copy, PartialEq, Eq, Debug, Structural)]
pub enum SignalResult {
    /// Not polled yet.
    Uninited,
    /// Polled, and waiting.
    Pending,
    /// The value has moved.
    Success,
    /// The channel gave up on the signal.
    Failure,
}

/// The outcome of polling a signal.
pub enum SignalPoll<R> {
    /// The signal waits, and the waker is registered.
    Pending,
    /// The waker was taken by a peer that has yet to resolve the signal: its
    /// state is to be watched (see [`crate::backoff::BlockingWait`]), then the
    /// signal polled again.
    ///
    /// A channel behind its lock takes a waker and resolves the signal in one
    /// step, so that the handles never see this.
    Claimed,
    /// The signal is resolved.
    Ready(R),
}

/// One sender or one receiver that waits.
pub struct Signal<T> {
    /// [`UNINITED`], [`PENDING`], [`TERMINATED`] or [`SIGNALLED`].
    pub state: usize,
    /// The value on its way.
    pub data: Option<T>,
    /// The task to wake when the signal is resolved.
    pub waker: OnceWaker,
    /// Which side waits.
    pub kind: SignalKind,
}

/// What a state means.
pub open spec fn result_of(state: usize) -> SignalResult {
    if state == SIGNALLED {
        SignalResult::Success
    } else if state == TERMINATED {
        SignalResult::Failure
    } else if state == PENDING {
        SignalResult::Pending
    } else {
        SignalResult::Uninited
    }
}

impl<T> Signal<T> {
    /// The signal is not resolved.
    pub open spec fn waiting(self) -> bool {
        self.state == UNINITED || self.state == PENDING
    }

    /// The fields of the signal agree.
    ///
    /// A resolved signal has handed out its waker. A sender's signal carries its
    /// value until the value has moved, a receiver's signal from then on.
    pub open spec fn wf(self) -> bool {
        &&& self.waiting() || self.state == TERMINATED || self.state == SIGNALLED
        &&& self.state == UNINITED ==> self.waker is Uninited || self.waker is Notified
        &&& self.state == PENDING ==> self.waker is Waker || self.waker is Notified
        &&& !self.waiting() ==> self.waker is Notified
        &&& match self.kind {
            SignalKind::Send => self.data is Some <==> self.state != SIGNALLED,
            SignalKind::Receive => self.data is Some <==> self.state == SIGNALLED,
        }
    }

    /// A new signal of a receiver.
    pub open spec fn spec_recv() -> Signal<T> {
        Signal {
            state: UNINITED,
            data: None,
            waker: OnceWaker::Uninited,
            kind: SignalKind::Receive,
        }
    }

    /// A new signal of a sender of `data`.
    pub open spec fn spec_send(data: T) -> Signal<T> {
        Signal {
            state: UNINITED,
            data: Some(data),
            waker: OnceWaker::Uninited,
            kind: SignalKind::Send,
        }
    }

    /// The signal after its value has moved, with what it carries then.
    pub open spec fn signalled(self, data: Option<T>) -> Signal<T> {
        Signal { state: SIGNALLED, data, waker: OnceWaker::Notified, kind: self.kind }
    }

    /// The signal after the channel gave up on it: it keeps its value.
    pub open spec fn terminated(self) -> Signal<T> {
        Signal { state: TERMINATED, waker: OnceWaker::Notified, data: self.data, kind: self.kind }
    }

    /// The signal once `waker` is registered with it.
    pub open spec fn registered(self, waker: Waker) -> Signal<T> {
        Signal {
            state: PENDING,
            waker: OnceWaker::Waker(waker),
            data: self.data,
            kind: self.kind,
        }
    }

    /// The signal after its value has been given away.
    pub open spec fn emptied(self) -> Signal<T> {
        Signal { data: None, state: self.state, waker: self.waker, kind: self.kind }
    }

    /// The task that waits on the signal.
    pub open spec fn task(self) -> Option<Waker> {
        self.waker.task()
    }

    /// A signal for a receiver that waits.
    pub fn new_recv() -> (signal: Signal<T>)
        ensures
            signal == Signal::<T>::spec_recv(),
            signal.wf(),
    {
        Signal {
            state: UNINITED,
            data: None,
            waker: OnceWaker::new(),
            kind: SignalKind::Receive,
        }
    }

    /// A signal for a sender that waits to give `data` away.
    pub fn new_send(data: T) -> (signal: Signal<T>)
        ensures
            signal == Signal::spec_send(data),
            signal.wf(),
    {
        Signal {
            state: UNINITED,
            data: Some(data),
            waker: OnceWaker::new(),
            kind: SignalKind::Send,
        }
    }

    /// What the state of the signal means.
    pub fn result(&self) -> (result: SignalResult)
        ensures
            result == result_of(self.state),
    {
        let v: usize = self.state;
        if branches::likely(v == SIGNALLED) {
            SignalResult::Success
        } else if v == TERMINATED {
            SignalResult::Failure
        } else if v == PENDING {
            SignalResult::Pending
        } else {
            SignalResult::Uninited
        }
    }

    /// Fills the signal of a receiver and resolves it. The waker that comes back
    /// is to be woken.
    pub fn write_data(&mut self, data: T) -> (waker: Option<Waker>)
        ensures
            waker == old(self).task(),
            *final(self) == old(self).signalled(Some(data)),
    {
        let waker = self.waker.take();
        self.data = Some(data);
        self.state = SIGNALLED;
        waker
    }

    /// Takes the value out of the signal and resolves it. The waker that comes
    /// back is to be woken.
    pub fn read_data(&mut self) -> (read: (T, Option<Waker>))
        requires
            old(self).data is Some,
        ensures
            read.0 == old(self).data->0,
            read.1 == old(self).task(),
            *final(self) == old(self).signalled(None),
    {
        let waker = self.waker.take();
        let data = self.data.take().unwrap();
        self.state = SIGNALLED;
        (data, waker)
    }

    /// Resolves the signal on behalf of its own side. The waker is dropped
    /// without waking the task.
    pub fn cancel(&mut self)
        ensures
            *final(self) == old(self).terminated(),
    {
        let _ = self.waker.take();
        self.state = TERMINATED;
    }

    /// Gives up on the signal. The waker that comes back is to be woken.
    pub fn terminate(&mut self) -> (waker: Option<Waker>)
        ensures
            waker == old(self).task(),
            *final(self) == old(self).terminated(),
    {
        let waker = self.waker.take();
        self.state = TERMINATED;
        waker
    }

    /// Polls the signal of a receiver: the value once it has come, the error
    /// once the channel gave up, and else `waker` is registered.
    ///
    /// The waker that is left over comes back too, to be dropped.
    pub fn poll_recv(&mut self, waker: Waker) -> (polled: (
        SignalPoll<Result<T, ReceiveError>>,
        Option<Waker>,
    ))
        requires
            old(self).wf(),
            old(self).kind is Receive,
        ensures
            polled.1 == (if polled.0 is Pending {
                old(self).task()
            } else {
                Some(waker)
            }),
            match result_of(old(self).state) {
                SignalResult::Success => {
                    &&& polled.0 == SignalPoll::<Result<T, ReceiveError>>::Ready(Ok(old(self).data->0))
                    &&& *final(self) == old(self).emptied()
                },
                SignalResult::Failure => {
                    &&& polled.0 == SignalPoll::<Result<T, ReceiveError>>::Ready(Err(ReceiveError()))
                    &&& *final(self) == *old(self)
                },
                _ => if old(self).waker is Notified {
                    &&& polled.0 is Claimed
                    &&& *final(self) == *old(self)
                } else {
                    &&& polled.0 is Pending
                    &&& *final(self) == old(self).registered(waker)
                },
            },
    {
        match self.result() {
            SignalResult::Uninited => {
                let (stored, spare) = self.waker.update(waker);
                if stored {
                    self.state = PENDING;
                    (SignalPoll::Pending, spare)
                } else {
                    (SignalPoll::Claimed, spare)
                }
            },
            SignalResult::Pending => {
                let (stored, spare) = self.waker.update(waker);
                if stored {
                    (SignalPoll::Pending, spare)
                } else {
                    (SignalPoll::Claimed, spare)
                }
            },
            SignalResult::Success => {
                let (data, _) = self.read_data();
                (SignalPoll::Ready(Ok(data)), Some(waker))
            },
            SignalResult::Failure => (SignalPoll::Ready(Err(ReceiveError())), Some(waker)),
        }
    }

    /// Polls the signal of a sender: success once the value has moved, the value
    /// back once the channel gave up, and else `waker` is registered.
    ///
    /// The waker that is left over comes back too, to be dropped.
    pub fn poll_send(&mut self, waker: Waker) -> (polled: (
        SignalPoll<Result<(), SendError<T>>>,
        Option<Waker>,
    ))
        requires
            old(self).wf(),
            old(self).kind is Send,
        ensures
            polled.1 == (if polled.0 is Pending {
                old(self).task()
            } else {
                Some(waker)
            }),
            match result_of(old(self).state) {
                SignalResult::Success => {
                    &&& polled.0 == SignalPoll::<Result<(), SendError<T>>>::Ready(Ok(()))
                    &&& *final(self) == *old(self)
                },
                SignalResult::Failure => {
                    &&& polled.0 == SignalPoll::<Result<(), SendError<T>>>::Ready(
                        Err(SendError(old(self).data->0)),
                    )
                    &&& *final(self) == old(self).emptied()
                },
                _ => if old(self).waker is Notified {
                    &&& polled.0 is Claimed
                    &&& *final(self) == *old(self)
                } else {
                    &&& polled.0 is Pending
                    &&& *final(self) == old(self).registered(waker)
                },
            },
    {
        match self.result() {
            SignalResult::Uninited => {
                let (stored, spare) = self.waker.update(waker);
                if stored {
                    self.state = PENDING;
                    (SignalPoll::Pending, spare)
                } else {
                    (SignalPoll::Claimed, spare)
                }
            },
            SignalResult::Pending => {
                let (stored, spare) = self.waker.update(waker);
                if stored {
                    (SignalPoll::Pending, spare)
                } else {
                    (SignalPoll::Claimed, spare)
                }
            },
            SignalResult::Success => (SignalPoll::Ready(Ok(())), Some(waker)),
            SignalResult::Failure => {
                let data = self.data.take().unwrap();
                (SignalPoll::Ready(Err(SendError(data))), Some(waker))
            },
        }
    }
}

} // verus!
