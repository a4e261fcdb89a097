//! A reference to a waiting signal.
use vstd::prelude::*;
use core::task::Waker;
use crate::table::SignalTable;

verus! {

/// Names one signal of a channel; the channel's wait list is made of these.
#[derive(Clone, Copy, PartialEq, Eq, Debug, Structural)]
pub struct SignalTerimnator {
    /// The number of the signal.
    pub inner: usize,
}

impl SignalTerimnator {
    /// The name of the signal with this number.
    pub open spec fn named(id: usize) -> SignalTerimnator {
        SignalTerimnator { inner: id }
    }

    /// What is among one name more.
    pub proof fn lemma_take_contains(names: Seq<SignalTerimnator>, i: int)
        requires
            0 <= i < names.len(),
        ensures
            forall|t: SignalTerimnator| #[trigger]
                names.take(i + 1).contains(t) <==> names.take(i).contains(t) || t == names[i],
    {
        let more = names.take(i + 1);
        let less = names.take(i);
        assert forall|t: SignalTerimnator| #[trigger] more.contains(t) <==> less.contains(t) || t
            == names[i] by {
            if less.contains(t) {
                let k = choose|k: int| 0 <= k < less.len() && less[k] == t;
                assert(more[k] == t);
            }
            if t == names[i] {
                assert(more[i] == t);
            }
            if more.contains(t) {
                let k = choose|k: int| 0 <= k < more.len() && more[k] == t;
                if k < i {
                    assert(less[k] == t);
                }
            }
        }
    }

    /// Gives up on the signal. The waker that comes back is to be woken.
    pub fn terminate<T>(&self, signals: &mut SignalTable<T>) -> (waker: Option<Waker>)
        requires
            old(signals).wf(),
            old(signals)@.dom().contains(self.inner),
        ensures
            final(signals).wf(),
            waker == old(signals)@[self.inner].task(),
            final(signals)@ == old(signals)@.insert(
                self.inner,
                old(signals)@[self.inner].terminated(),
            ),
    {
        signals.get_mut(self.inner).terminate()
    }

    /// Moves `data` into the signal and resolves it. The waker that comes back is
    /// to be woken.
    pub fn send<T>(self, signals: &mut SignalTable<T>, data: T) -> (waker: Option<Waker>)
        requires
            old(signals).wf(),
            old(signals)@.dom().contains(self.inner),
        ensures
            final(signals).wf(),
            waker == old(signals)@[self.inner].task(),
            final(signals)@ == old(signals)@.insert(
                self.inner,
                old(signals)@[self.inner].signalled(Some(data)),
            ),
    {
        signals.get_mut(self.inner).write_data(data)
    }

    /// Moves the value out of the signal and resolves it. The waker that comes
    /// back is to be woken.
    pub fn recv<T>(self, signals: &mut SignalTable<T>) -> (read: (T, Option<Waker>))
        requires
            old(signals).wf(),
            old(signals)@.dom().contains(self.inner),
            old(signals)@[self.inner].data is Some,
        ensures
            final(signals).wf(),
            read.0 == old(signals)@[self.inner].data->0,
            read.1 == old(signals)@[self.inner].task(),
            final(signals)@ == old(signals)@.insert(
                self.inner,
                old(signals)@[self.inner].signalled(None),
            ),
    {
        signals.get_mut(self.inner).read_data()
    }

    /// Resolves the signal on behalf of its own side, waking nobody.
    pub fn cancel<T>(self, signals: &mut SignalTable<T>)
        requires
            old(signals).wf(),
            old(signals)@.dom().contains(self.inner),
        ensures
            final(signals).wf(),
            final(signals)@ == old(signals)@.insert(
                self.inner,
                old(signals)@[self.inner].terminated(),
            ),
    {
        signals.get_mut(self.inner).cancel();
    }

    /// Whether this names the signal `other`.
    pub fn eq_ptr(&self, other: usize) -> (same: bool)
        ensures
            same == (self.inner == other),
    {
        self.inner == other
    }
}

} // verus!
