//! The signals of a channel, each under a number.
use vstd::prelude::*;
use crate::signal::Signal;

verus! {

/// The signals that belong to a channel.
///
/// A number stays with its signal until the signal is removed; it may be given
/// to another signal after that.
pub struct SignalTable<T> {
    slots: Vec<Option<Signal<T>>>,
    /// The empty slots, each once.
    free: Vec<usize>,
}

impl<T> View for SignalTable<T> {
    type V = Map<usize, Signal<T>>;

    closed spec fn view(&self) -> Map<usize, Signal<T>> {
        Map::new(
            |id: usize| id < self.slots@.len() && self.slots@[id as int] is Some,
            |id: usize| self.slots@[id as int]->0,
        )
    }
}

impl<T> SignalTable<T> {
    /// The list of empty slots is right.
    pub closed spec fn wf(&self) -> bool {
        &&& forall|i: int| #![auto]
            0 <= i < self.free@.len() ==> self.free@[i] < self.slots@.len()
                && self.slots@[self.free@[i] as int] is None
        &&& self.free@.no_duplicates()
    }

    /// A table without signals.
    pub fn new() -> (table: SignalTable<T>)
        ensures
            table.wf(),
            table@ == Map::<usize, Signal<T>>::empty(),
    {
        let table = SignalTable { slots: Vec::new(), free: Vec::new() };
        assert(table@ =~= Map::<usize, Signal<T>>::empty());
        table
    }

    /// Keeps a signal under a number that no other signal has.
    pub fn insert(&mut self, signal: Signal<T>) -> (id: usize)
        requires
            old(self).wf(),
        ensures
            final(self).wf(),
            !old(self)@.dom().contains(id),
            final(self)@ == old(self)@.insert(id, signal),
    {
        match self.free.pop() {
            Some(id) => {
                self.slots[id] = Some(signal);
                assert(self@ =~= old(self)@.insert(id, signal));
                id
            },
            None => {
                let id: usize = self.slots.len();
                self.slots.push(Some(signal));
                assert(self@ =~= old(self)@.insert(id, signal));
                id
            },
        }
    }

    /// Whether a signal has this number.
    pub fn contains(&self, id: usize) -> (found: bool)
        ensures
            found == self@.dom().contains(id),
    {
        id < self.slots.len() && self.slots[id].is_some()
    }

    /// The signal with this number.
    pub fn get(&self, id: usize) -> (signal: &Signal<T>)
        requires
            self@.dom().contains(id),
        ensures
            *signal == self@[id],
    {
        self.slots[id].as_ref().unwrap()
    }

    /// The signal with this number, to be changed in place.
    pub fn get_mut(&mut self, id: usize) -> (signal: &mut Signal<T>)
        requires
            old(self).wf(),
            old(self)@.dom().contains(id),
        ensures
            *signal == old(self)@[id],
            final(self).wf(),
            final(self)@ == old(self)@.insert(id, *final(signal)),
    {
        self.slots[id].as_mut().unwrap()
    }

    /// Takes the signal with this number out of the table.
    pub fn remove(&mut self, id: usize) -> (signal: Signal<T>)
        requires
            old(self).wf(),
            old(self)@.dom().contains(id),
        ensures
            final(self).wf(),
            signal == old(self)@[id],
            final(self)@ == old(self)@.remove(id),
    {
        let signal = self.slots[id].take().unwrap();
        self.free.push(id);
        assert(self@ =~= old(self)@.remove(id));
        signal
    }
}

} // verus!
