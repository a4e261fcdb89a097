//! The errors that the operations of a channel give back.
use vstd::prelude::*;

verus! {

/// A value that could not be sent, handed back to its sender.
#[derive(Debug, PartialEq, Eq)]
pub struct SendError<T>(pub T);

/// Nothing is left to receive, and nothing more will come.
#[derive(Debug, Clone, Copy, PartialEq, Eq, Hash, Structural)]
pub struct ReceiveError();

/// Why a receive that does not wait came back without a value.
#[derive(Debug, Clone, Copy, PartialEq, Eq, Hash, Structural)]
pub enum ReceiveErrorTimeout {
    /// The channel is closed: no value will come.
    Closed,
    /// The channel is open, and there is no value yet.
    Timeout,
}

/// The channel was closed before.
#[derive(Debug, Clone, Copy, PartialEq, Eq, Hash, Structural)]
pub struct CloseError();

} // verus!
