//! A multi-producer, multi-consumer channel with a fixed capacity.
use vstd::prelude::*;

pub mod backoff;
pub mod channel;
pub mod error;
pub mod internal;
pub mod laws;
pub mod locked;
pub mod meaning;
pub mod shared;
pub mod signal;
pub mod state;
pub mod sync;
pub mod table;
pub mod terminator;
pub mod waiting;
pub mod waker;

pub use crate::channel::{bounded, zero, Receiver, ReceiverRef, Sender, SenderRef};
pub use crate::error::{CloseError, ReceiveError, ReceiveErrorTimeout, SendError};
pub use crate::sync::{bounded_sync, zero_sync, SyncReceiver, SyncSender};

verus! {

} // verus!
