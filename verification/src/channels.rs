//! Channel plumbing shared by the actors.
//!
//! The actors talk to the rest of the system only through message passing:
//! a data channel carries byte chunks from the producer to the sender, and
//! each actor has its own command channel.  The channel endpoints themselves
//! come from the standard library and are opaque here; what a non-blocking
//! poll of a command channel can yield is modelled by [`CommandPoll`].

use vstd::prelude::*;

verus! {

#[verifier::external_type_specification]
#[verifier::external_body]
#[verifier::reject_recursive_types(T)]
pub struct ExSender<T>(std::sync::mpsc::Sender<T>);

#[verifier::external_type_specification]
#[verifier::external_body]
#[verifier::reject_recursive_types(T)]
pub struct ExReceiver<T>(std::sync::mpsc::Receiver<T>);

/// Relies on std::sync::mpsc::channel: returns the sending and receiving
/// halves of a new asynchronous (unbounded) channel.
#[verifier::external_body]
pub(crate) fn mpsc_channel<T>() -> (std::sync::mpsc::Sender<T>, std::sync::mpsc::Receiver<T>) {
    std::sync::mpsc::channel()
}

/// What one non-blocking poll of a command channel can yield: a command,
/// nothing for now, or the news that the commanding peer is gone for good.
#[derive(Clone, Copy, PartialEq, Eq, Structural, Debug)]
pub enum CommandPoll<C> {
    Received(C),
    Empty,
    Closed,
}

/// The sending halves of the system's data channels, handed to the producer side.
pub struct SystemProducers {
    pub sensor_tx: std::sync::mpsc::Sender<Vec<u8>>,
}

/// The receiving halves of the system's data channels, handed to the consumer side.
pub struct SystemConsumers {
    pub sensor_rx: std::sync::mpsc::Receiver<Vec<u8>>,
}

pub struct SystemChannels;

impl SystemChannels {
    /// Creates the data channel that links the producer actor to its consumer,
    /// split into the producing and consuming halves.  The channel is
    /// unbounded: chunks enqueued while the consumer is idle accumulate in
    /// memory until it drains them.
    pub fn build() -> (SystemProducers, SystemConsumers) {
        let (sensor_tx, sensor_rx) = mpsc_channel();
        let producers = SystemProducers { sensor_tx };
        let consumers = SystemConsumers { sensor_rx };
        (producers, consumers)
    }
}

} // verus!
