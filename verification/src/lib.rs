//! Actor-supervision core for a sensor streaming pipeline.
//!
//! A producer actor owns an external data-producing subprocess and forwards
//! its output as opaque byte chunks; a sender actor drains those chunks onto
//! an outbound network stream, reconnecting with backoff on failure.  This
//! crate holds the decision logic of both actors — their state machines, the
//! subprocess termination escalation, and the ordering guarantees of the
//! chunk pipeline — as verified code.  The embedding program performs the
//! actual process, thread and socket work and feeds the outcomes back in.

pub mod channels;
pub mod display;
pub mod pipeline;
pub mod sensor;
pub mod tcp_sender;
