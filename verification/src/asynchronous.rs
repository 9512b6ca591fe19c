//! What the workers are made of: the messages sent to them, the channel that
//! carries the messages, the receiver a worker listens on and the worker
//! itself.

pub mod channel;
pub mod message;
pub mod message_receiver;
pub mod worker;
