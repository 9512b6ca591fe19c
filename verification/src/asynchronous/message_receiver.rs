use vstd::prelude::*;

verus! {

/// Something a worker can ask for its next message.
///
/// A call blocks until a message has arrived and has been dealt with; what
/// dealing with it means is up to the implementation, so nothing is promised
/// of a call beyond its return.
pub trait MessageReceiver {
    fn receive(&self);
}

} // verus!
