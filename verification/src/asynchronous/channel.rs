use std::collections::VecDeque;
use vstd::prelude::*;

use crate::asynchronous::message::Message;

verus! {

/// The queue between the pool and its workers: messages leave it in the
/// order in which they entered, each of them once.
///
/// The channel has no bound, so sending never waits. It is a plain value:
/// whoever shares it among threads guards it with a lock and holds the lock
/// around a single `send` or `receive`.
pub struct Channel<J> {
    queue: VecDeque<Message<J>>,
}

impl<J> View for Channel<J> {
    type V = Seq<Message<J>>;

    /// The messages sent and not yet received, oldest first.
    closed spec fn view(&self) -> Seq<Message<J>> {
        self.queue@
    }
}

impl<J> Channel<J> {
    /// A channel with nothing in it.
    pub fn new() -> (channel: Self)
        ensures
            channel@ == Seq::<Message<J>>::empty(),
    {
        Channel { queue: VecDeque::new() }
    }

    /// The number of messages that wait to be received.
    pub fn len(&self) -> (len: usize)
        ensures
            len == self@.len(),
    {
        self.queue.len()
    }

    /// Whether no message waits to be received.
    pub fn is_empty(&self) -> (empty: bool)
        ensures
            empty == (self@.len() == 0),
    {
        self.queue.len() == 0
    }

    /// Puts `message` behind all the messages that wait.
    pub fn send(&mut self, message: Message<J>)
        ensures
            final(self)@ == old(self)@.push(message),
    {
        self.queue.push_back(message);
    }

    /// Takes the oldest message out of the channel, or returns `None` where
    /// none waits.
    pub fn receive(&mut self) -> (message: Option<Message<J>>)
        ensures
            old(self)@.len() == 0 ==> message is None && final(self)@ == old(self)@,
            old(self)@.len() > 0 ==> message == Some(old(self)@.first()) && final(self)@ == old(
                self,
            )@.drop_first(),
    {
        let message = self.queue.pop_front();
        proof {
            if old(self)@.len() > 0 {
                assert(final(self)@ =~= old(self)@.drop_first());
            }
        }
        message
    }
}

} // verus!
