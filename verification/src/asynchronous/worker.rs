use std::sync::Arc;
use std::sync::Mutex;
use std::sync::MutexGuard;
use vstd::prelude::*;

use crate::asynchronous::channel::Channel;
use crate::asynchronous::message::Message;
use crate::asynchronous::message_receiver::MessageReceiver;

verus! {

/// `std::sync::Mutex`, whose contents Verus does not look into.
#[verifier::external_type_specification]
#[verifier::external_body]
#[verifier::reject_recursive_types(T)]
pub struct ExMutex<T: ?Sized>(Mutex<T>);

/// `std::sync::MutexGuard`, the proof of a held lock.
#[verifier::external_type_specification]
#[verifier::external_body]
#[verifier::reject_recursive_types(T)]
pub struct ExMutexGuard<'a, T: ?Sized + 'a>(MutexGuard<'a, T>);

/// Why a worker could not be started.
#[derive(Debug, Clone, Copy, PartialEq, Eq, Structural)]
pub enum WorkerError {
    /// The worker holds no receiver.
    NoReceiver,
    /// Another holder of the lock failed while holding it.
    Poisoned,
}

/// `Mutex::new`: a new, unlocked mutex around `object`.
#[verifier::external_body]
fn guard_with_mutex<T>(object: T) -> Mutex<T> {
    Mutex::new(object)
}

/// `Mutex::lock`: waits for the lock and hands out its guard, or `None` where
/// the lock is poisoned. Which of the two comes back depends on what the
/// other holders of the lock did, so nothing is promised of it.
#[verifier::external_body]
fn acquire<'a, T>(lock: &'a Mutex<T>) -> Option<MutexGuard<'a, T>> {
    match lock.lock() {
        Ok(guard) => Some(guard),
        Err(_) => None,
    }
}

/// `MutexGuard::deref`: the value that the held lock protects.
#[verifier::external_body]
fn guarded<'a, 'b, T>(guard: &'b MutexGuard<'a, T>) -> &'b T {
    &**guard
}

/// What a worker does next.
pub enum Step<J> {
    /// Nothing waits in the channel: wait for a message.
    Wait,
    /// Run this job to its end, then come back for the next message.
    Run(J),
    /// Leave the loop: the worker's thread ends.
    Exit,
}

/// One turn of a worker's loop, made while the worker holds the lock on the
/// channel: takes the oldest message out of the channel and says what it
/// asks for. The job is run after the lock has been given back.
pub fn step<J>(channel: &mut Channel<J>) -> (next: Step<J>)
    ensures
        old(channel)@.len() == 0 ==> next is Wait && final(channel)@ == old(channel)@,
        old(channel)@.len() > 0 ==> final(channel)@ == old(channel)@.drop_first(),
        old(channel)@.len() > 0 ==> next == match old(channel)@.first() {
            Message::NewJob(job) => Step::Run(job),
            Message::Terminate => Step::Exit,
        },
{
    match channel.receive() {
        None => Step::Wait,
        Some(Message::NewJob(job)) => Step::Run(job),
        Some(Message::Terminate) => Step::Exit,
    }
}

/// Wraps `object` for shared, mutually exclusive use; Verus sees nothing inside the result.
pub fn threadsafe<T>(object: T) -> Arc<Mutex<T>> {
    Arc::new(guard_with_mutex(object))
}

/// One worker: its number and the receiver it shares with the others.
#[verifier::reject_recursive_types(Receiver)]
pub struct Worker<Receiver> where Receiver: MessageReceiver {
    id: usize,
    receiver: Option<Arc<Mutex<Receiver>>>,
}

impl<Receiver> Worker<Receiver> where Receiver: MessageReceiver {
    /// The worker's number.
    pub closed spec fn spec_id(&self) -> usize {
        self.id
    }

    /// Whether the worker holds a receiver.
    pub closed spec fn spec_has_receiver(&self) -> bool {
        self.receiver is Some
    }

    /// The worker with number `id` that listens on `receiver`.
    pub fn new(id: usize, receiver: Arc<Mutex<Receiver>>) -> (worker: Self)
        ensures
            worker.spec_id() == id,
            worker.spec_has_receiver(),
    {
        Worker { id, receiver: Some(receiver) }
    }

    /// The worker's number.
    #[verifier::when_used_as_spec(spec_id)]
    pub fn id(&self) -> (id: usize)
        ensures
            id == self.spec_id(),
    {
        self.id
    }

    /// Whether the worker holds a receiver.
    #[verifier::when_used_as_spec(spec_has_receiver)]
    pub fn has_receiver(&self) -> (held: bool)
        ensures
            held == self.spec_has_receiver(),
    {
        self.receiver.is_some()
    }

    /// What `start` answers once the lock has been asked for: `locked` says
    /// whether the lock was had.
    pub fn outcome(locked: bool) -> (result: Result<(), WorkerError>)
        ensures
            result == if locked {
                Ok::<(), WorkerError>(())
            } else {
                Err::<(), WorkerError>(WorkerError::Poisoned)
            },
    {
        if locked {
            Ok(())
        } else {
            Err(WorkerError::Poisoned)
        }
    }

    /// Takes the shared lock, lets the receiver receive once, and gives the
    /// lock back. A worker without a receiver has nothing to lock; with one,
    /// the call fails only where the lock is poisoned, and the receiver is
    /// then not asked.
    pub fn start(&self) -> (result: Result<(), WorkerError>)
        ensures
            !self.has_receiver() <==> result == Err::<(), WorkerError>(WorkerError::NoReceiver),
    {
        match &self.receiver {
            Some(receiver) => {
                match acquire(receiver) {
                    Some(guard) => {
                        guarded(&guard).receive();
                        Worker::<Receiver>::outcome(true)
                    },
                    None => Worker::<Receiver>::outcome(false),
                }
            },
            None => Err(WorkerError::NoReceiver),
        }
    }
}

} // verus!
