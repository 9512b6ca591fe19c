//! The pool: how many workers it has, whether it still takes jobs, and how
//! it is shut down.

use vstd::prelude::*;

use crate::asynchronous::channel::Channel;
use crate::asynchronous::message::{
    jobs, law_stop_requests_add_up, stop_requests, terminations, Message,
};

verus! {

/// What the pool knows of the thread of one worker.
#[derive(Debug, Clone, Copy, PartialEq, Eq, Structural)]
pub enum Handle {
    /// The worker was started and the pool holds the handle of its thread.
    Held,
    /// The handle was taken out of the pool, to wait for the thread's end.
    Taken,
    /// The thread was waited for and had ended in order.
    Exited,
    /// The thread was waited for and had ended abnormally.
    Failed,
}

/// Whether the pool takes jobs: every worker's handle is held.
pub open spec fn running(handles: Seq<Handle>) -> bool {
    forall|id: int| 0 <= id < handles.len() ==> handles[id] == Handle::Held
}

/// Whether the pool has been shut down: no worker's handle is held.
pub open spec fn stopped(handles: Seq<Handle>) -> bool {
    forall|id: int| 0 <= id < handles.len() ==> handles[id] != Handle::Held
}

/// Whether every worker was waited for, so that none is left that could run.
pub open spec fn closed(handles: Seq<Handle>) -> bool {
    forall|id: int|
        0 <= id < handles.len() ==> handles[id] == Handle::Exited || handles[id] == Handle::Failed
}

/// What holds of the handles of every pool: there is at least one worker, and
/// the handles are taken out of the pool all at once.
pub open spec fn well_formed(handles: Seq<Handle>) -> bool {
    handles.len() > 0 && (running(handles) || stopped(handles))
}

/// The handles of a pool of `count` workers that was just made.
pub open spec fn fresh(count: nat) -> Seq<Handle> {
    Seq::new(count, |id: int| Handle::Held)
}

/// The handles after a shutdown: those that were held are taken.
pub open spec fn after_shutdown(handles: Seq<Handle>) -> Seq<Handle> {
    Seq::new(
        handles.len(),
        |id: int|
            if handles[id] == Handle::Held {
                Handle::Taken
            } else {
                handles[id]
            },
    )
}

/// The workers that a shutdown hands out to be waited for, in order: all of
/// them where the pool was running, none where it had been shut down before.
pub open spec fn joins_of(handles: Seq<Handle>) -> Seq<usize> {
    if running(handles) {
        Seq::new(handles.len(), |id: int| id as usize)
    } else {
        Seq::empty()
    }
}

/// The handles after the wait for worker `id` has ended, `clean` telling how
/// its thread had ended. Only a taken handle changes.
pub open spec fn after_join(handles: Seq<Handle>, id: int, clean: bool) -> Seq<Handle> {
    if 0 <= id < handles.len() && handles[id] == Handle::Taken {
        handles.update(
            id,
            if clean {
                Handle::Exited
            } else {
                Handle::Failed
            },
        )
    } else {
        handles
    }
}

/// The handles after the waits for the first `count` workers have ended,
/// `outcomes` telling for each worker how its thread had ended.
pub open spec fn after_joins(handles: Seq<Handle>, outcomes: Seq<bool>, count: nat) -> Seq<Handle>
    decreases count,
{
    if count == 0 {
        handles
    } else {
        after_join(
            after_joins(handles, outcomes, (count - 1) as nat),
            count - 1,
            outcomes[count - 1],
        )
    }
}

/// A pool of `count` workers that was just made has exactly `count`
/// workers, each of them started and none of them waited for.
pub proof fn law_new_pool_is_live(count: nat)
    requires
        count > 0,
    ensures
        fresh(count).len() == count,
        running(fresh(count)),
        well_formed(fresh(count)),
        !stopped(fresh(count)),
        !closed(fresh(count)),
{
    assert(fresh(count)[0] == Handle::Held);
}

/// A shutdown asks for one request to stop and one wait for each worker of
/// a running pool, and leaves the pool stopped; a shutdown of a stopped pool
/// asks for nothing and changes nothing. So over any number of shutdowns one
/// request to stop is sent for each worker, and no worker is handed out
/// twice.
pub proof fn law_shutdown_once(handles: Seq<Handle>)
    requires
        well_formed(handles),
    ensures
        running(handles) ==> joins_of(handles).len() == handles.len(),
        !running(handles) ==> joins_of(handles).len() == 0 && after_shutdown(handles) == handles,
        well_formed(after_shutdown(handles)),
        stopped(after_shutdown(handles)),
        joins_of(after_shutdown(handles)).len() == 0,
        after_shutdown(after_shutdown(handles)) == after_shutdown(handles),
        handles.len() <= usize::MAX ==> forall|i: int, j: int|
            0 <= i < j < joins_of(handles).len() ==> joins_of(handles)[i] != joins_of(handles)[j],
{
    let after = after_shutdown(handles);
    assert(after[0] != Handle::Held);
    assert(!running(after));
    if !running(handles) {
        assert(after =~= handles);
    }
    assert(after_shutdown(after) =~= after);
}

/// What a shutdown sends: one request to stop for each worker of a running
/// pool and none for a stopped pool, whatever waits in the channel; the jobs
/// that wait there stay as they are, ahead of the requests.
pub proof fn law_one_stop_request_per_worker<J>(handles: Seq<Handle>, waiting: Seq<Message<J>>)
    requires
        well_formed(handles),
    ensures
        terminations(waiting + stop_requests::<J>(joins_of(handles).len())) == terminations(
            waiting,
        ) + if running(handles) {
            handles.len()
        } else {
            0
        },
        jobs(waiting + stop_requests::<J>(joins_of(handles).len())) == jobs(waiting),
        (waiting + stop_requests::<J>(joins_of(handles).len())).take(waiting.len() as int)
            == waiting,
{
    law_stop_requests_add_up(waiting, joins_of(handles).len());
    let after = waiting + stop_requests::<J>(joins_of(handles).len());
    assert(after.take(waiting.len() as int) =~= waiting);
}

/// The handles after the first `count` waits: those workers are done, the
/// others are as they were.
proof fn lemma_after_joins(handles: Seq<Handle>, outcomes: Seq<bool>, count: nat)
    requires
        count <= handles.len(),
        outcomes.len() == handles.len(),
        forall|id: int| 0 <= id < handles.len() ==> handles[id] == Handle::Taken,
    ensures
        after_joins(handles, outcomes, count).len() == handles.len(),
        forall|id: int|
            0 <= id < count ==> #[trigger] after_joins(handles, outcomes, count)[id] == if outcomes[id] {
                Handle::Exited
            } else {
                Handle::Failed
            },
        forall|id: int|
            count <= id < handles.len() ==> #[trigger] after_joins(handles, outcomes, count)[id]
                == Handle::Taken,
    decreases count,
{
    if count > 0 {
        lemma_after_joins(handles, outcomes, (count - 1) as nat);
    }
}

/// Once a running pool has been shut down and every worker that the
/// shutdown handed out has been waited for, no worker is left that could
/// run: each has ended, in order or not, as the wait for it told.
pub proof fn law_shutdown_closes(handles: Seq<Handle>, outcomes: Seq<bool>)
    requires
        well_formed(handles),
        running(handles),
        outcomes.len() == handles.len(),
    ensures
        closed(after_joins(after_shutdown(handles), outcomes, handles.len())),
        forall|id: int|
            0 <= id < handles.len() ==> (#[trigger] after_joins(
                after_shutdown(handles),
                outcomes,
                handles.len(),
            )[id] == Handle::Failed <==> !outcomes[id]),
{
    lemma_after_joins(after_shutdown(handles), outcomes, handles.len());
}

/// What the pool knows of a worker: `running` says whether the pool has been
/// shut down, `outcome` how the wait for the worker ended, if it has.
pub open spec fn handle_of(running: bool, outcome: Option<bool>) -> Handle {
    if running {
        Handle::Held
    } else {
        match outcome {
            None => Handle::Taken,
            Some(true) => Handle::Exited,
            Some(false) => Handle::Failed,
        }
    }
}

/// A pool of a fixed number of workers, numbered from zero.
///
/// The pool keeps the books: it says whether a job may still be sent, sends
/// the requests to stop, hands out the workers to wait for, and records how
/// each of them ended. The threads themselves belong to the caller.
pub struct ThreadPool {
    /// Whether the pool still takes jobs.
    running: bool,
    /// For each worker, how the wait for it ended: cleanly or not.
    outcomes: Vec<Option<bool>>,
}

impl View for ThreadPool {
    type V = Seq<Handle>;

    /// The handle of each worker, by the worker's number.
    closed spec fn view(&self) -> Seq<Handle> {
        Seq::new(self.outcomes@.len(), |id: int| handle_of(self.running, self.outcomes@[id]))
    }
}

impl ThreadPool {
    #[verifier::type_invariant]
    spec fn valid(&self) -> bool {
        self.outcomes@.len() > 0 && (self.running ==> forall|id: int|
            0 <= id < self.outcomes@.len() ==> self.outcomes@[id] is None)
    }

    /// A pool of `count` workers, all of them started.
    pub fn new(count: usize) -> (pool: ThreadPool)
        requires
            0 < count,
        ensures
            pool@ == fresh(count as nat),
            well_formed(pool@),
    {
        let mut outcomes: Vec<Option<bool>> = Vec::new();
        let mut id: usize = 0;
        while id < count
            invariant
                id <= count,
                outcomes@.len() == id,
                forall|earlier: int| 0 <= earlier < id ==> outcomes@[earlier] is None,
            decreases count - id,
        {
            outcomes.push(None);
            id += 1;
        }
        let pool = ThreadPool { running: true, outcomes };
        assert(pool@ =~= fresh(count as nat));
        assert(pool@[0] == Handle::Held);
        pool
    }

    /// The number of workers.
    pub fn size(&self) -> (size: usize)
        ensures
            size == self@.len(),
            size > 0,
            well_formed(self@),
    {
        proof {
            use_type_invariant(self);
            assert(self@[0] == handle_of(self.running, self.outcomes@[0]));
        }
        self.outcomes.len()
    }

    /// What the pool knows of worker `id`, or `None` where it has no such
    /// worker.
    pub fn handle(&self, id: usize) -> (handle: Option<Handle>)
        ensures
            handle == if id < self@.len() {
                Some(self@[id as int])
            } else {
                None
            },
    {
        if id >= self.outcomes.len() {
            None
        } else if self.running {
            Some(Handle::Held)
        } else {
            match self.outcomes[id] {
                None => Some(Handle::Taken),
                Some(true) => Some(Handle::Exited),
                Some(false) => Some(Handle::Failed),
            }
        }
    }

    /// Whether the pool takes jobs, which it does until it is shut down.
    pub fn is_running(&self) -> (running: bool)
        ensures
            running == self::running(self@),
            !running == stopped(self@),
    {
        proof {
            use_type_invariant(self);
            assert(self@[0] == handle_of(self.running, self.outcomes@[0]));
        }
        self.running
    }

    /// Whether every worker has been waited for.
    pub fn is_closed(&self) -> (closed: bool)
        ensures
            closed == self::closed(self@),
    {
        proof {
            use_type_invariant(self);
            assert(self@[0] == handle_of(self.running, self.outcomes@[0]));
        }
        if self.running {
            return false;
        }
        let mut id: usize = 0;
        while id < self.outcomes.len()
            invariant
                !self.running,
                id <= self.outcomes.len(),
                forall|earlier: int| 0 <= earlier < id ==> self.outcomes@[earlier] is Some,
            decreases self.outcomes.len() - id,
        {
            if self.outcomes[id].is_none() {
                assert(self@[id as int] == Handle::Taken);
                return false;
            }
            id += 1;
        }
        true
    }

    /// Sends `job` to the workers through `channel`, behind everything that
    /// waits there, and returns at once. A pool that has been shut down sends
    /// nothing and gives the job back.
    pub fn execute<J>(&self, channel: &mut Channel<J>, job: J) -> (sent: Result<(), J>)
        ensures
            running(self@) ==> sent is Ok && final(channel)@ == old(channel)@.push(
                Message::NewJob(job),
            ),
            !running(self@) ==> sent == Err::<(), J>(job) && final(channel)@ == old(channel)@,
    {
        if self.is_running() {
            channel.send(Message::NewJob(job));
            Ok(())
        } else {
            Err(job)
        }
    }

    /// Shuts the pool down: sends one request to stop for each worker whose
    /// handle is held, all of them before any handle is given away, then
    /// takes every such handle out of the pool. Returns the workers to wait
    /// for, in order.
    ///
    /// A second shutdown finds no handle held: it sends nothing and returns
    /// no worker.
    pub fn shutdown<J>(&mut self, channel: &mut Channel<J>) -> (joins: Vec<usize>)
        ensures
            final(self)@ == after_shutdown(old(self)@),
            joins@ == joins_of(old(self)@),
            final(channel)@ == old(channel)@ + stop_requests::<J>(joins_of(old(self)@).len()),
            well_formed(old(self)@),
            well_formed(final(self)@),
    {
        proof {
            use_type_invariant(&*self);
        }
        let mut joins: Vec<usize> = Vec::new();
        if !self.is_running() {
            assert(self@ =~= after_shutdown(self@));
            assert(channel@ =~= channel@ + stop_requests::<J>(0));
            return joins;
        }
        let count = self.outcomes.len();
        let mut id: usize = 0;
        while id < count
            invariant
                id <= count,
                channel@ =~= old(channel)@ + stop_requests::<J>(id as nat),
                joins@ =~= Seq::new(id as nat, |i: int| i as usize),
            decreases count - id,
        {
            channel.send(Message::Terminate);
            joins.push(id);
            id += 1;
        }
        self.running = false;
        assert(self@ =~= after_shutdown(old(self)@));
        joins
    }

    /// Records that the wait for worker `id` has ended, cleanly or not.
    /// Returns whether the pool was waiting for this worker; where it was
    /// not, nothing is recorded.
    pub fn joined(&mut self, id: usize, clean: bool) -> (recorded: bool)
        ensures
            recorded == (id < old(self)@.len() && old(self)@[id as int] == Handle::Taken),
            final(self)@ == after_join(old(self)@, id as int, clean),
            well_formed(old(self)@),
            well_formed(final(self)@),
    {
        proof {
            use_type_invariant(&*self);
        }
        if !self.running && id < self.outcomes.len() && self.outcomes[id].is_none() {
            self.outcomes[id] = Some(clean);
            assert(self@ =~= after_join(old(self)@, id as int, clean));
            true
        } else {
            assert(id < self@.len() ==> self@[id as int] == handle_of(
                self.running,
                self.outcomes@[id as int],
            ));
            false
        }
    }

    /// The workers whose threads had ended abnormally when they were waited
    /// for, in rising order.
    pub fn failures(&self) -> (failed: Vec<usize>)
        ensures
            forall|i: int, j: int| 0 <= i < j < failed@.len() ==> failed@[i] < failed@[j],
            forall|id: usize|
                failed@.contains(id) <==> id < self@.len() && self@[id as int] == Handle::Failed,
    {
        let mut failed: Vec<usize> = Vec::new();
        let mut id: usize = 0;
        while id < self.outcomes.len()
            invariant
                id <= self.outcomes.len(),
                forall|i: int, j: int| 0 <= i < j < failed@.len() ==> failed@[i] < failed@[j],
                forall|i: int| 0 <= i < failed@.len() ==> failed@[i] < id,
                forall|other: usize|
                    failed@.contains(other) <==> other < id && self@[other as int]
                        == Handle::Failed,
            decreases self.outcomes.len() - id,
        {
            let failure = match self.handle(id) {
                Some(Handle::Failed) => true,
                _ => false,
            };
            if failure {
                let ghost before = failed@;
                failed.push(id);
                assert forall|other: usize|
                    failed@.contains(other) <==> other < id + 1 && self@[other as int]
                        == Handle::Failed by {
                    if other == id {
                        assert(failed@[before.len() as int] == id);
                    }
                    if before.contains(other) {
                        let at = choose|at: int| 0 <= at < before.len() && before[at] == other;
                        assert(failed@[at] == other);
                    }
                }
            }
            id += 1;
        }
        failed
    }
}

} // verus!
