use vstd::prelude::*;

verus! {

/// What travels through the channel from the pool to its workers.
pub enum Message<J> {
    /// A job to run.
    NewJob(J),
    /// The request to stop.
    Terminate,
}

/// The jobs among `messages`, in the order in which they were sent.
pub open spec fn jobs<J>(messages: Seq<Message<J>>) -> Seq<J>
    decreases messages.len(),
{
    if messages.len() == 0 {
        Seq::empty()
    } else {
        match messages.last() {
            Message::NewJob(job) => jobs(messages.drop_last()).push(job),
            Message::Terminate => jobs(messages.drop_last()),
        }
    }
}

/// The number of requests to stop among `messages`.
pub open spec fn terminations<J>(messages: Seq<Message<J>>) -> nat
    decreases messages.len(),
{
    if messages.len() == 0 {
        0
    } else {
        match messages.last() {
            Message::NewJob(_) => terminations(messages.drop_last()),
            Message::Terminate => terminations(messages.drop_last()) + 1,
        }
    }
}

/// `count` requests to stop in a row.
pub open spec fn stop_requests<J>(count: nat) -> Seq<Message<J>> {
    Seq::new(count, |i: int| Message::Terminate)
}

/// Sending a job keeps every job that waits, in its place, and puts the new
/// one last; it adds no request to stop.
pub proof fn law_send_keeps_jobs<J>(messages: Seq<Message<J>>, job: J)
    ensures
        jobs(messages.push(Message::NewJob(job))) == jobs(messages).push(job),
        terminations(messages.push(Message::NewJob(job))) == terminations(messages),
{
    let sent = messages.push(Message::NewJob(job));
    assert(sent.drop_last() =~= messages);
}

/// Sending `count` requests to stop adds exactly `count` of them, however
/// many jobs wait, and leaves the jobs that wait as they are.
pub proof fn law_stop_requests_add_up<J>(messages: Seq<Message<J>>, count: nat)
    ensures
        terminations(messages + stop_requests::<J>(count)) == terminations(messages) + count,
        jobs(messages + stop_requests::<J>(count)) == jobs(messages),
    decreases count,
{
    let sent = messages + stop_requests::<J>(count);
    if count == 0 {
        assert(sent =~= messages);
    } else {
        let before = messages + stop_requests::<J>((count - 1) as nat);
        assert(sent.drop_last() =~= before);
        assert(sent.last() == Message::<J>::Terminate);
        law_stop_requests_add_up(messages, (count - 1) as nat);
    }
}

/// Receiving takes out the oldest message and nothing else: a job that is
/// received is the first of the jobs that waited and waits no longer, the
/// others keep their order; a request to stop that is received leaves every
/// job waiting.
pub proof fn law_receive_takes_oldest<J>(messages: Seq<Message<J>>)
    requires
        messages.len() > 0,
    ensures
        match messages.first() {
            Message::NewJob(job) => jobs(messages) == seq![job] + jobs(messages.drop_first())
                && terminations(messages) == terminations(messages.drop_first()),
            Message::Terminate => jobs(messages) == jobs(messages.drop_first())
                && terminations(messages) == terminations(messages.drop_first()) + 1,
        },
    decreases messages.len(),
{
    if messages.len() == 1 {
        assert(messages.drop_last() =~= Seq::<Message<J>>::empty());
        assert(messages.drop_first() =~= Seq::<Message<J>>::empty());
        assert(messages.last() == messages.first());
        match messages.first() {
            Message::NewJob(job) => {
                assert(jobs(messages) =~= seq![job] + jobs(messages.drop_first()));
            },
            Message::Terminate => {},
        }
    } else {
        let front = messages.drop_last();
        law_receive_takes_oldest(front);
        assert(front.first() == messages.first());
        assert(messages.drop_first().drop_last() =~= front.drop_first());
        assert(messages.drop_first().last() == messages.last());
        match messages.first() {
            Message::NewJob(job) => {
                match messages.last() {
                    Message::NewJob(last) => {
                        assert(jobs(messages) =~= seq![job] + jobs(messages.drop_first()));
                    },
                    Message::Terminate => {},
                }
            },
            Message::Terminate => {},
        }
    }
}

/// The jobs of a run of messages are the jobs of its front followed by the
/// jobs of its back, and its requests to stop are those of both.
pub proof fn law_jobs_of_parts<J>(front: Seq<Message<J>>, back: Seq<Message<J>>)
    ensures
        jobs(front + back) == jobs(front) + jobs(back),
        terminations(front + back) == terminations(front) + terminations(back),
    decreases back.len(),
{
    let whole = front + back;
    if back.len() == 0 {
        assert(whole =~= front);
        assert(jobs(front) + jobs(back) =~= jobs(front));
    } else {
        assert(whole.drop_last() =~= front + back.drop_last());
        assert(whole.last() == back.last());
        law_jobs_of_parts(front, back.drop_last());
        match back.last() {
            Message::NewJob(job) => {
                assert(jobs(whole) =~= jobs(front) + jobs(back));
            },
            Message::Terminate => {},
        }
    }
}

/// Each job is handed out once: after any number of receptions, the jobs
/// received so far followed by the jobs that still wait are the jobs that
/// were sent, in the order in which they were sent. None is lost and none
/// is received twice.
pub proof fn law_each_job_is_received_once<J>(sent: Seq<Message<J>>, receptions: nat)
    requires
        receptions <= sent.len(),
    ensures
        jobs(sent) == jobs(sent.take(receptions as int)) + jobs(sent.skip(receptions as int)),
        terminations(sent) == terminations(sent.take(receptions as int)) + terminations(
            sent.skip(receptions as int),
        ),
{
    assert(sent =~= sent.take(receptions as int) + sent.skip(receptions as int));
    law_jobs_of_parts(sent.take(receptions as int), sent.skip(receptions as int));
}

} // verus!
