use workpool::asynchronous::channel::Channel;
use workpool::asynchronous::message::Message;
use workpool::asynchronous::worker::{step, Step};
use workpool::pool::{Handle, ThreadPool};

#[test]
fn exist() {
    ThreadPool::new(5);
}

#[test]
fn new_pool_has_as_many_live_workers_as_asked_for() {
    for size in [1usize, 2, 5, 64] {
        let pool = ThreadPool::new(size);
        assert_eq!(pool.size(), size);
        assert!(pool.is_running());
        assert!(!pool.is_closed());
        for id in 0..size {
            assert_eq!(pool.handle(id), Some(Handle::Held));
        }
        assert_eq!(pool.handle(size), None);
        assert!(pool.failures().is_empty());
    }
}

#[test]
fn execute_sends_the_job_behind_what_waits() {
    let pool = ThreadPool::new(2);
    let mut channel: Channel<u32> = Channel::new();
    assert_eq!(pool.execute(&mut channel, 1), Ok(()));
    assert_eq!(pool.execute(&mut channel, 2), Ok(()));
    assert_eq!(channel.len(), 2);
    assert!(matches!(channel.receive(), Some(Message::NewJob(1))));
    assert!(matches!(channel.receive(), Some(Message::NewJob(2))));
    assert!(channel.receive().is_none());
}

#[test]
fn shutdown_sends_one_terminate_per_worker_whatever_waits() {
    for pending in [0usize, 1, 7] {
        let mut pool = ThreadPool::new(3);
        let mut channel: Channel<usize> = Channel::new();
        for job in 0..pending {
            assert_eq!(pool.execute(&mut channel, job), Ok(()));
        }
        let joins = pool.shutdown(&mut channel);
        assert_eq!(joins, vec![0, 1, 2]);
        assert_eq!(channel.len(), pending + 3);
        let mut jobs = 0;
        let mut terminates = 0;
        while let Some(message) = channel.receive() {
            match message {
                Message::NewJob(job) => {
                    assert_eq!(terminates, 0);
                    assert_eq!(job, jobs);
                    jobs += 1;
                }
                Message::Terminate => terminates += 1,
            }
        }
        assert_eq!(jobs, pending);
        assert_eq!(terminates, 3);
    }
}

#[test]
fn second_shutdown_sends_nothing_and_joins_nobody() {
    let mut pool = ThreadPool::new(4);
    let mut channel: Channel<u8> = Channel::new();
    assert_eq!(pool.shutdown(&mut channel).len(), 4);
    assert_eq!(channel.len(), 4);
    assert!(pool.shutdown(&mut channel).is_empty());
    assert_eq!(channel.len(), 4);
    for id in 0..4 {
        assert_eq!(pool.handle(id), Some(Handle::Taken));
    }
}

#[test]
fn execute_after_shutdown_gives_the_job_back() {
    let mut pool = ThreadPool::new(1);
    let mut channel: Channel<&str> = Channel::new();
    pool.shutdown(&mut channel);
    assert!(!pool.is_running());
    assert_eq!(pool.execute(&mut channel, "late"), Err("late"));
    assert_eq!(channel.len(), 1);
}

#[test]
fn pool_is_closed_once_every_worker_was_joined() {
    let mut pool = ThreadPool::new(3);
    let mut channel: Channel<u8> = Channel::new();
    let joins = pool.shutdown(&mut channel);
    assert!(!pool.is_closed());
    for id in joins {
        assert!(!pool.is_closed());
        assert!(pool.joined(id, true));
    }
    assert!(pool.is_closed());
    for id in 0..3 {
        assert_eq!(pool.handle(id), Some(Handle::Exited));
    }
    assert!(pool.failures().is_empty());
}

#[test]
fn failed_joins_are_reported_with_the_workers_id_and_the_rest_is_still_joined() {
    let mut pool = ThreadPool::new(4);
    let mut channel: Channel<u8> = Channel::new();
    let joins = pool.shutdown(&mut channel);
    for id in joins {
        assert!(pool.joined(id, id != 1 && id != 3));
    }
    assert!(pool.is_closed());
    assert_eq!(pool.failures(), vec![1, 3]);
    assert_eq!(pool.handle(0), Some(Handle::Exited));
    assert_eq!(pool.handle(1), Some(Handle::Failed));
}

#[test]
fn joined_records_only_a_wait_that_was_asked_for() {
    let mut pool = ThreadPool::new(2);
    let mut channel: Channel<u8> = Channel::new();
    assert!(!pool.joined(0, false));
    assert_eq!(pool.handle(0), Some(Handle::Held));
    pool.shutdown(&mut channel);
    assert!(!pool.joined(2, true));
    assert!(pool.joined(0, false));
    assert!(!pool.joined(0, true));
    assert_eq!(pool.handle(0), Some(Handle::Failed));
    assert_eq!(pool.handle(1), Some(Handle::Taken));
    assert!(!pool.is_closed());
}

/// Two workers take turns at the channel until both have left their loops.
#[test]
fn hundred_jobs_sent_before_shutdown_all_run_once() {
    let mut pool = ThreadPool::new(2);
    let mut channel: Channel<usize> = Channel::new();
    for job in 0..100 {
        assert_eq!(pool.execute(&mut channel, job), Ok(()));
    }
    let joins = pool.shutdown(&mut channel);
    let mut runs = vec![0usize; 100];
    let mut live = vec![true; 2];
    let mut turn = 0;
    while live.iter().any(|alive| *alive) {
        let worker = turn % 2;
        turn += 1;
        if !live[worker] {
            continue;
        }
        match step(&mut channel) {
            Step::Run(job) => runs[job] += 1,
            Step::Exit => live[worker] = false,
            Step::Wait => panic!("a live worker found the channel empty after the shutdown"),
        }
    }
    assert!(runs.iter().all(|count| *count == 1));
    assert!(channel.is_empty());
    for id in joins {
        assert!(pool.joined(id, true));
    }
    assert!(pool.is_closed());
}

#[test]
fn one_worker_runs_jobs_in_the_order_submitted() {
    let pool = ThreadPool::new(1);
    let mut channel: Channel<&str> = Channel::new();
    assert_eq!(pool.execute(&mut channel, "A"), Ok(()));
    assert_eq!(pool.execute(&mut channel, "B"), Ok(()));
    let mut sink = String::new();
    loop {
        match step(&mut channel) {
            Step::Run(job) => sink.push_str(job),
            Step::Wait => break,
            Step::Exit => panic!("no request to stop was sent"),
        }
    }
    assert_eq!(sink, "AB");
}

/// The first worker takes a job that fails and never comes back to the
/// channel; the second one does all the rest.
#[test]
fn failing_job_takes_its_worker_down_and_no_other() {
    let mut pool = ThreadPool::new(2);
    let mut channel: Channel<&str> = Channel::new();
    for job in ["bad", "one", "two", "three"] {
        assert_eq!(pool.execute(&mut channel, job), Ok(()));
    }
    assert!(matches!(step(&mut channel), Step::Run("bad")));
    let joins = pool.shutdown(&mut channel);
    let mut ran = Vec::new();
    loop {
        match step(&mut channel) {
            Step::Run(job) => ran.push(job),
            Step::Exit => break,
            Step::Wait => panic!("the request to stop never came"),
        }
    }
    assert_eq!(ran, vec!["one", "two", "three"]);
    for id in joins {
        assert!(pool.joined(id, id != 0));
    }
    assert!(pool.is_closed());
    assert_eq!(pool.failures(), vec![0]);
    assert_eq!(pool.handle(1), Some(Handle::Exited));
}
