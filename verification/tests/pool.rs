use web_server::pool::Message;
use web_server::pool::ThreadPool;
use web_server::pool::WorkerState;

#[test]
fn new_creates_exactly_size_waiting_workers() {
    let p = ThreadPool::new(5);
    assert_eq!(p.workers.len(), 5);
    for w in &p.workers {
        assert_eq!(*w, WorkerState::Waiting);
    }
    assert!(p.pending.is_empty());
    assert!(p.completed.is_empty());
    assert!(!p.closed);
}

#[test]
fn single_worker_pool_works() {
    let mut p = ThreadPool::new(1);
    assert_eq!(p.workers.len(), 1);
    p.execute(42);
    assert_eq!(p.worker_receive(0), Message::Job(42));
    assert_eq!(p.worker_finish(0), 42);
    p.shutdown();
    assert_eq!(p.completed, vec![42]);
}

#[test]
fn jobs_are_delivered_fifo_to_one_worker_each() {
    let mut p = ThreadPool::new(2);
    p.execute(10);
    p.execute(20);
    assert_eq!(p.worker_receive(0), Message::Job(10));
    assert_eq!(p.worker_receive(1), Message::Job(20));
    assert_eq!(p.workers[0], WorkerState::Running(10));
    assert_eq!(p.workers[1], WorkerState::Running(20));
    assert!(p.pending.is_empty());
    assert_eq!(p.worker_finish(1), 20);
    assert_eq!(p.worker_finish(0), 10);
    assert_eq!(p.completed, vec![20, 10]);
    p.shutdown();
    assert_eq!(p.completed, vec![20, 10]);
}

#[test]
fn shutdown_drains_the_backlog_and_completes_every_job() {
    let mut p = ThreadPool::new(3);
    for j in 0u64..10 {
        p.execute(j);
    }
    p.shutdown();
    assert!(p.closed);
    assert!(p.pending.is_empty());
    assert_eq!(p.completed.len(), 10);
    for j in 0u64..10 {
        let times = p.completed.iter().filter(|c| **c == j).count();
        assert_eq!(times, 1);
    }
    for w in &p.workers {
        assert_eq!(*w, WorkerState::Joined);
    }
}

#[test]
fn shutdown_of_an_idle_pool_returns_and_joins_every_worker() {
    let mut p = ThreadPool::new(4);
    p.shutdown();
    assert!(p.completed.is_empty());
    assert!(p.pending.is_empty());
    for w in &p.workers {
        assert_eq!(*w, WorkerState::Joined);
    }
}

#[test]
fn slow_job_completes_before_shutdown_returns() {
    // Two workers and four jobs: job 1 stands for the slow one, jobs 2, 3
    // and 4 finish promptly. Worker 0 claims the slow job and still holds it
    // when teardown starts; shutdown may not return before it completed.
    let mut p = ThreadPool::new(2);
    p.execute(1);
    p.execute(2);
    p.execute(3);
    p.execute(4);
    assert_eq!(p.worker_receive(0), Message::Job(1));
    assert_eq!(p.worker_receive(1), Message::Job(2));
    assert_eq!(p.worker_finish(1), 2);
    assert_eq!(p.worker_receive(1), Message::Job(3));
    assert_eq!(p.worker_finish(1), 3);
    assert_eq!(p.worker_receive(1), Message::Job(4));
    assert_eq!(p.worker_finish(1), 4);
    assert_eq!(p.workers[0], WorkerState::Running(1));
    p.shutdown();
    for j in 1u64..=4 {
        let times = p.completed.iter().filter(|c| **c == j).count();
        assert_eq!(times, 1);
    }
    assert_eq!(p.completed, vec![2, 3, 4, 1]);
}

#[test]
fn receive_on_an_open_empty_queue_stays_blocked() {
    let mut p = ThreadPool::new(1);
    assert_eq!(p.worker_receive(0), Message::WouldBlock);
    assert_eq!(p.workers[0], WorkerState::Waiting);
    assert!(!p.closed);
}

#[test]
fn closed_empty_queue_terminates_workers_and_join_is_idempotent() {
    let mut p = ThreadPool::new(1);
    p.close();
    assert!(p.closed);
    assert_eq!(p.worker_receive(0), Message::Closed);
    assert_eq!(p.workers[0], WorkerState::Terminated);
    p.join_worker(0);
    assert_eq!(p.workers[0], WorkerState::Joined);
    p.join_worker(0);
    assert_eq!(p.workers[0], WorkerState::Joined);
}

#[test]
fn close_leaves_queued_jobs_for_the_workers() {
    let mut p = ThreadPool::new(2);
    p.execute(7);
    p.close();
    assert_eq!(p.pending, vec![7]);
    assert_eq!(p.worker_receive(0), Message::Job(7));
    assert_eq!(p.worker_finish(0), 7);
    p.shutdown();
    assert_eq!(p.completed, vec![7]);
}
