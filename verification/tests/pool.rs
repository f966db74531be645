//! The pool on a real queue. The workers' loops run on the test's own
//! thread: a worker's handle is its end of the queue, and waiting for a
//! worker means running its loop until it stops.

use std::sync::atomic::{AtomicUsize, Ordering};
use std::sync::mpsc::TryRecvError;
use std::sync::{Arc, Mutex};

use worker_pool::queue::SharedReceiver;
use worker_pool::{Disconnected, Message, Step, ThreadPool, WorkerState};

type Job = Box<dyn FnOnce() + Send + 'static>;
type Inbox = SharedReceiver<Message<Job>>;

fn pool_of(size: usize) -> ThreadPool<Job, Inbox> {
    ThreadPool::new(size, |_id: usize, receiver: Inbox| receiver)
}

/// Runs the workers' loops in turn, one message each, until all have
/// stopped. Returns how many messages each worker took.
fn run_workers(handles: Vec<(usize, Inbox)>) -> Vec<usize> {
    let mut states: Vec<WorkerState> = handles.iter().map(|_| WorkerState::new()).collect();
    let mut taken = vec![0usize; handles.len()];
    while states.iter().any(|state| state.is_running()) {
        for (slot, (_, inbox)) in handles.iter().enumerate() {
            if !states[slot].is_running() {
                continue;
            }
            let message = inbox.lock().unwrap().try_recv().unwrap();
            taken[slot] += 1;
            match states[slot].receive(message) {
                Step::Run(job) => job(),
                Step::Exit => {}
            }
        }
    }
    taken
}

#[test]
fn new_pool_has_the_size_asked_for() {
    for size in 1..=8usize {
        let pool = pool_of(size);
        assert_eq!(pool.len(), size);
    }
}

#[test]
fn workers_are_spawned_once_each_by_rising_id() {
    let order = Arc::new(Mutex::new(Vec::new()));
    let seen = Arc::clone(&order);
    let pool: ThreadPool<Job, usize> = ThreadPool::new(5, move |id: usize, _receiver: Inbox| {
        seen.lock().unwrap().push(id);
        id * 10
    });
    assert_eq!(*order.lock().unwrap(), vec![0, 1, 2, 3, 4]);
    assert_eq!(pool.len(), 5);
}

#[test]
fn workers_share_one_receiver() {
    let pool = pool_of(3);
    let handles = pool.shutdown().unwrap();
    assert!(Arc::ptr_eq(&handles[0].1, &handles[1].1));
    assert!(Arc::ptr_eq(&handles[1].1, &handles[2].1));
}

#[test]
fn idle_pool_shuts_down_for_every_size() {
    for size in 1..=8usize {
        let pool = pool_of(size);
        let handles = pool.shutdown().unwrap();
        assert_eq!(handles.len(), size);
        let ids: Vec<usize> = handles.iter().map(|(id, _)| *id).collect();
        assert_eq!(ids, (0..size).collect::<Vec<usize>>());
        let inbox = Arc::clone(&handles[0].1);
        let taken = run_workers(handles);
        assert_eq!(taken, vec![1usize; size]);
        assert!(matches!(
            inbox.lock().unwrap().try_recv(),
            Err(TryRecvError::Disconnected)
        ));
    }
}

#[test]
fn shutdown_sends_one_signal_per_worker_behind_the_jobs() {
    let pool = pool_of(3);
    for _ in 0..5 {
        assert!(pool.execute(Box::new(|| {})).is_ok());
    }
    let handles = pool.shutdown().unwrap();
    let inbox = handles[0].1.lock().unwrap();
    let mut kinds = Vec::new();
    while let Ok(message) = inbox.try_recv() {
        kinds.push(match message {
            Message::NewJob(_) => 'j',
            Message::Terminate => 't',
        });
    }
    assert_eq!(kinds, vec!['j', 'j', 'j', 'j', 'j', 't', 't', 't']);
}

#[test]
fn counter_reaches_ten_thousand_on_four_workers() {
    let pool = pool_of(4);
    let counter = Arc::new(AtomicUsize::new(0));
    for _ in 0..10_000 {
        let counter = Arc::clone(&counter);
        let job: Job = Box::new(move || {
            counter.fetch_add(1, Ordering::SeqCst);
        });
        assert!(pool.execute(job).is_ok());
    }
    assert_eq!(counter.load(Ordering::SeqCst), 0);
    let handles = pool.shutdown().unwrap();
    assert_eq!(handles.len(), 4);
    let taken = run_workers(handles);
    assert_eq!(taken.iter().sum::<usize>(), 10_004);
    assert_eq!(counter.load(Ordering::SeqCst), 10_000);
}

#[test]
fn every_job_runs_exactly_once() {
    let jobs = 37usize;
    let pool = pool_of(3);
    let runs: Arc<Vec<AtomicUsize>> = Arc::new((0..jobs).map(|_| AtomicUsize::new(0)).collect());
    for ticket in 0..jobs {
        let runs = Arc::clone(&runs);
        let job: Job = Box::new(move || {
            runs[ticket].fetch_add(1, Ordering::SeqCst);
        });
        assert!(pool.execute(job).is_ok());
    }
    let handles = pool.shutdown().unwrap();
    run_workers(handles);
    for ticket in 0..jobs {
        assert_eq!(runs[ticket].load(Ordering::SeqCst), 1);
    }
}

#[test]
fn jobs_are_taken_in_the_order_of_submission() {
    let pool = pool_of(4);
    let log = Arc::new(Mutex::new(Vec::new()));
    for ticket in 0..20usize {
        let log = Arc::clone(&log);
        let job: Job = Box::new(move || log.lock().unwrap().push(ticket));
        assert!(pool.execute(job).is_ok());
    }
    let handles = pool.shutdown().unwrap();
    run_workers(handles);
    assert_eq!(*log.lock().unwrap(), (0..20).collect::<Vec<usize>>());
}

#[test]
fn second_job_sees_what_the_first_left() {
    let pool = pool_of(1);
    let cell = Arc::new(Mutex::new(None::<u32>));
    let result = Arc::new(Mutex::new(None::<u32>));
    let first = Arc::clone(&cell);
    let job: Job = Box::new(move || *first.lock().unwrap() = Some(21));
    assert!(pool.execute(job).is_ok());
    let second = Arc::clone(&cell);
    let out = Arc::clone(&result);
    let job: Job = Box::new(move || {
        let seen = second.lock().unwrap().expect("the first job has run");
        *out.lock().unwrap() = Some(seen * 2);
    });
    assert!(pool.execute(job).is_ok());
    let handles = pool.shutdown().unwrap();
    let taken = run_workers(handles);
    assert_eq!(taken, vec![3]);
    assert_eq!(*result.lock().unwrap(), Some(42));
}

#[test]
fn submitted_job_arrives_unchanged() {
    let pool: ThreadPool<u32, Arc<Mutex<std::sync::mpsc::Receiver<Message<u32>>>>> =
        ThreadPool::new(1, |_id, receiver| receiver);
    assert_eq!(pool.execute(7), Ok(()));
    assert_eq!(pool.execute(9), Ok(()));
    let handles = pool.shutdown().unwrap();
    let inbox = handles[0].1.lock().unwrap();
    assert_eq!(inbox.try_recv(), Ok(Message::NewJob(7)));
    assert_eq!(inbox.try_recv(), Ok(Message::NewJob(9)));
    assert_eq!(inbox.try_recv(), Ok(Message::Terminate));
    assert_eq!(inbox.try_recv(), Err(TryRecvError::Disconnected));
}

#[test]
fn execute_hands_the_job_back_when_every_worker_is_gone() {
    let pool: ThreadPool<u32, usize> =
        ThreadPool::new(2, |id: usize, _receiver: SharedReceiver<Message<u32>>| id);
    assert_eq!(pool.execute(5), Err(Message::NewJob(5)));
}

#[test]
fn shutdown_reports_a_queue_without_workers() {
    let pool: ThreadPool<u32, usize> =
        ThreadPool::new(2, |id: usize, _receiver: SharedReceiver<Message<u32>>| id);
    assert_eq!(pool.shutdown(), Err(Disconnected { delivered: 0 }));
}
