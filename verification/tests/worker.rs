//! The worker's loop, the pool's record of a worker, and the second phase of
//! the shutdown, on given values.

use worker_pool::pool::{next_broadcast, release, Broadcast};
use worker_pool::{Disconnected, Message, Step, Worker, WorkerState};

#[test]
fn worker_starts_running() {
    let state = WorkerState::new();
    assert_eq!(state, WorkerState::Running);
    assert!(state.is_running());
}

#[test]
fn job_is_handed_out_and_worker_keeps_running() {
    let mut state = WorkerState::new();
    assert_eq!(state.receive(Message::NewJob(7u32)), Step::Run(7));
    assert_eq!(state, WorkerState::Running);
    assert_eq!(state.receive(Message::NewJob(8u32)), Step::Run(8));
    assert!(state.is_running());
}

#[test]
fn stop_signal_stops_the_worker() {
    let mut state = WorkerState::new();
    assert_eq!(state.receive(Message::<u32>::Terminate), Step::Exit);
    assert_eq!(state, WorkerState::Stopped);
    assert!(!state.is_running());
}

#[test]
fn worker_keeps_its_id_and_gives_its_handle_once() {
    let mut worker = Worker::new(3, "thread");
    assert_eq!(worker.id(), 3);
    assert_eq!(worker.take_handle(), Some("thread"));
    assert_eq!(worker.take_handle(), None);
    assert_eq!(worker.id(), 3);
}

#[test]
fn release_hands_out_every_handle_in_order() {
    let workers = vec![Worker::new(0, 'a'), Worker::new(1, 'b'), Worker::new(2, 'c')];
    assert_eq!(release(workers, 3), Ok(vec![(0, 'a'), (1, 'b'), (2, 'c')]));
}

#[test]
fn release_passes_over_a_worker_without_handle() {
    let mut gone = Worker::new(1, 'b');
    gone.take_handle();
    let workers = vec![Worker::new(0, 'a'), gone, Worker::new(2, 'c')];
    assert_eq!(release(workers, 3), Ok(vec![(0, 'a'), (2, 'c')]));
}

#[test]
fn release_refuses_when_a_signal_is_missing() {
    for delivered in [0usize, 1, 2, 4] {
        let workers = vec![Worker::new(0, 'a'), Worker::new(1, 'b'), Worker::new(2, 'c')];
        assert_eq!(release(workers, delivered), Err(Disconnected { delivered }));
    }
}

#[test]
fn release_of_no_workers_is_empty() {
    let workers: Vec<Worker<char>> = Vec::new();
    assert_eq!(release(workers, 0), Ok(Vec::new()));
}

#[test]
fn broadcast_asks_for_one_signal_per_worker() {
    let size = 4usize;
    let mut delivered = 0usize;
    let mut signals = 0usize;
    while next_broadcast(size, delivered, false) == Broadcast::Signal {
        signals += 1;
        delivered += 1;
    }
    assert_eq!(signals, 4);
    assert_eq!(next_broadcast(size, delivered, false), Broadcast::Done);
}

#[test]
fn broadcast_goes_on_until_every_worker_has_a_signal() {
    assert_eq!(next_broadcast(3, 0, false), Broadcast::Signal);
    assert_eq!(next_broadcast(3, 2, false), Broadcast::Signal);
    assert_eq!(next_broadcast(3, 3, false), Broadcast::Done);
    assert_eq!(next_broadcast(1, 0, false), Broadcast::Signal);
    assert_eq!(next_broadcast(1, 1, false), Broadcast::Done);
    assert_eq!(next_broadcast(0, 0, false), Broadcast::Done);
}

#[test]
fn broadcast_is_lost_at_the_first_refusal() {
    assert_eq!(next_broadcast(3, 0, true), Broadcast::Lost);
    assert_eq!(next_broadcast(3, 2, true), Broadcast::Lost);
    assert_eq!(next_broadcast(3, 3, true), Broadcast::Lost);
}
