//! The two sides of a worker: the state machine that runs on its thread, and
//! the record that the pool keeps of it.

use vstd::prelude::*;
use crate::message::Message;

verus! {

/// The state of a worker's loop.
#[derive(Debug, Clone, Copy, PartialEq, Eq, Structural)]
pub enum WorkerState {
    /// Waiting for the next message, or running the job it took last.
    Running,
    /// Has taken a stop signal. Terminal: the thread function returns.
    Stopped,
}

/// What a worker does with the message it has just taken from the queue.
#[derive(Debug, PartialEq, Eq)]
pub enum Step<J> {
    /// Run this job on the worker's own thread, then wait again.
    Run(J),
    /// Leave the loop.
    Exit,
}

/// The step that a message asks for.
pub open spec fn dispatch<J>(message: Message<J>) -> Step<J> {
    match message {
        Message::NewJob(job) => Step::Run(job),
        Message::Terminate => Step::Exit,
    }
}

/// The state in which a step leaves a running worker.
pub open spec fn state_after<J>(step: Step<J>) -> WorkerState {
    match step {
        Step::Run(_) => WorkerState::Running,
        Step::Exit => WorkerState::Stopped,
    }
}

impl WorkerState {
    /// The state in which every worker starts.
    pub fn new() -> (state: WorkerState)
        ensures
            state == WorkerState::Running,
    {
        WorkerState::Running
    }

    /// Whether the worker still takes messages.
    pub fn is_running(&self) -> (running: bool)
        ensures
            running == (*self == WorkerState::Running),
    {
        match self {
            WorkerState::Running => true,
            WorkerState::Stopped => false,
        }
    }

    /// Takes one message in: a job is handed back to be run and the worker
    /// keeps running; a stop signal stops it.
    ///
    /// A stopped worker takes no messages, so the state must be `Running`.
    pub fn receive<J>(&mut self, message: Message<J>) -> (step: Step<J>)
        requires
            *old(self) == WorkerState::Running,
        ensures
            step == dispatch(message),
            *final(self) == state_after(step),
    {
        match message {
            Message::NewJob(job) => Step::Run(job),
            Message::Terminate => {
                *self = WorkerState::Stopped;
                Step::Exit
            },
        }
    }
}

/// The pool's record of one worker: its id, and the handle of its thread
/// until shutdown takes it.
pub struct Worker<H> {
    id: usize,
    handle: Option<H>,
}

impl<H> Worker<H> {
    /// The worker's id, fixed when it is made.
    pub closed spec fn ident(&self) -> usize {
        self.id
    }

    /// The handle of the worker's thread, `None` once it has been taken.
    pub closed spec fn handle(&self) -> Option<H> {
        self.handle
    }

    /// The record of the worker `id` whose thread is held by `handle`.
    pub fn new(id: usize, handle: H) -> (worker: Worker<H>)
        ensures
            worker.ident() == id,
            worker.handle() == Some(handle),
    {
        Worker { id, handle: Some(handle) }
    }

    /// The worker's id.
    pub fn id(&self) -> (id: usize)
        ensures
            id == self.ident(),
    {
        self.id
    }

    /// Takes the handle out, leaving the record empty: a second call finds
    /// nothing. The id stays.
    pub fn take_handle(&mut self) -> (handle: Option<H>)
        ensures
            handle == old(self).handle(),
            final(self).handle().is_none(),
            final(self).ident() == old(self).ident(),
    {
        self.handle.take()
    }
}

} // verus!
