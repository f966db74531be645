//! The pool: construction, submission and the two-phase shutdown.

use vstd::prelude::*;
use std::sync::mpsc::Sender;
use std::sync::{Arc, Mutex};
use crate::message::Message;
use crate::queue::{send, share, SharedReceiver};
use crate::worker::Worker;

verus! {

/// The queue has lost its receiving side: every worker is gone. Reported by
/// a shutdown that could not deliver all of its stop signals.
#[derive(Debug, Clone, Copy, PartialEq, Eq, Structural)]
pub struct Disconnected {
    /// How many stop signals the queue took before it refused one.
    pub delivered: usize,
}

/// What the owner does next in the first phase of a shutdown.
#[derive(Debug, Clone, Copy, PartialEq, Eq, Structural)]
pub enum Broadcast {
    /// Send one more stop signal.
    Signal,
    /// Every worker has its stop signal: the handles can be waited for.
    Done,
    /// The queue has refused a signal: give up.
    Lost,
}

/// The next move of a broadcast to `size` workers, when `delivered` stop
/// signals have been taken by the queue and `refused` says whether it has
/// refused one. A refusal ends the broadcast at once. Otherwise one signal is
/// sent for each worker, no fewer and no more.
pub open spec fn broadcast_step(size: nat, delivered: nat, refused: bool) -> Broadcast {
    if refused {
        Broadcast::Lost
    } else if delivered < size {
        Broadcast::Signal
    } else {
        Broadcast::Done
    }
}

/// Decides the next move of a broadcast from what the queue has answered so
/// far.
pub fn next_broadcast(size: usize, delivered: usize, refused: bool) -> (next: Broadcast)
    ensures
        next == broadcast_step(size as nat, delivered as nat, refused),
{
    if refused {
        Broadcast::Lost
    } else if delivered < size {
        Broadcast::Signal
    } else {
        Broadcast::Done
    }
}

/// The handles to wait for, each with its worker's id, in the order of the
/// workers. A worker whose handle has been taken already is passed over.
pub open spec fn join_order<H>(workers: Seq<Worker<H>>) -> Seq<(usize, H)>
    decreases workers.len(),
{
    if workers.len() == 0 {
        Seq::empty()
    } else {
        let before = join_order(workers.drop_last());
        match workers.last().handle() {
            Some(handle) => before.push((workers.last().ident(), handle)),
            None => before,
        }
    }
}

/// Whether `workers` are numbered from 0 in order and each still holds the
/// handle of its thread.
pub open spec fn all_present<H>(workers: Seq<Worker<H>>) -> bool {
    forall|i: int|
        0 <= i < workers.len() ==> (#[trigger] workers[i]).ident() == i
            && workers[i].handle().is_some()
}

/// Where no handle is missing, the join order lists every worker once, by
/// rising id.
pub proof fn lemma_join_order_complete<H>(workers: Seq<Worker<H>>)
    requires
        all_present(workers),
    ensures
        join_order(workers).len() == workers.len(),
        forall|i: int|
            0 <= i < workers.len() ==> #[trigger] join_order(workers)[i] == (
                i as usize,
                workers[i].handle().unwrap(),
            ),
    decreases workers.len(),
{
    if workers.len() > 0 {
        lemma_join_order_complete(workers.drop_last());
    }
}

/// The second phase of a shutdown, given how many of the `workers.len()` stop
/// signals the queue took. Only when every worker has its signal is it safe
/// to wait: then each handle is taken from its worker, in order. Otherwise
/// nothing is taken and the failure is reported.
pub fn release<H>(workers: Vec<Worker<H>>, delivered: usize) -> (outcome: Result<
    Vec<(usize, H)>,
    Disconnected,
>)
    ensures
        match outcome {
            Ok(handles) => delivered == workers@.len() && handles@ == join_order(workers@),
            Err(lost) => delivered != workers@.len() && lost.delivered == delivered,
        },
{
    if delivered != workers.len() {
        return Err(Disconnected { delivered });
    }
    let ghost before = workers@;
    let mut workers = workers;
    let mut handles: Vec<(usize, H)> = Vec::new();
    let mut i: usize = 0;
    while i < workers.len()
        invariant
            i <= workers@.len(),
            workers@.len() == before.len(),
            forall|j: int| i <= j < before.len() ==> workers@[j] == before[j],
            handles@ == join_order(before.take(i as int)),
        decreases workers@.len() - i,
    {
        let id = workers[i].id();
        let taken = workers[i].take_handle();
        proof {
            assert(before.take(i + 1).drop_last() == before.take(i as int));
        }
        if let Some(handle) = taken {
            handles.push((id, handle));
        }
        i += 1;
    }
    proof {
        assert(before.take(i as int) == before);
    }
    Ok(handles)
}

/// Whether `workers` are what `spawn` started on `receiver`: numbered from 0
/// in order, each with the handle that `spawn` returned for its id.
pub open spec fn started_by<J, H, F>(
    workers: Seq<Worker<H>>,
    spawn: F,
    receiver: SharedReceiver<Message<J>>,
) -> bool where F: Fn(usize, SharedReceiver<Message<J>>) -> H {
    forall|i: int|
        0 <= i < workers.len() ==> {
            &&& (#[trigger] workers[i]).ident() == i
            &&& workers[i].handle() matches Some(handle)
            &&& spawn.ensures((i as usize, receiver), handle)
        }
}

/// A fixed set of workers and the sending side of the queue that they share.
///
/// `J` is the type of a job, `H` that of the handle by which a worker's
/// thread is waited for. The number of workers is fixed by [`ThreadPool::new`]
/// and never changes; each worker keeps its handle until
/// [`ThreadPool::shutdown`] takes it.
#[verifier::reject_recursive_types(J)]
pub struct ThreadPool<J, H> {
    pool: Vec<Worker<H>>,
    sender: Sender<Message<J>>,
}

impl<J, H> ThreadPool<J, H> {
    #[verifier::type_invariant]
    spec fn well_formed(self) -> bool {
        self.pool@.len() > 0 && all_present(self.pool@)
    }

    /// The workers, by id.
    pub closed spec fn workers(&self) -> Seq<Worker<H>> {
        self.pool@
    }

    /// The sending side of the queue. It is opaque: nothing is known of it
    /// but that every message of this pool goes through it.
    pub closed spec fn sender(&self) -> Sender<Message<J>> {
        self.sender
    }

    /// The number of workers.
    pub open spec fn size(&self) -> nat {
        self.workers().len()
    }

    /// The number of workers. It is fixed by `new` and is never 0.
    pub fn len(&self) -> (size: usize)
        ensures
            size == self.size(),
            size > 0,
    {
        proof {
            use_type_invariant(self);
        }
        self.pool.len()
    }

    /// Makes a queue and starts `size` workers on it, numbered from 0.
    ///
    /// `spawn` starts one worker: it is given the worker's id and a reference
    /// to the receiving side of the queue, and returns the handle of the
    /// thread that it has started. It is called once for each id, in rising
    /// order, every time with the same receiver.
    ///
    /// A pool has at least one worker: `size` must not be 0.
    pub fn new<F>(size: usize, spawn: F) -> (pool: Self) where
        F: Fn(usize, SharedReceiver<Message<J>>) -> H,

        requires
            size > 0,
            forall|id: usize, receiver: SharedReceiver<Message<J>>|
                id < size ==> spawn.requires((id, receiver)),
        ensures
            pool.size() == size,
            exists|receiver: SharedReceiver<Message<J>>|
                started_by(pool.workers(), spawn, receiver),
    {
        let (sender, receiver) = std::sync::mpsc::channel::<Message<J>>();
        let receiver = Arc::new(Mutex::new(receiver));
        let mut pool: Vec<Worker<H>> = Vec::with_capacity(size);
        let mut id: usize = 0;
        while id < size
            invariant
                id <= size,
                pool@.len() == id,
                started_by(pool@, spawn, receiver),
                forall|id: usize, receiver: SharedReceiver<Message<J>>|
                    id < size ==> spawn.requires((id, receiver)),
            decreases size - id,
        {
            let handle = spawn(id, share(&receiver));
            pool.push(Worker::new(id, handle));
            id += 1;
        }
        let made = ThreadPool { pool, sender };
        assert(started_by(made.workers(), spawn, receiver));
        made
    }

    /// Submits a job: wraps it in a `NewJob` message and puts that at the
    /// back of the queue. Returns at once, without waiting for the job to
    /// start.
    ///
    /// The queue refuses a message only when its receiving side is gone. The
    /// message then comes back unsent, with the job in it.
    pub fn execute(&self, job: J) -> (outcome: Result<(), Message<J>>)
        ensures
            outcome matches Err(unsent) ==> unsent == Message::NewJob(job),
    {
        send(&self.sender, Message::NewJob(job))
    }

    /// The first phase of a shutdown: stop signals are sent for as long as
    /// [`next_broadcast`] asks for one, all of them before anything is waited
    /// for. Returns how many the queue took, and how the broadcast ended:
    /// `Done` with a signal for every worker, or `Lost` at the first signal
    /// that the queue refused.
    fn broadcast_terminate(&self) -> (outcome: (usize, Broadcast))
        ensures
            outcome.1 != Broadcast::Signal,
            outcome.1 == Broadcast::Done ==> outcome.0 == self.size(),
            outcome.1 == Broadcast::Lost ==> outcome.0 < self.size(),
    {
        let size = self.pool.len();
        let mut delivered: usize = 0;
        let mut refused = false;
        let mut next = next_broadcast(size, delivered, refused);
        while next == Broadcast::Signal
            invariant
                size == self.pool@.len(),
                delivered <= size,
                refused ==> delivered < size,
                next == broadcast_step(size as nat, delivered as nat, refused),
            decreases
                size - delivered + (if refused {
                    0int
                } else {
                    1int
                }),
        {
            match send(&self.sender, Message::<J>::Terminate) {
                Ok(()) => {
                    delivered += 1;
                },
                Err(_) => {
                    refused = true;
                },
            }
            next = next_broadcast(size, delivered, refused);
        }
        (delivered, next)
    }

    /// Takes the pool down in two phases. First every worker is sent its stop
    /// signal; only then are the handles taken, to be waited for in the order
    /// in which they are returned. Waiting for one worker before all signals
    /// are out could block for ever: that worker may be busy while another
    /// takes the one signal sent so far.
    ///
    /// Jobs submitted before the shutdown are ahead of the signals in the
    /// queue, so they are all run before the last worker stops: see
    /// [`crate::protocol`].
    ///
    /// If the queue refuses a signal, no handle is returned and the error
    /// says how many signals were taken.
    pub fn shutdown(self) -> (outcome: Result<Vec<(usize, H)>, Disconnected>)
        ensures
            match outcome {
                Ok(handles) => {
                    &&& handles@ == join_order(self.workers())
                    &&& handles@.len() == self.size()
                    &&& forall|i: int|
                        0 <= i < self.size() ==> #[trigger] handles@[i] == (
                            i as usize,
                            self.workers()[i].handle().unwrap(),
                        )
                },
                Err(lost) => lost.delivered < self.size(),
            },
    {
        proof {
            use_type_invariant(&self);
            lemma_join_order_complete(self.pool@);
        }
        let (delivered, ended) = self.broadcast_terminate();
        match ended {
            Broadcast::Done => release(self.pool, delivered),
            _ => Err(Disconnected { delivered }),
        }
    }
}

} // verus!
