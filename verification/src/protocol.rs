//! What the queue and the workers guarantee together.
//!
//! The pool's parts are small; what matters is how they behave as a whole,
//! with several workers taking messages from one queue in an order that
//! nothing fixes. This module describes that whole as a transition system
//! and proves, for every order of events, that no job is lost or run twice,
//! that jobs leave the queue in the order in which they were submitted, that
//! a shutdown stops every worker after a known number of steps, and that
//! the workers cannot all stop before the last stop signal is sent.
//!
//! A job is named by its ticket: the number of jobs submitted before it.
//!
//! The events are those of a running pool. `Submit` is a call of
//! `ThreadPool::execute` that the queue accepts, and `Signal` one stop signal
//! of `ThreadPool::shutdown`, sent when `next_broadcast` asks for one: each
//! puts one message at the back of the queue.
//! `Take` is a worker taking the message at the front, under the lock, and
//! doing with it what `WorkerState::receive` says. `Finish` is a job
//! returning. The queue is first in, first out, and a message is taken by
//! one worker only.

use vstd::prelude::*;
use crate::message::{stop_signals, Message};
use crate::pool::{broadcast_step, Broadcast};
use crate::worker::{dispatch, state_after, Step, WorkerState};

verus! {

/// What one worker is doing.
pub enum Activity {
    /// Waiting for a message.
    Idle,
    /// Running the job with this ticket.
    Busy(nat),
    /// Has taken a stop signal.
    Stopped,
}

impl Activity {
    /// The state of the worker's loop.
    pub open spec fn state(self) -> WorkerState {
        match self {
            Activity::Stopped => WorkerState::Stopped,
            _ => WorkerState::Running,
        }
    }

    /// What an idle worker is doing once it has taken `message`.
    pub open spec fn after(message: Message<nat>) -> Activity {
        match dispatch(message) {
            Step::Run(ticket) => Activity::Busy(ticket),
            Step::Exit => Activity::Stopped,
        }
    }
}

/// How many of `workers` have stopped.
pub open spec fn stopped(workers: Seq<Activity>) -> nat
    decreases workers.len(),
{
    if workers.len() == 0 {
        0
    } else {
        stopped(workers.drop_last()) + if workers.last() is Stopped {
            1nat
        } else {
            0nat
        }
    }
}

/// How many of `workers` are running a job.
pub open spec fn busy(workers: Seq<Activity>) -> nat
    decreases workers.len(),
{
    if workers.len() == 0 {
        0
    } else {
        busy(workers.drop_last()) + if workers.last() is Busy {
            1nat
        } else {
            0nat
        }
    }
}

/// Whether one of `workers` is running the job `ticket`.
pub open spec fn held(workers: Seq<Activity>, ticket: nat) -> bool {
    exists|w: int| 0 <= w < workers.len() && #[trigger] workers[w] == Activity::Busy(ticket)
}

/// What can happen to a pool.
pub enum Event {
    /// The owner submits a job.
    Submit,
    /// The owner, shutting the pool down, sends one stop signal.
    Signal,
    /// This worker takes the message at the front of the queue.
    Take(int),
    /// This worker comes to the end of the job that it is running.
    Finish(int),
}

/// A pool with its queue, seen from outside time: who is doing what, what is
/// waiting, and what has been done so far.
pub struct System {
    /// What each worker is doing, by id.
    pub workers: Seq<Activity>,
    /// The messages waiting, front first.
    pub queue: Seq<Message<nat>>,
    /// How many jobs have been submitted. The next one gets this ticket.
    pub submitted: nat,
    /// The tickets of the jobs that have left the queue, in the order in
    /// which they left it.
    pub taken: Seq<nat>,
    /// For each ticket, how many times its job has been run to the end.
    pub runs: Seq<nat>,
    /// How many stop signals have been sent. The shutdown has begun when
    /// this is not 0, and its first phase is over when it has reached the
    /// number of workers.
    pub signalled: nat,
}

impl System {
    /// A new pool of `size` idle workers on an empty queue.
    pub open spec fn init(size: nat) -> System {
        System {
            workers: Seq::new(size, |w: int| Activity::Idle),
            queue: Seq::empty(),
            submitted: 0,
            taken: Seq::empty(),
            runs: Seq::empty(),
            signalled: 0,
        }
    }

    /// The owner's next move in a broadcast that the queue has not refused.
    pub open spec fn broadcast(self) -> Broadcast {
        broadcast_step(self.workers.len(), self.signalled, false)
    }

    /// Whether `event` can happen now. The owner gives the pool up when it
    /// shuts it down, so nothing is submitted once a stop signal is out, and
    /// a signal is sent when the broadcast asks for one; a worker takes a
    /// message only when it is idle and one is waiting.
    pub open spec fn enabled(self, event: Event) -> bool {
        match event {
            Event::Submit => self.signalled == 0,
            Event::Signal => self.broadcast() == Broadcast::Signal,
            Event::Take(w) => 0 <= w < self.workers.len() && self.workers[w] is Idle
                && self.queue.len() > 0,
            Event::Finish(w) => 0 <= w < self.workers.len() && self.workers[w] is Busy,
        }
    }

    /// The pool after `event`. An event that cannot happen changes nothing.
    pub open spec fn step(self, event: Event) -> System {
        if !self.enabled(event) {
            self
        } else {
            match event {
                Event::Submit => System {
                    queue: self.queue.push(Message::NewJob(self.submitted)),
                    submitted: self.submitted + 1,
                    runs: self.runs.push(0),
                    ..self
                },
                Event::Signal => System {
                    queue: self.queue.push(Message::Terminate),
                    signalled: self.signalled + 1,
                    ..self
                },
                Event::Take(w) => System {
                    workers: self.workers.update(w, Activity::after(self.queue.first())),
                    queue: self.queue.drop_first(),
                    taken: match self.queue.first() {
                        Message::NewJob(ticket) => self.taken.push(ticket),
                        Message::Terminate => self.taken,
                    },
                    ..self
                },
                Event::Finish(w) => {
                    let ticket = self.workers[w]->Busy_0;
                    System {
                        workers: self.workers.update(w, Activity::Idle),
                        runs: if ticket < self.runs.len() {
                            self.runs.update(ticket as int, self.runs[ticket as int] + 1)
                        } else {
                            self.runs
                        },
                        ..self
                    }
                },
            }
        }
    }

    /// The pool after `events`, first to last.
    pub open spec fn run(self, events: Seq<Event>) -> System
        decreases events.len(),
    {
        if events.len() == 0 {
            self
        } else {
            self.run(events.drop_last()).step(events.last())
        }
    }

    /// The pool after the owner has sent every stop signal that the
    /// broadcast still asks for, with no step of a worker in between.
    pub open spec fn after_broadcast(self) -> System
        decreases self.workers.len() - self.signalled,
    {
        if self.enabled(Event::Signal) {
            self.step(Event::Signal).after_broadcast()
        } else {
            self
        }
    }

    /// Whether `events` are all steps of workers, each one possible at its
    /// turn.
    pub open spec fn worked(self, events: Seq<Event>) -> bool
        decreases events.len(),
    {
        events.len() == 0 || {
            &&& self.worked(events.drop_last())
            &&& events.last() is Take || events.last() is Finish
            &&& self.run(events.drop_last()).enabled(events.last())
        }
    }

    /// Whether every worker has stopped.
    pub open spec fn all_stopped(self) -> bool {
        forall|w: int| 0 <= w < self.workers.len() ==> (#[trigger] self.workers[w]) is Stopped
    }

    /// How many jobs are still in the queue.
    pub open spec fn pending(self) -> nat {
        (self.submitted - self.taken.len()) as nat
    }

    /// Whether every stop signal has been sent: the first phase of the
    /// shutdown is over.
    pub open spec fn broadcast_done(self) -> bool {
        self.broadcast() == Broadcast::Done
    }

    /// How many stop signals are still in the queue: those that were sent,
    /// less one for each worker that has stopped.
    pub open spec fn signals(self) -> nat {
        (self.signalled - stopped(self.workers)) as nat
    }

    /// The queue as the counters give it: the pending jobs by rising ticket,
    /// then the stop signals.
    pub open spec fn lined_up(self) -> Seq<Message<nat>> {
        Seq::new(self.pending(), |i: int| Message::NewJob((self.taken.len() + i) as nat))
            + stop_signals(self.signals())
    }

    /// How many steps the workers still have to make: one for each message
    /// to take, and one for each job to bring to its end.
    pub open spec fn work_left(self) -> nat {
        self.queue.len() + self.pending() + busy(self.workers)
    }

    /// What holds of a pool at every moment.
    pub open spec fn consistent(self) -> bool {
        &&& self.workers.len() > 0
        &&& self.runs.len() == self.submitted
        &&& self.taken.len() <= self.submitted
        &&& forall|i: int| 0 <= i < self.taken.len() ==> #[trigger] self.taken[i] == i
        &&& self.queue == self.lined_up()
        &&& stopped(self.workers) <= self.signalled <= self.workers.len()
        &&& stopped(self.workers) > 0 ==> self.pending() == 0
        &&& forall|w: int|
            0 <= w < self.workers.len() ==> (#[trigger] self.workers[w] matches Activity::Busy(
                ticket,
            ) ==> ticket < self.taken.len() && self.runs[ticket as int] == 0)
        &&& forall|v: int, w: int|
            0 <= v < w < self.workers.len() && (#[trigger] self.workers[v]) is Busy
                ==> self.workers[v] != #[trigger] self.workers[w]
        &&& forall|t: int|
            0 <= t < self.submitted ==> (#[trigger] self.runs[t]) == (if t < self.taken.len()
                && !held(self.workers, t as nat) {
                1nat
            } else {
                0nat
            })
    }
}

/// Counting the stopped: never more than there are workers, all of them
/// exactly when every worker has stopped, none when none has.
pub proof fn lemma_stopped_count(workers: Seq<Activity>)
    ensures
        stopped(workers) <= workers.len(),
        stopped(workers) == workers.len() <==> forall|w: int|
            0 <= w < workers.len() ==> (#[trigger] workers[w]) is Stopped,
        stopped(workers) == 0 <==> forall|w: int|
            0 <= w < workers.len() ==> !((#[trigger] workers[w]) is Stopped),
    decreases workers.len(),
{
    if workers.len() > 0 {
        let front = workers.drop_last();
        lemma_stopped_count(front);
        assert forall|w: int| 0 <= w < front.len() implies front[w] == workers[w] by {}
        if stopped(workers) == workers.len() {
            assert forall|w: int| 0 <= w < workers.len() implies (#[trigger] workers[w]) is Stopped by {
                if w < front.len() {
                    assert(front[w] is Stopped);
                }
            }
        }
        if stopped(workers) == 0 {
            assert forall|w: int| 0 <= w < workers.len() implies !((#[trigger] workers[w]) is Stopped) by {
                if w < front.len() {
                    assert(!(front[w] is Stopped));
                }
            }
        }
        if forall|w: int| 0 <= w < workers.len() ==> (#[trigger] workers[w]) is Stopped {
            assert(workers.last() is Stopped);
            assert forall|w: int| 0 <= w < front.len() implies (#[trigger] front[w]) is Stopped by {
                assert(workers[w] is Stopped);
            }
        }
        if forall|w: int| 0 <= w < workers.len() ==> !((#[trigger] workers[w]) is Stopped) {
            assert(!(workers.last() is Stopped));
            assert forall|w: int| 0 <= w < front.len() implies !((#[trigger] front[w]) is Stopped) by {
                assert(!(workers[w] is Stopped));
            }
        }
    }
}

/// Counting the busy: none exactly when no worker is running a job.
pub proof fn lemma_busy_count(workers: Seq<Activity>)
    ensures
        busy(workers) <= workers.len(),
        busy(workers) == 0 <==> forall|w: int|
            0 <= w < workers.len() ==> !((#[trigger] workers[w]) is Busy),
    decreases workers.len(),
{
    if workers.len() > 0 {
        let front = workers.drop_last();
        lemma_busy_count(front);
        if busy(workers) == 0 {
            assert forall|w: int| 0 <= w < workers.len() implies !((#[trigger] workers[w]) is Busy) by {
                if w < front.len() {
                    assert(!(front[w] is Busy));
                }
            }
        }
        if forall|w: int| 0 <= w < workers.len() ==> !((#[trigger] workers[w]) is Busy) {
            assert(!(workers.last() is Busy));
            assert forall|w: int| 0 <= w < front.len() implies !((#[trigger] front[w]) is Busy) by {
                assert(!(workers[w] is Busy));
            }
        }
    }
}

/// When one worker changes what it does, the counts change by that worker
/// alone.
pub proof fn lemma_counts_update(workers: Seq<Activity>, w: int, activity: Activity)
    requires
        0 <= w < workers.len(),
    ensures
        stopped(workers.update(w, activity)) + (if workers[w] is Stopped {
            1nat
        } else {
            0nat
        }) == stopped(workers) + (if activity is Stopped {
            1nat
        } else {
            0nat
        }),
        busy(workers.update(w, activity)) + (if workers[w] is Busy {
            1nat
        } else {
            0nat
        }) == busy(workers) + (if activity is Busy {
            1nat
        } else {
            0nat
        }),
    decreases workers.len(),
{
    let changed = workers.update(w, activity);
    if w == workers.len() - 1 {
        assert(changed.drop_last() == workers.drop_last());
    } else {
        assert(changed.drop_last() == workers.drop_last().update(w, activity));
        lemma_counts_update(workers.drop_last(), w, activity);
    }
}

/// A new pool is consistent.
pub proof fn lemma_init_consistent(size: nat)
    requires
        size > 0,
    ensures
        System::init(size).consistent(),
        System::init(size).work_left() == 0,
{
    let s = System::init(size);
    lemma_stopped_count(s.workers);
    lemma_busy_count(s.workers);
    assert(s.queue == s.lined_up());
}

/// A worker that neither left the job `ticket` nor took it up changes
/// nothing in whether that job is held.
proof fn lemma_held_elsewhere(workers: Seq<Activity>, w: int, activity: Activity, ticket: nat)
    requires
        0 <= w < workers.len(),
        workers[w] != Activity::Busy(ticket),
        activity != Activity::Busy(ticket),
    ensures
        held(workers.update(w, activity), ticket) == held(workers, ticket),
{
    let changed = workers.update(w, activity);
    if held(workers, ticket) {
        let v = choose|v: int|
            0 <= v < workers.len() && #[trigger] workers[v] == Activity::Busy(ticket);
        assert(changed[v] == Activity::Busy(ticket));
    }
    if held(changed, ticket) {
        let v = choose|v: int|
            0 <= v < changed.len() && #[trigger] changed[v] == Activity::Busy(ticket);
        assert(workers[v] == Activity::Busy(ticket));
    }
}

proof fn lemma_submit_consistent(s: System)
    requires
        s.consistent(),
        s.enabled(Event::Submit),
    ensures
        s.step(Event::Submit).consistent(),
{
    let next = s.step(Event::Submit);
    assert(next.queue == next.lined_up());
    assert forall|t: int| 0 <= t < next.submitted implies (#[trigger] next.runs[t]) == (if t
        < next.taken.len() && !held(next.workers, t as nat) {
        1nat
    } else {
        0nat
    }) by {
        if t < s.submitted {
            assert(next.runs[t] == s.runs[t]);
        }
    }
}

proof fn lemma_signal_consistent(s: System)
    requires
        s.consistent(),
        s.enabled(Event::Signal),
    ensures
        s.step(Event::Signal).consistent(),
{
    let next = s.step(Event::Signal);
    assert(next.queue == next.lined_up());
}

proof fn lemma_take_consistent(s: System, w: int)
    requires
        s.consistent(),
        s.enabled(Event::Take(w)),
    ensures
        s.step(Event::Take(w)).consistent(),
{
    let next = s.step(Event::Take(w));
    let first = s.queue.first();
    lemma_counts_update(s.workers, w, Activity::after(first));
    lemma_stopped_count(s.workers);
    assert(first == s.lined_up()[0]);
    match first {
        Message::NewJob(ticket) => {
            assert(s.pending() > 0);
            assert(ticket == s.taken.len());
            assert(next.workers[w] == Activity::Busy(ticket));
            assert(next.queue == next.lined_up());
            assert forall|t: int| 0 <= t < next.submitted implies (#[trigger] next.runs[t]) == (
            if t < next.taken.len() && !held(next.workers, t as nat) {
                1nat
            } else {
                0nat
            }) by {
                if t == ticket {
                    assert(held(next.workers, t as nat));
                } else {
                    lemma_held_elsewhere(s.workers, w, Activity::Busy(ticket), t as nat);
                }
            }
        },
        Message::Terminate => {
            assert(s.pending() == 0);
            assert(s.signals() > 0);
            assert(next.workers[w] == Activity::Stopped);
            assert(next.queue == next.lined_up());
            assert forall|t: int| 0 <= t < next.submitted implies (#[trigger] next.runs[t]) == (
            if t < next.taken.len() && !held(next.workers, t as nat) {
                1nat
            } else {
                0nat
            }) by {
                lemma_held_elsewhere(s.workers, w, Activity::Stopped, t as nat);
            }
        },
    }
}

proof fn lemma_finish_consistent(s: System, w: int)
    requires
        s.consistent(),
        s.enabled(Event::Finish(w)),
    ensures
        s.step(Event::Finish(w)).consistent(),
{
    let next = s.step(Event::Finish(w));
    let ticket = s.workers[w]->Busy_0;
    lemma_counts_update(s.workers, w, Activity::Idle);
    assert(s.workers[w] == Activity::Busy(ticket));
    assert(next.queue == next.lined_up());
    assert forall|t: int| 0 <= t < next.submitted implies (#[trigger] next.runs[t]) == (if t
        < next.taken.len() && !held(next.workers, t as nat) {
        1nat
    } else {
        0nat
    }) by {
        if t == ticket {
            if held(next.workers, t as nat) {
                let v = choose|v: int|
                    0 <= v < next.workers.len() && #[trigger] next.workers[v] == Activity::Busy(
                        t as nat,
                    );
                assert(s.workers[v] == Activity::Busy(ticket));
                if v < w {
                    assert(s.workers[v] != s.workers[w]);
                } else {
                    assert(s.workers[w] != s.workers[v]);
                }
            }
        } else {
            lemma_held_elsewhere(s.workers, w, Activity::Idle, t as nat);
        }
    }
}

/// No event breaks consistency.
pub proof fn lemma_step_consistent(s: System, event: Event)
    requires
        s.consistent(),
    ensures
        s.step(event).consistent(),
{
    if s.enabled(event) {
        match event {
            Event::Submit => lemma_submit_consistent(s),
            Event::Signal => lemma_signal_consistent(s),
            Event::Take(w) => lemma_take_consistent(s, w),
            Event::Finish(w) => lemma_finish_consistent(s, w),
        }
    }
}

/// Nor does any sequence of events.
pub proof fn lemma_run_consistent(s: System, events: Seq<Event>)
    requires
        s.consistent(),
    ensures
        s.run(events).consistent(),
    decreases events.len(),
{
    if events.len() > 0 {
        lemma_run_consistent(s, events.drop_last());
        lemma_step_consistent(s.run(events.drop_last()), events.last());
    }
}

/// A worker of the model moves as the worker's loop does: after taking a
/// message it is in the state in which `WorkerState::receive` leaves the loop.
pub proof fn lemma_take_follows_receive(message: Message<nat>)
    ensures
        Activity::after(message).state() == state_after(dispatch(message)),
{
}

/// The owner of the model moves as the shutdown does. A stop signal is sent
/// exactly when `next_broadcast` asks for one, and the broadcast is over
/// exactly when it says so: that is, when every worker has its signal. The
/// queue of the model refuses nothing, so the broadcast is never lost.
pub proof fn lemma_signal_follows_broadcast(s: System)
    requires
        s.consistent(),
    ensures
        s.enabled(Event::Signal) <==> s.broadcast() == Broadcast::Signal,
        s.enabled(Event::Signal) <==> s.signalled < s.workers.len(),
        s.broadcast_done() <==> s.signalled == s.workers.len(),
        s.broadcast() != Broadcast::Lost,
{
}

/// The number of workers never changes.
pub proof fn lemma_run_keeps_size(s: System, events: Seq<Event>)
    ensures
        s.run(events).workers.len() == s.workers.len(),
    decreases events.len(),
{
    if events.len() > 0 {
        lemma_run_keeps_size(s, events.drop_last());
    }
}

/// Each step of a worker is one step less to make, and the workers send no
/// stop signals.
pub proof fn lemma_work_done(s: System, events: Seq<Event>)
    requires
        s.consistent(),
        s.worked(events),
    ensures
        s.run(events).work_left() + events.len() == s.work_left(),
        s.run(events).signalled == s.signalled,
        s.run(events).submitted == s.submitted,
    decreases events.len(),
{
    if events.len() > 0 {
        let before = s.run(events.drop_last());
        lemma_work_done(s, events.drop_last());
        lemma_run_consistent(s, events.drop_last());
        match events.last() {
            Event::Take(w) => {
                lemma_counts_update(before.workers, w, Activity::after(before.queue.first()));
                assert(before.queue.first() == before.lined_up()[0]);
            },
            Event::Finish(w) => {
                lemma_counts_update(before.workers, w, Activity::Idle);
            },
            _ => {},
        }
    }
}

/// Once every stop signal is out, the workers have all stopped exactly when
/// no work is left; until then some worker can make a step.
pub proof fn lemma_stopped_when_done(s: System)
    requires
        s.consistent(),
        s.broadcast_done(),
    ensures
        s.all_stopped() <==> s.work_left() == 0,
        !s.all_stopped() ==> exists|w: int|
            0 <= w < s.workers.len() && (#[trigger] s.enabled(Event::Take(w)) || s.enabled(
                Event::Finish(w),
            )),
{
    lemma_stopped_count(s.workers);
    lemma_busy_count(s.workers);
    if s.all_stopped() {
        assert(s.workers[0] is Stopped);
        assert forall|w: int| 0 <= w < s.workers.len() implies !((#[trigger] s.workers[w]) is Busy) by {
            assert(s.workers[w] is Stopped);
        }
    } else {
        let w = choose|w: int| 0 <= w < s.workers.len() && !((#[trigger] s.workers[w]) is Stopped);
        assert(s.signals() > 0);
        assert(s.enabled(Event::Take(w)) || s.enabled(Event::Finish(w)));
    }
}

/// No job is lost and none is run twice. Whatever happens to a pool, and in
/// whatever order, no job has ever been run more than once; and once every
/// worker has stopped, the queue is empty and every job that was submitted
/// has been run exactly once. So whoever has waited for all the workers
/// finds all the jobs done.
pub proof fn theorem_every_job_runs_once(size: nat, events: Seq<Event>)
    requires
        size > 0,
    ensures
        ({
            let end = System::init(size).run(events);
            &&& end.runs.len() == end.submitted
            &&& forall|t: int| 0 <= t < end.submitted ==> #[trigger] end.runs[t] <= 1
            &&& end.all_stopped() ==> {
                &&& end.broadcast_done()
                &&& end.queue.len() == 0
                &&& end.taken.len() == end.submitted
                &&& forall|t: int| 0 <= t < end.submitted ==> #[trigger] end.runs[t] == 1
            }
        }),
{
    let end = System::init(size).run(events);
    lemma_init_consistent(size);
    lemma_run_consistent(System::init(size), events);
    lemma_stopped_count(end.workers);
    if end.all_stopped() {
        assert(end.workers[0] is Stopped);
        assert forall|t: int| 0 <= t < end.submitted implies #[trigger] end.runs[t] == 1 by {
            if held(end.workers, t as nat) {
                let w = choose|w: int|
                    0 <= w < end.workers.len() && #[trigger] end.workers[w] == Activity::Busy(
                        t as nat,
                    );
                assert(end.workers[w] is Stopped);
            }
        }
    }
}

/// The queue keeps the order of submission. Whatever happens to a pool, the
/// jobs that have left the queue are the first that were submitted, and they
/// left it in the order in which they were submitted; the jobs still waiting
/// follow by rising ticket, ahead of every stop signal; and no job is run
/// before it has left the queue.
pub proof fn theorem_jobs_leave_in_order(size: nat, events: Seq<Event>)
    requires
        size > 0,
    ensures
        ({
            let end = System::init(size).run(events);
            &&& end.taken.len() <= end.submitted
            &&& forall|i: int| 0 <= i < end.taken.len() ==> #[trigger] end.taken[i] == i
            &&& end.queue.len() >= end.pending()
            &&& forall|i: int|
                0 <= i < end.pending() ==> #[trigger] end.queue[i] == Message::NewJob(
                    (end.taken.len() + i) as nat,
                )
            &&& forall|i: int|
                end.pending() <= i < end.queue.len() ==> #[trigger] end.queue[i]
                    == Message::<nat>::Terminate
            &&& forall|t: int|
                end.taken.len() <= t < end.submitted ==> #[trigger] end.runs[t] == 0
        }),
{
    lemma_init_consistent(size);
    lemma_run_consistent(System::init(size), events);
}

/// One stop signal for each worker, and each signal stops one worker.
/// Whatever happens to a pool, no more signals are sent than there are
/// workers; the signals still waiting and the workers that have stopped add
/// up to the signals sent; and no worker stops while a job is waiting. So
/// once all workers have stopped, exactly one signal was sent for each, and
/// none is left over.
pub proof fn theorem_one_signal_each(size: nat, events: Seq<Event>)
    requires
        size > 0,
    ensures
        ({
            let end = System::init(size).run(events);
            &&& end.workers.len() == size
            &&& end.signalled <= size
            &&& end.queue == end.queue.take(end.pending() as int) + stop_signals::<nat>(
                end.signals(),
            )
            &&& end.signals() + stopped(end.workers) == end.signalled
            &&& stopped(end.workers) > 0 ==> end.pending() == 0
            &&& end.all_stopped() ==> end.signalled == size && end.signals() == 0
        }),
{
    let end = System::init(size).run(events);
    lemma_init_consistent(size);
    lemma_run_consistent(System::init(size), events);
    lemma_run_keeps_size(System::init(size), events);
    lemma_stopped_count(end.workers);
    assert(end.queue.take(end.pending() as int) == Seq::new(
        end.pending(),
        |i: int| Message::NewJob((end.taken.len() + i) as nat),
    ));
}

/// A broadcast that goes by `next_broadcast` hands the queue exactly the
/// stop signals that are due: from a pool that has sent none, one for each
/// worker, all of them `Terminate`, behind every message that was there
/// before. Nothing else changes.
pub proof fn theorem_broadcast_sends_stop_signals(s: System)
    requires
        s.signalled <= s.workers.len(),
    ensures
        s.after_broadcast().broadcast_done(),
        s.after_broadcast().queue == s.queue + stop_signals::<nat>(
            (s.workers.len() - s.signalled) as nat,
        ),
        s.after_broadcast() == (System {
            queue: s.after_broadcast().queue,
            signalled: s.workers.len(),
            ..s
        }),
    decreases s.workers.len() - s.signalled,
{
    if s.enabled(Event::Signal) {
        let next = s.step(Event::Signal);
        theorem_broadcast_sends_stop_signals(next);
        assert(next.queue + stop_signals::<nat>((next.workers.len() - next.signalled) as nat)
            == s.queue + stop_signals::<nat>((s.workers.len() - s.signalled) as nat));
    } else {
        assert(s.queue + stop_signals::<nat>(0) == s.queue);
    }
}

/// Waiting must come after the whole broadcast. While a stop signal is
/// still to be sent, the workers cannot all stop, whatever steps they make:
/// an owner that waited for them now, and sent the rest afterwards, would
/// wait for ever.
pub proof fn theorem_wait_needs_every_signal(s: System, events: Seq<Event>)
    requires
        s.consistent(),
        !s.broadcast_done(),
        s.worked(events),
    ensures
        !s.run(events).all_stopped(),
{
    let end = s.run(events);
    lemma_work_done(s, events);
    lemma_run_consistent(s, events);
    lemma_run_keeps_size(s, events);
    lemma_stopped_count(end.workers);
}

/// A shutdown comes to an end. Once every stop signal is out, however the
/// workers' steps fall, they are at most as many as the work that was left;
/// the workers have all stopped exactly when all those steps are made; and
/// until then some worker can make one. A job that never ends is a step
/// that is never made: the bound counts steps, not time.
pub proof fn theorem_shutdown_ends(s: System, events: Seq<Event>)
    requires
        s.consistent(),
        s.broadcast_done(),
        s.worked(events),
    ensures
        events.len() <= s.work_left(),
        s.run(events).all_stopped() <==> events.len() == s.work_left(),
        !s.run(events).all_stopped() ==> exists|w: int|
            0 <= w < s.workers.len() && (#[trigger] s.run(events).enabled(Event::Take(w))
                || s.run(events).enabled(Event::Finish(w))),
{
    lemma_work_done(s, events);
    lemma_run_consistent(s, events);
    lemma_run_keeps_size(s, events);
    lemma_stopped_when_done(s.run(events));
}

/// A pool that is shut down before any job is submitted stops, for every
/// size. Whatever the order of the signals and of the workers' steps, each
/// step of a worker takes one stop signal and stops that worker, so there
/// are never more than `size` of them; and once every signal is out, either
/// all workers have stopped or an idle one can take its signal.
pub proof fn theorem_idle_pool_stops(size: nat, events: Seq<Event>)
    requires
        size > 0,
        forall|i: int| 0 <= i < events.len() ==> !((#[trigger] events[i]) is Submit),
    ensures
        ({
            let end = System::init(size).run(events);
            &&& end.submitted == 0
            &&& busy(end.workers) == 0
            &&& stopped(end.workers) + end.queue.len() == end.signalled <= size
            &&& end.all_stopped() <==> stopped(end.workers) == size
            &&& end.broadcast_done() && !end.all_stopped() ==> exists|w: int|
                0 <= w < size && #[trigger] end.enabled(Event::Take(w))
        }),
{
    let end = System::init(size).run(events);
    lemma_init_consistent(size);
    lemma_run_consistent(System::init(size), events);
    lemma_run_keeps_size(System::init(size), events);
    lemma_idle_run(System::init(size), events);
    lemma_busy_count(end.workers);
    lemma_stopped_count(end.workers);
    if end.broadcast_done() && !end.all_stopped() {
        lemma_stopped_when_done(end);
        let w = choose|w: int|
            0 <= w < end.workers.len() && (#[trigger] end.enabled(Event::Take(w)) || end.enabled(
                Event::Finish(w),
            ));
        assert(end.enabled(Event::Take(w)));
    }
}

/// Where no job is submitted, none is ever there to run.
proof fn lemma_idle_run(s: System, events: Seq<Event>)
    requires
        s.consistent(),
        s.submitted == 0,
        forall|i: int| 0 <= i < events.len() ==> !((#[trigger] events[i]) is Submit),
    ensures
        s.run(events).submitted == 0,
        busy(s.run(events).workers) == 0,
    decreases events.len(),
{
    lemma_run_consistent(s, events);
    lemma_busy_count(s.run(events).workers);
    if events.len() > 0 {
        let front = events.drop_last();
        assert forall|i: int| 0 <= i < front.len() implies !((#[trigger] front[i]) is Submit) by {
            assert(front[i] == events[i]);
        }
        lemma_idle_run(s, front);
        assert(!(events[events.len() - 1] is Submit));
    }
}

} // verus!
