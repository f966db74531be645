//! What travels through the job queue.

use vstd::prelude::*;

verus! {

/// One item of the job queue: a unit of work, or the signal that tells the
/// worker that takes it to stop. A message is never changed once made.
#[derive(Debug, PartialEq, Eq)]
pub enum Message<J> {
    /// A job to run, exactly once, by whichever worker takes it.
    NewJob(J),
    /// The stop signal. Each one stops exactly one worker.
    Terminate,
}

/// The stop signals that take down a pool of `size` workers: one for each.
pub open spec fn stop_signals<J>(size: nat) -> Seq<Message<J>> {
    Seq::new(size, |i: int| Message::Terminate)
}

} // verus!
