//! The job queue: an unbounded first-in-first-out channel of the standard
//! library, whose receiving side the workers share behind a lock. What is
//! stated here of the standard library is taken on trust, not proved.

use vstd::prelude::*;
use std::sync::mpsc::{Receiver, Sender};
use std::sync::{Arc, Mutex};

verus! {

/// `std::sync::mpsc::Sender`, the sending side of a channel. Opaque.
#[verifier::external_type_specification]
#[verifier::external_body]
#[verifier::reject_recursive_types(T)]
pub struct ExSender<T>(Sender<T>);

/// `std::sync::mpsc::Receiver`, the receiving side of a channel. Opaque.
#[verifier::external_type_specification]
#[verifier::external_body]
#[verifier::reject_recursive_types(T)]
pub struct ExReceiver<T>(Receiver<T>);

/// `std::sync::Mutex`, a mutual-exclusion lock around a value. Opaque.
#[verifier::external_type_specification]
#[verifier::external_body]
#[verifier::reject_recursive_types(T)]
pub struct ExMutex<T: ?Sized>(Mutex<T>);

/// The receiving side of a queue as the workers hold it: one receiver,
/// behind one lock, shared by reference count.
pub type SharedReceiver<T> = Arc<Mutex<Receiver<T>>>;

/// `std::sync::mpsc::channel`: makes an unbounded channel and returns its two
/// sides. Nothing is claimed of them.
pub assume_specification<T>[ std::sync::mpsc::channel::<T> ]() -> (ends: (Sender<T>, Receiver<T>));

/// `std::sync::Mutex::new`: puts a value behind a new, unlocked lock. Nothing
/// is claimed of the lock.
pub assume_specification<T>[ Mutex::<T>::new ](value: T) -> (lock: Mutex<T>);

/// `Arc::clone`: one more reference to the same receiver. The claim is that
/// the new reference points to what the given one points to.
#[verifier::external_body]
pub(crate) fn share<T>(receiver: &SharedReceiver<T>) -> (other: SharedReceiver<T>)
    ensures
        other == *receiver,
{
    Arc::clone(receiver)
}

/// `Sender::send`: puts `item` at the back of the queue without blocking.
/// It fails only when the receiving side is gone, and the error then holds
/// the item, which is handed back here. The claim is that an item that comes
/// back is the one that was given.
#[verifier::external_body]
pub(crate) fn send<T>(sender: &Sender<T>, item: T) -> (outcome: Result<(), T>)
    ensures
        outcome matches Err(back) ==> back == item,
{
    match sender.send(item) {
        Ok(()) => Ok(()),
        Err(refused) => Err(refused.0),
    }
}

} // verus!
