//! The wake queue: the one channel through which background work talks to
//! the engine. A task's waker sends the task's node id; the drain loop
//! re-queues that node. Senders live on other threads, so nothing is
//! assumed about what (or whether) a receive returns.

use vstd::prelude::*;

verus! {

#[verifier::external_type_specification]
#[verifier::external_body]
#[verifier::reject_recursive_types(T)]
pub struct ExSender<T>(crossbeam::channel::Sender<T>);

#[verifier::external_type_specification]
#[verifier::external_body]
#[verifier::reject_recursive_types(T)]
pub struct ExReceiver<T>(crossbeam::channel::Receiver<T>);

/// Relies on `crossbeam::channel::unbounded`: a connected channel pair of
/// unbounded capacity.
#[verifier::external_body]
pub(crate) fn channel_unbounded() -> (crossbeam::channel::Sender<u64>, crossbeam::channel::Receiver<u64>) {
    crossbeam::channel::unbounded()
}

/// Relies on `crossbeam::channel::Sender::send`: delivers the id into the
/// channel, reporting whether the channel was still connected.
#[verifier::external_body]
pub(crate) fn channel_send(sender: &crossbeam::channel::Sender<u64>, id: u64) -> (r: bool) {
    sender.send(id).is_ok()
}

/// Relies on `crossbeam::channel::Sender::clone`: another handle sending
/// into the same channel.
#[verifier::external_body]
pub(crate) fn channel_sender_clone(sender: &crossbeam::channel::Sender<u64>) -> crossbeam::channel::Sender<
    u64,
> {
    sender.clone()
}

/// Relies on `crossbeam::channel::Receiver::try_recv`: a queued id if one
/// is waiting, and nothing when the channel is empty or disconnected.
#[verifier::external_body]
pub(crate) fn channel_try_recv(receiver: &crossbeam::channel::Receiver<u64>) -> (r: Option<u64>) {
    receiver.try_recv().ok()
}

/// The cross-thread wake notification channel: background tasks send the
/// id of their node when the node should be polled again.
pub struct WakeQueue {
    /// The sending half, cloned for every waker handed out.
    pub sender: crossbeam::channel::Sender<u64>,
    /// The receiving half, drained by the engine's flush.
    pub receiver: crossbeam::channel::Receiver<u64>,
}

impl WakeQueue {
    /// A fresh, empty wake queue.
    pub fn new() -> WakeQueue {
        let (sender, receiver) = channel_unbounded();
        WakeQueue { sender, receiver }
    }
}

} // verus!
