//! The signals shared between the workers and the orchestrator: the
//! cancellation flag, and the channel that carries round results.
use crate::performance::ApiPerformance;
use std::sync::mpsc::{Receiver, Sender};
use std::sync::{Arc, Mutex};
use vstd::prelude::*;

verus! {

/// A lock of `std::sync`, opaque to the proofs.
#[verifier::external_type_specification]
#[verifier::external_body]
#[verifier::reject_recursive_types(T)]
pub struct ExMutex<T: ?Sized>(Mutex<T>);

/// The sending half of a channel of `std::sync::mpsc`, opaque to the proofs.
#[verifier::external_type_specification]
#[verifier::external_body]
#[verifier::reject_recursive_types(T)]
pub struct ExSender<T>(Sender<T>);

/// The receiving half of a channel of `std::sync::mpsc`, opaque to the proofs.
#[verifier::external_type_specification]
#[verifier::external_body]
#[verifier::reject_recursive_types(T)]
pub struct ExReceiver<T>(Receiver<T>);

/// Relies on `Mutex::new`: a lock around `t`.
pub assume_specification<T>[ Mutex::<T>::new ](t: T) -> Mutex<T>;

/// The channel that a sender sends into.
pub uninterp spec fn sender_channel(sender: Sender<ApiPerformance>) -> int;

/// The channel that a receiver receives from.
pub uninterp spec fn receiver_channel(receiver: Receiver<ApiPerformance>) -> int;

/// Relies on `std::sync::mpsc::channel`: a new channel, as its two halves,
/// which belong to that one channel.
#[verifier::external_body]
fn open_channel() -> (r: (Sender<ApiPerformance>, Receiver<ApiPerformance>))
    ensures
        sender_channel(r.0) == receiver_channel(r.1),
{
    std::sync::mpsc::channel()
}

/// Relies on `Sender::clone`: one more sender into the same channel.
#[verifier::external_body]
fn another_sender(sender: &Sender<ApiPerformance>) -> (r: Sender<ApiPerformance>)
    ensures
        sender_channel(r) == sender_channel(*sender),
{
    sender.clone()
}

/// Relies on `Mutex::lock`: reads the flag under the lock; `None` where the lock
/// is poisoned. The reading depends on the other handles.
#[verifier::external_body]
fn read_signal(signal: &Mutex<bool>) -> (r: Option<bool>) {
    signal.lock().ok().map(|guard| *guard)
}

/// Relies on `Mutex::lock`: sets the flag under the lock, poisoned or not.
#[verifier::external_body]
fn raise_signal(signal: &Mutex<bool>) {
    *signal.lock().unwrap_or_else(std::sync::PoisonError::into_inner) = true;
}

/// Relies on `Sender::send`: hands `performance` to the channel; `false` where
/// the receiver is gone and nothing was sent.
#[verifier::external_body]
fn deliver(sender: &Sender<ApiPerformance>, performance: ApiPerformance) -> (r: bool) {
    sender.send(performance).is_ok()
}

/// Whether a reading of the flag asks to stop: a poisoned lock counts as a stop.
pub open spec fn reading_means_stop(reading: Option<bool>) -> bool {
    match reading {
        Some(raised) => raised,
        None => true,
    }
}

/// What a reading of the flag means: stop where it is raised or unreadable.
pub fn stop_requested(reading: Option<bool>) -> (r: bool)
    ensures
        r == reading_means_stop(reading),
{
    match reading {
        Some(raised) => raised,
        None => true,
    }
}

/// A flag shared by handles: once raised on one handle, it is raised on all.
#[derive(Clone, Debug, Default)]
pub struct KillSwitch {
    signal: Arc<Mutex<bool>>,
}

impl KillSwitch {
    /// A flag that is not raised.
    pub fn new() -> (r: KillSwitch) {
        KillSwitch { signal: Arc::new(Mutex::new(false)) }
    }

    /// Whether the flag is raised; a flag whose lock is poisoned counts as raised.
    pub fn is_activated(&self) -> (r: bool) {
        stop_requested(read_signal(&self.signal))
    }

    /// Raises the flag; raising it again changes nothing.
    pub fn activate(&self) {
        raise_signal(&self.signal);
    }
}

/// Whether a worker goes on after a round: only while its result reached the
/// channel and no stop was asked for.
pub open spec fn keeps_running(delivered: bool, stop: bool) -> bool {
    delivered && !stop
}

/// Decides, after a round, whether the worker goes on.
pub fn worker_continues(delivered: bool, stop: bool) -> (r: bool)
    ensures
        r == keeps_running(delivered, stop),
{
    delivered && !stop
}

/// A channel of round results with any number of senders and one receiver.
#[derive(Debug)]
pub struct ApiPerformanceCommunicator {
    send_to_controller: Sender<ApiPerformance>,
    receive_performance: Receiver<ApiPerformance>,
}

impl ApiPerformanceCommunicator {
    /// The own sender and the receiver belong to one channel.
    #[verifier::type_invariant]
    spec fn one_channel(self) -> bool {
        sender_channel(self.send_to_controller) == receiver_channel(self.receive_performance)
    }

    /// The channel of the communicator.
    pub closed spec fn channel(self) -> int {
        receiver_channel(self.receive_performance)
    }

    /// The channel that the communicator's own sender sends into.
    pub closed spec fn own_sender_channel(self) -> int {
        sender_channel(self.send_to_controller)
    }

    /// A new channel; the communicator keeps one sender of its own, and its
    /// sender and its receiver belong to that one channel.
    pub fn initialize() -> (r: ApiPerformanceCommunicator)
        ensures
            r.own_sender_channel() == r.channel(),
    {
        let (send_to_controller, receive_performance) = open_channel();
        ApiPerformanceCommunicator { send_to_controller, receive_performance }
    }

    /// One more sender into the channel.
    pub fn new_sender(&self) -> (r: Sender<ApiPerformance>)
        ensures
            sender_channel(r) == self.channel(),
    {
        proof {
            use_type_invariant(self);
        }
        another_sender(&self.send_to_controller)
    }

    /// The receiver. The communicator's own sender is dropped first, so the
    /// channel closes once every sender handed out has been dropped too.
    pub fn extract_receiver(self) -> (r: Receiver<ApiPerformance>)
        ensures
            receiver_channel(r) == self.channel(),
    {
        let ApiPerformanceCommunicator { send_to_controller: _, receive_performance } = self;
        receive_performance
    }
}

/// Sends a round result and then reads the flag: whether the worker goes on.
pub fn report_round(
    kill_switch: &KillSwitch,
    send_to_controller: &Sender<ApiPerformance>,
    performance: ApiPerformance,
) -> (r: bool) {
    let delivered = deliver(send_to_controller, performance);
    let stop = kill_switch.is_activated();
    worker_continues(delivered, stop)
}

} // verus!
