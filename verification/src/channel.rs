use vstd::prelude::*;

use crate::sim_result::SimResult;

verus! {

#[verifier::external_type_specification]
#[verifier::external_body]
#[verifier::reject_recursive_types(T)]
pub struct ExSender<T>(std::sync::mpsc::Sender<T>);

#[verifier::external_type_specification]
#[verifier::external_body]
#[verifier::reject_recursive_types(T)]
pub struct ExReceiver<T>(std::sync::mpsc::Receiver<T>);

/// What one non-blocking poll of the stop channel yielded: a signal value,
/// nothing yet, or a hung-up sender.
pub enum StopPoll {
    Received(bool),
    Empty,
    Disconnected,
}

/// Relies on mpsc::Sender::send: it never blocks and returns Ok exactly
/// when the receiver is still connected; the outcome depends on the
/// receiver's state, so nothing is promised of it.
#[verifier::external_body]
pub(crate) fn send_result(
    tx: &std::sync::mpsc::Sender<SimResult>,
    result: SimResult,
) -> (delivered: bool) {
    match tx.send(result) {
        Ok(()) => true,
        Err(_) => false,
    }
}

/// Relies on mpsc::Receiver::try_recv: it never blocks and yields either a
/// pending value, Empty, or Disconnected once the sender is gone; which of
/// the three comes back depends on the sender's state, so nothing is
/// promised of it.
#[verifier::external_body]
pub(crate) fn poll_stop(rx: &std::sync::mpsc::Receiver<bool>) -> (outcome: StopPoll) {
    match rx.try_recv() {
        Ok(signal) => StopPoll::Received(signal),
        Err(std::sync::mpsc::TryRecvError::Empty) => StopPoll::Empty,
        Err(std::sync::mpsc::TryRecvError::Disconnected) => StopPoll::Disconnected,
    }
}

} // verus!
