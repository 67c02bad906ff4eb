//! The trusted boundary to the two control channels: the signal channel
//! from the listener to the playback loop, and the exit channel that asks
//! the listener to stop.

use vstd::prelude::*;

use crate::signal::PlaybackSignal;
use crate::signal::WaitOutcome;

verus! {

/// Declares crossbeam's sending endpoint so it can stand in signatures;
/// its values are opaque to the library.
#[verifier::external_type_specification]
#[verifier::external_body]
#[verifier::reject_recursive_types(T)]
pub struct ExSender<T>(crossbeam_channel::Sender<T>);

/// Declares crossbeam's receiving endpoint so it can stand in signatures;
/// its values are opaque to the library.
#[verifier::external_type_specification]
#[verifier::external_body]
#[verifier::reject_recursive_types(T)]
pub struct ExReceiver<T>(crossbeam_channel::Receiver<T>);

/// What one non-blocking look at the exit channel showed.
#[derive(Clone, Copy, Debug, PartialEq, Eq, Structural)]
pub enum ShutdownCheck {
    /// A stop request is pending.
    Requested,
    /// Nothing is pending.
    NotRequested,
    /// The requesting side is gone; treated like a stop request.
    Disconnected,
}

/// Relies on crossbeam_channel::Receiver::recv_timeout: it returns a
/// pending or arriving message, or times out after the given wait, or
/// reports the sending side gone. Which of the three happens depends on
/// the other thread, so nothing more is promised; the playback machine
/// handles every outcome.
#[verifier::external_body]
pub(crate) fn wait_for_signal(
    signals: &crossbeam_channel::Receiver<PlaybackSignal>,
    timeout_ms: u64,
) -> WaitOutcome {
    match signals.recv_timeout(core::time::Duration::from_millis(timeout_ms)) {
        Ok(signal) => WaitOutcome::Received(signal),
        Err(crossbeam_channel::RecvTimeoutError::Timeout) => WaitOutcome::TimedOut,
        Err(crossbeam_channel::RecvTimeoutError::Disconnected) => WaitOutcome::Disconnected,
    }
}

/// Relies on crossbeam_channel::Receiver::try_recv: without blocking it
/// yields a pending message, or says none is pending, or reports the
/// sending side gone.
#[verifier::external_body]
pub(crate) fn poll_shutdown(exit: &crossbeam_channel::Receiver<()>) -> ShutdownCheck {
    match exit.try_recv() {
        Ok(()) => ShutdownCheck::Requested,
        Err(crossbeam_channel::TryRecvError::Empty) => ShutdownCheck::NotRequested,
        Err(crossbeam_channel::TryRecvError::Disconnected) => ShutdownCheck::Disconnected,
    }
}

/// Relies on crossbeam_channel::Sender::send: on an unbounded channel it
/// never blocks, delivers the message and returns Ok unless the
/// receiving side is gone. Whether the peer is alive depends on the
/// other thread, so nothing is promised about the result.
#[verifier::external_body]
pub(crate) fn send_message<T>(sender: &crossbeam_channel::Sender<T>, message: T) -> (delivered:
    bool) {
    sender.send(message).is_ok()
}

} // verus!
