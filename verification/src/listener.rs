//! The input listener's decision logic: one cycle of the background
//! actor that turns key events into playback signals.

use vstd::prelude::*;

use crate::channel::ShutdownCheck;
use crate::channel::poll_shutdown;
use crate::channel::send_message;
use crate::signal::PlaybackSignal;
use crate::signal::signal_for_key;
use crate::signal::spec_signal_for_key;

verus! {

/// What the listener does in one cycle.
#[derive(Clone, Copy, Debug, PartialEq, Eq, Structural)]
pub enum ListenerAct {
    /// Nothing to do: poll again next cycle.
    Idle,
    /// Publish this signal and keep listening.
    Publish(PlaybackSignal),
    /// Publish this final signal and terminate.
    PublishAndStop(PlaybackSignal),
    /// Terminate without sending anything further.
    Stop,
}

/// The listener's decision for one cycle: a pending stop request (or a
/// dead exit channel) means immediate termination with no further
/// signal; otherwise a recognized key maps to its signal, the quit key
/// to a final quit followed by termination, and everything else is
/// ignored.
pub open spec fn spec_listener_act(check: ShutdownCheck, key: Option<char>) -> ListenerAct {
    match check {
        ShutdownCheck::Requested => ListenerAct::Stop,
        ShutdownCheck::Disconnected => ListenerAct::Stop,
        ShutdownCheck::NotRequested => match key {
            None => ListenerAct::Idle,
            Some(k) => match spec_signal_for_key(k) {
                None => ListenerAct::Idle,
                Some(PlaybackSignal::Quit) => ListenerAct::PublishAndStop(PlaybackSignal::Quit),
                Some(signal) => ListenerAct::Publish(signal),
            },
        },
    }
}

/// Decides one listener cycle from the shutdown check and the key event,
/// exactly as [`spec_listener_act`] says.
pub fn listener_decide(check: ShutdownCheck, key: Option<char>) -> (act: ListenerAct)
    ensures
        act == spec_listener_act(check, key),
{
    match check {
        ShutdownCheck::Requested => ListenerAct::Stop,
        ShutdownCheck::Disconnected => ListenerAct::Stop,
        ShutdownCheck::NotRequested => match key {
            None => ListenerAct::Idle,
            Some(k) => match signal_for_key(k) {
                None => ListenerAct::Idle,
                Some(PlaybackSignal::Quit) => ListenerAct::PublishAndStop(PlaybackSignal::Quit),
                Some(signal) => ListenerAct::Publish(signal),
            },
        },
    }
}

/// The listener's side of shutdown convergence: a pending stop request,
/// or a dead exit channel, ends the listener within the very cycle that
/// observes it, whatever key arrived, and nothing further is sent.
pub proof fn lemma_listener_stops_on_shutdown(key: Option<char>)
    ensures
        spec_listener_act(ShutdownCheck::Requested, key) == ListenerAct::Stop,
        spec_listener_act(ShutdownCheck::Disconnected, key) == ListenerAct::Stop,
{
}

/// One full cycle of the listener: check the exit channel, decide, and
/// publish whatever the decision asks for. Returns whether the listener
/// must terminate. A failed publication means the playback loop is gone,
/// which fails safe toward termination; the quit key terminates the
/// listener whatever the channels' state.
pub fn listener_cycle(
    exit: &crossbeam_channel::Receiver<()>,
    signals: &crossbeam_channel::Sender<PlaybackSignal>,
    key: Option<char>,
) -> (stopped: bool)
    ensures
        (match key {
            Some(k) => spec_signal_for_key(k) == Some(PlaybackSignal::Quit),
            None => false,
        }) ==> stopped,
{
    let check = poll_shutdown(exit);
    match listener_decide(check, key) {
        ListenerAct::Idle => false,
        ListenerAct::Stop => true,
        ListenerAct::Publish(signal) => {
            let delivered = send_message(signals, signal);
            !delivered
        },
        ListenerAct::PublishAndStop(signal) => {
            let _ = send_message(signals, signal);
            true
        },
    }
}

} // verus!
