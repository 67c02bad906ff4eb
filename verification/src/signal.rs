//! Control messages exchanged between the input listener and the playback
//! loop, and the fixed key table that produces them.

use vstd::prelude::*;

verus! {

/// A control message sent by the input listener and consumed by the
/// playback loop.
#[derive(Clone, Copy, Debug, PartialEq, Eq, Structural)]
pub enum PlaybackSignal {
    /// Unwind out of the current track, playlist and the whole queue.
    Quit,
    /// Unwind out of the current track and playlist only.
    AbandonPlaylist,
    /// Treat the current track as finished at once, with its repeat
    /// counter forced to zero.
    SkipForward,
    /// Move to the previous track, or restart the current one, depending
    /// on the elapsed-time threshold.
    SkipBack,
    /// Flip the paused flag.
    TogglePause,
}

/// What one bounded wait on the signal channel produced.
#[derive(Clone, Copy, Debug, PartialEq, Eq, Structural)]
pub enum WaitOutcome {
    /// The tick elapsed with no signal pending.
    TimedOut,
    /// A signal arrived within the tick.
    Received(PlaybackSignal),
    /// The sending side is gone; treated exactly like `Quit`.
    Disconnected,
}

/// The fixed key table of the control surface:
/// `q` quit, `a` abandon the current playlist, `n` skip forward,
/// `b` skip back, space toggle pause. Every other key is ignored.
pub fn signal_for_key(key: char) -> (signal: Option<PlaybackSignal>)
    ensures
        signal == spec_signal_for_key(key),
{
    match key {
        'q' => Some(PlaybackSignal::Quit),
        'a' => Some(PlaybackSignal::AbandonPlaylist),
        'n' => Some(PlaybackSignal::SkipForward),
        'b' => Some(PlaybackSignal::SkipBack),
        ' ' => Some(PlaybackSignal::TogglePause),
        _ => None,
    }
}

/// The key table as a mathematical function.
pub open spec fn spec_signal_for_key(key: char) -> Option<PlaybackSignal> {
    if key == 'q' {
        Some(PlaybackSignal::Quit)
    } else if key == 'a' {
        Some(PlaybackSignal::AbandonPlaylist)
    } else if key == 'n' {
        Some(PlaybackSignal::SkipForward)
    } else if key == 'b' {
        Some(PlaybackSignal::SkipBack)
    } else if key == ' ' {
        Some(PlaybackSignal::TogglePause)
    } else {
        None
    }
}

} // verus!
