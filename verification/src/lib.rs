//! Playback control core for a terminal playlist player.
//!
//! The library owns the logic of sequential playback: the signal protocol
//! between the keyboard listener and the playback loop, the per-track
//! timing and pause state machine, the track traversal rules (repeat
//! counts, the skip-back threshold), catalog construction and the session
//! lifecycle. Terminal, audio-device and file work stays outside, feeding
//! the library plain values and acting on the decisions it returns.

use vstd::prelude::*;

pub mod catalog;
pub mod channel;
pub mod diag;
pub mod laws;
pub mod listener;
pub mod playback;
pub mod playlist;
pub mod session;
pub mod shuffle;
pub mod signal;
pub mod track;

pub use catalog::Catalog;
pub use catalog::LoadReport;
pub use channel::ShutdownCheck;
pub use diag::Diagnostic;
pub use listener::ListenerAct;
pub use listener::listener_cycle;
pub use listener::listener_decide;
pub use playback::ElapsedState;
pub use playback::Player;
pub use playback::StepAction;
pub use playback::playback_tick;
pub use playback::step;
pub use playlist::LineContent;
pub use playlist::LineFault;
pub use playlist::ParseFault;
pub use playlist::classify_line;
pub use playlist::parse_playlist;
pub use session::SessionLifecycle;
pub use session::SessionPhase;
pub use shuffle::Rng;
pub use shuffle::shuffled;
pub use signal::PlaybackSignal;
pub use signal::WaitOutcome;
pub use signal::signal_for_key;
pub use track::LoadedTrack;
pub use track::TrackDescriptor;

verus! {

/// Length of one scheduling tick in milliseconds: the playback loop waits
/// at most this long for a signal before charging elapsed time, and the
/// listener polls the terminal on the same cadence.
pub const TICK_MS: u64 = 250;

/// A skip-back received while elapsed time is at or under this bound (and
/// the current track is not the first) moves to the previous track;
/// otherwise it restarts the current track.
pub const SKIP_BACK_THRESHOLD_MS: u64 = 1000;

} // verus!
