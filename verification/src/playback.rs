//! The playback state machine: per-track timing and pause state, the
//! repeat rule, the skip rules, and the dispatch of control signals.
//!
//! The machine is pure: one call of [`step`] consumes the outcome of one
//! bounded wait on the signal channel and returns the action the caller
//! must perform on the audio device (pause, resume, rewind, change track)
//! or the scope it must leave (playlist, queue).

use vstd::prelude::*;

use crate::TICK_MS;
use crate::SKIP_BACK_THRESHOLD_MS;
use crate::catalog::Catalog;
use crate::catalog::CatalogModel;
use crate::signal::PlaybackSignal;
use crate::signal::WaitOutcome;
use crate::track::TrackModel;

verus! {

/// Accumulated playback time of the current track attempt, and whether
/// playback is paused. Both reset whenever the track restarts or the
/// traversal moves to a different track.
pub struct ElapsedState {
    pub elapsed_ms: u64,
    pub paused: bool,
}

/// The playback loop's whole state for one playlist: the catalog with its
/// traversal position, and the clock of the current track attempt.
pub struct Player {
    pub catalog: Catalog,
    pub clock: ElapsedState,
}

/// The mathematical content of a [`Player`].
#[verifier::ext_equal]
pub ghost struct PlayerModel {
    pub catalog: CatalogModel,
    pub elapsed_ms: int,
    pub paused: bool,
}

impl View for Player {
    type V = PlayerModel;

    open spec fn view(&self) -> PlayerModel {
        PlayerModel {
            catalog: self.catalog@,
            elapsed_ms: self.clock.elapsed_ms as int,
            paused: self.clock.paused,
        }
    }
}

impl PlayerModel {
    /// The catalog is well formed and, while a track is current, elapsed
    /// time never exceeds its duration (so one more tick cannot overflow
    /// the clock).
    pub open spec fn wf(self) -> bool {
        &&& self.catalog.wf()
        &&& 0 <= self.elapsed_ms
        &&& !self.catalog.exhausted() ==> self.elapsed_ms <= self.catalog.current().duration_ms
    }
}

/// What the caller must do after one step of the machine.
#[derive(Clone, Copy, Debug, PartialEq, Eq, Structural)]
pub enum StepAction {
    /// Nothing: wait out the next tick.
    Continue,
    /// Pause the audio device.
    Pause,
    /// Resume the audio device.
    Resume,
    /// The same track plays again from the beginning: rewind its stream.
    Restart,
    /// The traversal moved to a different position: rewind the old
    /// stream and, unless the catalog is exhausted, start the track the
    /// traversal now stands on.
    ChangeTrack,
    /// Leave this playlist; the queue goes on.
    LeavePlaylist,
    /// Leave the playlist and the whole queue: begin shutdown.
    LeaveQueue,
}

/// The state with the clock reset: elapsed time zero, not paused.
pub open spec fn reset_clock(m: PlayerModel) -> PlayerModel {
    PlayerModel { catalog: m.catalog, elapsed_ms: 0, paused: false }
}

/// The state with the current track's remaining repeat counter replaced.
pub open spec fn with_current_repeats(m: PlayerModel, repeats: int) -> PlayerModel {
    let track = m.catalog.current();
    PlayerModel {
        catalog: CatalogModel {
            name: m.catalog.name,
            tracks: m.catalog.tracks.update(
                m.catalog.index,
                TrackModel {
                    name: track.name,
                    source: track.source,
                    duration_ms: track.duration_ms,
                    remaining_repeats: repeats,
                },
            ),
            index: m.catalog.index,
        },
        elapsed_ms: m.elapsed_ms,
        paused: m.paused,
    }
}

/// The repeat rule, applied when the current track counts as finished:
/// with no repeats left the traversal advances by one; otherwise one
/// repeat is consumed and the same track plays again from the start. The
/// clock resets either way.
pub open spec fn spec_complete(m: PlayerModel) -> (PlayerModel, StepAction)
    recommends
        m.wf(),
        !m.catalog.exhausted(),
{
    let track = m.catalog.current();
    if track.remaining_repeats == 0 {
        (
            PlayerModel {
                catalog: CatalogModel {
                    name: m.catalog.name,
                    tracks: m.catalog.tracks,
                    index: m.catalog.index + 1,
                },
                elapsed_ms: 0,
                paused: false,
            },
            StepAction::ChangeTrack,
        )
    } else {
        (reset_clock(with_current_repeats(m, track.remaining_repeats - 1)), StepAction::Restart)
    }
}

/// One tick elapsing with no signal: paused playback charges nothing;
/// otherwise the clock advances by a full tick and, once it reaches the
/// track's duration, the repeat rule fires.
pub open spec fn spec_tick(m: PlayerModel) -> (PlayerModel, StepAction)
    recommends
        m.wf(),
        !m.catalog.exhausted(),
{
    if m.paused {
        (m, StepAction::Continue)
    } else {
        let advanced = m.elapsed_ms + TICK_MS as int;
        if advanced >= m.catalog.current().duration_ms {
            spec_complete(m)
        } else {
            (
                PlayerModel { catalog: m.catalog, elapsed_ms: advanced, paused: m.paused },
                StepAction::Continue,
            )
        }
    }
}

/// Dispatch of one received signal. A track reached again by a
/// skip-back resumes with whatever repeat counter it last had: re-entry
/// deliberately does not replenish it.
pub open spec fn spec_dispatch(m: PlayerModel, signal: PlaybackSignal) -> (PlayerModel, StepAction)
    recommends
        m.wf(),
        !m.catalog.exhausted(),
{
    match signal {
        PlaybackSignal::Quit => (reset_clock(m), StepAction::LeaveQueue),
        PlaybackSignal::AbandonPlaylist => (reset_clock(m), StepAction::LeavePlaylist),
        PlaybackSignal::SkipForward => spec_complete(with_current_repeats(m, 0)),
        PlaybackSignal::SkipBack => {
            if m.catalog.index > 0 && m.elapsed_ms <= SKIP_BACK_THRESHOLD_MS as int {
                (
                    PlayerModel {
                        catalog: CatalogModel {
                            name: m.catalog.name,
                            tracks: m.catalog.tracks,
                            index: m.catalog.index - 1,
                        },
                        elapsed_ms: 0,
                        paused: false,
                    },
                    StepAction::ChangeTrack,
                )
            } else {
                (reset_clock(m), StepAction::Restart)
            }
        },
        PlaybackSignal::TogglePause => (
            PlayerModel { catalog: m.catalog, elapsed_ms: m.elapsed_ms, paused: !m.paused },
            if m.paused {
                StepAction::Resume
            } else {
                StepAction::Pause
            },
        ),
    }
}

/// One full step of the machine on the outcome of one bounded wait. A
/// disconnected channel is treated exactly like a received `Quit`.
pub open spec fn spec_step(m: PlayerModel, outcome: WaitOutcome) -> (PlayerModel, StepAction)
    recommends
        m.wf(),
        !m.catalog.exhausted(),
{
    match outcome {
        WaitOutcome::TimedOut => spec_tick(m),
        WaitOutcome::Received(signal) => spec_dispatch(m, signal),
        WaitOutcome::Disconnected => spec_dispatch(m, PlaybackSignal::Quit),
    }
}

impl Player {
    /// A player at the start of a playlist: the catalog as built, the
    /// clock at zero and not paused.
    pub fn new(catalog: Catalog) -> (player: Player)
        ensures
            player@ == (PlayerModel { catalog: catalog@, elapsed_ms: 0, paused: false }),
            catalog@.wf() ==> player@.wf(),
    {
        Player { catalog, clock: ElapsedState { elapsed_ms: 0, paused: false } }
    }
}

/// Applies the repeat rule to the current track, which counts as
/// finished.
fn complete_current(player: &mut Player) -> (action: StepAction)
    requires
        old(player)@.wf(),
        !old(player)@.catalog.exhausted(),
    ensures
        final(player)@ == spec_complete(old(player)@).0,
        action == spec_complete(old(player)@).1,
        final(player)@.wf(),
{
    let i = player.catalog.index;
    let track_count = player.catalog.tracks.len();
    proof {
        assert(i < track_count);
        assert(old(player)@.catalog.tracks[i as int].wf());
    }
    if player.catalog.tracks[i].remaining_repeats == 0 {
        player.catalog.index = i + 1;
        player.clock.elapsed_ms = 0;
        player.clock.paused = false;
        proof {
            assert(player@ =~= spec_complete(old(player)@).0);
            assert(player@.catalog.exhausted() || player@.catalog.tracks[player@.catalog.index].wf());
        }
        StepAction::ChangeTrack
    } else {
        let repeats = player.catalog.tracks[i].remaining_repeats;
        player.catalog.tracks[i].remaining_repeats = repeats - 1;
        player.clock.elapsed_ms = 0;
        player.clock.paused = false;
        proof {
            assert(crate::catalog::track_models(player.catalog.tracks@) =~= spec_complete(
                old(player)@,
            ).0.catalog.tracks);
            assert(player@ =~= spec_complete(old(player)@).0);
            assert forall|j: int| 0 <= j < player@.catalog.tracks.len() implies (
            #[trigger] player@.catalog.tracks[j]).wf() by {
                assert(old(player)@.catalog.tracks[j].wf());
            }
        }
        StepAction::Restart
    }
}

/// Applies one received signal to the player.
fn dispatch(player: &mut Player, signal: PlaybackSignal) -> (action: StepAction)
    requires
        old(player)@.wf(),
        !old(player)@.catalog.exhausted(),
    ensures
        final(player)@ == spec_dispatch(old(player)@, signal).0,
        action == spec_dispatch(old(player)@, signal).1,
        final(player)@.wf(),
{
    match signal {
        PlaybackSignal::Quit => {
            player.clock.elapsed_ms = 0;
            player.clock.paused = false;
            StepAction::LeaveQueue
        },
        PlaybackSignal::AbandonPlaylist => {
            player.clock.elapsed_ms = 0;
            player.clock.paused = false;
            StepAction::LeavePlaylist
        },
        PlaybackSignal::SkipForward => {
            let i = player.catalog.index;
            player.catalog.tracks[i].remaining_repeats = 0;
            proof {
                assert(crate::catalog::track_models(player.catalog.tracks@)
                    =~= with_current_repeats(old(player)@, 0).catalog.tracks);
                assert(player@ =~= with_current_repeats(old(player)@, 0));
                assert(old(player)@.catalog.tracks[i as int].wf());
                assert forall|j: int| 0 <= j < player@.catalog.tracks.len() implies (
                #[trigger] player@.catalog.tracks[j]).wf() by {
                    assert(old(player)@.catalog.tracks[j].wf());
                }
            }
            complete_current(player)
        },
        PlaybackSignal::SkipBack => {
            let within_threshold = player.clock.elapsed_ms <= SKIP_BACK_THRESHOLD_MS;
            if player.catalog.index > 0 && within_threshold {
                player.catalog.index = player.catalog.index - 1;
                player.clock.elapsed_ms = 0;
                player.clock.paused = false;
                proof {
                    assert(player@ =~= spec_dispatch(old(player)@, signal).0);
                }
                StepAction::ChangeTrack
            } else {
                player.clock.elapsed_ms = 0;
                player.clock.paused = false;
                StepAction::Restart
            }
        },
        PlaybackSignal::TogglePause => {
            let was_paused = player.clock.paused;
            player.clock.paused = !was_paused;
            if was_paused {
                StepAction::Resume
            } else {
                StepAction::Pause
            }
        },
    }
}

/// One step of the playback machine: consumes the outcome of one bounded
/// wait on the signal channel and returns what the caller must do. The
/// caller guarantees a track is current; the machine guarantees the new
/// state is exactly the one the transition function gives, and stays well
/// formed.
pub fn step(player: &mut Player, outcome: WaitOutcome) -> (action: StepAction)
    requires
        old(player)@.wf(),
        !old(player)@.catalog.exhausted(),
    ensures
        final(player)@ == spec_step(old(player)@, outcome).0,
        action == spec_step(old(player)@, outcome).1,
        final(player)@.wf(),
{
    match outcome {
        WaitOutcome::TimedOut => {
            if player.clock.paused {
                StepAction::Continue
            } else {
                let i = player.catalog.index;
                let duration = player.catalog.tracks[i].duration_ms;
                proof {
                    assert(old(player)@.catalog.tracks[i as int].wf());
                }
                let advanced = player.clock.elapsed_ms + TICK_MS;
                if advanced >= duration {
                    complete_current(player)
                } else {
                    player.clock.elapsed_ms = advanced;
                    StepAction::Continue
                }
            }
        },
        WaitOutcome::Received(signal) => dispatch(player, signal),
        WaitOutcome::Disconnected => {
            player.clock.elapsed_ms = 0;
            player.clock.paused = false;
            StepAction::LeaveQueue
        },
    }
}

/// One tick of the playback loop: wait at most one tick for a signal,
/// then step the machine on whatever the wait produced. The wait's
/// outcome is returned with the action, and whatever arrived — a signal,
/// a quiet timeout, a dead channel — the state moves exactly as the
/// transition function says for that outcome.
pub fn playback_tick(
    player: &mut Player,
    signals: &crossbeam_channel::Receiver<PlaybackSignal>,
) -> (result: (WaitOutcome, StepAction))
    requires
        old(player)@.wf(),
        !old(player)@.catalog.exhausted(),
    ensures
        final(player)@ == spec_step(old(player)@, result.0).0,
        result.1 == spec_step(old(player)@, result.0).1,
        final(player)@.wf(),
{
    let outcome = crate::channel::wait_for_signal(signals, TICK_MS);
    let action = step(player, outcome);
    (outcome, action)
}

} // verus!
