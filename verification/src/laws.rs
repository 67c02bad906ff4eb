//! The traversal laws of the playback machine, stated and proved over its
//! transition function.

use vstd::prelude::*;

use vstd::arithmetic::div_mod::lemma_fundamental_div_mod;
use vstd::arithmetic::div_mod::lemma_mod_bound;

use crate::TICK_MS;
use crate::SKIP_BACK_THRESHOLD_MS;
use crate::catalog::CatalogModel;
use crate::playback::PlayerModel;
use crate::track::TrackModel;
use crate::playback::StepAction;
use crate::playback::reset_clock;
use crate::playback::spec_complete;
use crate::playback::spec_dispatch;
use crate::playback::spec_step;
use crate::playback::with_current_repeats;
use crate::signal::PlaybackSignal;
use crate::signal::WaitOutcome;

verus! {

/// The state after consuming a sequence of wait outcomes, one step each.
pub open spec fn run_steps(m: PlayerModel, outcomes: Seq<WaitOutcome>) -> PlayerModel
    decreases outcomes.len(),
{
    if outcomes.len() == 0 {
        m
    } else {
        run_steps(spec_step(m, outcomes.first()).0, outcomes.drop_first())
    }
}

/// A run of quiet ticks: `n` waits that all time out with no signal.
pub open spec fn timeouts(n: int) -> Seq<WaitOutcome> {
    Seq::new(n as nat, |i: int| WaitOutcome::TimedOut)
}

/// How many quiet ticks one fresh, unpaused pass over a track of the
/// given duration takes until the repeat rule fires: at least one tick,
/// and otherwise the duration divided by the tick length, rounded up.
pub open spec fn ticks_per_pass(duration_ms: int) -> int {
    if duration_ms <= TICK_MS as int {
        1
    } else {
        (duration_ms + TICK_MS as int - 1) / (TICK_MS as int)
    }
}

/// Running a concatenation of outcome sequences is running one after the
/// other.
pub proof fn lemma_run_append(m: PlayerModel, a: Seq<WaitOutcome>, b: Seq<WaitOutcome>)
    ensures
        run_steps(m, a + b) == run_steps(run_steps(m, a), b),
    decreases a.len(),
{
    if a.len() == 0 {
        assert(a + b =~= b);
    } else {
        assert((a + b).first() == a.first());
        assert((a + b).drop_first() =~= a.drop_first() + b);
        lemma_run_append(spec_step(m, a.first()).0, a.drop_first(), b);
    }
}

/// One step of the machine preserves well-formedness.
pub proof fn lemma_step_preserves_wf(m: PlayerModel, outcome: WaitOutcome)
    requires
        m.wf(),
        !m.catalog.exhausted(),
    ensures
        spec_step(m, outcome).0.wf(),
{
    assert(m.catalog.tracks[m.catalog.index].wf());
    match outcome {
        WaitOutcome::TimedOut => {
            if !m.paused && m.elapsed_ms + TICK_MS as int >= m.catalog.current().duration_ms {
                lemma_complete_wf(m);
            }
        },
        WaitOutcome::Received(signal) => {
            lemma_dispatch_preserves_wf(m, signal);
        },
        WaitOutcome::Disconnected => {
            lemma_dispatch_preserves_wf(m, PlaybackSignal::Quit);
        },
    }
}

/// Dispatching one signal preserves well-formedness.
pub proof fn lemma_dispatch_preserves_wf(m: PlayerModel, signal: PlaybackSignal)
    requires
        m.wf(),
        !m.catalog.exhausted(),
    ensures
        spec_dispatch(m, signal).0.wf(),
{
    assert(m.catalog.tracks[m.catalog.index].wf());
    match signal {
        PlaybackSignal::SkipForward => {
            let forced = with_current_repeats(m, 0);
            assert forall|j: int| 0 <= j < forced.catalog.tracks.len() implies (
            #[trigger] forced.catalog.tracks[j]).wf() by {
                assert(m.catalog.tracks[j].wf());
            }
            lemma_complete_wf(forced);
        },
        PlaybackSignal::SkipBack => {
            if m.catalog.index > 0 {
                assert(m.catalog.tracks[m.catalog.index - 1].wf());
            }
        },
        _ => {},
    }
}

/// The repeat rule preserves well-formedness.
pub proof fn lemma_complete_wf(m: PlayerModel)
    requires
        m.wf(),
        !m.catalog.exhausted(),
    ensures
        spec_complete(m).0.wf(),
{
    assert(m.catalog.tracks[m.catalog.index].wf());
    let after = spec_complete(m).0;
    assert forall|j: int| 0 <= j < after.catalog.tracks.len() implies (
    #[trigger] after.catalog.tracks[j]).wf() by {
        assert(m.catalog.tracks[j].wf());
    }
    if !after.catalog.exhausted() {
        assert(after.catalog.tracks[after.catalog.index].wf());
    }
}

/// Bounds of the per-pass tick count: it is at least one, a pass's worth
/// of ticks covers the duration, and one tick fewer does not.
proof fn lemma_ticks_per_pass_bounds(duration_ms: int)
    requires
        0 <= duration_ms,
    ensures
        1 <= ticks_per_pass(duration_ms),
        duration_ms <= ticks_per_pass(duration_ms) * (TICK_MS as int),
        duration_ms > 0 ==> (ticks_per_pass(duration_ms) - 1) * (TICK_MS as int) < duration_ms,
{
    let t = TICK_MS as int;
    if duration_ms <= t {
        assert(ticks_per_pass(duration_ms) == 1);
    } else {
        let x = duration_ms + t - 1;
        let q = x / t;
        lemma_fundamental_div_mod(x, t);
        lemma_mod_bound(x, t);
        assert(x == t * q + x % t);
        assert(q * t == x - x % t) by (nonlinear_arith)
            requires
                x == t * q + x % t,
        ;
        assert((q - 1) * t == q * t - t) by (nonlinear_arith);
        assert(duration_ms <= q * t);
        assert((q - 1) * t < duration_ms);
    }
}

/// A run of quiet ticks that stays short of the track's duration only
/// advances the clock: each tick charges one full tick of elapsed time,
/// and nothing else changes.
pub proof fn lemma_quiet_ticks(m: PlayerModel, k: int)
    requires
        m.wf(),
        !m.catalog.exhausted(),
        !m.paused,
        0 <= k,
        k > 0 ==> m.elapsed_ms + k * (TICK_MS as int) < m.catalog.current().duration_ms,
    ensures
        run_steps(m, timeouts(k)) == (PlayerModel {
            catalog: m.catalog,
            elapsed_ms: m.elapsed_ms + k * (TICK_MS as int),
            paused: false,
        }),
    decreases k,
{
    let t = TICK_MS as int;
    if k == 0 {
        assert(timeouts(0).len() == 0);
        assert(m =~= (PlayerModel { catalog: m.catalog, elapsed_ms: m.elapsed_ms + 0 * t, paused: false }));
    } else {
        assert(t <= k * t) by (nonlinear_arith)
            requires
                1 <= k,
                t == TICK_MS as int,
        ;
        let m1 = spec_step(m, WaitOutcome::TimedOut).0;
        assert(m.elapsed_ms + t < m.catalog.current().duration_ms);
        assert(m1 == (PlayerModel { catalog: m.catalog, elapsed_ms: m.elapsed_ms + t, paused: false }));
        assert(m.catalog.tracks[m.catalog.index].wf());
        assert(m1.wf());
        assert((k - 1) * t == k * t - t) by (nonlinear_arith);
        assert(timeouts(k).first() == WaitOutcome::TimedOut);
        assert(timeouts(k).drop_first() =~= timeouts(k - 1));
        lemma_quiet_ticks(m1, k - 1);
    }
}

/// One fresh, unpaused pass: after exactly one pass's worth of quiet
/// ticks the repeat rule has fired, and not a tick earlier.
pub proof fn lemma_one_pass(m: PlayerModel)
    requires
        m.wf(),
        !m.catalog.exhausted(),
        !m.paused,
        m.elapsed_ms == 0,
    ensures
        run_steps(m, timeouts(ticks_per_pass(m.catalog.current().duration_ms))) == spec_complete(
            m,
        ).0,
{
    let t = TICK_MS as int;
    let d = m.catalog.current().duration_ms;
    let per = ticks_per_pass(d);
    assert(m.catalog.tracks[m.catalog.index].wf());
    lemma_ticks_per_pass_bounds(d);
    let m1 = PlayerModel { catalog: m.catalog, elapsed_ms: (per - 1) * t, paused: false };
    if per == 1 {
        assert(m =~= m1);
    } else {
        lemma_quiet_ticks(m, per - 1);
    }
    // The final tick reaches the duration and fires the repeat rule.
    assert((per - 1) * t + t == per * t) by (nonlinear_arith);
    let m2 = spec_step(m1, WaitOutcome::TimedOut).0;
    assert(m2 == spec_complete(m1).0);
    assert(spec_complete(m1).0 == spec_complete(m).0);
    assert(timeouts(per) =~= timeouts(per - 1) + timeouts(1));
    lemma_run_append(m, timeouts(per - 1), timeouts(1));
    assert(timeouts(1).first() == WaitOutcome::TimedOut);
    assert(timeouts(1).drop_first() =~= timeouts(0));
    assert(run_steps(m2, timeouts(0)) == m2);
    assert(run_steps(m1, timeouts(1)) == run_steps(
        spec_step(m1, timeouts(1).first()).0,
        timeouts(1).drop_first(),
    ));
    assert(run_steps(m1, timeouts(1)) == m2);
}

/// The state the repeat law ends in: the traversal stands one past the
/// track, the track's repeat counter is spent, and the clock is fresh.
pub open spec fn advanced_past_current(m: PlayerModel) -> PlayerModel {
    PlayerModel {
        catalog: CatalogModel {
            name: m.catalog.name,
            tracks: m.catalog.tracks.update(
                m.catalog.index,
                TrackModel {
                    name: m.catalog.current().name,
                    source: m.catalog.current().source,
                    duration_ms: m.catalog.current().duration_ms,
                    remaining_repeats: 0,
                },
            ),
            index: m.catalog.index + 1,
        },
        elapsed_ms: 0,
        paused: false,
    }
}

/// The repeat law: a track whose remaining repeat counter is `r` plays
/// exactly `r + 1` full passes before the traversal index advances by
/// one, when no signal interrupts. Not a single tick earlier does the
/// index change, and the run ends with that track's counter spent, the
/// rest of the catalog untouched, and a fresh clock.
pub proof fn lemma_repeat_law(m: PlayerModel, r: int)
    requires
        m.wf(),
        !m.catalog.exhausted(),
        !m.paused,
        m.elapsed_ms == 0,
        r == m.catalog.current().remaining_repeats,
    ensures
        run_steps(m, timeouts((r + 1) * ticks_per_pass(m.catalog.current().duration_ms)))
            == advanced_past_current(m),
        forall|k: int|
            0 <= k < (r + 1) * ticks_per_pass(m.catalog.current().duration_ms)
                ==> #[trigger] run_steps(m, timeouts(k)).catalog.index == m.catalog.index,
    decreases r,
{
    let t = TICK_MS as int;
    let d = m.catalog.current().duration_ms;
    let per = ticks_per_pass(d);
    let total = (r + 1) * per;
    assert(m.catalog.tracks[m.catalog.index].wf());
    lemma_ticks_per_pass_bounds(d);
    lemma_one_pass(m);
    lemma_complete_wf(m);
    let m1 = spec_complete(m).0;
    if r == 0 {
        assert(total == per) by (nonlinear_arith)
            requires
                total == (r + 1) * per,
                r == 0,
        ;
        assert(m1.catalog.index == m.catalog.index + 1);
        assert(m.catalog.tracks =~= advanced_past_current(m).catalog.tracks);
        assert(m1 =~= advanced_past_current(m));
        assert forall|k: int| 0 <= k < total implies #[trigger] run_steps(
            m,
            timeouts(k),
        ).catalog.index == m.catalog.index by {
            lemma_quiet_within_pass(m, k);
        }
    } else {
        // One pass consumes a repeat and replays the same track.
        assert(m1.catalog.index == m.catalog.index);
        assert(!m1.catalog.exhausted());
        assert(m1.catalog.current().duration_ms == d);
        assert(m1.catalog.current().remaining_repeats == r - 1);
        assert(m1.elapsed_ms == 0 && !m1.paused);
        lemma_repeat_law(m1, r - 1);
        assert(total == per + r * per) by (nonlinear_arith)
            requires
                total == (r + 1) * per,
        ;
        assert(timeouts(total) =~= timeouts(per) + timeouts(r * per));
        lemma_run_append(m, timeouts(per), timeouts(r * per));
        assert(run_steps(m, timeouts(total)) == advanced_past_current(m1)) by {
            assert((r - 1) + 1 == r);
        }
        assert(advanced_past_current(m1).catalog.tracks =~= advanced_past_current(
            m,
        ).catalog.tracks);
        assert(advanced_past_current(m1) =~= advanced_past_current(m));
        assert forall|k: int| 0 <= k < total implies #[trigger] run_steps(
            m,
            timeouts(k),
        ).catalog.index == m.catalog.index by {
            if k < per {
                lemma_quiet_within_pass(m, k);
            } else {
                assert(timeouts(k) =~= timeouts(per) + timeouts(k - per));
                lemma_run_append(m, timeouts(per), timeouts(k - per));
                assert(0 <= k - per < r * per);
                assert(run_steps(m1, timeouts(k - per)).catalog.index == m1.catalog.index);
            }
        }
    }
}

/// Strictly inside one fresh pass the traversal index stands still.
proof fn lemma_quiet_within_pass(m: PlayerModel, k: int)
    requires
        m.wf(),
        !m.catalog.exhausted(),
        !m.paused,
        m.elapsed_ms == 0,
        0 <= k < ticks_per_pass(m.catalog.current().duration_ms),
    ensures
        run_steps(m, timeouts(k)).catalog.index == m.catalog.index,
{
    let t = TICK_MS as int;
    let d = m.catalog.current().duration_ms;
    let per = ticks_per_pass(d);
    assert(m.catalog.tracks[m.catalog.index].wf());
    lemma_ticks_per_pass_bounds(d);
    if k > 0 {
        // Inside the pass: k <= per - 1, so k ticks stay short of the duration.
        assert(k * t <= (per - 1) * t) by (nonlinear_arith)
            requires
                k <= per - 1,
                t > 0,
        ;
        assert((per - 1) * t < d);
        lemma_quiet_ticks(m, k);
    }
}

/// Skip-forward idempotence: a received skip-forward always advances the
/// traversal index by exactly one and leaves that track's repeat counter
/// at zero, whatever the counter held before; other tracks and the order
/// are untouched, and the clock resets for the next track.
pub proof fn lemma_skip_forward(m: PlayerModel)
    requires
        m.wf(),
        !m.catalog.exhausted(),
    ensures
        ({
            let (after, action) = spec_dispatch(m, PlaybackSignal::SkipForward);
            &&& after.catalog.index == m.catalog.index + 1
            &&& after.catalog.tracks.len() == m.catalog.tracks.len()
            &&& after.catalog.tracks[m.catalog.index].remaining_repeats == 0
            &&& after.catalog.tracks[m.catalog.index].name == m.catalog.current().name
            &&& forall|j: int|
                0 <= j < m.catalog.tracks.len() && j != m.catalog.index
                    ==> after.catalog.tracks[j] == m.catalog.tracks[j]
            &&& after.elapsed_ms == 0
            &&& after.paused == false
            &&& action == StepAction::ChangeTrack
        }),
{
}

/// The skip-back threshold: within the threshold on a non-first track the
/// traversal moves back one track and the clock resets; at any other
/// point the index stands and the current track restarts from zero. On
/// the first track the index never changes.
pub proof fn lemma_skip_back_threshold(m: PlayerModel)
    requires
        m.wf(),
        !m.catalog.exhausted(),
    ensures
        ({
            let (after, action) = spec_dispatch(m, PlaybackSignal::SkipBack);
            &&& (m.catalog.index > 0 && m.elapsed_ms <= SKIP_BACK_THRESHOLD_MS as int) ==> {
                &&& after.catalog.index == m.catalog.index - 1
                &&& after.catalog.tracks == m.catalog.tracks
                &&& after.elapsed_ms == 0
                &&& after.paused == false
                &&& action == StepAction::ChangeTrack
            }
            &&& !(m.catalog.index > 0 && m.elapsed_ms <= SKIP_BACK_THRESHOLD_MS as int) ==> {
                &&& after == reset_clock(m)
                &&& after.catalog.index == m.catalog.index
                &&& action == StepAction::Restart
            }
            &&& m.catalog.index == 0 ==> after.catalog.index == 0
        }),
{
}

/// The tick bound: a toggle-pause observed at a tick boundary flips the
/// paused flag exactly once and charges no elapsed time, and a quiet tick
/// while paused charges none either: elapsed time never advances while
/// playback is paused.
pub proof fn lemma_tick_bound(m: PlayerModel)
    requires
        m.wf(),
        !m.catalog.exhausted(),
    ensures
        ({
            let (after, action) = spec_dispatch(m, PlaybackSignal::TogglePause);
            &&& after.paused == !m.paused
            &&& after.elapsed_ms == m.elapsed_ms
            &&& after.catalog == m.catalog
            &&& action == (if m.paused {
                StepAction::Resume
            } else {
                StepAction::Pause
            })
        }),
        m.paused ==> spec_step(m, WaitOutcome::TimedOut) == (m, StepAction::Continue),
{
}

/// Shutdown convergence: a received quit makes the machine leave the
/// whole queue in that very step, and a disconnected signal channel is
/// treated identically, so the playback loop exits within one tick of
/// either.
pub proof fn lemma_shutdown_convergence(m: PlayerModel)
    requires
        m.wf(),
        !m.catalog.exhausted(),
    ensures
        spec_step(m, WaitOutcome::Received(PlaybackSignal::Quit)) == (
            reset_clock(m),
            StepAction::LeaveQueue,
        ),
        spec_step(m, WaitOutcome::Disconnected) == spec_step(
            m,
            WaitOutcome::Received(PlaybackSignal::Quit),
        ),
{
}

} // verus!

