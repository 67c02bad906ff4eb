use quing::Catalog;
use quing::ListenerAct;
use quing::LoadedTrack;
use quing::PlaybackSignal;
use quing::Player;
use quing::SessionLifecycle;
use quing::SessionPhase;
use quing::ShutdownCheck;
use quing::StepAction;
use quing::WaitOutcome;
use quing::listener_cycle;
use quing::listener_decide;
use quing::playback_tick;
use quing::signal_for_key;

#[test]
fn key_table_is_fixed() {
    assert_eq!(signal_for_key('q'), Some(PlaybackSignal::Quit));
    assert_eq!(signal_for_key('a'), Some(PlaybackSignal::AbandonPlaylist));
    assert_eq!(signal_for_key('n'), Some(PlaybackSignal::SkipForward));
    assert_eq!(signal_for_key('b'), Some(PlaybackSignal::SkipBack));
    assert_eq!(signal_for_key(' '), Some(PlaybackSignal::TogglePause));
    assert_eq!(signal_for_key('x'), None);
    assert_eq!(signal_for_key('Q'), None);
}

#[test]
fn listener_decision_table() {
    // A pending or failed shutdown check wins over any key.
    assert_eq!(listener_decide(ShutdownCheck::Requested, Some('n')), ListenerAct::Stop);
    assert_eq!(listener_decide(ShutdownCheck::Disconnected, None), ListenerAct::Stop);
    // The quit key produces a final quit and terminates.
    assert_eq!(
        listener_decide(ShutdownCheck::NotRequested, Some('q')),
        ListenerAct::PublishAndStop(PlaybackSignal::Quit)
    );
    // Other recognized keys publish and keep listening.
    assert_eq!(
        listener_decide(ShutdownCheck::NotRequested, Some('b')),
        ListenerAct::Publish(PlaybackSignal::SkipBack)
    );
    // Unrecognized keys and quiet polls are ignored.
    assert_eq!(listener_decide(ShutdownCheck::NotRequested, Some('z')), ListenerAct::Idle);
    assert_eq!(listener_decide(ShutdownCheck::NotRequested, None), ListenerAct::Idle);
}

#[test]
fn listener_cycle_publishes_signals() {
    let (signal_tx, signal_rx) = crossbeam_channel::unbounded::<PlaybackSignal>();
    let (_exit_tx, exit_rx) = crossbeam_channel::unbounded::<()>();
    let stopped = listener_cycle(&exit_rx, &signal_tx, Some('n'));
    assert!(!stopped);
    assert_eq!(signal_rx.try_recv(), Ok(PlaybackSignal::SkipForward));
    assert!(signal_rx.try_recv().is_err());
}

#[test]
fn listener_cycle_quit_key_sends_final_quit_and_stops() {
    let (signal_tx, signal_rx) = crossbeam_channel::unbounded::<PlaybackSignal>();
    let (_exit_tx, exit_rx) = crossbeam_channel::unbounded::<()>();
    let stopped = listener_cycle(&exit_rx, &signal_tx, Some('q'));
    assert!(stopped);
    assert_eq!(signal_rx.try_recv(), Ok(PlaybackSignal::Quit));
}

#[test]
fn listener_cycle_stops_on_shutdown_request_without_sending() {
    let (signal_tx, signal_rx) = crossbeam_channel::unbounded::<PlaybackSignal>();
    let (exit_tx, exit_rx) = crossbeam_channel::unbounded::<()>();
    exit_tx.send(()).unwrap();
    let stopped = listener_cycle(&exit_rx, &signal_tx, Some('n'));
    assert!(stopped);
    assert!(signal_rx.try_recv().is_err());
}

#[test]
fn listener_cycle_treats_dead_exit_channel_as_shutdown() {
    let (signal_tx, _signal_rx) = crossbeam_channel::unbounded::<PlaybackSignal>();
    let (exit_tx, exit_rx) = crossbeam_channel::unbounded::<()>();
    drop(exit_tx);
    let stopped = listener_cycle(&exit_rx, &signal_tx, None);
    assert!(stopped);
}

#[test]
fn listener_cycle_stops_when_playback_side_is_gone() {
    let (signal_tx, signal_rx) = crossbeam_channel::unbounded::<PlaybackSignal>();
    let (_exit_tx, exit_rx) = crossbeam_channel::unbounded::<()>();
    drop(signal_rx);
    let stopped = listener_cycle(&exit_rx, &signal_tx, Some('b'));
    assert!(stopped);
}

fn one_track_player() -> Player {
    Player::new(Catalog {
        name: None,
        tracks: vec![LoadedTrack::new(String::from("a"), String::from("a.flac"), 5000, 0)],
        index: 0,
    })
}

#[test]
fn playback_tick_consumes_a_pending_signal() {
    let (signal_tx, signal_rx) = crossbeam_channel::unbounded::<PlaybackSignal>();
    signal_tx.send(PlaybackSignal::TogglePause).unwrap();
    let mut player = one_track_player();
    let (outcome, action) = playback_tick(&mut player, &signal_rx);
    assert_eq!(outcome, WaitOutcome::Received(PlaybackSignal::TogglePause));
    assert_eq!(action, StepAction::Pause);
    assert!(player.clock.paused);
    assert_eq!(player.clock.elapsed_ms, 0);
}

#[test]
fn playback_tick_times_out_quietly_and_charges_one_tick() {
    let (_signal_tx, signal_rx) = crossbeam_channel::unbounded::<PlaybackSignal>();
    let mut player = one_track_player();
    let (outcome, action) = playback_tick(&mut player, &signal_rx);
    assert_eq!(outcome, WaitOutcome::TimedOut);
    assert_eq!(action, StepAction::Continue);
    assert_eq!(player.clock.elapsed_ms, 250);
}

#[test]
fn playback_tick_treats_dead_channel_as_quit() {
    let (signal_tx, signal_rx) = crossbeam_channel::unbounded::<PlaybackSignal>();
    drop(signal_tx);
    let mut player = one_track_player();
    let (outcome, action) = playback_tick(&mut player, &signal_rx);
    assert_eq!(outcome, WaitOutcome::Disconnected);
    assert_eq!(action, StepAction::LeaveQueue);
}

#[test]
fn session_is_created_once_and_closed_once() {
    let (exit_tx, exit_rx) = crossbeam_channel::unbounded::<()>();
    let mut lifecycle = SessionLifecycle::new();
    assert_eq!(lifecycle.phase, SessionPhase::Dormant);
    assert!(lifecycle.acquire());
    assert!(!lifecycle.acquire());
    assert!(!lifecycle.acquire());
    assert_eq!(lifecycle.phase, SessionPhase::Active);
    assert!(lifecycle.close(&exit_tx));
    assert_eq!(exit_rx.try_recv(), Ok(()));
    assert_eq!(lifecycle.phase, SessionPhase::Closed);
    assert!(!lifecycle.close(&exit_tx));
    assert!(exit_rx.try_recv().is_err());
}

#[test]
fn session_never_used_tears_down_nothing() {
    let (exit_tx, exit_rx) = crossbeam_channel::unbounded::<()>();
    let mut lifecycle = SessionLifecycle::new();
    assert!(!lifecycle.close(&exit_tx));
    assert!(exit_rx.try_recv().is_err());
}
