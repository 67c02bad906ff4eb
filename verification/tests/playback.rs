use quing::Catalog;
use quing::LoadReport;
use quing::LoadedTrack;
use quing::PlaybackSignal;
use quing::Player;
use quing::StepAction;
use quing::WaitOutcome;
use quing::step;

fn track(name: &str, duration_ms: u64, repeats: i64) -> LoadedTrack {
    LoadedTrack::new(String::from(name), format!("{name}.flac"), duration_ms, repeats)
}

fn player_of(tracks: Vec<LoadedTrack>) -> Player {
    Player::new(Catalog { name: None, tracks, index: 0 })
}

#[test]
fn three_tracks_play_in_order_with_repeats() {
    // Repeat counts [0, 1, 0], durations [2s, 1s, 3s]: with no input the
    // play order is track 0 once, track 1 twice, track 2 once.
    let mut player = player_of(vec![
        track("a", 2000, 0),
        track("b", 1000, 1),
        track("c", 3000, 0),
    ]);
    let mut passes: Vec<usize> = vec![0, 0, 0];
    let mut ticks = 0;
    passes[0] += 1;
    loop {
        let index_before = player.catalog.index;
        let action = step(&mut player, WaitOutcome::TimedOut);
        ticks += 1;
        assert!(ticks < 1000, "the playlist should end");
        match action {
            StepAction::Continue => {}
            StepAction::Restart => passes[index_before] += 1,
            StepAction::ChangeTrack => {
                if player.catalog.index < player.catalog.tracks.len() {
                    passes[player.catalog.index] += 1;
                } else {
                    break;
                }
            }
            other => panic!("unexpected action {:?}", other),
        }
    }
    assert_eq!(passes, vec![1, 2, 1]);
    // 2000ms and 3000ms take 8 and 12 ticks; 1000ms takes 4, played twice.
    assert_eq!(ticks, 8 + 4 + 4 + 12);
    assert_eq!(player.catalog.index, 3);
}

#[test]
fn repeat_count_gives_one_extra_pass() {
    // One track of one tick's length with repeat count 2: three passes.
    let mut player = player_of(vec![track("a", 250, 2)]);
    assert_eq!(step(&mut player, WaitOutcome::TimedOut), StepAction::Restart);
    assert_eq!(step(&mut player, WaitOutcome::TimedOut), StepAction::Restart);
    assert_eq!(step(&mut player, WaitOutcome::TimedOut), StepAction::ChangeTrack);
    assert_eq!(player.catalog.index, 1);
}

#[test]
fn skip_back_early_on_later_track_goes_back() {
    // Skip-back at 0.4s elapsed on track index 2 jumps to track index 1.
    let mut player = player_of(vec![
        track("a", 5000, 0),
        track("b", 5000, 0),
        track("c", 5000, 0),
    ]);
    player.catalog.index = 2;
    player.clock.elapsed_ms = 400;
    let action = step(&mut player, WaitOutcome::Received(PlaybackSignal::SkipBack));
    assert_eq!(action, StepAction::ChangeTrack);
    assert_eq!(player.catalog.index, 1);
    assert_eq!(player.clock.elapsed_ms, 0);
    assert!(!player.clock.paused);
}

#[test]
fn skip_back_late_restarts_same_track() {
    // Skip-back at 4.0s elapsed restarts the current track from zero.
    let mut player = player_of(vec![
        track("a", 5000, 0),
        track("b", 5000, 0),
        track("c", 5000, 0),
    ]);
    player.catalog.index = 2;
    player.clock.elapsed_ms = 4000;
    let action = step(&mut player, WaitOutcome::Received(PlaybackSignal::SkipBack));
    assert_eq!(action, StepAction::Restart);
    assert_eq!(player.catalog.index, 2);
    assert_eq!(player.clock.elapsed_ms, 0);
}

#[test]
fn skip_back_on_first_track_never_changes_index() {
    let mut player = player_of(vec![track("a", 5000, 0), track("b", 5000, 0)]);
    player.clock.elapsed_ms = 0;
    let action = step(&mut player, WaitOutcome::Received(PlaybackSignal::SkipBack));
    assert_eq!(action, StepAction::Restart);
    assert_eq!(player.catalog.index, 0);
}

#[test]
fn skip_back_threshold_boundary() {
    // Exactly one second still counts as "near the start"; a millisecond
    // more restarts instead.
    let mut player = player_of(vec![track("a", 9000, 0), track("b", 9000, 0)]);
    player.catalog.index = 1;
    player.clock.elapsed_ms = 1000;
    assert_eq!(
        step(&mut player, WaitOutcome::Received(PlaybackSignal::SkipBack)),
        StepAction::ChangeTrack
    );
    assert_eq!(player.catalog.index, 0);

    let mut player = player_of(vec![track("a", 9000, 0), track("b", 9000, 0)]);
    player.catalog.index = 1;
    player.clock.elapsed_ms = 1001;
    assert_eq!(
        step(&mut player, WaitOutcome::Received(PlaybackSignal::SkipBack)),
        StepAction::Restart
    );
    assert_eq!(player.catalog.index, 1);
}

#[test]
fn skip_forward_advances_and_zeroes_repeats() {
    let mut player = player_of(vec![track("a", 5000, 7), track("b", 5000, 3)]);
    player.clock.elapsed_ms = 2500;
    let action = step(&mut player, WaitOutcome::Received(PlaybackSignal::SkipForward));
    assert_eq!(action, StepAction::ChangeTrack);
    assert_eq!(player.catalog.index, 1);
    assert_eq!(player.catalog.tracks[0].remaining_repeats, 0);
    assert_eq!(player.catalog.tracks[1].remaining_repeats, 3);
    assert_eq!(player.clock.elapsed_ms, 0);
}

#[test]
fn toggle_pause_flips_once_and_pauses_the_clock() {
    let mut player = player_of(vec![track("a", 5000, 0)]);
    assert_eq!(step(&mut player, WaitOutcome::TimedOut), StepAction::Continue);
    assert_eq!(player.clock.elapsed_ms, 250);

    let action = step(&mut player, WaitOutcome::Received(PlaybackSignal::TogglePause));
    assert_eq!(action, StepAction::Pause);
    assert!(player.clock.paused);
    assert_eq!(player.clock.elapsed_ms, 250);

    // Quiet ticks while paused charge nothing.
    for _ in 0..5 {
        assert_eq!(step(&mut player, WaitOutcome::TimedOut), StepAction::Continue);
        assert_eq!(player.clock.elapsed_ms, 250);
    }

    // Resuming charges nothing for the toggle tick itself.
    let action = step(&mut player, WaitOutcome::Received(PlaybackSignal::TogglePause));
    assert_eq!(action, StepAction::Resume);
    assert!(!player.clock.paused);
    assert_eq!(player.clock.elapsed_ms, 250);

    assert_eq!(step(&mut player, WaitOutcome::TimedOut), StepAction::Continue);
    assert_eq!(player.clock.elapsed_ms, 500);
}

#[test]
fn skip_forward_while_paused_starts_next_track_unpaused() {
    let mut player = player_of(vec![track("a", 5000, 4), track("b", 5000, 0)]);
    step(&mut player, WaitOutcome::Received(PlaybackSignal::TogglePause));
    assert!(player.clock.paused);
    let action = step(&mut player, WaitOutcome::Received(PlaybackSignal::SkipForward));
    assert_eq!(action, StepAction::ChangeTrack);
    assert_eq!(player.catalog.index, 1);
    assert!(!player.clock.paused);
}

#[test]
fn track_reached_by_skip_back_keeps_its_spent_repeats() {
    // Play the first track through its single repeat, advance, then skip
    // back to it early: its counter stays spent, so it plays once more
    // and the traversal advances again.
    let mut player = player_of(vec![track("a", 250, 1), track("b", 5000, 0)]);
    assert_eq!(step(&mut player, WaitOutcome::TimedOut), StepAction::Restart);
    assert_eq!(step(&mut player, WaitOutcome::TimedOut), StepAction::ChangeTrack);
    assert_eq!(player.catalog.index, 1);
    let action = step(&mut player, WaitOutcome::Received(PlaybackSignal::SkipBack));
    assert_eq!(action, StepAction::ChangeTrack);
    assert_eq!(player.catalog.index, 0);
    assert_eq!(player.catalog.tracks[0].remaining_repeats, 0);
    assert_eq!(step(&mut player, WaitOutcome::TimedOut), StepAction::ChangeTrack);
    assert_eq!(player.catalog.index, 1);
}

#[test]
fn build_of_an_empty_playlist_is_exhausted_at_once() {
    let (catalog, diagnostics) = Catalog::build(None, Vec::new(), Vec::new());
    assert!(catalog.tracks.is_empty());
    assert_eq!(catalog.index, 0);
    assert!(diagnostics.is_empty());
}

#[test]
fn quit_and_disconnection_leave_the_queue() {
    let mut player = player_of(vec![track("a", 5000, 2)]);
    let action = step(&mut player, WaitOutcome::Received(PlaybackSignal::Quit));
    assert_eq!(action, StepAction::LeaveQueue);

    let mut player = player_of(vec![track("a", 5000, 2)]);
    let action = step(&mut player, WaitOutcome::Disconnected);
    assert_eq!(action, StepAction::LeaveQueue);
}

#[test]
fn abandon_leaves_only_the_playlist() {
    let mut player = player_of(vec![track("a", 5000, 0), track("b", 5000, 0)]);
    player.clock.elapsed_ms = 750;
    let action = step(&mut player, WaitOutcome::Received(PlaybackSignal::AbandonPlaylist));
    assert_eq!(action, StepAction::LeavePlaylist);
    assert_eq!(player.clock.elapsed_ms, 0);
}

#[test]
fn zero_duration_track_finishes_on_first_tick() {
    let mut player = player_of(vec![track("a", 0, 0), track("b", 250, 0)]);
    assert_eq!(step(&mut player, WaitOutcome::TimedOut), StepAction::ChangeTrack);
    assert_eq!(player.catalog.index, 1);
}

#[test]
fn loaded_track_clamps_repeats_and_duration() {
    let t = track("a", 1000, -5);
    assert_eq!(t.remaining_repeats, 0);
    let t = track("a", 1000, i64::MAX);
    assert_eq!(t.remaining_repeats, u32::MAX);
    let t = track("a", u64::MAX, 0);
    assert_eq!(t.duration_ms, u64::MAX - 250);
    let t = track("a", 1234, 3);
    assert_eq!(t.duration_ms, 1234);
    assert_eq!(t.remaining_repeats, 3);
    assert_eq!(t.name, "a");
}

#[test]
fn build_drops_failing_tracks_and_renumbers() {
    let descriptors = vec![
        quing::TrackDescriptor {
            name: Some(String::from("first")),
            source: String::from("one.flac"),
            repeats: 0,
        },
        quing::TrackDescriptor { name: None, source: String::from("two.flac"), repeats: 2 },
        quing::TrackDescriptor {
            name: Some(String::from("third")),
            source: String::from("three.flac"),
            repeats: -1,
        },
    ];
    let reports = vec![
        LoadReport { duration_ms: 1000, open_error: None, probe_error: None },
        LoadReport {
            duration_ms: 0,
            open_error: Some(String::from("no such file")),
            probe_error: None,
        },
        LoadReport { duration_ms: 3000, open_error: None, probe_error: None },
    ];
    let (catalog, diagnostics) = Catalog::build(Some(String::from("mix")), descriptors, reports);
    assert_eq!(catalog.name.as_deref(), Some("mix"));
    assert_eq!(catalog.index, 0);
    assert_eq!(catalog.tracks.len(), 2);
    assert_eq!(catalog.tracks[0].name, "first");
    assert_eq!(catalog.tracks[0].source, "one.flac");
    assert_eq!(catalog.tracks[0].duration_ms, 1000);
    assert_eq!(catalog.tracks[1].name, "third");
    assert_eq!(catalog.tracks[1].source, "three.flac");
    assert_eq!(catalog.tracks[1].duration_ms, 3000);
    assert_eq!(catalog.tracks[1].remaining_repeats, 0);
    assert_eq!(diagnostics.len(), 1);
    assert_eq!(diagnostics[0].action, "opening the source of");
    assert_eq!(diagnostics[0].subject, "two.flac");
    assert_eq!(diagnostics[0].cause, "no such file");
}

#[test]
fn build_reports_each_failing_dimension() {
    let descriptors = vec![quing::TrackDescriptor {
        name: None,
        source: String::from("bad.flac"),
        repeats: 0,
    }];
    let reports = vec![LoadReport {
        duration_ms: 0,
        open_error: Some(String::from("denied")),
        probe_error: Some(String::from("no duration")),
    }];
    let (catalog, diagnostics) = Catalog::build(None, descriptors, reports);
    assert!(catalog.tracks.is_empty());
    assert_eq!(diagnostics.len(), 2);
    assert_eq!(diagnostics[0].action, "opening the source of");
    assert_eq!(diagnostics[0].cause, "denied");
    assert_eq!(diagnostics[1].action, "probing the duration of");
    assert_eq!(diagnostics[1].cause, "no duration");
}
