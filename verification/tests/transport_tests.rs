use rustymixer::transport::{
    crossfade_source_start, PlaybackState, Transport, TransportAction, TransportCommand,
    CROSSFADE_FRAMES,
};

#[test]
fn new_transport_is_empty() {
    let t = Transport::new();
    assert_eq!(t.state(), PlaybackState::Empty);
    assert!(!t.is_loaded());
    assert!(!t.is_active());
    assert_eq!(t.crossfade_remaining(), 0);
}

#[test]
fn empty_deck_ignores_commands() {
    let mut t = Transport::new();
    assert_eq!(t.process_command(TransportCommand::Play), TransportAction::Nothing);
    assert_eq!(t.state(), PlaybackState::Empty);
    assert_eq!(t.process_command(TransportCommand::Pause), TransportAction::Nothing);
    assert_eq!(t.process_command(TransportCommand::Stop), TransportAction::Nothing);
    assert_eq!(t.process_command(TransportCommand::Seek), TransportAction::Nothing);
    assert_eq!(t.state(), PlaybackState::Empty);
}

#[test]
fn load_play_pause_stop() {
    let mut t = Transport::new();
    assert_eq!(t.process_command(TransportCommand::TrackLoaded), TransportAction::InstallTrack);
    assert_eq!(t.state(), PlaybackState::Stopped);
    assert!(t.is_loaded());

    assert_eq!(t.process_command(TransportCommand::Play), TransportAction::HintPosition);
    assert_eq!(t.state(), PlaybackState::Playing);
    assert!(t.is_active());
    // Playing again changes nothing.
    assert_eq!(t.process_command(TransportCommand::Play), TransportAction::Nothing);

    assert_eq!(t.process_command(TransportCommand::Pause), TransportAction::Nothing);
    assert_eq!(t.state(), PlaybackState::Paused);
    assert!(!t.is_active());

    assert_eq!(t.process_command(TransportCommand::Play), TransportAction::HintPosition);
    assert_eq!(t.process_command(TransportCommand::Stop), TransportAction::ResetPosition);
    assert_eq!(t.state(), PlaybackState::Stopped);
}

#[test]
fn transport_eject_clears_everything() {
    let mut t = Transport::new();
    t.process_command(TransportCommand::TrackLoaded);
    t.process_command(TransportCommand::Play);
    assert_eq!(t.process_command(TransportCommand::Eject), TransportAction::Unload);
    assert_eq!(t.state(), PlaybackState::Empty);
    assert!(!t.is_loaded());
    assert_eq!(t.crossfade_remaining(), 0);
}

#[test]
fn seek_while_playing_starts_crossfade() {
    let mut t = Transport::new();
    t.process_command(TransportCommand::TrackLoaded);
    t.process_command(TransportCommand::Play);
    assert_eq!(
        t.process_command(TransportCommand::Seek),
        TransportAction::Seek { capture_crossfade: true }
    );
    assert_eq!(t.crossfade_remaining(), CROSSFADE_FRAMES);

    // The crossfade is consumed over buffers.
    assert_eq!(t.take_crossfade(40), (0, 40));
    assert_eq!(t.crossfade_remaining(), 24);
    assert_eq!(t.take_crossfade(40), (40, 24));
    assert_eq!(t.crossfade_remaining(), 0);
    assert_eq!(t.take_crossfade(40), (64, 0));
}

#[test]
fn transport_end_of_track_stops_playback() {
    let mut t = Transport::new();
    t.process_command(TransportCommand::TrackLoaded);
    t.process_command(TransportCommand::Play);
    assert!(!t.stop_at_end(1000, 999));
    assert_eq!(t.state(), PlaybackState::Playing);
    // Unknown length never ends.
    assert!(!t.stop_at_end(0, 5000));
    assert!(t.stop_at_end(1000, 1000));
    assert_eq!(t.state(), PlaybackState::Stopped);
    // A stopped deck does not stop again.
    assert!(!t.stop_at_end(1000, 2000));
}

#[test]
fn crossfade_source_before_position() {
    assert_eq!(crossfade_source_start(1000), 1000 - CROSSFADE_FRAMES as u64);
    assert_eq!(crossfade_source_start(10), 0);
    assert_eq!(crossfade_source_start(64), 0);
}

#[test]
fn stopped_deck_stays_at_start() {
    let mut t = Transport::new();
    assert!(t.is_at_start());
    t.process_command(TransportCommand::TrackLoaded);
    assert!(t.is_at_start());
    // Seeking a stopped deck does not move it.
    assert_eq!(t.process_command(TransportCommand::Seek), TransportAction::Nothing);
    assert_eq!(t.state(), PlaybackState::Stopped);
    assert!(t.is_at_start());
    // Playing moves the position; a paused deck seeks without a crossfade.
    t.process_command(TransportCommand::Play);
    assert!(!t.is_at_start());
    t.process_command(TransportCommand::Pause);
    assert_eq!(
        t.process_command(TransportCommand::Seek),
        TransportAction::Seek { capture_crossfade: false }
    );
    assert_eq!(t.crossfade_remaining(), 0);
    assert!(!t.is_at_start());
    // Stopping resets it.
    assert_eq!(t.process_command(TransportCommand::Stop), TransportAction::ResetPosition);
    assert!(t.is_at_start());
    // Reaching the end of the track stops at the start.
    t.process_command(TransportCommand::Play);
    assert!(t.stop_at_end(10, 10));
    assert!(t.is_at_start());
}
