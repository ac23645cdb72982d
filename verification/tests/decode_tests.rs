use rustymixer::decode::{choose_track, ChosenTrack, TrackChoiceError, TrackSummary};

fn track(id: u32, audio: bool, rate: Option<u32>, channels: Option<usize>, frames: Option<u64>) -> TrackSummary {
    TrackSummary { id, audio_codec: audio, sample_rate: rate, channels, num_frames: frames }
}

#[test]
fn first_audio_track_is_chosen() {
    let tracks = vec![
        track(7, false, Some(48000), Some(6), Some(10)),
        track(3, true, Some(44100), Some(1), Some(1234)),
        track(9, true, Some(96000), Some(2), None),
    ];
    assert_eq!(
        choose_track(&tracks),
        Ok(ChosenTrack { index: 1, track_id: 3, sample_rate: 44100, channels: 1, total_frames: Some(1234) })
    );
}

#[test]
fn missing_channel_count_reads_as_stereo() {
    let tracks = vec![track(0, true, Some(22050), None, None)];
    let c = choose_track(&tracks).unwrap();
    assert_eq!(c.channels, 2);
    assert_eq!(c.total_frames, None);
}

#[test]
fn no_audio_track_is_an_error() {
    assert_eq!(choose_track(&vec![]), Err(TrackChoiceError::NoAudioTrack));
    let tracks = vec![track(1, false, Some(44100), Some(2), Some(5))];
    let e = choose_track(&tracks).unwrap_err();
    assert_eq!(e, TrackChoiceError::NoAudioTrack);
    assert_eq!(e.message(), "no audio tracks found");
}

#[test]
fn chosen_track_without_rate_is_an_error() {
    // The first audio track decides, even when a later one states a rate.
    let tracks = vec![track(1, true, None, Some(2), Some(5)), track(2, true, Some(44100), Some(2), Some(5))];
    let e = choose_track(&tracks).unwrap_err();
    assert_eq!(e, TrackChoiceError::UnknownSampleRate);
    assert_eq!(e.message(), "unknown sample rate");
}
