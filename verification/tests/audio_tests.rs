use rustymixer::audio::{AudioConfig, ChannelCount, EngineParameters, SampleRate};

// --- SampleRate tests ---

#[test]
fn sample_rate_rejects_zero() {
    assert!(SampleRate::new(0).is_none());
}

#[test]
fn sample_rate_rejects_below_min() {
    assert!(SampleRate::new(7999).is_none());
}

#[test]
fn sample_rate_rejects_above_max() {
    assert!(SampleRate::new(192001).is_none());
}

#[test]
fn sample_rate_accepts_common_rates() {
    for hz in [8000, 22050, 44100, 48000, 96000, 192000] {
        let sr = SampleRate::new(hz).unwrap();
        assert_eq!(sr.hz(), hz);
    }
}

#[test]
fn sample_rate_default_is_44100() {
    assert_eq!(SampleRate::default().hz(), 44100);
}

#[test]
fn sample_rate_bounds_are_inclusive() {
    assert_eq!(SampleRate::new(SampleRate::MIN).unwrap().hz(), 8000);
    assert_eq!(SampleRate::new(SampleRate::MAX).unwrap().hz(), 192000);
}

// --- ChannelCount tests ---

#[test]
fn channel_count_mono_and_stereo() {
    assert_eq!(ChannelCount::new(1).unwrap().count(), 1);
    assert_eq!(ChannelCount::new(2).unwrap().count(), 2);
}

#[test]
fn channel_count_rejects_invalid() {
    assert!(ChannelCount::new(0).is_none());
    assert!(ChannelCount::new(3).is_none());
}

#[test]
fn channel_count_default_is_stereo() {
    assert_eq!(ChannelCount::default().count(), 2);
}

#[test]
fn channel_count_named_constructors() {
    assert_eq!(ChannelCount::mono().count(), 1);
    assert_eq!(ChannelCount::stereo().count(), 2);
    assert_eq!(ChannelCount::stereo(), ChannelCount::default());
}

// --- Engine and output configuration ---

#[test]
fn engine_parameters_default() {
    let p = EngineParameters::default();
    assert_eq!(p.sample_rate.hz(), 44100);
    assert_eq!(p.frames_per_buffer, 1024);
}

#[test]
fn audio_config_default() {
    let c = AudioConfig::default();
    assert_eq!(c.sample_rate.hz(), 44100);
    assert_eq!(c.channels.count(), 2);
    assert_eq!(c.buffer_frames, 2048);
}
