use rustymixer::analysis::{
    frames_per_point, is_power_of_two, AnalysisError, BeatDetector, KeyDetector, WaveformAnalyzer,
    WaveformResolution,
};

#[test]
fn detector_rejects_non_power_of_two_fft() {
    assert!(BeatDetector::new(0).is_err());
    assert!(BeatDetector::new(100).is_err());
    assert!(BeatDetector::new(1024).is_ok());
    assert!(BeatDetector::new(2048).is_ok());
}

#[test]
fn detector_rejects_non_power_of_two() {
    assert!(KeyDetector::new(0).is_err());
    assert!(KeyDetector::new(100).is_err());
    assert!(KeyDetector::new(1023).is_err());
    assert!(KeyDetector::new(4096).is_ok());
    assert!(KeyDetector::new(8192).is_ok());
}

#[test]
fn analyzer_rejects_non_power_of_two_fft() {
    assert!(WaveformAnalyzer::new(0).is_err());
    assert!(WaveformAnalyzer::new(100).is_err());
    assert!(WaveformAnalyzer::new(1023).is_err());
    assert!(WaveformAnalyzer::new(1024).is_ok());
    assert!(WaveformAnalyzer::new(2048).is_ok());
}

#[test]
fn invalid_fft_size_error_message() {
    match BeatDetector::new(3) {
        Err(AnalysisError::InvalidParameter(m)) => {
            assert_eq!(m, "fft_size must be a positive power of two")
        }
        _ => panic!("expected InvalidParameter"),
    }
}

#[test]
fn power_of_two_values() {
    assert!(!is_power_of_two(0));
    assert!(is_power_of_two(1));
    assert!(is_power_of_two(2));
    assert!(!is_power_of_two(6));
    assert!(is_power_of_two(1 << 20));
    assert!(!is_power_of_two((1 << 20) + 1));
}

#[test]
fn detectors_keep_their_fft_size() {
    assert_eq!(BeatDetector::new(1024).unwrap().fft_size(), 1024);
    assert_eq!(WaveformAnalyzer::new(2048).unwrap().fft_size(), 2048);
    let k = KeyDetector::new(4096).unwrap();
    assert_eq!(k.fft_size(), 4096);
    assert_eq!(k.target_sample_rate(), 4410);
}

#[test]
fn key_detector_decimation() {
    let k = KeyDetector::new(4096).unwrap();
    assert_eq!(k.decimation(44100), 10);
    assert_eq!(k.decimation(48000), 10);
    assert_eq!(k.decimation(8000), 1);
    assert_eq!(k.decimation(4000), 1);
}

#[test]
fn resolution_target_points() {
    assert_eq!(WaveformResolution::Overview.target_points(), 1000);
    assert_eq!(WaveformResolution::Detail.target_points(), 4000);
    assert_eq!(WaveformResolution::Custom(250).target_points(), 250);
}

#[test]
fn frames_per_point_values() {
    // 3 seconds at 44.1 kHz.
    assert_eq!(frames_per_point(132_300, 1000), 132);
    assert_eq!(frames_per_point(132_300, 4000), 33);
    // Short tracks still fold at least one frame per point.
    assert_eq!(frames_per_point(10, 1000), 1);
    assert_eq!(frames_per_point(0, 1000), 1);
    // Long tracks keep about the target number of points.
    assert_eq!(frames_per_point((1u64 << 32) + 5000, 1000), 4_294_972);
    assert_eq!(frames_per_point(u64::MAX, 1), u32::MAX);
}

fn invalid_message(e: AnalysisError) -> String {
    match e {
        AnalysisError::InvalidParameter(m) => m,
        other => panic!("expected an invalid parameter, got {other:?}"),
    }
}

#[test]
fn beat_checks_sample_rate_and_length() {
    let d = BeatDetector::new(1024).unwrap();
    assert_eq!(invalid_message(d.check_sample_rate(0).unwrap_err()), "sample rate is 0");
    assert!(d.check_sample_rate(44100).is_ok());
    assert!(d.check_length(4096).is_ok());
    assert_eq!(
        invalid_message(d.check_length(4095).unwrap_err()),
        "track too short for beat detection"
    );
    assert!(d.check_length(0).is_err());
}

#[test]
fn key_checks_source_in_order() {
    let d = KeyDetector::new(4096).unwrap();
    assert_eq!(
        invalid_message(d.check_source(7999, Some(5)).unwrap_err()),
        "unsupported sample rate: 7999"
    );
    assert_eq!(
        invalid_message(d.check_source(0, None).unwrap_err()),
        "unsupported sample rate: 0"
    );
    assert!(matches!(d.check_source(44100, None), Err(AnalysisError::UnknownDuration)));
    assert_eq!(
        invalid_message(d.check_source(44100, Some(0)).unwrap_err()),
        "track has zero frames"
    );
    assert_eq!(d.check_source(48000, Some(10)).unwrap().hz(), 48000);
}

#[test]
fn key_checks_reduced_length() {
    let d = KeyDetector::new(4096).unwrap();
    assert!(d.check_length(4096).is_ok());
    assert_eq!(
        invalid_message(d.check_length(4095).unwrap_err()),
        "track too short for key detection"
    );
}

#[test]
fn waveform_plan_values() {
    let w = WaveformAnalyzer::new(1024).unwrap();
    let p = w.plan(44100, Some(441_000), WaveformResolution::Overview).unwrap();
    assert_eq!(p.sample_rate.hz(), 44100);
    assert_eq!(p.total_frames, 441_000);
    assert_eq!(p.frames_per_point, 441);
    let p = w.plan(44100, Some(500), WaveformResolution::Detail).unwrap();
    assert_eq!(p.frames_per_point, 1);
    let p = w.plan(44100, Some(0), WaveformResolution::Custom(0)).unwrap();
    assert_eq!(p.total_frames, 0);
    assert_eq!(p.frames_per_point, 1);
    assert!(matches!(w.plan(44100, None, WaveformResolution::Overview), Err(AnalysisError::UnknownDuration)));
    assert_eq!(
        invalid_message(w.plan(200_000, Some(10), WaveformResolution::Overview).unwrap_err()),
        "unsupported sample rate: 200000"
    );
}
