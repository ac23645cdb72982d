//! Configuration of the audio analyzers (beat, key and waveform analysis).
//!
//! Each analyzer runs an FFT of a fixed size, which must be a positive power
//! of two.

use vstd::prelude::*;
use vstd::string::*;
use crate::audio::{valid_sample_rate, SampleRate};
use crate::display::{decimal, decimal_text};
use vstd::arithmetic::div_mod::lemma_fundamental_div_mod;

verus! {

/// Errors that can occur during audio analysis.
#[derive(Debug, Clone, PartialEq, Eq)]
pub enum AnalysisError {
    InvalidParameter(String),
    /// The track's duration is unknown.
    UnknownDuration,
    Decode(String),
    Internal(String),
}

/// Whether `n` is a power of two (1, 2, 4, ...).
pub open spec fn is_pow2(n: nat) -> bool
    decreases n,
{
    if n == 0 {
        false
    } else if n == 1 {
        true
    } else {
        n % 2 == 0 && is_pow2(n / 2)
    }
}

/// Whether `n` is a power of two.
pub fn is_power_of_two(n: usize) -> (r: bool)
    ensures
        r == is_pow2(n as nat),
{
    if n == 0 {
        return false;
    }
    let mut m = n;
    while m > 1 && m % 2 == 0
        invariant
            m > 0,
            is_pow2(m as nat) == is_pow2(n as nat),
        decreases m,
    {
        m = m / 2;
    }
    m == 1
}

/// The message of the error for an FFT size that is not a positive power of
/// two.
pub open spec fn fft_size_message() -> Seq<char> {
    "fft_size must be a positive power of two"@
}

/// Check an FFT size: `Ok` exactly when it is a positive power of two.
pub fn check_fft_size(fft_size: usize) -> (r: Result<(), AnalysisError>)
    ensures
        r is Ok <==> is_pow2(fft_size as nat),
        r matches Err(e) ==> e matches AnalysisError::InvalidParameter(m) && m@ == fft_size_message(),
{
    if fft_size == 0 || !is_power_of_two(fft_size) {
        return Err(AnalysisError::InvalidParameter(
            String::from_str("fft_size must be a positive power of two"),
        ));
    }
    Ok(())
}

/// Detects BPM and beats; configured with an FFT size.
#[derive(Debug, Clone, Copy)]
pub struct BeatDetector {
    fft_size: usize,
}

impl BeatDetector {
    /// The detector's FFT size.
    pub closed spec fn spec_fft_size(self) -> usize {
        self.fft_size
    }

    /// A detector with FFT size `fft_size`, which must be a positive power of
    /// two (typically 1024 or 2048).
    pub fn new(fft_size: usize) -> (r: Result<Self, AnalysisError>)
        ensures
            r is Ok <==> is_pow2(fft_size as nat),
            r matches Ok(d) ==> d.spec_fft_size() == fft_size,
            r matches Err(e) ==> e matches AnalysisError::InvalidParameter(m) && m@ == fft_size_message(),
    {
        match check_fft_size(fft_size) {
            Ok(()) => Ok(BeatDetector { fft_size }),
            Err(e) => Err(e),
        }
    }

    /// The detector's FFT size.
    pub fn fft_size(&self) -> (r: usize)
        ensures
            r == self.spec_fft_size(),
    {
        self.fft_size
    }
}

/// Detects the musical key; configured with an FFT size and the sample rate
/// the audio is reduced to before analysis.
#[derive(Debug, Clone, Copy)]
pub struct KeyDetector {
    fft_size: usize,
    target_sample_rate: u32,
}

impl KeyDetector {
    /// The detector's FFT size.
    pub closed spec fn spec_fft_size(self) -> usize {
        self.fft_size
    }

    /// The rate in Hz the audio is reduced to.
    pub closed spec fn spec_target_sample_rate(self) -> u32 {
        self.target_sample_rate
    }

    /// A detector with FFT size `fft_size`, which must be a positive power of
    /// two (typically 4096 or 8192), analysing at about 4410 Hz.
    pub fn new(fft_size: usize) -> (r: Result<Self, AnalysisError>)
        ensures
            r is Ok <==> is_pow2(fft_size as nat),
            r matches Ok(d) ==> d.spec_fft_size() == fft_size && d.spec_target_sample_rate() == 4410,
            r matches Err(e) ==> e matches AnalysisError::InvalidParameter(m) && m@ == fft_size_message(),
    {
        match check_fft_size(fft_size) {
            Ok(()) => Ok(KeyDetector { fft_size, target_sample_rate: 4410 }),
            Err(e) => Err(e),
        }
    }

    /// The detector's FFT size.
    pub fn fft_size(&self) -> (r: usize)
        ensures
            r == self.spec_fft_size(),
    {
        self.fft_size
    }

    /// The rate in Hz the audio is reduced to.
    pub fn target_sample_rate(&self) -> (r: u32)
        ensures
            r == self.spec_target_sample_rate(),
    {
        self.target_sample_rate
    }

    /// Decimation factor for audio at `source_rate` Hz: keep one frame in
    /// this many (at least one).
    pub fn decimation(&self, source_rate: u32) -> (r: u32)
        requires
            self.spec_target_sample_rate() > 0,
        ensures
            r == if source_rate / self.spec_target_sample_rate() >= 1 {
                source_rate / self.spec_target_sample_rate()
            } else {
                1
            },
            r >= 1,
    {
        let d = source_rate / self.target_sample_rate;
        if d >= 1 {
            d
        } else {
            1
        }
    }
}

/// Produces waveform display data; configured with an FFT size.
#[derive(Debug, Clone, Copy)]
pub struct WaveformAnalyzer {
    fft_size: usize,
}

impl WaveformAnalyzer {
    /// The analyzer's FFT size.
    pub closed spec fn spec_fft_size(self) -> usize {
        self.fft_size
    }

    /// An analyzer with FFT size `fft_size`, which must be a positive power
    /// of two (typically 1024).
    pub fn new(fft_size: usize) -> (r: Result<Self, AnalysisError>)
        ensures
            r is Ok <==> is_pow2(fft_size as nat),
            r matches Ok(a) ==> a.spec_fft_size() == fft_size,
            r matches Err(e) ==> e matches AnalysisError::InvalidParameter(m) && m@ == fft_size_message(),
    {
        match check_fft_size(fft_size) {
            Ok(()) => Ok(WaveformAnalyzer { fft_size }),
            Err(e) => Err(e),
        }
    }

    /// The analyzer's FFT size.
    pub fn fft_size(&self) -> (r: usize)
        ensures
            r == self.spec_fft_size(),
    {
        self.fft_size
    }
}

/// Waveform resolution preset.
#[derive(Debug, Clone, Copy, PartialEq, Eq, Structural)]
pub enum WaveformResolution {
    /// Overview: about a thousand points for the whole track.
    Overview,
    /// Detail: about four thousand points (scrolling zoomed waveform).
    Detail,
    /// A custom number of target points.
    Custom(u32),
}

/// The number of points a resolution asks for.
pub open spec fn spec_target_points(r: WaveformResolution) -> u32 {
    match r {
        WaveformResolution::Overview => 1000,
        WaveformResolution::Detail => 4000,
        WaveformResolution::Custom(n) => n,
    }
}

impl WaveformResolution {
    /// The number of waveform points this resolution asks for: 1000 for
    /// the overview, 4000 for the detail view, or the custom count.
    pub fn target_points(&self) -> (r: u32)
        ensures
            r == spec_target_points(*self),
    {
        match self {
            WaveformResolution::Overview => 1000,
            WaveformResolution::Detail => 4000,
            WaveformResolution::Custom(n) => *n,
        }
    }
}

/// Frames folded into one waveform point: the track's frame count divided
/// by the target number of points, at least one and at most `u32::MAX`,
/// so that a track gives about `target_points` points.
pub open spec fn spec_frames_per_point(total_frames: u64, target_points: u32) -> u32 {
    let q = total_frames as int / target_points as int;
    if q < 1 {
        1
    } else if q > u32::MAX {
        u32::MAX
    } else {
        q as u32
    }
}

/// Frames folded into one waveform point of a track of `total_frames`
/// frames drawn with `target_points` points.
pub fn frames_per_point(total_frames: u64, target_points: u32) -> (r: u32)
    requires
        target_points > 0,
    ensures
        r == spec_frames_per_point(total_frames, target_points),
        r >= 1,
{
    let q: u64 = total_frames / (target_points as u64);
    if q < 1 {
        1
    } else if q > (u32::MAX as u64) {
        u32::MAX
    } else {
        q as u32
    }
}

/// A waveform of `target_points` points folds the frames so that the track
/// gives about that many points: `frames_per_point * target_points` is at
/// most the frame count and the next multiple exceeds it, unless the track
/// is shorter than `target_points` frames (one frame per point) or so long
/// that the count must stop at `u32::MAX`.
pub proof fn law_frames_per_point_fold(total_frames: u64, target_points: u32)
    requires
        target_points > 0,
    ensures
        ({
            let f = spec_frames_per_point(total_frames, target_points) as int;
            let t = total_frames as int;
            let n = target_points as int;
            &&& 1 <= f <= u32::MAX
            &&& t < n ==> f == 1
            &&& n <= t && t < (u32::MAX as int + 1) * n ==> f * n <= t < (f + 1) * n
            &&& t >= (u32::MAX as int + 1) * n ==> f == u32::MAX
        }),
{
    let t = total_frames as int;
    let n = target_points as int;
    lemma_fundamental_div_mod(t, n);
    let q = t / n;
    if t >= n {
        assert(q >= 1) by (nonlinear_arith)
            requires
                t == n * q + t % n,
                0 <= t % n < n,
                t >= n,
        ;
    } else {
        assert(q == 0) by (nonlinear_arith)
            requires
                t == n * q + t % n,
                0 <= t % n < n,
                0 <= t < n,
        ;
    }
    if t < (u32::MAX as int + 1) * n {
        assert(q <= u32::MAX) by (nonlinear_arith)
            requires
                t == n * q + t % n,
                0 <= t % n < n,
                t < (u32::MAX as int + 1) * n,
                n > 0,
        ;
    } else {
        assert(q > u32::MAX) by (nonlinear_arith)
            requires
                t == n * q + t % n,
                0 <= t % n < n,
                t >= (u32::MAX as int + 1) * n,
                n > 0,
        ;
    }
    assert(q * n <= t < (q + 1) * n) by (nonlinear_arith)
        requires
            t == n * q + t % n,
            0 <= t % n < n,
    ;
}

/// Whether a track's length is known and not zero.
pub open spec fn has_frames(total_frames: Option<u64>) -> bool {
    total_frames matches Some(t) && t > 0
}

/// The message of the error for a sample rate the analyzers do not accept.
pub open spec fn unsupported_rate_message(rate: u32) -> Seq<char> {
    "unsupported sample rate: "@ + decimal(rate as nat)
}

/// Whether `e` is the invalid-parameter error with message `m`.
pub open spec fn is_invalid_parameter(e: AnalysisError, m: Seq<char>) -> bool {
    e matches AnalysisError::InvalidParameter(t) && t@ == m
}

fn invalid_parameter(m: &str) -> (e: AnalysisError)
    ensures
        is_invalid_parameter(e, m@),
{
    AnalysisError::InvalidParameter(String::from_str(m))
}

fn unsupported_rate(rate: u32) -> (e: AnalysisError)
    ensures
        is_invalid_parameter(e, unsupported_rate_message(rate)),
{
    let mut m = String::from_str("unsupported sample rate: ");
    let digits = decimal_text(rate as u64);
    m.append(digits.as_str());
    AnalysisError::InvalidParameter(m)
}

/// The validated rate of a track, for analyzers that need a supported
/// sample rate and a known, non-zero length.
fn checked_rate(sample_rate: u32) -> (r: Result<SampleRate, AnalysisError>)
    ensures
        r is Ok <==> valid_sample_rate(sample_rate as int),
        r matches Ok(s) ==> s.spec_hz() == sample_rate,
        r matches Err(e) ==> is_invalid_parameter(e, unsupported_rate_message(sample_rate)),
{
    match SampleRate::new(sample_rate) {
        Some(s) => Ok(s),
        None => Err(unsupported_rate(sample_rate)),
    }
}

impl BeatDetector {
    /// The check of a track's sample rate before beat detection: 0 is an
    /// error (`sample rate is 0`), any other rate is accepted.
    pub fn check_sample_rate(&self, sample_rate: u32) -> (r: Result<(), AnalysisError>)
        ensures
            r is Ok <==> sample_rate != 0,
            r matches Err(e) ==> is_invalid_parameter(e, "sample rate is 0"@),
    {
        if sample_rate == 0 {
            return Err(invalid_parameter("sample rate is 0"));
        }
        Ok(())
    }

    /// The check of the decoded length: beat detection needs at least four
    /// FFT windows of mono frames (`track too short for beat detection`
    /// otherwise).
    pub fn check_length(&self, mono_frames: usize) -> (r: Result<(), AnalysisError>)
        ensures
            r is Ok <==> mono_frames >= 4 * self.spec_fft_size(),
            r matches Err(e) ==> is_invalid_parameter(e, "track too short for beat detection"@),
    {
        if mono_frames / 4 < self.fft_size {
            return Err(invalid_parameter("track too short for beat detection"));
        }
        Ok(())
    }
}

impl KeyDetector {
    /// The checks of a track before key detection: a supported sample rate
    /// (`unsupported sample rate: <rate>`), a known length
    /// (`UnknownDuration`) and at least one frame (`track has zero
    /// frames`), in that order. Gives the validated rate.
    pub fn check_source(&self, sample_rate: u32, total_frames: Option<u64>) -> (r: Result<SampleRate, AnalysisError>)
        ensures
            r is Ok <==> valid_sample_rate(sample_rate as int) && has_frames(total_frames),
            r matches Ok(s) ==> s.spec_hz() == sample_rate,
            !valid_sample_rate(sample_rate as int) ==> (r matches Err(e) && is_invalid_parameter(
                e,
                unsupported_rate_message(sample_rate),
            )),
            valid_sample_rate(sample_rate as int) && total_frames is None ==> r == Err::<
                SampleRate,
                AnalysisError,
            >(AnalysisError::UnknownDuration),
            valid_sample_rate(sample_rate as int) && total_frames == Some(0u64) ==> (r matches Err(e)
                && is_invalid_parameter(e, "track has zero frames"@)),
    {
        let rate = match checked_rate(sample_rate) {
            Ok(s) => s,
            Err(e) => {
                return Err(e);
            },
        };
        match total_frames {
            None => Err(AnalysisError::UnknownDuration),
            Some(t) => if t == 0 {
                Err(invalid_parameter("track has zero frames"))
            } else {
                Ok(rate)
            },
        }
    }

    /// The check of the reduced length: key detection needs at least one
    /// FFT window of samples (`track too short for key detection`
    /// otherwise).
    pub fn check_length(&self, samples: usize) -> (r: Result<(), AnalysisError>)
        ensures
            r is Ok <==> samples >= self.spec_fft_size(),
            r matches Err(e) ==> is_invalid_parameter(e, "track too short for key detection"@),
    {
        if samples < self.fft_size {
            return Err(invalid_parameter("track too short for key detection"));
        }
        Ok(())
    }
}

/// How a track is drawn as a waveform.
#[derive(Debug, Clone, Copy)]
pub struct WaveformPlan {
    /// The track's validated sample rate.
    pub sample_rate: SampleRate,
    /// The track's length in frames; 0 gives a waveform without points.
    pub total_frames: u64,
    /// Frames folded into one point.
    pub frames_per_point: u32,
}

impl WaveformAnalyzer {
    /// The plan of a waveform for a track of `total_frames` frames at
    /// `sample_rate` Hz: an unsupported rate is an error
    /// (`unsupported sample rate: <rate>`), an unknown length is
    /// `UnknownDuration`; an empty track gets one frame per point, any
    /// other the frames per point of `resolution`.
    pub fn plan(&self, sample_rate: u32, total_frames: Option<u64>, resolution: WaveformResolution) -> (r: Result<WaveformPlan, AnalysisError>)
        requires
            valid_sample_rate(sample_rate as int) && has_frames(total_frames) ==> spec_target_points(
                resolution,
            ) > 0,
        ensures
            r is Ok <==> valid_sample_rate(sample_rate as int) && total_frames is Some,
            !valid_sample_rate(sample_rate as int) ==> (r matches Err(e) && is_invalid_parameter(
                e,
                unsupported_rate_message(sample_rate),
            )),
            valid_sample_rate(sample_rate as int) && total_frames is None ==> r == Err::<
                WaveformPlan,
                AnalysisError,
            >(AnalysisError::UnknownDuration),
            r matches Ok(p) ==> {
                &&& p.sample_rate.spec_hz() == sample_rate
                &&& total_frames == Some(p.total_frames)
                &&& p.frames_per_point == if p.total_frames == 0 {
                    1
                } else {
                    spec_frames_per_point(p.total_frames, spec_target_points(resolution))
                }
            },
    {
        let rate = match checked_rate(sample_rate) {
            Ok(s) => s,
            Err(e) => {
                return Err(e);
            },
        };
        let total = match total_frames {
            Some(t) => t,
            None => {
                return Err(AnalysisError::UnknownDuration);
            },
        };
        if total == 0 {
            return Ok(WaveformPlan { sample_rate: rate, total_frames: 0, frames_per_point: 1 });
        }
        let per_point = frames_per_point(total, resolution.target_points());
        Ok(WaveformPlan { sample_rate: rate, total_frames: total, frames_per_point: per_point })
    }
}

} // verus!
