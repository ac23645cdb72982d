//! Fundamental audio types: validated sample rate and channel count.

use vstd::prelude::*;

verus! {

/// Maximum frames per audio callback buffer.
pub const MAX_ENGINE_FRAMES: usize = 8192;

/// Maximum samples per buffer (stereo: two channels per frame).
pub const MAX_ENGINE_SAMPLES: usize = MAX_ENGINE_FRAMES * 2;

/// Smallest supported sample rate in Hz.
pub const SAMPLE_RATE_MIN: u32 = 8000;

/// Largest supported sample rate in Hz.
pub const SAMPLE_RATE_MAX: u32 = 192000;

/// Whether `hz` is a sample rate this mixer accepts.
pub open spec fn valid_sample_rate(hz: int) -> bool {
    SAMPLE_RATE_MIN <= hz <= SAMPLE_RATE_MAX
}

/// Validated sample rate in Hz, within `8000..=192000`. Defaults to 44100 Hz.
#[derive(Debug, Clone, Copy, PartialEq, Eq, Structural, PartialOrd)]
pub struct SampleRate(u32);

impl SampleRate {
    #[verifier::type_invariant]
    spec fn in_range(self) -> bool {
        valid_sample_rate(self.0 as int)
    }

    /// The rate in Hz that this value stands for.
    pub closed spec fn spec_hz(self) -> u32 {
        self.0
    }

    /// A sample rate is its rate in Hz: two values of the same rate are
    /// the same value.
    pub proof fn lemma_hz_determines(a: SampleRate, b: SampleRate)
        requires
            a.spec_hz() == b.spec_hz(),
        ensures
            a == b,
    {
    }

    /// Minimum supported sample rate.
    pub const MIN: u32 = 8000;

    /// Maximum supported sample rate.
    pub const MAX: u32 = 192000;

    /// Create a sample rate; `None` when `hz` lies outside `8000..=192000`.
    pub fn new(hz: u32) -> (r: Option<Self>)
        ensures
            r is Some <==> valid_sample_rate(hz as int),
            r matches Some(s) ==> s.spec_hz() == hz,
    {
        if SAMPLE_RATE_MIN <= hz && hz <= SAMPLE_RATE_MAX {
            Some(SampleRate(hz))
        } else {
            None
        }
    }

    /// The raw Hz value.
    pub fn hz(self) -> (r: u32)
        ensures
            r == self.spec_hz(),
            valid_sample_rate(r as int),
    {
        proof {
            use_type_invariant(&self);
        }
        self.0
    }
}

impl Default for SampleRate {
    fn default() -> (r: Self)
        ensures
            r.spec_hz() == 44100,
    {
        SampleRate(44100)
    }
}

/// Whether `count` is a channel count this mixer accepts (mono or stereo).
pub open spec fn valid_channel_count(count: int) -> bool {
    count == 1 || count == 2
}

/// Channel count: 1 (mono) or 2 (stereo). Defaults to stereo.
#[derive(Debug, Clone, Copy, PartialEq, Eq, Structural, PartialOrd)]
pub struct ChannelCount(u8);

impl ChannelCount {
    #[verifier::type_invariant]
    spec fn is_mono_or_stereo(self) -> bool {
        valid_channel_count(self.0 as int)
    }

    /// The number of channels this value stands for.
    pub closed spec fn spec_count(self) -> u8 {
        self.0
    }

    /// A channel count is its number of channels: two values of the same
    /// count are the same value.
    pub proof fn lemma_count_determines(a: ChannelCount, b: ChannelCount)
        requires
            a.spec_count() == b.spec_count(),
        ensures
            a == b,
    {
    }

    /// One channel.
    pub fn mono() -> (r: Self)
        ensures
            r.spec_count() == 1,
    {
        ChannelCount(1)
    }

    /// Two channels.
    pub fn stereo() -> (r: Self)
        ensures
            r.spec_count() == 2,
    {
        ChannelCount(2)
    }

    /// Create a channel count; `None` unless `count` is 1 or 2.
    pub fn new(count: u8) -> (r: Option<Self>)
        ensures
            r is Some <==> valid_channel_count(count as int),
            r matches Some(c) ==> c.spec_count() == count,
    {
        if count == 1 || count == 2 {
            Some(ChannelCount(count))
        } else {
            None
        }
    }

    /// The raw channel count.
    pub fn count(self) -> (r: u8)
        ensures
            r == self.spec_count(),
            valid_channel_count(r as int),
    {
        proof {
            use_type_invariant(&self);
        }
        self.0
    }
}

impl Default for ChannelCount {
    fn default() -> (r: Self)
        ensures
            r.spec_count() == 2,
    {
        ChannelCount(2)
    }
}


/// Configuration of the engine mixer.
#[derive(Debug, Clone, Copy)]
pub struct EngineParameters {
    pub sample_rate: SampleRate,
    pub frames_per_buffer: usize,
}

impl Default for EngineParameters {
    fn default() -> (r: Self)
        ensures
            r.sample_rate.spec_hz() == 44100,
            r.frames_per_buffer == 1024,
    {
        EngineParameters { sample_rate: SampleRate::default(), frames_per_buffer: 1024 }
    }
}

/// Audio output configuration.
#[derive(Debug, Clone, Copy)]
pub struct AudioConfig {
    pub sample_rate: SampleRate,
    pub channels: ChannelCount,
    /// Buffer size in frames per callback.
    pub buffer_frames: usize,
}

impl Default for AudioConfig {
    fn default() -> (r: Self)
        ensures
            r.sample_rate.spec_hz() == 44100,
            r.channels.spec_count() == 2,
            r.buffer_frames == 2048,
    {
        AudioConfig {
            sample_rate: SampleRate::default(),
            channels: ChannelCount::stereo(),
            buffer_frames: 2048,
        }
    }
}

/// Errors from audio output backends.
#[derive(Debug, Clone, PartialEq, Eq)]
pub enum AudioError {
    /// The audio context could not be created.
    ContextCreation(String),
    /// The backend reported an error.
    Backend(String),
    /// The audio context is suspended until a user gesture.
    Suspended,
    /// The requested configuration is not supported.
    UnsupportedConfig(String),
}

} // verus!
