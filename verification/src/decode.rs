//! The choice of the track a decoder plays, made from what a container
//! probe reports of each of its tracks.
use vstd::prelude::*;

verus! {

/// What the probe of a container tells of one of its tracks.
#[derive(Debug, Clone, Copy, PartialEq, Eq)]
pub struct TrackSummary {
    /// The container's identifier of the track.
    pub id: u32,
    /// Whether the track carries audio with a known codec.
    pub audio_codec: bool,
    /// The sample rate, where the container states one.
    pub sample_rate: Option<u32>,
    /// The number of channels, where the container states one.
    pub channels: Option<usize>,
    /// The number of playable frames, where the container states one.
    pub num_frames: Option<u64>,
}

/// The track a decoder plays and the format it reports for it.
#[derive(Debug, Clone, Copy, PartialEq, Eq)]
pub struct ChosenTrack {
    /// The track's position in the probe's list.
    pub index: usize,
    pub track_id: u32,
    pub sample_rate: u32,
    /// The source's channel count; stereo where the container states none.
    pub channels: u16,
    pub total_frames: Option<u64>,
}

/// Why no track can be played.
#[derive(Debug, Clone, Copy, PartialEq, Eq)]
pub enum TrackChoiceError {
    /// No track carries audio with a known codec.
    NoAudioTrack,
    /// The chosen track states no sample rate.
    UnknownSampleRate,
}

impl TrackChoiceError {
    /// The text of the error.
    pub fn message(&self) -> (r: &'static str)
        ensures
            *self == TrackChoiceError::NoAudioTrack ==> r@ == "no audio tracks found"@,
            *self == TrackChoiceError::UnknownSampleRate ==> r@ == "unknown sample rate"@,
    {
        match self {
            TrackChoiceError::NoAudioTrack => "no audio tracks found",
            TrackChoiceError::UnknownSampleRate => "unknown sample rate",
        }
    }
}

/// Whether `i` is the first track of `tracks` that carries audio.
pub open spec fn is_first_audio(tracks: Seq<TrackSummary>, i: int) -> bool {
    &&& 0 <= i < tracks.len()
    &&& tracks[i].audio_codec
    &&& forall|j: int| 0 <= j < i ==> !(#[trigger] tracks[j]).audio_codec
}

/// The channel count reported for a track: the stated count, cut to 16
/// bits, or 2.
pub open spec fn reported_channels(t: TrackSummary) -> u16 {
    match t.channels {
        Some(c) => c as u16,
        None => 2,
    }
}

/// What is reported of track `t`, at position `index`, played at `rate` Hz.
pub open spec fn chosen_from(t: TrackSummary, index: int, rate: u32) -> ChosenTrack {
    ChosenTrack {
        index: index as usize,
        track_id: t.id,
        sample_rate: rate,
        channels: reported_channels(t),
        total_frames: t.num_frames,
    }
}

/// Picks the first track that carries audio with a known codec. It is an
/// error when there is none, or when that track states no sample rate.
pub fn choose_track(tracks: &Vec<TrackSummary>) -> (r: Result<ChosenTrack, TrackChoiceError>)
    ensures
        (forall|i: int| 0 <= i < tracks.len() ==> !(#[trigger] tracks@[i]).audio_codec) ==> r
            == Err::<ChosenTrack, TrackChoiceError>(TrackChoiceError::NoAudioTrack),
        forall|i: int|
            #![trigger is_first_audio(tracks@, i)]
            is_first_audio(tracks@, i) ==> match tracks@[i].sample_rate {
                None => r == Err::<ChosenTrack, TrackChoiceError>(
                    TrackChoiceError::UnknownSampleRate,
                ),
                Some(rate) => r == Ok::<ChosenTrack, TrackChoiceError>(
                    chosen_from(tracks@[i], i, rate),
                ),
            },
{
    let mut i: usize = 0;
    while i < tracks.len()
        invariant
            i <= tracks.len(),
            forall|j: int| 0 <= j < i ==> !(#[trigger] tracks@[j]).audio_codec,
        decreases tracks.len() - i,
    {
        let t = tracks[i];
        if t.audio_codec {
            proof {
                assert(is_first_audio(tracks@, i as int));
                assert forall|k: int| #[trigger] is_first_audio(tracks@, k) implies k == i by {
                    if k < i {
                        assert(!tracks@[k].audio_codec);
                    } else if k > i {
                        assert(!tracks@[i as int].audio_codec);
                    }
                }
            }
            let channels: u16 = match t.channels {
                Some(c) => c as u16,
                None => 2,
            };
            return match t.sample_rate {
                None => Err(TrackChoiceError::UnknownSampleRate),
                Some(rate) => Ok(
                    ChosenTrack {
                        index: i,
                        track_id: t.id,
                        sample_rate: rate,
                        channels,
                        total_frames: t.num_frames,
                    },
                ),
            };
        }
        i = i + 1;
    }
    Err(TrackChoiceError::NoAudioTrack)
}

} // verus!
