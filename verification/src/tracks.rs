//! Track sessions: stateless value holders for the codec geometry of the
//! video track and the clock geometry of the audio track, fixed at
//! initialization and only read thereafter.

use vstd::prelude::*;

verus! {

/// The common timebase: both clocks count ticks of 1/90000 s.
pub const TIMEBASE: u64 = 90000;

/// Frame rate assumed by a plain video write that names none.
pub const DEFAULT_FPS: u32 = 60;

/// Samples advanced per encoded audio frame, and the sample count every
/// audio sample's declared duration is computed from, regardless of the
/// encoder input length.
pub const SAMPLES_PER_AUDIO_FRAME: u64 = 1024;

/// Video track geometry, fixed by `init_video`.
#[derive(PartialEq, Eq, Structural, Clone, Copy, Debug)]
pub struct VideoTrack {
    /// Frame width in pixels.
    pub width: i32,
    /// Frame height in pixels.
    pub height: i32,
    /// True for HEVC payload, false for H.264.
    pub is_hevc: bool,
}

impl VideoTrack {
    /// Record the geometry of the video track.
    pub fn new(width: i32, height: i32, is_hevc: bool) -> (r: VideoTrack)
        ensures
            r == (VideoTrack { width, height, is_hevc }),
    {
        VideoTrack { width, height, is_hevc }
    }
}

/// Samples per encoder input frame as a function of the channel count:
/// one channel reads 1024 samples per frame, any other count 2048.
pub open spec fn spec_frame_length(channel_count: u32) -> usize {
    if channel_count == 1 {
        1024
    } else {
        2048
    }
}

/// Audio track parameters, fixed by `init_audio`.
#[derive(PartialEq, Eq, Structural, Clone, Copy, Debug)]
pub struct AudioTrack {
    /// Target bit rate handed to the external encoder.
    pub bit_rate: u32,
    /// PCM sample rate in Hz; positive.
    pub sample_rate: u32,
    /// Number of interleaved channels.
    pub channel_count: u32,
    /// Samples read from the PCM buffer per encoder input frame.
    pub frame_length: usize,
}

impl AudioTrack {
    /// The frame length matches the channel-count policy and the sample
    /// rate can serve as a divisor.
    pub open spec fn wf(self) -> bool {
        &&& self.sample_rate >= 1
        &&& self.frame_length == spec_frame_length(self.channel_count)
    }

    /// Record the audio track parameters and fix the frame-length policy.
    pub fn new(bit_rate: u32, sample_rate: u32, channel_count: u32) -> (r: AudioTrack)
        requires
            sample_rate >= 1,
        ensures
            r.wf(),
            r.bit_rate == bit_rate,
            r.sample_rate == sample_rate,
            r.channel_count == channel_count,
            r.frame_length == spec_frame_length(channel_count),
    {
        let frame_length: usize = if channel_count == 1 {
            1024
        } else {
            2048
        };
        AudioTrack { bit_rate, sample_rate, channel_count, frame_length }
    }
}

/// Ticks of the 90 kHz timebase that one video frame lasts at the given
/// frame rate: `floor(90000 / fps)`.
pub fn frame_tick_increment(fps: u32) -> (r: u64)
    requires
        fps >= 1,
    ensures
        r == TIMEBASE / fps as u64,
        r <= TIMEBASE,
{
    TIMEBASE / fps as u64
}

} // verus!
