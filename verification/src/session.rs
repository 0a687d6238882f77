//! Per-muxer session state: the registered track configurations and the
//! text labels (track names and comments) whose storage must outlive the
//! container writer.  Registering a comment never disturbs a previously
//! registered track configuration.

use vstd::prelude::*;
use vstd::string::StringExecFns;

use crate::engine::AUDIO_CLOCK_BOUND;
use crate::engine::SyncEngine;
use crate::tracks::AudioTrack;
use crate::tracks::TIMEBASE;
use crate::tracks::VideoTrack;

verus! {

/// Failures of a multiplexing call that are detected before any work is
/// performed.
#[derive(PartialEq, Eq, Structural, Clone, Copy, Debug)]
pub enum MuxError {
    /// An audio+video write was requested before `init_audio` configured
    /// an audio track.
    AudioNotConfigured,
}

/// The configuration a muxer accumulates across `init_video`,
/// `init_audio` and `write_comment` calls.
pub struct MuxSession {
    /// Video track geometry, once `init_video` has run.
    pub video: Option<VideoTrack>,
    /// Audio track parameters, once `init_audio` has run.
    pub audio: Option<AudioTrack>,
    /// Track names and comments, in registration order.
    pub labels: Vec<String>,
}

impl MuxSession {
    /// A registered audio track always satisfies its own invariant.
    pub open spec fn wf(self) -> bool {
        self.audio matches Some(t) ==> t.wf()
    }

    /// A fresh session: nothing configured, nothing registered.
    pub fn new() -> (r: MuxSession)
        ensures
            r.wf(),
            r.video == None::<VideoTrack>,
            r.audio == None::<AudioTrack>,
            r.labels@ =~= Seq::<String>::empty(),
    {
        MuxSession { video: None, audio: None, labels: Vec::new() }
    }

    /// Register the video track: its geometry is recorded and its name is
    /// kept alive; the audio configuration and earlier labels are
    /// untouched.
    pub fn init_video(&mut self, width: i32, height: i32, is_hevc: bool, track_name: &str)
        requires
            old(self).wf(),
        ensures
            final(self).wf(),
            final(self).video == Some((VideoTrack { width, height, is_hevc })),
            final(self).audio == old(self).audio,
            final(self).labels@.len() == old(self).labels@.len() + 1,
            forall|i: int|
                0 <= i < old(self).labels@.len() ==> final(self).labels@[i] == old(
                    self,
                ).labels@[i],
            final(self).labels@.last()@ == track_name@,
    {
        self.video = Some(VideoTrack::new(width, height, is_hevc));
        self.labels.push(String::from_str(track_name));
    }

    /// Register the audio track parameters; the frame-length policy is
    /// fixed here.  The video configuration and the labels are untouched.
    pub fn init_audio(&mut self, bit_rate: u32, sample_rate: u32, channel_count: u32)
        requires
            old(self).wf(),
            sample_rate >= 1,
        ensures
            final(self).wf(),
            final(self).audio == Some((AudioTrack {
                bit_rate,
                sample_rate,
                channel_count,
                frame_length: crate::tracks::spec_frame_length(channel_count),
            })),
            final(self).video == old(self).video,
            final(self).labels@ == old(self).labels@,
    {
        self.audio = Some(AudioTrack::new(bit_rate, sample_rate, channel_count));
    }

    /// Register one comment.  Comment registrations are independent: the
    /// track configurations and every earlier label survive unchanged,
    /// however many comments are registered.
    pub fn write_comment(&mut self, comment: &str)
        requires
            old(self).wf(),
        ensures
            final(self).wf(),
            final(self).video == old(self).video,
            final(self).audio == old(self).audio,
            final(self).labels@.len() == old(self).labels@.len() + 1,
            forall|i: int|
                0 <= i < old(self).labels@.len() ==> final(self).labels@[i] == old(
                    self,
                ).labels@[i],
            final(self).labels@.last()@ == comment@,
    {
        self.labels.push(String::from_str(comment));
    }

    /// Start an audio+video multiplexing call.  Succeeds exactly when an
    /// audio track has been configured; otherwise nothing is done and the
    /// precondition violation is reported.
    pub fn begin_audio_mux(&self, data_len: usize, fps: u32, pcm_len: usize) -> (r: Result<
        SyncEngine,
        MuxError,
    >)
        requires
            self.wf(),
            fps >= 1,
            data_len * TIMEBASE <= u64::MAX,
            (self.audio matches Some(t) ==> data_len * t.sample_rate <= AUDIO_CLOCK_BOUND),
        ensures
            r is Ok <==> self.audio is Some,
            self.audio is None ==> r == Err::<SyncEngine, MuxError>(MuxError::AudioNotConfigured),
            (r matches Ok(e) ==> {
                &&& e.wf()
                &&& e.data_len == data_len
                &&& e.cursor == 0
                &&& e.tick_inc == TIMEBASE / fps as u64
                &&& e.video_ticks == 0
                &&& e.videos_emitted == 0
                &&& e.audio
                &&& e.audio_active
                &&& !e.encode_failed
                &&& !e.audio_exhausted
                &&& e.pcm_samples_total == pcm_len / 2
                &&& e.pcm_samples_read == 0
                &&& e.audio_samples_emitted == 0
                &&& e.audio_ticks == 0
                &&& self.audio matches Some(t) && e.sample_rate == t.sample_rate
                    && e.frame_length == t.frame_length
            }),
    {
        match &self.audio {
            Some(track) => Ok(SyncEngine::with_audio(data_len, fps, track, pcm_len)),
            None => Err(MuxError::AudioNotConfigured),
        }
    }
}

} // verus!
