//! Dual-clock synchronization engine.  It drives the framer through one
//! video buffer, counts the video clock up by a fixed tick increment per
//! access unit, and — when an audio track takes part — decides when audio
//! frames must be produced to keep the audio clock from falling behind the
//! video clock.
//!
//! The engine makes every decision from plain values; an unverified adapter
//! performs the external work (handing samples to the container writer,
//! running the audio encoder) and reports each encode outcome back.  Per
//! encoded frame the audio clock advances by a fixed 1024 samples and is
//! recomputed as `samples * 90000 / sample_rate`, whatever encoder input
//! length the frame-length policy selected.
//!
//! When the PCM buffer runs out the engine stops draining audio and flags
//! the exhaustion, rather than reading past the caller's buffer.

use vstd::arithmetic::div_mod::lemma_fundamental_div_mod;
use vstd::arithmetic::div_mod::lemma_mod_bound;
use vstd::math::min;
use vstd::prelude::*;

use crate::framer::get_nal_size;
use crate::framer::lemma_unit_len_at_bounds;
use crate::framer::unit_len_at;
use crate::framer::units_from;
use crate::tracks::AudioTrack;
use crate::tracks::SAMPLES_PER_AUDIO_FRAME;
use crate::tracks::TIMEBASE;

verus! {

/// Largest value allowed for `data_len * sample_rate`; it keeps every
/// 90 kHz clock product of the drain loop within `u64`.
pub const AUDIO_CLOCK_BOUND: u64 = 0x8000_0000_0000;

/// One video access unit ready for the container writer.
#[derive(PartialEq, Eq, Structural, Clone, Copy, Debug)]
pub struct VideoSample {
    /// Offset of the unit inside the caller's video buffer.
    pub offset: usize,
    /// Length of the unit in bytes; at least four.
    pub len: usize,
    /// Declared duration in 90 kHz ticks: `floor(90000 / fps)`.
    pub duration: u32,
}

/// One encoder input read decided by the drain loop.
#[derive(PartialEq, Eq, Structural, Clone, Copy, Debug)]
pub struct PcmRead {
    /// Byte offset into the caller's PCM buffer.
    pub pcm_offset: usize,
    /// Number of 16-bit samples to read; positive, at most the frame length.
    pub samples: usize,
}

/// Total number of samples scheduled by a sequence of reads.
pub open spec fn total_samples(reads: Seq<PcmRead>) -> int
    decreases reads.len(),
{
    if reads.len() == 0 {
        0
    } else {
        total_samples(reads.drop_last()) + reads.last().samples
    }
}

/// Cursor position of the first emitted unit at or after `c`, skipping
/// resync bytes; `s.len()` when no further unit exists.
pub open spec fn next_unit_cursor(s: Seq<u8>, c: int) -> int
    decreases s.len() - c,
        when 0 <= c
{
    if c >= s.len() {
        s.len() as int
    } else if unit_len_at(s, c) < 4 {
        next_unit_cursor(s, c + 1)
    } else {
        c
    }
}

/// `next_unit_cursor` stays within the buffer, lands on a unit of length at
/// least four when it lands before the end, and decomposes `units_from`.
pub proof fn lemma_next_unit_cursor(s: Seq<u8>, c: int)
    requires
        0 <= c <= s.len(),
    ensures
        c <= next_unit_cursor(s, c) <= s.len(),
        next_unit_cursor(s, c) < s.len() ==> {
            &&& unit_len_at(s, next_unit_cursor(s, c)) >= 4
            &&& next_unit_cursor(s, c) + unit_len_at(s, next_unit_cursor(s, c)) <= s.len()
            &&& units_from(s, c) == seq![
                (next_unit_cursor(s, c), unit_len_at(s, next_unit_cursor(s, c))),
            ] + units_from(s, next_unit_cursor(s, c) + unit_len_at(s, next_unit_cursor(s, c)))
        },
        next_unit_cursor(s, c) == s.len() ==> units_from(s, c) =~= Seq::<(int, int)>::empty(),
    decreases s.len() - c,
{
    if c < s.len() {
        lemma_unit_len_at_bounds(s, c);
        if unit_len_at(s, c) < 4 {
            lemma_next_unit_cursor(s, c + 1);
        }
    }
}

/// The synchronization state of one multiplexing call: one video clock, and
/// when audio takes part, one audio clock that must not be left behind.
pub struct SyncEngine {
    /// Length of the video buffer this call processes.
    pub data_len: usize,
    /// Offset of the first unconsumed video byte.
    pub cursor: usize,
    /// Ticks the video clock advances per access unit: `floor(90000/fps)`.
    pub tick_inc: u64,
    /// Video clock in 90 kHz ticks.
    pub video_ticks: u64,
    /// Number of video samples emitted so far.
    pub videos_emitted: u64,
    /// True when this call interleaves an audio stream.
    pub audio: bool,
    /// PCM sample rate in Hz; positive when `audio`.
    pub sample_rate: u32,
    /// Samples read per encoder input frame (1024 or 2048).
    pub frame_length: usize,
    /// Total 16-bit samples available in the caller's PCM buffer.
    pub pcm_samples_total: usize,
    /// Samples already consumed from the PCM buffer; never rewound.
    pub pcm_samples_read: usize,
    /// Audio samples accounted to the audio clock; advances by 1024 per
    /// encoded frame.
    pub audio_samples_emitted: u64,
    /// Audio clock in 90 kHz ticks: `audio_samples_emitted * 90000 / sample_rate`.
    pub audio_ticks: u64,
    /// True while the drain loop may still produce audio frames.
    pub audio_active: bool,
    /// True once the external encoder reported a failure; audio stops for
    /// the remainder of the call, video continues.
    pub encode_failed: bool,
    /// True once the PCM buffer ran out; audio stops for the remainder of
    /// the call.
    pub audio_exhausted: bool,
}

impl SyncEngine {
    /// Well-formedness: the clocks agree with their counters, every counter
    /// stays in bounds, and the size limits keep all 90 kHz arithmetic
    /// within `u64`.
    pub open spec fn wf(self) -> bool {
        &&& self.cursor <= self.data_len
        &&& self.tick_inc <= TIMEBASE
        &&& self.videos_emitted <= self.cursor
        &&& self.video_ticks == self.videos_emitted * self.tick_inc
        &&& self.data_len * TIMEBASE <= u64::MAX
        &&& self.audio_active == (self.audio && !self.encode_failed && !self.audio_exhausted)
        &&& (self.audio ==> {
            &&& self.sample_rate >= 1
            &&& (self.frame_length == 1024 || self.frame_length == 2048)
            &&& self.pcm_samples_total <= usize::MAX / 2
            &&& self.pcm_samples_read <= self.pcm_samples_total
            &&& self.data_len * self.sample_rate <= AUDIO_CLOCK_BOUND
            &&& self.audio_ticks == self.audio_samples_emitted * TIMEBASE / self.sample_rate as int
            &&& self.audio_samples_emitted * TIMEBASE <= self.video_ticks * self.sample_rate
                + SAMPLES_PER_AUDIO_FRAME * TIMEBASE
        })
    }

    /// The video-side state is unchanged between `a` and `b`.
    pub open spec fn same_video_state(a: SyncEngine, b: SyncEngine) -> bool {
        &&& a.data_len == b.data_len
        &&& a.cursor == b.cursor
        &&& a.tick_inc == b.tick_inc
        &&& a.video_ticks == b.video_ticks
        &&& a.videos_emitted == b.videos_emitted
    }

    /// The audio configuration is unchanged between `a` and `b`.
    pub open spec fn same_audio_config(a: SyncEngine, b: SyncEngine) -> bool {
        &&& a.audio == b.audio
        &&& a.sample_rate == b.sample_rate
        &&& a.frame_length == b.frame_length
        &&& a.pcm_samples_total == b.pcm_samples_total
    }

    /// The audio clock and PCM cursor are unchanged between `a` and `b`.
    pub open spec fn same_audio_clock(a: SyncEngine, b: SyncEngine) -> bool {
        &&& a.pcm_samples_read == b.pcm_samples_read
        &&& a.audio_samples_emitted == b.audio_samples_emitted
        &&& a.audio_ticks == b.audio_ticks
    }

    /// The drain-control flags are unchanged between `a` and `b`.
    pub open spec fn same_audio_flags(a: SyncEngine, b: SyncEngine) -> bool {
        &&& a.audio_active == b.audio_active
        &&& a.encode_failed == b.encode_failed
        &&& a.audio_exhausted == b.audio_exhausted
    }

    /// An engine for a video-only call: the audio clock takes no part.
    pub fn video_only(data_len: usize, fps: u32) -> (e: SyncEngine)
        requires
            fps >= 1,
            data_len * TIMEBASE <= u64::MAX,
        ensures
            e.wf(),
            e.data_len == data_len,
            e.cursor == 0,
            e.tick_inc == TIMEBASE / fps as u64,
            e.video_ticks == 0,
            e.videos_emitted == 0,
            !e.audio,
            !e.audio_active,
            !e.encode_failed,
            !e.audio_exhausted,
    {
        SyncEngine {
            data_len,
            cursor: 0,
            tick_inc: crate::tracks::frame_tick_increment(fps),
            video_ticks: 0,
            videos_emitted: 0,
            audio: false,
            sample_rate: 1,
            frame_length: 1024,
            pcm_samples_total: 0,
            pcm_samples_read: 0,
            audio_samples_emitted: 0,
            audio_ticks: 0,
            audio_active: false,
            encode_failed: false,
            audio_exhausted: false,
        }
    }

    /// An engine for an audio+video call over a PCM buffer of `pcm_len`
    /// bytes, holding two 16-bit samples per byte pair.
    pub fn with_audio(data_len: usize, fps: u32, track: &AudioTrack, pcm_len: usize) -> (e:
        SyncEngine)
        requires
            fps >= 1,
            track.wf(),
            data_len * TIMEBASE <= u64::MAX,
            data_len * track.sample_rate <= AUDIO_CLOCK_BOUND,
        ensures
            e.wf(),
            e.data_len == data_len,
            e.cursor == 0,
            e.tick_inc == TIMEBASE / fps as u64,
            e.video_ticks == 0,
            e.videos_emitted == 0,
            e.audio,
            e.audio_active,
            !e.encode_failed,
            !e.audio_exhausted,
            e.sample_rate == track.sample_rate,
            e.frame_length == track.frame_length,
            e.pcm_samples_total == pcm_len / 2,
            e.pcm_samples_read == 0,
            e.audio_samples_emitted == 0,
            e.audio_ticks == 0,
    {
        SyncEngine {
            data_len,
            cursor: 0,
            tick_inc: crate::tracks::frame_tick_increment(fps),
            video_ticks: 0,
            videos_emitted: 0,
            audio: true,
            sample_rate: track.sample_rate,
            frame_length: track.frame_length,
            pcm_samples_total: pcm_len / 2,
            pcm_samples_read: 0,
            audio_samples_emitted: 0,
            audio_ticks: 0,
            audio_active: true,
            encode_failed: false,
            audio_exhausted: false,
        }
    }

    /// True while the drain loop must produce another audio frame: audio is
    /// still active and the audio clock is strictly behind the video clock.
    pub fn drain_pending(&self) -> (r: bool)
        ensures
            r == (self.audio_active && self.audio_ticks < self.video_ticks),
    {
        self.audio_active && self.audio_ticks < self.video_ticks
    }

    /// Advance to the next access unit of the video buffer, consuming any
    /// resync bytes on the way, and count the video clock up by one frame
    /// duration.  Returns `None` when the buffer is exhausted.
    pub fn next_video(&mut self, data: &[u8]) -> (r: Option<VideoSample>)
        requires
            old(self).wf(),
            data@.len() == old(self).data_len,
        ensures
            final(self).wf(),
            final(self).data_len == old(self).data_len,
            final(self).tick_inc == old(self).tick_inc,
            SyncEngine::same_audio_config(*old(self), *final(self)),
            SyncEngine::same_audio_clock(*old(self), *final(self)),
            SyncEngine::same_audio_flags(*old(self), *final(self)),
            ({
                let c1 = next_unit_cursor(data@, old(self).cursor as int);
                if c1 == data@.len() {
                    &&& r == None::<VideoSample>
                    &&& final(self).cursor == data@.len()
                    &&& final(self).video_ticks == old(self).video_ticks
                    &&& final(self).videos_emitted == old(self).videos_emitted
                } else {
                    let n = unit_len_at(data@, c1);
                    &&& r == Some(VideoSample {
                        offset: c1 as usize,
                        len: n as usize,
                        duration: old(self).tick_inc as u32,
                    })
                    &&& 4 <= n
                    &&& old(self).cursor <= c1
                    &&& c1 + n <= data@.len()
                    &&& final(self).cursor == c1 + n
                    &&& final(self).video_ticks == old(self).video_ticks + old(self).tick_inc
                    &&& final(self).videos_emitted == old(self).videos_emitted + 1
                }
            }),
    {
        while self.cursor < self.data_len
            invariant
                self.wf(),
                data@.len() == self.data_len,
                self.data_len == old(self).data_len,
                self.tick_inc == old(self).tick_inc,
                self.video_ticks == old(self).video_ticks,
                self.videos_emitted == old(self).videos_emitted,
                SyncEngine::same_audio_config(*old(self), *self),
                SyncEngine::same_audio_clock(*old(self), *self),
                SyncEngine::same_audio_flags(*old(self), *self),
                old(self).cursor <= self.cursor,
                next_unit_cursor(data@, self.cursor as int) == next_unit_cursor(
                    data@,
                    old(self).cursor as int,
                ),
            decreases self.data_len - self.cursor,
        {
            let ghost c = self.cursor as int;
            proof {
                lemma_unit_len_at_bounds(data@, c);
            }
            let rest = vstd::slice::slice_subrange(data, self.cursor, data.len());
            let n = get_nal_size(rest, data.len() - self.cursor);
            if n < 4 {
                self.cursor = self.cursor + 1;
            } else {
                let offset = self.cursor;
                let ghost v1 = self.videos_emitted + 1;
                proof {
                    assert(next_unit_cursor(data@, c) == c);
                    assert(v1 <= self.data_len);
                    assert(v1 * self.tick_inc <= self.data_len * TIMEBASE) by (nonlinear_arith)
                        requires
                            v1 <= self.data_len,
                            self.tick_inc <= TIMEBASE,
                            0 <= v1,
                            0 <= self.tick_inc,
                    ;
                    assert(v1 * self.tick_inc == self.videos_emitted * self.tick_inc
                        + self.tick_inc) by (nonlinear_arith)
                        requires
                            v1 == self.videos_emitted + 1,
                    ;
                    assert((self.video_ticks + self.tick_inc) * self.sample_rate
                        >= self.video_ticks * self.sample_rate) by (nonlinear_arith)
                        requires
                            0 <= self.sample_rate,
                            0 <= self.tick_inc,
                            0 <= self.video_ticks,
                    ;
                }
                self.cursor = self.cursor + n;
                self.videos_emitted = self.videos_emitted + 1;
                self.video_ticks = self.video_ticks + self.tick_inc;
                return Some(
                    VideoSample { offset, len: n, duration: self.tick_inc as u32 },
                );
            }
        }
        None
    }

    /// Decide the next encoder input read of the drain loop: up to one
    /// frame length of samples, clamped to what the PCM buffer still
    /// holds.  When nothing is left, audio is marked exhausted instead of
    /// reading past the buffer, and `None` is returned.
    pub fn begin_audio_frame(&mut self) -> (r: Option<PcmRead>)
        requires
            old(self).wf(),
            old(self).audio_active,
            old(self).audio_ticks < old(self).video_ticks,
        ensures
            final(self).wf(),
            SyncEngine::same_video_state(*old(self), *final(self)),
            SyncEngine::same_audio_config(*old(self), *final(self)),
            final(self).audio_samples_emitted == old(self).audio_samples_emitted,
            final(self).audio_ticks == old(self).audio_ticks,
            final(self).encode_failed == old(self).encode_failed,
            ({
                let remaining = old(self).pcm_samples_total - old(self).pcm_samples_read;
                if remaining == 0 {
                    &&& r == None::<PcmRead>
                    &&& !final(self).audio_active
                    &&& final(self).audio_exhausted
                    &&& final(self).pcm_samples_read == old(self).pcm_samples_read
                } else {
                    &&& r == Some(PcmRead {
                        pcm_offset: (old(self).pcm_samples_read * 2) as usize,
                        samples: min(remaining, old(self).frame_length as int) as usize,
                    })
                    &&& final(self).pcm_samples_read == old(self).pcm_samples_read + min(
                        remaining,
                        old(self).frame_length as int,
                    )
                    &&& final(self).audio_active
                    &&& !final(self).audio_exhausted
                }
            }),
            (r matches Some(p) ==> {
                &&& 1 <= p.samples <= old(self).frame_length
                &&& p.pcm_offset + 2 * p.samples <= 2 * old(self).pcm_samples_total
            }),
    {
        let remaining = self.pcm_samples_total - self.pcm_samples_read;
        if remaining == 0 {
            self.audio_active = false;
            self.audio_exhausted = true;
            None
        } else {
            let take = if remaining < self.frame_length {
                remaining
            } else {
                self.frame_length
            };
            let pcm_offset = self.pcm_samples_read * 2;
            self.pcm_samples_read = self.pcm_samples_read + take;
            Some(PcmRead { pcm_offset, samples: take })
        }
    }

    /// Account one successfully encoded audio frame: the sample counter
    /// advances by the fixed 1024 samples and the audio clock is recomputed
    /// from it.  Returns the sample's declared duration in 90 kHz ticks.
    pub fn audio_encoded_ok(&mut self) -> (duration: u64)
        requires
            old(self).wf(),
            old(self).audio_active,
            old(self).audio_ticks < old(self).video_ticks,
        ensures
            final(self).wf(),
            SyncEngine::same_video_state(*old(self), *final(self)),
            SyncEngine::same_audio_config(*old(self), *final(self)),
            SyncEngine::same_audio_flags(*old(self), *final(self)),
            final(self).pcm_samples_read == old(self).pcm_samples_read,
            final(self).audio_samples_emitted == old(self).audio_samples_emitted
                + SAMPLES_PER_AUDIO_FRAME,
            final(self).audio_ticks == (old(self).audio_samples_emitted
                + SAMPLES_PER_AUDIO_FRAME) * TIMEBASE / old(self).sample_rate as int,
            duration == SAMPLES_PER_AUDIO_FRAME * TIMEBASE / old(self).sample_rate as int,
    {
        let ghost s0 = self.audio_samples_emitted as int;
        let ghost sr = self.sample_rate as int;
        let ghost vt = self.video_ticks as int;
        proof {
            lemma_fundamental_div_mod(s0 * (TIMEBASE as int), sr);
            lemma_mod_bound(s0 * (TIMEBASE as int), sr);
            let ghost at = self.audio_ticks as int;
            let ghost rem = (s0 * (TIMEBASE as int)) % sr;
            assert(s0 * TIMEBASE < vt * sr) by (nonlinear_arith)
                requires
                    sr >= 1,
                    at < vt,
                    s0 * TIMEBASE == sr * at + rem,
                    0 <= rem < sr,
            ;
            assert(vt * sr <= AUDIO_CLOCK_BOUND * TIMEBASE) by (nonlinear_arith)
                requires
                    vt == self.videos_emitted * self.tick_inc,
                    self.videos_emitted <= self.data_len,
                    self.tick_inc <= TIMEBASE,
                    self.data_len * sr <= AUDIO_CLOCK_BOUND,
                    0 <= self.videos_emitted,
                    0 <= self.tick_inc,
                    1 <= sr,
                    0 <= self.data_len,
            ;
        }
        self.audio_samples_emitted = self.audio_samples_emitted + 1024;
        self.audio_ticks = self.audio_samples_emitted * TIMEBASE / (self.sample_rate as u64);
        1024 * TIMEBASE / (self.sample_rate as u64)
    }

    /// Reference oracle for the drain loop: the schedule of encoder input
    /// reads the engine requests when every encode succeeds, draining
    /// until the audio clock has caught up with the video clock or the
    /// PCM buffer has run out.  The reads are the consecutive clamped
    /// reads of the drain policy: each starts where the previous one
    /// ended and takes one frame length of samples, clamped to what the
    /// buffer still holds; exhaustion is declared only when the buffer
    /// truly ran dry.  The loop provably terminates: while the audio
    /// clock is behind, each accounted frame narrows the gap between the
    /// two clocks' sample products by a fixed amount.
    pub fn drain_audio_reads(&mut self) -> (reads: Vec<PcmRead>)
        requires
            old(self).wf(),
        ensures
            final(self).wf(),
            SyncEngine::same_video_state(*old(self), *final(self)),
            SyncEngine::same_audio_config(*old(self), *final(self)),
            final(self).encode_failed == old(self).encode_failed,
            !(final(self).audio_active && final(self).audio_ticks < final(self).video_ticks),
            final(self).audio_samples_emitted == old(self).audio_samples_emitted
                + SAMPLES_PER_AUDIO_FRAME * reads@.len(),
            final(self).pcm_samples_read == old(self).pcm_samples_read + total_samples(reads@),
            final(self).audio_exhausted ==> old(self).audio_exhausted
                || final(self).pcm_samples_read == old(self).pcm_samples_total,
            !final(self).audio_exhausted ==> !old(self).audio_exhausted,
            forall|i: int|
                0 <= i < reads@.len() ==> {
                    let consumed = old(self).pcm_samples_read + total_samples(reads@.take(i));
                    &&& (#[trigger] reads@[i]).pcm_offset == 2 * consumed
                    &&& reads@[i].samples == min(
                        old(self).pcm_samples_total - consumed,
                        old(self).frame_length as int,
                    )
                    &&& 1 <= reads@[i].samples <= old(self).frame_length
                    &&& reads@[i].pcm_offset + 2 * reads@[i].samples <= 2 * old(
                        self,
                    ).pcm_samples_total
                },
    {
        let mut reads: Vec<PcmRead> = Vec::new();
        loop
            invariant_except_break
                self.wf(),
                SyncEngine::same_video_state(*old(self), *self),
                SyncEngine::same_audio_config(*old(self), *self),
                self.encode_failed == old(self).encode_failed,
                self.audio_exhausted == old(self).audio_exhausted,
                self.audio_samples_emitted == old(self).audio_samples_emitted
                    + SAMPLES_PER_AUDIO_FRAME * reads@.len(),
                self.pcm_samples_read == old(self).pcm_samples_read + total_samples(reads@),
                forall|i: int|
                    0 <= i < reads@.len() ==> {
                        let consumed = old(self).pcm_samples_read + total_samples(
                            reads@.take(i),
                        );
                        &&& (#[trigger] reads@[i]).pcm_offset == 2 * consumed
                        &&& reads@[i].samples == min(
                            old(self).pcm_samples_total - consumed,
                            old(self).frame_length as int,
                        )
                        &&& 1 <= reads@[i].samples <= old(self).frame_length
                        &&& reads@[i].pcm_offset + 2 * reads@[i].samples <= 2 * old(
                            self,
                        ).pcm_samples_total
                    },
            ensures
                self.wf(),
                SyncEngine::same_video_state(*old(self), *self),
                SyncEngine::same_audio_config(*old(self), *self),
                self.encode_failed == old(self).encode_failed,
                !(self.audio_active && self.audio_ticks < self.video_ticks),
                self.audio_samples_emitted == old(self).audio_samples_emitted
                    + SAMPLES_PER_AUDIO_FRAME * reads@.len(),
                self.pcm_samples_read == old(self).pcm_samples_read + total_samples(reads@),
                self.audio_exhausted ==> old(self).audio_exhausted || self.pcm_samples_read
                    == old(self).pcm_samples_total,
                !self.audio_exhausted ==> !old(self).audio_exhausted,
                forall|i: int|
                    0 <= i < reads@.len() ==> {
                        let consumed = old(self).pcm_samples_read + total_samples(
                            reads@.take(i),
                        );
                        &&& (#[trigger] reads@[i]).pcm_offset == 2 * consumed
                        &&& reads@[i].samples == min(
                            old(self).pcm_samples_total - consumed,
                            old(self).frame_length as int,
                        )
                        &&& 1 <= reads@[i].samples <= old(self).frame_length
                        &&& reads@[i].pcm_offset + 2 * reads@[i].samples <= 2 * old(
                            self,
                        ).pcm_samples_total
                    },
            decreases (if self.audio_ticks < self.video_ticks {
                self.video_ticks * self.sample_rate - self.audio_samples_emitted * TIMEBASE
            } else {
                0int
            }),
        {
            if !(self.audio_active && self.audio_ticks < self.video_ticks) {
                break;
            }
            proof {
                lemma_audio_behind(*self);
            }
            let ghost st0 = *self;
            let ghost prev = reads@;
            match self.begin_audio_frame() {
                Some(read) => {
                    self.audio_encoded_ok();
                    reads.push(read);
                    proof {
                        if self.audio_ticks < self.video_ticks {
                            lemma_audio_behind(*self);
                        }
                        assert(reads@.drop_last() =~= prev);
                        assert(total_samples(reads@) == total_samples(prev) + read.samples);
                        assert forall|i: int| 0 <= i < reads@.len() implies {
                            let consumed = old(self).pcm_samples_read + total_samples(
                                reads@.take(i),
                            );
                            &&& (#[trigger] reads@[i]).pcm_offset == 2 * consumed
                            &&& reads@[i].samples == min(
                                old(self).pcm_samples_total - consumed,
                                old(self).frame_length as int,
                            )
                            &&& 1 <= reads@[i].samples <= old(self).frame_length
                            &&& reads@[i].pcm_offset + 2 * reads@[i].samples <= 2 * old(
                                self,
                            ).pcm_samples_total
                        } by {
                            if i < reads@.len() - 1 {
                                assert(reads@.take(i) =~= prev.take(i));
                                assert(reads@[i] == prev[i]);
                            } else {
                                assert(reads@.take(i) =~= prev);
                                assert(reads@[i] == read);
                            }
                        }
                    }
                },
                None => {
                    break;
                },
            }
        }
        reads
    }

    /// Record that the external encoder failed on a frame: the drain loop
    /// is disabled for the remainder of the call, and the failure stays
    /// observable; video processing is unaffected.
    pub fn audio_encode_failed(&mut self)
        requires
            old(self).wf(),
            old(self).audio,
        ensures
            final(self).wf(),
            SyncEngine::same_video_state(*old(self), *final(self)),
            SyncEngine::same_audio_config(*old(self), *final(self)),
            SyncEngine::same_audio_clock(*old(self), *final(self)),
            !final(self).audio_active,
            final(self).encode_failed,
            final(self).audio_exhausted == old(self).audio_exhausted,
    {
        self.audio_active = false;
        self.encode_failed = true;
    }
}

/// The `(offset, length)` spans of a sequence of emitted video samples.
pub open spec fn video_samples_view(v: Seq<VideoSample>) -> Seq<(int, int)> {
    v.map_values(|s: VideoSample| (s.offset as int, s.len as int))
}

/// Process one whole video buffer without audio: every access unit becomes
/// one video sample of duration `floor(90000/fps)` ticks, and the video
/// clock ends at exactly `floor(90000/fps)` ticks per emitted sample.
pub fn mux_video_only(data: &[u8], fps: u32) -> (r: (Vec<VideoSample>, u64))
    requires
        fps >= 1,
        data@.len() * TIMEBASE <= u64::MAX,
    ensures
        video_samples_view(r.0@) == units_from(data@, 0),
        forall|i: int|
            0 <= i < r.0@.len() ==> (#[trigger] r.0@[i]).duration == TIMEBASE / fps as u64,
        r.1 == r.0@.len() * (TIMEBASE / fps as u64),
{
    let mut eng = SyncEngine::video_only(data.len(), fps);
    let mut samples: Vec<VideoSample> = Vec::new();
    let mut done = false;
    while !done
        invariant
            eng.wf(),
            eng.data_len == data@.len(),
            eng.tick_inc == TIMEBASE / fps as u64,
            samples@.len() == eng.videos_emitted,
            units_from(data@, 0) == video_samples_view(samples@) + units_from(
                data@,
                eng.cursor as int,
            ),
            forall|i: int|
                0 <= i < samples@.len() ==> (#[trigger] samples@[i]).duration == TIMEBASE
                    / fps as u64,
            done ==> eng.cursor == data@.len(),
        decreases data@.len() - eng.cursor, (if done { 0int } else { 1int }),
    {
        let ghost c = eng.cursor as int;
        let ghost before = samples@;
        proof {
            lemma_next_unit_cursor(data@, c);
        }
        match eng.next_video(data) {
            Some(v) => {
                samples.push(v);
                proof {
                    let c1 = next_unit_cursor(data@, c);
                    let n = unit_len_at(data@, c1);
                    assert(video_samples_view(samples@) =~= video_samples_view(before).push(
                        (c1, n),
                    ));
                    assert(video_samples_view(before) + units_from(data@, c)
                        =~= video_samples_view(samples@) + units_from(data@, c1 + n));
                }
            },
            None => {
                done = true;
                proof {
                    assert(units_from(data@, eng.cursor as int)
                        =~= Seq::<(int, int)>::empty());
                    assert(video_samples_view(samples@) + units_from(data@, eng.cursor as int)
                        =~= video_samples_view(samples@));
                }
            },
        }
    }
    let ticks = eng.video_ticks;
    (samples, ticks)
}

/// While the audio clock is strictly behind the video clock, the product
/// of emitted audio samples and the timebase is strictly below the product
/// of the video clock and the sample rate: the gap the drain loop narrows.
proof fn lemma_audio_behind(e: SyncEngine)
    requires
        e.wf(),
        e.audio,
        e.audio_ticks < e.video_ticks,
    ensures
        e.audio_samples_emitted * TIMEBASE < e.video_ticks * e.sample_rate,
{
    let s0 = e.audio_samples_emitted as int;
    let sr = e.sample_rate as int;
    let vt = e.video_ticks as int;
    let at = e.audio_ticks as int;
    lemma_fundamental_div_mod(s0 * (TIMEBASE as int), sr);
    lemma_mod_bound(s0 * (TIMEBASE as int), sr);
    let rem = (s0 * (TIMEBASE as int)) % sr;
    assert(s0 * TIMEBASE < vt * sr) by (nonlinear_arith)
        requires
            sr >= 1,
            at < vt,
            s0 * TIMEBASE == sr * at + rem,
            0 <= rem < sr,
    ;
}

/// Audio-drain exit law: when the drain guard no longer holds and audio
/// has been disabled neither by an encode failure nor by PCM exhaustion,
/// the audio clock has caught up with the video clock — the loop never
/// stops draining while the audio clock is strictly behind.
pub proof fn lemma_drain_exit(e: SyncEngine)
    requires
        e.wf(),
        !(e.audio_active && e.audio_ticks < e.video_ticks),
        e.audio,
        !e.encode_failed,
        !e.audio_exhausted,
    ensures
        e.audio_ticks >= e.video_ticks,
{
}

} // verus!
