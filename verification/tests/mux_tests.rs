use minimp4::engine::PcmRead;
use minimp4::engine::mux_video_only;
use minimp4::framer::Framer;
use minimp4::framer::FramerStep;
use minimp4::framer::NalUnit;
use minimp4::framer::get_nal_size;
use minimp4::framer::split_units;
use minimp4::pcm::read_pcm_frame;
use minimp4::session::MuxError;
use minimp4::session::MuxSession;
use minimp4::tracks::AudioTrack;
use minimp4::tracks::frame_tick_increment;

/// Three well-formed units of sizes 10, 12 and 8 bytes, each led by a
/// four-byte start code.
fn three_units() -> Vec<u8> {
    let mut buf = Vec::new();
    buf.extend_from_slice(&[0, 0, 0, 1, 101, 102, 103, 104, 105, 106]);
    buf.extend_from_slice(&[0, 0, 0, 1, 21, 22, 23, 24, 25, 26, 27, 28]);
    buf.extend_from_slice(&[0, 0, 0, 1, 31, 32, 33, 34]);
    buf
}

#[test]
fn nal_size_three_byte_code() {
    // A three-byte start code at offset 5 bounds the first unit.
    let buf = [0, 0, 0, 1, 9, 0, 0, 1, 7, 7, 7, 7];
    assert_eq!(get_nal_size(&buf, buf.len()), 5);
}

#[test]
fn nal_size_four_byte_code() {
    let buf = three_units();
    assert_eq!(get_nal_size(&buf, buf.len()), 10);
}

#[test]
fn nal_size_tail_flush() {
    // No further start code: the whole remainder is the final unit.
    let buf = [0, 0, 0, 1, 5, 6, 7, 8, 9];
    assert_eq!(get_nal_size(&buf, buf.len()), 9);
}

#[test]
fn nal_size_tiny_buffers() {
    // Remainders of three bytes or fewer are returned whole, and a buffer
    // of up to six bytes has no room for a boundary in the scan window.
    for n in 0..7 {
        let buf = vec![0u8; n];
        assert_eq!(get_nal_size(&buf, n), n);
    }
}

#[test]
fn framer_steps_and_resync_progress() {
    // Two stray zero bytes precede the first start code.  The first
    // candidate is 3 bytes long (a resync signal), and the very next call
    // starts exactly one byte further.
    let mut buf = vec![0u8, 0u8];
    buf.extend_from_slice(&three_units());
    let mut framer = Framer::new();
    match framer.step(&buf) {
        FramerStep::Skip { offset } => assert_eq!(offset, 0),
        other => panic!("expected a skip, got {:?}", other),
    }
    assert_eq!(framer.cursor, 1);
    // The next candidate swallows the remaining stray byte together with
    // the first unit (11 bytes), as the scan defines it.
    match framer.step(&buf) {
        FramerStep::Unit { offset, len } => {
            assert_eq!(offset, 1);
            assert_eq!(len, 11);
        }
        other => panic!("expected a unit, got {:?}", other),
    }
    assert_eq!(framer.cursor, 12);
}

#[test]
fn split_units_partitions_clean_buffer() {
    // Unit lengths plus skips account for every byte of the buffer.
    let buf = three_units();
    let (units, skips) = split_units(&buf);
    assert_eq!(
        units,
        vec![
            NalUnit { offset: 0, len: 10 },
            NalUnit { offset: 10, len: 12 },
            NalUnit { offset: 22, len: 8 },
        ]
    );
    assert_eq!(skips, 0);
    let total: usize = units.iter().map(|u| u.len).sum();
    assert_eq!(total + skips, buf.len());
}

#[test]
fn split_units_all_stray_bytes() {
    // A buffer with no plausible boundary at all is consumed by skips and
    // one short tail candidate per call; here every byte is accounted for.
    let buf = [0u8, 0, 1];
    let (units, skips) = split_units(&buf);
    assert_eq!(units, vec![]);
    assert_eq!(skips, 3);
}

#[test]
fn scenario_three_units_video_only() {
    // Three units of 10, 12 and 8 bytes at 60 fps: three video samples of
    // 1500 ticks each, video clock ends at 4500.
    let buf = three_units();
    let (samples, ticks) = mux_video_only(&buf, 60);
    assert_eq!(samples.len(), 3);
    for s in &samples {
        assert_eq!(s.duration, 1500);
    }
    assert_eq!(samples[0].offset, 0);
    assert_eq!(samples[0].len, 10);
    assert_eq!(samples[1].offset, 10);
    assert_eq!(samples[1].len, 12);
    assert_eq!(samples[2].offset, 22);
    assert_eq!(samples[2].len, 8);
    assert_eq!(ticks, 4500);
}

#[test]
fn scenario_stray_prefix_video_only() {
    // The same buffer behind two stray zero bytes.  The scan sees a
    // three-byte candidate once and resynchronizes by one byte; the
    // remaining stray byte is swallowed by the first emitted unit, whose
    // payload is unit 1.  Three video samples still come out and the video
    // clock still ends at 4500.
    let mut buf = vec![0u8, 0u8];
    buf.extend_from_slice(&three_units());
    let (units, skips) = split_units(&buf);
    assert_eq!(skips, 1);
    assert_eq!(
        units,
        vec![
            NalUnit { offset: 1, len: 11 },
            NalUnit { offset: 12, len: 12 },
            NalUnit { offset: 24, len: 8 },
        ]
    );
    let (samples, ticks) = mux_video_only(&buf, 60);
    assert_eq!(samples.len(), 3);
    assert_eq!(ticks, 4500);
}

#[test]
fn video_ticks_formula() {
    // Five units at 25 fps: floor(90000/25) = 3600 ticks per frame.
    assert_eq!(frame_tick_increment(25), 3600);
    let mut buf = Vec::new();
    for _ in 0..5 {
        buf.extend_from_slice(&[0, 0, 0, 1, 42, 43]);
    }
    let (samples, ticks) = mux_video_only(&buf, 25);
    assert_eq!(samples.len(), 5);
    assert_eq!(ticks, 5 * 3600);
}

#[test]
fn frame_length_policy() {
    assert_eq!(AudioTrack::new(96000, 48000, 1).frame_length, 1024);
    assert_eq!(AudioTrack::new(96000, 48000, 2).frame_length, 2048);
    assert_eq!(AudioTrack::new(96000, 48000, 6).frame_length, 2048);
}

fn audio_session() -> MuxSession {
    let mut session = MuxSession::new();
    session.init_video(1280, 720, false, "video");
    session.init_audio(128000, 44100, 2);
    session
}

#[test]
fn scenario_audio_drain_two_frames() {
    // fps = 30, sample rate = 44100 Hz, two channels (frame length 2048),
    // one video unit.  The video clock jumps to 3000; the drain loop runs
    // until the audio clock catches up: 1024 samples give 2089 ticks,
    // 2048 samples give 4179 ticks >= 3000, so exactly two audio frames.
    let data = [0, 0, 0, 1, 9, 9, 9, 9, 9, 9];
    let pcm = vec![0u8; 2 * 4096];
    let session = audio_session();
    let mut eng = session
        .begin_audio_mux(data.len(), 30, pcm.len())
        .expect("audio configured");
    let v = eng.next_video(&data).expect("one unit");
    assert_eq!(v.duration, 3000);
    assert_eq!(eng.video_ticks, 3000);

    let mut frames = 0;
    while eng.drain_pending() {
        let read = eng.begin_audio_frame().expect("pcm not exhausted");
        assert_eq!(read.samples, 2048);
        assert_eq!(read.pcm_offset, frames * 2 * 2048);
        let input = read_pcm_frame(&pcm, read.pcm_offset, read.samples);
        assert_eq!(input.len(), 2048);
        let duration = eng.audio_encoded_ok();
        assert_eq!(duration, 1024 * 90000 / 44100);
        frames += 1;
    }
    assert_eq!(frames, 2);
    assert_eq!(eng.audio_ticks, 4179);
    assert!(eng.audio_ticks >= eng.video_ticks);
    assert!(eng.next_video(&data).is_none());
}

#[test]
fn drain_schedule_oracle() {
    // The all-encodes-succeed drain schedule for one video unit at 30 fps,
    // 44100 Hz stereo: two reads of 2048 samples, audio clock at 4179.
    let data = [0, 0, 0, 1, 9, 9, 9, 9, 9, 9];
    let pcm = vec![0u8; 2 * 4096];
    let session = audio_session();
    let mut eng = session
        .begin_audio_mux(data.len(), 30, pcm.len())
        .expect("audio configured");
    assert!(eng.next_video(&data).is_some());
    let reads = eng.drain_audio_reads();
    assert_eq!(
        reads,
        vec![
            PcmRead { pcm_offset: 0, samples: 2048 },
            PcmRead { pcm_offset: 4096, samples: 2048 },
        ]
    );
    assert_eq!(eng.audio_samples_emitted, 2048);
    assert_eq!(eng.audio_ticks, 4179);
    assert_eq!(eng.pcm_samples_read, 4096);
    assert!(!eng.audio_exhausted);
    assert!(!eng.drain_pending());
}

#[test]
fn scenario_encoder_failure_stops_audio() {
    // The encoder fails on the second audio frame: exactly one audio
    // sample was emitted, the drain loop stops for good, later video
    // units still produce video samples, and the failure stays visible.
    let mut data = Vec::new();
    data.extend_from_slice(&[0, 0, 0, 1, 9, 9, 9, 9, 9, 9]);
    data.extend_from_slice(&[0, 0, 0, 1, 8, 8, 8, 8]);
    let pcm = vec![0u8; 2 * 8192];
    let session = audio_session();
    let mut eng = session
        .begin_audio_mux(data.len(), 30, pcm.len())
        .expect("audio configured");

    assert!(eng.next_video(&data).is_some());
    assert!(eng.drain_pending());
    let mut audio_samples = 0;
    let mut attempts = 0;
    while eng.drain_pending() {
        attempts += 1;
        eng.begin_audio_frame().expect("pcm not exhausted");
        if attempts == 2 {
            eng.audio_encode_failed();
        } else {
            eng.audio_encoded_ok();
            audio_samples += 1;
        }
    }
    assert_eq!(audio_samples, 1);
    assert!(eng.encode_failed);
    assert!(!eng.drain_pending());

    // The next video unit is still emitted, and no audio drain follows.
    let v = eng.next_video(&data).expect("second unit");
    assert_eq!(v.len, 8);
    assert!(!eng.drain_pending());
    assert!(eng.encode_failed);
}

#[test]
fn audio_exhaustion_clamps_and_stops() {
    // A PCM buffer of 500 samples cannot fill a 2048-sample frame: the
    // read is clamped to what is left, and the next request marks the
    // audio exhausted instead of reading past the buffer.
    let data = [0, 0, 0, 1, 9, 9, 9, 9, 9, 9];
    let pcm = vec![0u8; 1000];
    let session = audio_session();
    let mut eng = session
        .begin_audio_mux(data.len(), 30, pcm.len())
        .expect("audio configured");
    assert!(eng.next_video(&data).is_some());

    assert!(eng.drain_pending());
    let read = eng.begin_audio_frame().expect("some samples left");
    assert_eq!(read.samples, 500);
    assert_eq!(read.pcm_offset, 0);
    eng.audio_encoded_ok();

    assert!(eng.drain_pending());
    assert!(eng.begin_audio_frame().is_none());
    assert!(eng.audio_exhausted);
    assert!(!eng.drain_pending());
}

#[test]
fn pcm_frame_little_endian() {
    // 0x0201 = 513, 0xFFFF = -1, 0x8000 = -32768.
    let pcm = [0x01, 0x02, 0xFF, 0xFF, 0x00, 0x80];
    let out = read_pcm_frame(&pcm, 0, 3);
    assert_eq!(out, vec![513, -1, -32768]);
    let tail = read_pcm_frame(&pcm, 2, 2);
    assert_eq!(tail, vec![-1, -32768]);
}

#[test]
fn comments_leave_tracks_alone() {
    // Registering comments, several times over, never disturbs the track
    // configurations, and every earlier label survives.
    let mut session = MuxSession::new();
    session.init_video(1920, 1080, true, "main");
    session.init_audio(96000, 48000, 1);
    let video_before = session.video;
    let audio_before = session.audio;
    session.write_comment("first comment");
    session.write_comment("second comment");
    session.write_comment("third comment");
    assert_eq!(session.video, video_before);
    assert_eq!(session.audio, audio_before);
    assert_eq!(
        session.labels,
        vec!["main", "first comment", "second comment", "third comment"]
    );
}

#[test]
fn audio_mux_requires_init_audio() {
    // An audio+video write before init_audio is refused outright.
    let mut session = MuxSession::new();
    session.init_video(640, 480, false, "video");
    let r = session.begin_audio_mux(16, 30, 1024);
    assert_eq!(r.err(), Some(MuxError::AudioNotConfigured));
}
