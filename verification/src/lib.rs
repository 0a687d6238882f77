//! Core of an MP4 multiplexer: a byte-stream framer that locates access-unit
//! boundaries in an unframed Annex-B H.264/HEVC elementary stream, and a
//! dual-clock synchronization engine that interleaves video access units with
//! encoded audio frames so the emitted sample sequence stays time-ordered.
//!
//! The container serialization itself, the AAC encoding transform and the
//! storage sink are external collaborators; an unverified adapter drives them
//! with the decisions made here.

pub mod engine;
pub mod framer;
pub mod pcm;
pub mod session;
pub mod tracks;
