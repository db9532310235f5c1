//! Core logic of a dual-source live transcription pipeline.
//!
//! Audio arrives as interleaved fixed-point amplitude chunks from a
//! microphone and from a system-audio loopback.  Each chunk is downmixed
//! to mono, resampled to the transcription target rate, encoded as
//! Linear16 PCM, and streamed to a speech-to-text service over a
//! persistent connection whose reconnect, backoff, buffering and
//! keepalive decisions are made here.  Transcript segments extracted
//! from service responses can be exported as Markdown, plain text or
//! JSON.
//!
//! Amplitudes are fixed-point integers in units of `1/65536` (see
//! [`sample`]); timestamps are milliseconds; confidences are millionths.
//! The platform capture backends, sockets and timers live outside this
//! crate and only exchange plain values with it.

pub mod capture;
pub mod client;
pub mod export;
pub mod numfmt;
pub mod pipeline;
pub mod resampler;
pub mod sample;
pub mod settings;
pub mod types;
