//! Shared data of the transcription pipeline.
//!
//! Timestamps are milliseconds, confidences are millionths (one million
//! stands for certainty), and audio levels are fixed-point fractions in
//! units of `1/65536`, so that every field is a plain value the
//! contracts can speak about exactly.

use vstd::prelude::*;

verus! {

/// Which of the two capture pipelines a value belongs to.
#[derive(Clone, Copy, Debug, PartialEq, Eq, Structural)]
pub enum AudioSource {
    Mic,
    System,
}

/// One transcript piece from the transcription service.  Interim
/// segments are superseded, never merged, by later final ones.
#[derive(Clone, Debug)]
pub struct TranscriptSegment {
    pub text: String,
    pub is_final: bool,
    /// Start time in milliseconds.
    pub timestamp: u64,
    /// Confidence in millionths.
    pub confidence: u32,
    pub source: AudioSource,
}

/// The connection lifecycle of one transcription stream.
#[derive(Clone, Copy, Debug, PartialEq, Eq, Structural)]
pub enum ConnectionStatus {
    Disconnected,
    Connecting,
    Connected,
    Reconnecting,
    Failed,
}

/// A connection state change, reported per source.
#[derive(Clone, Debug)]
pub struct ConnectionStatusEvent {
    pub source: AudioSource,
    pub status: ConnectionStatus,
    pub error: Option<String>,
}

/// Loudness of one chunk: a fixed-point fraction of full scale in
/// units of `1/65536`.
#[derive(Clone, Copy, Debug)]
pub struct AudioLevelEvent {
    pub source: AudioSource,
    pub level: u32,
}

/// One selectable capture device.  Identity is the display name; no
/// portable stable id exists.
#[derive(Clone, Debug)]
pub struct AudioDeviceInfo {
    pub name: String,
    pub id: String,
    pub is_default: bool,
}

/// An inbound message from the transcription service, already decoded
/// into plain fields.
#[derive(Debug)]
pub struct DeepgramResponse {
    pub msg_type: String,
    pub channel: Option<DeepgramChannel>,
    pub is_final: Option<bool>,
    pub speech_final: Option<bool>,
}

/// The channel part of a response.
#[derive(Debug)]
pub struct DeepgramChannel {
    pub alternatives: Vec<DeepgramAlternative>,
}

/// One recognition alternative.
#[derive(Debug)]
pub struct DeepgramAlternative {
    pub transcript: String,
    /// Confidence in millionths.
    pub confidence: u32,
    pub words: Option<Vec<DeepgramWord>>,
}

/// One recognized word with its time span.
#[derive(Debug)]
pub struct DeepgramWord {
    pub word: String,
    /// Start time in milliseconds.
    pub start: u64,
    /// End time in milliseconds.
    pub end: u64,
    /// Confidence in millionths.
    pub confidence: u32,
}

impl DeepgramResponse {
    /// Whether this message carries a transcript: a `Results` message
    /// with a channel, at least one alternative, and non-empty text.
    pub open spec fn has_transcript(self) -> bool {
        &&& self.msg_type@ == "Results"@
        &&& self.channel is Some
        &&& self.channel->Some_0.alternatives@.len() > 0
        &&& self.channel->Some_0.alternatives@[0].transcript@.len() > 0
    }

    /// The finality flag of the message, false when absent.
    pub open spec fn final_flag(self) -> bool {
        match self.is_final {
            Some(b) => b,
            None => false,
        }
    }

    /// The start time of the first word, or zero when no words are
    /// present.
    pub open spec fn start_timestamp_spec(self) -> u64 {
        match self.channel {
            None => 0,
            Some(c) => if c.alternatives@.len() == 0 {
                0
            } else {
                match c.alternatives@[0].words {
                    None => 0,
                    Some(w) => if w@.len() == 0 {
                        0
                    } else {
                        w@[0].start
                    },
                }
            },
        }
    }

    /// Extract the transcript text, confidence and finality.  Yields a
    /// value exactly for a `Results` message whose first alternative
    /// holds non-empty text.
    pub fn extract_transcript(&self) -> (r: Option<(String, u32, bool)>)
        ensures
            (r is Some) <==> self.has_transcript(),
            r matches Some(t) ==> {
                &&& t.0@ == self.channel->Some_0.alternatives@[0].transcript@
                &&& t.1 == self.channel->Some_0.alternatives@[0].confidence
                &&& t.2 == self.final_flag()
            },
    {
        let results = String::from_str("Results");
        if !(self.msg_type == results) {
            return None;
        }
        let c = match &self.channel {
            Some(c) => c,
            None => {
                return None;
            },
        };
        if c.alternatives.len() == 0 {
            return None;
        }
        let alt = &c.alternatives[0];
        if alt.transcript.as_str().is_empty() {
            return None;
        }
        let fin = match self.is_final {
            Some(b) => b,
            None => false,
        };
        Some((alt.transcript.clone(), alt.confidence, fin))
    }

    /// The start time (milliseconds) of the first word in the message,
    /// or zero when no words are present.
    pub fn start_timestamp(&self) -> (r: u64)
        ensures
            r == self.start_timestamp_spec(),
    {
        let c = match &self.channel {
            Some(c) => c,
            None => {
                return 0;
            },
        };
        if c.alternatives.len() == 0 {
            return 0;
        }
        let w = match &c.alternatives[0].words {
            Some(w) => w,
            None => {
                return 0;
            },
        };
        if w.len() == 0 {
            return 0;
        }
        w[0].start
    }
}

} // verus!
