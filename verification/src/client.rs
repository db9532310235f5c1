//! Decisions of the transcription client: one persistent connection
//! per audio source, with reconnect counting, exponential backoff,
//! audio buffering across outages, keepalive timing, and the exact
//! bytes and control messages that go over the wire.
//!
//! The socket itself, timers and the event loop live outside this
//! crate; they feed connection outcomes and inbound messages to these
//! functions and perform the actions they decide.

use vstd::prelude::*;
use crate::numfmt::{dec_spec, dec_u64};
use crate::types::{AudioSource, ConnectionStatus, DeepgramResponse, TranscriptSegment};

verus! {

/// After this many consecutive connection failures the client stops
/// for good.
pub const MAX_RECONNECT_ATTEMPTS: u32 = 5;

/// A keepalive is due when no audio went out for this long.
pub const KEEPALIVE_INTERVAL_SECS: u64 = 10;

/// Retained chunks across an outage: about thirty seconds of audio at
/// one chunk per two hundred milliseconds.
pub const MAX_BUFFER_CHUNKS: usize = 150;

/// Backoff delays never exceed this many seconds.
pub const BACKOFF_CAP_SECS: u64 = 30;

/// How long to wait for acknowledgment after the closing control
/// message, in seconds.
pub const CLOSE_GRACE_SECS: u64 = 2;

/// Connection settings for one transcription stream.
pub struct DeepgramConfig {
    pub api_key: String,
    pub language: String,
    pub model: String,
    pub sample_rate: u32,
}

impl Default for DeepgramConfig {
    /// An empty key, English, the default model, and the pipeline's
    /// target rate.
    fn default() -> (c: Self)
        ensures
            c.api_key@ == Seq::<char>::empty(),
            c.language@ == "en"@,
            c.model@ == "nova-2"@,
            c.sample_rate == 16000,
    {
        DeepgramConfig {
            api_key: String::new(),
            language: String::from_str("en"),
            model: String::from_str("nova-2"),
            sample_rate: 16000,
        }
    }
}

/// The connection URL: endpoint plus the query that selects Linear16
/// encoding, the sample rate, one channel, punctuation, smart
/// formatting, interim results, a 300 ms endpointing threshold, voice
/// activity events, and the configured language and model.
pub open spec fn ws_url_spec(c: &DeepgramConfig) -> Seq<char> {
    "wss://api.deepgram.com/v1/listen?encoding=linear16&sample_rate="@
        + dec_spec(c.sample_rate as int)
        + "&channels=1&punctuate=true&smart_format=true&interim_results=true&endpointing=300&vad_events=true&language="@
        + c.language@ + "&model="@ + c.model@
}

/// Build the connection URL for a stream configuration.
pub fn build_ws_url(config: &DeepgramConfig) -> (url: String)
    ensures
        url@ =~= ws_url_spec(config),
{
    let mut url = String::from_str(
        "wss://api.deepgram.com/v1/listen?encoding=linear16&sample_rate=",
    );
    let rate = dec_u64(config.sample_rate as u64);
    url.append(rate.as_str());
    url.append(
        "&channels=1&punctuate=true&smart_format=true&interim_results=true&endpointing=300&vad_events=true&language=",
    );
    url.append(config.language.as_str());
    url.append("&model=");
    url.append(config.model.as_str());
    url
}

/// Two to the power `n`.
pub open spec fn pow2(n: nat) -> nat
    decreases n,
{
    if n == 0 {
        1
    } else {
        2 * pow2((n - 1) as nat)
    }
}

/// The backoff before retry number `attempts`: two to the number of
/// failures so far (the exponent saturating at five), capped at thirty
/// seconds.
pub open spec fn backoff_spec(attempts: u32) -> u64 {
    let e: u32 = if attempts < 5 {
        attempts
    } else {
        5
    };
    let p = pow2(e as nat);
    if p < 30 {
        p as u64
    } else {
        30u64
    }
}

/// The backoff delay in seconds before the given retry attempt.
pub fn backoff_secs(attempts: u32) -> (r: u64)
    ensures
        r == backoff_spec(attempts),
{
    proof {
        assert(pow2(0) == 1);
        assert(pow2(1) == 2);
        assert(pow2(2) == 4);
        assert(pow2(3) == 8);
        assert(pow2(4) == 16);
        assert(pow2(5) == 32);
    }
    if attempts == 0 {
        1
    } else if attempts == 1 {
        2
    } else if attempts == 2 {
        4
    } else if attempts == 3 {
        8
    } else if attempts == 4 {
        16
    } else {
        30
    }
}

/// The failure counter after one more failed attempt: it saturates at
/// the maximum, where the client has already given up.
pub open spec fn attempts_after_failure(a: u32) -> u32 {
    if a < 5 {
        (a + 1) as u32
    } else {
        a
    }
}

/// Whether the failure after `a` earlier consecutive failures is the
/// one that gives up: exactly the fifth, and any thereafter.
pub open spec fn failure_gives_up(a: u32) -> bool {
    a + 1 >= 5
}

/// Law: while attempts keep failing, the scheduled backoff grows
/// strictly from one failed attempt to the next and never exceeds the
/// thirty-second cap.
pub proof fn lemma_backoff_growth(k1: u32, k2: u32)
    requires
        1 <= k1 < k2 <= 4,
    ensures
        backoff_spec(k1) < backoff_spec(k2),
        backoff_spec(k2) <= BACKOFF_CAP_SECS,
{
    assert(pow2(0) == 1);
    assert(pow2(1) == 2);
    assert(pow2(2) == 4);
    assert(pow2(3) == 8);
    assert(pow2(4) == 16);
}

/// Law: starting from a fresh client, the first four failures each
/// schedule a retry — after 2, 4, 8 and 16 seconds, strictly
/// increasing and below the cap — and the fifth consecutive failure is
/// the first that gives up, after which no further attempt is made.
pub proof fn lemma_reconnect_sequence()
    ensures
        forall|k: u32| #![trigger attempts_after_failure(k)] 0 <= k <= 4 ==> attempts_after_failure(k) == k + 1,
        forall|k: u32| #![trigger failure_gives_up(k)] 0 <= k <= 3 ==> !failure_gives_up(k),
        forall|k: u32| #![trigger failure_gives_up(k)] k >= 4 ==> failure_gives_up(k),
        backoff_spec(1) == 2 && backoff_spec(2) == 4 && backoff_spec(3) == 8 && backoff_spec(4) == 16,
        forall|k1: u32, k2: u32| #![trigger backoff_spec(k1), backoff_spec(k2)] 1 <= k1 < k2 <= 4
            ==> backoff_spec(k1) < backoff_spec(k2) && backoff_spec(k2) <= BACKOFF_CAP_SECS,
{
    assert(pow2(0) == 1);
    assert(pow2(1) == 2);
    assert(pow2(2) == 4);
    assert(pow2(3) == 8);
    assert(pow2(4) == 16);
    assert forall|k1: u32, k2: u32| #![trigger backoff_spec(k1), backoff_spec(k2)] 1 <= k1 < k2 <= 4
        implies backoff_spec(k1) < backoff_spec(k2) && backoff_spec(k2) <= BACKOFF_CAP_SECS by {
        lemma_backoff_growth(k1, k2);
    }
}

/// Bounded first-in-first-out store for audio that could not be sent:
/// when full, the oldest chunk is evicted to admit the newest.
pub struct AudioBuffer {
    chunks: Vec<Vec<i16>>,
}

impl View for AudioBuffer {
    type V = Seq<Seq<i16>>;

    closed spec fn view(&self) -> Seq<Seq<i16>> {
        Seq::new(self.chunks@.len(), |i: int| self.chunks@[i]@)
    }
}

impl AudioBuffer {
    /// The buffer never holds more than [`MAX_BUFFER_CHUNKS`] chunks.
    pub open spec fn wf(&self) -> bool {
        self@.len() <= MAX_BUFFER_CHUNKS
    }

    /// An empty buffer.
    pub fn new() -> (b: AudioBuffer)
        ensures
            b@ =~= Seq::<Seq<i16>>::empty(),
            b.wf(),
    {
        AudioBuffer { chunks: Vec::new() }
    }

    /// How many chunks are held.
    pub fn len(&self) -> (n: usize)
        ensures
            n == self@.len(),
    {
        self.chunks.len()
    }

    /// Keep a chunk that could not be sent.  A full buffer drops its
    /// oldest chunk to make room.
    pub fn push_evict(&mut self, chunk: Vec<i16>)
        requires
            old(self).wf(),
        ensures
            final(self).wf(),
            old(self)@.len() < MAX_BUFFER_CHUNKS ==> final(self)@ =~= old(self)@.push(chunk@),
            old(self)@.len() == MAX_BUFFER_CHUNKS ==> final(self)@ =~= old(self)@.skip(1).push(chunk@),
    {
        let ghost before = self@;
        self.chunks.push(chunk);
        proof {
            assert(self@ =~= before.push(chunk@));
        }
        if self.chunks.len() > MAX_BUFFER_CHUNKS {
            let ghost mid = self@;
            self.chunks.remove(0);
            proof {
                assert(self@ =~= mid.skip(1));
                assert(before.skip(1).push(chunk@) =~= before.push(chunk@).skip(1));
            }
        }
    }

    /// Take the oldest chunk, if any: buffered audio is flushed oldest
    /// first.
    pub fn pop_oldest(&mut self) -> (r: Option<Vec<i16>>)
        requires
            old(self).wf(),
        ensures
            final(self).wf(),
            (r is Some) <==> old(self)@.len() > 0,
            r matches Some(c) ==> c@ == old(self)@[0] && final(self)@ =~= old(self)@.skip(1),
            (r is None) ==> final(self)@ =~= old(self)@,
    {
        if self.chunks.len() == 0 {
            return None;
        }
        let ghost before = self@;
        let c = self.chunks.remove(0);
        proof {
            assert(self@ =~= before.skip(1));
        }
        Some(c)
    }
}

/// What to do after a failed connection attempt.
#[derive(Clone, Copy, Debug, PartialEq, Eq, Structural)]
pub enum RetryDecision {
    /// Wait this many seconds, then try again.
    RetryAfter(u64),
    /// The failure was the last allowed one: report terminal failure
    /// and stop.
    GiveUp,
}

/// Per-source client state: the consecutive-failure counter and the
/// audio retained across outages.
pub struct StreamClient {
    source: AudioSource,
    attempts: u32,
    buffer: AudioBuffer,
}

impl StreamClient {
    /// The source this client serves.
    pub closed spec fn src(&self) -> AudioSource {
        self.source
    }

    /// Consecutive failed connection attempts since the last success.
    pub closed spec fn attempts(&self) -> u32 {
        self.attempts
    }

    /// The chunks retained for the next successful connection, oldest
    /// first.
    pub closed spec fn buffered(&self) -> Seq<Seq<i16>> {
        self.buffer@
    }

    /// The buffer stays within its bound.  Every operation preserves
    /// this, so any client built by `new` satisfies it forever.
    pub closed spec fn wf(&self) -> bool {
        self.buffer.wf()
    }

    /// A fresh client for one source: no failures yet, nothing
    /// buffered.
    pub fn new(source: AudioSource) -> (c: StreamClient)
        ensures
            c.wf(),
            c.src() == source,
            c.attempts() == 0,
            c.buffered() =~= Seq::<Seq<i16>>::empty(),
    {
        StreamClient { source, attempts: 0, buffer: AudioBuffer::new() }
    }

    /// The status to report when an attempt begins: `Connecting` for
    /// the first try, `Reconnecting` for every retry.
    pub fn connect_status(&self) -> (s: ConnectionStatus)
        ensures
            s == (if self.attempts() == 0 {
                ConnectionStatus::Connecting
            } else {
                ConnectionStatus::Reconnecting
            }),
    {
        if self.attempts == 0 {
            ConnectionStatus::Connecting
        } else {
            ConnectionStatus::Reconnecting
        }
    }

    /// A connection succeeded: the failure counter resets; buffered
    /// audio is kept for flushing.
    pub fn on_connect_success(&mut self)
        requires
            old(self).wf(),
        ensures
            final(self).wf(),
            final(self).attempts() == 0,
            final(self).src() == old(self).src(),
            final(self).buffered() == old(self).buffered(),
    {
        self.attempts = 0;
    }

    /// A connection attempt failed: count it, and either give up — on
    /// the fifth consecutive failure, and from then on — or schedule a
    /// retry after the exponential backoff.
    pub fn on_connect_failure(&mut self) -> (d: RetryDecision)
        requires
            old(self).wf(),
        ensures
            final(self).wf(),
            final(self).src() == old(self).src(),
            final(self).buffered() == old(self).buffered(),
            final(self).attempts() == attempts_after_failure(old(self).attempts()),
            (d == RetryDecision::GiveUp) <==> failure_gives_up(old(self).attempts()),
            d matches RetryDecision::RetryAfter(b) ==> b == backoff_spec((old(self).attempts() + 1) as u32),
    {
        if self.attempts < MAX_RECONNECT_ATTEMPTS {
            self.attempts = self.attempts + 1;
        }
        if self.attempts >= MAX_RECONNECT_ATTEMPTS {
            RetryDecision::GiveUp
        } else {
            RetryDecision::RetryAfter(backoff_secs(self.attempts))
        }
    }

    /// Retain a chunk that could not be sent (oldest evicted when
    /// full).
    pub fn buffer_unsent(&mut self, chunk: Vec<i16>)
        requires
            old(self).wf(),
        ensures
            final(self).wf(),
            final(self).src() == old(self).src(),
            final(self).attempts() == old(self).attempts(),
            old(self).buffered().len() < MAX_BUFFER_CHUNKS ==> final(self).buffered() =~= old(self).buffered().push(chunk@),
            old(self).buffered().len() == MAX_BUFFER_CHUNKS ==> final(self).buffered() =~= old(self).buffered().skip(1).push(chunk@),
    {
        self.buffer.push_evict(chunk);
    }

    /// Hand back the oldest retained chunk for flushing, if any.
    pub fn next_buffered(&mut self) -> (r: Option<Vec<i16>>)
        requires
            old(self).wf(),
        ensures
            final(self).wf(),
            final(self).src() == old(self).src(),
            final(self).attempts() == old(self).attempts(),
            (r is Some) <==> old(self).buffered().len() > 0,
            r matches Some(c) ==> c@ == old(self).buffered()[0]
                && final(self).buffered() =~= old(self).buffered().skip(1),
            (r is None) ==> final(self).buffered() =~= old(self).buffered(),
    {
        self.buffer.pop_oldest()
    }
}

/// Whether a keepalive control message is due: more than the keepalive
/// interval has passed since audio last went out.
pub fn keepalive_due(secs_since_audio_sent: u64) -> (r: bool)
    ensures
        r == (secs_since_audio_sent > KEEPALIVE_INTERVAL_SECS),
{
    secs_since_audio_sent > KEEPALIVE_INTERVAL_SECS
}

/// The keepalive control message.
pub fn keepalive_message() -> (m: String)
    ensures
        m@ == "{\"type\":\"KeepAlive\"}"@,
{
    String::from_str("{\"type\":\"KeepAlive\"}")
}

/// The closing control message of the graceful shutdown sequence.
pub fn close_message() -> (m: String)
    ensures
        m@ == "{\"type\":\"CloseStream\"}"@,
{
    String::from_str("{\"type\":\"CloseStream\"}")
}

/// A 16-bit sample as its unsigned two's-complement value.
pub open spec fn word_val(v: i16) -> int {
    if v >= 0 {
        v as int
    } else {
        v as int + 65536
    }
}

/// The little-endian byte stream of a Linear16 chunk: for each sample
/// the low byte, then the high byte.
pub open spec fn le_bytes_spec(s: Seq<i16>) -> Seq<u8> {
    Seq::new(2 * s.len(), |i: int|
        if i % 2 == 0 {
            (word_val(s[i / 2]) % 256) as u8
        } else {
            (word_val(s[i / 2]) / 256) as u8
        })
}

/// Encode a Linear16 chunk as the little-endian binary frame that goes
/// over the wire.
pub fn pcm_to_le_bytes(pcm: &Vec<i16>) -> (out: Vec<u8>)
    ensures
        out@ =~= le_bytes_spec(pcm@),
{
    let n = pcm.len();
    let mut out: Vec<u8> = Vec::new();
    let mut k: usize = 0;
    while k < n
        invariant
            n == pcm@.len(),
            k <= n,
            out@.len() == 2 * k,
            forall|i: int| 0 <= i < 2 * k ==> out@[i] == le_bytes_spec(pcm@)[i],
        decreases n - k,
    {
        let v = pcm[k];
        let w: u32 = if v >= 0 {
            v as u32
        } else {
            (v as i32 + 65536) as u32
        };
        proof {
            assert(w == word_val(pcm@[k as int]));
            assert(le_bytes_spec(pcm@)[2 * k as int] == (word_val(pcm@[k as int]) % 256) as u8);
            assert(le_bytes_spec(pcm@)[2 * k as int + 1] == (word_val(pcm@[k as int]) / 256) as u8);
        }
        out.push((w % 256) as u8);
        out.push((w / 256) as u8);
        k = k + 1;
    }
    out
}

/// Turn an inbound message into the transcript segment it announces,
/// if it announces one: text, confidence and finality from the
/// message, the timestamp from its first word (zero when none), and
/// the pipeline's source tag.
pub fn segment_from_response(resp: &DeepgramResponse, source: AudioSource) -> (r: Option<
    TranscriptSegment,
>)
    ensures
        (r is Some) <==> resp.has_transcript(),
        r matches Some(seg) ==> {
            &&& seg.text@ == resp.channel->Some_0.alternatives@[0].transcript@
            &&& seg.confidence == resp.channel->Some_0.alternatives@[0].confidence
            &&& seg.is_final == resp.final_flag()
            &&& seg.timestamp == resp.start_timestamp_spec()
            &&& seg.source == source
        },
{
    match resp.extract_transcript() {
        None => None,
        Some((text, confidence, is_final)) => {
            let timestamp = resp.start_timestamp();
            Some(TranscriptSegment { text, is_final, timestamp, confidence, source })
        },
    }
}

} // verus!
