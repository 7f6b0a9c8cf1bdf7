//! Voice chat: a recorder that buffers captured chunks, and a receiver
//! that orders incoming packets by sequence number, kept in memory.
use std::collections::VecDeque;
use std::time::{Duration, Instant};
use vstd::prelude::*;

use crate::bytes_util::copy_range;
use crate::clock::elapsed_nanos;
use crate::keyed::{first_index, index_from};
use crate::steam_id::SteamId;

verus! {

/// Phase of the recorder.
#[derive(Debug, Clone, Copy, PartialEq, Eq, Structural)]
pub enum VoiceRecordingState {
    Idle,
    Recording,
    Paused,
}

/// Outcome of a voice operation.
#[derive(Debug, Clone, Copy, PartialEq, Eq, Structural)]
pub enum VoiceResult {
    Done,
    NotInitialized,
    NotRecording,
    NoData,
    BufferTooSmall,
    DataCorrupted,
    Restricted,
    UnsupportedCodec,
}

/// A chunk of voice data as sent.
#[derive(Debug, Clone)]
pub struct VoicePacket {
    pub sender: SteamId,
    pub sequence: u32,
    pub data: Vec<u8>,
    pub timestamp_ms: u32,
}

/// Capture quality.
#[derive(Debug, Clone, Copy, PartialEq, Eq, Structural)]
pub enum VoiceQuality {
    Low,
    Normal,
    High,
}

impl VoiceQuality {
    /// Samples per second.
    pub open spec fn spec_rate(self) -> u32 {
        match self {
            VoiceQuality::Low => 8000,
            VoiceQuality::Normal => 16000,
            VoiceQuality::High => 24000,
        }
    }

    /// Samples per second: 8000, 16000 or 24000.
    pub fn sample_rate(&self) -> (r: u32)
        ensures
            r == self.spec_rate(),
    {
        match self {
            VoiceQuality::Low => 8000,
            VoiceQuality::Normal => 16000,
            VoiceQuality::High => 24000,
        }
    }
}

/// Chunks the recorder buffers at most.
pub const MAX_VOICE_CHUNKS: usize = 100;

/// The bytes of the chunks, in order.
pub open spec fn flatten(s: Seq<Vec<u8>>) -> Seq<u8>
    decreases s.len(),
{
    if s.len() == 0 {
        Seq::empty()
    } else {
        s[0]@ + flatten(s.subrange(1, s.len() as int))
    }
}

/// The voice recorder.
pub struct VoiceRecorder {
    state: VoiceRecordingState,
    initialized: bool,
    recording_start: Option<Instant>,
    buffer: VecDeque<Vec<u8>>,
    max_buffer_size: usize,
    next_sequence: u32,
    quality: VoiceQuality,
    ptt_active: bool,
    vad_enabled: bool,
    last_activity: Option<Instant>,
    muted: bool,
}

impl VoiceRecorder {
    /// Phase.
    pub closed spec fn spec_state(&self) -> VoiceRecordingState {
        self.state
    }

    /// Buffered chunks, oldest first.
    pub closed spec fn chunks(&self) -> Seq<Vec<u8>> {
        self.buffer@
    }

    /// Muted.
    pub closed spec fn spec_muted(&self) -> bool {
        self.muted
    }

    /// Set up.
    pub closed spec fn spec_initialized(&self) -> bool {
        self.initialized
    }

    /// Quality.
    pub closed spec fn spec_quality(&self) -> VoiceQuality {
        self.quality
    }

    /// Push-to-talk held.
    pub closed spec fn spec_ptt(&self) -> bool {
        self.ptt_active
    }

    /// Voice activity detection on.
    pub closed spec fn spec_vad(&self) -> bool {
        self.vad_enabled
    }

    /// Whether recording ever started.
    pub closed spec fn started(&self) -> bool {
        self.recording_start is Some
    }

    /// Sequence number of the next packet.
    pub closed spec fn spec_next_sequence(&self) -> u32 {
        self.next_sequence
    }

    /// At most `MAX_VOICE_CHUNKS` chunks are buffered.
    pub closed spec fn wf(&self) -> bool {
        self.buffer@.len() <= self.max_buffer_size && self.max_buffer_size == MAX_VOICE_CHUNKS
    }

    /// An idle, unmuted recorder at normal quality with voice activity
    /// detection on.
    pub fn new() -> (r: Self)
        ensures
            r.wf(),
            r.spec_initialized(),
            r.spec_state() == VoiceRecordingState::Idle,
            r.chunks().len() == 0,
            !r.spec_muted() && !r.spec_ptt() && r.spec_vad(),
            r.spec_quality() == VoiceQuality::Normal,
            r.spec_next_sequence() == 0,
    {
        VoiceRecorder {
            state: VoiceRecordingState::Idle,
            initialized: true,
            recording_start: None,
            buffer: VecDeque::new(),
            max_buffer_size: MAX_VOICE_CHUNKS,
            next_sequence: 0,
            quality: VoiceQuality::Normal,
            ptt_active: false,
            vad_enabled: true,
            last_activity: None,
            muted: false,
        }
    }

    /// Set up.
    pub fn is_initialized(&self) -> (r: bool)
        ensures
            r == self.spec_initialized(),
    {
        self.initialized
    }

    /// Phase.
    pub fn state(&self) -> (r: VoiceRecordingState)
        ensures
            r == self.spec_state(),
    {
        self.state
    }

    /// Starts recording; refused while muted.
    pub fn start_recording(&mut self) -> (r: VoiceResult)
        requires
            old(self).wf(),
        ensures
            final(self).wf(),
            !old(self).spec_initialized() ==> r == VoiceResult::NotInitialized && final(self).spec_state() == old(self).spec_state(),
            old(self).spec_initialized() && old(self).spec_muted() ==> r == VoiceResult::Restricted
                && final(self).spec_state() == old(self).spec_state(),
            old(self).spec_initialized() && !old(self).spec_muted() ==> r == VoiceResult::Done
                && final(self).spec_state() == VoiceRecordingState::Recording,
            final(self).chunks() == old(self).chunks(),
            final(self).spec_muted() == old(self).spec_muted(),
            final(self).spec_initialized() == old(self).spec_initialized(),
    {
        if !self.initialized {
            return VoiceResult::NotInitialized;
        }
        if self.muted {
            return VoiceResult::Restricted;
        }
        self.state = VoiceRecordingState::Recording;
        self.recording_start = Some(Instant::now());
        VoiceResult::Done
    }

    /// Stops recording.
    pub fn stop_recording(&mut self) -> (r: VoiceResult)
        requires
            old(self).wf(),
        ensures
            final(self).wf(),
            !old(self).spec_initialized() ==> r == VoiceResult::NotInitialized && final(self).spec_state() == old(self).spec_state(),
            old(self).spec_initialized() ==> r == VoiceResult::Done && final(self).spec_state() == VoiceRecordingState::Idle,
            final(self).chunks() == old(self).chunks(),
            final(self).spec_muted() == old(self).spec_muted(),
            final(self).spec_initialized() == old(self).spec_initialized(),
    {
        if !self.initialized {
            return VoiceResult::NotInitialized;
        }
        self.state = VoiceRecordingState::Idle;
        VoiceResult::Done
    }

    /// How many bytes are buffered (cut to 32 bits), when recording.
    pub fn get_available_voice(&self) -> (r: (VoiceResult, u32))
        requires
            self.wf(),
        ensures
            r == if !self.spec_initialized() {
                (VoiceResult::NotInitialized, 0u32)
            } else if self.spec_state() != VoiceRecordingState::Recording {
                (VoiceResult::NotRecording, 0u32)
            } else if self.chunks().len() == 0 {
                (VoiceResult::NoData, 0u32)
            } else {
                (VoiceResult::Done, flatten(self.chunks()).len() as u32)
            },
    {
        if !self.initialized {
            return (VoiceResult::NotInitialized, 0);
        }
        if self.state != VoiceRecordingState::Recording {
            return (VoiceResult::NotRecording, 0);
        }
        if self.buffer.len() == 0 {
            return (VoiceResult::NoData, 0);
        }
        let mut total: u128 = 0;
        let mut i: usize = 0;
        let ghost s = self.buffer@;
        while i < self.buffer.len()
            invariant
                i <= s.len() <= MAX_VOICE_CHUNKS,
                s == self.buffer@,
                total == flatten(s.subrange(0, i as int)).len(),
                total <= i * 0x1_0000_0000_0000_0000,
            decreases s.len() - i,
        {
            proof { lemma_flatten_split(s, i as int); }
            total = total + self.buffer[i].len() as u128;
            i = i + 1;
        }
        assert(s.subrange(0, s.len() as int) =~= s);
        (VoiceResult::Done, total as u32)
    }

    /// Takes up to `max_bytes` of buffered voice, oldest first; a chunk
    /// that does not fit whole is split and its rest stays buffered.
    pub fn get_voice(&mut self, max_bytes: usize) -> (r: (VoiceResult, Vec<u8>))
        requires
            old(self).wf(),
        ensures
            final(self).wf(),
            final(self).spec_state() == old(self).spec_state(),
            final(self).spec_muted() == old(self).spec_muted(),
            !old(self).spec_initialized() ==> r.0 == VoiceResult::NotInitialized && r.1@.len() == 0 && final(self).chunks() == old(self).chunks(),
            old(self).spec_initialized() && old(self).spec_state() != VoiceRecordingState::Recording
                ==> r.0 == VoiceResult::NotRecording && r.1@.len() == 0 && final(self).chunks() == old(self).chunks(),
            old(self).spec_initialized() && old(self).spec_state() == VoiceRecordingState::Recording
                ==> ({
                    let all = flatten(old(self).chunks());
                    let n = if all.len() < max_bytes { all.len() } else { max_bytes as nat };
                    &&& r.1@ == all.subrange(0, n as int)
                    &&& flatten(final(self).chunks()) == all.subrange(n as int, all.len() as int)
                    &&& r.0 == if n == 0 { VoiceResult::NoData } else { VoiceResult::Done }
                }),
    {
        if !self.initialized {
            return (VoiceResult::NotInitialized, Vec::new());
        }
        if self.state != VoiceRecordingState::Recording {
            return (VoiceResult::NotRecording, Vec::new());
        }
        let ghost all = flatten(self.buffer@);
        let mut result: Vec<u8> = Vec::new();
        assert(result@ + flatten(self.buffer@) =~= all);
        while result.len() < max_bytes && self.buffer.len() > 0
            invariant
                result@ + flatten(self.buffer@) == all,
                result@.len() <= max_bytes,
                self.buffer@.len() <= old(self).buffer@.len(),
                self.max_buffer_size == old(self).max_buffer_size,
                self.initialized == old(self).initialized,
                self.state == old(self).state,
                self.initialized,
                self.state == VoiceRecordingState::Recording,
                self.muted == old(self).muted,
                old(self).wf(),
                all == flatten(old(self).buffer@),
            decreases self.buffer@.len(), max_bytes - result@.len(),
        {
            let ghost before = self.buffer@;
            let chunk = match self.buffer.pop_front() {
                Some(c) => c,
                None => {
                    return (VoiceResult::NoData, result);
                },
            };
            proof {
                assert(before.subrange(1, before.len() as int) =~= self.buffer@);
                assert(flatten(before) == before[0]@ + flatten(self.buffer@));
            }
            if chunk.len() <= max_bytes - result.len() {
                let ghost r0 = result@;
                let mut k: usize = 0;
                while k < chunk.len()
                    invariant
                        k <= chunk@.len(),
                        result@ == r0 + chunk@.subrange(0, k as int),
                    decreases chunk@.len() - k,
                {
                    result.push(chunk[k]);
                    k = k + 1;
                    assert(result@ =~= r0 + chunk@.subrange(0, k as int));
                }
                assert(chunk@.subrange(0, chunk@.len() as int) =~= chunk@);
                assert(result@ + flatten(self.buffer@) =~= all);
            } else {
                let take = max_bytes - result.len();
                let ghost r0 = result@;
                let head = copy_range(chunk.as_slice(), 0, take);
                let tail = copy_range(chunk.as_slice(), take, chunk.len());
                let mut k: usize = 0;
                while k < head.len()
                    invariant
                        k <= head@.len(),
                        result@ == r0 + head@.subrange(0, k as int),
                    decreases head@.len() - k,
                {
                    result.push(head[k]);
                    k = k + 1;
                    assert(result@ =~= r0 + head@.subrange(0, k as int));
                }
                let ghost rest = self.buffer@;
                self.buffer.push_front(tail);
                proof {
                    assert(head@.subrange(0, head@.len() as int) =~= head@);
                    assert(self.buffer@.subrange(1, self.buffer@.len() as int) =~= rest);
                    assert(flatten(self.buffer@) == tail@ + flatten(rest));
                    assert(chunk@ =~= head@ + tail@);
                    assert(result@ + flatten(self.buffer@) =~= all);
                }
                return (VoiceResult::Done, result);
            }
        }
        proof {
            assert(all.subrange(0, result@.len() as int) =~= result@);
        }
        if result.len() == 0 {
            (VoiceResult::NoData, result)
        } else {
            (VoiceResult::Done, result)
        }
    }

    /// The sample rate of the current quality.
    pub fn get_optimal_sample_rate(&self) -> (r: u32)
        ensures
            r == self.spec_quality().spec_rate(),
    {
        self.quality.sample_rate()
    }

    /// Sets the quality.
    pub fn set_quality(&mut self, quality: VoiceQuality)
        requires
            old(self).wf(),
        ensures
            final(self).wf(),
            final(self).spec_quality() == quality,
            final(self).spec_state() == old(self).spec_state(),
            final(self).chunks() == old(self).chunks(),
    {
        self.quality = quality;
    }

    /// The quality.
    pub fn quality(&self) -> (r: VoiceQuality)
        ensures
            r == self.spec_quality(),
    {
        self.quality
    }

    /// Holds or releases push-to-talk.
    pub fn set_ptt(&mut self, active: bool)
        requires
            old(self).wf(),
        ensures
            final(self).wf(),
            final(self).spec_ptt() == active,
            final(self).spec_state() == old(self).spec_state(),
            final(self).chunks() == old(self).chunks(),
    {
        self.ptt_active = active;
    }

    /// Push-to-talk held.
    pub fn is_ptt_active(&self) -> (r: bool)
        ensures
            r == self.spec_ptt(),
    {
        self.ptt_active
    }

    /// Switches voice activity detection.
    pub fn set_vad_enabled(&mut self, enabled: bool)
        requires
            old(self).wf(),
        ensures
            final(self).wf(),
            final(self).spec_vad() == enabled,
            final(self).spec_state() == old(self).spec_state(),
            final(self).chunks() == old(self).chunks(),
    {
        self.vad_enabled = enabled;
    }

    /// Voice activity detection on.
    pub fn is_vad_enabled(&self) -> (r: bool)
        ensures
            r == self.spec_vad(),
    {
        self.vad_enabled
    }

    /// Mutes or unmutes; muting while recording pauses.
    pub fn set_muted(&mut self, muted: bool)
        requires
            old(self).wf(),
        ensures
            final(self).wf(),
            final(self).spec_muted() == muted,
            final(self).spec_state() == if muted && old(self).spec_state() == VoiceRecordingState::Recording {
                VoiceRecordingState::Paused
            } else {
                old(self).spec_state()
            },
            final(self).chunks() == old(self).chunks(),
    {
        self.muted = muted;
        if muted && self.state == VoiceRecordingState::Recording {
            self.state = VoiceRecordingState::Paused;
        }
    }

    /// Muted.
    pub fn is_muted(&self) -> (r: bool)
        ensures
            r == self.spec_muted(),
    {
        self.muted
    }

    /// Buffers a captured chunk while recording unmuted, unless the buffer
    /// is full.
    pub fn add_voice_data(&mut self, data: Vec<u8>)
        requires
            old(self).wf(),
        ensures
            final(self).wf(),
            final(self).chunks() == if old(self).spec_state() == VoiceRecordingState::Recording && !old(self).spec_muted()
                && old(self).chunks().len() < MAX_VOICE_CHUNKS {
                old(self).chunks().push(data)
            } else {
                old(self).chunks()
            },
            final(self).spec_state() == old(self).spec_state(),
            final(self).spec_muted() == old(self).spec_muted(),
    {
        if self.state == VoiceRecordingState::Recording && !self.muted {
            if self.buffer.len() < self.max_buffer_size {
                self.buffer.push_back(data);
            }
            self.last_activity = Some(Instant::now());
        }
    }

    /// Time since recording last started, if it ever did.
    pub fn recording_duration(&self) -> (r: Option<Duration>)
        ensures
            r is Some == self.started(),
    {
        match &self.recording_start {
            Some(s) => Some(s.elapsed()),
            None => None,
        }
    }

    /// Wraps `data` into the next packet from `sender`; sequence numbers
    /// count up and wrap around.
    pub fn create_packet(&mut self, sender: SteamId, data: Vec<u8>) -> (r: VoicePacket)
        requires
            old(self).wf(),
        ensures
            final(self).wf(),
            r.sender == sender && r.data == data,
            r.sequence == old(self).spec_next_sequence(),
            final(self).spec_next_sequence() == (if old(self).spec_next_sequence() == u32::MAX {
                0
            } else {
                old(self).spec_next_sequence() + 1
            }),
            final(self).chunks() == old(self).chunks(),
            final(self).spec_state() == old(self).spec_state(),
    {
        let sequence = self.next_sequence;
        self.next_sequence = if self.next_sequence == u32::MAX { 0 } else { self.next_sequence + 1 };
        let timestamp_ms = match &self.recording_start {
            Some(s) => ((elapsed_nanos(s) / 1_000_000) % 0x1_0000_0000) as u32,
            None => 0,
        };
        VoicePacket { sender, sequence, data, timestamp_ms }
    }
}

proof fn lemma_flatten_split(s: Seq<Vec<u8>>, i: int)
    requires
        0 <= i < s.len(),
    ensures
        flatten(s.subrange(0, i + 1)) == flatten(s.subrange(0, i)) + s[i]@,
    decreases i,
{
    let a = s.subrange(0, i + 1);
    if i == 0 {
        assert(a.subrange(1, a.len() as int) =~= Seq::<Vec<u8>>::empty());
        assert(flatten(Seq::<Vec<u8>>::empty()) == Seq::<u8>::empty());
        assert(a[0] == s[0]);
        assert(flatten(a) =~= s[0]@);
        assert(s.subrange(0, 0) =~= Seq::<Vec<u8>>::empty());
    } else {
        let t = s.subrange(1, s.len() as int);
        lemma_flatten_split(t, i - 1);
        assert(a.subrange(1, a.len() as int) =~= t.subrange(0, i));
        assert(s.subrange(0, i).subrange(1, i) =~= t.subrange(0, i - 1));
        assert(flatten(s.subrange(0, i)) == s[0]@ + flatten(t.subrange(0, i - 1)));
        assert(t[i - 1] == s[i]);
        assert(flatten(a) =~= flatten(s.subrange(0, i)) + s[i]@);
    }
}

impl Default for VoiceRecorder {
    /// A fresh recorder.
    fn default() -> (r: Self)
        ensures
            r.wf(),
            r.spec_state() == VoiceRecordingState::Idle,
    {
        VoiceRecorder::new()
    }
}

/// Packets the receiver holds at most.
pub const MAX_JITTER_PACKETS: usize = 20;

/// Whether a packet comes after sequence number `seq`.
pub open spec fn after_seq(seq: u32) -> spec_fn(VoicePacket) -> bool {
    |p: VoicePacket| p.sequence > seq
}

/// The receiving side: orders packets by sequence number.
pub struct VoiceDecompressor {
    initialized: bool,
    output_sample_rate: u32,
    jitter_buffer: VecDeque<VoicePacket>,
    max_jitter_buffer: usize,
    expected_sequence: Option<u32>,
}

impl VoiceDecompressor {
    /// Held packets, in play order.
    pub closed spec fn packets(&self) -> Seq<VoicePacket> {
        self.jitter_buffer@
    }

    /// Output sample rate.
    pub closed spec fn rate(&self) -> u32 {
        self.output_sample_rate
    }

    /// Set up.
    pub closed spec fn ready(&self) -> bool {
        self.initialized
    }

    /// At most `MAX_JITTER_PACKETS` are held.
    pub closed spec fn wf(&self) -> bool {
        self.jitter_buffer@.len() <= self.max_jitter_buffer && self.max_jitter_buffer == MAX_JITTER_PACKETS
    }

    /// An empty receiver producing `sample_rate` samples per second.
    pub fn new(sample_rate: u32) -> (r: Self)
        ensures
            r.wf(),
            r.ready(),
            r.rate() == sample_rate,
            r.packets().len() == 0,
    {
        VoiceDecompressor {
            initialized: true,
            output_sample_rate: sample_rate,
            jitter_buffer: VecDeque::new(),
            max_jitter_buffer: MAX_JITTER_PACKETS,
            expected_sequence: None,
        }
    }

    /// Expands `compressed` (four output bytes per input byte) into
    /// `output`: byte `i` is `(i mod 256) + compressed[i mod n]`, wrapping.
    /// Writes as much as fits and reports `BufferTooSmall` when not all did.
    pub fn decompress(&self, compressed: &[u8], output: &mut [u8]) -> (r: (VoiceResult, usize))
        requires
            compressed@.len() * 4 <= usize::MAX,
        ensures
            final(output)@.len() == old(output)@.len(),
            !self.ready() ==> r == (VoiceResult::NotInitialized, 0usize) && final(output)@ == old(output)@,
            self.ready() && compressed@.len() == 0 ==> r == (VoiceResult::NoData, 0usize) && final(output)@ == old(output)@,
            self.ready() && compressed@.len() > 0 ==> ({
                let full = (compressed@.len() * 4) as int;
                let n = if full < old(output)@.len() { full } else { old(output)@.len() as int };
                &&& r.1 == n
                &&& r.0 == if old(output)@.len() < full { VoiceResult::BufferTooSmall } else { VoiceResult::Done }
                &&& forall|i: int| 0 <= i < n ==> #[trigger] final(output)@[i] == expand_byte(compressed@, i)
                &&& forall|i: int| n <= i < old(output)@.len() ==> #[trigger] final(output)@[i] == old(output)@[i]
            }),
    {
        if !self.initialized {
            return (VoiceResult::NotInitialized, 0);
        }
        if compressed.len() == 0 {
            return (VoiceResult::NoData, 0);
        }
        let full = compressed.len() * 4;
        let n = if full < output.len() { full } else { output.len() };
        let mut i: usize = 0;
        while i < n
            invariant
                i <= n <= output@.len(),
                output@.len() == old(output)@.len(),
                compressed@.len() > 0,
                forall|k: int| 0 <= k < i ==> #[trigger] output@[k] == expand_byte(compressed@, k),
                forall|k: int| i <= k < output@.len() ==> #[trigger] output@[k] == old(output)@[k],
            decreases n - i,
        {
            let b = ((i % 256) as u8).wrapping_add(compressed[i % compressed.len()]);
            output[i] = b;
            i = i + 1;
        }
        if output.len() < full {
            (VoiceResult::BufferTooSmall, n)
        } else {
            (VoiceResult::Done, n)
        }
    }

    /// Inserts `packet` before the first held packet with a larger
    /// sequence number, unless the buffer is full.
    pub fn add_packet(&mut self, packet: VoicePacket)
        requires
            old(self).wf(),
        ensures
            final(self).wf(),
            final(self).rate() == old(self).rate(),
            old(self).packets().len() >= MAX_JITTER_PACKETS ==> final(self).packets() == old(self).packets(),
            old(self).packets().len() < MAX_JITTER_PACKETS ==> ({
                let k = first_index(old(self).packets(), after_seq(packet.sequence));
                final(self).packets() == old(self).packets().insert(
                    if k < 0 { old(self).packets().len() as int } else { k },
                    packet,
                )
            }),
    {
        if self.jitter_buffer.len() < self.max_jitter_buffer {
            let i = insert_position(&self.jitter_buffer, packet.sequence);
            self.jitter_buffer.insert(i, packet);
        }
    }

    /// Takes the next packet in play order.
    pub fn get_next_packet(&mut self) -> (r: Option<VoicePacket>)
        requires
            old(self).wf(),
        ensures
            final(self).wf(),
            final(self).rate() == old(self).rate(),
            old(self).packets().len() == 0 ==> r is None && final(self).packets() == old(self).packets(),
            old(self).packets().len() > 0 ==> r == Some(old(self).packets()[0])
                && final(self).packets() == old(self).packets().subrange(1, old(self).packets().len() as int),
    {
        self.jitter_buffer.pop_front()
    }

    /// Number of held packets.
    pub fn buffer_size(&self) -> (r: usize)
        ensures
            r == self.packets().len(),
    {
        self.jitter_buffer.len()
    }

    /// Output sample rate.
    pub fn sample_rate(&self) -> (r: u32)
        ensures
            r == self.rate(),
    {
        self.output_sample_rate
    }
}

/// Output byte `i` of an expansion of `c`.
pub open spec fn expand_byte(c: Seq<u8>, i: int) -> u8 {
    (((i % 256) + c[i % (c.len() as int)]) % 256) as u8
}

fn insert_position(q: &VecDeque<VoicePacket>, seq: u32) -> (r: usize)
    ensures
        r <= q@.len(),
        ({
            let k = first_index(q@, after_seq(seq));
            r == if k < 0 { q@.len() as int } else { k }
        }),
{
    let ghost p = after_seq(seq);
    let mut i: usize = 0;
    while i < q.len()
        invariant
            i <= q@.len(),
            p == after_seq(seq),
            index_from(q@, p, i as int) == first_index(q@, p),
        decreases q@.len() - i,
    {
        if q[i].sequence > seq {
            assert(p(q@[i as int]));
            return i;
        }
        assert(!p(q@[i as int]));
        i = i + 1;
    }
    i
}

impl Default for VoiceDecompressor {
    /// A receiver at 16 kHz.
    fn default() -> (r: Self)
        ensures
            r.wf(),
            r.rate() == 16000,
    {
        VoiceDecompressor::new(16000)
    }
}

} // verus!
