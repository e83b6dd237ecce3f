//! Capture configuration and the byte framing of captured audio: chunking
//! the captured byte queue, reading samples, and grouping them into
//! encoder frames.

use std::collections::VecDeque;
use vstd::prelude::*;

verus! {

/// Number of frames that the capture client hands over in one chunk.
pub const CAPTURE_CHUNK_FRAMES: usize = 4096;

/// Bits per stored sample of the capture format.
pub const CAPTURE_SAMPLE_BITS: usize = 16;

/// Sample rate of the capture format, in Hz.
pub const CAPTURE_SAMPLE_RATE: usize = 48000;

/// Channel count of the capture format.
pub const CAPTURE_CHANNELS: usize = 1;

/// Milliseconds to wait for the capture device before capture stops.
pub const CAPTURE_TIMEOUT_MS: u32 = 3000;

/// Samples per encoder frame (20 ms at 48 kHz, mono).
pub const FRAME_SAMPLES: usize = 960;

/// Bytes of one encoded frame at most.
pub const ENCODED_FRAME_BYTES: usize = 480;

/// Samples that one decoded frame may fill at most.
pub const DECODED_FRAME_SAMPLES: usize = 1920;

/// The capture client of the platform (WASAPI loopback on Windows).
pub struct AudioCaptureClientWindows {
    chunksize: usize,
}

impl AudioCaptureClientWindows {
    /// The frame count of one chunk of this client.
    pub closed spec fn spec_chunksize(&self) -> usize {
        self.chunksize
    }

    /// A client that hands over chunks of `CAPTURE_CHUNK_FRAMES` frames.
    pub fn new() -> (client: AudioCaptureClientWindows)
        ensures
            client.spec_chunksize() == CAPTURE_CHUNK_FRAMES,
    {
        AudioCaptureClientWindows { chunksize: CAPTURE_CHUNK_FRAMES }
    }

    /// The frame count of one chunk.
    pub fn chunksize(&self) -> (n: usize)
        ensures
            n == self.spec_chunksize(),
    {
        self.chunksize
    }
}

/// The capture client of this platform.
pub fn get_client() -> (client: AudioCaptureClientWindows)
    ensures
        client.spec_chunksize() == CAPTURE_CHUNK_FRAMES,
{
    AudioCaptureClientWindows::new()
}

/// Bytes in one chunk of `chunksize` frames of `blockalign` bytes each.
pub fn chunk_bytes(blockalign: usize, chunksize: usize) -> (n: usize)
    requires
        blockalign * chunksize <= usize::MAX,
    ensures
        n == blockalign * chunksize,
{
    blockalign * chunksize
}

/// Initial capacity of the capture queue: room for a hundred device
/// buffers (plus 1024 frames each) of `blockalign`-byte frames.
pub fn sample_queue_capacity(blockalign: usize, buffer_frame_count: usize) -> (n: usize)
    requires
        1024 + 2 * buffer_frame_count <= usize::MAX,
        100 * blockalign * (1024 + 2 * buffer_frame_count) <= usize::MAX,
    ensures
        n == 100 * blockalign * (1024 + 2 * buffer_frame_count),
{
    let frames: usize = 1024 + 2 * buffer_frame_count;
    proof {
        assert(100 * blockalign <= 100 * blockalign * frames) by (nonlinear_arith)
            requires
                frames >= 1,
        ;
    }
    100 * blockalign * frames
}

/// Takes the next chunk of `chunk_len` bytes off the front of the capture
/// queue, where the queue holds more than `chunk_len` bytes; otherwise
/// leaves the queue as it is.
pub fn next_chunk(queue: &mut VecDeque<u8>, chunk_len: usize) -> (chunk: Option<Vec<u8>>)
    ensures
        old(queue)@.len() > chunk_len ==> {
            &&& chunk matches Some(c)
            &&& c@ == old(queue)@.take(chunk_len as int)
            &&& final(queue)@ == old(queue)@.skip(chunk_len as int)
        },
        old(queue)@.len() <= chunk_len ==> chunk is None && final(queue)@ == old(queue)@,
{
    if queue.len() <= chunk_len {
        return None;
    }
    let ghost start = queue@;
    let mut chunk: Vec<u8> = Vec::with_capacity(chunk_len);
    let mut i: usize = 0;
    while i < chunk_len
        invariant
            i <= chunk_len,
            chunk_len < start.len(),
            chunk@ == start.take(i as int),
            queue@ == start.skip(i as int),
        decreases chunk_len - i,
    {
        let b = queue.pop_front().unwrap();
        chunk.push(b);
        i = i + 1;
        proof {
            assert(chunk@ =~= start.take(i as int));
            assert(queue@ =~= start.skip(i as int));
        }
    }
    Some(chunk)
}

/// The little-endian reading of a two-byte sample.
pub open spec fn le_sample(first: u8, second: u8) -> i16 {
    let v = second as int * 256 + first as int;
    (if v >= 32768 { v - 65536 } else { v }) as i16
}

/// The big-endian reading of a two-byte sample.
pub open spec fn be_sample(first: u8, second: u8) -> i16 {
    le_sample(second, first)
}

/// The bytes hold the sample in one of the two byte orders.
pub open spec fn sample_bytes(first: u8, second: u8, s: i16) -> bool {
    s == le_sample(first, second) || s == be_sample(first, second)
}

/// `i16::from_ne_bytes`: reads a sample in the byte order of this machine,
/// which is the little- or the big-endian one.
#[verifier::external_body]
fn sample_from_ne_bytes(first: u8, second: u8) -> (s: i16)
    ensures
        sample_bytes(first, second, s),
{
    i16::from_ne_bytes([first, second])
}

/// `i16::to_ne_bytes`: writes a sample in the byte order of this machine,
/// which is the little- or the big-endian one.
#[verifier::external_body]
fn sample_to_ne_bytes(s: i16) -> (bytes: (u8, u8))
    ensures
        sample_bytes(bytes.0, bytes.1, s),
{
    let b = s.to_ne_bytes();
    (b[0], b[1])
}

/// The little-endian reading of two bytes.
fn sample_of_le_bytes(first: u8, second: u8) -> (s: i16)
    ensures
        s == le_sample(first, second),
{
    let v: i32 = second as i32 * 256 + first as i32;
    if v >= 32768 {
        (v - 65536) as i16
    } else {
        v as i16
    }
}

/// The two bytes of a sample, little-endian.
fn le_bytes_of_sample(s: i16) -> (bytes: (u8, u8))
    ensures
        le_sample(bytes.0, bytes.1) == s,
{
    let v: i32 = if s < 0 {
        s as i32 + 65536
    } else {
        s as i32
    };
    let first: u8 = (v % 256) as u8;
    let second: u8 = (v / 256) as u8;
    assert(second as int * 256 + first as int == v);
    (first, second)
}

/// The sample that two bytes hold, read little-endian or big-endian.
pub open spec fn ordered_sample(first: u8, second: u8, little_endian: bool) -> i16 {
    if little_endian {
        le_sample(first, second)
    } else {
        be_sample(first, second)
    }
}

/// Reads the samples of a chunk, two bytes each, in the given byte order.
pub fn decode_samples_ordered(chunk: &[u8], little_endian: bool) -> (samples: Vec<i16>)
    requires
        chunk@.len() % 2 == 0,
    ensures
        samples@.len() * 2 == chunk@.len(),
        forall|i: int|
            0 <= i < samples@.len() ==> #[trigger] samples@[i] == ordered_sample(
                chunk@[2 * i],
                chunk@[2 * i + 1],
                little_endian,
            ),
{
    let mut samples: Vec<i16> = Vec::new();
    let mut i: usize = 0;
    while i < chunk.len()
        invariant
            chunk@.len() % 2 == 0,
            i % 2 == 0,
            i <= chunk@.len(),
            samples@.len() * 2 == i,
            forall|k: int|
                0 <= k < samples@.len() ==> #[trigger] samples@[k] == ordered_sample(
                    chunk@[2 * k],
                    chunk@[2 * k + 1],
                    little_endian,
                ),
        decreases chunk@.len() - i,
    {
        let s = if little_endian {
            sample_of_le_bytes(chunk[i], chunk[i + 1])
        } else {
            sample_of_le_bytes(chunk[i + 1], chunk[i])
        };
        samples.push(s);
        i = i + 2;
    }
    samples
}

/// Writes samples two bytes each, in the given byte order.
pub fn encode_samples_ordered(samples: &[i16], little_endian: bool) -> (bytes: Vec<u8>)
    requires
        samples@.len() * 2 <= usize::MAX,
    ensures
        bytes@.len() == samples@.len() * 2,
        forall|i: int|
            0 <= i < samples@.len() ==> ordered_sample(bytes@[2 * i], bytes@[2 * i + 1], little_endian)
                == #[trigger] samples@[i],
{
    let mut bytes: Vec<u8> = Vec::new();
    let mut i: usize = 0;
    while i < samples.len()
        invariant
            samples@.len() * 2 <= usize::MAX,
            i <= samples@.len(),
            bytes@.len() == i * 2,
            forall|k: int|
                0 <= k < i ==> ordered_sample(bytes@[2 * k], bytes@[2 * k + 1], little_endian)
                    == #[trigger] samples@[k],
        decreases samples@.len() - i,
    {
        let (lo, hi) = le_bytes_of_sample(samples[i]);
        if little_endian {
            bytes.push(lo);
            bytes.push(hi);
        } else {
            bytes.push(hi);
            bytes.push(lo);
        }
        i = i + 1;
    }
    bytes
}

/// Reads the samples of a captured chunk, two bytes each, in the byte order
/// of this machine: every sample is read little-endian, or every sample
/// big-endian. The order is learnt by reading the bytes `[1, 0]` as a
/// sample, and the chunk is then read by `decode_samples_ordered`.
pub fn decode_samples(chunk: &[u8]) -> (samples: Vec<i16>)
    requires
        chunk@.len() % 2 == 0,
    ensures
        samples@.len() * 2 == chunk@.len(),
        (forall|i: int| 0 <= i < samples@.len() ==> #[trigger] samples@[i] == le_sample(chunk@[2 * i], chunk@[2 * i + 1]))
            || (forall|i: int| 0 <= i < samples@.len() ==> #[trigger] samples@[i] == be_sample(chunk@[2 * i], chunk@[2 * i + 1])),
{
    let probe = sample_from_ne_bytes(1, 0);
    decode_samples_ordered(chunk, probe == 1)
}

/// Writes samples two bytes each, in the byte order of this machine: every
/// sample little-endian, or every sample big-endian. The order is learnt by
/// writing the sample 1, and the samples are then written by
/// `encode_samples_ordered`.
pub fn encode_samples(samples: &[i16]) -> (bytes: Vec<u8>)
    requires
        samples@.len() * 2 <= usize::MAX,
    ensures
        bytes@.len() == samples@.len() * 2,
        (forall|i: int| 0 <= i < samples@.len() ==> le_sample(bytes@[2 * i], bytes@[2 * i + 1]) == #[trigger] samples@[i])
            || (forall|i: int| 0 <= i < samples@.len() ==> be_sample(bytes@[2 * i], bytes@[2 * i + 1]) == #[trigger] samples@[i]),
{
    let (probe_first, probe_second) = sample_to_ne_bytes(1);
    encode_samples_ordered(samples, probe_first == 1 && probe_second == 0)
}

/// The whole frames of `FRAME_SAMPLES` samples at the front of `all`, in order.
pub open spec fn whole_frames(all: Seq<i16>) -> Seq<Seq<i16>> {
    Seq::new(
        all.len() / (FRAME_SAMPLES as nat),
        |j: int| all.subrange(FRAME_SAMPLES * j, FRAME_SAMPLES * j + FRAME_SAMPLES),
    )
}

/// The samples of `all` after its whole frames.
pub open spec fn leftover(all: Seq<i16>) -> Seq<i16> {
    all.subrange(FRAME_SAMPLES * (all.len() / (FRAME_SAMPLES as nat)), all.len() as int)
}

/// Samples waiting for a full encoder frame.
pub struct FrameBuffer {
    frames: Vec<i16>,
}

impl FrameBuffer {
    /// The samples gathered so far for the next frame.
    pub closed spec fn pending(&self) -> Seq<i16> {
        self.frames@
    }

    /// Fewer than a frame of samples wait.
    #[verifier::type_invariant]
    spec fn less_than_a_frame(&self) -> bool {
        self.frames@.len() < FRAME_SAMPLES
    }

    /// A buffer with no samples.
    pub fn new() -> (b: FrameBuffer)
        ensures
            b.pending() == Seq::<i16>::empty(),
    {
        FrameBuffer { frames: Vec::with_capacity(FRAME_SAMPLES) }
    }

    /// Number of samples waiting, always fewer than a frame.
    pub fn pending_len(&self) -> (n: usize)
        ensures
            n == self.pending().len(),
            n < FRAME_SAMPLES,
    {
        proof {
            use_type_invariant(self);
        }
        self.frames.len()
    }

    /// Appends samples and hands out, in order, every frame of
    /// `FRAME_SAMPLES` samples that they complete; the rest waits.
    pub fn push_samples(&mut self, samples: &[i16]) -> (full: Vec<Vec<i16>>)
        ensures
            full@.map_values(|f: Vec<i16>| f@) == whole_frames(old(self).pending() + samples@),
            final(self).pending() == leftover(old(self).pending() + samples@),
    {
        proof {
            use_type_invariant(&*self);
        }
        let mut frames: Vec<i16> = Vec::new();
        std::mem::swap(&mut frames, &mut self.frames);
        let ghost start = frames@;
        let ghost all = frames@ + samples@;
        let mut full: Vec<Vec<i16>> = Vec::new();
        let mut i: usize = 0;
        while i < samples.len()
            invariant
                all == start + samples@,
                i <= samples@.len(),
                frames@.len() < FRAME_SAMPLES,
                FRAME_SAMPLES * full@.len() + frames@.len() == start.len() + i,
                frames@ == all.subrange(FRAME_SAMPLES * full@.len(), start.len() + i),
                forall|j: int| 0 <= j < full@.len() ==> #[trigger] full@[j]@ == all.subrange(
                    FRAME_SAMPLES * j,
                    FRAME_SAMPLES * j + FRAME_SAMPLES,
                ),
            decreases samples@.len() - i,
        {
            frames.push(samples[i]);
            proof {
                assert(frames@ =~= all.subrange(FRAME_SAMPLES * full@.len(), start.len() + i + 1));
            }
            if frames.len() == FRAME_SAMPLES {
                let mut frame: Vec<i16> = Vec::with_capacity(FRAME_SAMPLES);
                std::mem::swap(&mut frame, &mut frames);
                full.push(frame);
                proof {
                    assert(frames@ =~= all.subrange(FRAME_SAMPLES * full@.len(), start.len() + i + 1));
                }
            }
            i = i + 1;
        }
        proof {
            let k = full@.len() as int;
            assert(all.len() == FRAME_SAMPLES * k + frames@.len());
            assert(all.len() / (FRAME_SAMPLES as nat) == k) by (nonlinear_arith)
                requires
                    all.len() == FRAME_SAMPLES * k + frames@.len(),
                    0 <= frames@.len() < FRAME_SAMPLES,
                    k >= 0,
            ;
            assert(full@.map_values(|f: Vec<i16>| f@) =~= whole_frames(all));
        }
        self.frames = frames;
        full
    }
}

} // verus!
