//! Loopback audio formats and the conversion of integer PCM into the 16-bit
//! stereo the encoder takes.

use vstd::prelude::*;
use vstd::string::StringExecFns;

use crate::recorder::Error;
use crate::text::{decimal, decimal_chars, push_all};

verus! {

/// Bytes per sample the encoder is fed: 16-bit PCM.
pub const BYTES_PER_SAMPLE: usize = 2;

/// Channels handed to the encoder; wider sources are folded down.
pub const CHANNELS: usize = 2;

/// `WAVE_FORMAT_IEEE_FLOAT`.
pub const WAVE_FORMAT_IEEE_FLOAT: u16 = 0x0003;
/// `WAVE_FORMAT_EXTENSIBLE`.
pub const WAVE_FORMAT_EXTENSIBLE: u16 = 0xFFFE;

/// PCM format the encoder should be configured for.
#[derive(Debug, Clone, Copy, PartialEq, Eq, Structural)]
pub struct AudioFormat {
    pub sample_rate: u32,
    pub channels: u32,
    pub bits_per_sample: u32,
}

impl AudioFormat {
    /// Bytes per frame, i.e. one sample across all channels.
    pub fn block_align(&self) -> (bytes: usize)
        requires
            self.channels * 2 <= usize::MAX,
        ensures
            bytes == self.channels * BYTES_PER_SAMPLE,
    {
        self.channels as usize * BYTES_PER_SAMPLE
    }
}

/// How the endpoint's samples are encoded.
#[derive(Debug, Clone, Copy, PartialEq, Eq, Structural)]
pub enum SampleKind {
    /// 32-bit IEEE float.
    F32,
    /// Integer PCM of the given width in bytes.
    Int(usize),
}

/// What the endpoint hands over.
#[derive(Debug, Clone, Copy, PartialEq, Eq, Structural)]
pub struct SourceFormat {
    pub sample_rate: u32,
    pub channels: usize,
    pub block_align: u16,
    pub kind: SampleKind,
}

/// The source format a mix format describes: float when the tag (or, for an
/// extensible format, its sub-format) says so; rejected when it has no
/// channels or samples under a byte, or is float of a width other than 4
/// bytes.
pub open spec fn source_format(
    format_tag: u16,
    float_subformat: bool,
    bits_per_sample: u16,
    channels: u16,
    samples_per_sec: u32,
    block_align: u16,
) -> Result<SourceFormat, Seq<char>> {
    let is_float = if format_tag == WAVE_FORMAT_EXTENSIBLE {
        float_subformat
    } else {
        format_tag == WAVE_FORMAT_IEEE_FLOAT
    };
    let bytes = bits_per_sample / 8;
    if bytes == 0 || channels == 0 {
        Err("音频格式无效"@)
    } else if is_float && bytes != 4 {
        Err("不支持的浮点位深: "@ + decimal(bytes as nat))
    } else {
        Ok(
            SourceFormat {
                sample_rate: samples_per_sec,
                channels: channels as usize,
                block_align,
                kind: if is_float { SampleKind::F32 } else { SampleKind::Int(bytes as usize) },
            },
        )
    }
}

impl SourceFormat {
    /// Reads the fields of a `WAVEFORMATEX` (and, for an extensible format,
    /// whether its sub-format is IEEE float).
    pub fn from_fields(
        format_tag: u16,
        float_subformat: bool,
        bits_per_sample: u16,
        channels: u16,
        samples_per_sec: u32,
        block_align: u16,
    ) -> (format: Result<SourceFormat, Error>)
        ensures
            match source_format(format_tag, float_subformat, bits_per_sample, channels, samples_per_sec, block_align) {
                Ok(f) => format == Ok::<SourceFormat, Error>(f),
                Err(msg) => format matches Err(Error::Audio(m)) && m@ == msg,
            },
    {
        let is_float = if format_tag == WAVE_FORMAT_EXTENSIBLE {
            float_subformat
        } else {
            format_tag == WAVE_FORMAT_IEEE_FLOAT
        };
        let bytes = bits_per_sample / 8;
        if bytes == 0 || channels == 0 {
            return Err(Error::Audio(String::from_str("音频格式无效")));
        }
        if is_float && bytes != 4 {
            let mut msg = String::from_str("不支持的浮点位深: ");
            push_all(&mut msg, decimal_chars(bytes as u64).as_slice());
            return Err(Error::Audio(msg));
        }
        Ok(
            SourceFormat {
                sample_rate: samples_per_sec,
                channels: channels as usize,
                block_align,
                kind: if is_float { SampleKind::F32 } else { SampleKind::Int(bytes as usize) },
            },
        )
    }
}

/// The `i16` with little-endian bytes `lo`, `hi`.
pub open spec fn le_i16(lo: u8, hi: u8) -> int {
    let u = lo + 256 * hi;
    if hi >= 128 {
        u - 65536
    } else {
        u
    }
}

/// One channel of an integer PCM frame scaled to `i16`: 8-bit samples are
/// unsigned and re-centred, wider ones keep their top two bytes; a channel
/// beyond the frame reads as silence.
pub open spec fn int_sample(frame: Seq<u8>, channel: int, width: int) -> int {
    let at = channel * width;
    if at + width > frame.len() {
        0
    } else if width == 1 {
        (frame[at] - 128) * 256
    } else if width == 2 {
        le_i16(frame[at], frame[at + 1])
    } else if width == 3 {
        le_i16(frame[at + 1], frame[at + 2])
    } else {
        le_i16(frame[at + width - 2], frame[at + width - 1])
    }
}

fn i16_from_le(lo: u8, hi: u8) -> (v: i16)
    ensures
        v == le_i16(lo, hi),
{
    let u: u16 = lo as u16 + 256 * (hi as u16);
    if hi >= 128 {
        (u as i32 - 65536) as i16
    } else {
        u as i16
    }
}

/// Reads one channel of the integer PCM frame that starts at `start` and
/// spans `frame_len` bytes, scaled to `i16`.
pub fn int_sample_at(bytes: &[u8], start: usize, frame_len: usize, channel: usize, width: usize) -> (sample: i16)
    requires
        width >= 1,
        start + frame_len <= bytes@.len(),
        channel * width + width <= usize::MAX,
    ensures
        sample == int_sample(bytes@.subrange(start as int, start + frame_len), channel as int, width as int),
{
    let ghost frame = bytes@.subrange(start as int, start + frame_len);
    let n = bytes.len();
    let at = channel * width;
    if at + width > frame_len {
        return 0;
    }
    let base = start + at;
    if width == 1 {
        assert(frame[at as int] == bytes@[base as int]);
        ((bytes[base] as i16) - 128) * 256
    } else if width == 2 {
        assert(frame[at as int] == bytes@[base as int]);
        assert(frame[at + 1] == bytes@[base + 1]);
        i16_from_le(bytes[base], bytes[base + 1])
    } else if width == 3 {
        assert(frame[at + 1] == bytes@[base + 1]);
        assert(frame[at + 2] == bytes@[base + 2]);
        i16_from_le(bytes[base + 1], bytes[base + 2])
    } else {
        assert(frame[at + width - 2] == bytes@[base + width - 2]);
        assert(frame[at + width - 1] == bytes@[base + width - 1]);
        i16_from_le(bytes[base + width - 2], bytes[base + width - 1])
    }
}

/// The low byte of an `i16` in two's complement.
pub open spec fn low_byte(v: int) -> u8 {
    ((v + 65536) % 256) as u8
}

/// The high byte of an `i16` in two's complement.
pub open spec fn high_byte(v: int) -> u8 {
    (((v + 65536) / 256) % 256) as u8
}

/// Number of whole frames of `frame_bytes` bytes in `len` bytes.
pub open spec fn whole_frames(len: int, frame_bytes: int) -> int {
    if frame_bytes <= 0 {
        0
    } else {
        len / frame_bytes
    }
}

/// The source channel that feeds output channel `c`: mono feeds both, and
/// channels beyond the second are dropped.
pub open spec fn source_channel(channels: int, c: int) -> int {
    if c < channels - 1 {
        c
    } else {
        channels - 1
    }
}

/// Byte `i` of the interleaved 16-bit little-endian stereo made from
/// `bytes`.
pub open spec fn converted_byte(format: SourceFormat, width: int, bytes: Seq<u8>, i: int) -> u8 {
    let frame_bytes = format.block_align as int;
    let f = i / 4;
    let c = (i % 4) / 2;
    let frame = bytes.subrange(f * frame_bytes, f * frame_bytes + frame_bytes);
    let v = int_sample(frame, source_channel(format.channels as int, c), width);
    if i % 2 == 0 {
        low_byte(v)
    } else {
        high_byte(v)
    }
}

/// Interleaved 16-bit little-endian stereo made from the whole frames of
/// `bytes`; a trailing partial frame is left out.
pub open spec fn converted(format: SourceFormat, width: int, bytes: Seq<u8>) -> Seq<u8> {
    let frames = whole_frames(bytes.len() as int, format.block_align as int);
    Seq::new((frames * 4) as nat, |i: int| converted_byte(format, width, bytes, i))
}

/// The two little-endian bytes of `v`.
fn le_bytes(v: i16) -> (b: (u8, u8))
    ensures
        b.0 == low_byte(v as int),
        b.1 == high_byte(v as int),
{
    let w: u32 = (v as i32 + 65536) as u32;
    ((w % 256) as u8, ((w / 256) % 256) as u8)
}

/// Frames of silence to add so the stream keeps up with the wall clock:
/// the shortfall of `produced` behind `expected`, when it is more than a
/// hundredth of a second at `sample_rate`; jitter below that is left alone.
pub open spec fn padding(expected: int, produced: int, sample_rate: int) -> int {
    if expected >= produced && expected - produced > sample_rate / 100 {
        expected - produced
    } else {
        0
    }
}

/// How many frames of silence to add after `produced` frames when
/// `expected` frames' worth of time has passed since the stream was armed.
pub fn padding_frames(expected: u64, produced: u64, sample_rate: u32) -> (missing: u64)
    ensures
        missing == padding(expected as int, produced as int, sample_rate as int),
{
    if expected >= produced {
        let missing = expected - produced;
        if missing > sample_rate as u64 / 100 {
            return missing;
        }
    }
    0
}

/// Bytes of 16-bit stereo silence for `frames` frames.
pub fn silence_bytes(frames: usize) -> (bytes: usize)
    requires
        frames * (CHANNELS * BYTES_PER_SAMPLE) <= usize::MAX,
    ensures
        bytes == frames * 4,
{
    frames * (CHANNELS * BYTES_PER_SAMPLE)
}

/// The newest `max` bytes of `s`, or all of it when it is no longer.
pub open spec fn newest(s: Seq<u8>, max: int) -> Seq<u8> {
    if s.len() > max {
        s.subrange(s.len() - max, s.len() as int)
    } else {
        s
    }
}

/// Appends `staging` to the buffered PCM and, when that makes it longer than
/// `max`, drops the oldest bytes so that exactly `max` remain.
pub fn append_capped(buffer: &mut Vec<u8>, staging: &[u8], max: usize)
    requires
        old(buffer)@.len() + staging@.len() <= usize::MAX,
    ensures
        final(buffer)@ == newest(old(buffer)@ + staging@, max as int),
{
    let mut i: usize = 0;
    while i < staging.len()
        invariant
            i <= staging@.len(),
            buffer@ == old(buffer)@ + staging@.take(i as int),
        decreases staging@.len() - i,
    {
        buffer.push(staging[i]);
        proof {
            assert(staging@.take(i + 1) =~= staging@.take(i as int).push(staging@[i as int]));
        }
        i = i + 1;
    }
    assert(staging@.take(i as int) =~= staging@);
    let len = buffer.len();
    if len > max {
        let excess = len - max;
        let ghost all = buffer@;
        let mut kept: Vec<u8> = Vec::new();
        let mut j: usize = excess;
        while j < len
            invariant
                excess <= j <= len,
                len == all.len(),
                buffer@ == all,
                kept@ == all.subrange(excess as int, j as int),
            decreases len - j,
        {
            kept.push(buffer[j]);
            proof {
                assert(all.subrange(excess as int, j + 1) =~= all.subrange(excess as int, j as int).push(all[j as int]));
            }
            j = j + 1;
        }
        *buffer = kept;
    }
}

/// The shared PCM buffer after one poll that staged `staging`: unchanged
/// until the stream is armed or when nothing was staged, else the staged
/// bytes appended and the whole kept to its newest `max` bytes.
pub open spec fn delivered(buffer: Seq<u8>, staging: Seq<u8>, armed: bool, max: int) -> Seq<u8> {
    if armed && staging.len() > 0 {
        newest(buffer + staging, max)
    } else {
        buffer
    }
}

/// Hands one poll's staged PCM to the shared buffer: nothing reaches it
/// before the stream is armed; afterwards the bytes are appended and the
/// oldest dropped beyond `max`.
pub fn deliver(buffer: &mut Vec<u8>, staging: &[u8], armed: bool, max: usize)
    requires
        old(buffer)@.len() + staging@.len() <= usize::MAX,
    ensures
        final(buffer)@ == delivered(old(buffer)@, staging@, armed, max as int),
{
    if armed && staging.len() > 0 {
        append_capped(buffer, staging, max);
    }
}

/// What every poll keeps of the shared buffer: while the stream is not
/// armed nothing is added; after any poll the buffer holds at most `max`
/// bytes, and whole 4-byte frames when the cap, the buffer and the staged
/// bytes are whole frames; and what is dropped are the oldest bytes, so the
/// buffer is always the tail of what came before it and was staged.
pub proof fn lemma_delivery_keeps_the_cap(buffer: Seq<u8>, staging: Seq<u8>, armed: bool, max: int)
    requires
        0 <= max,
        buffer.len() <= max,
    ensures
        !armed ==> delivered(buffer, staging, armed, max) == buffer,
        delivered(buffer, staging, armed, max).len() <= max,
        ({
            let all = buffer + staging;
            let kept = delivered(buffer, staging, armed, max);
            armed ==> kept == all.subrange(all.len() - kept.len(), all.len() as int)
        }),
        (buffer.len() % 4 == 0 && staging.len() % 4 == 0 && max % 4 == 0) ==> delivered(
            buffer,
            staging,
            armed,
            max,
        ).len() % 4 == 0,
{
    let all = buffer + staging;
    if armed && staging.len() > 0 {
        if all.len() <= max {
            assert(all.subrange(0, all.len() as int) =~= all);
        }
    } else if armed {
        assert(all =~= buffer);
        assert(all.subrange(0, all.len() as int) =~= all);
    }
}

/// The shared buffer after a run of polls, each given by what it staged
/// and whether the stream was armed, starting from `buffer`.
pub open spec fn delivered_all(buffer: Seq<u8>, polls: Seq<(Seq<u8>, bool)>, max: int) -> Seq<u8>
    decreases polls.len(),
{
    if polls.len() == 0 {
        buffer
    } else {
        let before = delivered_all(buffer, polls.drop_last(), max);
        delivered(before, polls.last().0, polls.last().1, max)
    }
}

/// Over a whole capture run: a buffer that starts within the cap stays
/// within it after every poll; it holds whole 4-byte frames throughout when
/// the cap and every staged chunk do; and while no poll is armed, nothing
/// is added to it.
pub proof fn lemma_run_keeps_the_cap(buffer: Seq<u8>, polls: Seq<(Seq<u8>, bool)>, max: int)
    requires
        0 <= max,
        buffer.len() <= max,
    ensures
        delivered_all(buffer, polls, max).len() <= max,
        (buffer.len() % 4 == 0 && max % 4 == 0 && forall|i: int|
            0 <= i < polls.len() ==> (#[trigger] polls[i]).0.len() % 4 == 0) ==> delivered_all(
            buffer,
            polls,
            max,
        ).len() % 4 == 0,
        (forall|i: int| 0 <= i < polls.len() ==> !(#[trigger] polls[i]).1) ==> delivered_all(
            buffer,
            polls,
            max,
        ) == buffer,
    decreases polls.len(),
{
    if polls.len() > 0 {
        let rest = polls.drop_last();
        lemma_run_keeps_the_cap(buffer, rest, max);
        let before = delivered_all(buffer, rest, max);
        lemma_delivery_keeps_the_cap(before, polls.last().0, polls.last().1, max);
        assert(forall|i: int| 0 <= i < rest.len() ==> rest[i] == polls[i]);
    }
}

impl SourceFormat {
    /// Appends to `out` the 16-bit stereo made from the whole frames of
    /// `bytes`, which hold integer PCM. Float sources are converted where
    /// floating point is available.
    pub fn convert_into(&self, bytes: &[u8], out: &mut Vec<u8>)
        requires
            self.channels >= 1,
            self.kind matches SampleKind::Int(w) && w >= 1 && 2 * w <= usize::MAX,
        ensures
            final(out)@ == old(out)@ + converted(*self, self.kind->Int_0 as int, bytes@),
    {
        let width = match self.kind {
            SampleKind::Int(w) => w,
            SampleKind::F32 => 4,
        };
        let ghost want = converted(*self, width as int, bytes@);
        let frame_bytes = self.block_align as usize;
        if frame_bytes == 0 {
            assert(want =~= Seq::<u8>::empty());
            assert(out@ =~= old(out)@ + want);
            return;
        }
        let n = bytes.len();
        let frames = n / frame_bytes;
        let second: usize = if self.channels >= 2 { 1 } else { 0 };
        let mut f: usize = 0;
        while f < frames
            invariant
                frame_bytes == self.block_align as usize,
                frame_bytes > 0,
                frames == (bytes@.len() as int) / (frame_bytes as int),
                n == bytes@.len(),
                f <= frames,
                width >= 1,
                2 * width <= usize::MAX,
                self.channels >= 1,
                second == source_channel(self.channels as int, 1),
                want == converted(*self, width as int, bytes@),
                want.len() == frames * 4,
                out@ == old(out)@ + want.take(4 * f as int),
            decreases frames - f,
        {
            assert(f * frame_bytes + frame_bytes <= bytes@.len()) by (nonlinear_arith)
                requires
                    f < frames,
                    frames == (bytes@.len() as int) / (frame_bytes as int),
                    frame_bytes > 0,
            {
                assert(frames * frame_bytes <= bytes@.len());
                assert(f * frame_bytes + frame_bytes <= frames * frame_bytes);
            }
            assert(second * width + width <= usize::MAX) by (nonlinear_arith)
                requires
                    second <= 1,
                    2 * width <= usize::MAX,
            ;
            let start = f * frame_bytes;
            let left = int_sample_at(bytes, start, frame_bytes, 0, width);
            let right = int_sample_at(bytes, start, frame_bytes, second, width);
            let (l0, l1) = le_bytes(left);
            let (r0, r1) = le_bytes(right);
            proof {
                let b = 4 * f as int;
                assert(source_channel(self.channels as int, 0) == 0);
                assert forall|k: int| 0 <= k < 4 implies (b + k) / 4 == f && #[trigger] ((b + k) % 4) == k by {
                    assert((b + k) / 4 == f) by (nonlinear_arith) requires b == 4 * f, 0 <= k < 4;
                    assert((b + k) % 4 == k) by (nonlinear_arith) requires b == 4 * f, 0 <= k < 4;
                }
                assert(want[b] == l0);
                assert(want[b + 1] == l1);
                assert(want[b + 2] == r0);
                assert(want[b + 3] == r1);
            }
            out.push(l0);
            out.push(l1);
            out.push(r0);
            out.push(r1);
            proof {
                let b = 4 * f as int;
                assert(want.take(b + 4) =~= want.take(b) + seq![l0, l1, r0, r1]);
            }
            f = f + 1;
        }
        assert(want.take(4 * f as int) =~= want);
    }
}

} // verus!
