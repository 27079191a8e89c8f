//! Captured sound: its format, and the times at which its packets were captured.

use crate::audio_ring::{AudioChunk, Window};
use crate::clock::{ticks, ticks_nanos, Instant};
use vstd::prelude::*;

verus! {

/// Format tags of a wave header.
pub const WAVE_FORMAT_PCM: u16 = 1;

pub const WAVE_FORMAT_IEEE_FLOAT: u16 = 3;

pub const WAVE_FORMAT_EXTENSIBLE: u16 = 0xFFFE;

/// The flag on a packet that holds silence, whatever its buffer holds.
pub const SILENT: u32 = 2;

/// Nanoseconds by which the packets may lag behind the clock before they are set to it again.
pub const LAG_NANOS: u64 = 50_000_000;

/// How samples are laid out.
#[derive(Clone, Copy, PartialEq, Eq, Structural, Debug)]
pub struct AudioFormat {
    pub sample_rate: u32,
    pub channels: u16,
    pub bits_per_sample: u16,
    pub block_align: u16,
    pub is_float: bool,
}

/// The name that ffmpeg has for a sample format. What has no name of its own is taken for
/// 32-bit floating point.
pub open spec fn sample_format(is_float: bool, bits_per_sample: u16) -> Seq<char> {
    if !is_float && bits_per_sample == 16 {
        "s16le"@
    } else if !is_float && bits_per_sample == 32 {
        "s32le"@
    } else {
        "f32le"@
    }
}

/// Whether a wave header describes floating-point samples. An extensible header has the tag
/// that counts in the bytes numbered 24 and 25, the low one first; a tag that is not known
/// counts as floating point.
pub open spec fn is_float_header(format_tag: u16, header: Seq<u8>) -> bool {
    if format_tag == WAVE_FORMAT_EXTENSIBLE {
        header[24] + 256 * header[25] == WAVE_FORMAT_IEEE_FLOAT
    } else {
        format_tag != WAVE_FORMAT_PCM
    }
}

/// When a packet of `length` nanoseconds ends that is there at `now` and follows on one that
/// ended at `previous`: right behind it, or now where it lags too far behind.
pub open spec fn packet_end(previous: Instant, length: nat, now: Instant) -> int {
    if now.nanos > previous.nanos + LAG_NANOS {
        now.nanos as int
    } else {
        previous.nanos + length
    }
}

/// The bytes of a packet: those of its buffer, or silence where its flags say so.
pub open spec fn packet_bytes(
    flags: u32,
    num_frames: u32,
    block_align: u16,
    sound: Seq<u8>,
) -> Seq<u8> {
    if flags & SILENT != 0 {
        Seq::new((num_frames * block_align) as nat, |i: int| 0u8)
    } else {
        sound
    }
}

impl AudioFormat {
    /// The name that ffmpeg has for the sample format.
    pub fn ffmpeg_format(&self) -> (name: &'static str)
        ensures
            name@ == sample_format(self.is_float, self.bits_per_sample),
    {
        if !self.is_float && self.bits_per_sample == 16 {
            "s16le"
        } else if !self.is_float && self.bits_per_sample == 32 {
            "s32le"
        } else {
            "f32le"
        }
    }
}

/// Whether a wave header describes floating-point samples, where `header` is the whole of it.
pub fn is_float_format(format_tag: u16, header: &Vec<u8>) -> (r: bool)
    requires
        format_tag == WAVE_FORMAT_EXTENSIBLE ==> header@.len() >= 26,
    ensures
        r == is_float_header(format_tag, header@),
{
    if format_tag == WAVE_FORMAT_EXTENSIBLE {
        let sub_tag: u16 = header[24] as u16 + 256 * (header[25] as u16);
        sub_tag == WAVE_FORMAT_IEEE_FLOAT
    } else {
        format_tag != WAVE_FORMAT_PCM
    }
}

/// Whether a packet is silent, so that its buffer is not to be read.
pub fn is_silent(flags: u32) -> (r: bool)
    ensures
        r == (flags & SILENT != 0),
{
    flags & SILENT != 0
}

/// The times of the packets of one stream.
pub struct PacketClock {
    /// When the last packet ended.
    pub next_chunk_end: Instant,
}

impl PacketClock {
    /// A stream that starts at `now`.
    pub fn new(now: Instant) -> (c: PacketClock)
        ensures
            c.next_chunk_end == now,
    {
        PacketClock { next_chunk_end: now }
    }

    /// Makes a chunk of a packet of `num_frames` frames that is there at `now`: of the bytes in
    /// `sound`, or of silence where the packet's flags say so.
    pub fn on_packet(
        &mut self,
        format: &AudioFormat,
        num_frames: u32,
        flags: u32,
        sound: Vec<u8>,
        now: Instant,
    ) -> (chunk: AudioChunk)
        requires
            format.sample_rate > 0,
            num_frames * format.block_align <= isize::MAX,
            old(self).next_chunk_end.nanos + LAG_NANOS <= u64::MAX,
            packet_end(
                old(self).next_chunk_end,
                ticks(num_frames as nat, format.sample_rate as nat),
                now,
            ) <= u64::MAX,
            ticks(num_frames as nat, format.sample_rate as nat) <= packet_end(
                old(self).next_chunk_end,
                ticks(num_frames as nat, format.sample_rate as nat),
                now,
            ),
        ensures
            chunk.num_frames == num_frames,
            chunk.captured_at == final(self).next_chunk_end,
            chunk.captured_at.nanos == packet_end(
                old(self).next_chunk_end,
                ticks(num_frames as nat, format.sample_rate as nat),
                now,
            ),
            chunk.data@ == if flags & SILENT != 0 {
                Seq::new((num_frames * format.block_align) as nat, |i: int| 0u8)
            } else {
                sound@
            },
            chunk.data@ == packet_bytes(flags, num_frames, format.block_align, sound@),
    {
        let data: Vec<u8> = if is_silent(flags) {
            proof {
                assert(num_frames * format.block_align <= 0xFFFF_FFFF * 0xFFFF) by (nonlinear_arith)
                    requires
                        0 <= num_frames <= 0xFFFF_FFFF,
                        0 <= format.block_align <= 0xFFFF,
                ;
            }
            let count: u64 = num_frames as u64 * format.block_align as u64;
            let zeros: Vec<u8> = vec![0u8; count as usize];
            assert(zeros@ =~= Seq::new((num_frames * format.block_align) as nat, |i: int| 0u8));
            zeros
        } else {
            sound
        };
        let length: u64 = ticks_nanos(num_frames, format.sample_rate);
        if now.nanos > self.next_chunk_end.nanos + LAG_NANOS {
            self.next_chunk_end = Instant { nanos: now.nanos - length };
        }
        self.next_chunk_end = Instant { nanos: self.next_chunk_end.nanos + length };
        AudioChunk { data, num_frames, captured_at: self.next_chunk_end }
    }
}

/// A packet that does not lag begins where the one before it ended: the stream has no gap and
/// no overlap.
pub proof fn law_packets_join(w: Window, chunk: AudioChunk, previous: Instant, now: Instant)
    requires
        chunk.captured_at.nanos == packet_end(
            previous,
            ticks(chunk.num_frames as nat, w.sample_rate as nat),
            now,
        ),
        now.nanos <= previous.nanos + LAG_NANOS,
    ensures
        w.begin_of(chunk) == previous.nanos,
{
}

/// No packet is placed further behind the clock than the lag that is allowed.
pub proof fn law_lag_is_bounded(previous: Instant, length: nat, now: Instant)
    ensures
        packet_end(previous, length, now) >= now.nanos - LAG_NANOS,
{
}

/// A packet that is there within fifty milliseconds of the end of the one before it ends its own
/// length behind it; a later one ends now.
pub proof fn law_packets_follow_the_clock(previous: Instant, length: nat, now: Instant)
    ensures
        now.nanos - previous.nanos <= 50_000_000 ==> packet_end(previous, length, now)
            - previous.nanos == length,
        now.nanos - previous.nanos > 50_000_000 ==> packet_end(previous, length, now) == now.nanos,
{
}

/// A packet whose second lowest flag is set is as long as its frames and silent throughout,
/// whatever its buffer holds; any other one has the bytes of its buffer.
pub proof fn law_flagged_packets_are_silent(
    flags: u32,
    num_frames: u32,
    block_align: u16,
    sound: Seq<u8>,
    i: int,
)
    ensures
        flags / 2 % 2 == 1 ==> {
            let bytes = packet_bytes(flags, num_frames, block_align, sound);
            &&& bytes.len() == num_frames * block_align
            &&& 0 <= i < bytes.len() ==> bytes[i] == 0
        },
        flags / 2 % 2 == 0 ==> packet_bytes(flags, num_frames, block_align, sound) == sound,
{
    assert(flags & 2 != 0 <==> flags / 2 % 2 == 1) by (bit_vector);
    assert(0 <= num_frames * block_align) by (nonlinear_arith)
        requires
            0 <= num_frames,
            0 <= block_align,
    ;
}

/// Integer samples of 16 and of 32 bits have names of their own, and all others are taken for
/// 32-bit floating point.
pub proof fn law_samples_are_named(bits: u16)
    ensures
        sample_format(true, bits) == "f32le"@,
        sample_format(false, 16) == "s16le"@,
        sample_format(false, 32) == "s32le"@,
        bits != 16 && bits != 32 ==> sample_format(false, bits) == "f32le"@,
{
}

/// A header with the tag 1 is one of integers; one with the tag 0xFFFE is one of floating point
/// where its bytes numbered 24 and 25 are 3 and 0, and of integers otherwise; every other tag
/// stands for floating point, whatever the header holds.
pub proof fn law_tag_tells_the_samples(tag: u16, header: Seq<u8>)
    ensures
        tag == 1 ==> !is_float_header(tag, header),
        tag == 0xFFFE ==> (is_float_header(tag, header) <==> header[24] == 3 && header[25] == 0),
        tag != 1 && tag != 0xFFFE ==> is_float_header(tag, header),
{
}

} // verus!
