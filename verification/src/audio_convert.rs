//! Sample conversion: reading decoded audio into one interleaved stream at
//! the device's channel count, and picking the samples that a change of
//! sample rate blends.
//!
//! Nothing here computes with floating point. A fixed-point sample is an
//! integer with the power of two it is measured in, a floating-point sample
//! its bit pattern, and averaging and blending are left to the caller, who
//! is told exactly which samples to use.

use crate::frame::{AudioFrame, SampleFormat};
use vstd::prelude::*;

verus! {

/// One sample as the source stores it.
#[derive(Clone, Copy, Debug, PartialEq, Eq, Structural)]
pub enum Sample {
    /// The value `value / 2^scale`.
    Fixed { value: i32, scale: u32 },
    /// The single-precision value with these bits.
    F32(u32),
    /// The double-precision value with these bits.
    F64(u64),
}

/// An audio frame rearranged for the output: each output sample is the mean
/// of the next `group` source samples, which is the sample itself where
/// `group` is one.
#[derive(Debug)]
pub struct Mixdown {
    pub samples: Vec<Sample>,
    pub group: usize,
}

/// One output sample of a change of rate: `a` and `b` are the source samples
/// on either side of the output frame `frame`, which falls at
/// `frame * src_rate / dst_rate` source frames; `index` is that position
/// rounded down.
#[derive(Clone, Copy, Debug, PartialEq, Eq, Structural)]
pub struct Blend {
    pub a: u32,
    pub b: u32,
    pub frame: u64,
    pub index: u64,
}

/// Output samples that are ready, or what has to be blended to get them from
/// one rate to another.
#[derive(Debug)]
pub enum Paced {
    Ready(Vec<u32>),
    Blended { blends: Vec<Blend>, src_rate: u32, dst_rate: u32 },
}

/// The unsigned number that little-endian bytes write down.
pub open spec fn little_endian(bytes: Seq<u8>) -> nat
    decreases bytes.len(),
{
    if bytes.len() == 0 {
        0
    } else {
        bytes[0] as nat + 256 * little_endian(bytes.drop_first())
    }
}

/// Two's complement: `raw` out of `2 * half` values, the upper half negative.
pub open spec fn signed(raw: nat, half: nat) -> int {
    if raw < half {
        raw as int
    } else {
        raw - 2 * half
    }
}

/// Bytes that one sample takes.
pub open spec fn sample_width(format: SampleFormat) -> nat {
    match format {
        SampleFormat::U8 | SampleFormat::S8 | SampleFormat::U8P => 1,
        SampleFormat::S16 | SampleFormat::S16P => 2,
        SampleFormat::S24 => 3,
        SampleFormat::S32 | SampleFormat::F32 | SampleFormat::S32P | SampleFormat::F32P => 4,
        SampleFormat::F64 | SampleFormat::F64P => 8,
    }
}

/// Whether each channel has a plane of its own.
pub open spec fn is_planar(format: SampleFormat) -> bool {
    match format {
        SampleFormat::U8P | SampleFormat::S16P | SampleFormat::S32P | SampleFormat::F32P
        | SampleFormat::F64P => true,
        _ => false,
    }
}

/// The sample that the bytes of its format write down.
pub open spec fn sample_of(format: SampleFormat, raw: nat) -> Sample {
    match format {
        SampleFormat::U8 | SampleFormat::U8P => Sample::Fixed {
            value: (raw - 128) as i32,
            scale: 7,
        },
        SampleFormat::S8 => Sample::Fixed { value: signed(raw, 0x80) as i32, scale: 7 },
        SampleFormat::S16 | SampleFormat::S16P => Sample::Fixed {
            value: signed(raw, 0x8000) as i32,
            scale: 15,
        },
        SampleFormat::S24 => Sample::Fixed { value: signed(raw, 0x80_0000) as i32, scale: 23 },
        SampleFormat::S32 | SampleFormat::S32P => Sample::Fixed {
            value: signed(raw, 0x8000_0000) as i32,
            scale: 31,
        },
        SampleFormat::F32 | SampleFormat::F32P => Sample::F32(raw as u32),
        SampleFormat::F64 | SampleFormat::F64P => Sample::F64(raw as u64),
    }
}

/// A channel count, taken as one where it says none.
pub open spec fn at_least_one(channels: u16) -> nat {
    if channels == 0 {
        1
    } else {
        channels as nat
    }
}

impl AudioFrame {
    /// The plane that holds a channel.
    pub open spec fn plane_of(&self, ch: int) -> int {
        if is_planar(self.format) {
            ch
        } else {
            0
        }
    }

    /// Where sample `i` of a channel starts in its plane.
    pub open spec fn offset_of(&self, ch: int, i: int) -> int {
        (if is_planar(self.format) {
            i
        } else {
            i * at_least_one(self.channels) + ch
        }) * sample_width(self.format)
    }

    /// Whether the frame holds sample `i` of a channel.
    pub open spec fn present(&self, ch: int, i: int) -> bool {
        &&& self.plane_of(ch) < self.data@.len()
        &&& self.offset_of(ch, i) + sample_width(self.format) <= self.data@[self.plane_of(
            ch,
        )]@.len()
    }

    /// The bytes of sample `i` of a channel.
    pub open spec fn sample_bytes(&self, ch: int, i: int) -> Seq<u8> {
        let off = self.offset_of(ch, i);
        self.data@[self.plane_of(ch)]@.subrange(off, off + sample_width(self.format))
    }

    /// Sample `i` of a channel.
    pub open spec fn sample(&self, ch: int, i: int) -> Sample {
        sample_of(self.format, little_endian(self.sample_bytes(ch, i)))
    }
}

/// The source channels that one output frame is made of. A mono source goes
/// to every output channel; a mono output averages all source channels;
/// otherwise each output channel takes the source channel of its number, or
/// the last one.
pub open spec fn source_channels(in_ch: nat, out_ch: nat) -> Seq<int> {
    if in_ch == 1 {
        Seq::new(out_ch, |oc: int| 0)
    } else if out_ch == 1 {
        Seq::new(in_ch, |ic: int| ic)
    } else {
        Seq::new(
            out_ch,
            |oc: int|
                if oc < in_ch {
                    oc
                } else {
                    in_ch - 1
                },
        )
    }
}

/// How many source samples make one output sample.
pub open spec fn mean_of(in_ch: nat, out_ch: nat) -> nat {
    if out_ch == 1 {
        in_ch
    } else {
        1
    }
}

/// Whether the frame holds every sample that the output needs.
pub open spec fn holds_all(frame: &AudioFrame, out_channels: u16) -> bool {
    let sources = source_channels(at_least_one(frame.channels), at_least_one(out_channels));
    forall|i: int, j: int|
        0 <= i < frame.samples && 0 <= j < sources.len() ==> #[trigger] frame.present(sources[j], i)
}

/// The source samples in output order.
pub open spec fn interleaved(frame: &AudioFrame, out_channels: u16) -> Seq<Sample> {
    let sources = source_channels(at_least_one(frame.channels), at_least_one(out_channels));
    Seq::new(
        (frame.samples * sources.len()) as nat,
        |k: int| frame.sample(sources[k % sources.len() as int], k / sources.len() as int),
    )
}

/// `256^n`, the number of values that `n` bytes can write down.
spec fn byte_values(n: nat) -> nat
    decreases n,
{
    if n == 0 {
        1
    } else {
        256 * byte_values((n - 1) as nat)
    }
}

proof fn lemma_little_endian_bound(bytes: Seq<u8>)
    ensures
        little_endian(bytes) < byte_values(bytes.len()),
    decreases bytes.len(),
{
    if bytes.len() > 0 {
        lemma_little_endian_bound(bytes.drop_first());
    }
}

proof fn lemma_byte_values()
    ensures
        byte_values(1) == 0x100,
        byte_values(2) == 0x1_0000,
        byte_values(3) == 0x100_0000,
        byte_values(4) == 0x1_0000_0000,
        byte_values(8) == 0x1_0000_0000_0000_0000,
{
    reveal_with_fuel(byte_values, 9);
}

proof fn lemma_byte_values_monotonic(n: nat, m: nat)
    requires
        n <= m,
    ensures
        byte_values(n) <= byte_values(m),
    decreases m,
{
    if n < m {
        lemma_byte_values_monotonic(n, (m - 1) as nat);
    }
}

/// Reads a little-endian number of at most eight bytes.
fn read_little_endian(data: &Vec<u8>, off: usize, width: usize) -> (raw: u64)
    requires
        width <= 8,
        off + width <= data@.len(),
    ensures
        raw == little_endian(data@.subrange(off as int, off + width)),
{
    let mut raw: u64 = 0;
    let mut k: usize = width;
    assert(data@.len() == data.len());
    let ghost bytes = data@.subrange(off as int, off + width);
    assert(bytes.subrange(k as int, width as int) =~= Seq::<u8>::empty());
    while k > 0
        invariant
            k <= width <= 8,
            off + width <= data.len(),
            bytes == data@.subrange(off as int, off + width),
            raw == little_endian(bytes.subrange(k as int, width as int)),
        decreases k,
    {
        proof {
            let rest = bytes.subrange(k as int, width as int);
            let longer = bytes.subrange(k - 1, width as int);
            assert(longer.drop_first() =~= rest);
            assert(longer[0] == data@[off + k - 1]);
            lemma_little_endian_bound(longer);
            lemma_byte_values_monotonic(longer.len(), 8);
            lemma_byte_values();
        }
        k = k - 1;
        raw = raw * 256 + data[off + k] as u64;
    }
    assert(bytes.subrange(0, width as int) =~= bytes);
    raw
}

/// Bytes that one sample takes.
fn width_of(format: SampleFormat) -> (width: usize)
    ensures
        width == sample_width(format),
{
    match format {
        SampleFormat::U8 | SampleFormat::S8 | SampleFormat::U8P => 1,
        SampleFormat::S16 | SampleFormat::S16P => 2,
        SampleFormat::S24 => 3,
        SampleFormat::S32 | SampleFormat::F32 | SampleFormat::S32P | SampleFormat::F32P => 4,
        SampleFormat::F64 | SampleFormat::F64P => 8,
    }
}

/// Whether each channel has a plane of its own.
fn planar(format: SampleFormat) -> (planar: bool)
    ensures
        planar == is_planar(format),
{
    match format {
        SampleFormat::U8P | SampleFormat::S16P | SampleFormat::S32P | SampleFormat::F32P
        | SampleFormat::F64P => true,
        _ => false,
    }
}

/// Takes a raw number of `2 * half` values as two's complement.
fn to_signed(raw: u64, half: u64) -> (value: i32)
    requires
        raw < 2 * half,
        half <= 0x8000_0000,
    ensures
        value == signed(raw as nat, half as nat),
{
    if raw < half {
        raw as i32
    } else {
        (raw as i64 - 2 * half as i64) as i32
    }
}

/// Reads one sample of one channel.
fn sample_at(frame: &AudioFrame, ch: usize, i: usize) -> (sample: Sample)
    requires
        frame.present(ch as int, i as int),
    ensures
        sample == frame.sample(ch as int, i as int),
{
    let width = width_of(frame.format);
    let in_ch: usize = if frame.channels == 0 {
        1
    } else {
        frame.channels as usize
    };
    let ghost at = if is_planar(frame.format) {
        i as int
    } else {
        i * in_ch + ch
    };
    let ghost off_spec = frame.offset_of(ch as int, i as int);
    proof {
        assert(off_spec == at * width);
        assert(at <= off_spec) by (nonlinear_arith)
            requires
                off_spec == at * width,
                width >= 1,
                at >= 0,
        ;
        assert(0 <= i * in_ch) by (nonlinear_arith);
    }
    let plane: usize = if planar(frame.format) {
        ch
    } else {
        0
    };
    assert(off_spec <= frame.data@[plane as int].len());
    let off: usize = (if planar(frame.format) {
        i
    } else {
        i * in_ch + ch
    }) * width;
    let raw = read_little_endian(&frame.data[plane], off, width);
    proof {
        lemma_little_endian_bound(
            frame.data@[plane as int]@.subrange(off as int, off + width),
        );
        lemma_byte_values();
    }
    match frame.format {
        SampleFormat::U8 | SampleFormat::U8P => Sample::Fixed {
            value: raw as i32 - 128,
            scale: 7,
        },
        SampleFormat::S8 => Sample::Fixed { value: to_signed(raw, 0x80), scale: 7 },
        SampleFormat::S16 | SampleFormat::S16P => Sample::Fixed {
            value: to_signed(raw, 0x8000),
            scale: 15,
        },
        SampleFormat::S24 => Sample::Fixed { value: to_signed(raw, 0x80_0000), scale: 23 },
        SampleFormat::S32 | SampleFormat::S32P => Sample::Fixed {
            value: to_signed(raw, 0x8000_0000),
            scale: 31,
        },
        SampleFormat::F32 | SampleFormat::F32P => Sample::F32(raw as u32),
        SampleFormat::F64 | SampleFormat::F64P => Sample::F64(raw),
    }
}

/// The `j`-th source channel of an output frame.
fn source_channel(in_ch: usize, out_ch: usize, j: usize) -> (ch: usize)
    requires
        in_ch >= 1,
        j < source_channels(in_ch as nat, out_ch as nat).len(),
    ensures
        ch == source_channels(in_ch as nat, out_ch as nat)[j as int],
{
    if in_ch == 1 {
        0
    } else if out_ch == 1 || j < in_ch {
        j
    } else {
        in_ch - 1
    }
}

/// Rearranges decoded audio into interleaved output at the given channel
/// count, duplicating or averaging channels.
pub fn to_interleaved(frame: &AudioFrame, out_channels: u16) -> (mix: Mixdown)
    requires
        holds_all(frame, out_channels),
    ensures
        mix.samples@ == interleaved(frame, out_channels),
        mix.group == mean_of(at_least_one(frame.channels), at_least_one(out_channels)),
{
    let in_ch: usize = if frame.channels == 0 {
        1
    } else {
        frame.channels as usize
    };
    let out_ch: usize = if out_channels == 0 {
        1
    } else {
        out_channels as usize
    };
    let group: usize = if out_ch == 1 {
        in_ch
    } else {
        1
    };
    let per_frame: usize = if in_ch != 1 && out_ch == 1 {
        in_ch
    } else {
        out_ch
    };
    let n = frame.samples as usize;
    let mut samples: Vec<Sample> = Vec::new();
    let ghost sources = source_channels(in_ch as nat, out_ch as nat);
    let ghost whole = interleaved(frame, out_channels);
    assert(0 * per_frame == 0);
    let mut i: usize = 0;
    while i < n
        invariant
            i <= n,
            n == frame.samples,
            in_ch == at_least_one(frame.channels),
            out_ch == at_least_one(out_channels),
            sources == source_channels(in_ch as nat, out_ch as nat),
            per_frame == sources.len(),
            per_frame >= 1,
            whole == interleaved(frame, out_channels),
            whole.len() == n * per_frame,
            holds_all(frame, out_channels),
            samples@.len() == i * per_frame,
            samples@ =~= whole.take(samples@.len() as int),
        decreases n - i,
    {
        assert((i + 1) * per_frame <= n * per_frame) by (nonlinear_arith)
            requires
                i + 1 <= n,
        ;
        assert((i + 1) * per_frame == i * per_frame + per_frame) by (nonlinear_arith);
        let mut j: usize = 0;
        while j < per_frame
            invariant
                i < n,
                j <= per_frame,
                n == frame.samples,
                in_ch == at_least_one(frame.channels),
                out_ch == at_least_one(out_channels),
                sources == source_channels(in_ch as nat, out_ch as nat),
                per_frame == sources.len(),
                per_frame >= 1,
                whole == interleaved(frame, out_channels),
                whole.len() == n * per_frame,
                i * per_frame + per_frame <= n * per_frame,
                holds_all(frame, out_channels),
                samples@.len() == i * per_frame + j,
                samples@ =~= whole.take(samples@.len() as int),
            decreases per_frame - j,
        {
            let ch = source_channel(in_ch, out_ch, j);
            assert(frame.present(sources[j as int], i as int));
            let s = sample_at(frame, ch, i);
            proof {
                let k = i * per_frame + j;
                vstd::arithmetic::div_mod::lemma_fundamental_div_mod_converse(
                    k,
                    per_frame as int,
                    i as int,
                    j as int,
                );
                assert(whole[k] == s);
            }
            samples.push(s);
            j = j + 1;
        }
        i = i + 1;
    }
    assert(whole.take(whole.len() as int) =~= whole);
    Mixdown { samples, group }
}

proof fn lemma_earlier_sample_is_present(frame: &AudioFrame, ch: int, last: int, i: int)
    requires
        0 <= i <= last,
        frame.present(ch, last),
    ensures
        frame.present(ch, i),
{
    let n = at_least_one(frame.channels) as int;
    let w = sample_width(frame.format) as int;
    assert(i * n <= last * n) by (nonlinear_arith)
        requires
            i <= last,
            n >= 1,
    ;
    assert((i * n + ch) * w <= (last * n + ch) * w) by (nonlinear_arith)
        requires
            i * n <= last * n,
            w >= 1,
    ;
    assert(i * w <= last * w) by (nonlinear_arith)
        requires
            i <= last,
            w >= 1,
    ;
}

/// Whether the frame holds every sample that the output needs, which is what
/// [`to_interleaved`] asks for.
pub fn holds_samples(frame: &AudioFrame, out_channels: u16) -> (held: bool)
    ensures
        held == holds_all(frame, out_channels),
{
    if frame.samples == 0 {
        return true;
    }
    let in_ch: usize = if frame.channels == 0 {
        1
    } else {
        frame.channels as usize
    };
    let out_ch: usize = if out_channels == 0 {
        1
    } else {
        out_channels as usize
    };
    let per_frame: usize = if in_ch != 1 && out_ch == 1 {
        in_ch
    } else {
        out_ch
    };
    let ghost sources = source_channels(in_ch as nat, out_ch as nat);
    let is_planar = planar(frame.format);
    let width = width_of(frame.format) as u64;
    let last: u64 = frame.samples as u64 - 1;
    let mut j: usize = 0;
    while j < per_frame
        invariant
            j <= per_frame,
            in_ch == at_least_one(frame.channels),
            in_ch <= 0xffff,
            out_ch == at_least_one(out_channels),
            out_ch <= 0xffff,
            sources == source_channels(in_ch as nat, out_ch as nat),
            per_frame == sources.len(),
            is_planar == crate::audio_convert::is_planar(frame.format),
            width == sample_width(frame.format),
            last == frame.samples - 1,
            forall|i: int, l: int|
                0 <= i < frame.samples && 0 <= l < j ==> #[trigger] frame.present(sources[l], i),
        decreases per_frame - j,
    {
        let ch = source_channel(in_ch, out_ch, j);
        let plane: usize = if is_planar {
            ch
        } else {
            0
        };
        assert(last * in_ch + ch <= 0xffff_ffff * 0xffff + 0xffff) by (nonlinear_arith)
            requires
                last <= 0xffff_ffff,
                in_ch <= 0xffff,
                ch <= 0xffff,
        ;
        assert((last * in_ch + ch) * width <= (0xffff_ffff * 0xffff + 0xffff) * 8)
            by (nonlinear_arith)
            requires
                0 <= last * in_ch + ch <= 0xffff_ffff * 0xffff + 0xffff,
                width <= 8,
        ;
        assert(last * width <= 0xffff_ffff * 8) by (nonlinear_arith)
            requires
                last <= 0xffff_ffff,
                width <= 8,
        ;
        let at: u64 = if is_planar {
            last
        } else {
            last * in_ch as u64 + ch as u64
        };
        let end: u64 = at * width + width;
        if plane >= frame.data.len() || end > frame.data[plane].len() as u64 {
            assert(!frame.present(sources[j as int], last as int));
            return false;
        }
        proof {
            assert(frame.present(ch as int, last as int));
            assert forall|i: int, l: int|
                0 <= i < frame.samples && 0 <= l < j + 1 implies #[trigger] frame.present(
                sources[l],
                i,
            ) by {
                if l == j {
                    lemma_earlier_sample_is_present(frame, ch as int, last as int, i);
                }
            }
        }
        j = j + 1;
    }
    true
}

/// Output frames of a change of rate: the duration is kept, rounded down.
pub open spec fn resampled_frames(in_frames: nat, src_rate: u32, dst_rate: u32) -> nat {
    in_frames * dst_rate as nat / src_rate as nat
}

/// Whether there is anything to resample.
pub open spec fn resamples(len: nat, src_rate: u32, dst_rate: u32, channels: nat) -> bool {
    len > 0 && channels > 0 && src_rate > 0 && dst_rate > 0
}

/// Whether the output of a change of rate, four bytes for each sample, fits
/// in memory.
pub open spec fn resample_fits(len: nat, src_rate: u32, dst_rate: u32, channels: nat) -> bool {
    resamples(len, src_rate, dst_rate, channels) ==> {
        &&& (len / channels) * dst_rate <= u64::MAX
        &&& resampled_frames(len / channels, src_rate, dst_rate) * channels * 4 <= isize::MAX
    }
}

/// Channel `c` of output frame `i`: the source frames on either side of its
/// position, the last one standing in for what lies beyond it.
pub open spec fn blend_at(
    src: Seq<u32>,
    src_rate: u32,
    dst_rate: u32,
    channels: nat,
    i: int,
    c: int,
) -> Blend {
    let last = src.len() / channels - 1;
    let index = i * src_rate / dst_rate as int;
    let before = if index < last {
        index
    } else {
        last
    };
    let after = if index + 1 < last {
        index + 1
    } else {
        last
    };
    Blend {
        a: src[before * channels + c],
        b: src[after * channels + c],
        frame: i as u64,
        index: index as u64,
    }
}

/// The output of a change of rate, interleaved.
pub open spec fn resampled(
    src: Seq<u32>,
    src_rate: u32,
    dst_rate: u32,
    channels: nat,
) -> Seq<Blend> {
    if resamples(src.len(), src_rate, dst_rate, channels) {
        Seq::new(
            resampled_frames(src.len() / channels, src_rate, dst_rate) * channels,
            |k: int|
                blend_at(
                    src,
                    src_rate,
                    dst_rate,
                    channels,
                    k / channels as int,
                    k % channels as int,
                ),
        )
    } else {
        Seq::empty()
    }
}

/// Whether the output of a change of rate fits in memory, which is what
/// [`resample_linear`] asks for.
pub fn can_resample(len: usize, src_rate: u32, dst_rate: u32, channels: usize) -> (fits: bool)
    ensures
        fits == resample_fits(len as nat, src_rate, dst_rate, channels as nat),
{
    if len == 0 || channels == 0 || src_rate == 0 || dst_rate == 0 {
        return true;
    }
    let in_frames = (len / channels) as u128;
    assert(in_frames * dst_rate <= 0xffff_ffff_ffff_ffff * 0xffff_ffff) by (nonlinear_arith)
        requires
            in_frames <= 0xffff_ffff_ffff_ffff,
            dst_rate <= 0xffff_ffff,
    ;
    let scaled: u128 = in_frames * dst_rate as u128;
    if scaled > u64::MAX as u128 {
        return false;
    }
    let out_frames: u128 = scaled / src_rate as u128;
    let room: u128 = (isize::MAX as u128 / 4) / channels as u128;
    proof {
        let most = isize::MAX as int / 4;
        vstd::arithmetic::div_mod::lemma_fundamental_div_mod(most, channels as int);
        assert(out_frames <= room <==> out_frames * channels <= most) by (nonlinear_arith)
            requires
                most == channels * (most / channels as int) + most % channels as int,
                room == most / channels as int,
                0 <= most % channels as int,
                (most % channels as int) < channels,
                channels > 0,
                out_frames >= 0,
        ;
    }
    out_frames <= room
}

/// Picks the samples of a linear-interpolation change of rate, interleaved.
/// Nothing comes out of an empty source, no channels or a zero rate.
pub fn resample_linear(src: &Vec<u32>, src_rate: u32, dst_rate: u32, channels: usize) -> (out: Vec<
    Blend,
>)
    requires
        resample_fits(src@.len(), src_rate, dst_rate, channels as nat),
    ensures
        out@ == resampled(src@, src_rate, dst_rate, channels as nat),
{
    let mut out: Vec<Blend> = Vec::new();
    if src.len() == 0 || channels == 0 || src_rate == 0 || dst_rate == 0 {
        return out;
    }
    let in_frames: usize = src.len() / channels;
    let out_frames: u64 = in_frames as u64 * dst_rate as u64 / src_rate as u64;
    let ghost scaled: int = in_frames * dst_rate;
    let ghost whole = resampled(src@, src_rate, dst_rate, channels as nat);
    proof {
        assert(in_frames == src@.len() / channels as nat);
        assert(out_frames * src_rate <= scaled) by {
            vstd::arithmetic::div_mod::lemma_fundamental_div_mod(scaled, src_rate as int);
            assert(out_frames * src_rate == src_rate * (scaled / src_rate as int))
                by (nonlinear_arith)
                requires
                    out_frames == scaled / src_rate as int,
            ;
        }
        assert(in_frames * channels <= src@.len()) by {
            vstd::arithmetic::div_mod::lemma_fundamental_div_mod(
                src@.len() as int,
                channels as int,
            );
            assert(in_frames * channels == channels * (src@.len() as int / channels as int))
                by (nonlinear_arith)
                requires
                    in_frames == src@.len() as int / channels as int,
            ;
        }
        if out_frames > 0 && in_frames == 0 {
            assert(scaled == 0) by (nonlinear_arith)
                requires
                    scaled == in_frames * dst_rate,
                    in_frames == 0,
            ;
        }
    }
    let mut i: u64 = 0;
    while i < out_frames
        invariant
            i <= out_frames,
            out_frames > 0 ==> in_frames > 0,
            channels > 0,
            src_rate > 0,
            dst_rate > 0,
            src@.len() == src.len(),
            in_frames == src@.len() / channels as nat,
            in_frames * channels <= src@.len(),
            scaled == in_frames * dst_rate,
            scaled <= u64::MAX,
            out_frames * src_rate <= scaled,
            whole == resampled(src@, src_rate, dst_rate, channels as nat),
            whole.len() == out_frames * channels,
            out@.len() == i * channels,
            out@ =~= whole.take(out@.len() as int),
            resamples(src@.len(), src_rate, dst_rate, channels as nat),
        decreases out_frames - i,
    {
        proof {
            assert(i * src_rate <= out_frames * src_rate) by (nonlinear_arith)
                requires
                    i <= out_frames,
            ;
            assert((i + 1) * channels <= out_frames * channels) by (nonlinear_arith)
                requires
                    i + 1 <= out_frames,
            ;
            assert((i + 1) * channels == i * channels + channels) by (nonlinear_arith);
        }
        let index: u64 = i * src_rate as u64 / dst_rate as u64;
        let last: usize = in_frames - 1;
        let before: usize = if index < last as u64 {
            index as usize
        } else {
            last
        };
        let after: usize = if before < last {
            before + 1
        } else {
            last
        };
        proof {
            assert(before * channels + channels <= in_frames * channels) by (nonlinear_arith)
                requires
                    before + 1 <= in_frames,
            ;
            assert(after * channels + channels <= in_frames * channels) by (nonlinear_arith)
                requires
                    after + 1 <= in_frames,
            ;
        }
        let mut c: usize = 0;
        while c < channels
            invariant
                c <= channels,
                i < out_frames,
                channels > 0,
                src@.len() == src.len(),
                in_frames == src@.len() / channels as nat,
                in_frames * channels <= src@.len(),
                last == in_frames - 1,
                index == i * src_rate / dst_rate as int,
                before == (if index < last {
                    index as int
                } else {
                    last as int
                }),
                after == (if index + 1 < last {
                    index + 1
                } else {
                    last as int
                }),
                before * channels + channels <= in_frames * channels,
                after * channels + channels <= in_frames * channels,
                whole == resampled(src@, src_rate, dst_rate, channels as nat),
                whole.len() == out_frames * channels,
                i * channels + channels <= out_frames * channels,
                out@.len() == i * channels + c,
                out@ =~= whole.take(out@.len() as int),
                resamples(src@.len(), src_rate, dst_rate, channels as nat),
            decreases channels - c,
        {
            let blend = Blend {
                a: src[before * channels + c],
                b: src[after * channels + c],
                frame: i,
                index,
            };
            proof {
                let k = i * channels + c;
                vstd::arithmetic::div_mod::lemma_fundamental_div_mod_converse(
                    k,
                    channels as int,
                    i as int,
                    c as int,
                );
                assert(whole[k] == blend);
            }
            out.push(blend);
            c = c + 1;
        }
        i = i + 1;
    }
    assert(whole.take(whole.len() as int) =~= whole);
    out
}

/// A fixed-point sample lies between minus one and one, one left out.
pub proof fn law_fixed_samples_are_in_range(frame: &AudioFrame, ch: int, i: int)
    requires
        0 <= ch,
        0 <= i,
        frame.present(ch, i),
    ensures
        frame.sample(ch, i) matches Sample::Fixed { value, scale } ==> {
            let one = vstd::arithmetic::power2::pow2(scale as nat);
            -one <= value < one
        },
{
    let n = at_least_one(frame.channels) as int;
    let w = sample_width(frame.format) as int;
    let off = frame.offset_of(ch, i);
    assert(0 <= i * n) by (nonlinear_arith)
        requires
            0 <= i,
            n >= 1,
    ;
    let at = if is_planar(frame.format) {
        i
    } else {
        i * n + ch
    };
    assert(0 <= at * w) by (nonlinear_arith)
        requires
            0 <= at,
            w >= 1,
    ;
    let bytes = frame.data@[frame.plane_of(ch)]@.subrange(off, off + w);
    lemma_little_endian_bound(bytes);
    lemma_byte_values();
    vstd::arithmetic::power2::lemma2_to64();
}

/// The output has one sample for each output channel of each frame, whatever
/// the source's channels.
pub proof fn law_output_keeps_the_frame_count(frame: &AudioFrame, out_channels: u16)
    ensures
        interleaved(frame, out_channels).len() == frame.samples * at_least_one(out_channels)
            * mean_of(at_least_one(frame.channels), at_least_one(out_channels)),
{
    let n = frame.samples as int;
    let i = at_least_one(frame.channels) as int;
    let o = at_least_one(out_channels) as int;
    let sources = source_channels(i as nat, o as nat);
    if o == 1 {
        assert(n * o * i == n * i) by (nonlinear_arith)
            requires
                o == 1,
        ;
    } else {
        assert(n * o * 1 == n * o) by (nonlinear_arith);
    }
    assert(0 <= n * sources.len()) by (nonlinear_arith)
        requires
            n >= 0,
            sources.len() >= 0,
    ;
}

proof fn lemma_interleaved_at(frame: &AudioFrame, out_channels: u16, i: int, j: int)
    requires
        0 <= i < frame.samples,
        0 <= j < source_channels(
            at_least_one(frame.channels),
            at_least_one(out_channels),
        ).len(),
    ensures
        ({
            let sources = source_channels(
                at_least_one(frame.channels),
                at_least_one(out_channels),
            );
            let k = i * sources.len() + j;
            &&& 0 <= k < interleaved(frame, out_channels).len()
            &&& interleaved(frame, out_channels)[k] == frame.sample(sources[j], i)
        }),
{
    let sources = source_channels(at_least_one(frame.channels), at_least_one(out_channels));
    let w = sources.len() as int;
    let k = i * w + j;
    assert(0 <= k < frame.samples * w) by (nonlinear_arith)
        requires
            k == i * w + j,
            0 <= i,
            i + 1 <= frame.samples,
            0 <= j < w,
    ;
    vstd::arithmetic::div_mod::lemma_fundamental_div_mod_converse(k, w, i, j);
}

/// A mono source is heard on every output channel alike.
pub proof fn law_mono_source_feeds_every_channel(
    frame: &AudioFrame,
    out_channels: u16,
    i: int,
    oc: int,
)
    requires
        at_least_one(frame.channels) == 1,
        0 <= i < frame.samples,
        0 <= oc < at_least_one(out_channels),
    ensures
        interleaved(frame, out_channels)[i * at_least_one(out_channels) + oc] == frame.sample(0, i),
        mean_of(at_least_one(frame.channels), at_least_one(out_channels)) == 1,
{
    lemma_interleaved_at(frame, out_channels, i, oc);
}

/// A mono output is the mean of all source channels.
pub proof fn law_mono_output_averages_every_channel(
    frame: &AudioFrame,
    out_channels: u16,
    i: int,
    ic: int,
)
    requires
        at_least_one(out_channels) == 1,
        0 <= i < frame.samples,
        0 <= ic < at_least_one(frame.channels),
    ensures
        interleaved(frame, out_channels)[i * at_least_one(frame.channels) + ic] == frame.sample(
            ic,
            i,
        ),
        mean_of(at_least_one(frame.channels), at_least_one(out_channels)) == at_least_one(
            frame.channels,
        ),
{
    lemma_interleaved_at(frame, out_channels, i, ic);
}

/// Between several source and several output channels each keeps its place;
/// output channels beyond the source's repeat its last.
pub proof fn law_channels_keep_their_place(
    frame: &AudioFrame,
    out_channels: u16,
    i: int,
    oc: int,
)
    requires
        at_least_one(frame.channels) > 1,
        at_least_one(out_channels) > 1,
        0 <= i < frame.samples,
        0 <= oc < at_least_one(out_channels),
    ensures
        ({
            let out = interleaved(frame, out_channels)[i * at_least_one(out_channels) + oc];
            let last = at_least_one(frame.channels) - 1;
            &&& oc <= last ==> out == frame.sample(oc, i)
            &&& oc > last ==> out == frame.sample(last, i)
        }),
        mean_of(at_least_one(frame.channels), at_least_one(out_channels)) == 1,
{
    lemma_interleaved_at(frame, out_channels, i, oc);
}

/// The format with the same samples in one plane.
pub open spec fn interleaved_format(format: SampleFormat) -> SampleFormat {
    match format {
        SampleFormat::U8P => SampleFormat::U8,
        SampleFormat::S16P => SampleFormat::S16,
        SampleFormat::S32P => SampleFormat::S32,
        SampleFormat::F32P => SampleFormat::F32,
        SampleFormat::F64P => SampleFormat::F64,
        _ => format,
    }
}

/// Whether both frames hold the same audio, whichever way their samples are
/// laid out.
pub open spec fn same_audio(a: &AudioFrame, b: &AudioFrame) -> bool {
    &&& interleaved_format(a.format) == interleaved_format(b.format)
    &&& a.channels == b.channels
    &&& a.samples == b.samples
    &&& forall|ch: int, i: int|
        0 <= ch < at_least_one(a.channels) && 0 <= i < a.samples ==> #[trigger] a.sample_bytes(
            ch,
            i,
        ) == b.sample_bytes(ch, i)
}

/// The layout of a frame makes no difference: planar and interleaved samples
/// come out the same.
pub proof fn law_layout_makes_no_difference(a: &AudioFrame, b: &AudioFrame, out_channels: u16)
    requires
        same_audio(a, b),
    ensures
        interleaved(a, out_channels) == interleaved(b, out_channels),
        mean_of(at_least_one(a.channels), at_least_one(out_channels)) == mean_of(
            at_least_one(b.channels),
            at_least_one(out_channels),
        ),
{
    let n = at_least_one(a.channels);
    let sources = source_channels(n, at_least_one(out_channels));
    let w = sources.len() as int;
    let x = interleaved(a, out_channels);
    let y = interleaved(b, out_channels);
    assert(0 <= a.samples * w) by (nonlinear_arith)
        requires
            a.samples >= 0,
            w >= 0,
    ;
    assert forall|k: int| 0 <= k < x.len() implies x[k] == y[k] by {
        let i = k / w;
        let j = k % w;
        vstd::arithmetic::div_mod::lemma_fundamental_div_mod(k, w);
        assert(0 <= i < a.samples) by (nonlinear_arith)
            requires
                k == w * i + j,
                0 <= k < a.samples * w,
                0 <= j < w,
        ;
        assert(0 <= sources[j] < n);
        assert(a.sample_bytes(sources[j], i) == b.sample_bytes(sources[j], i));
    }
    assert(x =~= y);
}

/// A change of rate keeps the duration, short of it by less than one source
/// frame's worth.
pub proof fn law_resampling_keeps_the_duration(in_frames: nat, src_rate: u32, dst_rate: u32)
    requires
        src_rate > 0,
    ensures
        ({
            let out = resampled_frames(in_frames, src_rate, dst_rate);
            out * src_rate <= in_frames * dst_rate < (out + 1) * src_rate
        }),
{
    let total = in_frames * dst_rate;
    let r = src_rate as int;
    vstd::arithmetic::div_mod::lemma_fundamental_div_mod(total, r);
    let q = total / r;
    let m = total % r;
    assert(q * r <= total < (q + 1) * r) by (nonlinear_arith)
        requires
            total == r * q + m,
            0 <= m < r,
    ;
}

proof fn lemma_resampled_at(
    src: Seq<u32>,
    src_rate: u32,
    dst_rate: u32,
    channels: nat,
    i: int,
    c: int,
)
    requires
        resamples(src.len(), src_rate, dst_rate, channels),
        0 <= i < resampled_frames(src.len() / channels, src_rate, dst_rate),
        0 <= c < channels,
    ensures
        ({
            let k = i * channels + c;
            &&& 0 <= k < resampled(src, src_rate, dst_rate, channels).len()
            &&& resampled(src, src_rate, dst_rate, channels)[k] == blend_at(
                src,
                src_rate,
                dst_rate,
                channels,
                i,
                c,
            )
        }),
{
    let n = resampled_frames(src.len() / channels, src_rate, dst_rate) as int;
    let w = channels as int;
    let k = i * w + c;
    assert(0 <= k < n * w) by (nonlinear_arith)
        requires
            k == i * w + c,
            0 <= i,
            i + 1 <= n,
            0 <= c < w,
    ;
    vstd::arithmetic::div_mod::lemma_fundamental_div_mod_converse(k, w, i, c);
}

/// Each output frame lies between the two source frames it blends: at or
/// after the one that `index` names, and before the next.
pub proof fn law_blend_brackets_its_position(
    src: Seq<u32>,
    src_rate: u32,
    dst_rate: u32,
    channels: nat,
    i: int,
    c: int,
)
    requires
        resamples(src.len(), src_rate, dst_rate, channels),
        resample_fits(src.len(), src_rate, dst_rate, channels),
        0 <= i < resampled_frames(src.len() / channels, src_rate, dst_rate),
        0 <= c < channels,
    ensures
        ({
            let blend = resampled(src, src_rate, dst_rate, channels)[i * channels + c];
            &&& blend.frame == i
            &&& blend.index * dst_rate <= i * src_rate < (blend.index + 1) * dst_rate
            &&& blend.index < src.len() / channels
        }),
{
    lemma_resampled_at(src, src_rate, dst_rate, channels, i, c);
    law_resampling_keeps_the_duration(src.len() / channels, src_rate, dst_rate);
    let in_frames = (src.len() / channels) as int;
    let out = resampled_frames(src.len() / channels, src_rate, dst_rate) as int;
    let s = src_rate as int;
    let d = dst_rate as int;
    let index = (i * s) / d;
    assert(0 <= i * s < in_frames * d <= u64::MAX) by (nonlinear_arith)
        requires
            0 <= i,
            i + 1 <= out,
            out * s <= in_frames * d,
            in_frames * d <= u64::MAX,
            s >= 1,
    ;
    vstd::arithmetic::div_mod::lemma_fundamental_div_mod(i * s, d);
    let m = (i * s) % d;
    assert(index * d <= i * s < (index + 1) * d && 0 <= index < in_frames) by (nonlinear_arith)
        requires
            i * s == d * index + m,
            0 <= m < d,
            0 <= i * s < in_frames * d,
    ;
    assert(index <= i * s) by (nonlinear_arith)
        requires
            index * d <= i * s,
            index >= 0,
            d >= 1,
    ;
    assert(i <= i * s) by (nonlinear_arith)
        requires
            i >= 0,
            s >= 1,
    ;
}

/// The samples of one channel.
pub open spec fn channel_of(src: Seq<u32>, channels: nat, c: int) -> Seq<u32> {
    Seq::new(src.len() / channels, |i: int| src[i * channels + c])
}

/// Channels are resampled apart and never mixed: each comes out as it does
/// when it is resampled alone.
pub proof fn law_channels_are_resampled_apart(
    src: Seq<u32>,
    src_rate: u32,
    dst_rate: u32,
    channels: nat,
    i: int,
    c: int,
)
    requires
        channels > 0,
        0 <= c < channels,
    ensures
        ({
            let all = resampled(src, src_rate, dst_rate, channels);
            let alone = resampled(channel_of(src, channels, c), src_rate, dst_rate, 1);
            &&& all.len() == alone.len() * channels
            &&& 0 <= i < alone.len() ==> {
                &&& 0 <= i * channels + c < all.len()
                &&& all[i * channels + c] == alone[i]
            }
        }),
{
    let one = channel_of(src, channels, c);
    let frames = src.len() / channels;
    let all = resampled(src, src_rate, dst_rate, channels);
    let alone = resampled(one, src_rate, dst_rate, 1);
    assert(0 * channels == 0);
    if src.len() == 0 {
        vstd::arithmetic::div_mod::lemma_basic_div(0, channels as int);
    }
    if resamples(src.len(), src_rate, dst_rate, channels) {
        if frames == 0 {
            assert(0 * dst_rate as nat == 0);
            vstd::arithmetic::div_mod::lemma_basic_div(0, src_rate as int);
        } else {
            assert(one.len() / 1 == frames);
            if 0 <= i < alone.len() {
                lemma_resampled_at(src, src_rate, dst_rate, channels, i, c);
                lemma_resampled_at(one, src_rate, dst_rate, 1, i, 0);
                vstd::arithmetic::div_mod::lemma_div_pos_is_pos(i * src_rate, dst_rate as int);
            }
        }
    }
}

/// Where the rates agree, a change of rate gives back every whole source
/// frame: each output frame falls exactly on its source frame.
pub proof fn law_equal_rates_change_nothing(src: Seq<u32>, rate: u32, channels: nat, i: int, c: int)
    requires
        rate > 0,
        channels > 0,
        0 <= i < src.len() / channels,
        i <= u64::MAX,
        0 <= c < channels,
    ensures
        resampled(src, rate, rate, channels).len() == (src.len() / channels) * channels,
        resampled(src, rate, rate, channels)[i * channels + c].a == src[i * channels + c],
        resampled(src, rate, rate, channels)[i * channels + c].frame == i,
        resampled(src, rate, rate, channels)[i * channels + c].index == i,
{
    let n = (src.len() / channels) as int;
    let r = rate as int;
    assert(src.len() > 0) by {
        if src.len() == 0 {
            vstd::arithmetic::div_mod::lemma_basic_div(0, channels as int);
        }
    }
    vstd::arithmetic::div_mod::lemma_fundamental_div_mod_converse(n * r, r, n, 0);
    vstd::arithmetic::div_mod::lemma_fundamental_div_mod_converse(i * r, r, i, 0);
    lemma_resampled_at(src, rate, rate, channels, i, c);
}

} // verus!
