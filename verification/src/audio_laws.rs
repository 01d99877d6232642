//! What conversion of audio gives, from the bytes of a frame to the samples
//! that are queued. Each law speaks of a call that returned the value it
//! names, over the bytes and samples that went in.

use crate::audio_convert::{Blend, Mixdown, Paced, Sample};
use crate::audio_out::AudioOut;
use crate::frame::{AudioFrame, SampleFormat};
use crate::sdl2_driver::AudioShared;
use vstd::prelude::*;

verus! {

proof fn lemma_little_endian(bytes: Seq<u8>)
    ensures
        bytes.len() == 1 ==> crate::audio_convert::little_endian(bytes) == bytes[0],
        bytes.len() == 2 ==> crate::audio_convert::little_endian(bytes) == bytes[0] + 0x100
            * bytes[1],
        bytes.len() == 3 ==> crate::audio_convert::little_endian(bytes) == bytes[0] + 0x100
            * bytes[1] + 0x1_0000 * bytes[2],
        bytes.len() == 4 ==> crate::audio_convert::little_endian(bytes) == bytes[0] + 0x100
            * bytes[1] + 0x1_0000 * bytes[2] + 0x100_0000 * bytes[3],
        bytes.len() == 8 ==> crate::audio_convert::little_endian(bytes) == bytes[0] + 0x100
            * bytes[1] + 0x1_0000 * bytes[2] + 0x100_0000 * bytes[3] + 0x1_0000_0000 * bytes[4]
            + 0x100_0000_0000 * bytes[5] + 0x1_0000_0000_0000 * bytes[6] + 0x100_0000_0000_0000
            * bytes[7],
{
    reveal_with_fuel(crate::audio_convert::little_endian, 9);
}

proof fn lemma_offset(frame: &AudioFrame, ch: int, i: int)
    requires
        0 <= ch,
        0 <= i,
    ensures
        0 <= frame.offset_of(ch, i),
{
    let n = crate::audio_convert::at_least_one(frame.channels) as int;
    let w = crate::audio_convert::sample_width(frame.format) as int;
    let at = if crate::audio_convert::is_planar(frame.format) {
        i
    } else {
        i * n + ch
    };
    assert(0 <= i * n) by (nonlinear_arith)
        requires
            0 <= i,
            n >= 1,
    ;
    assert(0 <= at * w) by (nonlinear_arith)
        requires
            0 <= at,
            w >= 1,
    ;
}

/// Conversion reads each sample from its bytes. Let the frame have `n`
/// channels and the output `m`, none counting as one, and let a sample take
/// `w` bytes.
///
/// For several output channels, each output frame has `m` samples, and
/// sample `j` is the source channel of that number, or the last one. For one
/// output channel, each output frame has all `n` source channels, which are
/// to be averaged.
///
/// Sample `i` of channel `ch` is at bytes `i * w` of plane `ch` where the
/// format is planar, and at bytes `(i * n + ch) * w` of the only plane where
/// it is not. Unsigned bytes count from 128, signed numbers are in two's
/// complement, and floating-point numbers are their bits; the lowest byte
/// comes first.
pub proof fn law_conversion_reads_the_bytes(
    frame: &AudioFrame,
    out_channels: u16,
    mix: Mixdown,
    n: int,
    m: int,
    each: int,
    w: int,
    i: int,
    j: int,
    ch: int,
    plane: int,
    off: int,
)
    requires
        call_ensures(crate::audio_convert::to_interleaved, (frame, out_channels), mix),
        n == (if frame.channels == 0 {
            1
        } else {
            frame.channels as int
        }),
        m == (if out_channels == 0 {
            1
        } else {
            out_channels as int
        }),
        each == (if m == 1 {
            n
        } else {
            m
        }),
        w == (match frame.format {
            SampleFormat::U8 | SampleFormat::U8P | SampleFormat::S8 => 1int,
            SampleFormat::S16 | SampleFormat::S16P => 2int,
            SampleFormat::S24 => 3int,
            SampleFormat::S32 | SampleFormat::S32P | SampleFormat::F32
            | SampleFormat::F32P => 4int,
            SampleFormat::F64 | SampleFormat::F64P => 8int,
        }),
        0 <= i < frame.samples,
        0 <= j < each,
        ch == (if j < n {
            j
        } else {
            n - 1
        }),
        match frame.format {
            SampleFormat::U8P | SampleFormat::S16P | SampleFormat::S32P | SampleFormat::F32P
            | SampleFormat::F64P => plane == ch && off == i * w,
            _ => plane == 0 && off == (i * n + ch) * w,
        },
        plane < frame.data@.len(),
        off + w <= frame.data@[plane]@.len(),
    ensures
        mix.group == (if m == 1 {
            n
        } else {
            1
        }),
        mix.samples@.len() == frame.samples * each,
        0 <= i * each + j < mix.samples@.len(),
        ({
            let b = frame.data@[plane]@.subrange(off, off + w);
            let sample = mix.samples@[i * each + j];
            match frame.format {
                SampleFormat::U8 | SampleFormat::U8P => {
                    &&& sample matches Sample::Fixed { value, scale }
                    &&& scale == 7
                    &&& value == b[0] - 128
                },
                SampleFormat::S8 => {
                    &&& sample matches Sample::Fixed { value, scale }
                    &&& scale == 7
                    &&& value == b[0] - (if b[0] >= 0x80 {
                        0x100int
                    } else {
                        0
                    })
                },
                SampleFormat::S16 | SampleFormat::S16P => {
                    &&& sample matches Sample::Fixed { value, scale }
                    &&& scale == 15
                    &&& value == b[0] + 0x100 * b[1] - (if b[1] >= 0x80 {
                        0x1_0000int
                    } else {
                        0
                    })
                },
                SampleFormat::S24 => {
                    &&& sample matches Sample::Fixed { value, scale }
                    &&& scale == 23
                    &&& value == b[0] + 0x100 * b[1] + 0x1_0000 * b[2] - (if b[2] >= 0x80 {
                        0x100_0000int
                    } else {
                        0
                    })
                },
                SampleFormat::S32 | SampleFormat::S32P => {
                    &&& sample matches Sample::Fixed { value, scale }
                    &&& scale == 31
                    &&& value == b[0] + 0x100 * b[1] + 0x1_0000 * b[2] + 0x100_0000 * b[3] - (
                    if b[3] >= 0x80 {
                        0x1_0000_0000int
                    } else {
                        0
                    })
                },
                SampleFormat::F32 | SampleFormat::F32P => {
                    &&& sample matches Sample::F32(bits)
                    &&& bits == b[0] + 0x100 * b[1] + 0x1_0000 * b[2] + 0x100_0000 * b[3]
                },
                SampleFormat::F64 | SampleFormat::F64P => {
                    &&& sample matches Sample::F64(bits)
                    &&& bits == b[0] + 0x100 * b[1] + 0x1_0000 * b[2] + 0x100_0000 * b[3]
                        + 0x1_0000_0000 * b[4] + 0x100_0000_0000 * b[5] + 0x1_0000_0000_0000 * b[6]
                        + 0x100_0000_0000_0000 * b[7]
                },
            }
        }),
{
    let sources = crate::audio_convert::source_channels(n as nat, m as nat);
    assert(sources.len() == each);
    let k = i * each + j;
    assert(0 <= k < frame.samples * each) by (nonlinear_arith)
        requires
            k == i * each + j,
            0 <= i,
            i + 1 <= frame.samples,
            0 <= j < each,
    ;
    vstd::arithmetic::div_mod::lemma_fundamental_div_mod_converse(k, each, i, j);
    assert(sources[j] == ch);
    lemma_offset(frame, ch, i);
    lemma_little_endian(frame.sample_bytes(ch, i));
}

/// An empty frame converts to nothing, and any frame to as many samples as
/// its length and the channels call for.
pub proof fn law_conversion_keeps_the_length(
    frame: &AudioFrame,
    out_channels: u16,
    mix: Mixdown,
)
    requires
        call_ensures(crate::audio_convert::to_interleaved, (frame, out_channels), mix),
    ensures
        mix.group >= 1,
        mix.samples@.len() == frame.samples * (if out_channels == 0 {
            1
        } else {
            out_channels as int
        }) * mix.group,
{
    crate::audio_convert::law_output_keeps_the_frame_count(frame, out_channels);
}

/// Either output converts a frame as it is converted for its own channels;
/// only the window leaves an empty frame out.
pub proof fn law_outputs_convert_for_their_channels(
    frame: &AudioFrame,
    shared: &AudioShared,
    window_mix: Option<Mixdown>,
    window_same: Mixdown,
    audio: &AudioOut,
    stream_mix: Mixdown,
    stream_same: Mixdown,
)
    requires
        call_ensures(AudioShared::mix, (shared, frame), window_mix),
        call_ensures(
            crate::audio_convert::to_interleaved,
            (frame, shared.channels),
            window_same,
        ),
        call_ensures(AudioOut::mix, (audio, frame), stream_mix),
        call_ensures(
            crate::audio_convert::to_interleaved,
            (frame, audio.device_channels),
            stream_same,
        ),
    ensures
        window_mix is None <==> frame.samples == 0,
        window_mix matches Some(mix) ==> mix.samples@ == window_same.samples@ && mix.group
            == window_same.group,
        stream_mix.samples@ == stream_same.samples@,
        stream_mix.group == stream_same.group,
{
}

/// A frame can be converted exactly where it holds the bytes that are read:
/// up to its last sample, for every source channel that is used. For one
/// output channel these are all; for several, as many as there are of both.
pub proof fn law_conversion_needs_what_it_reads(
    frame: &AudioFrame,
    out_channels: u16,
    n: int,
    m: int,
    used: int,
    w: int,
    held: bool,
    shared: &AudioShared,
    audio: &AudioOut,
)
    requires
        n == (if frame.channels == 0 {
            1
        } else {
            frame.channels as int
        }),
        m == (if out_channels == 0 {
            1
        } else {
            out_channels as int
        }),
        used == (if m == 1 || n <= m {
            n
        } else {
            m
        }),
        w == (match frame.format {
            SampleFormat::U8 | SampleFormat::U8P | SampleFormat::S8 => 1int,
            SampleFormat::S16 | SampleFormat::S16P => 2int,
            SampleFormat::S24 => 3int,
            SampleFormat::S32 | SampleFormat::S32P | SampleFormat::F32
            | SampleFormat::F32P => 4int,
            SampleFormat::F64 | SampleFormat::F64P => 8int,
        }),
        call_ensures(crate::audio_convert::holds_samples, (frame, out_channels), held),
    ensures
        held <==> frame.samples == 0 || match frame.format {
            SampleFormat::U8P | SampleFormat::S16P | SampleFormat::S32P | SampleFormat::F32P
            | SampleFormat::F64P => {
                &&& frame.data@.len() >= used
                &&& forall|ch: int|
                    0 <= ch < used ==> (#[trigger] frame.data@[ch])@.len() >= frame.samples * w
            },
            _ => {
                &&& frame.data@.len() >= 1
                &&& frame.data@[0]@.len() >= ((frame.samples - 1) * n + used) * w
            },
        },
        held ==> call_requires(crate::audio_convert::to_interleaved, (frame, out_channels)),
        held && out_channels == shared.channels || frame.samples == 0 ==> call_requires(
            AudioShared::mix,
            (shared, frame),
        ),
        held && out_channels == audio.device_channels ==> call_requires(
            AudioOut::mix,
            (audio, frame),
        ),
{
    let sources = crate::audio_convert::source_channels(n as nat, m as nat);
    let planar = crate::audio_convert::is_planar(frame.format);
    let last = frame.samples - 1;
    if frame.samples > 0 {
        assert forall|ch: int| held && 0 <= ch < used implies #[trigger] frame.present(
            ch,
            last,
        ) by {
            assert(sources[ch] == ch);
            assert(frame.present(sources[ch], last));
        }
        assert(last * w + w == frame.samples * w) by (nonlinear_arith)
            requires
                last == frame.samples - 1,
        ;
        let at = last * n + used - 1;
        assert(at * w + w == (last * n + used) * w) by (nonlinear_arith)
            requires
                at == last * n + used - 1,
        ;
        if held {
            assert(frame.present(used - 1, last));
            if planar {
                assert forall|ch: int| 0 <= ch < used implies (#[trigger] frame.data@[ch])@.len()
                    >= frame.samples * w by {
                    assert(frame.present(ch, last));
                }
            }
        }
        let enough = if planar {
            &&& frame.data@.len() >= used
            &&& forall|ch: int|
                0 <= ch < used ==> (#[trigger] frame.data@[ch])@.len() >= frame.samples * w
        } else {
            &&& frame.data@.len() >= 1
            &&& frame.data@[0]@.len() >= ((frame.samples - 1) * n + used) * w
        };
        if enough {
            assert forall|i: int, j: int|
                0 <= i < frame.samples && 0 <= j < sources.len() implies #[trigger] frame.present(
                sources[j],
                i,
            ) by {
                let ch = sources[j];
                assert(0 <= ch < used);
                if planar {
                    assert(frame.data@[ch]@.len() >= frame.samples * w);
                    assert(i * w + w <= frame.samples * w) by (nonlinear_arith)
                        requires
                            i + 1 <= frame.samples,
                            w >= 1,
                    ;
                } else {
                    let here = i * n + ch;
                    assert(here <= at) by (nonlinear_arith)
                        requires
                            here == i * n + ch,
                            at == last * n + used - 1,
                            ch <= used - 1,
                            i <= last,
                            n >= 1,
                    ;
                    assert(here * w <= at * w) by (nonlinear_arith)
                        requires
                            here <= at,
                            w >= 1,
                    ;
                }
            }
            assert(crate::audio_convert::holds_all(frame, out_channels));
        }
    }
}

/// Resampling is linear, between neighbours. Of `n` whole source frames it
/// makes as many as last as long at the new rate, rounded down. Output frame
/// `i` falls at `i * src_rate / dst_rate` source frames; it is blended, in
/// each channel, from that channel's samples at this position rounded down
/// and at the next one, the last source frame standing in for what lies
/// beyond it. Nothing comes out where there are no samples, no channels or a
/// rate of zero.
pub proof fn law_resampling_blends_neighbours(
    src: &Vec<u32>,
    src_rate: u32,
    dst_rate: u32,
    channels: usize,
    out: Vec<Blend>,
    n: int,
    frames: int,
    i: int,
    c: int,
    index: int,
)
    requires
        call_ensures(
            crate::audio_convert::resample_linear,
            (src, src_rate, dst_rate, channels),
            out,
        ),
        channels > 0 && src_rate > 0 ==> {
            &&& n == src@.len() as int / channels as int
            &&& n * dst_rate <= u64::MAX
            &&& frames == n * dst_rate / src_rate as int
        },
        dst_rate > 0 ==> index == i * src_rate / dst_rate as int,
    ensures
        src@.len() == 0 || channels == 0 || src_rate == 0 || dst_rate == 0 ==> out@.len() == 0,
        src@.len() > 0 && channels > 0 && src_rate > 0 && dst_rate > 0 ==> {
            &&& out@.len() == frames * channels
            &&& 0 <= i < frames && 0 <= c < channels ==> {
                let blend = out@[i * channels + c];
                &&& 0 <= i * channels + c < out@.len()
                &&& blend.frame == i
                &&& blend.index == index
                &&& index <= n - 1 ==> blend.a == src@[index * channels + c]
                &&& index > n - 1 ==> blend.a == src@[(n - 1) * channels + c]
                &&& index + 1 <= n - 1 ==> blend.b == src@[(index + 1) * channels + c]
                &&& index + 1 > n - 1 ==> blend.b == src@[(n - 1) * channels + c]
            }
        },
{
    if src@.len() > 0 && channels > 0 && src_rate > 0 && dst_rate > 0 {
        let s = src_rate as int;
        let d = dst_rate as int;
        if 0 <= i < frames && 0 <= c < channels {
            let k = i * channels + c;
            assert(0 <= k < frames * channels) by (nonlinear_arith)
                requires
                    k == i * channels + c,
                    0 <= i,
                    i + 1 <= frames,
                    0 <= c < channels,
            ;
            vstd::arithmetic::div_mod::lemma_fundamental_div_mod_converse(k, channels as int, i, c);
            vstd::arithmetic::div_mod::lemma_fundamental_div_mod(n * d, s);
            assert(0 <= i <= i * s < n * d) by (nonlinear_arith)
                requires
                    0 <= i,
                    i + 1 <= frames,
                    n * d == s * frames + (n * d) % s,
                    0 <= (n * d) % s,
                    s >= 1,
            ;
            vstd::arithmetic::div_mod::lemma_div_pos_is_pos(i * s, d);
            vstd::arithmetic::div_mod::lemma_div_is_ordered_by_denominator(i * s, 1, d);
        }
    }
}

/// Samples can be resampled exactly where what comes out, four bytes for
/// each sample, fits in memory.
pub proof fn law_what_fits_can_be_resampled(
    src: &Vec<u32>,
    src_rate: u32,
    dst_rate: u32,
    channels: usize,
    scaled: int,
    fits: bool,
)
    requires
        call_ensures(
            crate::audio_convert::can_resample,
            (src.len(), src_rate, dst_rate, channels),
            fits,
        ),
        channels > 0 ==> scaled == (src@.len() as int / channels as int) * dst_rate,
    ensures
        fits <==> src@.len() == 0 || channels == 0 || src_rate == 0 || dst_rate == 0 || (scaled
            <= u64::MAX && scaled / src_rate as int * channels * 4 <= isize::MAX),
        fits ==> call_requires(
            crate::audio_convert::resample_linear,
            (src, src_rate, dst_rate, channels),
        ),
{
}

/// The window's output resamples exactly where the frame's rate is not its
/// own, from the one to the other; it can wherever that fits in memory.
pub proof fn law_window_paces_to_its_rate(
    shared: &AudioShared,
    frame_rate: u32,
    samples: Vec<u32>,
    paced: Paced,
    resampled: Vec<Blend>,
    fits: bool,
)
    requires
        call_ensures(AudioShared::pace, (shared, frame_rate, samples), paced),
        call_ensures(
            crate::audio_convert::resample_linear,
            (&samples, frame_rate, shared.sample_rate, shared.channels as usize),
            resampled,
        ),
        call_ensures(
            crate::audio_convert::can_resample,
            (samples.len(), frame_rate, shared.sample_rate, shared.channels as usize),
            fits,
        ),
    ensures
        fits || frame_rate == shared.sample_rate ==> call_requires(
            AudioShared::pace,
            (shared, frame_rate, samples),
        ),
        frame_rate == shared.sample_rate ==> (paced matches Paced::Ready(ready) && ready@
            == samples@),
        frame_rate != shared.sample_rate ==> {
            &&& paced matches Paced::Blended { blends, src_rate, dst_rate }
            &&& blends@ == resampled@
            &&& src_rate == frame_rate
            &&& dst_rate == shared.sample_rate
        },
{
}

/// The stream's output resamples exactly where it has a rate to resample
/// from, to the device's rate; it can wherever that fits in memory.
pub proof fn law_stream_paces_to_the_device(
    audio: &AudioOut,
    rate: u32,
    samples: Vec<u32>,
    paced: Paced,
    resampled: Vec<Blend>,
    fits: bool,
)
    requires
        call_ensures(AudioOut::pace, (audio, samples), paced),
        call_ensures(
            crate::audio_convert::resample_linear,
            (&samples, rate, audio.device_rate, audio.device_channels as usize),
            resampled,
        ),
        call_ensures(
            crate::audio_convert::can_resample,
            (samples.len(), rate, audio.device_rate, audio.device_channels as usize),
            fits,
        ),
    ensures
        audio.resample_from is None ==> {
            &&& call_requires(AudioOut::pace, (audio, samples))
            &&& paced matches Paced::Ready(ready)
            &&& ready@ == samples@
        },
        audio.resample_from == Some(rate) ==> {
            &&& fits ==> call_requires(AudioOut::pace, (audio, samples))
            &&& paced matches Paced::Blended { blends, src_rate, dst_rate }
            &&& blends@ == resampled@
            &&& src_rate == rate
            &&& dst_rate == audio.device_rate
        },
{
}

} // verus!
