use oxideplay::audio_convert::{
    can_resample, holds_samples, resample_linear, to_interleaved, Blend, Sample,
};
use oxideplay::frame::{AudioFrame, SampleFormat};

fn frame(format: SampleFormat, channels: u16, samples: u32, data: Vec<Vec<u8>>) -> AudioFrame {
    AudioFrame { format, channels, sample_rate: 48_000, samples, data }
}

fn fixed(value: i32, scale: u32) -> Sample {
    Sample::Fixed { value, scale }
}

/// What the caller makes of a sample.
fn value(s: Sample) -> f32 {
    match s {
        Sample::Fixed { value, scale } => value as f32 / (1u64 << scale) as f32,
        Sample::F32(bits) => f32::from_bits(bits),
        Sample::F64(bits) => f64::from_bits(bits) as f32,
    }
}

fn one(format: SampleFormat, bytes: Vec<u8>) -> Sample {
    let f = frame(format, 1, 1, vec![bytes]);
    assert!(holds_samples(&f, 1));
    let mix = to_interleaved(&f, 1);
    assert_eq!(mix.group, 1);
    assert_eq!(mix.samples.len(), 1);
    mix.samples[0]
}

#[test]
fn eight_bit_samples() {
    assert_eq!(one(SampleFormat::U8, vec![128]), fixed(0, 7));
    assert_eq!(one(SampleFormat::U8, vec![0]), fixed(-128, 7));
    assert_eq!(one(SampleFormat::U8P, vec![255]), fixed(127, 7));
    assert_eq!(one(SampleFormat::S8, vec![127]), fixed(127, 7));
    assert_eq!(one(SampleFormat::S8, vec![128]), fixed(-128, 7));
    assert_eq!(one(SampleFormat::S8, vec![255]), fixed(-1, 7));
    for b in 0..=255u8 {
        assert_eq!(value(one(SampleFormat::U8, vec![b])), (b as f32 - 128.0) / 128.0);
        assert_eq!(value(one(SampleFormat::S8, vec![b])), (b as i8) as f32 / 128.0);
    }
}

#[test]
fn sixteen_bit_samples_are_little_endian() {
    assert_eq!(one(SampleFormat::S16, vec![0x34, 0x12]), fixed(0x1234, 15));
    assert_eq!(one(SampleFormat::S16, vec![0xff, 0xff]), fixed(-1, 15));
    assert_eq!(one(SampleFormat::S16P, vec![0x00, 0x80]), fixed(-32768, 15));
    assert_eq!(value(one(SampleFormat::S16, vec![0x00, 0x40])), 0.5);
}

#[test]
fn twenty_four_bit_samples_extend_their_sign() {
    assert_eq!(one(SampleFormat::S24, vec![0x56, 0x34, 0x12]), fixed(0x12_3456, 23));
    assert_eq!(one(SampleFormat::S24, vec![0xff, 0xff, 0x7f]), fixed(8_388_607, 23));
    assert_eq!(one(SampleFormat::S24, vec![0x00, 0x00, 0x80]), fixed(-8_388_608, 23));
    assert_eq!(one(SampleFormat::S24, vec![0xff, 0xff, 0xff]), fixed(-1, 23));
    for bytes in [[1u8, 2, 0x83], [0xfe, 0x7f, 0x7f], [0, 0xff, 0xc0]] {
        let mut v = bytes[0] as i32 | ((bytes[1] as i32) << 8) | ((bytes[2] as i32) << 16);
        if v & 0x80_0000 != 0 {
            v |= !0xFF_FFFF;
        }
        assert_eq!(one(SampleFormat::S24, bytes.to_vec()), fixed(v, 23));
    }
}

#[test]
fn thirty_two_bit_samples() {
    assert_eq!(one(SampleFormat::S32, vec![0, 0, 0, 0x80]), fixed(i32::MIN, 31));
    assert_eq!(one(SampleFormat::S32, vec![0xff, 0xff, 0xff, 0x7f]), fixed(i32::MAX, 31));
    assert_eq!(one(SampleFormat::S32P, vec![4, 3, 2, 1]), fixed(0x0102_0304, 31));
}

#[test]
fn floating_samples_keep_their_bits() {
    let x = 0.3f32;
    assert_eq!(one(SampleFormat::F32, x.to_le_bytes().to_vec()), Sample::F32(x.to_bits()));
    assert_eq!(one(SampleFormat::F32P, x.to_le_bytes().to_vec()), Sample::F32(x.to_bits()));
    let y = -0.7f64;
    assert_eq!(one(SampleFormat::F64, y.to_le_bytes().to_vec()), Sample::F64(y.to_bits()));
    assert_eq!(one(SampleFormat::F64P, y.to_le_bytes().to_vec()), Sample::F64(y.to_bits()));
}

#[test]
fn fixed_samples_stay_in_range() {
    for hi in 0..=255u8 {
        for format in [SampleFormat::U8, SampleFormat::S8] {
            let v = value(one(format, vec![hi]));
            assert!((-1.0..1.0).contains(&v));
        }
        let v = value(one(SampleFormat::S16, vec![0x7f, hi]));
        assert!((-1.0..1.0).contains(&v));
    }
}

#[test]
fn stereo_passes_through_interleaved() {
    let f = frame(SampleFormat::S8, 2, 3, vec![vec![1, 2, 3, 4, 5, 6]]);
    let mix = to_interleaved(&f, 2);
    assert_eq!(mix.group, 1);
    let expected: Vec<Sample> = (1..=6).map(|v| fixed(v, 7)).collect();
    assert_eq!(mix.samples, expected);
}

#[test]
fn planar_stereo_is_interleaved() {
    let f = frame(SampleFormat::U8P, 2, 2, vec![vec![129, 130], vec![131, 132]]);
    let mix = to_interleaved(&f, 2);
    assert_eq!(mix.samples, vec![fixed(1, 7), fixed(3, 7), fixed(2, 7), fixed(4, 7)]);
}

#[test]
fn mono_is_duplicated() {
    let f = frame(SampleFormat::S8, 1, 2, vec![vec![9, 8]]);
    let mix = to_interleaved(&f, 2);
    assert_eq!(mix.group, 1);
    assert_eq!(mix.samples, vec![fixed(9, 7), fixed(9, 7), fixed(8, 7), fixed(8, 7)]);
}

#[test]
fn stereo_to_mono_averages() {
    let f = frame(SampleFormat::S8, 2, 2, vec![vec![10, 20, 30, 50]]);
    let mix = to_interleaved(&f, 1);
    assert_eq!(mix.group, 2);
    assert_eq!(mix.samples, vec![fixed(10, 7), fixed(20, 7), fixed(30, 7), fixed(50, 7)]);
    let means: Vec<f32> =
        mix.samples.chunks(mix.group).map(|g| g.iter().map(|s| value(*s)).sum::<f32>() / 2.0).collect();
    assert_eq!(means, vec![15.0 / 128.0, 40.0 / 128.0]);
}

#[test]
fn extra_source_channels_are_left_out() {
    let f = frame(SampleFormat::S8, 3, 2, vec![vec![1, 2, 3, 4, 5, 6]]);
    let mix = to_interleaved(&f, 2);
    assert_eq!(mix.samples, vec![fixed(1, 7), fixed(2, 7), fixed(4, 7), fixed(5, 7)]);
}

#[test]
fn missing_source_channels_repeat_the_last() {
    let f = frame(SampleFormat::S8, 2, 1, vec![vec![1, 2]]);
    let mix = to_interleaved(&f, 4);
    assert_eq!(mix.samples, vec![fixed(1, 7), fixed(2, 7), fixed(2, 7), fixed(2, 7)]);
}

#[test]
fn zero_channels_count_as_one() {
    let f = frame(SampleFormat::S8, 0, 2, vec![vec![1, 2]]);
    let mix = to_interleaved(&f, 0);
    assert_eq!(mix.group, 1);
    assert_eq!(mix.samples, vec![fixed(1, 7), fixed(2, 7)]);
}

#[test]
fn empty_frame_mixes_to_nothing() {
    let f = frame(SampleFormat::S16, 2, 0, vec![]);
    assert!(holds_samples(&f, 2));
    assert!(to_interleaved(&f, 2).samples.is_empty());
}

#[test]
fn only_the_samples_that_are_read_have_to_be_there() {
    // Two frames of three channels, the last channel of the last frame cut.
    let cut = frame(SampleFormat::S8, 3, 2, vec![vec![1, 2, 3, 4, 5]]);
    assert!(holds_samples(&cut, 2));
    assert!(!holds_samples(&cut, 1));
    assert!(!holds_samples(&cut, 3));
    assert_eq!(to_interleaved(&cut, 2).samples[3], fixed(5, 7));
    // The third plane is never read for a stereo output.
    let planes = frame(SampleFormat::S16P, 3, 1, vec![vec![1, 0], vec![2, 0]]);
    assert!(holds_samples(&planes, 2));
    assert!(!holds_samples(&planes, 1));
    let short = frame(SampleFormat::S32, 1, 1, vec![vec![1, 2, 3]]);
    assert!(!holds_samples(&short, 1));
    let none = frame(SampleFormat::S32, 1, 1, vec![]);
    assert!(!holds_samples(&none, 1));
}

#[test]
fn upsampling_by_two() {
    let out = resample_linear(&vec![10, 20, 30], 1, 2, 1);
    let expected = vec![
        Blend { a: 10, b: 20, frame: 0, index: 0 },
        Blend { a: 10, b: 20, frame: 1, index: 0 },
        Blend { a: 20, b: 30, frame: 2, index: 1 },
        Blend { a: 20, b: 30, frame: 3, index: 1 },
        Blend { a: 30, b: 30, frame: 4, index: 2 },
        Blend { a: 30, b: 30, frame: 5, index: 2 },
    ];
    assert_eq!(out, expected);
}

#[test]
fn downsampling_stereo() {
    let src: Vec<u32> = (0..12).collect();
    let out = resample_linear(&src, 3, 2, 2);
    assert_eq!(out.len(), 4 * 2);
    assert_eq!(out[2], Blend { a: 2, b: 4, frame: 1, index: 1 });
    assert_eq!(out[3], Blend { a: 3, b: 5, frame: 1, index: 1 });
    assert_eq!(out[6], Blend { a: 8, b: 10, frame: 3, index: 4 });
}

#[test]
fn nothing_to_resample() {
    assert!(resample_linear(&vec![], 1, 2, 1).is_empty());
    assert!(resample_linear(&vec![1, 2], 0, 2, 1).is_empty());
    assert!(resample_linear(&vec![1, 2], 1, 0, 1).is_empty());
    assert!(resample_linear(&vec![1, 2], 1, 2, 0).is_empty());
    assert!(resample_linear(&vec![1], 1, 2, 2).is_empty());
}

#[test]
fn equal_rates_give_back_the_source() {
    let src = vec![5, 6, 7, 8, 9];
    let out = resample_linear(&src, 44_100, 44_100, 2);
    assert_eq!(out.len(), 4);
    for (k, b) in out.iter().enumerate() {
        assert_eq!(b.a, src[k]);
        assert_eq!(b.index, b.frame);
    }
}

#[test]
fn positions_agree_with_floating_point() {
    let src = vec![0u32; 4096];
    for (s, d) in [(44_100u32, 48_000u32), (48_000, 44_100), (8_000, 48_000), (192_000, 44_100)] {
        assert!(can_resample(src.len(), s, d, 1));
        let out = resample_linear(&src, s, d, 1);
        assert_eq!(out.len() as u64, 4096 * d as u64 / s as u64);
        for b in &out {
            let pos = b.frame as f64 * s as f64 / d as f64;
            assert_eq!(b.index, pos.floor() as u64);
            assert!(b.index < 4096);
        }
    }
}

#[test]
fn oversized_output_is_refused() {
    assert!(can_resample(1, 1, u32::MAX, 1));
    assert!(!can_resample(usize::MAX, 1, 2, 1));
    assert!(!can_resample(usize::MAX / 16, 1, u32::MAX, 1));
    assert!(!can_resample(usize::MAX / 8, 1, 3, 1));
    assert!(can_resample(usize::MAX, 0, 2, 1));
}

#[test]
fn layout_makes_no_difference() {
    let left = vec![1u8, 2, 3, 4];
    let right = vec![0xfe, 0xff, 5, 6];
    let planar = frame(SampleFormat::S16P, 2, 2, vec![left, right]);
    let packed = frame(SampleFormat::S16, 2, 2, vec![vec![1, 2, 0xfe, 0xff, 3, 4, 5, 6]]);
    for out_channels in [1, 2, 3] {
        let a = to_interleaved(&planar, out_channels);
        let b = to_interleaved(&packed, out_channels);
        assert_eq!(a.samples, b.samples);
        assert_eq!(a.group, b.group);
    }
    assert_eq!(to_interleaved(&planar, 2).samples[1], fixed(-2, 15));
}

#[test]
fn channels_are_resampled_apart() {
    let src: Vec<u32> = (0..21).map(|n| n * n).collect();
    for (from, to) in [(2, 3), (3, 2), (1, 1), (0, 5), (44_100, 48_000)] {
        let all = resample_linear(&src, from, to, 3);
        for c in 0..3 {
            let channel: Vec<u32> = src.iter().skip(c).step_by(3).copied().collect();
            let alone = resample_linear(&channel, from, to, 1);
            let picked: Vec<Blend> = all.iter().skip(c).step_by(3).copied().collect();
            assert_eq!(picked, alone);
        }
    }
    assert_eq!(resample_linear(&src, 2, 3, 3).len(), 30);
}
