use oxideplay::audio_convert::{Mixdown, Paced, Sample};
use oxideplay::audio_out::{ring_fits, AudioOut};
use oxideplay::clock::{clock_position, TimeSpan};
use oxideplay::frame::{AudioFrame, SampleFormat};
use oxideplay::sdl2_driver::{clamp_channels, DeviceCmd, Sdl2Driver};
use oxideplay::volume::{clamp_volume, ONE_BITS};

fn stereo(samples: u32, bytes: Vec<u8>) -> AudioFrame {
    AudioFrame {
        format: SampleFormat::S8,
        channels: 2,
        sample_rate: 44_100,
        samples,
        data: vec![bytes],
    }
}

#[test]
fn new_window_driver() {
    let d = Sdl2Driver::new(44_100, 6, Some((0, 480)));
    assert_eq!(d.shared.sample_rate, 44_100);
    assert_eq!(d.shared.channels, 2);
    assert_eq!(d.shared.samples_played, 0);
    assert_eq!(d.shared.volume, 1.0f32.to_bits());
    assert!(!d.shared.paused);
    assert!(d.shared.ring.is_empty());
    assert_eq!(d.spec.freq, 44_100);
    assert_eq!(d.spec.channels, 2);
    assert_eq!(d.spec.samples, 1024);
    assert_eq!(d.window, Some((1, 480)));
    assert_eq!(d.video.map(|v| v.texture), Some(None));
    let audio_only = Sdl2Driver::new(48_000, 0, None);
    assert_eq!(audio_only.shared.channels, 1);
    assert_eq!(audio_only.spec.channels, 1);
    assert_eq!(audio_only.window, None);
    assert!(audio_only.video.is_none());
    assert_eq!(Sdl2Driver::new(u32::MAX, 1, None).spec.freq, u32::MAX as i32);
    assert_eq!(Sdl2Driver::new(0x8000_0000, 1, None).spec.freq, i32::MIN);
}

#[test]
fn channels_are_clamped() {
    assert_eq!(clamp_channels(0), 1);
    assert_eq!(clamp_channels(1), 1);
    assert_eq!(clamp_channels(2), 2);
    assert_eq!(clamp_channels(u16::MAX), 2);
}

#[test]
fn window_callback_plays_in_order_then_silence() {
    let mut a = Sdl2Driver::new(48_000, 2, None).shared;
    a.queue_audio(&vec![1, 2, 3]);
    a.queue_audio(&vec![4, 5]);
    assert_eq!(a.audio_queue_len_samples(), 2);
    let mut out = [9u32; 4];
    assert_eq!(a.callback(&mut out), 4);
    assert_eq!(out, [1, 2, 3, 4]);
    assert_eq!(a.samples_played, 2);
    let mut out = [9u32; 4];
    assert_eq!(a.callback(&mut out), 1);
    assert_eq!(out, [5, 0, 0, 0]);
    // A lone sample is no whole frame.
    assert_eq!(a.samples_played, 2);
    assert_eq!(a.audio_queue_len_samples(), 0);
    let mut out = [9u32; 2];
    assert_eq!(a.callback(&mut out), 0);
    assert_eq!(out, [0, 0]);
}

#[test]
fn paused_window_is_silent_and_keeps_everything() {
    let mut a = Sdl2Driver::new(48_000, 1, None).shared;
    a.queue_audio(&vec![1, 2]);
    assert_eq!(a.set_paused(true), DeviceCmd::Pause);
    let mut out = [9u32; 3];
    assert_eq!(a.callback(&mut out), 0);
    assert_eq!(out, [0, 0, 0]);
    assert_eq!(a.samples_played, 0);
    assert_eq!(a.audio_queue_len_samples(), 2);
    assert_eq!(a.set_paused(true), DeviceCmd::Pause);
    assert_eq!(a.set_paused(false), DeviceCmd::Resume);
    assert_eq!(a.callback(&mut out), 2);
    assert_eq!(out, [1, 2, 0]);
    assert_eq!(a.samples_played, 2);
}

#[test]
fn window_clock_wraps() {
    let mut a = Sdl2Driver::new(48_000, 1, None).shared;
    a.samples_played = u64::MAX;
    a.queue_audio(&vec![1, 2]);
    let mut out = [0u32; 2];
    a.callback(&mut out);
    assert_eq!(a.samples_played, 1);
}

#[test]
fn window_mixes_and_paces() {
    let a = Sdl2Driver::new(44_100, 2, None).shared;
    assert!(a.mix(&stereo(0, vec![])).is_none());
    let mix = a.mix(&stereo(1, vec![3, 4])).unwrap();
    assert_eq!(
        mix.samples,
        vec![Sample::Fixed { value: 3, scale: 7 }, Sample::Fixed { value: 4, scale: 7 }]
    );
    assert!(matches!(a.pace(44_100, vec![1, 2]), Paced::Ready(v) if v == vec![1, 2]));
    match a.pace(22_050, vec![1, 2, 3, 4]) {
        Paced::Blended { blends: b, src_rate, dst_rate } => {
            assert_eq!((src_rate, dst_rate), (22_050, 44_100));
            assert_eq!(b.len(), 8);
            assert_eq!((b[0].a, b[0].b), (1, 3));
            assert_eq!((b[7].a, b[7].b), (4, 4));
        }
        Paced::Ready(_) => panic!("not resampled"),
    }
}

#[test]
fn clock_of_the_window() {
    let mut a = Sdl2Driver::new(48_000, 2, None).shared;
    a.samples_played = 72_000;
    assert_eq!(a.master_clock_pos(), TimeSpan { secs: 1, nanos: 500_000_000 });
}

#[test]
fn clock_positions() {
    assert_eq!(clock_position(0, 44_100), TimeSpan { secs: 0, nanos: 0 });
    assert_eq!(clock_position(1, 44_100), TimeSpan { secs: 0, nanos: 22_675 });
    assert_eq!(clock_position(44_099, 44_100), TimeSpan { secs: 0, nanos: 999_977_324 });
    assert_eq!(clock_position(44_100, 44_100), TimeSpan { secs: 1, nanos: 0 });
    assert_eq!(clock_position(7, 0), TimeSpan { secs: 7, nanos: 0 });
    let r = u32::MAX;
    assert_eq!(clock_position(u64::MAX, r).secs, u64::MAX / r as u64);
    assert_eq!(clock_position(r as u64 - 1, r), TimeSpan { secs: 0, nanos: 999_999_999 });
}

#[test]
fn clock_is_monotonic_and_whole_on_seconds() {
    let mut last = clock_position(0, 11_025);
    for played in 1..40_000u64 {
        let pos = clock_position(played, 11_025);
        assert!((pos.secs, pos.nanos) >= (last.secs, last.nanos));
        if played % 11_025 == 0 {
            assert_eq!(pos, TimeSpan { secs: played / 11_025, nanos: 0 });
        }
        last = pos;
    }
}

#[test]
fn volume_is_clamped_as_floats_are() {
    assert_eq!(ONE_BITS, 1.0f32.to_bits());
    let cases = [
        0.0f32,
        -0.0,
        0.5,
        1.0,
        1.0000001,
        2.0,
        -1.0,
        -1e-40,
        1e-40,
        f32::MIN,
        f32::MAX,
        f32::INFINITY,
        f32::NEG_INFINITY,
    ];
    for v in cases {
        assert_eq!(clamp_volume(v.to_bits()), v.clamp(0.0, 1.0).to_bits(), "{v}");
    }
    let mut bits = 0u32;
    while bits < u32::MAX - 65_537 {
        let v = f32::from_bits(bits);
        let volume = f32::from_bits(clamp_volume(bits));
        assert!((0.0..=1.0).contains(&volume));
        if !v.is_nan() {
            assert_eq!(volume.to_bits(), v.clamp(0.0, 1.0).to_bits());
        }
        bits += 65_537;
    }
}

#[test]
fn no_number_is_no_volume() {
    assert_eq!(clamp_volume(f32::NAN.to_bits()), 0);
    assert_eq!(clamp_volume((-f32::NAN).to_bits()), 0);
    assert_eq!(clamp_volume(u32::MAX), 0);
    assert_eq!(clamp_volume(0x7f80_0001), 0);
}

#[test]
fn volume_in_range_is_kept() {
    for v in [0.0f32, 0.25, 0.999, 1.0] {
        assert_eq!(clamp_volume(v.to_bits()), v.to_bits());
    }
    let mut a = Sdl2Driver::new(48_000, 2, None).shared;
    a.set_volume(0.25f32.to_bits());
    assert_eq!(a.volume, 0.25f32.to_bits());
    a.set_volume((-3.0f32).to_bits());
    assert_eq!(a.volume, 0);
    a.set_volume(7.5f32.to_bits());
    assert_eq!(a.volume, 1.0f32.to_bits());
}

#[test]
fn new_stream() {
    assert!(ring_fits(48_000, 2));
    let a = AudioOut::new(44_100, 5);
    assert_eq!(a.requested_rate, 44_100);
    assert_eq!(a.requested_channels, 2);
    assert_eq!(a.device_rate, 44_100);
    assert_eq!(a.device_channels, 2);
    assert_eq!(a.granted_channels, 2);
    assert_eq!(a.resample_from, None);
    assert_eq!(a.volume, 1.0f32.to_bits());
    assert!(!a.paused);
    assert!(!a.callback_ran);
    assert_eq!(a.audio_queue_len_samples(), 0);
}

#[test]
fn stream_plays_in_order_then_silence() {
    let mut a = AudioOut::new(48_000, 2);
    assert_eq!(a.queue_audio(&[1, 2, 3]), 3);
    assert_eq!(a.queue_audio(&[4, 5, 6, 7]), 4);
    assert_eq!(a.audio_queue_len_samples(), 3);
    let mut out = [9u32; 4];
    assert_eq!(a.callback(&mut out), 4);
    assert_eq!(out, [1, 2, 3, 4]);
    assert!(a.callback_ran);
    assert_eq!(a.samples_played, 2);
    let mut out = [9u32; 5];
    assert_eq!(a.callback(&mut out), 3);
    assert_eq!(out, [5, 6, 7, 0, 0]);
    assert_eq!(a.samples_played, 3);
    let mut none: [u32; 0] = [];
    assert_eq!(a.callback(&mut none), 0);
}

#[test]
fn full_ring_drops_the_overflow() {
    // Four seconds of mono at the lowest rate the ring is sized for.
    let mut a = AudioOut::new(8_000, 1);
    let capacity = 48_000 * 4;
    let first: Vec<u32> = (0..capacity as u32 - 2).collect();
    assert_eq!(a.queue_audio(&first), capacity - 2);
    assert_eq!(a.queue_audio(&[100, 101, 102, 103]), 2);
    assert_eq!(a.queue_audio(&[104]), 0);
    assert_eq!(a.audio_queue_len_samples(), capacity as u64);
    let mut out = vec![0u32; capacity + 1];
    assert_eq!(a.callback(&mut out), capacity);
    assert_eq!(out[..capacity - 2], first[..]);
    assert_eq!(out[capacity - 2..], [100, 101, 0]);
    // The ring wraps around and takes new samples.
    assert_eq!(a.queue_audio(&[5, 6]), 2);
    let mut out = [0u32; 2];
    assert_eq!(a.callback(&mut out), 2);
    assert_eq!(out, [5, 6]);
}

#[test]
fn ring_is_sized_for_four_seconds() {
    let mut a = AudioOut::new(96_000, 2);
    let want = 96_000 * 2 * 4;
    assert_eq!(a.queue_audio(&vec![1u32; want + 10]), want);
}

#[test]
fn granted_format_decides_on_resampling() {
    let mut a = AudioOut::new(44_100, 2);
    a.stream_opened(48_000, 1);
    assert_eq!(a.device_rate, 48_000);
    assert_eq!(a.device_channels, 1);
    assert_eq!(a.resample_from, Some(44_100));
    match a.pace(vec![7; 441]) {
        Paced::Blended { blends, src_rate, dst_rate } => {
            assert_eq!((src_rate, dst_rate), (44_100, 48_000));
            assert_eq!(blends.len(), 480);
        }
        Paced::Ready(_) => panic!("not resampled"),
    }
    a.stream_opened(44_100, 2);
    assert_eq!(a.resample_from, None);
    assert!(matches!(a.pace(vec![1, 2, 3]), Paced::Ready(v) if v == vec![1, 2, 3]));
}

#[test]
fn stream_mixes_to_the_device_channels() {
    let mut a = AudioOut::new(44_100, 2);
    assert_eq!(a.mix(&stereo(1, vec![3, 4])).group, 1);
    a.stream_opened(44_100, 1);
    let mix = a.mix(&stereo(1, vec![3, 4]));
    assert_eq!(mix.group, 2);
    assert_eq!(mix.samples.len(), 2);
    assert!(a.mix(&stereo(0, vec![])).samples.is_empty());
}

#[test]
fn stream_counts_frames_of_the_granted_channels() {
    let mut a = AudioOut::new(48_000, 2);
    a.stream_opened(48_000, 1);
    a.queue_audio(&[1, 2, 3, 4]);
    let mut out = [0u32; 4];
    a.callback(&mut out);
    assert_eq!(a.samples_played, 4);
    a.queue_audio(&[1, 2, 3]);
    assert_eq!(a.audio_queue_len_samples(), 3);
}

#[test]
fn wide_device_gets_frames_of_its_own_width() {
    let mut a = AudioOut::new(48_000, 2);
    a.stream_opened(48_000, 6);
    assert_eq!(a.device_channels, 2);
    assert_eq!(a.granted_channels, 6);
    assert_eq!(a.mix(&stereo(1, vec![3, 4])).samples.len(), 2);
    assert_eq!(a.queue_audio(&[1, 2, 3, 4]), 12);
    assert_eq!(a.audio_queue_len_samples(), 2);
    let mut out = [9u32; 6];
    assert_eq!(a.callback(&mut out), 6);
    assert_eq!(out, [1, 2, 2, 2, 2, 2]);
    assert_eq!(a.samples_played, 1);
    let mut out = [9u32; 8];
    assert_eq!(a.callback(&mut out), 6);
    assert_eq!(out, [3, 4, 4, 4, 4, 4, 0, 0]);
    assert_eq!(a.samples_played, 2);
}

#[test]
fn wide_device_drops_the_overflow() {
    let mut a = AudioOut::new(8_000, 1);
    a.stream_opened(8_000, 3);
    assert_eq!(a.device_channels, 2);
    let capacity = 48_000 * 4;
    let frames = capacity / 3;
    let samples: Vec<u32> = (0..2 * (frames as u32 + 5)).collect();
    assert_eq!(a.queue_audio(&samples), capacity);
    assert_eq!(a.queue_audio(&[7, 8]), 0);
    let mut out = vec![0u32; capacity];
    assert_eq!(a.callback(&mut out), capacity);
    assert_eq!(out[..6], [0, 1, 1, 2, 3, 3]);
    let last = 2 * (frames as u32 - 1);
    assert_eq!(out[capacity - 3..], [last, last + 1, last + 1]);
    assert_eq!(a.samples_played, frames as u64);
}

#[test]
fn granted_channels_are_limited() {
    let mut a = AudioOut::new(48_000, 2);
    for (granted, mixed) in [(0, 1), (1, 1), (2, 2), (3, 2), (u16::MAX, 2)] {
        a.stream_opened(48_000, granted);
        assert_eq!(a.device_channels, mixed);
        assert_eq!(a.granted_channels, granted);
    }
}

/// One zero for each group of a mixed frame.
fn silent_means(mix: &Mixdown) -> Vec<u32> {
    vec![0; mix.samples.len() / mix.group]
}

fn paced_len(paced: Paced) -> usize {
    match paced {
        Paced::Ready(samples) => samples.len(),
        Paced::Blended { blends, .. } => blends.len(),
    }
}

#[test]
fn queue_grows_by_samples_per_channel_at_the_output_rate() {
    for (frame_rate, grown) in [(44_100, 100), (22_050, 200), (48_000, 91), (0, 0)] {
        for channels in [1, 2] {
            let mut a = Sdl2Driver::new(44_100, channels, None).shared;
            a.queue_audio(&vec![1; 7 * channels as usize]);
            let mut f = stereo(100, vec![0; 200]);
            f.sample_rate = frame_rate;
            let mix = a.mix(&f).unwrap();
            let len = paced_len(a.pace(frame_rate, silent_means(&mix)));
            a.queue_audio(&vec![0; len]);
            assert_eq!(a.audio_queue_len_samples(), 7 + grown);
        }
    }
    for granted in [1, 2, 6] {
        let mut a = AudioOut::new(44_100, 2);
        a.stream_opened(88_200, granted);
        let mix = a.mix(&stereo(100, vec![0; 200]));
        let len = paced_len(a.pace(silent_means(&mix)));
        a.queue_audio(&vec![0; len]);
        assert_eq!(a.audio_queue_len_samples(), 200);
    }
}

#[test]
fn device_is_told_once() {
    let mut a = AudioOut::new(48_000, 2);
    assert_eq!(a.set_paused(false), None);
    assert_eq!(a.set_paused(true), Some(DeviceCmd::Pause));
    assert!(a.paused);
    assert_eq!(a.set_paused(true), None);
    assert_eq!(a.set_paused(false), Some(DeviceCmd::Resume));
    assert!(!a.paused);
}

#[test]
fn stream_clock_and_volume() {
    let mut a = AudioOut::new(48_000, 2);
    a.stream_opened(32_000, 2);
    a.samples_played = 48_000;
    assert_eq!(a.master_clock_pos(), TimeSpan { secs: 1, nanos: 500_000_000 });
    a.set_volume(f32::NAN.to_bits());
    assert_eq!(a.volume, 0);
    a.set_volume(2.0f32.to_bits());
    assert_eq!(a.volume, ONE_BITS);
}
