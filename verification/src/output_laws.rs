//! What each operation on an audio output does: which samples the device is
//! given, what waits afterwards, and where the clock and the volume stand.
//! Each law speaks of a call, over what it was given, what it returned and
//! what it left behind.

use crate::audio_out::AudioOut;
use crate::clock::TimeSpan;
use crate::sdl2_driver::{AudioShared, DeviceCmd, Sdl2Driver, VideoState};
use vstd::prelude::*;

verus! {

/// The clock is the time that the samples played take: the last nanosecond
/// that they reach, in whole seconds and what is past them. A rate of zero
/// counts as one.
pub proof fn law_clock_shows_the_time_played(played: u64, rate: u32, pos: TimeSpan, r: int)
    requires
        call_ensures(crate::clock::clock_position, (played, rate), pos),
        r == (if rate == 0 {
            1
        } else {
            rate as int
        }),
    ensures
        pos.nanos < 1_000_000_000,
        (pos.secs * 1_000_000_000 + pos.nanos) * r <= played * 1_000_000_000,
        played * 1_000_000_000 < (pos.secs * 1_000_000_000 + pos.nanos + 1) * r,
{
    crate::clock::law_clock_is_samples_over_rate(played, rate);
    if rate > 0 {
        let m = played as int % r;
        assert(m * 1_000_000_000 / r < 1_000_000_000) by (nonlinear_arith)
            requires
                0 <= m < r,
        ;
    }
}

/// The clock of either output is that of the samples it played, at the rate
/// it plays at.
pub proof fn law_outputs_show_their_own_time(
    shared: &AudioShared,
    window_pos: TimeSpan,
    window_same: TimeSpan,
    audio: &AudioOut,
    stream_pos: TimeSpan,
    stream_same: TimeSpan,
)
    requires
        call_ensures(AudioShared::master_clock_pos, (shared,), window_pos),
        call_ensures(
            crate::clock::clock_position,
            (shared.samples_played, shared.sample_rate),
            window_same,
        ),
        call_ensures(AudioOut::master_clock_pos, (audio,), stream_pos),
        call_ensures(
            crate::clock::clock_position,
            (audio.samples_played, audio.device_rate),
            stream_same,
        ),
    ensures
        window_pos == window_same,
        stream_pos == stream_same,
{
}

/// A requested volume, by its bits: a positive number up to one, and zero of
/// either sign, is kept; a larger one becomes one; a negative one, or what is
/// no number, becomes zero.
pub proof fn law_volume_is_limited(requested: u32, volume: u32)
    requires
        call_ensures(crate::volume::clamp_volume, (requested,), volume),
    ensures
        requested <= 0x3f80_0000 || requested == 0x8000_0000 ==> volume == requested,
        0x3f80_0000 < requested <= 0x7f80_0000 ==> volume == 0x3f80_0000,
        0x7f80_0000 < requested && requested != 0x8000_0000 ==> volume == 0,
{
}

/// Setting the volume of either output limits it to its range and changes
/// nothing else.
pub proof fn law_volume_is_set_within_its_limits(
    requested: u32,
    volume: u32,
    shared: &mut AudioShared,
    audio: &mut AudioOut,
)
    requires
        call_ensures(crate::volume::clamp_volume, (requested,), volume),
        call_ensures(AudioShared::set_volume, (shared, requested), ()),
        call_ensures(AudioOut::set_volume, (audio, requested), ()),
    ensures
        final(shared).volume == volume,
        final(shared).ring@ == old(shared).ring@,
        final(shared).samples_played == old(shared).samples_played,
        final(shared).sample_rate == old(shared).sample_rate,
        final(shared).channels == old(shared).channels,
        final(shared).paused == old(shared).paused,
        final(audio).volume == volume,
        final(audio).requested_rate == old(audio).requested_rate,
        final(audio).requested_channels == old(audio).requested_channels,
        final(audio).device_rate == old(audio).device_rate,
        final(audio).device_channels == old(audio).device_channels,
        final(audio).granted_channels == old(audio).granted_channels,
        final(audio).resample_from == old(audio).resample_from,
        crate::ring::ring_capacity(final(audio).ring) == crate::ring::ring_capacity(
            old(audio).ring,
        ),
        final(audio).samples_played == old(audio).samples_played,
        final(audio).paused == old(audio).paused,
        final(audio).callback_ran == old(audio).callback_ran,
        crate::ring::ring_items(final(audio).ring) == crate::ring::ring_items(old(audio).ring),
{
}

/// Pausing the window's output always tells the device; pausing the stream
/// tells it only of a change. Nothing else changes.
pub proof fn law_pausing_tells_the_device(
    paused: bool,
    shared: &mut AudioShared,
    told: DeviceCmd,
    audio: &mut AudioOut,
    maybe: Option<DeviceCmd>,
)
    requires
        call_ensures(AudioShared::set_paused, (shared, paused), told),
        call_ensures(AudioOut::set_paused, (audio, paused), maybe),
    ensures
        told == (if paused {
            DeviceCmd::Pause
        } else {
            DeviceCmd::Resume
        }),
        final(shared).paused == paused,
        final(shared).ring@ == old(shared).ring@,
        final(shared).samples_played == old(shared).samples_played,
        final(shared).sample_rate == old(shared).sample_rate,
        final(shared).channels == old(shared).channels,
        final(shared).volume == old(shared).volume,
        maybe is None <==> paused == old(audio).paused,
        maybe matches Some(cmd) ==> (cmd == DeviceCmd::Pause <==> paused),
        final(audio).paused == paused,
        final(audio).requested_rate == old(audio).requested_rate,
        final(audio).requested_channels == old(audio).requested_channels,
        final(audio).device_rate == old(audio).device_rate,
        final(audio).device_channels == old(audio).device_channels,
        final(audio).granted_channels == old(audio).granted_channels,
        final(audio).resample_from == old(audio).resample_from,
        crate::ring::ring_capacity(final(audio).ring) == crate::ring::ring_capacity(
            old(audio).ring,
        ),
        final(audio).samples_played == old(audio).samples_played,
        final(audio).volume == old(audio).volume,
        final(audio).callback_ran == old(audio).callback_ran,
        crate::ring::ring_items(final(audio).ring) == crate::ring::ring_items(old(audio).ring),
{
}

/// A new window driver plays nothing yet, at full volume, in mono or stereo
/// at the rate asked for, and asks the device and the window system for just
/// that; a window has at least one pixel each way.
pub proof fn law_new_window_driver_asks_for_what_it_plays(
    rate: u32,
    channels: u16,
    video: Option<(u32, u32)>,
    driver: Sdl2Driver,
    clamped: u16,
)
    requires
        call_ensures(Sdl2Driver::new, (rate, channels, video), driver),
        call_ensures(crate::sdl2_driver::clamp_channels, (channels,), clamped),
    ensures
        clamped == (if channels == 0 {
            1
        } else if channels <= 2 {
            channels
        } else {
            2
        }),
        driver.shared.ring@.len() == 0,
        driver.shared.samples_played == 0,
        driver.shared.sample_rate == rate,
        driver.shared.channels == clamped,
        driver.shared.volume == 0x3f80_0000,
        !driver.shared.paused,
        driver.spec.freq == (if rate < 0x8000_0000 {
            rate as int
        } else {
            rate - 0x1_0000_0000
        }),
        driver.spec.channels == clamped,
        driver.spec.samples == 1024,
        driver.video is Some <==> video is Some,
        driver.video matches Some(state) ==> state.texture is None,
        driver.window is Some <==> video is Some,
        driver.window matches Some(size) ==> {
            &&& size.0 == (if video.unwrap().0 == 0 {
                1
            } else {
                video.unwrap().0
            })
            &&& size.1 == (if video.unwrap().1 == 0 {
                1
            } else {
                video.unwrap().1
            })
        },
{
}

/// A texture that was built is remembered with its size.
pub proof fn law_built_texture_is_remembered(state: &mut VideoState, width: u32, height: u32)
    requires
        call_ensures(VideoState::texture_created, (state, width, height), ()),
    ensures
        final(state).texture == Some((width, height)),
{
}

/// A callback of the window's output gives the device the oldest waiting
/// samples in order, as many as it asks for and there are, and zeros for the
/// rest; while paused it gives only zeros. What it gave no longer waits, and
/// the clock moves by the samples per channel among it.
pub proof fn law_window_callback_plays_the_oldest(
    shared: &mut AudioShared,
    out: &mut [u32],
    produced: usize,
)
    requires
        call_ensures(AudioShared::callback, (shared, out), produced),
    ensures
        produced == (if old(shared).paused {
            0
        } else if old(out)@.len() <= old(shared).ring@.len() {
            old(out)@.len()
        } else {
            old(shared).ring@.len()
        }),
        final(out)@.len() == old(out)@.len(),
        forall|k: int|
            #![trigger final(out)@[k]]
            0 <= k < produced ==> final(out)@[k] == old(shared).ring@[k],
        forall|k: int|
            #![trigger final(out)@[k]]
            produced <= k < old(out)@.len() ==> final(out)@[k] == 0,
        final(shared).ring@.len() == old(shared).ring@.len() - produced,
        forall|k: int|
            #![trigger final(shared).ring@[k]]
            0 <= k < final(shared).ring@.len() ==> final(shared).ring@[k] == old(
                shared,
            ).ring@[k + produced],
        final(shared).samples_played == (old(shared).samples_played + produced as int / (if old(
            shared,
        ).channels == 0 {
            1
        } else {
            old(shared).channels as int
        })) % 0x1_0000_0000_0000_0000,
        final(shared).sample_rate == old(shared).sample_rate,
        final(shared).channels == old(shared).channels,
        final(shared).volume == old(shared).volume,
        final(shared).paused == old(shared).paused,
{
}

/// Queueing on the window's output puts all samples, in order, behind those
/// that wait; the length of the queue is what waits for each channel.
pub proof fn law_window_queue_keeps_everything(
    shared: &mut AudioShared,
    samples: &Vec<u32>,
    seen: &AudioShared,
    len: u64,
)
    requires
        call_ensures(AudioShared::queue_audio, (shared, samples), ()),
        call_ensures(AudioShared::audio_queue_len_samples, (seen,), len),
    ensures
        final(shared).ring@.len() == old(shared).ring@.len() + samples@.len(),
        forall|k: int|
            #![trigger final(shared).ring@[k]]
            0 <= k < old(shared).ring@.len() ==> final(shared).ring@[k] == old(shared).ring@[k],
        forall|k: int|
            #![trigger samples@[k]]
            0 <= k < samples@.len() ==> final(shared).ring@[old(shared).ring@.len() + k]
                == samples@[k],
        final(shared).samples_played == old(shared).samples_played,
        final(shared).sample_rate == old(shared).sample_rate,
        final(shared).channels == old(shared).channels,
        final(shared).volume == old(shared).volume,
        final(shared).paused == old(shared).paused,
        len == seen.ring@.len() as int / (if seen.channels == 0 {
            1
        } else {
            seen.channels as int
        }),
{
}

/// A new stream has an empty ring of four seconds, at the given rate or at
/// 48 kHz where that is more, plays at full volume, and asks for mono or
/// stereo at the given rate. It can be had wherever the ring, four bytes for
/// each sample, fits in memory.
pub proof fn law_new_stream_asks_for_what_it_plays(
    rate: u32,
    channels: u16,
    audio: AudioOut,
    fits: bool,
    size: int,
)
    requires
        size == 4 * (if rate < 48_000 {
            48_000
        } else {
            rate as int
        }) * (if channels <= 1 {
            1
        } else {
            2int
        }),
        call_ensures(AudioOut::new, (rate, channels), audio),
        call_ensures(crate::audio_out::ring_fits, (rate, channels), fits),
    ensures
        fits <==> size * 4 <= isize::MAX,
        fits ==> call_requires(AudioOut::new, (rate, channels)),
        crate::ring::ring_items(audio.ring).len() == 0,
        crate::ring::ring_capacity(audio.ring) == size,
        audio.requested_rate == rate,
        audio.requested_channels == (if channels <= 1 {
            1
        } else {
            2int
        }),
        audio.device_rate == rate,
        audio.device_channels == audio.requested_channels,
        audio.granted_channels == audio.requested_channels,
        audio.samples_played == 0,
        audio.volume == 0x3f80_0000,
        !audio.paused,
        audio.resample_from is None,
        !audio.callback_ran,
{
}

/// A stream that was opened plays at the device's rate, resampling exactly
/// where that is not the rate asked for, and mixes to mono for a device with
/// one channel and to stereo for any with more. What waits, the clock and
/// the volume stay as they are.
pub proof fn law_opened_stream_follows_the_device(
    audio: &mut AudioOut,
    rate: u32,
    channels: u16,
)
    requires
        call_ensures(AudioOut::stream_opened, (audio, rate, channels), ()),
    ensures
        final(audio).device_rate == rate,
        final(audio).granted_channels == channels,
        final(audio).device_channels == (if channels <= 1 {
            1
        } else {
            2int
        }),
        final(audio).resample_from == (if rate == old(audio).requested_rate {
            None
        } else {
            Some(old(audio).requested_rate)
        }),
        final(audio).requested_rate == old(audio).requested_rate,
        final(audio).requested_channels == old(audio).requested_channels,
        final(audio).samples_played == old(audio).samples_played,
        final(audio).volume == old(audio).volume,
        final(audio).paused == old(audio).paused,
        final(audio).callback_ran == old(audio).callback_ran,
        crate::ring::ring_items(final(audio).ring) == crate::ring::ring_items(old(audio).ring),
        crate::ring::ring_capacity(final(audio).ring) == crate::ring::ring_capacity(
            old(audio).ring,
        ),
{
}

/// A callback of the stream gives the device the oldest samples of the ring
/// in order, as many as it asks for and there are, and zeros for the rest.
/// What it gave has left the ring, and the clock moves by the samples per
/// channel of the device among it.
pub proof fn law_stream_callback_plays_the_oldest(
    audio: &mut AudioOut,
    out: &mut [u32],
    written: usize,
)
    requires
        call_ensures(AudioOut::callback, (audio, out), written),
    ensures
        ({
            let before = crate::ring::ring_items(old(audio).ring);
            let after = crate::ring::ring_items(final(audio).ring);
            &&& written == (if old(out)@.len() <= before.len() {
                old(out)@.len()
            } else {
                before.len()
            })
            &&& final(out)@.len() == old(out)@.len()
            &&& forall|k: int|
                #![trigger final(out)@[k]]
                0 <= k < written ==> final(out)@[k] == before[k]
            &&& forall|k: int|
                #![trigger final(out)@[k]]
                written <= k < old(out)@.len() ==> final(out)@[k] == 0
            &&& after.len() == before.len() - written
            &&& forall|k: int|
                #![trigger after[k]]
                0 <= k < after.len() ==> after[k] == before[k + written]
        }),
        final(audio).samples_played == (old(audio).samples_played + written as int / (if old(
            audio,
        ).granted_channels == 0 {
            1
        } else {
            old(audio).granted_channels as int
        })) % 0x1_0000_0000_0000_0000,
        final(audio).callback_ran,
        final(audio).requested_rate == old(audio).requested_rate,
        final(audio).requested_channels == old(audio).requested_channels,
        final(audio).device_rate == old(audio).device_rate,
        final(audio).device_channels == old(audio).device_channels,
        final(audio).granted_channels == old(audio).granted_channels,
        final(audio).resample_from == old(audio).resample_from,
        crate::ring::ring_capacity(final(audio).ring) == crate::ring::ring_capacity(
            old(audio).ring,
        ),
        final(audio).volume == old(audio).volume,
        final(audio).paused == old(audio).paused,
{
}

/// Queueing on the stream puts the samples, in order, behind those in the
/// ring, until it is full; what does not fit is dropped. For a device with
/// more than two channels each frame takes as many places as the device has
/// channels: the left sample once, the right one on all the others. The
/// length of the queue is what waits for each channel of the device.
pub proof fn law_stream_queue_drops_only_the_overflow(
    audio: &mut AudioOut,
    samples: &[u32],
    queued: usize,
    seen: &AudioOut,
    len: u64,
)
    requires
        call_ensures(AudioOut::queue_audio, (audio, samples), queued),
        crate::ring::ring_items(old(audio).ring).len() <= crate::ring::ring_capacity(
            old(audio).ring,
        ),
        call_ensures(AudioOut::audio_queue_len_samples, (seen,), len),
    ensures
        ({
            let before = crate::ring::ring_items(old(audio).ring);
            let after = crate::ring::ring_items(final(audio).ring);
            let room = crate::ring::ring_capacity(old(audio).ring) - before.len();
            let granted = old(audio).granted_channels as int;
            let wanted = if granted <= 2 {
                samples@.len() as int
            } else {
                (samples@.len() as int / 2) * granted
            };
            &&& queued == (if wanted <= room {
                wanted
            } else {
                room
            })
            &&& after.len() == before.len() + queued
            &&& forall|k: int|
                #![trigger after[k]]
                0 <= k < before.len() ==> after[k] == before[k]
            &&& granted <= 2 ==> forall|k: int|
                #![trigger samples@[k]]
                0 <= k < queued ==> after[before.len() + k] == samples@[k]
            &&& granted > 2 ==> forall|i: int, c: int|
                #![trigger after[before.len() + i * granted + c]]
                0 <= i && 0 <= c < granted && i * granted + c < queued ==> after[before.len() + i
                    * granted + c] == samples@[2 * i + (if c == 0 {
                    0int
                } else {
                    1
                })]
        }),
        final(audio).requested_rate == old(audio).requested_rate,
        final(audio).requested_channels == old(audio).requested_channels,
        final(audio).device_rate == old(audio).device_rate,
        final(audio).device_channels == old(audio).device_channels,
        final(audio).granted_channels == old(audio).granted_channels,
        final(audio).resample_from == old(audio).resample_from,
        crate::ring::ring_capacity(final(audio).ring) == crate::ring::ring_capacity(
            old(audio).ring,
        ),
        final(audio).samples_played == old(audio).samples_played,
        final(audio).volume == old(audio).volume,
        final(audio).paused == old(audio).paused,
        final(audio).callback_ran == old(audio).callback_ran,
        len == crate::ring::ring_items(seen.ring).len() as int / (if seen.granted_channels == 0 {
            1
        } else {
            seen.granted_channels as int
        }),
{
    let before = old(audio)@;
    let granted = old(audio).granted_channels;
    let laid = crate::audio_out::laid_out(samples@, granted);
    let new = before.accepts(samples@);
    assert(final(audio)@ == before.after_queue(samples@));
    assert(final(audio)@.ring == before.ring + new);
    let after = before.ring + new;
    if granted > 2 {
        let g = granted as int;
        let frames = samples@.len() as int / 2;
        assert(0 <= frames * g) by (nonlinear_arith)
            requires
                frames >= 0,
                g >= 0,
        ;
        assert forall|i: int, c: int|
            0 <= i && 0 <= c < g && i * g + c < queued implies #[trigger] after[before.ring.len()
            + i * g + c] == samples@[2 * i + (if c == 0 {
            0int
        } else {
            1
        })] by {
            assert(0 <= i * g) by (nonlinear_arith)
                requires
                    0 <= i,
                    g >= 0,
            ;
            assert(i < frames) by (nonlinear_arith)
                requires
                    i * g + c < frames * g,
                    0 <= c,
                    g > 0,
            ;
            crate::playback_laws::law_wide_devices_get_every_frame(samples@, granted, i, c);
            assert(after[before.ring.len() + (i * g + c)] == new[i * g + c]);
            assert(new[i * g + c] == laid[i * g + c]);
        }
    }
}

/// A stream whose ring holds no more than it can, and that mixes as its
/// device has it, takes any samples.
pub proof fn law_sound_stream_takes_any_samples(audio: &mut AudioOut, samples: &[u32])
    requires
        crate::ring::ring_items(old(audio).ring).len() <= crate::ring::ring_capacity(
            old(audio).ring,
        ),
        old(audio).device_channels == (if old(audio).granted_channels <= 1 {
            1
        } else {
            2int
        }),
    ensures
        call_requires(AudioOut::queue_audio, (audio, samples)),
{
}

} // verus!
