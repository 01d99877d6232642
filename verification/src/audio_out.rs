//! Audio output through the system's audio service.
//!
//! The device pulls: its callback takes samples from a bounded ring that
//! `queue_audio` fills, and counts them for the master clock. The device
//! decides its own rate; where it is not the one asked for, samples are
//! resampled before they are queued. It also decides its own channels: sound
//! is mixed to mono or stereo, and a device with more channels than that is
//! given frames of its own width, the last channel repeated. Opening, pausing
//! and closing the stream is the caller's part.
//!
//! Samples are carried as IEEE-754 bit patterns.

use crate::audio_convert::{Mixdown, Paced};
use crate::clock::TimeSpan;
use crate::frame::AudioFrame;
use crate::ring::SampleRing;
use crate::sdl2_driver::DeviceCmd;
use vstd::prelude::*;

verus! {

/// State of one output stream.
pub struct AudioOut {
    pub ring: SampleRing,
    /// Rate that the stream was asked for, which is the decoder's.
    pub requested_rate: u32,
    /// Channels that the stream was asked for, one or two.
    pub requested_channels: u16,
    /// Rate of the device.
    pub device_rate: u32,
    /// Channels that sound is mixed to: those of the device, limited to one
    /// or two.
    pub device_channels: u16,
    /// Channels that the device granted; the ring holds frames of this many
    /// samples.
    pub granted_channels: u16,
    /// Samples per channel that the device took.
    pub samples_played: u64,
    /// Volume, from zero to one.
    pub volume: u32,
    /// Whether the stream is paused, so that the device is told only once.
    pub paused: bool,
    /// The decoder's rate, where the device has another.
    pub resample_from: Option<u32>,
    /// Set by the first callback.
    pub callback_ran: bool,
}

/// [`AudioOut`] with the ring as what it holds and can hold.
pub struct AudioOutView {
    pub ring: Seq<u32>,
    pub capacity: nat,
    pub requested_rate: u32,
    pub requested_channels: u16,
    pub device_rate: u32,
    pub device_channels: u16,
    pub granted_channels: u16,
    pub samples_played: u64,
    pub volume: u32,
    pub paused: bool,
    pub resample_from: Option<u32>,
    pub callback_ran: bool,
}

impl View for AudioOut {
    type V = AudioOutView;

    open spec fn view(&self) -> AudioOutView {
        AudioOutView {
            ring: crate::ring::ring_items(self.ring),
            capacity: crate::ring::ring_capacity(self.ring),
            requested_rate: self.requested_rate,
            requested_channels: self.requested_channels,
            device_rate: self.device_rate,
            device_channels: self.device_channels,
            granted_channels: self.granted_channels,
            samples_played: self.samples_played,
            volume: self.volume,
            paused: self.paused,
            resample_from: self.resample_from,
            callback_ran: self.callback_ran,
        }
    }
}

/// The lowest rate that the ring is sized for.
pub const MIN_RING_RATE: u32 = 48_000;

/// The smallest ring.
pub const MIN_RING: u32 = 8192;

/// Samples that the ring holds: four seconds of mono or stereo at the
/// requested rate, or at the lowest rate it is sized for.
pub open spec fn queue_capacity(sample_rate: u32, channels: u16) -> nat {
    let rate = if sample_rate < MIN_RING_RATE {
        MIN_RING_RATE
    } else {
        sample_rate
    };
    let samples = if crate::sdl2_driver::one_or_two(channels) == 1 {
        4 * rate
    } else {
        8 * rate
    };
    if samples < MIN_RING {
        MIN_RING as nat
    } else {
        samples as nat
    }
}

/// Whether a ring of that size, four bytes for each sample, fits in memory,
/// which is what [`AudioOut::new`] asks for.
pub fn ring_fits(sample_rate: u32, channels: u16) -> (fits: bool)
    ensures
        fits == (queue_capacity(sample_rate, channels) * 4 <= isize::MAX),
{
    ring_size(sample_rate, channels) <= isize::MAX as u64 / 4
}

fn ring_size(sample_rate: u32, channels: u16) -> (size: u64)
    ensures
        size == queue_capacity(sample_rate, channels),
{
    let rate: u64 = if sample_rate < MIN_RING_RATE {
        MIN_RING_RATE as u64
    } else {
        sample_rate as u64
    };
    let clamped = crate::sdl2_driver::clamp_channels(channels);
    let samples: u64 = if clamped == 1 {
        4 * rate
    } else {
        8 * rate
    };
    if samples < MIN_RING as u64 {
        MIN_RING as u64
    } else {
        samples
    }
}

/// Mono or stereo sound as a device with that many channels takes it: as it
/// is, or, where the device has more than two, each frame at the device's
/// width, with the last channel repeated.
pub open spec fn laid_out(samples: Seq<u32>, granted: u16) -> Seq<u32> {
    if granted <= 2 {
        samples
    } else {
        let sources = crate::audio_convert::source_channels(2, granted as nat);
        Seq::new(
            (samples.len() / 2) * granted as nat,
            |k: int| samples[(k / granted as int) * 2 + sources[k % granted as int]],
        )
    }
}

proof fn lemma_laid_out_row(samples: Seq<u32>, granted: u16, i: int, row: Seq<u32>)
    requires
        granted > 2,
        0 <= i < samples.len() / 2,
        row.len() == granted,
        forall|c: int|
            0 <= c < granted ==> row[c] == samples[i * 2 + (if c == 0 {
                0int
            } else {
                1int
            })],
    ensures
        (i + 1) * granted == i * granted + granted,
        0 <= i * granted,
        (i + 1) * granted <= laid_out(samples, granted).len(),
        row == laid_out(samples, granted).subrange(i * granted, (i + 1) * granted),
{
    let g = granted as int;
    let frames = samples.len() as int / 2;
    assert((i + 1) * g == i * g + g) by (nonlinear_arith);
    assert(0 <= i * g) by (nonlinear_arith)
        requires
            0 <= i,
            g > 0,
    ;
    assert((i + 1) * g <= frames * g) by (nonlinear_arith)
        requires
            i + 1 <= frames,
            g > 0,
    ;
    let laid = laid_out(samples, granted);
    let part = laid.subrange(i * g, (i + 1) * g);
    assert forall|c: int| 0 <= c < g implies row[c] == #[trigger] part[c] by {
        vstd::arithmetic::div_mod::lemma_fundamental_div_mod_converse(i * g + c, g, i, c);
        assert(part[c] == laid[i * g + c]);
    }
    assert(row =~= part);
}

/// One frame of stereo sound at the device's width.
fn wide_frame(samples: &[u32], i: usize, granted: u16) -> (row: Vec<u32>)
    requires
        granted > 2,
        i < samples@.len() / 2,
    ensures
        row@.len() == granted,
        forall|c: int|
            0 <= c < granted ==> row@[c] == samples@[i * 2 + (if c == 0 {
                0int
            } else {
                1int
            })],
{
    let mut row: Vec<u32> = Vec::new();
    assert(samples.len() == samples@.len());
    row.push(samples[i * 2]);
    let mut c: u16 = 1;
    while c < granted
        invariant
            1 <= c <= granted,
            i < samples@.len() / 2,
            samples.len() == samples@.len(),
            row@.len() == c,
            row@[0] == samples@[i * 2],
            forall|k: int| 1 <= k < c ==> row@[k] == samples@[i * 2 + 1],
        decreases granted - c,
    {
        row.push(samples[i * 2 + 1]);
        c = c + 1;
    }
    row
}

impl AudioOutView {
    /// A stream asked for at this rate and channel count, before the device
    /// has answered.
    pub open spec fn requested(sample_rate: u32, channels: u16) -> AudioOutView {
        AudioOutView {
            ring: Seq::empty(),
            capacity: queue_capacity(sample_rate, channels),
            requested_rate: sample_rate,
            requested_channels: crate::sdl2_driver::one_or_two(channels),
            device_rate: sample_rate,
            device_channels: crate::sdl2_driver::one_or_two(channels),
            granted_channels: crate::sdl2_driver::one_or_two(channels),
            samples_played: 0,
            volume: crate::volume::ONE_BITS,
            paused: false,
            resample_from: None,
            callback_ran: false,
        }
    }

    /// The stream once the device has granted a format.
    pub open spec fn granted(self, rate: u32, channels: u16) -> AudioOutView {
        AudioOutView {
            device_rate: rate,
            device_channels: crate::sdl2_driver::one_or_two(channels),
            granted_channels: channels,
            resample_from: if rate != self.requested_rate {
                Some(self.requested_rate)
            } else {
                None
            },
            ..self
        }
    }

    /// How many queued samples a callback takes that asks for `len`.
    pub open spec fn taken(self, len: nat) -> nat {
        crate::sdl2_driver::shorter(len, self.ring.len())
    }

    /// What the device is given: the oldest queued samples in order, then
    /// silence.
    pub open spec fn given(self, len: nat) -> Seq<u32> {
        self.ring.take(self.taken(len) as int) + crate::sdl2_driver::silence(
            (len - self.taken(len)) as nat,
        )
    }

    /// What a callback leaves: the samples it took are gone, and the clock
    /// has moved by the whole frames among them.
    pub open spec fn after_callback(self, len: nat) -> AudioOutView {
        AudioOutView {
            ring: self.ring.skip(self.taken(len) as int),
            samples_played: crate::sdl2_driver::advanced(
                self.samples_played,
                self.taken(len) / crate::audio_convert::at_least_one(self.granted_channels),
            ),
            callback_ran: true,
            ..self
        }
    }

    /// Whole frames that wait.
    pub open spec fn queue_frames(self) -> nat {
        self.ring.len() / crate::audio_convert::at_least_one(self.granted_channels)
    }

    /// How many of `len` new samples, laid out for the device, the ring has
    /// room for.
    pub open spec fn accepted(self, len: nat) -> nat {
        crate::sdl2_driver::shorter(len, (self.capacity - self.ring.len()) as nat)
    }

    /// The new samples that the ring accepts, laid out for the device: as
    /// many as there is room for.
    pub open spec fn accepts(self, samples: Seq<u32>) -> Seq<u32> {
        let laid = laid_out(samples, self.granted_channels);
        laid.take(self.accepted(laid.len()) as int)
    }

    /// What queueing leaves: the samples that the ring accepts wait behind
    /// the others, the rest is dropped.
    pub open spec fn after_queue(self, samples: Seq<u32>) -> AudioOutView {
        AudioOutView { ring: self.ring + self.accepts(samples), ..self }
    }

    /// The ring holds no more than it can, and sound is mixed to the
    /// device's channels, limited to mono and stereo.
    pub open spec fn wf(self) -> bool {
        &&& self.ring.len() <= self.capacity
        &&& self.device_channels == crate::sdl2_driver::one_or_two(self.granted_channels)
    }
}

impl AudioOut {
    /// A stream that is about to be opened at this rate with one or two
    /// channels, at full volume and with an empty ring.
    pub fn new(sample_rate: u32, channels: u16) -> (audio: AudioOut)
        requires
            queue_capacity(sample_rate, channels) * 4 <= isize::MAX,
        ensures
            audio@ == AudioOutView::requested(sample_rate, channels),
            audio@.wf(),
    {
        let clamped = crate::sdl2_driver::clamp_channels(channels);
        let capacity = ring_size(sample_rate, channels) as usize;
        AudioOut {
            ring: SampleRing::new(capacity),
            requested_rate: sample_rate,
            requested_channels: clamped,
            device_rate: sample_rate,
            device_channels: clamped,
            granted_channels: clamped,
            samples_played: 0,
            volume: crate::volume::ONE_BITS,
            paused: false,
            resample_from: None,
            callback_ran: false,
        }
    }

    /// Takes in the format that the device granted.
    pub fn stream_opened(&mut self, rate: u32, channels: u16)
        ensures
            final(self)@ == old(self)@.granted(rate, channels),
            old(self)@.wf() ==> final(self)@.wf(),
    {
        self.device_rate = rate;
        self.device_channels = crate::sdl2_driver::clamp_channels(channels);
        self.granted_channels = channels;
        self.resample_from = if rate != self.requested_rate {
            Some(self.requested_rate)
        } else {
            None
        };
    }

    /// Fills the device's buffer. The oldest queued samples come first, in
    /// order and not yet scaled by the volume; where they run out there is
    /// silence. Returns how many samples were queued ones.
    pub fn callback(&mut self, out: &mut [u32]) -> (written: usize)
        ensures
            written == old(self)@.taken(old(out)@.len()),
            final(out)@ == old(self)@.given(old(out)@.len()),
            final(self)@ == old(self)@.after_callback(old(out)@.len()),
            old(self)@.wf() ==> final(self)@.wf(),
    {
        let ghost before = self@;
        let ghost asked = out@;
        self.callback_ran = true;
        let written = self.ring.pop_slice(out);
        let n: usize = out.len();
        let mut i: usize = written;
        while i < n
            invariant
                written <= i <= n,
                n == out@.len(),
                n == asked.len(),
                written == before.taken(asked.len()),
                forall|k: int| 0 <= k < written ==> out@[k] == before.ring[k],
                forall|k: int| written <= k < i ==> out@[k] == crate::volume::ZERO_BITS,
            decreases n - i,
        {
            out[i] = crate::volume::ZERO_BITS;
            i = i + 1;
        }
        assert(out@ =~= before.given(asked.len()));
        let ch: u64 = if self.granted_channels == 0 {
            1
        } else {
            self.granted_channels as u64
        };
        self.samples_played = self.samples_played.wrapping_add(written as u64 / ch);
        written
    }

    /// Rearranges a frame for mono or stereo, as the device has it.
    pub fn mix(&self, frame: &AudioFrame) -> (mix: Mixdown)
        requires
            crate::audio_convert::holds_all(frame, self.device_channels),
        ensures
            mix.samples@ == crate::audio_convert::interleaved(frame, self.device_channels),
            mix.group == crate::audio_convert::mean_of(
                crate::audio_convert::at_least_one(frame.channels),
                crate::audio_convert::at_least_one(self.device_channels),
            ),
    {
        crate::audio_convert::to_interleaved(frame, self.device_channels)
    }

    /// Adapts mixed samples to the device's rate: by linear interpolation
    /// where the stream has to resample, as they are otherwise.
    pub fn pace(&self, samples: Vec<u32>) -> (paced: Paced)
        requires
            self.resample_from matches Some(rate) ==> crate::audio_convert::resample_fits(
                samples@.len(),
                rate,
                self.device_rate,
                self.device_channels as nat,
            ),
        ensures
            match (paced, self.resample_from) {
                (Paced::Ready(ready), None) => ready@ == samples@,
                (Paced::Blended { blends, src_rate, dst_rate }, Some(rate)) => {
                    &&& src_rate == rate
                    &&& dst_rate == self.device_rate
                    &&& blends@ == crate::audio_convert::resampled(
                        samples@,
                        rate,
                        self.device_rate,
                        self.device_channels as nat,
                    )
                },
                _ => false,
            },
    {
        match self.resample_from {
            Some(rate) => {
                let blends = crate::audio_convert::resample_linear(
                    &samples,
                    rate,
                    self.device_rate,
                    self.device_channels as usize,
                );
                Paced::Blended { blends, src_rate: rate, dst_rate: self.device_rate }
            },
            None => Paced::Ready(samples),
        }
    }

    /// Queues samples for the device, laid out as it takes them. What the
    /// ring has no room for is dropped; returns how many samples of the ring
    /// were filled.
    pub fn queue_audio(&mut self, samples: &[u32]) -> (queued: usize)
        requires
            old(self)@.wf(),
        ensures
            final(self)@.wf(),
            queued == old(self)@.accepts(samples@).len(),
            final(self)@ == old(self)@.after_queue(samples@),
    {
        let granted = self.granted_channels;
        if granted <= 2 {
            return self.ring.push_slice(samples);
        }
        let ghost before = self@;
        let ghost laid = laid_out(samples@, granted);
        let ghost room = (before.capacity - before.ring.len()) as nat;
        let held = self.ring.occupied_len();
        let frames: usize = samples.len() / 2;
        let mut i: usize = 0;
        assert(laid.len() == frames * granted);
        assert(before.ring + laid.take(0) =~= before.ring);
        assert(0 * granted == 0);
        while i < frames
            invariant
                i <= frames,
                frames == samples@.len() / 2,
                granted > 2,
                laid == laid_out(samples@, granted),
                0 <= i * granted <= laid.len(),
                before.wf(),
                room == before.capacity - before.ring.len(),
                self@ == (AudioOutView {
                    ring: before.ring + laid.take(
                        crate::sdl2_driver::shorter((i * granted) as nat, room) as int,
                    ),
                    ..before
                }),
            decreases frames - i,
        {
            let row = wide_frame(samples, i, granted);
            proof {
                lemma_laid_out_row(samples@, granted, i as int, row@);
            }
            let ghost n = crate::sdl2_driver::shorter((i * granted) as nat, room) as int;
            let filled = self.ring.push_slice(row.as_slice());
            proof {
                let m = crate::sdl2_driver::shorter(((i + 1) * granted) as nat, room) as int;
                assert(n + filled == m);
                if filled > 0 {
                    assert(n == i * granted);
                    assert(laid.take(n) + row@.take(filled as int) =~= laid.take(m));
                }
                assert((before.ring + laid.take(n)) + row@.take(filled as int) =~= before.ring
                    + laid.take(m));
            }
            i = i + 1;
        }
        self.ring.occupied_len() - held
    }

    /// How long the samples that the device took last.
    pub fn master_clock_pos(&self) -> (pos: TimeSpan)
        ensures
            pos.secs == crate::clock::clock_secs(self.samples_played, self.device_rate),
            pos.nanos == crate::clock::clock_nanos(self.samples_played, self.device_rate),
    {
        crate::clock::clock_position(self.samples_played, self.device_rate)
    }

    /// Pauses or resumes; says what to tell the device, if anything changed.
    pub fn set_paused(&mut self, paused: bool) -> (cmd: Option<DeviceCmd>)
        ensures
            final(self)@ == (AudioOutView { paused, ..old(self)@ }),
            cmd == (if paused == old(self).paused {
                None
            } else if paused {
                Some(DeviceCmd::Pause)
            } else {
                Some(DeviceCmd::Resume)
            }),
    {
        if paused == self.paused {
            return None;
        }
        self.paused = paused;
        if paused {
            Some(DeviceCmd::Pause)
        } else {
            Some(DeviceCmd::Resume)
        }
    }

    /// Sets the volume, limited to the range from zero to one.
    pub fn set_volume(&mut self, volume: u32)
        ensures
            final(self)@ == (AudioOutView {
                volume: crate::volume::clamped(volume),
                ..old(self)@
            }),
    {
        self.volume = crate::volume::clamp_volume(volume);
    }

    /// Whole frames still queued.
    pub fn audio_queue_len_samples(&self) -> (len: u64)
        ensures
            len == self@.queue_frames(),
    {
        let ch: u64 = if self.granted_channels == 0 {
            1
        } else {
            self.granted_channels as u64
        };
        self.ring.occupied_len() as u64 / ch
    }
}

} // verus!
