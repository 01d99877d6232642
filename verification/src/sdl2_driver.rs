//! Audio and video output through a window system.
//!
//! Audio is the master clock: the device callback counts the samples it
//! took, and the clock is that count over the output rate. Video is shown
//! through a streaming texture that is rebuilt when the picture's size
//! changes. Devices, windows and textures belong to the caller; their state
//! as far as it decides anything is kept here.
//!
//! Samples are carried as IEEE-754 bit patterns.

use crate::audio_convert::{Mixdown, Paced};
use crate::clock::TimeSpan;
use crate::frame::{AudioFrame, VideoFrame};
use crate::video_convert::{TextureFormat, Yuv420};
use std::collections::VecDeque;
use vstd::prelude::*;

verus! {

/// What to tell the audio device.
#[derive(Clone, Copy, Debug, PartialEq, Eq, Structural)]
pub enum DeviceCmd {
    Pause,
    Resume,
}

/// State that the audio callback reads from and the decode loop writes to.
pub struct AudioShared {
    /// Interleaved samples pending playback.
    pub ring: VecDeque<u32>,
    /// Samples per channel that the device took since the start.
    pub samples_played: u64,
    /// Output sample rate.
    pub sample_rate: u32,
    /// Output channels.
    pub channels: u16,
    /// Volume, from zero to one.
    pub volume: u32,
    /// While set, the callback gives silence and the clock stands still.
    pub paused: bool,
}

/// The audio format to ask the device for.
#[derive(Clone, Copy, Debug, PartialEq, Eq, Structural)]
pub struct AudioSpec {
    pub freq: i32,
    pub channels: u8,
    /// Length of the device's buffer.
    pub samples: u16,
}

/// Video state that exists only while a window is open.
#[derive(Clone, Copy, Debug)]
pub struct VideoState {
    /// Width and height of the texture, once there is one.
    pub texture: Option<(u32, u32)>,
}

/// Everything a new driver starts from.
pub struct Sdl2Driver {
    pub shared: AudioShared,
    pub video: Option<VideoState>,
    /// What to open the audio device with.
    pub spec: AudioSpec,
    /// Size of the window to open.
    pub window: Option<(u32, u32)>,
}

/// A picture to upload and show.
#[derive(Debug)]
pub struct Drawing {
    /// Build a texture of this format and of the frame's size first.
    pub new_texture: Option<TextureFormat>,
    pub picture: Yuv420,
    /// Bytes from one row of the luma plane to the next.
    pub y_pitch: usize,
    /// Bytes from one row of a chroma plane to the next.
    pub uv_pitch: usize,
}

/// What to do with a video frame.
#[derive(Debug)]
pub enum Present {
    Skip,
    Draw(Drawing),
}

/// Length of the device's buffer, in samples.
pub const DEVICE_BUFFER: u16 = 1024;

/// A channel count limited to mono and stereo.
pub open spec fn one_or_two(channels: u16) -> u16 {
    if channels < 1 {
        1
    } else if channels > 2 {
        2
    } else {
        channels
    }
}

/// Limits a channel count to mono and stereo.
pub fn clamp_channels(channels: u16) -> (clamped: u16)
    ensures
        clamped == one_or_two(channels),
{
    if channels < 1 {
        1
    } else if channels > 2 {
        2
    } else {
        channels
    }
}

/// The signed number with the same bits as a rate.
pub open spec fn signed_rate(rate: u32) -> int {
    if rate <= i32::MAX {
        rate as int
    } else {
        rate - 0x1_0000_0000
    }
}

/// A side of the window: at least one pixel.
pub open spec fn at_least_one_pixel(side: u32) -> u32 {
    if side == 0 {
        1
    } else {
        side
    }
}

impl Sdl2Driver {
    /// Plans a driver. If `video` is given, a window of that size is to be
    /// opened. Audio is always set up, in mono or stereo, at full volume.
    pub fn new(audio_sample_rate: u32, audio_channels: u16, video: Option<(u32, u32)>) -> (driver:
        Sdl2Driver)
        ensures
            driver.shared.ring@ == Seq::<u32>::empty(),
            driver.shared.samples_played == 0,
            driver.shared.sample_rate == audio_sample_rate,
            driver.shared.channels == one_or_two(audio_channels),
            driver.shared.volume == crate::volume::ONE_BITS,
            !driver.shared.paused,
            driver.spec.freq == signed_rate(audio_sample_rate),
            driver.spec.channels == one_or_two(audio_channels),
            driver.spec.samples == DEVICE_BUFFER,
            driver.video == (match video {
                Some(_) => Some(VideoState { texture: None }),
                None => None,
            }),
            driver.window == (match video {
                Some((w, h)) => Some((at_least_one_pixel(w), at_least_one_pixel(h))),
                None => None,
            }),
    {
        let channels = clamp_channels(audio_channels);
        let freq: i32 = if audio_sample_rate <= i32::MAX as u32 {
            audio_sample_rate as i32
        } else {
            (audio_sample_rate as i64 - 0x1_0000_0000) as i32
        };
        let window = match video {
            Some((w, h)) => Some(
                (
                    if w == 0 {
                        1u32
                    } else {
                        w
                    },
                    if h == 0 {
                        1u32
                    } else {
                        h
                    },
                ),
            ),
            None => None,
        };
        let state = match video {
            Some(_) => Some(VideoState { texture: None }),
            None => None,
        };
        Sdl2Driver {
            shared: AudioShared {
                ring: VecDeque::new(),
                samples_played: 0,
                sample_rate: audio_sample_rate,
                channels,
                volume: crate::volume::ONE_BITS,
                paused: false,
            },
            video: state,
            spec: AudioSpec { freq, channels: channels as u8, samples: DEVICE_BUFFER },
            window,
        }
    }
}

/// The smaller of two lengths.
pub open spec fn shorter(a: nat, b: nat) -> nat {
    if a <= b {
        a
    } else {
        b
    }
}

/// Silence.
pub open spec fn silence(len: nat) -> Seq<u32> {
    Seq::new(len, |i: int| crate::volume::ZERO_BITS)
}

/// [`AudioShared`] with the pending samples as a sequence.
pub struct AudioSharedView {
    pub ring: Seq<u32>,
    pub samples_played: u64,
    pub sample_rate: u32,
    pub channels: u16,
    pub volume: u32,
    pub paused: bool,
}

impl View for AudioShared {
    type V = AudioSharedView;

    open spec fn view(&self) -> AudioSharedView {
        AudioSharedView {
            ring: self.ring@,
            samples_played: self.samples_played,
            sample_rate: self.sample_rate,
            channels: self.channels,
            volume: self.volume,
            paused: self.paused,
        }
    }
}

/// A counter of the device moved on, wrapping at its end.
pub open spec fn advanced(played: u64, by: nat) -> u64 {
    ((played + by) % (u64::MAX + 1)) as u64
}

impl AudioSharedView {
    /// How many pending samples a callback takes that asks for `len`: none
    /// while paused, otherwise as many as there are.
    pub open spec fn taken(self, len: nat) -> nat {
        if self.paused {
            0
        } else {
            shorter(len, self.ring.len())
        }
    }

    /// What the device is given: the oldest pending samples in order, then
    /// silence.
    pub open spec fn given(self, len: nat) -> Seq<u32> {
        self.ring.take(self.taken(len) as int) + silence((len - self.taken(len)) as nat)
    }

    /// What a callback leaves: the samples it took are gone, and the clock
    /// has moved by the whole frames among them.
    pub open spec fn after_callback(self, len: nat) -> AudioSharedView {
        AudioSharedView {
            ring: self.ring.skip(self.taken(len) as int),
            samples_played: advanced(
                self.samples_played,
                self.taken(len) / crate::audio_convert::at_least_one(self.channels),
            ),
            ..self
        }
    }

    /// Whole frames that wait.
    pub open spec fn queue_frames(self) -> nat {
        self.ring.len() / crate::audio_convert::at_least_one(self.channels)
    }

    /// What queueing leaves: the new samples wait behind the others.
    pub open spec fn after_queue(self, samples: Seq<u32>) -> AudioSharedView {
        AudioSharedView { ring: self.ring + samples, ..self }
    }
}

impl AudioShared {
    /// Fills the device's buffer. The oldest pending samples come first, in
    /// order and not yet scaled by the volume; where they run out, and
    /// throughout while paused, there is silence. Returns how many samples
    /// were pending ones.
    pub fn callback(&mut self, out: &mut [u32]) -> (produced: usize)
        ensures
            produced == old(self)@.taken(old(out)@.len()),
            final(out)@ == old(self)@.given(old(out)@.len()),
            final(self)@ == old(self)@.after_callback(old(out)@.len()),
    {
        let ghost before = self.ring@;
        let ghost asked = out@.len();
        let n: usize = out.len();
        let take: usize = if self.paused {
            0
        } else if n <= self.ring.len() {
            n
        } else {
            self.ring.len()
        };
        let mut i: usize = 0;
        while i < n
            invariant
                i <= n,
                n == out@.len(),
                n == asked,
                take <= n,
                take <= before.len(),
                self.ring@ =~= before.skip(if i <= take {
                    i as int
                } else {
                    take as int
                }),
                forall|k: int| 0 <= k < i && k < take ==> out@[k] == before[k],
                forall|k: int| take <= k < i ==> out@[k] == crate::volume::ZERO_BITS,
                self.samples_played == old(self).samples_played,
                self.sample_rate == old(self).sample_rate,
                self.channels == old(self).channels,
                self.volume == old(self).volume,
                self.paused == old(self).paused,
            decreases n - i,
        {
            out[i] = crate::volume::ZERO_BITS;
            if i < take {
                if let Some(v) = self.ring.pop_front() {
                    out[i] = v;
                }
            }
            i = i + 1;
        }
        let ch: u64 = if self.channels == 0 {
            1
        } else {
            self.channels as u64
        };
        self.samples_played = self.samples_played.wrapping_add(take as u64 / ch);
        assert(out@ =~= before.take(take as int) + silence((asked - take) as nat));
        take
    }

    /// Rearranges a frame for the output channels; `None` for an empty one.
    pub fn mix(&self, frame: &AudioFrame) -> (mix: Option<Mixdown>)
        requires
            frame.samples > 0 ==> crate::audio_convert::holds_all(frame, self.channels),
        ensures
            mix is None <==> frame.samples == 0,
            mix matches Some(m) ==> {
                &&& m.samples@ == crate::audio_convert::interleaved(frame, self.channels)
                &&& m.group == crate::audio_convert::mean_of(
                    crate::audio_convert::at_least_one(frame.channels),
                    crate::audio_convert::at_least_one(self.channels),
                )
            },
    {
        if frame.samples == 0 {
            return None;
        }
        Some(crate::audio_convert::to_interleaved(frame, self.channels))
    }

    /// Adapts mixed samples to the output rate: as they are where the rates
    /// agree, by linear interpolation otherwise.
    pub fn pace(&self, frame_rate: u32, samples: Vec<u32>) -> (paced: Paced)
        requires
            frame_rate != self.sample_rate ==> crate::audio_convert::resample_fits(
                samples@.len(),
                frame_rate,
                self.sample_rate,
                self.channels as nat,
            ),
        ensures
            match paced {
                Paced::Ready(ready) => frame_rate == self.sample_rate && ready@ == samples@,
                Paced::Blended { blends, src_rate, dst_rate } => {
                    &&& frame_rate != self.sample_rate
                    &&& src_rate == frame_rate
                    &&& dst_rate == self.sample_rate
                    &&& blends@ == crate::audio_convert::resampled(
                        samples@,
                        frame_rate,
                        self.sample_rate,
                        self.channels as nat,
                    )
                },
            },
    {
        if frame_rate == self.sample_rate {
            Paced::Ready(samples)
        } else {
            let blends = crate::audio_convert::resample_linear(
                &samples,
                frame_rate,
                self.sample_rate,
                self.channels as usize,
            );
            Paced::Blended { blends, src_rate: frame_rate, dst_rate: self.sample_rate }
        }
    }

    /// Queues samples behind those already pending.
    pub fn queue_audio(&mut self, samples: &Vec<u32>)
        ensures
            final(self)@ == old(self)@.after_queue(samples@),
    {
        let ghost before = self.ring@;
        let mut i: usize = 0;
        while i < samples.len()
            invariant
                i <= samples.len(),
                self.ring@ =~= before + samples@.take(i as int),
                self.samples_played == old(self).samples_played,
                self.sample_rate == old(self).sample_rate,
                self.channels == old(self).channels,
                self.volume == old(self).volume,
                self.paused == old(self).paused,
            decreases samples.len() - i,
        {
            self.ring.push_back(samples[i]);
            i = i + 1;
        }
        assert(samples@.take(samples@.len() as int) =~= samples@);
    }

    /// How long the samples that the device took last.
    pub fn master_clock_pos(&self) -> (pos: TimeSpan)
        ensures
            pos.secs == crate::clock::clock_secs(self.samples_played, self.sample_rate),
            pos.nanos == crate::clock::clock_nanos(self.samples_played, self.sample_rate),
    {
        crate::clock::clock_position(self.samples_played, self.sample_rate)
    }

    /// Pauses or resumes, and says what to tell the device.
    pub fn set_paused(&mut self, paused: bool) -> (cmd: DeviceCmd)
        ensures
            final(self)@ == (AudioSharedView { paused, ..old(self)@ }),
            cmd == (if paused {
                DeviceCmd::Pause
            } else {
                DeviceCmd::Resume
            }),
    {
        self.paused = paused;
        if paused {
            DeviceCmd::Pause
        } else {
            DeviceCmd::Resume
        }
    }

    /// Sets the volume, limited to the range from zero to one.
    pub fn set_volume(&mut self, volume: u32)
        ensures
            final(self)@ == (AudioSharedView {
                volume: crate::volume::clamped(volume),
                ..old(self)@
            }),
    {
        self.volume = crate::volume::clamp_volume(volume);
    }

    /// Whole frames still pending.
    pub fn audio_queue_len_samples(&self) -> (len: u64)
        ensures
            len == self@.queue_frames(),
    {
        let ch: u64 = if self.channels == 0 {
            1
        } else {
            self.channels as u64
        };
        self.ring.len() as u64 / ch
    }
}

impl VideoState {
    /// Whether a picture of this size needs a texture of its own.
    pub open spec fn needs_texture(self, width: u32, height: u32) -> bool {
        self.texture != Some((width, height))
    }

    /// Notes that a texture of this size was built.
    pub fn texture_created(&mut self, width: u32, height: u32)
        ensures
            final(self).texture == Some((width, height)),
    {
        self.texture = Some((width, height));
    }
}

/// Whether there is a window and a picture to show in it.
pub open spec fn is_shown(video: Option<VideoState>, frame: &VideoFrame) -> bool {
    video is Some && frame.width > 0 && frame.height > 0
}

/// Whether a picture of this size would be shown, which decides what
/// [`present_video`] asks for.
pub fn wants_picture(video: &Option<VideoState>, width: u32, height: u32) -> (wanted: bool)
    ensures
        wanted == (video is Some && width > 0 && height > 0),
{
    video.is_some() && width > 0 && height > 0
}

/// Decides what to do with a frame. Without a window, or for an empty
/// picture, nothing is done; otherwise the picture is shown, through a new
/// texture if there is none of its size.
pub fn present_video(video: &Option<VideoState>, frame: &VideoFrame) -> (present: Present)
    requires
        is_shown(*video, frame) ==> frame.convertible(),
    ensures
        match present {
            Present::Skip => !is_shown(*video, frame),
            Present::Draw(d) => {
                &&& is_shown(*video, frame)
                &&& d.new_texture == (if video.unwrap().needs_texture(frame.width, frame.height) {
                    Some(TextureFormat::Iyuv)
                } else {
                    None
                })
                &&& d.picture.y@ == frame.luma()
                &&& d.picture.u@ == frame.chroma(1)
                &&& d.picture.v@ == frame.chroma(2)
                &&& d.y_pitch == frame.width
                &&& d.uv_pitch == frame.width / 2
            },
        },
{
    let w = frame.width;
    let h = frame.height;
    if !wants_picture(video, w, h) {
        return Present::Skip;
    }
    let state = match video {
        Some(state) => state,
        None => {
            return Present::Skip;
        },
    };
    let need_new = match state.texture {
        Some((tw, th)) => tw != w || th != h,
        None => true,
    };
    let new_texture = if need_new {
        Some(crate::video_convert::sdl_pixel_format(frame.format))
    } else {
        None
    };
    let picture = crate::video_convert::to_yuv420p(frame);
    Present::Draw(
        Drawing { new_texture, picture, y_pitch: w as usize, uv_pitch: (w / 2) as usize },
    )
}

/// A texture is built only when the picture's size changes: after one was
/// built, pictures of its size use it, and only those.
pub proof fn law_texture_follows_the_size(built: (u32, u32), width: u32, height: u32)
    ensures
        (VideoState { texture: Some(built) }).needs_texture(width, height) <==> built != (
            width,
            height,
        ),
        (VideoState { texture: None }).needs_texture(width, height),
{
}

} // verus!
