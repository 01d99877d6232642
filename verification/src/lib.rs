//! The core of a media player: what sits between decoders and output
//! devices, and everything in it that can be decided or computed without
//! touching a device, a thread or a floating-point number.
//!
//! - [`decode_worker`] decides what the background decode thread does next.
//! - [`audio_convert`] and [`video_convert`] bring decoded frames into the
//!   form that the outputs take.
//! - [`sdl2_driver`] is the state of a windowed output, [`audio_out`] that of
//!   a bare audio stream; [`ring`] is the queue of the latter, [`clock`] the
//!   master clock and [`volume`] the volume of both.
//! - [`driver_select`] chooses the audio backend.
//! - [`events`] turns keys and window events into what the user asks for.
//!
//! Each function states in its contract exactly what it returns.
//! [`step_laws`], [`audio_laws`], [`video_laws`] and [`output_laws`] say what
//! a call does in plain terms of what went in and what came out;
//! [`worker_laws`], [`playback_laws`] and the proof functions beside the
//! definitions state what holds across functions and over whole runs.

pub mod audio_convert;
pub mod audio_laws;
pub mod audio_out;
pub mod clock;
pub mod decode_worker;
pub mod driver_select;
pub mod events;
pub mod frame;
pub mod output_laws;
pub mod playback_laws;
pub mod ring;
pub mod sdl2_driver;
pub mod step_laws;
pub mod video_convert;
pub mod video_laws;
pub mod volume;
pub mod worker_laws;
