# oxideplay core

The decision-making core of a media player, written in Rust and verified with
Verus: the decode worker's state machine, audio and video frame conversion,
the audio queues and the master clock, and the translation of user input.

- `src/` is the verified library. It does no I/O and no floating-point
  arithmetic; samples pass through it as bit patterns, and averaging,
  interpolation and volume scaling are handed to the caller together with the
  exact samples to use.
- `app/` drives it: the decode thread, the SDL2 window, the system audio
  stream, and the arithmetic on samples.
- `tests/` runs the library.

What is taken on trust is declared in two places: `src/ring.rs` states what
the `ringbuf` heap ring does, and `src/driver_select.rs` what `str::trim` and
the lookup of an audio backend by name do.

The audio callback and the player share one state behind a lock; every
operation on it is a single step of the model that the laws in
`src/playback_laws.rs` speak about.

## Keys

| Key | Action |
| --- | --- |
| `q`, `Esc` | Quit |
| `space` | Pause / resume |
| left / right | Seek 5 s back / forward |
| shift + left / right | Seek 30 s back / forward |
| up / down | Volume up / down by 5 % |
