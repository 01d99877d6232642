//! What holds of every run of an audio output, however queueing, the
//! device's callbacks and the controls follow each other.

use crate::audio_out::AudioOutView;
use crate::frame::AudioFrame;
use crate::sdl2_driver::AudioSharedView;
use vstd::prelude::*;

verus! {

/// One operation on an audio output.
pub enum AudioOp {
    /// Samples are queued.
    Queue(Seq<u32>),
    /// The device asks for this many samples.
    Callback(nat),
    SetPaused(bool),
    SetVolume(u32),
}

// Window output: nothing is ever dropped, and pausing stops the callback.

/// The state after one operation.
pub open spec fn shared_step(s: AudioSharedView, op: AudioOp) -> AudioSharedView {
    match op {
        AudioOp::Queue(samples) => s.after_queue(samples),
        AudioOp::Callback(len) => s.after_callback(len),
        AudioOp::SetPaused(paused) => AudioSharedView { paused, ..s },
        AudioOp::SetVolume(volume) => AudioSharedView {
            volume: crate::volume::clamped(volume),
            ..s
        },
    }
}

/// The state after the first `k` operations.
pub open spec fn shared_after(s: AudioSharedView, ops: Seq<AudioOp>, k: nat) -> AudioSharedView
    decreases k,
{
    if k == 0 {
        s
    } else {
        shared_step(shared_after(s, ops, (k - 1) as nat), ops[k - 1])
    }
}

/// The samples that were queued by the first `k` operations, in order.
pub open spec fn shared_queued(s: AudioSharedView, ops: Seq<AudioOp>, k: nat) -> Seq<u32>
    decreases k,
{
    if k == 0 {
        Seq::empty()
    } else {
        let before = shared_queued(s, ops, (k - 1) as nat);
        match ops[k - 1] {
            AudioOp::Queue(samples) => before + samples,
            _ => before,
        }
    }
}

/// The samples, apart from silence, that the device was given by the first
/// `k` operations, in order.
pub open spec fn shared_played(s: AudioSharedView, ops: Seq<AudioOp>, k: nat) -> Seq<u32>
    decreases k,
{
    if k == 0 {
        Seq::empty()
    } else {
        let before = shared_played(s, ops, (k - 1) as nat);
        let state = shared_after(s, ops, (k - 1) as nat);
        match ops[k - 1] {
            AudioOp::Callback(len) => before + state.given(len).take(state.taken(len) as int),
            _ => before,
        }
    }
}

/// The device plays exactly what was queued, in order and without loss: what
/// it was given, followed by what still waits, is what waited at first,
/// followed by what was queued.
pub proof fn law_window_plays_what_was_queued(s: AudioSharedView, ops: Seq<AudioOp>, k: nat)
    requires
        k <= ops.len(),
    ensures
        shared_played(s, ops, k) + shared_after(s, ops, k).ring == s.ring + shared_queued(
            s,
            ops,
            k,
        ),
    decreases k,
{
    if k > 0 {
        law_window_plays_what_was_queued(s, ops, (k - 1) as nat);
        let state = shared_after(s, ops, (k - 1) as nat);
        let before = shared_played(s, ops, (k - 1) as nat);
        match ops[k - 1] {
            AudioOp::Queue(samples) => {
                assert(before + (state.ring + samples) =~= (before + state.ring) + samples);
                assert(s.ring + (shared_queued(s, ops, (k - 1) as nat) + samples) =~= (s.ring
                    + shared_queued(s, ops, (k - 1) as nat)) + samples);
            },
            AudioOp::Callback(len) => {
                let n = state.taken(len) as int;
                assert(state.given(len).take(n) =~= state.ring.take(n));
                assert((before + state.ring.take(n)) + state.ring.skip(n) =~= before + state.ring);
            },
            _ => {},
        }
    }
}

proof fn lemma_shared_format_is_fixed(s: AudioSharedView, ops: Seq<AudioOp>, k: nat)
    requires
        k <= ops.len(),
    ensures
        shared_after(s, ops, k).channels == s.channels,
        shared_after(s, ops, k).sample_rate == s.sample_rate,
    decreases k,
{
    if k > 0 {
        lemma_shared_format_is_fixed(s, ops, (k - 1) as nat);
    }
}

/// The clock counts the samples per channel that the device played: never
/// more, as long as the counter has not wrapped.
pub proof fn law_window_clock_is_not_ahead(s: AudioSharedView, ops: Seq<AudioOp>, k: nat)
    requires
        k <= ops.len(),
        s.samples_played + shared_played(s, ops, k).len() <= u64::MAX,
    ensures
        ({
            let ch = crate::audio_convert::at_least_one(s.channels);
            let state = shared_after(s, ops, k);
            &&& s.samples_played <= state.samples_played
            &&& (state.samples_played - s.samples_played) * ch <= shared_played(s, ops, k).len()
        }),
    decreases k,
{
    let ch = crate::audio_convert::at_least_one(s.channels) as int;
    if k > 0 {
        let state = shared_after(s, ops, (k - 1) as nat);
        let before = shared_played(s, ops, (k - 1) as nat);
        law_window_clock_is_not_ahead(s, ops, (k - 1) as nat);
        lemma_shared_format_is_fixed(s, ops, (k - 1) as nat);
        if let AudioOp::Callback(len) = ops[k - 1] {
            lemma_frames_counted(
                s.samples_played,
                state.samples_played,
                before.len(),
                state.taken(len),
                ch as nat,
            );
        }
    } else {
        assert(0 * ch == 0);
    }
}

/// Counting the whole frames of `n` more samples keeps a count that is not
/// ahead of the samples from getting ahead.
proof fn lemma_frames_counted(start: u64, now: u64, played: nat, n: nat, ch: nat)
    requires
        ch >= 1,
        start <= now,
        (now - start) * ch <= played,
        start + played + n <= u64::MAX,
    ensures
        crate::sdl2_driver::advanced(now, n / ch) == now + n / ch,
        (now + n / ch - start) * ch <= played + n,
        n % ch == 0 && (now - start) * ch == played ==> (now + n / ch - start) * ch == played + n,
{
    let q = n as int / ch as int;
    vstd::arithmetic::div_mod::lemma_fundamental_div_mod(n as int, ch as int);
    let d = now - start;
    assert(d <= d * ch) by (nonlinear_arith)
        requires
            d >= 0,
            ch >= 1,
    ;
    assert(q <= ch * q) by (nonlinear_arith)
        requires
            q >= 0,
            ch >= 1,
    ;
    assert((d + q) * ch == d * ch + ch * q) by (nonlinear_arith);
}

/// Whether an operation moves whole frames of `ch` samples only.
pub open spec fn whole_frames(op: AudioOp, ch: nat) -> bool {
    match op {
        AudioOp::Queue(samples) => samples.len() % ch == 0,
        AudioOp::Callback(len) => len % ch == 0,
        _ => true,
    }
}

/// Where only whole frames are queued and asked for, the clock is exact: it
/// counts every frame that was played.
pub proof fn law_window_clock_is_exact(s: AudioSharedView, ops: Seq<AudioOp>, k: nat)
    requires
        k <= ops.len(),
        s.samples_played + shared_played(s, ops, k).len() <= u64::MAX,
        s.ring.len() % crate::audio_convert::at_least_one(s.channels) == 0,
        forall|i: int|
            0 <= i < ops.len() ==> #[trigger] whole_frames(
                ops[i],
                crate::audio_convert::at_least_one(s.channels),
            ),
    ensures
        ({
            let ch = crate::audio_convert::at_least_one(s.channels);
            let state = shared_after(s, ops, k);
            &&& state.ring.len() % ch == 0
            &&& (state.samples_played - s.samples_played) * ch == shared_played(s, ops, k).len()
        }),
    decreases k,
{
    let ch = crate::audio_convert::at_least_one(s.channels);
    if k > 0 {
        let state = shared_after(s, ops, (k - 1) as nat);
        let before = shared_played(s, ops, (k - 1) as nat);
        law_window_clock_is_exact(s, ops, (k - 1) as nat);
        law_window_clock_is_not_ahead(s, ops, (k - 1) as nat);
        lemma_shared_format_is_fixed(s, ops, (k - 1) as nat);
        assert(whole_frames(ops[k - 1], ch));
        match ops[k - 1] {
            AudioOp::Queue(samples) => {
                lemma_multiples(state.ring.len() as int, samples.len() as int, ch as int);
            },
            AudioOp::Callback(len) => {
                lemma_multiples(0, 0, ch as int);
                let n = state.taken(len);
                assert(n % ch == 0);
                lemma_multiples(state.ring.len() as int, n as int, ch as int);
                lemma_frames_counted(s.samples_played, state.samples_played, before.len(), n, ch);
            },
            _ => {},
        }
    } else {
        assert(0 * ch == 0);
    }
}

proof fn lemma_multiples(a: int, b: int, ch: int)
    requires
        ch >= 1,
        a % ch == 0,
        b % ch == 0,
    ensures
        (a + b) % ch == 0,
        (a - b) % ch == 0,
        0int % ch == 0,
{
    vstd::arithmetic::div_mod::lemma_fundamental_div_mod(a, ch);
    vstd::arithmetic::div_mod::lemma_fundamental_div_mod(b, ch);
    let p = a / ch;
    let q = b / ch;
    assert(a + b == (p + q) * ch + 0) by (nonlinear_arith)
        requires
            a == ch * p,
            b == ch * q,
    ;
    assert(a - b == (p - q) * ch + 0) by (nonlinear_arith)
        requires
            a == ch * p,
            b == ch * q,
    ;
    assert(0 == 0 * ch + 0);
    vstd::arithmetic::div_mod::lemma_fundamental_div_mod_converse(a + b, ch, p + q, 0);
    vstd::arithmetic::div_mod::lemma_fundamental_div_mod_converse(a - b, ch, p - q, 0);
    vstd::arithmetic::div_mod::lemma_fundamental_div_mod_converse(0, ch, 0, 0);
}

/// While paused the device is given only silence, nothing pending is lost
/// and the clock stands still.
pub proof fn law_pause_is_silent_and_loses_nothing(s: AudioSharedView, len: nat)
    requires
        s.paused,
    ensures
        s.given(len) == crate::sdl2_driver::silence(len),
        s.after_callback(len) == s,
{
    let ch = crate::audio_convert::at_least_one(s.channels);
    assert(s.given(len) =~= crate::sdl2_driver::silence(len));
    assert(s.ring.skip(0) =~= s.ring);
    assert(0nat / ch == 0) by (nonlinear_arith)
        requires
            ch >= 1,
    ;
}

/// A driver starts at mono or stereo, and no operation changes that.
pub proof fn law_window_channels_stay_mono_or_stereo(
    s: AudioSharedView,
    audio_channels: u16,
    ops: Seq<AudioOp>,
    k: nat,
)
    requires
        s.channels == crate::sdl2_driver::one_or_two(audio_channels),
        k <= ops.len(),
    ensures
        1 <= shared_after(s, ops, k).channels <= 2,
{
    lemma_shared_format_is_fixed(s, ops, k);
}

/// How many frames a frame of `samples` samples per channel becomes at the
/// output rate: as many where the rates agree, none at a rate of zero, and
/// otherwise as many as last as long, rounded down.
pub open spec fn frames_at_rate(samples: u32, from: u32, to: u32) -> nat {
    if from == to {
        samples as nat
    } else if from == 0 {
        0
    } else {
        crate::audio_convert::resampled_frames(samples as nat, from, to)
    }
}

/// What a frame of audio becomes on its way to the queue: `means` has one
/// sample for each group of the mixed frame, `queued` one for each of those
/// or, where the rate changes, one for each blend of them.
pub open spec fn prepared(
    frame: &AudioFrame,
    channels: u16,
    from: u32,
    to: u32,
    means: Seq<u32>,
    queued: Seq<u32>,
) -> bool {
    &&& means.len() * crate::audio_convert::mean_of(
        crate::audio_convert::at_least_one(frame.channels),
        crate::audio_convert::at_least_one(channels),
    ) == crate::audio_convert::interleaved(frame, channels).len()
    &&& if from == to {
        queued.len() == means.len()
    } else {
        queued.len() == crate::audio_convert::resampled(means, from, to, channels as nat).len()
    }
}

proof fn lemma_prepared_frames(
    frame: &AudioFrame,
    channels: u16,
    from: u32,
    to: u32,
    means: Seq<u32>,
    queued: Seq<u32>,
)
    requires
        channels > 0,
        prepared(frame, channels, from, to, means, queued),
    ensures
        queued.len() == frames_at_rate(frame.samples, from, to) * channels,
{
    let n = frame.samples as int;
    let ch = channels as int;
    let group = crate::audio_convert::mean_of(
        crate::audio_convert::at_least_one(frame.channels),
        crate::audio_convert::at_least_one(channels),
    ) as int;
    crate::audio_convert::law_output_keeps_the_frame_count(frame, channels);
    let m = means.len() as int;
    assert(m == n * ch) by (nonlinear_arith)
        requires
            m * group == n * ch * group,
            group >= 1,
    ;
    vstd::arithmetic::div_mod::lemma_fundamental_div_mod_converse(m, ch, n, 0);
    if from != to {
        if n == 0 {
            assert(0 * ch == 0 && 0 * to == 0);
        } else {
            assert(m > 0) by (nonlinear_arith)
                requires
                    m == n * ch,
                    n > 0,
                    ch > 0,
            ;
        }
        assert(n * 0 == 0);
        if from > 0 && (n == 0 || to == 0) {
            vstd::arithmetic::div_mod::lemma_fundamental_div_mod_converse(0, from as int, 0, 0);
        }
    }
}

proof fn lemma_frames_add(a: int, d: int, ch: int)
    requires
        ch > 0,
    ensures
        (a + d * ch) / ch == a / ch + d,
{
    vstd::arithmetic::div_mod::lemma_fundamental_div_mod(a, ch);
    let q = a / ch;
    let r = a % ch;
    assert(a + d * ch == (q + d) * ch + r) by (nonlinear_arith)
        requires
            a == ch * q + r,
    ;
    vstd::arithmetic::div_mod::lemma_fundamental_div_mod_converse(a + d * ch, ch, q + d, r);
}

/// Queueing a frame lengthens the queue by the frame's samples per channel
/// at the output rate.
pub proof fn law_queueing_lengthens_the_queue(
    s: AudioSharedView,
    frame: &AudioFrame,
    means: Seq<u32>,
    queued: Seq<u32>,
)
    requires
        s.channels > 0,
        prepared(frame, s.channels, frame.sample_rate, s.sample_rate, means, queued),
    ensures
        s.after_queue(queued).queue_frames() == s.queue_frames() + frames_at_rate(
            frame.samples,
            frame.sample_rate,
            s.sample_rate,
        ),
{
    lemma_prepared_frames(frame, s.channels, frame.sample_rate, s.sample_rate, means, queued);
    lemma_frames_add(
        s.ring.len() as int,
        frames_at_rate(frame.samples, frame.sample_rate, s.sample_rate) as int,
        s.channels as int,
    );
}

// System output: the ring is bounded and drops what it has no room for.

/// The state after one operation.
pub open spec fn out_step(s: AudioOutView, op: AudioOp) -> AudioOutView {
    match op {
        AudioOp::Queue(samples) => s.after_queue(samples),
        AudioOp::Callback(len) => s.after_callback(len),
        AudioOp::SetPaused(paused) => AudioOutView { paused, ..s },
        AudioOp::SetVolume(volume) => AudioOutView { volume: crate::volume::clamped(volume), ..s },
    }
}

/// The state after the first `k` operations.
pub open spec fn out_after(s: AudioOutView, ops: Seq<AudioOp>, k: nat) -> AudioOutView
    decreases k,
{
    if k == 0 {
        s
    } else {
        out_step(out_after(s, ops, (k - 1) as nat), ops[k - 1])
    }
}

/// The samples that the ring accepted in the first `k` operations, in order.
pub open spec fn out_accepted(s: AudioOutView, ops: Seq<AudioOp>, k: nat) -> Seq<u32>
    decreases k,
{
    if k == 0 {
        Seq::empty()
    } else {
        let before = out_accepted(s, ops, (k - 1) as nat);
        let state = out_after(s, ops, (k - 1) as nat);
        match ops[k - 1] {
            AudioOp::Queue(samples) => before + state.accepts(samples),
            _ => before,
        }
    }
}

/// The samples, apart from silence, that the device was given by the first
/// `k` operations, in order.
pub open spec fn out_played(s: AudioOutView, ops: Seq<AudioOp>, k: nat) -> Seq<u32>
    decreases k,
{
    if k == 0 {
        Seq::empty()
    } else {
        let before = out_played(s, ops, (k - 1) as nat);
        let state = out_after(s, ops, (k - 1) as nat);
        match ops[k - 1] {
            AudioOp::Callback(len) => before + state.given(len).take(state.taken(len) as int),
            _ => before,
        }
    }
}

/// The ring never holds more than it can, sound is mixed to mono or stereo,
/// and neither the ring's size nor the stream's format changes.
pub proof fn law_ring_stays_within_its_capacity(s: AudioOutView, ops: Seq<AudioOp>, k: nat)
    requires
        s.wf(),
        k <= ops.len(),
    ensures
        out_after(s, ops, k).wf(),
        out_after(s, ops, k).capacity == s.capacity,
        1 <= out_after(s, ops, k).device_channels <= 2,
        out_after(s, ops, k).device_channels == s.device_channels,
        out_after(s, ops, k).granted_channels == s.granted_channels,
        out_after(s, ops, k).device_rate == s.device_rate,
        out_after(s, ops, k).resample_from == s.resample_from,
    decreases k,
{
    if k > 0 {
        law_ring_stays_within_its_capacity(s, ops, (k - 1) as nat);
    }
}

/// The device plays exactly what the ring accepted, in order: what it was
/// given, followed by what still waits, is what waited at first, followed by
/// what was accepted.
pub proof fn law_device_plays_what_was_accepted(s: AudioOutView, ops: Seq<AudioOp>, k: nat)
    requires
        s.wf(),
        k <= ops.len(),
    ensures
        out_played(s, ops, k) + out_after(s, ops, k).ring == s.ring + out_accepted(s, ops, k),
    decreases k,
{
    if k > 0 {
        law_device_plays_what_was_accepted(s, ops, (k - 1) as nat);
        law_ring_stays_within_its_capacity(s, ops, (k - 1) as nat);
        let state = out_after(s, ops, (k - 1) as nat);
        let before = out_played(s, ops, (k - 1) as nat);
        match ops[k - 1] {
            AudioOp::Queue(samples) => {
                let new = state.accepts(samples);
                assert(before + (state.ring + new) =~= (before + state.ring) + new);
                assert(s.ring + (out_accepted(s, ops, (k - 1) as nat) + new) =~= (s.ring
                    + out_accepted(s, ops, (k - 1) as nat)) + new);
            },
            AudioOp::Callback(len) => {
                let n = state.taken(len) as int;
                assert(state.given(len).take(n) =~= state.ring.take(n));
                assert((before + state.ring.take(n)) + state.ring.skip(n) =~= before + state.ring);
            },
            _ => {},
        }
    }
}

/// Nothing is dropped while there is room, and what is dropped is the end of
/// what was to be queued, never what already waits.
pub proof fn law_only_overflow_is_dropped(s: AudioOutView, samples: Seq<u32>)
    requires
        s.wf(),
    ensures
        ({
            let laid = crate::audio_out::laid_out(samples, s.granted_channels);
            let after = s.after_queue(samples).ring;
            &&& s.ring.len() + laid.len() <= s.capacity ==> after == s.ring + laid
            &&& s.ring.len() + laid.len() > s.capacity ==> after.len() == s.capacity
            &&& after.is_prefix_of(s.ring + laid)
            &&& s.ring.is_prefix_of(after)
        }),
{
    let laid = crate::audio_out::laid_out(samples, s.granted_channels);
    assert(laid.take(laid.len() as int) =~= laid);
    let n = s.accepted(laid.len()) as int;
    assert(s.ring + laid.take(n) =~= (s.ring + laid).subrange(0, s.ring.len() + n));
    assert(s.ring =~= (s.ring + laid.take(n)).subrange(0, s.ring.len() as int));
}

/// A device with more than two channels gets every frame, in order and at
/// its own width: the left channel first, the right one on all the others.
/// Any other device gets the sound as it is.
pub proof fn law_wide_devices_get_every_frame(samples: Seq<u32>, granted: u16, i: int, c: int)
    requires
        0 <= i < samples.len() / 2,
        0 <= c < granted,
    ensures
        granted <= 2 ==> crate::audio_out::laid_out(samples, granted) == samples,
        granted > 2 ==> {
            let laid = crate::audio_out::laid_out(samples, granted);
            &&& laid.len() == (samples.len() / 2) * granted
            &&& 0 <= i * granted + c < laid.len()
            &&& laid[i * granted + c] == samples[i * 2 + (if c == 0 {
                0int
            } else {
                1int
            })]
        },
{
    let g = granted as int;
    let frames = samples.len() as int / 2;
    if granted > 2 {
        vstd::arithmetic::div_mod::lemma_fundamental_div_mod_converse(i * g + c, g, i, c);
        assert(0 <= i * g + c < frames * g) by (nonlinear_arith)
            requires
                0 <= i,
                i + 1 <= frames,
                0 <= c < g,
        ;
    }
}

/// The clock counts the samples per channel that the device played: never
/// more, as long as the counter has not wrapped.
pub proof fn law_device_clock_is_not_ahead(s: AudioOutView, ops: Seq<AudioOp>, k: nat)
    requires
        s.wf(),
        k <= ops.len(),
        s.samples_played + out_played(s, ops, k).len() <= u64::MAX,
    ensures
        ({
            let ch = crate::audio_convert::at_least_one(s.granted_channels);
            let state = out_after(s, ops, k);
            &&& s.samples_played <= state.samples_played
            &&& (state.samples_played - s.samples_played) * ch <= out_played(s, ops, k).len()
        }),
    decreases k,
{
    let ch = crate::audio_convert::at_least_one(s.granted_channels);
    if k > 0 {
        let state = out_after(s, ops, (k - 1) as nat);
        let before = out_played(s, ops, (k - 1) as nat);
        law_device_clock_is_not_ahead(s, ops, (k - 1) as nat);
        law_ring_stays_within_its_capacity(s, ops, (k - 1) as nat);
        if let AudioOp::Callback(len) = ops[k - 1] {
            lemma_frames_counted(
                s.samples_played,
                state.samples_played,
                before.len(),
                state.taken(len),
                ch,
            );
        }
    } else {
        assert(0 * ch == 0);
    }
}

/// Whether an operation moves only whole frames of the device into the ring
/// and out of it.
pub open spec fn moves_whole_frames(s: AudioOutView, op: AudioOp) -> bool {
    let ch = crate::audio_convert::at_least_one(s.granted_channels);
    match op {
        AudioOp::Queue(samples) => s.accepts(samples).len() % ch == 0,
        AudioOp::Callback(len) => len % ch == 0,
        _ => true,
    }
}

/// Where only whole frames are accepted and asked for, the clock is exact,
/// whatever channels the device granted: it counts every frame that was
/// played.
pub proof fn law_device_clock_is_exact(s: AudioOutView, ops: Seq<AudioOp>, k: nat)
    requires
        s.wf(),
        k <= ops.len(),
        s.samples_played + out_played(s, ops, k).len() <= u64::MAX,
        s.ring.len() % crate::audio_convert::at_least_one(s.granted_channels) == 0,
        forall|i: nat|
            i < k ==> moves_whole_frames(#[trigger] out_after(s, ops, i), ops[i as int]),
    ensures
        ({
            let ch = crate::audio_convert::at_least_one(s.granted_channels);
            let state = out_after(s, ops, k);
            &&& state.ring.len() % ch == 0
            &&& (state.samples_played - s.samples_played) * ch == out_played(s, ops, k).len()
        }),
    decreases k,
{
    let ch = crate::audio_convert::at_least_one(s.granted_channels);
    if k > 0 {
        let state = out_after(s, ops, (k - 1) as nat);
        let before = out_played(s, ops, (k - 1) as nat);
        law_device_clock_is_exact(s, ops, (k - 1) as nat);
        law_device_clock_is_not_ahead(s, ops, (k - 1) as nat);
        law_ring_stays_within_its_capacity(s, ops, (k - 1) as nat);
        assert(moves_whole_frames(state, ops[k - 1]));
        match ops[k - 1] {
            AudioOp::Queue(samples) => {
                lemma_multiples(
                    state.ring.len() as int,
                    state.accepts(samples).len() as int,
                    ch as int,
                );
            },
            AudioOp::Callback(len) => {
                let n = state.taken(len);
                assert(n % ch == 0);
                lemma_multiples(state.ring.len() as int, n as int, ch as int);
                lemma_frames_counted(s.samples_played, state.samples_played, before.len(), n, ch);
            },
            _ => {},
        }
    } else {
        assert(0 * ch == 0);
    }
}

/// A ring that holds whole frames, and has room for a whole number of them,
/// accepts only whole frames of whole frames queued.
pub proof fn law_whole_frames_stay_whole(s: AudioOutView, samples: Seq<u32>)
    requires
        s.wf(),
        s.capacity % crate::audio_convert::at_least_one(s.granted_channels) == 0,
        s.ring.len() % crate::audio_convert::at_least_one(s.granted_channels) == 0,
        samples.len() % s.device_channels as nat == 0,
    ensures
        moves_whole_frames(s, AudioOp::Queue(samples)),
{
    let ch = crate::audio_convert::at_least_one(s.granted_channels) as int;
    let laid = crate::audio_out::laid_out(samples, s.granted_channels);
    lemma_multiples(s.capacity as int, s.ring.len() as int, ch);
    if s.granted_channels > 2 {
        let frames = samples.len() as int / 2;
        vstd::arithmetic::div_mod::lemma_fundamental_div_mod_converse(frames * ch, ch, frames, 0);
    }
    assert(laid.len() as int % ch == 0);
}

/// A new stream is well formed, and its ring holds whole frames both of mono
/// and of stereo, whichever was asked for.
pub proof fn law_new_stream_holds_whole_frames(sample_rate: u32, channels: u16)
    ensures
        AudioOutView::requested(sample_rate, channels).wf(),
        1 <= AudioOutView::requested(sample_rate, channels).requested_channels <= 2,
        AudioOutView::requested(sample_rate, channels).capacity % 2 == 0,
{
}

/// Whatever channels the device grants, sound is mixed to mono or stereo.
pub proof fn law_granted_stream_mixes_to_mono_or_stereo(
    s: AudioOutView,
    rate: u32,
    channels: u16,
)
    ensures
        1 <= s.granted(rate, channels).device_channels <= 2,
        s.wf() ==> s.granted(rate, channels).wf(),
{
}

/// A stream resamples exactly where the device granted another rate than the
/// decoder's.
pub proof fn law_resampling_follows_the_granted_rate(s: AudioOutView, rate: u32, channels: u16)
    ensures
        s.granted(rate, channels).resample_from is Some <==> rate != s.requested_rate,
        s.granted(rate, channels).resample_from matches Some(from) ==> from == s.requested_rate,
{
}

/// Where there is room, queueing a frame lengthens the queue by the frame's
/// samples per channel at the device's rate, whatever channels the device
/// granted.
pub proof fn law_queueing_lengthens_the_stream(
    s: AudioOutView,
    frame: &AudioFrame,
    from: u32,
    means: Seq<u32>,
    queued: Seq<u32>,
)
    requires
        s.wf(),
        s.resample_from == (if from != s.device_rate {
            Some(from)
        } else {
            None
        }),
        prepared(frame, s.device_channels, from, s.device_rate, means, queued),
        s.ring.len() + crate::audio_out::laid_out(queued, s.granted_channels).len() <= s.capacity,
    ensures
        s.after_queue(queued).queue_frames() == s.queue_frames() + frames_at_rate(
            frame.samples,
            from,
            s.device_rate,
        ),
{
    let d = frames_at_rate(frame.samples, from, s.device_rate) as int;
    let laid = crate::audio_out::laid_out(queued, s.granted_channels);
    let ch = crate::audio_convert::at_least_one(s.granted_channels) as int;
    lemma_prepared_frames(frame, s.device_channels, from, s.device_rate, means, queued);
    assert(laid.take(laid.len() as int) =~= laid);
    assert(laid.len() == d * ch);
    lemma_frames_add(s.ring.len() as int, d, ch);
}

} // verus!
