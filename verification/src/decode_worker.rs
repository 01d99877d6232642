//! Background decode worker: the decisions.
//!
//! The worker owns the demuxer and the decoders and turns them into a
//! stream of [`DecodedUnit`] values for the main thread. Reading, decoding,
//! sleeping and talking to the channels is done by whoever drives it; what
//! to do next is decided here. [`WorkerCtx::step`] takes the [`Reply`] to
//! the last [`Request`] and returns the next request, until it asks to
//! exit.
//!
//! The worker does not handle timing: frames carry their own timestamps and
//! the main thread decides when to present them.
//!
//! Seeks flow through the command channel: main sends [`DecodeCmd::Seek`],
//! the worker performs it, resets its decoders and emits
//! [`DecodedUnit::Seeked`]. Main drops the audio and video units queued
//! before that marker.

use vstd::prelude::*;

verus! {

/// Commands sent from the main thread to the worker.
#[derive(Clone, Copy, Debug)]
pub enum DecodeCmd {
    /// Seek the demuxer on `stream_idx` to `pts`. The worker resets its
    /// decoders and emits [`DecodedUnit::Seeked`] once done.
    Seek { stream_idx: u32, pts: i64 },
    /// Stop decoding and exit.
    Shutdown,
}

/// One item the worker produces, over the frame types of its decoders.
#[derive(Debug)]
pub enum DecodedUnit<A, V> {
    Audio(A),
    Video(V),
    /// The worker completed a seek; carries the pts the demuxer landed on.
    Seeked(i64),
    /// The demuxer hit its end and the decoders are flushed.
    Eof,
    /// Unrecoverable error; the text says what failed. The worker is exiting.
    Error(String),
}

/// [`DecodedUnit`] with its text as a sequence of characters.
pub enum UnitView<A, V> {
    Audio(A),
    Video(V),
    Seeked(i64),
    Eof,
    Error(Seq<char>),
}

impl<A, V> View for DecodedUnit<A, V> {
    type V = UnitView<A, V>;

    open spec fn view(&self) -> UnitView<A, V> {
        match *self {
            DecodedUnit::Audio(a) => UnitView::Audio(a),
            DecodedUnit::Video(v) => UnitView::Video(v),
            DecodedUnit::Seeked(pts) => UnitView::Seeked(pts),
            DecodedUnit::Eof => UnitView::Eof,
            DecodedUnit::Error(e) => UnitView::Error(e@),
        }
    }
}

/// Bounded output-channel capacity. Small enough to keep decoded-frame
/// memory bounded.
pub const OUT_CAP: usize = 48;

/// How long the worker sleeps between looks at the command channel once the
/// demuxer is done.
pub const EOF_POLL_MILLIS: u64 = 5;

/// One of the two decoders.
#[derive(Clone, Copy, Debug, PartialEq, Eq, Structural)]
pub enum Track {
    Audio,
    Video,
}

/// What sort of failure a demuxer or a decoder reports.
#[derive(Clone, Copy, Debug, PartialEq, Eq, Structural)]
pub enum ErrorKind {
    /// More data has to come in first.
    NeedMore,
    /// There is nothing more.
    Eof,
    /// Anything else.
    Other,
}

/// What the worker asks to have done next.
#[derive(Debug)]
pub enum Request<A, V> {
    /// Read the shutdown flag.
    CheckShutdown,
    /// Look for a command without blocking.
    PollCommand,
    /// Seek the demuxer.
    Seek { stream_idx: u32, pts: i64 },
    /// Reset one decoder; a failure is ignored.
    Reset(Track),
    /// Sleep this many milliseconds.
    Sleep(u64),
    /// Read the next packet from the demuxer.
    NextPacket,
    /// Hand the packet just read to one decoder.
    SendPacket(Track),
    /// Take the next frame from one decoder.
    ReceiveFrame(Track),
    /// Flush one decoder; a failure is ignored.
    Flush(Track),
    /// Send a unit to the main thread, blocking while the channel is full.
    Emit(DecodedUnit<A, V>),
    /// Leave the thread.
    Exit,
}

/// [`Request`] with the unit taken by its view.
pub enum RequestView<A, V> {
    CheckShutdown,
    PollCommand,
    Seek { stream_idx: u32, pts: i64 },
    Reset(Track),
    Sleep(u64),
    NextPacket,
    SendPacket(Track),
    ReceiveFrame(Track),
    Flush(Track),
    Emit(UnitView<A, V>),
    Exit,
}

impl<A, V> View for Request<A, V> {
    type V = RequestView<A, V>;

    open spec fn view(&self) -> RequestView<A, V> {
        match *self {
            Request::CheckShutdown => RequestView::CheckShutdown,
            Request::PollCommand => RequestView::PollCommand,
            Request::Seek { stream_idx, pts } => RequestView::Seek { stream_idx, pts },
            Request::Reset(t) => RequestView::Reset(t),
            Request::Sleep(ms) => RequestView::Sleep(ms),
            Request::NextPacket => RequestView::NextPacket,
            Request::SendPacket(t) => RequestView::SendPacket(t),
            Request::ReceiveFrame(t) => RequestView::ReceiveFrame(t),
            Request::Flush(t) => RequestView::Flush(t),
            Request::Emit(u) => RequestView::Emit(u@),
            Request::Exit => RequestView::Exit,
        }
    }
}

/// What came of the last request.
#[derive(Debug)]
pub enum Reply<A, V> {
    /// To [`Request::CheckShutdown`]: whether the flag is set.
    Shutdown(bool),
    /// To [`Request::PollCommand`]: a command was waiting.
    Command(DecodeCmd),
    /// To [`Request::PollCommand`]: nothing was waiting.
    NoCommand,
    /// To [`Request::PollCommand`]: the main thread is gone.
    Disconnected,
    /// To [`Request::Seek`]: the pts landed on.
    Landed(i64),
    /// To [`Request::Seek`]: the seek failed.
    SeekFailed(String),
    /// To [`Request::Reset`], [`Request::Sleep`] and [`Request::Flush`].
    Done,
    /// To [`Request::NextPacket`]: a packet of this stream.
    Packet(u32),
    /// To [`Request::NextPacket`]: there was no packet to be had.
    ReadFailed(ErrorKind, String),
    /// To [`Request::SendPacket`]: the decoder took the packet.
    Accepted,
    /// To [`Request::SendPacket`]: the decoder did not take the packet.
    SendFailed(ErrorKind, String),
    /// To [`Request::ReceiveFrame`]: an audio frame.
    AudioFrame(A),
    /// To [`Request::ReceiveFrame`]: a video frame.
    VideoFrame(V),
    /// To [`Request::ReceiveFrame`]: a frame of some other kind.
    OtherFrame,
    /// To [`Request::ReceiveFrame`]: there was no frame to be had.
    ReceiveFailed(ErrorKind, String),
    /// To [`Request::Emit`]: whether the main thread is still there to
    /// receive.
    Emitted(bool),
}

/// [`Reply`] with its texts as sequences of characters.
pub enum ReplyView<A, V> {
    Shutdown(bool),
    Command(DecodeCmd),
    NoCommand,
    Disconnected,
    Landed(i64),
    SeekFailed(Seq<char>),
    Done,
    Packet(u32),
    ReadFailed(ErrorKind, Seq<char>),
    Accepted,
    SendFailed(ErrorKind, Seq<char>),
    AudioFrame(A),
    VideoFrame(V),
    OtherFrame,
    ReceiveFailed(ErrorKind, Seq<char>),
    Emitted(bool),
}

impl<A, V> View for Reply<A, V> {
    type V = ReplyView<A, V>;

    open spec fn view(&self) -> ReplyView<A, V> {
        match *self {
            Reply::Shutdown(b) => ReplyView::Shutdown(b),
            Reply::Command(c) => ReplyView::Command(c),
            Reply::NoCommand => ReplyView::NoCommand,
            Reply::Disconnected => ReplyView::Disconnected,
            Reply::Landed(pts) => ReplyView::Landed(pts),
            Reply::SeekFailed(e) => ReplyView::SeekFailed(e@),
            Reply::Done => ReplyView::Done,
            Reply::Packet(idx) => ReplyView::Packet(idx),
            Reply::ReadFailed(kind, e) => ReplyView::ReadFailed(kind, e@),
            Reply::Accepted => ReplyView::Accepted,
            Reply::SendFailed(kind, e) => ReplyView::SendFailed(kind, e@),
            Reply::AudioFrame(a) => ReplyView::AudioFrame(a),
            Reply::VideoFrame(v) => ReplyView::VideoFrame(v),
            Reply::OtherFrame => ReplyView::OtherFrame,
            Reply::ReceiveFailed(kind, e) => ReplyView::ReceiveFailed(kind, e@),
            Reply::Emitted(b) => ReplyView::Emitted(b),
        }
    }
}

/// Which reply the worker is waiting for, and why.
#[derive(Clone, Copy, Debug, PartialEq, Eq, Structural)]
pub enum Phase {
    /// Top of the loop: the shutdown flag.
    Top,
    /// Emptying the command channel.
    Polling,
    /// A seek command is being carried out.
    Seeking,
    /// A seek landed here and this decoder is being reset.
    Resetting { track: Track, landed: i64 },
    /// Where a seek landed is being sent.
    Announcing,
    /// Nothing left to read; sleeping before the next look at the commands.
    Sleeping,
    /// The shutdown flag, before each packet.
    ReadCheck,
    /// The next packet.
    Reading,
    /// A decoder is being given a packet.
    Sending(Track),
    /// A decoder is being asked for a frame.
    Receiving(Track),
    /// A frame is being sent.
    Forwarding(Track),
    /// A decoder is being flushed.
    Flushing(Track),
    /// A flushed decoder is being asked for a frame.
    Draining(Track),
    /// A frame of a flushed decoder is being sent.
    ForwardingDrained(Track),
    /// The end-of-stream marker is being sent.
    EmittingEof,
    /// The error that ends the worker is being sent.
    Reporting,
    /// The worker has asked to exit.
    Exited,
}

/// The worker's state between two requests.
#[derive(Clone, Copy, Debug)]
pub struct WorkerCtx {
    /// Which reply is awaited.
    pub phase: Phase,
    /// The demuxer is done and the marker was sent.
    pub eof: bool,
    /// Stream routed to the audio decoder.
    pub audio_idx: Option<u32>,
    /// Stream routed to the video decoder.
    pub video_idx: Option<u32>,
    /// There is an audio decoder.
    pub has_audio: bool,
    /// There is a video decoder.
    pub has_video: bool,
}

/// The text of a failed seek.
pub open spec fn seek_error(e: Seq<char>) -> Seq<char> {
    "seek: "@ + e
}

/// The text of a packet that a decoder refused.
pub open spec fn refusal_error(track: Track, e: Seq<char>) -> Seq<char> {
    match track {
        Track::Audio => "audio decode: "@ + e,
        Track::Video => "video decode: "@ + e,
    }
}

/// The text of a decoder that failed to give a frame.
pub open spec fn decode_error(track: Track, e: Seq<char>) -> Seq<char> {
    match track {
        Track::Audio => "audio recv: "@ + e,
        Track::Video => "video recv: "@ + e,
    }
}

/// The unit for a frame of the decoder's own kind; `None` for every other
/// answer of a decoder.
pub open spec fn own_frame<A, V>(track: Track, r: ReplyView<A, V>) -> Option<UnitView<A, V>> {
    match (track, r) {
        (Track::Audio, ReplyView::AudioFrame(a)) => Some(UnitView::Audio(a)),
        (Track::Video, ReplyView::VideoFrame(v)) => Some(UnitView::Video(v)),
        _ => None,
    }
}

impl WorkerCtx {
    /// Whether there is a decoder for the track.
    pub open spec fn has(self, track: Track) -> bool {
        match track {
            Track::Audio => self.has_audio,
            Track::Video => self.has_video,
        }
    }

    /// Whether packets of the stream are decoded at all.
    pub open spec fn routed(self, idx: u32) -> bool {
        self.audio_idx == Some(idx) || self.video_idx == Some(idx)
    }

    /// The track that a routed stream goes to; audio has precedence.
    pub open spec fn track_of(self, idx: u32) -> Track {
        if self.audio_idx == Some(idx) {
            Track::Audio
        } else {
            Track::Video
        }
    }

    /// What every reachable state satisfies: only decoders that exist are
    /// in use, and once the end was reached nothing is read or decoded.
    pub open spec fn wf(self) -> bool {
        &&& match self.phase {
            Phase::Resetting { track, .. } => self.has(track),
            Phase::Sending(t) | Phase::Receiving(t) | Phase::Forwarding(t) | Phase::Flushing(t)
            | Phase::Draining(t) | Phase::ForwardingDrained(t) => self.has(t),
            _ => true,
        }
        &&& self.eof ==> match self.phase {
            Phase::Top | Phase::Polling | Phase::Seeking | Phase::Resetting { .. }
            | Phase::Announcing | Phase::Sleeping | Phase::Reporting | Phase::Exited => true,
            _ => false,
        }
    }

    /// Whether the reply is one to the request that is outstanding.
    pub open spec fn awaits<A, V>(self, r: ReplyView<A, V>) -> bool {
        match self.phase {
            Phase::Top | Phase::ReadCheck => r is Shutdown,
            Phase::Polling => r is Command || r is NoCommand || r is Disconnected,
            Phase::Seeking => r is Landed || r is SeekFailed,
            Phase::Resetting { .. } | Phase::Sleeping | Phase::Flushing(_) => r is Done,
            Phase::Reading => r is Packet || r is ReadFailed,
            Phase::Sending(_) => r is Accepted || r is SendFailed,
            Phase::Receiving(_) | Phase::Draining(_) => r is AudioFrame || r is VideoFrame
                || r is OtherFrame || r is ReceiveFailed,
            Phase::Announcing | Phase::Forwarding(_) | Phase::ForwardingDrained(_)
            | Phase::EmittingEof | Phase::Reporting => r is Emitted,
            Phase::Exited => false,
        }
    }

    pub open spec fn at(self, phase: Phase) -> WorkerCtx {
        WorkerCtx { phase, ..self }
    }

    /// Leaves for good.
    pub open spec fn exits<A, V>(self) -> (WorkerCtx, RequestView<A, V>) {
        (self.at(Phase::Exited), RequestView::Exit)
    }

    /// Starts the next round of the loop.
    pub open spec fn rounds<A, V>(self) -> (WorkerCtx, RequestView<A, V>) {
        (self.at(Phase::Top), RequestView::CheckShutdown)
    }

    /// Sends a unit.
    pub open spec fn emits<A, V>(self, phase: Phase, unit: UnitView<A, V>) -> (
        WorkerCtx,
        RequestView<A, V>,
    ) {
        (self.at(phase), RequestView::Emit(unit))
    }

    /// Sends the error that ends the worker.
    pub open spec fn reports<A, V>(self, text: Seq<char>) -> (WorkerCtx, RequestView<A, V>) {
        self.emits(Phase::Reporting, UnitView::Error(text))
    }

    /// Asks a decoder for a frame.
    pub open spec fn receives<A, V>(self, phase: Phase, track: Track) -> (
        WorkerCtx,
        RequestView<A, V>,
    ) {
        (self.at(phase), RequestView::ReceiveFrame(track))
    }

    /// A seek that landed is announced, and there is something to read again.
    pub open spec fn announces<A, V>(self, landed: i64) -> (WorkerCtx, RequestView<A, V>) {
        WorkerCtx { eof: false, ..self }.emits(Phase::Announcing, UnitView::Seeked(landed))
    }

    /// The video decoder, if there is one, is reset before the announcement.
    pub open spec fn resets_video<A, V>(self, landed: i64) -> (WorkerCtx, RequestView<A, V>) {
        if self.has_video {
            (
                self.at(Phase::Resetting { track: Track::Video, landed }),
                RequestView::Reset(Track::Video),
            )
        } else {
            self.announces(landed)
        }
    }

    /// The audio decoder, if there is one, is reset first.
    pub open spec fn resets<A, V>(self, landed: i64) -> (WorkerCtx, RequestView<A, V>) {
        if self.has_audio {
            (
                self.at(Phase::Resetting { track: Track::Audio, landed }),
                RequestView::Reset(Track::Audio),
            )
        } else {
            self.resets_video(landed)
        }
    }

    /// The video decoder, if there is one, is flushed before the marker.
    pub open spec fn flushes_video<A, V>(self) -> (WorkerCtx, RequestView<A, V>) {
        if self.has_video {
            (self.at(Phase::Flushing(Track::Video)), RequestView::Flush(Track::Video))
        } else {
            self.emits(Phase::EmittingEof, UnitView::Eof)
        }
    }

    /// The audio decoder, if there is one, is flushed first.
    pub open spec fn flushes<A, V>(self) -> (WorkerCtx, RequestView<A, V>) {
        if self.has_audio {
            (self.at(Phase::Flushing(Track::Audio)), RequestView::Flush(Track::Audio))
        } else {
            self.flushes_video()
        }
    }

    /// Commands: a seek is carried out and announced, and the channel looked
    /// at again; a failed seek is reported as the worker's last unit; a
    /// shutdown or a lost channel ends the worker; an empty channel leads on
    /// to reading, or to sleep once at the end.
    pub open spec fn after_command<A, V>(self, r: ReplyView<A, V>) -> (
        WorkerCtx,
        RequestView<A, V>,
    ) {
        match (self.phase, r) {
            (Phase::Polling, ReplyView::Command(DecodeCmd::Seek { stream_idx, pts })) => (
                self.at(Phase::Seeking),
                RequestView::Seek { stream_idx, pts },
            ),
            (Phase::Polling, ReplyView::NoCommand) => if self.eof {
                (self.at(Phase::Sleeping), RequestView::Sleep(EOF_POLL_MILLIS))
            } else {
                (self.at(Phase::ReadCheck), RequestView::CheckShutdown)
            },
            (Phase::Seeking, ReplyView::Landed(landed)) => self.resets(landed),
            (Phase::Seeking, ReplyView::SeekFailed(e)) => self.reports(seek_error(e)),
            (Phase::Resetting { track: Track::Audio, landed }, _) => self.resets_video(landed),
            (Phase::Resetting { track: Track::Video, landed }, _) => self.announces(landed),
            (Phase::Announcing, ReplyView::Emitted(true)) => (
                self.at(Phase::Polling),
                RequestView::PollCommand,
            ),
            _ => self.exits(),
        }
    }

    /// Reading: a packet of a routed stream goes to its decoder, any other
    /// is skipped, the end flushes the decoders, and a failure is sent as
    /// the worker's last unit.
    pub open spec fn after_read<A, V>(self, r: ReplyView<A, V>) -> (WorkerCtx, RequestView<A, V>) {
        match (self.phase, r) {
            (Phase::ReadCheck, ReplyView::Shutdown(false)) => (
                self.at(Phase::Reading),
                RequestView::NextPacket,
            ),
            (Phase::Reading, ReplyView::Packet(idx)) => if !self.routed(idx) {
                (self.at(Phase::ReadCheck), RequestView::CheckShutdown)
            } else if self.has(self.track_of(idx)) {
                (
                    self.at(Phase::Sending(self.track_of(idx))),
                    RequestView::SendPacket(self.track_of(idx)),
                )
            } else {
                self.rounds()
            },
            (Phase::Reading, ReplyView::ReadFailed(ErrorKind::Eof, _)) => self.flushes(),
            (Phase::Reading, ReplyView::ReadFailed(_, e)) => self.reports(e),
            _ => self.exits(),
        }
    }

    /// Decoding: every frame of the decoder's own kind is sent and frames of
    /// another kind are dropped, until the decoder has none or needs more
    /// data; any other failure is reported as the worker's last unit.
    pub open spec fn after_decode<A, V>(self, r: ReplyView<A, V>) -> (
        WorkerCtx,
        RequestView<A, V>,
    ) {
        match (self.phase, r) {
            (Phase::Sending(t), ReplyView::SendFailed(kind, e)) if kind != ErrorKind::NeedMore
                => self.reports(refusal_error(t, e)),
            (Phase::Sending(t), _) => self.receives(Phase::Receiving(t), t),
            (Phase::Receiving(t), ReplyView::ReceiveFailed(ErrorKind::Other, e)) => self.reports(
                decode_error(t, e),
            ),
            (Phase::Receiving(t), ReplyView::ReceiveFailed(_, _)) => self.rounds(),
            (Phase::Receiving(t), _) => match own_frame(t, r) {
                Some(unit) => self.emits(Phase::Forwarding(t), unit),
                None => self.receives(Phase::Receiving(t), t),
            },
            (Phase::Forwarding(t), ReplyView::Emitted(true)) => self.receives(
                Phase::Receiving(t),
                t,
            ),
            _ => self.exits(),
        }
    }

    /// The end: each decoder is flushed and asked for frames until it has no
    /// more, those of its own kind are sent and others dropped; then the
    /// marker follows.
    pub open spec fn after_drain<A, V>(self, r: ReplyView<A, V>) -> (WorkerCtx, RequestView<A, V>) {
        match (self.phase, r) {
            (Phase::Flushing(t), _) => self.receives(Phase::Draining(t), t),
            (Phase::Draining(Track::Audio), ReplyView::ReceiveFailed(_, _)) => self.flushes_video(),
            (Phase::Draining(Track::Video), ReplyView::ReceiveFailed(_, _)) => self.emits(
                Phase::EmittingEof,
                UnitView::Eof,
            ),
            (Phase::Draining(t), _) => match own_frame(t, r) {
                Some(unit) => self.emits(Phase::ForwardingDrained(t), unit),
                None => self.receives(Phase::Draining(t), t),
            },
            (Phase::ForwardingDrained(t), ReplyView::Emitted(true)) => self.receives(
                Phase::Draining(t),
                t,
            ),
            (Phase::EmittingEof, ReplyView::Emitted(true)) => WorkerCtx {
                eof: true,
                ..self
            }.rounds(),
            _ => self.exits(),
        }
    }

    /// The state and the request that follow a reply.
    pub open spec fn next<A, V>(self, r: ReplyView<A, V>) -> (WorkerCtx, RequestView<A, V>) {
        match self.phase {
            Phase::Top => if r == ReplyView::<A, V>::Shutdown(false) {
                (self.at(Phase::Polling), RequestView::PollCommand)
            } else {
                self.exits()
            },
            Phase::Sleeping => self.rounds(),
            Phase::Polling | Phase::Seeking | Phase::Resetting { .. }
            | Phase::Announcing => self.after_command(r),
            Phase::ReadCheck | Phase::Reading => self.after_read(r),
            Phase::Sending(_) | Phase::Receiving(_) | Phase::Forwarding(_) => self.after_decode(r),
            Phase::Flushing(_) | Phase::Draining(_) | Phase::ForwardingDrained(_)
            | Phase::EmittingEof => self.after_drain(r),
            Phase::Reporting | Phase::Exited => self.exits(),
        }
    }
}

/// Joins a fixed label and a message.
fn labelled(label: &str, message: &String) -> (text: String)
    ensures
        text@ == label@ + message@,
{
    let mut text = label.to_string();
    text.append(message.as_str());
    text
}

impl WorkerCtx {
    /// A worker about to look at the shutdown flag for the first time. Its
    /// first request is [`Request::CheckShutdown`].
    pub fn new(
        audio_idx: Option<u32>,
        video_idx: Option<u32>,
        has_audio: bool,
        has_video: bool,
    ) -> (ctx: WorkerCtx)
        ensures
            ctx == (WorkerCtx {
                phase: Phase::Top,
                eof: false,
                audio_idx,
                video_idx,
                has_audio,
                has_video,
            }),
            ctx.wf(),
    {
        WorkerCtx { phase: Phase::Top, eof: false, audio_idx, video_idx, has_audio, has_video }
    }

    fn exit<A, V>(&mut self) -> (request: Request<A, V>)
        ensures
            (*final(self), request@) == old(self).exits::<A, V>(),
    {
        self.phase = Phase::Exited;
        Request::Exit
    }

    fn round<A, V>(&mut self) -> (request: Request<A, V>)
        ensures
            (*final(self), request@) == old(self).rounds::<A, V>(),
    {
        self.phase = Phase::Top;
        Request::CheckShutdown
    }

    fn emit<A, V>(&mut self, phase: Phase, unit: DecodedUnit<A, V>) -> (request: Request<A, V>)
        ensures
            (*final(self), request@) == old(self).emits(phase, unit@),
    {
        self.phase = phase;
        Request::Emit(unit)
    }

    fn report<A, V>(&mut self, text: String) -> (request: Request<A, V>)
        ensures
            (*final(self), request@) == old(self).reports::<A, V>(text@),
    {
        self.emit(Phase::Reporting, DecodedUnit::Error(text))
    }

    fn receive<A, V>(&mut self, phase: Phase, track: Track) -> (request: Request<A, V>)
        ensures
            (*final(self), request@) == old(self).receives::<A, V>(phase, track),
    {
        self.phase = phase;
        Request::ReceiveFrame(track)
    }

    fn reset_video<A, V>(&mut self, landed: i64) -> (request: Request<A, V>)
        ensures
            (*final(self), request@) == old(self).resets_video::<A, V>(landed),
    {
        if self.has_video {
            self.phase = Phase::Resetting { track: Track::Video, landed };
            Request::Reset(Track::Video)
        } else {
            self.announce(landed)
        }
    }

    fn announce<A, V>(&mut self, landed: i64) -> (request: Request<A, V>)
        ensures
            (*final(self), request@) == old(self).announces::<A, V>(landed),
    {
        self.eof = false;
        self.emit(Phase::Announcing, DecodedUnit::Seeked(landed))
    }

    fn flush_video<A, V>(&mut self) -> (request: Request<A, V>)
        ensures
            (*final(self), request@) == old(self).flushes_video::<A, V>(),
    {
        if self.has_video {
            self.phase = Phase::Flushing(Track::Video);
            Request::Flush(Track::Video)
        } else {
            self.emit(Phase::EmittingEof, DecodedUnit::Eof)
        }
    }

    /// Drains the pending commands, one reply at a time.
    fn poll_commands<A, V>(&mut self, reply: Reply<A, V>) -> (request: Request<A, V>)
        ensures
            (*final(self), request@) == old(self).after_command(reply@),
    {
        match (self.phase, reply) {
            (Phase::Polling, Reply::Command(DecodeCmd::Seek { stream_idx, pts })) => {
                self.phase = Phase::Seeking;
                Request::Seek { stream_idx, pts }
            },
            (Phase::Polling, Reply::NoCommand) => {
                if self.eof {
                    self.phase = Phase::Sleeping;
                    Request::Sleep(EOF_POLL_MILLIS)
                } else {
                    self.phase = Phase::ReadCheck;
                    Request::CheckShutdown
                }
            },
            (Phase::Seeking, Reply::Landed(landed)) => {
                if self.has_audio {
                    self.phase = Phase::Resetting { track: Track::Audio, landed };
                    Request::Reset(Track::Audio)
                } else {
                    self.reset_video(landed)
                }
            },
            (Phase::Seeking, Reply::SeekFailed(e)) => self.report(labelled("seek: ", &e)),
            (Phase::Resetting { track: Track::Audio, landed }, _) => self.reset_video(landed),
            (Phase::Resetting { track: Track::Video, landed }, _) => self.announce(landed),
            (Phase::Announcing, Reply::Emitted(true)) => {
                self.phase = Phase::Polling;
                Request::PollCommand
            },
            _ => self.exit(),
        }
    }

    /// Pulls the next packet of a routed stream, skipping the others.
    fn read_routed_packet<A, V>(&mut self, reply: Reply<A, V>) -> (request: Request<A, V>)
        ensures
            (*final(self), request@) == old(self).after_read(reply@),
    {
        match (self.phase, reply) {
            (Phase::ReadCheck, Reply::Shutdown(false)) => {
                self.phase = Phase::Reading;
                Request::NextPacket
            },
            (Phase::Reading, Reply::Packet(idx)) => {
                let audio = match self.audio_idx {
                    Some(a) => a == idx,
                    None => false,
                };
                let video = match self.video_idx {
                    Some(v) => v == idx,
                    None => false,
                };
                if !audio && !video {
                    self.phase = Phase::ReadCheck;
                    Request::CheckShutdown
                } else if audio && self.has_audio {
                    self.phase = Phase::Sending(Track::Audio);
                    Request::SendPacket(Track::Audio)
                } else if !audio && self.has_video {
                    self.phase = Phase::Sending(Track::Video);
                    Request::SendPacket(Track::Video)
                } else {
                    self.round()
                }
            },
            (Phase::Reading, Reply::ReadFailed(ErrorKind::Eof, _)) => {
                if self.has_audio {
                    self.phase = Phase::Flushing(Track::Audio);
                    Request::Flush(Track::Audio)
                } else {
                    self.flush_video()
                }
            },
            (Phase::Reading, Reply::ReadFailed(_, e)) => self.report(e),
            _ => self.exit(),
        }
    }

    /// Feeds one packet to a decoder and sends on what comes out.
    fn decode<A, V>(&mut self, reply: Reply<A, V>) -> (request: Request<A, V>)
        ensures
            (*final(self), request@) == old(self).after_decode(reply@),
    {
        match (self.phase, reply) {
            (Phase::Sending(t), Reply::SendFailed(kind, e)) => {
                if kind == ErrorKind::NeedMore {
                    self.receive(Phase::Receiving(t), t)
                } else {
                    let text = match t {
                        Track::Audio => labelled("audio decode: ", &e),
                        Track::Video => labelled("video decode: ", &e),
                    };
                    self.report(text)
                }
            },
            (Phase::Sending(t), _) => self.receive(Phase::Receiving(t), t),
            (Phase::Receiving(t), Reply::ReceiveFailed(ErrorKind::Other, e)) => {
                let text = match t {
                    Track::Audio => labelled("audio recv: ", &e),
                    Track::Video => labelled("video recv: ", &e),
                };
                self.report(text)
            },
            (Phase::Receiving(_), Reply::ReceiveFailed(_, _)) => self.round(),
            (Phase::Receiving(Track::Audio), Reply::AudioFrame(a)) => self.emit(
                Phase::Forwarding(Track::Audio),
                DecodedUnit::Audio(a),
            ),
            (Phase::Receiving(Track::Video), Reply::VideoFrame(v)) => self.emit(
                Phase::Forwarding(Track::Video),
                DecodedUnit::Video(v),
            ),
            (Phase::Receiving(t), _) => self.receive(Phase::Receiving(t), t),
            (Phase::Forwarding(t), Reply::Emitted(true)) => self.receive(Phase::Receiving(t), t),
            _ => self.exit(),
        }
    }

    /// Handles the end of the demuxer: flushes the decoders, sends what they
    /// still hold, then the marker.
    fn drain_on_eof<A, V>(&mut self, reply: Reply<A, V>) -> (request: Request<A, V>)
        ensures
            (*final(self), request@) == old(self).after_drain(reply@),
    {
        match (self.phase, reply) {
            (Phase::Flushing(t), _) => self.receive(Phase::Draining(t), t),
            (Phase::Draining(Track::Audio), Reply::AudioFrame(a)) => self.emit(
                Phase::ForwardingDrained(Track::Audio),
                DecodedUnit::Audio(a),
            ),
            (Phase::Draining(Track::Video), Reply::VideoFrame(v)) => self.emit(
                Phase::ForwardingDrained(Track::Video),
                DecodedUnit::Video(v),
            ),
            (Phase::Draining(Track::Audio), Reply::ReceiveFailed(_, _)) => self.flush_video(),
            (Phase::Draining(Track::Video), Reply::ReceiveFailed(_, _)) => self.emit(
                Phase::EmittingEof,
                DecodedUnit::Eof,
            ),
            (Phase::Draining(t), _) => self.receive(Phase::Draining(t), t),
            (Phase::ForwardingDrained(t), Reply::Emitted(true)) => self.receive(
                Phase::Draining(t),
                t,
            ),
            (Phase::EmittingEof, Reply::Emitted(true)) => {
                self.eof = true;
                self.round()
            },
            _ => self.exit(),
        }
    }

    /// One turn of the worker: takes the reply to the outstanding request
    /// and returns the next request. The worker has left once it returns
    /// [`Request::Exit`].
    pub fn step<A, V>(&mut self, reply: Reply<A, V>) -> (request: Request<A, V>)
        requires
            old(self).wf(),
            old(self).awaits(reply@),
        ensures
            (*final(self), request@) == old(self).next(reply@),
            final(self).wf(),
    {
        match self.phase {
            Phase::Top => match reply {
                Reply::Shutdown(false) => {
                    self.phase = Phase::Polling;
                    Request::PollCommand
                },
                _ => self.exit(),
            },
            Phase::Sleeping => self.round(),
            Phase::Polling | Phase::Seeking | Phase::Resetting { .. }
            | Phase::Announcing => self.poll_commands(reply),
            Phase::ReadCheck | Phase::Reading => self.read_routed_packet(reply),
            Phase::Sending(_) | Phase::Receiving(_) | Phase::Forwarding(_) => self.decode(reply),
            Phase::Flushing(_) | Phase::Draining(_) | Phase::ForwardingDrained(_)
            | Phase::EmittingEof => self.drain_on_eof(reply),
            Phase::Reporting | Phase::Exited => self.exit(),
        }
    }
}

} // verus!
