//! What one turn of the decode worker does, for every state and every
//! answer: which request follows, and what changes in the worker. Each law
//! speaks of a call of [`WorkerCtx::step`] that was given `reply` and
//! returned `request`, over the worker's fields before and after it.

use crate::decode_worker::{
    DecodeCmd, DecodedUnit, ErrorKind, Phase, Reply, ReplyView, Request, RequestView, Track,
    WorkerCtx,
};
use vstd::prelude::*;

verus! {

/// A new worker looks at the shutdown flag first, is not at the end, and
/// keeps the routes and decoders that it was given.
pub proof fn law_worker_starts_at_the_top<A, V>(
    audio_idx: Option<u32>,
    video_idx: Option<u32>,
    has_audio: bool,
    has_video: bool,
    ctx: WorkerCtx,
    first: &mut WorkerCtx,
)
    requires
        call_ensures(WorkerCtx::new, (audio_idx, video_idx, has_audio, has_video), ctx),
        *old(first) == ctx,
    ensures
        ctx.phase == Phase::Top,
        !ctx.eof,
        ctx.audio_idx == audio_idx,
        ctx.video_idx == video_idx,
        ctx.has_audio == has_audio,
        ctx.has_video == has_video,
        forall|flag: bool|
            #[trigger] call_requires(
                WorkerCtx::step::<A, V>,
                (first, Reply::<A, V>::Shutdown(flag)),
            ),
{
}

/// Whether a request is the one that a state waits for an answer to.
spec fn fits<A, V>(phase: Phase, request: RequestView<A, V>) -> bool {
    match phase {
        Phase::Top | Phase::ReadCheck => request is CheckShutdown,
        Phase::Polling => request is PollCommand,
        Phase::Seeking => request is Seek,
        Phase::Resetting { .. } => request is Reset,
        Phase::Sleeping => request is Sleep,
        Phase::Flushing(_) => request is Flush,
        Phase::Reading => request is NextPacket,
        Phase::Sending(_) => request is SendPacket,
        Phase::Receiving(_) | Phase::Draining(_) => request is ReceiveFrame,
        Phase::Announcing | Phase::Forwarding(_) | Phase::ForwardingDrained(_)
        | Phase::EmittingEof | Phase::Reporting => request is Emit,
        Phase::Exited => request is Exit,
    }
}

proof fn lemma_request_fits_the_phase<A, V>(s: WorkerCtx, reply: ReplyView<A, V>)
    ensures
        fits(s.next(reply).0.phase, s.next(reply).1),
{
}

proof fn lemma_answer_is_awaited<A, V>(
    s: WorkerCtx,
    request: Request<A, V>,
    answer: Reply<A, V>,
)
    requires
        fits(s.phase, request@),
        match request {
            Request::CheckShutdown => answer is Shutdown,
            Request::PollCommand => answer is Command || answer is NoCommand
                || answer is Disconnected,
            Request::Seek { .. } => answer is Landed || answer is SeekFailed,
            Request::Reset(_) | Request::Sleep(_) | Request::Flush(_) => answer is Done,
            Request::NextPacket => answer is Packet || answer is ReadFailed,
            Request::SendPacket(_) => answer is Accepted || answer is SendFailed,
            Request::ReceiveFrame(_) => answer is AudioFrame || answer is VideoFrame
                || answer is OtherFrame || answer is ReceiveFailed,
            Request::Emit(_) => answer is Emitted,
            Request::Exit => false,
        },
    ensures
        s.awaits(answer@),
{
}

/// Whatever a request can be answered with, the worker takes: no answer is
/// one that it is not prepared for.
pub proof fn law_every_answer_is_taken<A, V>(
    ctx: &mut WorkerCtx,
    reply: Reply<A, V>,
    request: Request<A, V>,
    then: &mut WorkerCtx,
    answer: Reply<A, V>,
)
    requires
        call_ensures(WorkerCtx::step::<A, V>, (ctx, reply), request),
        *old(then) == *final(ctx),
        match request {
            Request::CheckShutdown => answer is Shutdown,
            Request::PollCommand => answer is Command || answer is NoCommand
                || answer is Disconnected,
            Request::Seek { .. } => answer is Landed || answer is SeekFailed,
            Request::Reset(_) | Request::Sleep(_) | Request::Flush(_) => answer is Done,
            Request::NextPacket => answer is Packet || answer is ReadFailed,
            Request::SendPacket(_) => answer is Accepted || answer is SendFailed,
            Request::ReceiveFrame(_) => answer is AudioFrame || answer is VideoFrame
                || answer is OtherFrame || answer is ReceiveFailed,
            Request::Emit(_) => answer is Emitted,
            Request::Exit => false,
        },
    ensures
        call_requires(WorkerCtx::step::<A, V>, (then, answer)),
{
    let (state, asked) = old(ctx).next(reply@);
    lemma_request_fits_the_phase(*old(ctx), reply@);
    assert(state == *final(ctx) && asked == request@);
    lemma_answer_is_awaited(state, request, answer);
}

/// A turn never changes the routes or which decoders there are. The worker
/// is at the end once the marker was received, and until a seek is
/// announced.
pub proof fn law_turn_keeps_the_setup<A, V>(
    ctx: &mut WorkerCtx,
    reply: Reply<A, V>,
    request: Request<A, V>,
)
    requires
        call_ensures(WorkerCtx::step::<A, V>, (ctx, reply), request),
    ensures
        final(ctx).audio_idx == old(ctx).audio_idx,
        final(ctx).video_idx == old(ctx).video_idx,
        final(ctx).has_audio == old(ctx).has_audio,
        final(ctx).has_video == old(ctx).has_video,
        final(ctx).eof == (if old(ctx).phase == Phase::EmittingEof && reply == Reply::<
            A,
            V,
        >::Emitted(true) {
            true
        } else if request matches Request::Emit(unit) && unit is Seeked {
            false
        } else {
            old(ctx).eof
        }),
{
}

/// The worker leaves when the flag is set, on a shutdown command, when the
/// main thread is gone at either end, and after an error, and for no other
/// reason.
pub proof fn law_worker_leaves_only_for_a_reason<A, V>(
    ctx: &mut WorkerCtx,
    reply: Reply<A, V>,
    request: Request<A, V>,
)
    requires
        call_ensures(WorkerCtx::step::<A, V>, (ctx, reply), request),
        match old(ctx).phase {
            Phase::Top | Phase::ReadCheck => reply is Shutdown,
            Phase::Polling => reply is Command || reply is NoCommand || reply is Disconnected,
            Phase::Seeking => reply is Landed || reply is SeekFailed,
            Phase::Resetting { .. } | Phase::Sleeping | Phase::Flushing(_) => reply is Done,
            Phase::Reading => reply is Packet || reply is ReadFailed,
            Phase::Sending(_) => reply is Accepted || reply is SendFailed,
            Phase::Receiving(_) | Phase::Draining(_) => reply is AudioFrame || reply is VideoFrame
                || reply is OtherFrame || reply is ReceiveFailed,
            Phase::Announcing | Phase::Forwarding(_) | Phase::ForwardingDrained(_)
            | Phase::EmittingEof | Phase::Reporting => reply is Emitted,
            Phase::Exited => false,
        },
    ensures
        request is Exit <==> {
            ||| reply == Reply::<A, V>::Shutdown(true)
            ||| reply == Reply::<A, V>::Command(DecodeCmd::Shutdown)
            ||| reply is Disconnected
            ||| reply == Reply::<A, V>::Emitted(false)
            ||| old(ctx).phase == Phase::Reporting
        },
        request is Exit <==> final(ctx).phase == Phase::Exited,
{
}

/// A round of the worker: the flag, then the commands, then the flag again
/// and a packet; at the end a sleep of five milliseconds in place of the
/// packet, and the next round.
pub proof fn law_rounds_go_from_commands_to_packets<A, V>(
    ctx: &mut WorkerCtx,
    reply: Reply<A, V>,
    request: Request<A, V>,
)
    requires
        call_ensures(WorkerCtx::step::<A, V>, (ctx, reply), request),
    ensures
        old(ctx).phase == Phase::Top && reply == Reply::<A, V>::Shutdown(false) ==> request
            == Request::<A, V>::PollCommand && final(ctx).phase == Phase::Polling,
        old(ctx).phase == Phase::Polling && reply is NoCommand && !old(ctx).eof ==> request
            == Request::<A, V>::CheckShutdown && final(ctx).phase == Phase::ReadCheck,
        old(ctx).phase == Phase::ReadCheck && reply == Reply::<A, V>::Shutdown(false) ==> request
            == Request::<A, V>::NextPacket && final(ctx).phase == Phase::Reading,
        old(ctx).phase == Phase::Polling && reply is NoCommand && old(ctx).eof ==> request
            == Request::<A, V>::Sleep(5) && final(ctx).phase == Phase::Sleeping,
        old(ctx).phase == Phase::Sleeping && reply is Done ==> request == Request::<
            A,
            V,
        >::CheckShutdown && final(ctx).phase == Phase::Top,
{
}

/// A packet of the audio stream goes to the audio decoder, and one of the
/// video stream to the video decoder, whatever the other route is; a stream
/// on both routes counts as audio. A packet on a route without a decoder
/// ends the round, and one on no route is skipped.
pub proof fn law_packets_reach_their_decoder<A, V>(
    ctx: &mut WorkerCtx,
    idx: u32,
    request: Request<A, V>,
)
    requires
        call_ensures(WorkerCtx::step::<A, V>, (ctx, Reply::<A, V>::Packet(idx)), request),
        old(ctx).phase == Phase::Reading,
    ensures
        old(ctx).audio_idx == Some(idx) && old(ctx).has_audio ==> request == Request::<
            A,
            V,
        >::SendPacket(Track::Audio) && final(ctx).phase == Phase::Sending(Track::Audio),
        old(ctx).audio_idx == Some(idx) && !old(ctx).has_audio ==> request == Request::<
            A,
            V,
        >::CheckShutdown && final(ctx).phase == Phase::Top,
        old(ctx).audio_idx != Some(idx) && old(ctx).video_idx == Some(idx) && old(ctx).has_video
            ==> request == Request::<A, V>::SendPacket(Track::Video) && final(ctx).phase
            == Phase::Sending(Track::Video),
        old(ctx).audio_idx != Some(idx) && old(ctx).video_idx == Some(idx) && !old(ctx).has_video
            ==> request == Request::<A, V>::CheckShutdown && final(ctx).phase == Phase::Top,
        old(ctx).audio_idx != Some(idx) && old(ctx).video_idx != Some(idx) ==> request
            == Request::<A, V>::CheckShutdown && final(ctx).phase == Phase::ReadCheck,
{
}

/// A decoder that was given a packet, or that needs more data, is asked for
/// frames. Each frame of its own kind is sent just as it came, and once it
/// is received the decoder is asked again; frames of another kind are passed
/// over. When it has no more the next round begins.
pub proof fn law_decoded_frames_are_sent<A, V>(
    ctx: &mut WorkerCtx,
    track: Track,
    reply: Reply<A, V>,
    request: Request<A, V>,
)
    requires
        call_ensures(WorkerCtx::step::<A, V>, (ctx, reply), request),
    ensures
        old(ctx).phase == Phase::Sending(track) ==> match reply {
            Reply::Accepted | Reply::SendFailed(ErrorKind::NeedMore, _) => {
                request == Request::<A, V>::ReceiveFrame(track) && final(ctx).phase
                    == Phase::Receiving(track)
            },
            _ => true,
        },
        old(ctx).phase == Phase::Receiving(track) ==> match (track, reply) {
            (Track::Audio, Reply::AudioFrame(a)) => request == Request::<A, V>::Emit(
                DecodedUnit::Audio(a),
            ) && final(ctx).phase == Phase::Forwarding(track),
            (Track::Video, Reply::VideoFrame(v)) => request == Request::<A, V>::Emit(
                DecodedUnit::Video(v),
            ) && final(ctx).phase == Phase::Forwarding(track),
            (_, Reply::AudioFrame(_)) | (_, Reply::VideoFrame(_)) | (_, Reply::OtherFrame) => {
                request == Request::<A, V>::ReceiveFrame(track) && final(ctx).phase
                    == Phase::Receiving(track)
            },
            (_, Reply::ReceiveFailed(kind, _)) => kind != ErrorKind::Other ==> request
                == Request::<A, V>::CheckShutdown && final(ctx).phase == Phase::Top,
            _ => true,
        },
        old(ctx).phase == Phase::Forwarding(track) && reply == Reply::<A, V>::Emitted(true)
            ==> request == Request::<A, V>::ReceiveFrame(track) && final(ctx).phase
            == Phase::Receiving(track),
{
}

/// At the demuxer's end the audio decoder is flushed and drained, then the
/// video decoder, as far as they are there, and then the marker is sent.
/// Draining a decoder sends each frame of its own kind, passes over others
/// and goes on until the decoder has no more.
pub proof fn law_decoders_are_drained_before_the_marker<A, V>(
    ctx: &mut WorkerCtx,
    track: Track,
    reply: Reply<A, V>,
    request: Request<A, V>,
)
    requires
        call_ensures(WorkerCtx::step::<A, V>, (ctx, reply), request),
    ensures
        old(ctx).phase == Phase::Reading && (reply matches Reply::ReadFailed(kind, _) && kind
            == ErrorKind::Eof) ==> {
            if old(ctx).has_audio {
                request == Request::<A, V>::Flush(Track::Audio) && final(ctx).phase
                    == Phase::Flushing(Track::Audio)
            } else if old(ctx).has_video {
                request == Request::<A, V>::Flush(Track::Video) && final(ctx).phase
                    == Phase::Flushing(Track::Video)
            } else {
                request == Request::<A, V>::Emit(DecodedUnit::Eof) && final(ctx).phase
                    == Phase::EmittingEof
            }
        },
        old(ctx).phase == Phase::Flushing(track) && reply is Done ==> request == Request::<
            A,
            V,
        >::ReceiveFrame(track) && final(ctx).phase == Phase::Draining(track),
        old(ctx).phase == Phase::Draining(track) ==> match (track, reply) {
            (Track::Audio, Reply::AudioFrame(a)) => request == Request::<A, V>::Emit(
                DecodedUnit::Audio(a),
            ) && final(ctx).phase == Phase::ForwardingDrained(track),
            (Track::Video, Reply::VideoFrame(v)) => request == Request::<A, V>::Emit(
                DecodedUnit::Video(v),
            ) && final(ctx).phase == Phase::ForwardingDrained(track),
            (_, Reply::AudioFrame(_)) | (_, Reply::VideoFrame(_)) | (_, Reply::OtherFrame) => {
                request == Request::<A, V>::ReceiveFrame(track) && final(ctx).phase
                    == Phase::Draining(track)
            },
            (_, Reply::ReceiveFailed(_, _)) => if track == Track::Audio && old(ctx).has_video {
                request == Request::<A, V>::Flush(Track::Video) && final(ctx).phase
                    == Phase::Flushing(Track::Video)
            } else {
                request == Request::<A, V>::Emit(DecodedUnit::Eof) && final(ctx).phase
                    == Phase::EmittingEof
            },
            _ => true,
        },
        old(ctx).phase == Phase::ForwardingDrained(track) && reply == Reply::<A, V>::Emitted(true)
            ==> request == Request::<A, V>::ReceiveFrame(track) && final(ctx).phase
            == Phase::Draining(track),
        old(ctx).phase == Phase::EmittingEof && reply == Reply::<A, V>::Emitted(true) ==> request
            == Request::<A, V>::CheckShutdown && final(ctx).phase == Phase::Top && final(ctx).eof,
{
}

/// A seek command is carried out as it was given. Where it lands, every
/// decoder there is is reset, audio first; then that place is announced, and
/// once this is received the worker looks for the next command, whichever
/// decoders there are.
pub proof fn law_seek_is_carried_out<A, V>(
    ctx: &mut WorkerCtx,
    reply: Reply<A, V>,
    request: Request<A, V>,
)
    requires
        call_ensures(WorkerCtx::step::<A, V>, (ctx, reply), request),
    ensures
        old(ctx).phase == Phase::Polling && (reply matches Reply::Command(cmd) && cmd is Seek)
            ==> {
            &&& request matches Request::Seek { stream_idx, pts }
            &&& reply == Reply::<A, V>::Command(DecodeCmd::Seek { stream_idx, pts })
            &&& final(ctx).phase == Phase::Seeking
        },
        old(ctx).phase == Phase::Seeking ==> (reply matches Reply::Landed(landed)
            ==> if old(ctx).has_audio {
            &&& request == Request::<A, V>::Reset(Track::Audio)
            &&& final(ctx).phase == (Phase::Resetting { track: Track::Audio, landed })
        } else if old(ctx).has_video {
            &&& request == Request::<A, V>::Reset(Track::Video)
            &&& final(ctx).phase == (Phase::Resetting { track: Track::Video, landed })
        } else {
            &&& request == Request::<A, V>::Emit(DecodedUnit::Seeked(landed))
            &&& final(ctx).phase == Phase::Announcing
        }),
        reply is Done ==> (old(ctx).phase matches Phase::Resetting { track, landed }
            ==> if track == Track::Audio && old(ctx).has_video {
            &&& request == Request::<A, V>::Reset(Track::Video)
            &&& final(ctx).phase == (Phase::Resetting { track: Track::Video, landed })
        } else {
            &&& request == Request::<A, V>::Emit(DecodedUnit::Seeked(landed))
            &&& final(ctx).phase == Phase::Announcing
        }),
        old(ctx).phase == Phase::Announcing && reply == Reply::<A, V>::Emitted(true) ==> request
            == Request::<A, V>::PollCommand && final(ctx).phase == Phase::Polling,
{
}

/// After a seek that landed and was received, with no further command and
/// the flag clear, the worker reads on, also where it had been at the end.
pub proof fn law_decoding_goes_on_after_a_seek<A, V>(
    announced: &mut WorkerCtx,
    landed: i64,
    before: Reply<A, V>,
    received: &mut WorkerCtx,
    polled: &mut WorkerCtx,
    checked: &mut WorkerCtx,
    r1: Request<A, V>,
    r2: Request<A, V>,
    r3: Request<A, V>,
)
    requires
        call_ensures(
            WorkerCtx::step::<A, V>,
            (announced, before),
            Request::<A, V>::Emit(DecodedUnit::Seeked(landed)),
        ),
        *old(received) == *final(announced),
        call_ensures(WorkerCtx::step::<A, V>, (received, Reply::<A, V>::Emitted(true)), r1),
        *old(polled) == *final(received),
        call_ensures(WorkerCtx::step::<A, V>, (polled, Reply::<A, V>::NoCommand), r2),
        *old(checked) == *final(polled),
        call_ensures(WorkerCtx::step::<A, V>, (checked, Reply::<A, V>::Shutdown(false)), r3),
    ensures
        r1 == Request::<A, V>::PollCommand,
        r2 == Request::<A, V>::CheckShutdown,
        r3 == Request::<A, V>::NextPacket,
{
    assert(final(announced).phase == Phase::Announcing && !final(announced).eof) by {
        match old(announced).phase {
            Phase::Seeking => {},
            Phase::Resetting { .. } => {},
            _ => {},
        }
    }
    assert(final(received).phase == Phase::Polling && !final(received).eof);
    assert(final(polled).phase == Phase::ReadCheck);
}

/// A failure is sent with its cause: a seek that failed, a read that failed
/// otherwise than at the end, a packet that was refused otherwise than for
/// want of data, and a frame that failed otherwise than for want of data or
/// at the decoder's end. The worker leaves whether or not anyone receives
/// it.
pub proof fn law_failures_are_sent_with_their_cause<A, V>(
    ctx: &mut WorkerCtx,
    track: Track,
    reply: Reply<A, V>,
    request: Request<A, V>,
)
    requires
        call_ensures(WorkerCtx::step::<A, V>, (ctx, reply), request),
    ensures
        old(ctx).phase == Phase::Seeking ==> (reply matches Reply::SeekFailed(e) ==> {
            &&& request matches Request::Emit(DecodedUnit::Error(text))
            &&& text@ == "seek: "@ + e@
            &&& final(ctx).phase == Phase::Reporting
        }),
        old(ctx).phase == Phase::Reading ==> (reply matches Reply::ReadFailed(kind, e) ==> kind
            != ErrorKind::Eof ==> {
            &&& request matches Request::Emit(DecodedUnit::Error(text))
            &&& text@ == e@
            &&& final(ctx).phase == Phase::Reporting
        }),
        old(ctx).phase == Phase::Sending(track) ==> (reply matches Reply::SendFailed(kind, e)
            ==> kind != ErrorKind::NeedMore ==> {
            &&& request matches Request::Emit(DecodedUnit::Error(text))
            &&& text@ == (if track == Track::Audio {
                "audio decode: "@
            } else {
                "video decode: "@
            }) + e@
            &&& final(ctx).phase == Phase::Reporting
        }),
        old(ctx).phase == Phase::Receiving(track) ==> (reply matches Reply::ReceiveFailed(kind, e)
            ==> kind == ErrorKind::Other ==> {
            &&& request matches Request::Emit(DecodedUnit::Error(text))
            &&& text@ == (if track == Track::Audio {
                "audio recv: "@
            } else {
                "video recv: "@
            }) + e@
            &&& final(ctx).phase == Phase::Reporting
        }),
        old(ctx).phase == Phase::Reporting && reply is Emitted ==> request is Exit,
{
}

} // verus!
