//! What holds of every conversation with the decode worker, whatever the
//! demuxer, the decoders and the main thread answer.

use crate::decode_worker::{
    DecodeCmd, ErrorKind, Phase, ReplyView, RequestView, Track, UnitView, WorkerCtx,
};
use vstd::prelude::*;

verus! {

/// The worker's state once the first `k` replies were given.
pub open spec fn state_at<A, V>(s: WorkerCtx, replies: Seq<ReplyView<A, V>>, k: nat) -> WorkerCtx
    decreases k,
{
    if k == 0 {
        s
    } else {
        state_at(s, replies, (k - 1) as nat).next(replies[k - 1]).0
    }
}

/// The request that reply number `k` leads to.
pub open spec fn request_at<A, V>(
    s: WorkerCtx,
    replies: Seq<ReplyView<A, V>>,
    k: nat,
) -> RequestView<A, V> {
    state_at(s, replies, k).next(replies[k as int]).1
}

/// Each reply answers the request that was outstanding.
pub open spec fn conversation<A, V>(s: WorkerCtx, replies: Seq<ReplyView<A, V>>) -> bool {
    forall|k: nat|
        k < replies.len() ==> (#[trigger] state_at(s, replies, k)).awaits(replies[k as int])
}

/// Whether the unit is a frame of the track.
pub open spec fn is_frame<A, V>(track: Track, unit: UnitView<A, V>) -> bool {
    match track {
        Track::Audio => unit is Audio,
        Track::Video => unit is Video,
    }
}

/// The frames of one track that the worker sent in its first `k` requests.
pub open spec fn sent<A, V>(
    s: WorkerCtx,
    replies: Seq<ReplyView<A, V>>,
    track: Track,
    k: nat,
) -> Seq<UnitView<A, V>>
    decreases k,
{
    if k == 0 {
        Seq::empty()
    } else {
        let before = sent(s, replies, track, (k - 1) as nat);
        match request_at(s, replies, (k - 1) as nat) {
            RequestView::Emit(unit) if is_frame(track, unit) => before.push(unit),
            _ => before,
        }
    }
}

/// The frames of its own kind that one decoder gave in the first `k`
/// replies.
pub open spec fn decoded<A, V>(
    s: WorkerCtx,
    replies: Seq<ReplyView<A, V>>,
    track: Track,
    k: nat,
) -> Seq<UnitView<A, V>>
    decreases k,
{
    if k == 0 {
        Seq::empty()
    } else {
        let before = decoded(s, replies, track, (k - 1) as nat);
        let phase = state_at(s, replies, (k - 1) as nat).phase;
        match crate::decode_worker::own_frame(track, replies[k - 1]) {
            Some(unit) if phase == Phase::Receiving(track) || phase == Phase::Draining(
                track,
            ) => before.push(unit),
            _ => before,
        }
    }
}

/// Every state of a conversation is well formed, and the routing never
/// changes.
pub proof fn law_state_stays_sound<A, V>(s: WorkerCtx, replies: Seq<ReplyView<A, V>>, k: nat)
    requires
        s.wf(),
        conversation(s, replies),
        k <= replies.len(),
    ensures
        state_at(s, replies, k).wf(),
        state_at(s, replies, k).audio_idx == s.audio_idx,
        state_at(s, replies, k).video_idx == s.video_idx,
        state_at(s, replies, k).has_audio == s.has_audio,
        state_at(s, replies, k).has_video == s.has_video,
    decreases k,
{
    if k > 0 {
        law_state_stays_sound(s, replies, (k - 1) as nat);
        assert(state_at(s, replies, (k - 1) as nat).awaits(replies[k - 1]));
    }
}

/// Nothing follows a request to exit.
pub proof fn law_exit_is_last<A, V>(s: WorkerCtx, replies: Seq<ReplyView<A, V>>, k: nat)
    requires
        s.wf(),
        conversation(s, replies),
        k < replies.len(),
        request_at(s, replies, k) is Exit,
    ensures
        k == replies.len() - 1,
{
    law_state_stays_sound(s, replies, k);
    assert(state_at(s, replies, k).awaits(replies[k as int]));
    if k + 1 < replies.len() {
        assert(state_at(s, replies, k + 1).phase == Phase::Exited);
        assert(state_at(s, replies, k + 1).awaits(replies[k as int + 1]));
    }
}

/// No frame is lost, invented, repeated or reordered: the frames of a track
/// that were sent are exactly those that its decoder gave, in that order.
pub proof fn law_frames_pass_in_order<A, V>(
    s: WorkerCtx,
    replies: Seq<ReplyView<A, V>>,
    track: Track,
    k: nat,
)
    requires
        s.wf(),
        conversation(s, replies),
        k <= replies.len(),
    ensures
        sent(s, replies, track, k) == decoded(s, replies, track, k),
    decreases k,
{
    if k > 0 {
        law_frames_pass_in_order(s, replies, track, (k - 1) as nat);
        law_state_stays_sound(s, replies, (k - 1) as nat);
        assert(state_at(s, replies, (k - 1) as nat).awaits(replies[k - 1]));
    }
}

proof fn lemma_end_lasts<A, V>(s: WorkerCtx, replies: Seq<ReplyView<A, V>>, k: nat)
    requires
        s.wf(),
        s.eof,
        s.phase == Phase::Top,
        conversation(s, replies),
        k <= replies.len(),
        forall|j: int| 0 <= j < k ==> !(replies[j] is Landed),
    ensures
        state_at(s, replies, k).eof,
        !(state_at(s, replies, k).phase is Resetting),
    decreases k,
{
    if k > 0 {
        lemma_end_lasts(s, replies, (k - 1) as nat);
        law_state_stays_sound(s, replies, (k - 1) as nat);
        assert(state_at(s, replies, (k - 1) as nat).awaits(replies[k - 1]));
        assert(!(replies[k - 1] is Landed));
    }
}

/// From the round that follows the end marker, nothing is read, decoded or
/// announced until a seek lands; the flag and the commands are still looked
/// at, and a failed seek still reported.
pub proof fn law_quiet_at_the_end<A, V>(s: WorkerCtx, replies: Seq<ReplyView<A, V>>, k: nat)
    requires
        s.wf(),
        s.eof,
        s.phase == Phase::Top,
        conversation(s, replies),
        k < replies.len(),
        forall|j: int| 0 <= j <= k ==> !(replies[j] is Landed),
    ensures
        state_at(s, replies, k).eof,
        match request_at(s, replies, k) {
            RequestView::CheckShutdown | RequestView::PollCommand | RequestView::Seek { .. }
            | RequestView::Sleep(_) | RequestView::Exit => true,
            RequestView::Emit(unit) => unit is Error,
            _ => false,
        },
{
    lemma_end_lasts(s, replies, k);
    law_state_stays_sound(s, replies, k);
    assert(state_at(s, replies, k).awaits(replies[k as int]));
    assert(!(replies[k as int] is Landed));
}

/// The decoders that a seek resets, audio first.
pub open spec fn seek_resets<A, V>(s: WorkerCtx) -> Seq<RequestView<A, V>> {
    (if s.has_audio {
        seq![RequestView::Reset(Track::Audio)]
    } else {
        seq![]
    }) + (if s.has_video {
        seq![RequestView::Reset(Track::Video)]
    } else {
        seq![]
    })
}

/// A seek that lands resets every decoder there is, then announces exactly
/// where it landed, and leaves the worker ready to read again, also after
/// the end.
pub proof fn law_seek_resets_then_announces<A, V>(s: WorkerCtx, landed: i64)
    requires
        s.wf(),
        s.phase == Phase::Seeking,
    ensures
        ({
            let resets = seek_resets::<A, V>(s);
            let replies = seq![ReplyView::<A, V>::Landed(landed)] + Seq::new(
                resets.len(),
                |i: int| ReplyView::<A, V>::Done,
            );
            &&& conversation(s, replies)
            &&& forall|k: nat|
                k < resets.len() ==> #[trigger] request_at(s, replies, k) == resets[k as int]
            &&& request_at(s, replies, resets.len()) == RequestView::<A, V>::Emit(
                UnitView::Seeked(landed),
            )
            &&& state_at(s, replies, replies.len()) == (WorkerCtx {
                phase: Phase::Announcing,
                eof: false,
                ..s
            })
        }),
{
    let resets = seek_resets::<A, V>(s);
    let replies = seq![ReplyView::<A, V>::Landed(landed)] + Seq::new(
        resets.len(),
        |i: int| ReplyView::<A, V>::Done,
    );
    reveal_with_fuel(state_at, 4);
    assert forall|k: nat| k < replies.len() implies (#[trigger] state_at(s, replies, k)).awaits(
        replies[k as int],
    ) by {
        assert(k == 0 || k == 1 || k == 2);
    }
    assert forall|k: nat| k < resets.len() implies #[trigger] request_at(s, replies, k)
        == resets[k as int] by {
        assert(k == 0 || k == 1);
    }
}

/// A packet is read only right after the shutdown flag was seen clear, and a
/// set flag ends the worker at once.
pub proof fn law_shutdown_is_heeded<A, V>(s: WorkerCtx, replies: Seq<ReplyView<A, V>>, k: nat)
    requires
        s.wf(),
        conversation(s, replies),
        k < replies.len(),
    ensures
        request_at(s, replies, k) is NextPacket ==> replies[k as int]
            == ReplyView::<A, V>::Shutdown(false),
        replies[k as int] == ReplyView::<A, V>::Shutdown(true) ==> request_at(
            s,
            replies,
            k,
        ) is Exit,
        replies[k as int] == ReplyView::<A, V>::Command(DecodeCmd::Shutdown) ==> request_at(
            s,
            replies,
            k,
        ) is Exit,
{
    law_state_stays_sound(s, replies, k);
    assert(state_at(s, replies, k).awaits(replies[k as int]));
}

/// A decoder is given a packet only where the packet's stream is routed to
/// that decoder and the decoder exists; such a packet is always given.
pub proof fn law_only_routed_packets_are_decoded<A, V>(
    s: WorkerCtx,
    replies: Seq<ReplyView<A, V>>,
    k: nat,
    track: Track,
)
    requires
        s.wf(),
        conversation(s, replies),
        k < replies.len(),
    ensures
        request_at(s, replies, k) == RequestView::<A, V>::SendPacket(track) <==> (
        replies[k as int] matches ReplyView::Packet(idx) && s.routed(idx) && s.track_of(idx)
            == track && s.has(track)),
{
    law_state_stays_sound(s, replies, k);
    assert(state_at(s, replies, k).awaits(replies[k as int]));
}

/// Whether the demuxer answered that it is at its end.
pub open spec fn is_end<A, V>(reply: ReplyView<A, V>) -> bool {
    reply matches ReplyView::ReadFailed(kind, _) && kind == ErrorKind::Eof
}

/// The end marker is sent only when every decoder there is was flushed and
/// then gave frames until it had no more: it follows a drained video decoder,
/// or a drained audio decoder where there is no video, or the demuxer's end
/// itself where there is no decoder at all. A video decoder is flushed at
/// the end only once the audio decoder, if there is one, is drained.
pub proof fn law_end_marker_comes_last<A, V>(s: WorkerCtx, replies: Seq<ReplyView<A, V>>, k: nat)
    requires
        s.wf(),
        conversation(s, replies),
        k < replies.len(),
    ensures
        request_at(s, replies, k) == RequestView::<A, V>::Emit(UnitView::Eof) <==> {
            let phase = state_at(s, replies, k).phase;
            let reply = replies[k as int];
            if s.has_video {
                phase == Phase::Draining(Track::Video) && reply is ReceiveFailed
            } else if s.has_audio {
                phase == Phase::Draining(Track::Audio) && reply is ReceiveFailed
            } else {
                is_end(reply)
            }
        },
        request_at(s, replies, k) == RequestView::<A, V>::Flush(Track::Video) <==> {
            let phase = state_at(s, replies, k).phase;
            let reply = replies[k as int];
            s.has_video && if s.has_audio {
                phase == Phase::Draining(Track::Audio) && reply is ReceiveFailed
            } else {
                is_end(reply)
            }
        },
        request_at(s, replies, k) == RequestView::<A, V>::Flush(Track::Audio) <==> s.has_audio
            && is_end(replies[k as int]),
{
    law_state_stays_sound(s, replies, k);
    assert(state_at(s, replies, k).awaits(replies[k as int]));
}

/// An error is unrecoverable: once one is sent the worker leaves, whether or
/// not anyone received it, so that an error is always the last unit.
pub proof fn law_error_is_the_last_unit<A, V>(s: WorkerCtx, replies: Seq<ReplyView<A, V>>, k: nat)
    requires
        s.wf(),
        conversation(s, replies),
        k + 1 < replies.len(),
        request_at(s, replies, k) matches RequestView::Emit(unit) && unit is Error,
    ensures
        request_at(s, replies, k + 1) is Exit,
        k + 2 == replies.len(),
{
    law_state_stays_sound(s, replies, k);
    assert(state_at(s, replies, k).awaits(replies[k as int]));
    assert(state_at(s, replies, k + 1).phase == Phase::Reporting);
    law_exit_is_last(s, replies, k + 1);
}

/// The error that a reply leads to, if any: a failed seek, a failed read
/// other than the end, a packet that a decoder refuses for another reason
/// than that it needs more data, and a decoder that fails to give a frame
/// otherwise than for want of data or at its end. A failure while draining
/// only ends the drain.
pub open spec fn error_of<A, V>(phase: Phase, reply: ReplyView<A, V>) -> Option<Seq<char>> {
    match (phase, reply) {
        (_, ReplyView::SeekFailed(e)) => Some(crate::decode_worker::seek_error(e)),
        (_, ReplyView::ReadFailed(kind, e)) if kind != ErrorKind::Eof => Some(e),
        (Phase::Sending(t), ReplyView::SendFailed(kind, e)) if kind != ErrorKind::NeedMore => Some(
            crate::decode_worker::refusal_error(t, e),
        ),
        (Phase::Receiving(t), ReplyView::ReceiveFailed(ErrorKind::Other, e)) => Some(
            crate::decode_worker::decode_error(t, e),
        ),
        _ => None,
    }
}

/// Every failure that counts is sent with its text, at once, and no other
/// errors are.
pub proof fn law_failures_are_reported<A, V>(s: WorkerCtx, replies: Seq<ReplyView<A, V>>, k: nat)
    requires
        s.wf(),
        conversation(s, replies),
        k < replies.len(),
    ensures
        match error_of(state_at(s, replies, k).phase, replies[k as int]) {
            Some(text) => request_at(s, replies, k) == RequestView::<A, V>::Emit(
                UnitView::Error(text),
            ),
            None => !(request_at(s, replies, k) matches RequestView::Emit(unit) && unit is Error),
        },
{
    law_state_stays_sound(s, replies, k);
    assert(state_at(s, replies, k).awaits(replies[k as int]));
}

/// The worker leaves as soon as any unit finds no receiver.
pub proof fn law_lost_receiver_ends_the_worker<A, V>(
    s: WorkerCtx,
    replies: Seq<ReplyView<A, V>>,
    k: nat,
)
    requires
        s.wf(),
        conversation(s, replies),
        k < replies.len(),
        replies[k as int] == ReplyView::<A, V>::Emitted(false),
    ensures
        request_at(s, replies, k) is Exit,
{
    law_state_stays_sound(s, replies, k);
    assert(state_at(s, replies, k).awaits(replies[k as int]));
}

} // verus!
