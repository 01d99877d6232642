use oxideplay::decode_worker::{
    DecodeCmd, DecodedUnit, ErrorKind, Phase, Reply, Request, Track, WorkerCtx, EOF_POLL_MILLIS,
    OUT_CAP,
};

type Req = Request<u32, u64>;
type Rep = Reply<u32, u64>;

fn name(r: &Req) -> String {
    match r {
        Request::CheckShutdown => "check".to_string(),
        Request::PollCommand => "poll".to_string(),
        Request::Seek { stream_idx, pts } => format!("seek {stream_idx} {pts}"),
        Request::Reset(t) => format!("reset {t:?}"),
        Request::Sleep(ms) => format!("sleep {ms}"),
        Request::NextPacket => "next".to_string(),
        Request::SendPacket(t) => format!("send {t:?}"),
        Request::ReceiveFrame(t) => format!("recv {t:?}"),
        Request::Flush(t) => format!("flush {t:?}"),
        Request::Emit(DecodedUnit::Audio(a)) => format!("emit audio {a}"),
        Request::Emit(DecodedUnit::Video(v)) => format!("emit video {v}"),
        Request::Emit(DecodedUnit::Seeked(p)) => format!("emit seeked {p}"),
        Request::Emit(DecodedUnit::Eof) => "emit eof".to_string(),
        Request::Emit(DecodedUnit::Error(e)) => format!("emit error {e}"),
        Request::Exit => "exit".to_string(),
    }
}

fn no_frame() -> Rep {
    Reply::ReceiveFailed(ErrorKind::NeedMore, "need more data".to_string())
}

fn end_of_stream() -> Rep {
    Reply::ReadFailed(ErrorKind::Eof, "end of stream".to_string())
}

fn both() -> WorkerCtx {
    WorkerCtx::new(Some(1), Some(0), true, true)
}

/// Gives each reply in turn and checks the request that follows it.
fn talk(ctx: &mut WorkerCtx, script: Vec<(Rep, &str)>) {
    for (i, (reply, expected)) in script.into_iter().enumerate() {
        let got = name(&ctx.step(reply));
        assert_eq!(got, expected, "turn {i}");
    }
}

/// From the top of the loop to waiting for a packet.
fn to_reading() -> Vec<(Rep, &'static str)> {
    vec![
        (Reply::Shutdown(false), "poll"),
        (Reply::NoCommand, "check"),
        (Reply::Shutdown(false), "next"),
    ]
}

#[test]
fn starts_at_the_top() {
    let ctx = both();
    assert_eq!(ctx.phase, Phase::Top);
    assert!(!ctx.eof);
    assert_eq!(ctx.audio_idx, Some(1));
    assert_eq!(ctx.video_idx, Some(0));
    assert!(ctx.has_audio);
    assert!(ctx.has_video);
    assert_eq!(OUT_CAP, 48);
    assert_eq!(EOF_POLL_MILLIS, 5);
}

#[test]
fn shutdown_flag_at_the_top_exits() {
    let mut ctx = both();
    talk(&mut ctx, vec![(Reply::Shutdown(true), "exit")]);
    assert_eq!(ctx.phase, Phase::Exited);
}

#[test]
fn shutdown_flag_before_a_packet_exits() {
    let mut ctx = both();
    talk(
        &mut ctx,
        vec![
            (Reply::Shutdown(false), "poll"),
            (Reply::NoCommand, "check"),
            (Reply::Shutdown(true), "exit"),
        ],
    );
}

#[test]
fn shutdown_command_exits() {
    let mut ctx = both();
    talk(
        &mut ctx,
        vec![(Reply::Shutdown(false), "poll"), (Reply::Command(DecodeCmd::Shutdown), "exit")],
    );
}

#[test]
fn lost_command_channel_exits() {
    let mut ctx = both();
    talk(&mut ctx, vec![(Reply::Shutdown(false), "poll"), (Reply::Disconnected, "exit")]);
}

#[test]
fn audio_packet_is_decoded_and_every_frame_sent() {
    let mut ctx = both();
    let mut script = to_reading();
    script.extend(vec![
        (Reply::Packet(1), "send Audio"),
        (Reply::Accepted, "recv Audio"),
        (Reply::AudioFrame(11), "emit audio 11"),
        (Reply::Emitted(true), "recv Audio"),
        (Reply::AudioFrame(12), "emit audio 12"),
        (Reply::Emitted(true), "recv Audio"),
        (no_frame(), "check"),
        (Reply::Shutdown(false), "poll"),
    ]);
    talk(&mut ctx, script);
}

#[test]
fn video_packet_is_decoded() {
    let mut ctx = both();
    let mut script = to_reading();
    script.extend(vec![
        (Reply::Packet(0), "send Video"),
        (Reply::Accepted, "recv Video"),
        (Reply::VideoFrame(7), "emit video 7"),
        (Reply::Emitted(true), "recv Video"),
        (no_frame(), "check"),
    ]);
    talk(&mut ctx, script);
}

#[test]
fn frames_of_another_kind_are_dropped_while_decoding() {
    let mut ctx = both();
    let mut script = to_reading();
    script.extend(vec![
        (Reply::Packet(1), "send Audio"),
        (Reply::Accepted, "recv Audio"),
        (Reply::VideoFrame(5), "recv Audio"),
        (Reply::OtherFrame, "recv Audio"),
        (Reply::AudioFrame(1), "emit audio 1"),
        (Reply::Emitted(true), "recv Audio"),
        (no_frame(), "check"),
    ]);
    talk(&mut ctx, script);
}

#[test]
fn unrouted_packets_are_skipped_inline() {
    let mut ctx = both();
    let mut script = to_reading();
    script.extend(vec![
        (Reply::Packet(2), "check"),
        (Reply::Shutdown(false), "next"),
        (Reply::Packet(9), "check"),
        (Reply::Shutdown(false), "next"),
        (Reply::Packet(1), "send Audio"),
    ]);
    talk(&mut ctx, script);
}

#[test]
fn routed_packet_without_decoder_is_ignored() {
    let mut ctx = WorkerCtx::new(Some(1), Some(0), true, false);
    let mut script = to_reading();
    script.push((Reply::Packet(0), "check"));
    script.push((Reply::Shutdown(false), "poll"));
    talk(&mut ctx, script);
}

#[test]
fn audio_wins_where_both_routes_agree() {
    let mut ctx = WorkerCtx::new(Some(3), Some(3), true, true);
    let mut script = to_reading();
    script.push((Reply::Packet(3), "send Audio"));
    talk(&mut ctx, script);
    let mut silent = WorkerCtx::new(Some(3), Some(3), false, true);
    let mut script = to_reading();
    script.push((Reply::Packet(3), "check"));
    talk(&mut silent, script);
}

#[test]
fn no_routes_means_no_decoding() {
    let mut ctx = WorkerCtx::new(None, None, false, false);
    let mut script = to_reading();
    script.extend(vec![
        (Reply::Packet(0), "check"),
        (Reply::Shutdown(false), "next"),
        (end_of_stream(), "emit eof"),
        (Reply::Emitted(true), "check"),
    ]);
    talk(&mut ctx, script);
    assert!(ctx.eof);
}

#[test]
fn refused_packet_is_the_last_unit() {
    for (idx, track, label) in [(1, "Audio", "audio"), (0, "Video", "video")] {
        for (kind, received) in [(ErrorKind::Other, true), (ErrorKind::Eof, false)] {
            let mut ctx = both();
            let send = format!("send {track}");
            let error = format!("emit error {label} decode: bad header");
            let mut script = to_reading();
            script.extend(vec![
                (Reply::Packet(idx), send.as_str()),
                (Reply::SendFailed(kind, "bad header".to_string()), error.as_str()),
                (Reply::Emitted(received), "exit"),
            ]);
            talk(&mut ctx, script);
        }
    }
}

#[test]
fn decoder_that_needs_more_is_asked_for_frames() {
    let mut ctx = both();
    let mut script = to_reading();
    script.extend(vec![
        (Reply::Packet(1), "send Audio"),
        (Reply::SendFailed(ErrorKind::NeedMore, "need more".to_string()), "recv Audio"),
        (Reply::AudioFrame(3), "emit audio 3"),
        (Reply::Emitted(true), "recv Audio"),
        (Reply::ReceiveFailed(ErrorKind::Eof, "end".to_string()), "check"),
    ]);
    talk(&mut ctx, script);
}

#[test]
fn failed_frame_is_the_last_unit() {
    for (idx, track, label) in [(1, "Audio", "audio"), (0, "Video", "video")] {
        for received in [true, false] {
            let mut ctx = both();
            let send = format!("send {track}");
            let recv = format!("recv {track}");
            let error = format!("emit error {label} recv: crc");
            let mut script = to_reading();
            script.extend(vec![
                (Reply::Packet(idx), send.as_str()),
                (Reply::Accepted, recv.as_str()),
                (Reply::ReceiveFailed(ErrorKind::Other, "crc".to_string()), error.as_str()),
                (Reply::Emitted(received), "exit"),
            ]);
            talk(&mut ctx, script);
            assert_eq!(ctx.phase, Phase::Exited);
        }
    }
}

#[test]
fn failed_read_is_the_last_unit() {
    for kind in [ErrorKind::Other, ErrorKind::NeedMore] {
        let mut ctx = both();
        let mut script = to_reading();
        script.push((
            Reply::ReadFailed(kind, "I/O error: gone".to_string()),
            "emit error I/O error: gone",
        ));
        script.push((Reply::Emitted(true), "exit"));
        talk(&mut ctx, script);
    }
}

#[test]
fn lost_receiver_exits() {
    let mut ctx = both();
    let mut script = to_reading();
    script.extend(vec![
        (Reply::Packet(1), "send Audio"),
        (Reply::Accepted, "recv Audio"),
        (Reply::AudioFrame(1), "emit audio 1"),
        (Reply::Emitted(false), "exit"),
    ]);
    talk(&mut ctx, script);
}

fn at_the_end() -> Vec<(Rep, &'static str)> {
    let mut script = to_reading();
    script.extend(vec![
        (end_of_stream(), "flush Audio"),
        (Reply::Done, "recv Audio"),
        (Reply::AudioFrame(5), "emit audio 5"),
        (Reply::Emitted(true), "recv Audio"),
        (no_frame(), "flush Video"),
        (Reply::Done, "recv Video"),
        (Reply::VideoFrame(6), "emit video 6"),
        (Reply::Emitted(true), "recv Video"),
        (no_frame(), "emit eof"),
        (Reply::Emitted(true), "check"),
    ]);
    script
}

#[test]
fn end_flushes_both_decoders_then_marks() {
    let mut ctx = both();
    talk(&mut ctx, at_the_end());
    assert!(ctx.eof);
    assert_eq!(ctx.phase, Phase::Top);
}

#[test]
fn end_without_audio_flushes_video_only() {
    let mut ctx = WorkerCtx::new(None, Some(0), false, true);
    let mut script = to_reading();
    script.extend(vec![
        (end_of_stream(), "flush Video"),
        (Reply::Done, "recv Video"),
        (no_frame(), "emit eof"),
        (Reply::Emitted(false), "exit"),
    ]);
    talk(&mut ctx, script);
    assert!(!ctx.eof);
}

#[test]
fn draining_goes_on_past_frames_of_another_kind() {
    let mut ctx = WorkerCtx::new(Some(1), None, true, false);
    let mut script = to_reading();
    script.extend(vec![
        (end_of_stream(), "flush Audio"),
        (Reply::Done, "recv Audio"),
        (Reply::AudioFrame(1), "emit audio 1"),
        (Reply::Emitted(true), "recv Audio"),
        (Reply::OtherFrame, "recv Audio"),
        (Reply::VideoFrame(9), "recv Audio"),
        (Reply::AudioFrame(2), "emit audio 2"),
        (Reply::Emitted(true), "recv Audio"),
        (Reply::ReceiveFailed(ErrorKind::Eof, "end".to_string()), "emit eof"),
        (Reply::Emitted(true), "check"),
    ]);
    talk(&mut ctx, script);
    assert!(ctx.eof);
}

#[test]
fn draining_stops_at_any_failure() {
    for kind in [ErrorKind::NeedMore, ErrorKind::Eof, ErrorKind::Other] {
        let mut ctx = both();
        let mut script = to_reading();
        script.extend(vec![
            (end_of_stream(), "flush Audio"),
            (Reply::Done, "recv Audio"),
            (Reply::ReceiveFailed(kind, "late".to_string()), "flush Video"),
            (Reply::Done, "recv Video"),
            (Reply::AudioFrame(4), "recv Video"),
            (Reply::ReceiveFailed(kind, "late".to_string()), "emit eof"),
            (Reply::Emitted(true), "check"),
        ]);
        talk(&mut ctx, script);
    }
}

#[test]
fn after_the_end_only_commands_are_served() {
    let mut ctx = both();
    let mut script = at_the_end();
    script.extend(vec![
        (Reply::Shutdown(false), "poll"),
        (Reply::NoCommand, "sleep 5"),
        (Reply::Done, "check"),
        (Reply::Shutdown(false), "poll"),
        (Reply::NoCommand, "sleep 5"),
        (Reply::Done, "check"),
    ]);
    talk(&mut ctx, script);
}

#[test]
fn late_seek_brings_the_worker_back() {
    let mut ctx = both();
    let mut script = at_the_end();
    script.extend(vec![
        (Reply::Shutdown(false), "poll"),
        (Reply::Command(DecodeCmd::Seek { stream_idx: 1, pts: -40 }), "seek 1 -40"),
        (Reply::Landed(-64), "reset Audio"),
        (Reply::Done, "reset Video"),
        (Reply::Done, "emit seeked -64"),
        (Reply::Emitted(true), "poll"),
        (Reply::NoCommand, "check"),
        (Reply::Shutdown(false), "next"),
    ]);
    talk(&mut ctx, script);
    assert!(!ctx.eof);
}

#[test]
fn seek_resets_only_decoders_there_are() {
    let seek = || Reply::Command(DecodeCmd::Seek { stream_idx: 0, pts: 100 });
    let mut audio = WorkerCtx::new(Some(0), None, true, false);
    talk(
        &mut audio,
        vec![
            (Reply::Shutdown(false), "poll"),
            (seek(), "seek 0 100"),
            (Reply::Landed(96), "reset Audio"),
            (Reply::Done, "emit seeked 96"),
            (Reply::Emitted(false), "exit"),
        ],
    );
    let mut video = WorkerCtx::new(None, Some(0), false, true);
    talk(
        &mut video,
        vec![
            (Reply::Shutdown(false), "poll"),
            (seek(), "seek 0 100"),
            (Reply::Landed(96), "reset Video"),
            (Reply::Done, "emit seeked 96"),
        ],
    );
    let mut none = WorkerCtx::new(None, None, false, false);
    talk(
        &mut none,
        vec![
            (Reply::Shutdown(false), "poll"),
            (seek(), "seek 0 100"),
            (Reply::Landed(96), "emit seeked 96"),
        ],
    );
}

#[test]
fn failed_seek_is_the_last_unit() {
    let mut ctx = both();
    let mut script = at_the_end();
    script.extend(vec![
        (Reply::Shutdown(false), "poll"),
        (Reply::Command(DecodeCmd::Seek { stream_idx: 4, pts: 1 }), "seek 4 1"),
        (Reply::SeekFailed("unsupported: seek".to_string()), "emit error seek: unsupported: seek"),
        (Reply::Emitted(true), "exit"),
    ]);
    talk(&mut ctx, script);
    assert_eq!(ctx.phase, Phase::Exited);
}

#[test]
fn several_commands_are_drained_in_one_go() {
    let mut ctx = WorkerCtx::new(None, None, false, false);
    talk(
        &mut ctx,
        vec![
            (Reply::Shutdown(false), "poll"),
            (Reply::Command(DecodeCmd::Seek { stream_idx: 0, pts: 1 }), "seek 0 1"),
            (Reply::Landed(1), "emit seeked 1"),
            (Reply::Emitted(true), "poll"),
            (Reply::Command(DecodeCmd::Seek { stream_idx: 0, pts: 2 }), "seek 0 2"),
            (Reply::Landed(2), "emit seeked 2"),
            (Reply::Emitted(true), "poll"),
            (Reply::Command(DecodeCmd::Shutdown), "exit"),
        ],
    );
}

#[test]
fn frames_pass_in_order_over_several_packets() {
    let mut ctx = WorkerCtx::new(Some(0), None, true, false);
    let mut sent = Vec::new();
    let mut frames = vec![vec![1u32, 2], vec![], vec![3], vec![4, 5, 6]].into_iter();
    let mut current: Vec<u32> = Vec::new();
    let mut request: Req = Request::CheckShutdown;
    loop {
        let reply: Rep = match request {
            Request::CheckShutdown => Reply::Shutdown(false),
            Request::PollCommand => {
                if ctx.eof {
                    Reply::Command(DecodeCmd::Shutdown)
                } else {
                    Reply::NoCommand
                }
            }
            Request::NextPacket => match frames.next() {
                Some(f) => {
                    current = f;
                    current.reverse();
                    Reply::Packet(0)
                }
                None => {
                    current = vec![8, 7];
                    end_of_stream()
                }
            },
            Request::SendPacket(t) => {
                assert_eq!(t, Track::Audio);
                Reply::Accepted
            }
            Request::ReceiveFrame(_) => match current.pop() {
                Some(f) => Reply::AudioFrame(f),
                None => no_frame(),
            },
            Request::Flush(_) => Reply::Done,
            Request::Emit(unit) => {
                match unit {
                    DecodedUnit::Audio(a) => sent.push(a),
                    DecodedUnit::Eof => sent.push(100),
                    _ => unreachable!(),
                }
                Reply::Emitted(true)
            }
            Request::Exit => break,
            _ => unreachable!(),
        };
        request = ctx.step(reply);
    }
    assert_eq!(sent, vec![1, 2, 3, 4, 5, 6, 7, 8, 100]);
}
