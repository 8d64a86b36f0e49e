use i3ipc_client::connection::{Async, ReadOutcome, WriteOutcome};
use i3ipc_client::error::{Error, ProtocolError};
use i3ipc_client::event::EventKind;
use i3ipc_client::frame::{encode, Frame};
use i3ipc_client::stream::{ack_verdict, I3Stream, Phase, Step};

fn frame(type_code: u32, payload: &str) -> Frame {
    Frame { type_code, payload: payload.as_bytes().to_vec() }
}

fn write_out(stream: &mut I3Stream) -> Vec<u8> {
    let out = stream.unsent().to_vec();
    assert_eq!(stream.wrote(WriteOutcome::Written(out.len())), Async::Ready(out.len()));
    out
}

fn subscribed(events: &[EventKind], strict: bool) -> I3Stream {
    let mut stream = I3Stream::new();
    stream.subscribe(events, strict).unwrap();
    write_out(&mut stream);
    stream.feed(&encode(2, "{\"success\":true}"));
    assert_eq!(stream.send_receive(), Step::Subscribed);
    assert_eq!(stream.phase(), Phase::Streaming);
    stream
}

#[test]
fn new_stream_is_idle() {
    let mut stream = I3Stream::new();
    assert_eq!(stream.phase(), Phase::Idle);
    assert!(stream.is_idle());
    assert_eq!(stream.unsent(), &b""[..]);
    assert_eq!(stream.wanted(), 0);
    assert_eq!(stream.send_receive(), Step::Idle);
    assert_eq!(I3Stream::MAGIC, "i3-ipc");
}

#[test]
fn command_round_trip() {
    let mut stream = I3Stream::new();
    assert_eq!(stream.send_msg(0, "[]"), 16);
    assert_eq!(stream.phase(), Phase::SendingCommand);
    assert_eq!(stream.send_receive(), Step::Write);
    assert_eq!(stream.unsent(), &encode(0, "[]")[..]);
    assert_eq!(stream.wanted(), 0);
    assert_eq!(stream.wrote(WriteOutcome::Written(16)), Async::Ready(16));
    assert_eq!(stream.phase(), Phase::AwaitingReply);
    assert_eq!(stream.unsent(), &b""[..]);
    assert_eq!(stream.send_receive(), Step::Read(14));
    let reply = encode(0, "[{\"success\":true}]");
    stream.feed(&reply[..14]);
    assert_eq!(stream.send_receive(), Step::Read(18));
    stream.feed(&reply[14..]);
    assert_eq!(stream.send_receive(), Step::Reply(frame(0, "[{\"success\":true}]")));
    assert_eq!(stream.phase(), Phase::Idle);
    assert_eq!(stream.send_receive(), Step::Idle);
}

#[test]
fn commands_follow_one_another() {
    let mut stream = I3Stream::new();
    for (code, request, answer) in [(1u32, "", "[]"), (7, "", "{\"major\":4}"), (0, "nop", "[{}]")] {
        assert!(stream.is_idle());
        stream.send_msg(code, request);
        assert_eq!(write_out(&mut stream), encode(code, request));
        stream.feed(&encode(code, answer));
        assert_eq!(stream.receive_msg(), Async::Ready(Ok(frame(code, answer))));
    }
}

#[test]
fn partial_writes_put_the_frame_on_the_wire_once() {
    let mut stream = I3Stream::new();
    let len = stream.send_msg(0, "workspace 3");
    let mut on_the_wire: Vec<u8> = Vec::new();
    let mut takes = [1usize, 0, 4, 9, 2, 50].into_iter();
    loop {
        assert_eq!(stream.send_receive(), Step::Write);
        assert_eq!(stream.wrote(WriteOutcome::Pending), Async::NotReady);
        let offered = stream.unsent();
        let n = takes.next().unwrap().min(offered.len());
        on_the_wire.extend_from_slice(&offered[..n]);
        match stream.wrote(WriteOutcome::Written(n)) {
            Async::Ready(total) => {
                assert_eq!(total, len);
                break;
            }
            Async::NotReady => assert_eq!(stream.phase(), Phase::SendingCommand),
        }
    }
    assert_eq!(on_the_wire, encode(0, "workspace 3"));
    assert_eq!(stream.phase(), Phase::AwaitingReply);
}

#[test]
fn reply_in_single_bytes() {
    let mut stream = I3Stream::new();
    stream.send_msg(4, "");
    write_out(&mut stream);
    let reply = encode(4, "{\"id\":1,\"nodes\":[]}");
    let (last, before) = reply.split_last().unwrap();
    for (i, byte) in before.iter().enumerate() {
        stream.read(&[*byte, 0, 0], ReadOutcome::Read(1));
        stream.read(&[9, 9, 9], ReadOutcome::Pending);
        let left = if i + 1 < 14 { 14 - (i + 1) } else { reply.len() - (i + 1) };
        assert_eq!(stream.send_receive(), Step::Read(left));
        assert_eq!(stream.wanted(), left);
    }
    stream.read(&[*last], ReadOutcome::Read(1));
    assert_eq!(stream.receive_msg(), Async::Ready(Ok(frame(4, "{\"id\":1,\"nodes\":[]}"))));
}

#[test]
fn reply_with_bad_magic_closes_the_stream() {
    let mut stream = I3Stream::new();
    stream.send_msg(0, "[]");
    write_out(&mut stream);
    stream.feed(b"X3-ipz\x02\x00\x00\x00\x00\x00\x00\x00[]");
    assert_eq!(
        stream.receive_msg(),
        Async::Ready(Err(Error::Protocol(ProtocolError::BadMagic(b"X3-ipz".to_vec()))))
    );
    assert_eq!(stream.phase(), Phase::Closed);
    assert_eq!(stream.send_receive(), Step::Closed);
    assert_eq!(stream.wanted(), 0);
}

#[test]
fn reply_cut_short_is_unexpected_eof() {
    let reply = encode(0, "[{\"success\":true}]");
    for n in [0, 5, 14, 20] {
        let mut stream = I3Stream::new();
        stream.send_msg(0, "[]");
        write_out(&mut stream);
        if n > 0 {
            stream.feed(&reply[..n]);
        }
        assert_eq!(stream.receive_msg(), Async::NotReady);
        stream.read(&[], ReadOutcome::Eof);
        assert_eq!(
            stream.send_receive(),
            Step::Failed(Error::Protocol(ProtocolError::UnexpectedEof))
        );
        assert_eq!(stream.phase(), Phase::Closed);
    }
}

#[test]
fn subscription_request_names_the_kinds() {
    let mut stream = I3Stream::new();
    let len = stream.subscribe(&[EventKind::Window], false).unwrap();
    assert_eq!(stream.phase(), Phase::SendingSubscribe);
    assert_eq!(stream.unsent(), &encode(2, "[\"window\"]")[..]);
    assert_eq!(len, 14 + 10);

    let mut stream = I3Stream::new();
    let all = [
        EventKind::Workspace,
        EventKind::Output,
        EventKind::Mode,
        EventKind::Window,
        EventKind::BarConfigUpdate,
        EventKind::Binding,
        EventKind::Shutdown,
        EventKind::Tick,
    ];
    stream.subscribe(&all, true).unwrap();
    let text = "[\"workspace\",\"output\",\"mode\",\"window\",\"barconfig_update\",\"binding\",\"shutdown\",\"tick\"]";
    assert_eq!(stream.unsent(), &encode(2, text)[..]);

    let mut stream = I3Stream::new();
    stream.subscribe(&[], false).unwrap();
    assert_eq!(stream.unsent(), &encode(2, "[]")[..]);
}

#[test]
fn subscription_request_that_could_not_be_written() {
    let mut stream = I3Stream::new();
    assert_eq!(stream.subscribe_with(&[EventKind::Tick], false, None), Err(Error::Io));
    assert_eq!(stream.phase(), Phase::Idle);
    assert_eq!(stream.unsent(), &b""[..]);
    assert_eq!(
        stream.subscribe_with(&[EventKind::Tick], false, Some("[\"tick\"]".to_string())),
        Ok(22)
    );
    assert_eq!(stream.unsent(), &encode(2, "[\"tick\"]")[..]);
}

#[test]
fn rejected_subscription_yields_no_event() {
    let mut stream = I3Stream::new();
    stream.subscribe(&[EventKind::Window], false).unwrap();
    write_out(&mut stream);
    assert_eq!(stream.phase(), Phase::AwaitingAck);
    assert_eq!(stream.send_receive(), Step::Read(14));
    stream.feed(&encode(2, "{\"success\": false}"));
    stream.feed(&encode(0x8000_0003, "{\"change\":\"focus\"}"));
    assert_eq!(stream.send_receive(), Step::Failed(Error::SubscribeRejected));
    assert_eq!(stream.phase(), Phase::Closed);
    for _ in 0..3 {
        assert_eq!(stream.wanted(), 0);
        assert_eq!(stream.send_receive(), Step::Closed);
        stream.feed(&encode(0x8000_0003, "{\"change\":\"title\"}"));
    }
}

#[test]
fn rejection_through_receive_ack() {
    let mut stream = I3Stream::new();
    stream.subscribe(&[EventKind::Window], false).unwrap();
    write_out(&mut stream);
    assert_eq!(stream.receive_ack(), Async::NotReady);
    stream.feed(&encode(2, "{\"success\":false,\"error\":\"no such event\"}"));
    assert_eq!(stream.receive_ack(), Async::Ready(Err(Error::SubscribeRejected)));
    assert_eq!(stream.phase(), Phase::Closed);
}

#[test]
fn answer_that_is_no_acknowledgement() {
    for answer in ["", "[]", "{\"success\":1}", "{\"succes\":true}", "{\"success\":true"] {
        let mut stream = I3Stream::new();
        stream.subscribe(&[EventKind::Mode], false).unwrap();
        write_out(&mut stream);
        stream.feed(&encode(2, answer));
        assert_eq!(
            stream.receive_ack(),
            Async::Ready(Err(Error::Deserialize(answer.as_bytes().to_vec())))
        );
        assert_eq!(stream.phase(), Phase::Closed);
    }
}

#[test]
fn acknowledgement_verdicts() {
    assert_eq!(ack_verdict(b"{\"success\":true}".to_vec(), Some(true)), Ok(()));
    assert_eq!(
        ack_verdict(b"{\"success\":false}".to_vec(), Some(false)),
        Err(Error::SubscribeRejected)
    );
    assert_eq!(ack_verdict(b"junk".to_vec(), None), Err(Error::Deserialize(b"junk".to_vec())));
}

#[test]
fn two_events_then_the_stream_closes() {
    let mut stream = I3Stream::new();
    stream.subscribe(&[EventKind::Window], false).unwrap();
    write_out(&mut stream);
    stream.feed(&encode(2, "{\"success\":true}"));
    assert_eq!(stream.send_receive(), Step::Subscribed);
    assert_eq!(stream.send_receive(), Step::Read(14));
    stream.feed(&encode(0x8000_0003, "{\"change\":\"new\"}"));
    stream.feed(&encode(0x8000_0003, "{\"change\":\"focus\"}"));
    stream.read(&[], ReadOutcome::Eof);
    assert_eq!(stream.send_receive(), Step::Event(frame(0x8000_0003, "{\"change\":\"new\"}")));
    assert_eq!(stream.send_receive(), Step::Event(frame(0x8000_0003, "{\"change\":\"focus\"}")));
    assert_eq!(
        stream.send_receive(),
        Step::Failed(Error::Protocol(ProtocolError::UnexpectedEof))
    );
    assert_eq!(stream.phase(), Phase::Closed);
    assert_eq!(stream.send_receive(), Step::Closed);
}

#[test]
fn events_arrive_in_pieces() {
    let mut stream = subscribed(&[EventKind::Workspace], false);
    let mut bytes = encode(0x8000_0000, "{\"change\":\"init\"}");
    bytes.extend_from_slice(&encode(0x8000_0000, "{\"change\":\"empty\"}"));
    let mut seen = Vec::new();
    for chunk in bytes.chunks(5) {
        stream.feed(chunk);
        loop {
            match stream.next_event() {
                Async::Ready(Ok(event)) => seen.push(event),
                Async::Ready(Err(e)) => panic!("the subscription failed: {:?}", e),
                Async::NotReady => break,
            }
        }
    }
    assert_eq!(
        seen,
        vec![
            frame(0x8000_0000, "{\"change\":\"init\"}"),
            frame(0x8000_0000, "{\"change\":\"empty\"}")
        ]
    );
    assert_eq!(stream.phase(), Phase::Streaming);
}

#[test]
fn lenient_subscription_passes_on_every_frame() {
    let mut stream = subscribed(&[EventKind::Window], false);
    stream.feed(&encode(0x8000_0000, "{}"));
    stream.feed(&encode(0x8000_0063, "{}"));
    stream.feed(&encode(1, "[]"));
    assert_eq!(stream.next_event(), Async::Ready(Ok(frame(0x8000_0000, "{}"))));
    assert_eq!(stream.next_event(), Async::Ready(Ok(frame(0x8000_0063, "{}"))));
    assert_eq!(stream.next_event(), Async::Ready(Ok(frame(1, "[]"))));
    assert_eq!(stream.next_event(), Async::NotReady);
}

#[test]
fn strict_subscription_refuses_what_was_not_asked_for() {
    let mut stream = subscribed(&[EventKind::Window, EventKind::Tick], true);
    stream.feed(&encode(0x8000_0007, "{\"first\":true,\"payload\":\"\"}"));
    stream.feed(&encode(0x8000_0003, "{\"change\":\"new\"}"));
    stream.feed(&encode(0x8000_0000, "{\"change\":\"focus\"}"));
    stream.feed(&encode(0x8000_0003, "{\"change\":\"close\"}"));
    assert_eq!(
        stream.next_event(),
        Async::Ready(Ok(frame(0x8000_0007, "{\"first\":true,\"payload\":\"\"}")))
    );
    assert_eq!(stream.next_event(), Async::Ready(Ok(frame(0x8000_0003, "{\"change\":\"new\"}"))));
    assert_eq!(
        stream.next_event(),
        Async::Ready(Err(Error::Protocol(ProtocolError::UnexpectedEventType(0x8000_0000))))
    );
    assert_eq!(stream.phase(), Phase::Closed);
    assert_eq!(stream.send_receive(), Step::Closed);
}

#[test]
fn strict_subscription_refuses_a_reply_frame() {
    let mut stream = subscribed(&[EventKind::Window], true);
    stream.feed(&encode(3, "[]"));
    assert_eq!(
        stream.send_receive(),
        Step::Failed(Error::Protocol(ProtocolError::UnexpectedEventType(3)))
    );
}

#[test]
fn event_with_bad_magic_ends_the_subscription() {
    let mut stream = subscribed(&[EventKind::Window], false);
    stream.feed(&encode(0x8000_0003, "{}"));
    stream.feed(b"i3-ipC\x00\x00\x00\x00\x03\x00\x00\x80");
    assert_eq!(stream.next_event(), Async::Ready(Ok(frame(0x8000_0003, "{}"))));
    assert_eq!(
        stream.next_event(),
        Async::Ready(Err(Error::Protocol(ProtocolError::BadMagic(b"i3-ipC".to_vec()))))
    );
    assert_eq!(stream.phase(), Phase::Closed);
}

#[test]
fn undecodable_event_ends_the_subscription() {
    let mut stream = subscribed(&[EventKind::Window], false);
    stream.feed(&encode(0x8000_0003, "{\"change\":\"new\"}"));
    stream.feed(&encode(0x8000_0003, "not json"));
    stream.feed(&encode(0x8000_0003, "{\"change\":\"close\"}"));

    let event = match stream.next_event() {
        Async::Ready(Ok(event)) => event,
        other => panic!("no event: {:?}", other),
    };
    let parsed: Option<serde_json::Value> = serde_json::from_slice(&event.payload).ok();
    let first = stream.event_response(event, parsed).unwrap();
    assert_eq!(first.evt_type, 0x8000_0003);
    assert_eq!(first.payload["change"], "new");
    assert_eq!(stream.phase(), Phase::Streaming);

    let event = match stream.next_event() {
        Async::Ready(Ok(event)) => event,
        other => panic!("no event: {:?}", other),
    };
    let parsed: Option<serde_json::Value> = serde_json::from_slice(&event.payload).ok();
    match stream.event_response(event, parsed) {
        Err(e) => assert_eq!(e, Error::Deserialize(b"not json".to_vec())),
        Ok(_) => panic!("plain words were decoded"),
    }
    assert_eq!(stream.phase(), Phase::Closed);
    assert_eq!(stream.send_receive(), Step::Closed);
}

#[test]
fn shutdown_is_final_and_may_be_repeated() {
    let mut stream = I3Stream::new();
    stream.send_msg(0, "exit");
    assert_eq!(stream.wrote(WriteOutcome::Written(3)), Async::NotReady);
    stream.shutdown();
    assert_eq!(stream.phase(), Phase::Closed);
    assert_eq!(stream.unsent(), &b""[..]);
    assert_eq!(stream.wanted(), 0);
    assert_eq!(stream.send_receive(), Step::Closed);
    stream.shutdown();
    assert_eq!(stream.phase(), Phase::Closed);
    assert_eq!(stream.wrote(WriteOutcome::Written(5)), Async::Ready(0));
    assert_eq!(stream.phase(), Phase::Closed);

    let mut stream = subscribed(&[EventKind::Window], false);
    stream.feed(&encode(0x8000_0003, "{}"));
    stream.shutdown();
    assert_eq!(stream.send_receive(), Step::Closed);
}

#[test]
fn stream_failure_closes_the_stream() {
    let mut stream = subscribed(&[EventKind::Window], false);
    assert_eq!(stream.io_failed(), Error::Io);
    assert_eq!(stream.phase(), Phase::Closed);
    assert_eq!(stream.send_receive(), Step::Closed);
}
