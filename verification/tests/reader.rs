use i3ipc_client::connection::{Async, ReadOutcome};
use i3ipc_client::error::ProtocolError;
use i3ipc_client::frame::{encode, Frame};
use i3ipc_client::reader::FrameReader;

fn frame(type_code: u32, payload: &str) -> Frame {
    Frame { type_code, payload: payload.as_bytes().to_vec() }
}

fn run_in_chunks(bytes: &[u8], size: usize) -> (Vec<Async<Result<Frame, ProtocolError>>>, FrameReader) {
    let mut reader = FrameReader::new();
    let mut answers = Vec::new();
    for chunk in bytes.chunks(size) {
        reader.feed(chunk);
        answers.push(reader.poll());
    }
    (answers, reader)
}

#[test]
fn header_in_two_byte_chunks() {
    let bytes = encode(0, "[]");

    let mut whole = FrameReader::new();
    whole.feed(&bytes[..14]);
    assert_eq!(whole.poll(), Async::NotReady);
    assert_eq!(whole.wanted(), 2);

    let mut pieces = FrameReader::new();
    pieces.feed(&bytes[0..2]);
    assert_eq!(pieces.poll(), Async::NotReady);
    assert_eq!(pieces.wanted(), 12);
    pieces.feed(&bytes[2..4]);
    assert_eq!(pieces.poll(), Async::NotReady);
    assert_eq!(pieces.wanted(), 10);
    pieces.feed(&bytes[4..6]);
    assert_eq!(pieces.poll(), Async::NotReady);
    assert_eq!(pieces.wanted(), 8);
    pieces.feed(&bytes[6..14]);
    assert_eq!(pieces.poll(), Async::NotReady);
    assert_eq!(pieces.wanted(), 2);

    whole.feed(&bytes[14..]);
    pieces.feed(&bytes[14..]);
    assert_eq!(whole.poll(), Async::Ready(Ok(frame(0, "[]"))));
    assert_eq!(pieces.poll(), Async::Ready(Ok(frame(0, "[]"))));
}

#[test]
fn every_chunk_size_gives_the_same_frame() {
    let payload = "{\"success\":true,\"note\":\"\u{2713}\"}";
    let bytes = encode(9, payload);
    for size in 1..=bytes.len() {
        let (answers, mut reader) = run_in_chunks(&bytes, size);
        let (last, before) = answers.split_last().unwrap();
        assert_eq!(last, &Async::Ready(Ok(frame(9, payload))));
        for answer in before {
            assert_eq!(answer, &Async::NotReady);
        }
        assert_eq!(reader.poll(), Async::NotReady);
        assert_eq!(reader.wanted(), 14);
    }
}

#[test]
fn uneven_chunks_give_the_same_frame() {
    let bytes = encode(1, "[{\"num\":1},{\"num\":2}]");
    let cuts = [1, 4, 5, 13, 14, 15, 30];
    let mut reader = FrameReader::new();
    let mut from = 0;
    for cut in cuts {
        reader.feed(&bytes[from..cut]);
        assert_eq!(reader.poll(), Async::NotReady);
        from = cut;
    }
    reader.feed(&bytes[from..]);
    assert_eq!(reader.poll(), Async::Ready(Ok(frame(1, "[{\"num\":1},{\"num\":2}]"))));
}

#[test]
fn wanted_counts_down_header_then_payload() {
    let bytes = encode(0, "12345");
    let mut reader = FrameReader::new();
    assert_eq!(reader.wanted(), 14);
    reader.feed(&bytes[..5]);
    assert_eq!(reader.wanted(), 9);
    reader.feed(&bytes[5..14]);
    assert_eq!(reader.wanted(), 5);
    reader.feed(&bytes[14..17]);
    assert_eq!(reader.wanted(), 2);
    reader.feed(&bytes[17..]);
    assert_eq!(reader.wanted(), 0);
    assert_eq!(reader.poll(), Async::Ready(Ok(frame(0, "12345"))));
    assert_eq!(reader.wanted(), 14);
}

#[test]
fn bad_magic_from_the_stream() {
    let mut reader = FrameReader::new();
    reader.feed(b"X3-ipz");
    assert_eq!(reader.poll(), Async::NotReady);
    reader.feed(&[2, 0, 0, 0, 0, 0, 0, 0]);
    let expected = Async::Ready(Err(ProtocolError::BadMagic(b"X3-ipz".to_vec())));
    assert_eq!(reader.poll(), expected);
    assert_eq!(reader.wanted(), 0);
    reader.feed(b"[]");
    reader.feed(&encode(0, "[]"));
    assert_eq!(reader.poll(), expected);
}

#[test]
fn bad_magic_cut_short_by_the_end_of_the_stream() {
    let mut reader = FrameReader::new();
    reader.feed(b"X3-ipz");
    reader.feed(&[]);
    assert_eq!(reader.poll(), Async::Ready(Err(ProtocolError::UnexpectedEof)));
}

#[test]
fn end_of_stream_inside_the_header() {
    let bytes = encode(0, "[]");
    for n in 0..14 {
        let mut reader = FrameReader::new();
        if n > 0 {
            reader.feed(&bytes[..n]);
        }
        assert_eq!(reader.poll(), Async::NotReady);
        reader.feed(&[]);
        assert_eq!(reader.poll(), Async::Ready(Err(ProtocolError::UnexpectedEof)));
        assert_eq!(reader.wanted(), 0);
    }
}

#[test]
fn end_of_stream_inside_the_payload() {
    let bytes = encode(0, "[1,2,3]");
    let mut reader = FrameReader::new();
    reader.feed(&bytes[..bytes.len() - 3]);
    assert_eq!(reader.poll(), Async::NotReady);
    assert_eq!(reader.wanted(), 3);
    reader.read(&[], ReadOutcome::Eof);
    assert_eq!(reader.poll(), Async::Ready(Err(ProtocolError::UnexpectedEof)));
    reader.feed(&bytes[bytes.len() - 3..]);
    assert_eq!(reader.poll(), Async::Ready(Err(ProtocolError::UnexpectedEof)));
}

#[test]
fn frames_leave_in_the_order_of_arrival() {
    let mut bytes = encode(0x8000_0003, "{\"change\":\"new\"}");
    bytes.extend_from_slice(&encode(0x8000_0000, "{\"change\":\"focus\"}"));
    bytes.extend_from_slice(&encode(0x8000_0003, "{\"change\":\"close\"}"));
    let mut reader = FrameReader::new();
    reader.feed(&bytes);
    reader.feed(&[]);
    assert_eq!(reader.poll(), Async::Ready(Ok(frame(0x8000_0003, "{\"change\":\"new\"}"))));
    assert_eq!(reader.poll(), Async::Ready(Ok(frame(0x8000_0000, "{\"change\":\"focus\"}"))));
    assert_eq!(reader.poll(), Async::Ready(Ok(frame(0x8000_0003, "{\"change\":\"close\"}"))));
    assert_eq!(reader.poll(), Async::Ready(Err(ProtocolError::UnexpectedEof)));
    assert_eq!(reader.poll(), Async::Ready(Err(ProtocolError::UnexpectedEof)));
}

#[test]
fn a_chunk_may_span_two_frames() {
    let first = encode(1, "[1]");
    let second = encode(1, "[22]");
    let mut bytes = first.clone();
    bytes.extend_from_slice(&second);
    let mut reader = FrameReader::new();
    reader.feed(&bytes[..first.len() + 5]);
    assert_eq!(reader.poll(), Async::Ready(Ok(frame(1, "[1]"))));
    assert_eq!(reader.poll(), Async::NotReady);
    assert_eq!(reader.wanted(), 9);
    reader.feed(&bytes[first.len() + 5..]);
    assert_eq!(reader.poll(), Async::Ready(Ok(frame(1, "[22]"))));
}

#[test]
fn read_takes_the_front_of_the_buffer() {
    let bytes = encode(0, "[]");
    let mut buf = [0xeeu8; 32];
    buf[..16].copy_from_slice(&bytes);
    let mut reader = FrameReader::new();
    reader.read(&buf, ReadOutcome::Pending);
    assert_eq!(reader.wanted(), 14);
    reader.read(&buf, ReadOutcome::Read(16));
    assert_eq!(reader.poll(), Async::Ready(Ok(frame(0, "[]"))));
    assert_eq!(reader.wanted(), 14);
    reader.read(&buf, ReadOutcome::Read(0));
    assert_eq!(reader.poll(), Async::Ready(Err(ProtocolError::UnexpectedEof)));
}

#[test]
fn empty_payload_frame() {
    let mut reader = FrameReader::new();
    reader.feed(&encode(10, ""));
    assert_eq!(reader.poll(), Async::Ready(Ok(frame(10, ""))));
}
