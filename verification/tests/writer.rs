use i3ipc_client::connection::{Async, WriteOutcome};
use i3ipc_client::frame::encode;
use i3ipc_client::writer::FrameWriter;

#[test]
fn new_writer_has_nothing_to_send() {
    let mut writer = FrameWriter::new();
    assert!(writer.is_done());
    assert_eq!(writer.unsent(), &b""[..]);
    assert_eq!(writer.wrote(WriteOutcome::Pending), Async::Ready(0));
}

#[test]
fn writing_resumes_at_the_first_unwritten_byte() {
    let frame = encode(0, "[\"nop\"]");
    let mut writer = FrameWriter::new();
    writer.load(frame.clone());
    let mut on_the_wire: Vec<u8> = Vec::new();
    for take in [3usize, 0, 1, 6, 2, 100] {
        let offered = writer.unsent();
        let n = take.min(offered.len());
        on_the_wire.extend_from_slice(&offered[..n]);
        let answer = writer.wrote(WriteOutcome::Written(n));
        assert_eq!(writer.unsent(), &frame[on_the_wire.len()..]);
        if on_the_wire.len() < frame.len() {
            assert_eq!(answer, Async::NotReady);
            assert!(!writer.is_done());
        } else {
            assert_eq!(answer, Async::Ready(frame.len()));
            assert!(writer.is_done());
        }
    }
    assert_eq!(on_the_wire, frame);
}

#[test]
fn pending_write_changes_nothing() {
    let frame = encode(0, "[]");
    let mut writer = FrameWriter::new();
    writer.load(frame.clone());
    assert_eq!(writer.wrote(WriteOutcome::Written(4)), Async::NotReady);
    assert_eq!(writer.wrote(WriteOutcome::Pending), Async::NotReady);
    assert_eq!(writer.unsent(), &frame[4..]);
}

#[test]
fn a_count_beyond_the_offer_stands_for_the_offer() {
    let frame = encode(0, "[]");
    let mut writer = FrameWriter::new();
    writer.load(frame.clone());
    assert_eq!(writer.wrote(WriteOutcome::Written(usize::MAX)), Async::Ready(16));
    assert_eq!(writer.unsent(), &b""[..]);
}

#[test]
fn load_replaces_the_frame() {
    let mut writer = FrameWriter::new();
    writer.load(encode(0, "[1]"));
    assert_eq!(writer.wrote(WriteOutcome::Written(5)), Async::NotReady);
    let next = encode(1, "");
    writer.load(next.clone());
    assert_eq!(writer.unsent(), &next[..]);
}
