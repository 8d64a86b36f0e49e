//! The receiving side of a connection: bytes come in as the stream hands
//! them over, in pieces of any size, and go out as whole frames.

use vstd::prelude::*;
use vstd::slice::slice_subrange;

use crate::connection::{Async, ReadOutcome};
use crate::error::{ProtocolError, ProtocolErrorView};
use crate::frame::{
    decode_header, frame_bytes, lemma_bad_magic, lemma_scan_complete_stays, lemma_scan_frame,
    lemma_scan_prefix, parse_header, scan, Frame, FrameView, Scan, HEADER_LEN,
};

verus! {

/// A `FrameReader` as contracts speak of it.
pub struct ReaderView {
    /// The bytes received and not yet given out in a frame, oldest first.
    pub pending: Seq<u8>,
    /// Whether the peer has closed the stream.
    pub eof: bool,
}

/// The result of asking a reader for a frame, as contracts speak of it.
pub type PollView = Async<Result<FrameView, ProtocolErrorView>>;

impl ReaderView {
    /// A reader that has received nothing.
    pub open spec fn fresh() -> ReaderView {
        ReaderView { pending: Seq::empty(), eof: false }
    }

    /// The reader after the stream handed over `chunk`. An empty chunk is the
    /// end of the stream, and nothing is taken after the end.
    pub open spec fn fed(self, chunk: Seq<u8>) -> ReaderView {
        if self.eof {
            self
        } else if chunk.len() == 0 {
            ReaderView { eof: true, ..self }
        } else {
            ReaderView { pending: self.pending + chunk, ..self }
        }
    }

    /// What asking for a frame gives: the oldest frame once all of it is
    /// there, an error once it cannot come any more, and else nothing yet.
    pub open spec fn status(self) -> PollView {
        match scan(self.pending) {
            Scan::Complete(frame) => Async::Ready(Ok(frame)),
            Scan::BadMagic(found) => Async::Ready(Err(ProtocolErrorView::BadMagic(found))),
            Scan::NeedMore(_) => if self.eof {
                Async::Ready(Err(ProtocolErrorView::UnexpectedEof))
            } else {
                Async::NotReady
            },
        }
    }

    /// The reader after it was asked for a frame: a frame given out is gone
    /// from the pending bytes, and nothing else changes.
    pub open spec fn polled(self) -> ReaderView {
        match scan(self.pending) {
            Scan::Complete(frame) => ReaderView {
                pending: self.pending.subrange(
                    frame.wire_len() as int,
                    self.pending.len() as int,
                ),
                ..self
            },
            _ => self,
        }
    }

    /// How many bytes the next read should ask for: what the header, or then
    /// the payload, still lacks.
    pub open spec fn wanted(self) -> nat {
        match scan(self.pending) {
            Scan::NeedMore(n) => if self.eof {
                0
            } else {
                n
            },
            _ => 0,
        }
    }

    /// Hands over the chunks one at a time and asks for a frame after each,
    /// until there is a result or the chunks are used up. Gives the reader
    /// as it is then, and the last answer.
    pub open spec fn run(self, chunks: Seq<Seq<u8>>) -> (ReaderView, PollView)
        decreases chunks.len(),
    {
        if chunks.len() == 0 {
            (self.polled(), self.status())
        } else {
            let next = self.fed(chunks.first());
            if next.status() is NotReady {
                next.run(chunks.drop_first())
            } else {
                (next.polled(), next.status())
            }
        }
    }
}

/// The bytes of several frames, one behind the other.
pub open spec fn wire(frames: Seq<FrameView>) -> Seq<u8>
    decreases frames.len(),
{
    if frames.len() == 0 {
        Seq::empty()
    } else {
        frames.first().bytes() + wire(frames.drop_first())
    }
}

/// An answer, once given, stands: whatever the stream hands over afterwards,
/// the same frame is waiting or the same error is reported. A failed reader
/// does not come back to life.
pub proof fn lemma_answer_stands(r: ReaderView, chunk: Seq<u8>)
    requires
        r.status() is Ready,
    ensures
        r.fed(chunk).status() == r.status(),
{
    if !r.eof && chunk.len() > 0 {
        match scan(r.pending) {
            Scan::Complete(_) => {
                lemma_scan_complete_stays(r.pending, chunk);
            },
            Scan::BadMagic(_) => {
                lemma_bad_magic(r.pending, chunk);
                lemma_bad_magic(r.pending, Seq::empty());
                assert(r.pending + Seq::<u8>::empty() =~= r.pending);
            },
            Scan::NeedMore(_) => {},
        }
    }
}

/// Chunks that are not empty add up to something that is not empty.
proof fn lemma_flatten_nonempty(chunks: Seq<Seq<u8>>)
    requires
        chunks.len() > 0,
        forall|i: int| 0 <= i < chunks.len() ==> chunks[i].len() > 0,
    ensures
        chunks.flatten().len() > 0,
{
    assert(chunks.flatten() == chunks.first() + chunks.drop_first().flatten());
    assert(chunks[0].len() > 0);
}

/// However a run of bytes is cut into pieces, handing over the pieces one
/// at a time gives the answer that handing over the whole run at once gives.
pub proof fn lemma_chunking(r: ReaderView, chunks: Seq<Seq<u8>>)
    requires
        !r.eof,
        chunks.len() > 0,
        forall|i: int| 0 <= i < chunks.len() ==> chunks[i].len() > 0,
    ensures
        r.run(chunks).1 == r.fed(chunks.flatten()).status(),
    decreases chunks.len(),
{
    let head = chunks.first();
    let tail = chunks.drop_first();
    let next = r.fed(head);
    assert(chunks[0].len() > 0);
    assert(chunks.flatten() == head + tail.flatten());
    lemma_flatten_nonempty(chunks);
    if tail.len() == 0 {
        assert(tail.flatten() =~= Seq::<u8>::empty());
        assert(head + tail.flatten() =~= head);
    } else {
        assert forall|i: int| 0 <= i < tail.len() implies tail[i].len() > 0 by {
            assert(tail[i] == chunks[i + 1]);
        }
        lemma_flatten_nonempty(tail);
        assert(r.pending + (head + tail.flatten()) =~= (r.pending + head) + tail.flatten());
        assert(next.fed(tail.flatten()) == r.fed(chunks.flatten()));
        if next.status() is NotReady {
            lemma_chunking(next, tail);
        } else {
            lemma_answer_stands(next, tail.flatten());
        }
    }
}

/// A frame that arrives in pieces is the frame that arrives whole: the
/// reader stays silent until the last piece is there, then gives out the
/// frame, and keeps nothing.
pub proof fn lemma_frame_in_pieces(
    r: ReaderView,
    type_code: u32,
    payload: Seq<u8>,
    chunks: Seq<Seq<u8>>,
)
    requires
        !r.eof,
        payload.len() <= u32::MAX,
        chunks.len() > 0,
        forall|i: int| 0 <= i < chunks.len() ==> chunks[i].len() > 0,
        r.pending + chunks.flatten() == frame_bytes(type_code, payload),
    ensures
        r.run(chunks) == (
            ReaderView::fresh(),
            Async::<Result<FrameView, ProtocolErrorView>>::Ready(
                Ok(FrameView { type_code, payload }),
            ),
        ),
        r.run(chunks) == r.run(seq![chunks.flatten()]),
    decreases chunks.len(),
{
    let whole = frame_bytes(type_code, payload);
    let frame = FrameView { type_code, payload };
    let head = chunks.first();
    let tail = chunks.drop_first();
    let next = r.fed(head);
    assert(chunks[0].len() > 0);
    assert(chunks.flatten() == head + tail.flatten());
    lemma_flatten_nonempty(chunks);
    lemma_scan_frame(type_code, payload, Seq::empty());
    assert(whole + Seq::<u8>::empty() =~= whole);
    assert(whole.subrange(frame.wire_len() as int, whole.len() as int) =~= Seq::<u8>::empty());
    let once = seq![chunks.flatten()];
    assert(once.first() == chunks.flatten());
    assert(once.drop_first().len() == 0);
    assert(r.fed(chunks.flatten()).pending == whole);
    reveal_with_fuel(ReaderView::run, 2);
    if tail.len() == 0 {
        assert(tail.flatten() =~= Seq::<u8>::empty());
        assert(head + tail.flatten() =~= head);
    } else {
        assert forall|i: int| 0 <= i < tail.len() implies tail[i].len() > 0 by {
            assert(tail[i] == chunks[i + 1]);
        }
        lemma_flatten_nonempty(tail);
        assert(r.pending + (head + tail.flatten()) =~= (r.pending + head) + tail.flatten());
        assert(next.pending =~= whole.subrange(0, next.pending.len() as int));
        lemma_scan_prefix(type_code, payload, next.pending.len() as int);
        lemma_frame_in_pieces(next, type_code, payload, tail);
    }
}

/// Frames leave in the order in which their bytes came: where the pending
/// bytes are those of some frames, the first of them is given out and the
/// others remain.
pub proof fn lemma_oldest_first(r: ReaderView, frames: Seq<FrameView>, rest: Seq<u8>)
    requires
        frames.len() > 0,
        forall|i: int| 0 <= i < frames.len() ==> frames[i].payload.len() <= u32::MAX,
        r.pending == wire(frames) + rest,
    ensures
        r.status() == Async::<Result<FrameView, ProtocolErrorView>>::Ready(Ok(frames.first())),
        r.polled() == (ReaderView { pending: wire(frames.drop_first()) + rest, eof: r.eof }),
{
    let first = frames.first();
    let after = wire(frames.drop_first()) + rest;
    assert(frames[0].payload.len() <= u32::MAX);
    assert(r.pending =~= first.bytes() + after);
    lemma_scan_frame(first.type_code, first.payload, after);
    assert(r.pending.subrange(first.wire_len() as int, r.pending.len() as int) =~= after);
}

/// With nothing pending, the answer is silence while the stream is open and
/// `UnexpectedEof` once it has closed: the end of the stream is never taken
/// for the end of the frames.
pub proof fn lemma_empty_reader(r: ReaderView)
    requires
        r.pending.len() == 0,
    ensures
        r.polled() == r,
        r.status() == if r.eof {
            Async::<Result<FrameView, ProtocolErrorView>>::Ready(
                Err(ProtocolErrorView::UnexpectedEof),
            )
        } else {
            Async::NotReady
        },
{
}

/// A payload comes whole or not at all: where the header claims more
/// bytes than have followed it, the reader waits while the stream is open
/// and reports `UnexpectedEof` once it has closed, and keeps what it has.
pub proof fn lemma_payload_whole_or_none(r: ReaderView, len: u32, type_code: u32)
    requires
        parse_header(r.pending) == Ok::<(u32, u32), ProtocolErrorView>((len, type_code)),
        r.pending.len() < HEADER_LEN + len,
    ensures
        r.polled() == r,
        r.wanted() == if r.eof {
            0
        } else {
            HEADER_LEN + len - r.pending.len()
        },
        r.status() == if r.eof {
            Async::<Result<FrameView, ProtocolErrorView>>::Ready(
                Err(ProtocolErrorView::UnexpectedEof),
            )
        } else {
            Async::NotReady
        },
{
}

/// The view of what `poll` returned.
pub open spec fn poll_view(r: Async<Result<Frame, ProtocolError>>) -> PollView {
    match r {
        Async::Ready(Ok(frame)) => Async::Ready(Ok(frame@)),
        Async::Ready(Err(e)) => Async::Ready(Err(e@)),
        Async::NotReady => Async::NotReady,
    }
}

/// Collects what the stream delivers and cuts it into frames.
#[derive(Debug)]
pub struct FrameReader {
    buf: Vec<u8>,
    eof: bool,
}

impl View for FrameReader {
    type V = ReaderView;

    closed spec fn view(&self) -> ReaderView {
        ReaderView { pending: self.buf@, eof: self.eof }
    }
}

impl FrameReader {
    /// A reader that has received nothing.
    pub fn new() -> (r: FrameReader)
        ensures
            r@ == ReaderView::fresh(),
    {
        FrameReader { buf: Vec::new(), eof: false }
    }

    /// Takes the bytes that the stream handed over, which may be any part of
    /// a frame or of several.
    pub fn feed(&mut self, chunk: &[u8])
        ensures
            final(self)@ == old(self)@.fed(chunk@),
    {
        if self.eof {
            return ;
        }
        if chunk.len() == 0 {
            self.eof = true;
            return ;
        }
        let ghost before = self.buf@;
        let mut i: usize = 0;
        while i < chunk.len()
            invariant
                i <= chunk@.len(),
                self.eof == old(self).eof,
                self.buf@ == before + chunk@.subrange(0, i as int),
            decreases chunk@.len() - i,
        {
            self.buf.push(chunk[i]);
            i += 1;
            assert(self.buf@ =~= before + chunk@.subrange(0, i as int));
        }
        assert(chunk@.subrange(0, chunk@.len() as int) =~= chunk@);
    }

    /// Takes note of one read: `outcome` is what the stream reported, and
    /// `buf` the buffer that it read into.
    pub fn read(&mut self, buf: &[u8], outcome: ReadOutcome)
        requires
            outcome matches ReadOutcome::Read(n) ==> n <= buf@.len(),
        ensures
            final(self)@ == match outcome {
                ReadOutcome::Read(n) => old(self)@.fed(buf@.subrange(0, n as int)),
                ReadOutcome::Eof => old(self)@.fed(Seq::empty()),
                ReadOutcome::Pending => old(self)@,
            },
    {
        match outcome {
            ReadOutcome::Read(n) => self.feed(slice_subrange(buf, 0, n)),
            ReadOutcome::Eof => {
                self.eof = true;
            },
            ReadOutcome::Pending => {},
        }
    }

    /// How many bytes the next read should ask for. Reading no more than
    /// this leaves the bytes of later frames in the stream.
    pub fn wanted(&self) -> (n: usize)
        ensures
            n == self@.wanted(),
    {
        if self.eof {
            return 0;
        }
        let have = self.buf.len();
        if have < HEADER_LEN {
            return HEADER_LEN - have;
        }
        match decode_header(self.buf.as_slice()) {
            Err(_) => 0,
            Ok((len, _)) => {
                let body = have - HEADER_LEN;
                if body < len as usize {
                    len as usize - body
                } else {
                    0
                }
            },
        }
    }

    /// Asks for the oldest frame. A frame that is given out leaves the
    /// reader; an error stays, and comes again at the next call.
    pub fn poll(&mut self) -> (r: Async<Result<Frame, ProtocolError>>)
        ensures
            poll_view(r) == old(self)@.status(),
            final(self)@ == old(self)@.polled(),
    {
        let have = self.buf.len();
        if have < HEADER_LEN {
            return self.starved();
        }
        match decode_header(self.buf.as_slice()) {
            Err(e) => Async::Ready(Err(e)),
            Ok((len, type_code)) => {
                if have - HEADER_LEN < len as usize {
                    return self.starved();
                }
                let rest = self.buf.split_off(HEADER_LEN + len as usize);
                let payload = self.buf.split_off(HEADER_LEN);
                self.buf = rest;
                assert(payload@ =~= old(self).buf@.subrange(HEADER_LEN as int, HEADER_LEN + len));
                Async::Ready(Ok(Frame { type_code, payload }))
            },
        }
    }

    /// The answer while the oldest frame is not all there.
    fn starved(&self) -> (r: Async<Result<Frame, ProtocolError>>)
        requires
            scan(self@.pending) is NeedMore,
        ensures
            poll_view(r) == self@.status(),
    {
        if self.eof {
            Async::Ready(Err(ProtocolError::UnexpectedEof))
        } else {
            Async::NotReady
        }
    }
}

} // verus!
