//! One connection to the window manager, seen from the protocol: what has
//! to go out, what has come in, and what the caller should do next. The
//! socket is the caller's; this type never touches it.

use vstd::prelude::*;
use vstd::string::StringSliceAdditionalSpecFns;

use crate::connection::{Async, ReadOutcome, WriteOutcome};
use crate::error::{Error, ErrorView, ProtocolError, ProtocolErrorView};
use crate::event::{EventKind, SUBSCRIBE};
use crate::frame::{
    encode, fits, frame_bytes, lemma_scan_frame, lemma_scan_prefix, payload_fits, Frame,
    FrameView, HEADER_LEN, MAGIC,
};
use crate::json::{parse_success, subscribe_code, subscription_text, success_flag, write_subscription};
use crate::reader::{lemma_empty_reader, lemma_oldest_first, wire, FrameReader, ReaderView};
use crate::response::EventResponse;
use crate::writer::{FrameWriter, WriterView};

verus! {

/// Where a connection stands.
#[derive(Debug, Clone, Copy, PartialEq, Eq, Structural)]
pub enum Phase {
    /// Nothing is in flight: a command or a subscription may begin.
    Idle,
    /// A command is going out.
    SendingCommand,
    /// A command has gone out and its reply has not come in.
    AwaitingReply,
    /// A subscription request is going out.
    SendingSubscribe,
    /// A subscription request has gone out and the peer has not answered.
    AwaitingAck,
    /// The peer has accepted a subscription: events come in, and no
    /// request goes out any more.
    Streaming,
    /// The connection was shut down or has failed. It stays so.
    Closed,
}

/// What the caller of `send_receive` is to do next, or what came of the
/// exchange.
#[derive(Debug, Clone, PartialEq, Eq)]
pub enum Step {
    /// Nothing is in flight.
    Idle,
    /// Offer the bytes of `unsent` to the stream and report with `wrote`.
    Write,
    /// Read up to this many bytes from the stream and report with `read`.
    Read(usize),
    /// The reply to the command has come in. The connection is idle again.
    Reply(Frame),
    /// The peer has accepted the subscription. Events follow.
    Subscribed,
    /// An event has come in. More may follow.
    Event(Frame),
    /// The exchange has failed. The connection is closed.
    Failed(Error),
    /// The connection is closed.
    Closed,
}

/// A `Step` as contracts speak of it.
pub enum StepView {
    Idle,
    Write,
    Read(nat),
    Reply(FrameView),
    Subscribed,
    Event(FrameView),
    Failed(ErrorView),
    Closed,
}

impl View for Step {
    type V = StepView;

    open spec fn view(&self) -> StepView {
        match self {
            Step::Idle => StepView::Idle,
            Step::Write => StepView::Write,
            Step::Read(n) => StepView::Read(*n as nat),
            Step::Reply(frame) => StepView::Reply(frame@),
            Step::Subscribed => StepView::Subscribed,
            Step::Event(frame) => StepView::Event(frame@),
            Step::Failed(e) => StepView::Failed(e@),
            Step::Closed => StepView::Closed,
        }
    }
}

/// The result of asking a connection for a frame, as contracts speak of it.
pub type FrameOutcome = Async<Result<FrameView, ErrorView>>;

/// The result of asking a connection whether the peer has accepted a
/// subscription, as contracts speak of it.
pub type AckOutcome = Async<Result<(), ErrorView>>;

/// The view of what `receive_msg` and `next_event` return.
pub open spec fn frame_outcome(r: Async<Result<Frame, Error>>) -> FrameOutcome {
    match r {
        Async::Ready(Ok(frame)) => Async::Ready(Ok(frame@)),
        Async::Ready(Err(e)) => Async::Ready(Err(e@)),
        Async::NotReady => Async::NotReady,
    }
}

/// The view of what `receive_ack` returns.
pub open spec fn ack_outcome(r: Async<Result<(), Error>>) -> AckOutcome {
    match r {
        Async::Ready(Ok(())) => Async::Ready(Ok(())),
        Async::Ready(Err(e)) => Async::Ready(Err(e@)),
        Async::NotReady => Async::NotReady,
    }
}

/// The numbers of some event kinds, in the same order.
pub open spec fn kind_codes(kinds: Seq<EventKind>) -> Seq<u32> {
    Seq::new(kinds.len(), |i: int| kinds[i].spec_code())
}

/// What the peer's answer to a subscription request comes to. `flag` is
/// the answer's `success` field, or `None` where the answer could not be
/// read: only a clear yes makes a subscription.
pub open spec fn ack_verdict_spec(payload: Seq<u8>, flag: Option<bool>) -> Result<(), ErrorView> {
    match flag {
        Some(true) => Ok(()),
        Some(false) => Err(ErrorView::SubscribeRejected),
        None => Err(ErrorView::Deserialize(payload)),
    }
}

/// The frame that asks for a subscription, given the JSON text of the
/// request, or `None` where there is no text or it is too long for a frame.
pub open spec fn subscription_frame(text: Option<Seq<char>>) -> Option<Seq<u8>> {
    match text {
        Some(t) => if payload_fits(vstd::utf8::encode_utf8(t).len()) {
            Some(frame_bytes(SUBSCRIBE, vstd::utf8::encode_utf8(t)))
        } else {
            None
        },
        None => None,
    }
}

/// An `I3Stream` as contracts speak of it.
pub struct StreamView {
    pub phase: Phase,
    /// The frame that is going out, or went out last.
    pub writer: WriterView,
    /// What has come in and has not been given out.
    pub reader: ReaderView,
    /// The kinds of event that were asked for.
    pub subscribed: Seq<EventKind>,
    /// Whether an event of another kind is taken for a breach of protocol.
    pub strict: bool,
}

impl StreamView {
    /// A connection on which nothing has happened.
    pub open spec fn fresh() -> StreamView {
        StreamView {
            phase: Phase::Idle,
            writer: WriterView::idle(),
            reader: ReaderView::fresh(),
            subscribed: Seq::empty(),
            strict: false,
        }
    }

    /// Whether a frame is going out.
    pub open spec fn sending(self) -> bool {
        self.phase is SendingCommand || self.phase is SendingSubscribe
    }

    /// Whether a frame is expected to come in.
    pub open spec fn receiving(self) -> bool {
        self.phase is AwaitingReply || self.phase is AwaitingAck || self.phase is Streaming
    }

    /// There is something left to send exactly while a frame is going out.
    pub open spec fn wf(self) -> bool {
        self.writer.wf() && (self.sending() <==> !self.writer.done())
    }

    /// The connection once `frame` has been put before it, in `phase`.
    pub open spec fn began(self, frame: Seq<u8>, phase: Phase) -> StreamView {
        StreamView { phase, writer: WriterView::loaded(frame), ..self }
    }

    /// The connection after one attempt to write: once the whole frame has
    /// gone out, its answer is awaited.
    pub open spec fn wrote(self, outcome: WriteOutcome) -> StreamView {
        let writer = self.writer.wrote(outcome);
        StreamView {
            writer,
            phase: if writer.done() {
                match self.phase {
                    Phase::SendingCommand => Phase::AwaitingReply,
                    Phase::SendingSubscribe => Phase::AwaitingAck,
                    other => other,
                }
            } else {
                self.phase
            },
            ..self
        }
    }

    /// The connection after the stream handed over `chunk`.
    pub open spec fn fed(self, chunk: Seq<u8>) -> StreamView {
        StreamView { reader: self.reader.fed(chunk), ..self }
    }

    /// How many bytes the next read should ask for: none unless a frame is
    /// expected.
    pub open spec fn wanted(self) -> nat {
        if self.receiving() {
            self.reader.wanted()
        } else {
            0
        }
    }

    /// The connection shut: nothing goes out any more.
    pub open spec fn closed(self) -> StreamView {
        StreamView { phase: Phase::Closed, writer: WriterView::idle(), ..self }
    }

    /// The connection after a frame was given out.
    pub open spec fn polled(self) -> StreamView {
        StreamView { reader: self.reader.polled(), ..self }
    }

    /// Asking for the reply to a command: the frame once it is there, after
    /// which the connection is idle; a failure closes the connection.
    pub open spec fn received(self) -> (StreamView, FrameOutcome) {
        match self.reader.status() {
            Async::NotReady => (self, Async::NotReady),
            Async::Ready(Err(e)) => (self.closed(), Async::Ready(Err(ErrorView::Protocol(e)))),
            Async::Ready(Ok(frame)) => (
                StreamView { phase: Phase::Idle, ..self.polled() },
                Async::Ready(Ok(frame)),
            ),
        }
    }

    /// Asking for the peer's answer to a subscription request: events
    /// follow a yes, and anything else closes the connection.
    pub open spec fn acknowledged(self) -> (StreamView, AckOutcome) {
        match self.reader.status() {
            Async::NotReady => (self, Async::NotReady),
            Async::Ready(Err(e)) => (self.closed(), Async::Ready(Err(ErrorView::Protocol(e)))),
            Async::Ready(Ok(frame)) => match ack_verdict_spec(
                frame.payload,
                success_flag(frame.payload),
            ) {
                Ok(()) => (
                    StreamView { phase: Phase::Streaming, ..self.polled() },
                    Async::Ready(Ok(())),
                ),
                Err(e) => (self.polled().closed(), Async::Ready(Err(e))),
            },
        }
    }

    /// Whether a frame with this type code may come in as an event. Without
    /// `strict` every frame may; with it, only an event of a kind that was
    /// asked for.
    pub open spec fn expects(self, type_code: u32) -> bool {
        !self.strict || match EventKind::spec_from_wire(type_code) {
            Some(kind) => self.subscribed.contains(kind),
            None => false,
        }
    }

    /// Asking for the next event: the oldest frame that has come in. A
    /// failure closes the connection.
    pub open spec fn next_event(self) -> (StreamView, FrameOutcome) {
        match self.reader.status() {
            Async::NotReady => (self, Async::NotReady),
            Async::Ready(Err(e)) => (self.closed(), Async::Ready(Err(ErrorView::Protocol(e)))),
            Async::Ready(Ok(frame)) => if self.expects(frame.type_code) {
                (self.polled(), Async::Ready(Ok(frame)))
            } else {
                (
                    self.polled().closed(),
                    Async::Ready(
                        Err(
                            ErrorView::Protocol(
                                ProtocolErrorView::UnexpectedEventType(frame.type_code),
                            ),
                        ),
                    ),
                )
            },
        }
    }

    /// What `send_receive` does in each phase.
    pub open spec fn advance(self) -> (StreamView, StepView) {
        match self.phase {
            Phase::Idle => (self, StepView::Idle),
            Phase::SendingCommand | Phase::SendingSubscribe => (self, StepView::Write),
            Phase::AwaitingReply => match self.received().1 {
                Async::NotReady => (self, StepView::Read(self.reader.wanted())),
                Async::Ready(Ok(frame)) => (self.received().0, StepView::Reply(frame)),
                Async::Ready(Err(e)) => (self.received().0, StepView::Failed(e)),
            },
            Phase::AwaitingAck => match self.acknowledged().1 {
                Async::NotReady => (self, StepView::Read(self.reader.wanted())),
                Async::Ready(Ok(())) => (self.acknowledged().0, StepView::Subscribed),
                Async::Ready(Err(e)) => (self.acknowledged().0, StepView::Failed(e)),
            },
            Phase::Streaming => match self.next_event().1 {
                Async::NotReady => (self, StepView::Read(self.reader.wanted())),
                Async::Ready(Ok(frame)) => (self.next_event().0, StepView::Event(frame)),
                Async::Ready(Err(e)) => (self.next_event().0, StepView::Failed(e)),
            },
            Phase::Closed => (self, StepView::Closed),
        }
    }
}

/// What can happen to a connection in any phase: the events that the
/// caller reports and the questions that it asks.
pub enum Op {
    /// An attempt to write was reported.
    Wrote(WriteOutcome),
    /// The stream handed over a chunk.
    Fed(Seq<u8>),
    /// `send_receive` was called.
    Advance,
    /// The connection was shut down.
    Shutdown,
    /// The stream was reported to have failed.
    IoFailed,
    /// An event's payload was reported not to be what the caller expected.
    Undecoded,
}

impl StreamView {
    /// The connection after `op`.
    pub open spec fn after(self, op: Op) -> StreamView {
        match op {
            Op::Wrote(outcome) => self.wrote(outcome),
            Op::Fed(chunk) => self.fed(chunk),
            Op::Advance => self.advance().0,
            Op::Shutdown => self.closed(),
            Op::IoFailed => self.closed(),
            Op::Undecoded => self.closed(),
        }
    }

    /// The event that `op` hands to the caller, if it hands out one.
    pub open spec fn event_of(self, op: Op) -> Option<FrameView> {
        match op {
            Op::Advance => match self.advance().1 {
                StepView::Event(frame) => Some(frame),
                _ => None,
            },
            _ => None,
        }
    }

    /// The connection after all of `ops`, in their order.
    pub open spec fn after_all(self, ops: Seq<Op>) -> StreamView
        decreases ops.len(),
    {
        if ops.len() == 0 {
            self
        } else {
            self.after(ops.first()).after_all(ops.drop_first())
        }
    }

    /// The events that `ops` hand to the caller, in their order.
    pub open spec fn events_of(self, ops: Seq<Op>) -> Seq<FrameView>
        decreases ops.len(),
    {
        if ops.len() == 0 {
            Seq::empty()
        } else {
            let rest = self.after(ops.first()).events_of(ops.drop_first());
            match self.event_of(ops.first()) {
                Some(frame) => seq![frame] + rest,
                None => rest,
            }
        }
    }

    /// Hands over the chunks one at a time and calls `send_receive` after
    /// each, until the answer is something other than a request to read on
    /// or the chunks are used up. Gives the connection as it is then, and
    /// the last answer.
    pub open spec fn run(self, chunks: Seq<Seq<u8>>) -> (StreamView, StepView)
        decreases chunks.len(),
    {
        if chunks.len() == 0 {
            self.advance()
        } else {
            let next = self.fed(chunks.first());
            if next.advance().1 is Read {
                next.advance().0.run(chunks.drop_first())
            } else {
                next.advance()
            }
        }
    }

    /// The answers of `n` calls of `send_receive` in a row.
    pub open spec fn answers(self, n: nat) -> Seq<StepView>
        decreases n,
    {
        if n == 0 {
            Seq::empty()
        } else {
            seq![self.advance().1] + self.advance().0.answers((n - 1) as nat)
        }
    }

    /// The connection after `n` calls of `send_receive` in a row.
    pub open spec fn advanced(self, n: nat) -> StreamView
        decreases n,
    {
        if n == 0 {
            self
        } else {
            self.advance().0.advanced((n - 1) as nat)
        }
    }
}

/// Whatever happens to a connection leaves it well formed.
pub proof fn lemma_wf_kept(s: StreamView, op: Op)
    requires
        s.wf(),
    ensures
        s.after(op).wf(),
{
}

/// An event is handed out in one phase only: while a subscription that the
/// peer has accepted is running.
pub proof fn lemma_events_need_subscription(s: StreamView, op: Op)
    ensures
        s.event_of(op) is Some ==> s.phase is Streaming && op is Advance,
        s.after(op).phase is Streaming ==> s.phase is Streaming || (s.phase is AwaitingAck
            && op is Advance && s.advance().1 is Subscribed),
{
}

/// A closed connection stays closed and hands out nothing, whatever
/// happens to it afterwards.
pub proof fn lemma_closed_is_final(s: StreamView, ops: Seq<Op>)
    requires
        s.phase is Closed,
    ensures
        s.after_all(ops).phase is Closed,
        s.events_of(ops) == Seq::<FrameView>::empty(),
    decreases ops.len(),
{
    if ops.len() > 0 {
        lemma_closed_is_final(s.after(ops.first()), ops.drop_first());
    }
}

/// A subscription that the peer does not accept yields no event, ever:
/// where the answer to the request is anything but a clear yes, the caller
/// is told so at once, with `SubscribeRejected` for a clear no, the
/// connection is closed, and nothing that happens later hands out an event.
pub proof fn lemma_rejection_ends_subscription(s: StreamView, answer: FrameView, ops: Seq<Op>)
    requires
        s.phase is AwaitingAck,
        s.reader.status() == Async::<Result<FrameView, ProtocolErrorView>>::Ready(Ok(answer)),
        success_flag(answer.payload) != Some(true),
    ensures
        s.advance().1 is Failed,
        success_flag(answer.payload) == Some(false) ==> s.advance().1 == StepView::Failed(
            ErrorView::SubscribeRejected,
        ),
        s.advance().0.phase is Closed,
        s.events_of(seq![Op::Advance] + ops) == Seq::<FrameView>::empty(),
{
    let all = seq![Op::Advance] + ops;
    assert(all.first() == Op::Advance);
    assert(all.drop_first() =~= ops);
    lemma_closed_is_final(s.advance().0, ops);
}

/// `send_receive` never asks for nothing: where it says to read, at least
/// one byte is wanted, so that a read of no bytes can only mean the end of
/// the stream; and where it says to write, there is something left to
/// offer, and what is offered is a rest of the frame.
pub proof fn lemma_steps_ask_for_something(s: StreamView)
    requires
        s.wf(),
    ensures
        s.advance().1 matches StepView::Read(n) ==> n > 0 && n == s.wanted() && s.advance().0 == s,
        s.advance().1 is Write ==> s.writer.unsent().len() > 0 && s.writer.taken()
            + s.writer.unsent() == s.writer.frame && s.advance().0 == s,
{
    if s.advance().1 is Write {
        assert(s.writer.taken() + s.writer.unsent() =~= s.writer.frame);
    }
}

/// Shutting a connection twice is shutting it once.
pub proof fn lemma_shutdown_once(s: StreamView)
    ensures
        s.closed().closed() == s.closed(),
        s.closed().wanted() == 0,
        s.closed().writer.unsent() == Seq::<u8>::empty(),
{
    assert(s.closed().writer.unsent() =~= Seq::<u8>::empty());
}

/// A frame that comes in in pieces, cut anywhere, is received as the frame
/// that comes in whole: the caller is asked to read on until the last piece
/// is there, and is then given the frame, as a reply where one is awaited
/// and as an event during a subscription. Nothing of it stays behind.
pub proof fn lemma_frame_received_in_pieces(
    s: StreamView,
    type_code: u32,
    payload: Seq<u8>,
    chunks: Seq<Seq<u8>>,
)
    requires
        s.phase is AwaitingReply || (s.phase is Streaming && s.expects(type_code)),
        !s.reader.eof,
        payload.len() <= u32::MAX,
        chunks.len() > 0,
        forall|i: int| 0 <= i < chunks.len() ==> chunks[i].len() > 0,
        s.reader.pending + chunks.flatten() == frame_bytes(type_code, payload),
    ensures
        s.run(chunks) == (
            StreamView {
                phase: if s.phase is Streaming {
                    Phase::Streaming
                } else {
                    Phase::Idle
                },
                reader: ReaderView::fresh(),
                ..s
            },
            if s.phase is Streaming {
                StepView::Event(FrameView { type_code, payload })
            } else {
                StepView::Reply(FrameView { type_code, payload })
            },
        ),
        s.run(chunks) == s.run(seq![chunks.flatten()]),
    decreases chunks.len(),
{
    let whole = frame_bytes(type_code, payload);
    let frame = FrameView { type_code, payload };
    let head = chunks.first();
    let tail = chunks.drop_first();
    let next = s.fed(head);
    assert(chunks[0].len() > 0);
    assert(chunks.flatten() == head + tail.flatten());
    lemma_scan_frame(type_code, payload, Seq::empty());
    assert(whole + Seq::<u8>::empty() =~= whole);
    assert(whole.subrange(frame.wire_len() as int, whole.len() as int) =~= Seq::<u8>::empty());
    let once = seq![chunks.flatten()];
    assert(once.first() == chunks.flatten());
    assert(once.drop_first().len() == 0);
    assert(chunks.flatten().len() > 0);
    assert(s.fed(chunks.flatten()).reader.pending == whole);
    reveal_with_fuel(StreamView::run, 2);
    if tail.len() == 0 {
        assert(tail.flatten() =~= Seq::<u8>::empty());
        assert(head + tail.flatten() =~= head);
    } else {
        assert forall|i: int| 0 <= i < tail.len() implies tail[i].len() > 0 by {
            assert(tail[i] == chunks[i + 1]);
        }
        assert(tail.flatten() == tail.first() + tail.drop_first().flatten());
        assert(tail[0].len() > 0);
        assert(s.reader.pending + (head + tail.flatten()) =~= (s.reader.pending + head)
            + tail.flatten());
        assert(next.reader.pending =~= whole.subrange(0, next.reader.pending.len() as int));
        lemma_scan_prefix(type_code, payload, next.reader.pending.len() as int);
        assert(next.advance().0 == next);
        lemma_frame_received_in_pieces(next, type_code, payload, tail);
    }
}

/// A subscription never ends in silence. It leaves the streaming phase
/// only for the closed one, and only because the caller shut it, because
/// the stream or the decoding of a payload failed, or with an error as the
/// answer of `send_receive`.
pub proof fn lemma_subscription_ends_loudly(s: StreamView, op: Op)
    requires
        s.phase is Streaming,
        !(s.after(op).phase is Streaming),
    ensures
        s.after(op).phase is Closed,
        op is Advance ==> s.advance().1 is Failed,
        !(op is Wrote) && !(op is Fed),
{
}

/// Events are handed out in the order in which they arrived, all of them,
/// and the end of the stream is reported after the last: where the bytes
/// of some frames have come in and the stream has closed behind them, the
/// answers of `send_receive` are those frames, one by one, then
/// `UnexpectedEof`; and the connection is closed.
pub proof fn lemma_events_in_order(s: StreamView, frames: Seq<FrameView>)
    requires
        s.phase is Streaming,
        s.reader.eof,
        s.reader.pending == wire(frames),
        forall|i: int| 0 <= i < frames.len() ==> frames[i].payload.len() <= u32::MAX,
        forall|i: int| 0 <= i < frames.len() ==> s.expects(frames[i].type_code),
    ensures
        s.answers(frames.len() + 1) == frames.map_values(|f: FrameView| StepView::Event(f)).push(
            StepView::Failed(ErrorView::Protocol(ProtocolErrorView::UnexpectedEof)),
        ),
        s.advanced(frames.len() + 1).phase is Closed,
    decreases frames.len(),
{
    let events = frames.map_values(|f: FrameView| StepView::Event(f));
    let end = StepView::Failed(ErrorView::Protocol(ProtocolErrorView::UnexpectedEof));
    if frames.len() == 0 {
        lemma_empty_reader(s.reader);
        reveal_with_fuel(StreamView::answers, 2);
        reveal_with_fuel(StreamView::advanced, 2);
        assert(s.answers(1) =~= events.push(end));
    } else {
        let tail = frames.drop_first();
        assert(wire(frames) + Seq::<u8>::empty() =~= wire(frames));
        lemma_oldest_first(s.reader, frames, Seq::empty());
        assert(wire(tail) + Seq::<u8>::empty() =~= wire(tail));
        assert(s.expects(frames[0].type_code));
        let next = s.advance().0;
        assert(next.reader.pending == wire(tail));
        assert forall|i: int| 0 <= i < tail.len() implies tail[i].payload.len() <= u32::MAX
            && next.expects(tail[i].type_code) by {
            assert(tail[i] == frames[i + 1]);
        }
        lemma_events_in_order(next, tail);
        let tail_events = tail.map_values(|f: FrameView| StepView::Event(f));
        assert(s.answers(frames.len() + 1) =~= seq![StepView::Event(frames[0])] + next.answers(
            tail.len() + 1,
        ));
        assert(seq![StepView::Event(frames[0])] + tail_events.push(end) =~= events.push(end));
    }
}

/// What the peer's answer to a subscription request comes to. `payload`
/// is the answer as it arrived, and `flag` its `success` field, or `None`
/// where the answer could not be read.
pub fn ack_verdict(payload: Vec<u8>, flag: Option<bool>) -> (r: Result<(), Error>)
    ensures
        match r {
            Ok(()) => ack_verdict_spec(payload@, flag) == Ok::<(), ErrorView>(()),
            Err(e) => ack_verdict_spec(payload@, flag) == Err::<(), ErrorView>(e@),
        },
{
    match flag {
        Some(true) => Ok(()),
        Some(false) => Err(Error::SubscribeRejected),
        None => Err(Error::Deserialize(payload)),
    }
}

/// The protocol's side of one connection.
#[derive(Debug)]
pub struct I3Stream {
    phase: Phase,
    writer: FrameWriter,
    reader: FrameReader,
    subscribed: Vec<EventKind>,
    strict: bool,
}

impl View for I3Stream {
    type V = StreamView;

    closed spec fn view(&self) -> StreamView {
        StreamView {
            phase: self.phase,
            writer: self.writer@,
            reader: self.reader@,
            subscribed: self.subscribed@,
            strict: self.strict,
        }
    }
}

impl I3Stream {
    /// The magic tag that opens every frame, as text.
    pub const MAGIC: &'static str = MAGIC;

    /// A connection on which nothing has happened.
    pub fn new() -> (stream: I3Stream)
        ensures
            stream@ == StreamView::fresh(),
            stream@.wf(),
    {
        I3Stream {
            phase: Phase::Idle,
            writer: FrameWriter::new(),
            reader: FrameReader::new(),
            subscribed: Vec::new(),
            strict: false,
        }
    }

    /// Where the connection stands.
    pub fn phase(&self) -> (phase: Phase)
        ensures
            phase == self@.phase,
    {
        self.phase
    }

    /// Whether a command or a subscription may begin.
    pub fn is_idle(&self) -> (idle: bool)
        ensures
            idle == (self@.phase is Idle),
    {
        match self.phase {
            Phase::Idle => true,
            _ => false,
        }
    }

    /// Begins a command: builds its frame and puts it before the stream.
    /// Gives the frame's length.
    pub fn send_msg(&mut self, msg: u32, payload: &str) -> (len: usize)
        requires
            old(self)@.phase is Idle,
            payload_fits(payload.spec_bytes().len()),
        ensures
            final(self)@ == old(self)@.began(
                frame_bytes(msg, payload.spec_bytes()),
                Phase::SendingCommand,
            ),
            len == HEADER_LEN + payload.spec_bytes().len(),
            final(self)@.wf(),
    {
        let frame = encode(msg, payload);
        let len = frame.len();
        self.writer.load(frame);
        self.phase = Phase::SendingCommand;
        len
    }

    /// Begins a subscription to the events of `events`: has the request
    /// written as JSON, builds its frame and puts it before the stream.
    /// With `strict`, an event of a kind that was not asked for will count
    /// as a breach of protocol; without it, such an event is passed on like
    /// any other, and sorting them out is the caller's business.
    /// Gives the frame's length, or `Error::Io` where the request could not
    /// be written or is too long for a frame; nothing has changed then.
    pub fn subscribe(&mut self, events: &[EventKind], strict: bool) -> (r: Result<usize, Error>)
        requires
            old(self)@.phase is Idle,
        ensures
            match subscription_frame(subscription_text(kind_codes(events@))) {
                Some(frame) => r == Ok::<usize, Error>(frame.len() as usize) && final(self)@ == (
                    StreamView {
                        subscribed: events@,
                        strict,
                        ..old(self)@.began(frame, Phase::SendingSubscribe)
                    }) && final(self)@.wf(),
                None => r matches Err(e) && e@ == ErrorView::Io && final(self)@ == old(self)@,
            },
    {
        let mut codes: Vec<u32> = Vec::new();
        let mut i: usize = 0;
        while i < events.len()
            invariant
                i <= events@.len(),
                codes@ == kind_codes(events@.subrange(0, i as int)),
            decreases events@.len() - i,
        {
            codes.push(events[i].code());
            i += 1;
            assert(codes@ =~= kind_codes(events@.subrange(0, i as int)));
        }
        assert(events@.subrange(0, events@.len() as int) =~= events@);
        let text = write_subscription(&codes);
        self.subscribe_with(events, strict, text)
    }

    /// Begins a subscription, given the request as it was written: `text`
    /// is the JSON for `events`, or `None` where it could not be written.
    pub fn subscribe_with(&mut self, events: &[EventKind], strict: bool, text: Option<String>) -> (r:
        Result<usize, Error>)
        requires
            old(self)@.phase is Idle,
        ensures
            match subscription_frame(
                match text {
                    Some(t) => Some(t@),
                    None => None,
                },
            ) {
                Some(frame) => r == Ok::<usize, Error>(frame.len() as usize) && final(self)@ == (
                    StreamView {
                        subscribed: events@,
                        strict,
                        ..old(self)@.began(frame, Phase::SendingSubscribe)
                    }) && final(self)@.wf(),
                None => r matches Err(e) && e@ == ErrorView::Io && final(self)@ == old(self)@,
            },
    {
        let text = match text {
            Some(t) => t,
            None => {
                return Err(Error::Io);
            },
        };
        if !fits(text.as_str()) {
            return Err(Error::Io);
        }
        let frame = encode(subscribe_code(), text.as_str());
        let len = frame.len();
        self.writer.load(frame);
        self.phase = Phase::SendingSubscribe;
        self.subscribed = vstd::slice::slice_to_vec(events);
        self.strict = strict;
        Ok(len)
    }

    /// The bytes to offer to the stream next: what is left of the frame that
    /// is going out, from the first byte that the stream has not taken.
    pub fn unsent(&self) -> (out: &[u8])
        ensures
            out@ == self@.writer.unsent(),
    {
        self.writer.unsent()
    }

    /// Takes note of one attempt to write what `unsent` gave. Gives the
    /// frame's length once all of it has gone out.
    pub fn wrote(&mut self, outcome: WriteOutcome) -> (r: Async<usize>)
        ensures
            final(self)@ == old(self)@.wrote(outcome),
            r == final(self)@.writer.progress(),
            old(self)@.wf() ==> final(self)@.wf(),
    {
        let r = self.writer.wrote(outcome);
        if self.writer.is_done() {
            match self.phase {
                Phase::SendingCommand => {
                    self.phase = Phase::AwaitingReply;
                },
                Phase::SendingSubscribe => {
                    self.phase = Phase::AwaitingAck;
                },
                _ => {},
            }
        }
        r
    }

    /// How many bytes the next read should ask for.
    pub fn wanted(&self) -> (n: usize)
        ensures
            n == self@.wanted(),
    {
        match self.phase {
            Phase::AwaitingReply | Phase::AwaitingAck | Phase::Streaming => self.reader.wanted(),
            _ => 0,
        }
    }

    /// Takes the bytes that the stream handed over. An empty chunk is the
    /// end of the stream.
    pub fn feed(&mut self, chunk: &[u8])
        ensures
            final(self)@ == old(self)@.fed(chunk@),
            old(self)@.wf() ==> final(self)@.wf(),
    {
        self.reader.feed(chunk);
    }

    /// Takes note of one read: `outcome` is what the stream reported, and
    /// `buf` the buffer that it read into.
    pub fn read(&mut self, buf: &[u8], outcome: ReadOutcome)
        requires
            outcome matches ReadOutcome::Read(n) ==> n <= buf@.len(),
        ensures
            final(self)@ == match outcome {
                ReadOutcome::Read(n) => old(self)@.fed(buf@.subrange(0, n as int)),
                ReadOutcome::Eof => old(self)@.fed(Seq::empty()),
                ReadOutcome::Pending => old(self)@,
            },
            old(self)@.wf() ==> final(self)@.wf(),
    {
        self.reader.read(buf, outcome);
    }

    /// Shuts the connection, whatever is in flight. Shutting it again
    /// changes nothing.
    pub fn shutdown(&mut self)
        ensures
            final(self)@ == old(self)@.closed(),
            final(self)@.wf(),
    {
        self.close();
    }

    /// Takes note that the stream itself has failed, which closes the
    /// connection. Gives the error to report.
    pub fn io_failed(&mut self) -> (e: Error)
        ensures
            final(self)@ == old(self)@.closed(),
            final(self)@.wf(),
            e@ == ErrorView::Io,
    {
        self.close();
        Error::Io
    }

    fn close(&mut self)
        ensures
            final(self)@ == old(self)@.closed(),
            final(self)@.wf(),
    {
        self.writer.load(Vec::new());
        self.phase = Phase::Closed;
    }

    /// Asks for the reply to the command that went out.
    pub fn receive_msg(&mut self) -> (r: Async<Result<Frame, Error>>)
        requires
            old(self)@.phase is AwaitingReply,
        ensures
            (final(self)@, frame_outcome(r)) == old(self)@.received(),
            old(self)@.wf() ==> final(self)@.wf(),
    {
        match self.reader.poll() {
            Async::NotReady => Async::NotReady,
            Async::Ready(Err(e)) => {
                self.close();
                Async::Ready(Err(Error::Protocol(e)))
            },
            Async::Ready(Ok(frame)) => {
                self.phase = Phase::Idle;
                Async::Ready(Ok(frame))
            },
        }
    }

    /// Asks whether the peer has accepted the subscription.
    pub fn receive_ack(&mut self) -> (r: Async<Result<(), Error>>)
        requires
            old(self)@.phase is AwaitingAck,
        ensures
            (final(self)@, ack_outcome(r)) == old(self)@.acknowledged(),
            old(self)@.wf() ==> final(self)@.wf(),
    {
        match self.reader.poll() {
            Async::NotReady => Async::NotReady,
            Async::Ready(Err(e)) => {
                self.close();
                Async::Ready(Err(Error::Protocol(e)))
            },
            Async::Ready(Ok(frame)) => {
                let flag = parse_success(frame.payload.as_slice());
                match ack_verdict(frame.payload, flag) {
                    Ok(()) => {
                        self.phase = Phase::Streaming;
                        Async::Ready(Ok(()))
                    },
                    Err(e) => {
                        self.close();
                        Async::Ready(Err(e))
                    },
                }
            },
        }
    }

    /// Whether a frame with this type code may come in as an event.
    fn expects(&self, type_code: u32) -> (ok: bool)
        ensures
            ok == self@.expects(type_code),
    {
        if !self.strict {
            return true;
        }
        let kind = match EventKind::from_wire(type_code) {
            Some(kind) => kind,
            None => {
                return false;
            },
        };
        let mut i: usize = 0;
        while i < self.subscribed.len()
            invariant
                i <= self.subscribed@.len(),
                self.strict,
                EventKind::spec_from_wire(type_code) == Some(kind),
                forall|k: int| 0 <= k < i ==> self.subscribed@[k] != kind,
            decreases self.subscribed@.len() - i,
        {
            if self.subscribed[i] == kind {
                assert(self.subscribed@[i as int] == kind);
                return true;
            }
            i += 1;
        }
        false
    }

    /// Asks for the next event of the subscription. Events come in the
    /// order in which the stream delivered them.
    pub fn next_event(&mut self) -> (r: Async<Result<Frame, Error>>)
        requires
            old(self)@.phase is Streaming,
        ensures
            (final(self)@, frame_outcome(r)) == old(self)@.next_event(),
            old(self)@.wf() ==> final(self)@.wf(),
    {
        match self.reader.poll() {
            Async::NotReady => Async::NotReady,
            Async::Ready(Err(e)) => {
                self.close();
                Async::Ready(Err(Error::Protocol(e)))
            },
            Async::Ready(Ok(frame)) => {
                if self.expects(frame.type_code) {
                    Async::Ready(Ok(frame))
                } else {
                    self.close();
                    Async::Ready(
                        Err(Error::Protocol(ProtocolError::UnexpectedEventType(frame.type_code))),
                    )
                }
            },
        }
    }

    /// Drives whatever is in flight one step further and says what the
    /// caller is to do next, or what has come of it.
    pub fn send_receive(&mut self) -> (step: Step)
        ensures
            (final(self)@, step@) == old(self)@.advance(),
            old(self)@.wf() ==> final(self)@.wf(),
            step matches Step::Read(n) ==> n > 0,
    {
        match self.phase {
            Phase::Idle => Step::Idle,
            Phase::SendingCommand | Phase::SendingSubscribe => Step::Write,
            Phase::Closed => Step::Closed,
            Phase::AwaitingReply => {
                let n = self.reader.wanted();
                match self.receive_msg() {
                    Async::NotReady => Step::Read(n),
                    Async::Ready(Ok(frame)) => Step::Reply(frame),
                    Async::Ready(Err(e)) => Step::Failed(e),
                }
            },
            Phase::AwaitingAck => {
                let n = self.reader.wanted();
                match self.receive_ack() {
                    Async::NotReady => Step::Read(n),
                    Async::Ready(Ok(())) => Step::Subscribed,
                    Async::Ready(Err(e)) => Step::Failed(e),
                }
            },
            Phase::Streaming => {
                let n = self.reader.wanted();
                match self.next_event() {
                    Async::NotReady => Step::Read(n),
                    Async::Ready(Ok(frame)) => Step::Event(frame),
                    Async::Ready(Err(e)) => Step::Failed(e),
                }
            },
        }
    }

    /// Joins an event with what its payload was decoded to. `parsed` is
    /// `None` where the payload was not the JSON that the caller expected:
    /// that ends the subscription and closes the connection.
    pub fn event_response<D>(&mut self, frame: Frame, parsed: Option<D>) -> (r: Result<
        EventResponse<D>,
        Error,
    >)
        ensures
            match parsed {
                Some(payload) => r matches Ok(event) && event == (EventResponse {
                    evt_type: frame.type_code,
                    payload,
                }) && final(self)@ == old(self)@,
                None => r matches Err(e) && e@ == ErrorView::Deserialize(frame.payload@)
                    && final(self)@ == old(self)@.closed(),
            },
            old(self)@.wf() ==> final(self)@.wf(),
    {
        if parsed.is_none() {
            self.close();
        }
        EventResponse::decoded(frame, parsed)
    }
}

} // verus!
