//! The sending side of a connection: one frame at a time goes out, in as
//! many pieces as the stream cares to take.

use vstd::prelude::*;
use vstd::slice::slice_subrange;

use crate::connection::{Async, WriteOutcome};

verus! {

/// A `FrameWriter` as contracts speak of it.
pub struct WriterView {
    /// The bytes of the frame that is going out.
    pub frame: Seq<u8>,
    /// How many of them the stream has taken.
    pub sent: nat,
}

impl WriterView {
    /// Nothing runs past the end of the frame.
    pub open spec fn wf(self) -> bool {
        self.sent <= self.frame.len()
    }

    /// A writer with nothing to send.
    pub open spec fn idle() -> WriterView {
        WriterView { frame: Seq::empty(), sent: 0 }
    }

    /// A writer that has all of `frame` before it.
    pub open spec fn loaded(frame: Seq<u8>) -> WriterView {
        WriterView { frame, sent: 0 }
    }

    /// What the stream has taken: a front part of the frame.
    pub open spec fn taken(self) -> Seq<u8> {
        self.frame.subrange(0, self.sent as int)
    }

    /// What the stream has yet to take, from the first byte that it has not.
    pub open spec fn unsent(self) -> Seq<u8> {
        self.frame.subrange(self.sent as int, self.frame.len() as int)
    }

    /// Whether the whole frame has gone out.
    pub open spec fn done(self) -> bool {
        self.sent == self.frame.len()
    }

    /// The writer after one attempt to write. A stream cannot take more than
    /// it was offered: a larger count stands for all that was offered.
    pub open spec fn wrote(self, outcome: WriteOutcome) -> WriterView {
        match outcome {
            WriteOutcome::Pending => self,
            WriteOutcome::Written(n) => WriterView {
                sent: if self.sent + n <= self.frame.len() {
                    (self.sent + n) as nat
                } else {
                    self.frame.len()
                },
                ..self
            },
        }
    }

    /// The bytes that one attempt to write put on the wire.
    pub open spec fn put_out(self, outcome: WriteOutcome) -> Seq<u8> {
        self.frame.subrange(self.sent as int, self.wrote(outcome).sent as int)
    }

    /// The writer after several attempts to write, in their order.
    pub open spec fn wrote_all(self, outcomes: Seq<WriteOutcome>) -> WriterView
        decreases outcomes.len(),
    {
        if outcomes.len() == 0 {
            self
        } else {
            self.wrote(outcomes.first()).wrote_all(outcomes.drop_first())
        }
    }

    /// The bytes that several attempts to write put on the wire, in the
    /// order in which they went out.
    pub open spec fn put_out_all(self, outcomes: Seq<WriteOutcome>) -> Seq<u8>
        decreases outcomes.len(),
    {
        if outcomes.len() == 0 {
            Seq::empty()
        } else {
            self.put_out(outcomes.first()) + self.wrote(outcomes.first()).put_out_all(
                outcomes.drop_first(),
            )
        }
    }

    /// What the caller is told after an attempt to write: the frame's length
    /// once all of it has gone out.
    pub open spec fn progress(self) -> Async<usize> {
        if self.done() {
            Async::Ready(self.frame.len() as usize)
        } else {
            Async::NotReady
        }
    }
}

/// Writing picks up where it stopped: what the stream has taken is what it
/// had taken before and, behind that, the front of what it was offered. No
/// byte goes out twice and none is left out.
pub proof fn lemma_write_resumes(w: WriterView, n: usize)
    requires
        w.wf(),
        n <= w.unsent().len(),
    ensures
        w.wrote(WriteOutcome::Written(n)).wf(),
        w.wrote(WriteOutcome::Written(n)).taken() == w.taken() + w.unsent().subrange(0, n as int),
        w.wrote(WriteOutcome::Written(n)).unsent() == w.unsent().subrange(
            n as int,
            w.unsent().len() as int,
        ),
        w.wrote(WriteOutcome::Written(n)).taken() + w.wrote(WriteOutcome::Written(n)).unsent()
            == w.frame,
{
    let after = w.wrote(WriteOutcome::Written(n));
    assert(after.taken() =~= w.taken() + w.unsent().subrange(0, n as int));
    assert(after.unsent() =~= w.unsent().subrange(n as int, w.unsent().len() as int));
    assert(after.taken() + after.unsent() =~= w.frame);
}

/// However the stream takes a frame, in however many attempts, with
/// however many of them in vain, what goes onto the wire is the frame from
/// where the writer stood, byte for byte: when the writer is done, all of
/// the frame has gone out, once.
pub proof fn lemma_frame_goes_out_once(w: WriterView, outcomes: Seq<WriteOutcome>)
    requires
        w.wf(),
    ensures
        w.wrote_all(outcomes).wf(),
        w.wrote_all(outcomes).frame == w.frame,
        w.wrote_all(outcomes).taken() == w.taken() + w.put_out_all(outcomes),
        w.wrote_all(outcomes).done() ==> w.taken() + w.put_out_all(outcomes) == w.frame,
    decreases outcomes.len(),
{
    if outcomes.len() == 0 {
        assert(w.taken() + Seq::<u8>::empty() =~= w.taken());
    } else {
        let next = w.wrote(outcomes.first());
        lemma_frame_goes_out_once(next, outcomes.drop_first());
        assert(next.taken() =~= w.taken() + w.put_out(outcomes.first()));
        assert((w.taken() + w.put_out(outcomes.first())) + next.put_out_all(
            outcomes.drop_first(),
        ) =~= w.taken() + w.put_out_all(outcomes));
    }
    let last = w.wrote_all(outcomes);
    if last.done() {
        assert(last.taken() =~= last.frame);
    }
}

/// Holds the frame that is going out and how far it has got.
#[derive(Debug)]
pub struct FrameWriter {
    frame: Vec<u8>,
    sent: usize,
}

impl View for FrameWriter {
    type V = WriterView;

    closed spec fn view(&self) -> WriterView {
        WriterView { frame: self.frame@, sent: self.sent as nat }
    }
}

impl FrameWriter {
    #[verifier::type_invariant]
    spec fn in_bounds(self) -> bool {
        self.sent <= self.frame@.len()
    }

    /// A writer with nothing to send.
    pub fn new() -> (w: FrameWriter)
        ensures
            w@ == WriterView::idle(),
    {
        FrameWriter { frame: Vec::new(), sent: 0 }
    }

    /// Puts `frame` before the writer, in place of what it held.
    pub fn load(&mut self, frame: Vec<u8>)
        ensures
            final(self)@ == WriterView::loaded(frame@),
    {
        *self = FrameWriter { frame, sent: 0 };
    }

    /// The bytes to offer to the stream next.
    pub fn unsent(&self) -> (out: &[u8])
        ensures
            out@ == self@.unsent(),
            self@.wf(),
    {
        proof {
            use_type_invariant(self);
        }
        slice_subrange(self.frame.as_slice(), self.sent, self.frame.len())
    }

    /// Whether the whole frame has gone out.
    pub fn is_done(&self) -> (done: bool)
        ensures
            done == self@.done(),
    {
        self.sent == self.frame.len()
    }

    /// Takes note of one attempt to write what `unsent` gave.
    pub fn wrote(&mut self, outcome: WriteOutcome) -> (r: Async<usize>)
        ensures
            final(self)@ == old(self)@.wrote(outcome),
            r == final(self)@.progress(),
            final(self)@.wf(),
    {
        proof {
            use_type_invariant(&*self);
        }
        let len = self.frame.len();
        if let WriteOutcome::Written(n) = outcome {
            let left = len - self.sent;
            if n <= left {
                self.sent = self.sent + n;
            } else {
                self.sent = len;
            }
        }
        if self.sent == len {
            Async::Ready(len)
        } else {
            Async::NotReady
        }
    }
}

} // verus!
