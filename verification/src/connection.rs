//! What a stream that never blocks reports back. The stream itself is the
//! caller's: this library takes what it reported and decides what is next.

use vstd::prelude::*;

verus! {

/// The state of an operation that may have to wait for the stream.
#[derive(Debug, Clone, PartialEq, Eq)]
pub enum Async<T> {
    /// The operation is over, with this result.
    Ready(T),
    /// The stream has to be driven further before there is a result.
    NotReady,
}

/// What one attempt to write to the stream came to.
#[derive(Debug, Clone, Copy, PartialEq, Eq)]
pub enum WriteOutcome {
    /// The stream took this many of the bytes offered, from the front.
    Written(usize),
    /// The stream takes nothing right now.
    Pending,
}

/// What one attempt to read from the stream came to.
#[derive(Debug, Clone, Copy, PartialEq, Eq)]
pub enum ReadOutcome {
    /// This many bytes were put at the front of the caller's buffer. None at
    /// all means that the peer has closed the stream.
    Read(usize),
    /// The stream has nothing right now.
    Pending,
    /// The peer has closed the stream.
    Eof,
}

} // verus!
