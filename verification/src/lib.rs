//! Client side of the i3 window manager's IPC protocol, without the socket.
//!
//! A frame on the wire is a magic tag, the payload's length, a type code and
//! a JSON payload. `frame` writes and reads frames; `writer` and `reader`
//! carry one across a stream that takes and gives bytes in pieces of any
//! size; `stream` holds the course of a whole connection: a command and its
//! reply, or a subscription and the events that follow it. The caller owns
//! the socket: it performs the reads and writes that a connection asks for
//! and reports what came of them.

pub mod connection;
pub mod error;
pub mod event;
pub mod frame;
pub mod json;
pub mod reader;
pub mod response;
pub mod socket;
pub mod stream;
pub mod wire;
pub mod writer;

pub use crate::connection::{Async, ReadOutcome, WriteOutcome};
pub use crate::error::{Error, ProtocolError};
pub use crate::event::EventKind;
pub use crate::frame::Frame;
pub use crate::response::{EventResponse, MsgResponse};
pub use crate::stream::{I3Stream, Phase, Step};
