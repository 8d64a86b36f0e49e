//! What can go wrong in an exchange, and how each failure is told apart.

use vstd::prelude::*;

verus! {

/// A breach of the wire protocol by the peer.
#[derive(Debug, Clone, PartialEq, Eq)]
pub enum ProtocolError {
    /// A header did not open with the magic tag. Holds the six bytes found in
    /// its place.
    BadMagic(Vec<u8>),
    /// The stream ended before a header or a payload was complete.
    UnexpectedEof,
    /// A strict subscription received a frame of a kind it had not asked
    /// for. Holds the frame's type code.
    UnexpectedEventType(u32),
}

/// A `ProtocolError` as contracts speak of it.
pub enum ProtocolErrorView {
    BadMagic(Seq<u8>),
    UnexpectedEof,
    UnexpectedEventType(u32),
}

impl View for ProtocolError {
    type V = ProtocolErrorView;

    open spec fn view(&self) -> ProtocolErrorView {
        match self {
            ProtocolError::BadMagic(found) => ProtocolErrorView::BadMagic(found@),
            ProtocolError::UnexpectedEof => ProtocolErrorView::UnexpectedEof,
            ProtocolError::UnexpectedEventType(code) => ProtocolErrorView::UnexpectedEventType(
                *code,
            ),
        }
    }
}

/// Why an exchange or a subscription ended without its result.
#[derive(Debug, Clone, PartialEq, Eq)]
pub enum Error {
    /// The stream itself failed, or a request could not be put into a frame.
    Io,
    /// The peer broke the wire protocol.
    Protocol(ProtocolError),
    /// A payload was not the JSON that was expected. Holds the payload.
    Deserialize(Vec<u8>),
    /// The peer answered a subscription request with a refusal.
    SubscribeRejected,
}

/// An `Error` as contracts speak of it.
pub enum ErrorView {
    Io,
    Protocol(ProtocolErrorView),
    Deserialize(Seq<u8>),
    SubscribeRejected,
}

impl View for Error {
    type V = ErrorView;

    open spec fn view(&self) -> ErrorView {
        match self {
            Error::Io => ErrorView::Io,
            Error::Protocol(e) => ErrorView::Protocol(e@),
            Error::Deserialize(raw) => ErrorView::Deserialize(raw@),
            Error::SubscribeRejected => ErrorView::SubscribeRejected,
        }
    }
}

} // verus!
