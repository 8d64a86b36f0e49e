//! What an exchange hands to its caller: the type code of a frame beside
//! the payload in the form that the caller asked for.

use vstd::prelude::*;

use crate::error::{Error, ErrorView};
use crate::frame::Frame;

verus! {

/// The reply to a command: the kind of message and its payload, decoded.
#[derive(Debug)]
pub struct MsgResponse<D> {
    pub msg_type: u32,
    pub payload: D,
}

/// One event of a subscription: the type code of its frame and its
/// payload, decoded.
#[derive(Debug)]
pub struct EventResponse<D> {
    pub evt_type: u32,
    pub payload: D,
}

impl<D> MsgResponse<D> {
    /// Joins a reply frame with what its payload was decoded to. `parsed`
    /// is `None` where the payload was not the JSON that the caller expected;
    /// the error then holds the payload as it arrived.
    pub fn decoded(frame: Frame, parsed: Option<D>) -> (r: Result<MsgResponse<D>, Error>)
        ensures
            match parsed {
                Some(payload) => r matches Ok(reply) && reply == (MsgResponse {
                    msg_type: frame.type_code,
                    payload,
                }),
                None => r matches Err(e) && e@ == ErrorView::Deserialize(frame.payload@),
            },
    {
        match parsed {
            Some(payload) => Ok(MsgResponse { msg_type: frame.type_code, payload }),
            None => Err(Error::Deserialize(frame.payload)),
        }
    }
}

impl<D> EventResponse<D> {
    /// Joins an event frame with what its payload was decoded to. `parsed`
    /// is `None` where the payload was not the JSON that the caller expected;
    /// the error then holds the payload as it arrived.
    pub fn decoded(frame: Frame, parsed: Option<D>) -> (r: Result<EventResponse<D>, Error>)
        ensures
            match parsed {
                Some(payload) => r matches Ok(event) && event == (EventResponse {
                    evt_type: frame.type_code,
                    payload,
                }),
                None => r matches Err(e) && e@ == ErrorView::Deserialize(frame.payload@),
            },
    {
        match parsed {
            Some(payload) => Ok(EventResponse { evt_type: frame.type_code, payload }),
            None => Err(Error::Deserialize(frame.payload)),
        }
    }
}

} // verus!
