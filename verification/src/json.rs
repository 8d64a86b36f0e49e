//! The two pieces of JSON that the protocol itself reads and writes: the
//! list of event kinds in a subscription request, and the reply to it.
//!
//! Nothing in this file is proved: `serde_json` does the work, on the types
//! of `i3ipc_types`, and each function here names what came back.

use i3ipc_types::event::Subscribe;
use i3ipc_types::msg::Msg;
use i3ipc_types::reply::Success;
use vstd::prelude::*;

use crate::event::{LAST_KIND, SUBSCRIBE};

verus! {

/// The `success` field of `payload` read as JSON into
/// `i3ipc_types::reply::Success`, or `None` where `serde_json::from_slice`
/// refuses the payload.
pub uninterp spec fn success_flag(payload: Seq<u8>) -> Option<bool>;

/// The JSON text that `serde_json::to_string` writes for the event kinds
/// with the numbers `codes`, taken as `i3ipc_types::event::Subscribe`, or
/// `None` where it fails.
pub uninterp spec fn subscription_text(codes: Seq<u32>) -> Option<Seq<char>>;

/// `serde_json::from_slice` at the type `i3ipc_types::reply::Success`. The
/// result depends on the bytes alone.
#[verifier::external_body]
pub(crate) fn parse_success(payload: &[u8]) -> (flag: Option<bool>)
    ensures
        flag == success_flag(payload@),
{
    match serde_json::from_slice::<Success>(payload) {
        Ok(reply) => Some(reply.success),
        Err(_) => None,
    }
}

/// `serde_json::to_string` on a list of `i3ipc_types::event::Subscribe`,
/// each made from its number by the crate's `From<u32>`, which panics on a
/// number above seven.
#[verifier::external_body]
pub(crate) fn write_subscription(codes: &Vec<u32>) -> (text: Option<String>)
    requires
        forall|i: int| 0 <= i < codes@.len() ==> codes@[i] <= LAST_KIND,
    ensures
        match text {
            Some(s) => subscription_text(codes@) == Some(s@),
            None => subscription_text(codes@) is None,
        },
{
    let kinds: Vec<Subscribe> = codes.iter().map(|code| Subscribe::from(*code)).collect();
    serde_json::to_string(&kinds).ok()
}

/// The type code of a subscription request: `i3ipc_types::msg::Msg::Subscribe`
/// as a number, which the crate's `From<Msg>` for `u32` gives as two.
#[verifier::external_body]
pub(crate) fn subscribe_code() -> (code: u32)
    ensures
        code == SUBSCRIBE,
{
    u32::from(Msg::Subscribe)
}

} // verus!
