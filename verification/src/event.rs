//! The kinds of event that a client can subscribe to, and how a frame's
//! type code tells an event from a reply.

use vstd::prelude::*;

verus! {

/// The bit of a type code that marks a frame as an event: the highest one.
pub const EVENT_BIT: u32 = 0x8000_0000;

/// The type code of a subscription request.
pub const SUBSCRIBE: u32 = 2;

/// The highest number that names a kind of event.
pub const LAST_KIND: u32 = 7;

/// A kind of event, in the order of the protocol's numbering.
#[derive(Debug, Clone, Copy, PartialEq, Eq, Structural)]
pub enum EventKind {
    Workspace,
    Output,
    Mode,
    Window,
    BarConfigUpdate,
    Binding,
    Shutdown,
    Tick,
}

impl EventKind {
    /// The number of this kind.
    pub open spec fn spec_code(self) -> u32 {
        match self {
            EventKind::Workspace => 0,
            EventKind::Output => 1,
            EventKind::Mode => 2,
            EventKind::Window => 3,
            EventKind::BarConfigUpdate => 4,
            EventKind::Binding => 5,
            EventKind::Shutdown => 6,
            EventKind::Tick => 7,
        }
    }

    /// The kind with number `code`, where there is one.
    pub open spec fn spec_from_code(code: u32) -> Option<EventKind> {
        match code {
            0 => Some(EventKind::Workspace),
            1 => Some(EventKind::Output),
            2 => Some(EventKind::Mode),
            3 => Some(EventKind::Window),
            4 => Some(EventKind::BarConfigUpdate),
            5 => Some(EventKind::Binding),
            6 => Some(EventKind::Shutdown),
            7 => Some(EventKind::Tick),
            _ => None,
        }
    }

    /// The type code of the frames that carry events of this kind: the
    /// kind's number with the event bit set.
    pub open spec fn spec_wire_code(self) -> u32 {
        (EVENT_BIT + self.spec_code()) as u32
    }

    /// The kind of event that a frame with this type code carries. A reply
    /// carries none, and neither does an event of a number above the last.
    pub open spec fn spec_from_wire(type_code: u32) -> Option<EventKind> {
        if type_code >= EVENT_BIT {
            EventKind::spec_from_code((type_code - EVENT_BIT) as u32)
        } else {
            None
        }
    }

    /// The number of this kind.
    #[verifier::when_used_as_spec(spec_code)]
    pub fn code(self) -> (code: u32)
        ensures
            code == self.spec_code(),
            code <= LAST_KIND,
    {
        match self {
            EventKind::Workspace => 0,
            EventKind::Output => 1,
            EventKind::Mode => 2,
            EventKind::Window => 3,
            EventKind::BarConfigUpdate => 4,
            EventKind::Binding => 5,
            EventKind::Shutdown => 6,
            EventKind::Tick => 7,
        }
    }

    /// The kind with number `code`, or `None` where the number names none.
    pub fn from_code(code: u32) -> (kind: Option<EventKind>)
        ensures
            kind == EventKind::spec_from_code(code),
    {
        match code {
            0 => Some(EventKind::Workspace),
            1 => Some(EventKind::Output),
            2 => Some(EventKind::Mode),
            3 => Some(EventKind::Window),
            4 => Some(EventKind::BarConfigUpdate),
            5 => Some(EventKind::Binding),
            6 => Some(EventKind::Shutdown),
            7 => Some(EventKind::Tick),
            _ => None,
        }
    }

    /// The type code of the frames that carry events of this kind.
    pub fn wire_code(self) -> (type_code: u32)
        ensures
            type_code == self.spec_wire_code(),
    {
        EVENT_BIT + self.code()
    }

    /// The kind of event that a frame with this type code carries, or `None`
    /// for a reply and for an event of a number that names no kind.
    pub fn from_wire(type_code: u32) -> (kind: Option<EventKind>)
        ensures
            kind == EventKind::spec_from_wire(type_code),
    {
        if type_code >= EVENT_BIT {
            EventKind::from_code(type_code - EVENT_BIT)
        } else {
            None
        }
    }
}

/// Whether a frame with this type code is an event, not a reply.
pub open spec fn spec_is_event(type_code: u32) -> bool {
    type_code >= EVENT_BIT
}

/// Whether a frame with this type code is an event, not a reply.
#[verifier::when_used_as_spec(spec_is_event)]
pub fn is_event(type_code: u32) -> (event: bool)
    ensures
        event == spec_is_event(type_code),
{
    type_code >= EVENT_BIT
}

/// A kind is found again from its number and from its type code, and the
/// type code of every kind marks an event.
pub proof fn lemma_kind_codes(kind: EventKind)
    ensures
        EventKind::spec_from_code(kind.spec_code()) == Some(kind),
        EventKind::spec_from_wire(kind.spec_wire_code()) == Some(kind),
        spec_is_event(kind.spec_wire_code()),
{
}

/// A number that names a kind is the number of that kind.
pub proof fn lemma_code_of_kind(code: u32)
    ensures
        match EventKind::spec_from_code(code) {
            Some(kind) => kind.spec_code() == code,
            None => code > LAST_KIND,
        },
{
}

} // verus!
