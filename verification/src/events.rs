//! What a socket waits for, and how it is registered with the event loop.

use vstd::prelude::*;

verus! {

/// The number by which the event loop knows a socket.
#[derive(Debug, Clone, Copy, PartialEq, Eq, Hash, Structural)]
pub struct Token(pub usize);

/// A set of readiness events.
#[derive(Debug, Clone, Copy, PartialEq, Eq, Hash, Structural)]
pub struct EventSet {
    pub readable: bool,
    pub writable: bool,
    pub error: bool,
    pub hup: bool,
}

impl EventSet {
    /// The events of either set.
    pub open spec fn union(self, other: EventSet) -> EventSet {
        EventSet {
            readable: self.readable || other.readable,
            writable: self.writable || other.writable,
            error: self.error || other.error,
            hup: self.hup || other.hup,
        }
    }

    pub fn all() -> (set: EventSet)
        ensures
            set == (EventSet { readable: true, writable: true, error: true, hup: true }),
    {
        EventSet { readable: true, writable: true, error: true, hup: true }
    }

    pub fn readable() -> (set: EventSet)
        ensures
            set == (EventSet { readable: true, writable: false, error: false, hup: false }),
    {
        EventSet { readable: true, writable: false, error: false, hup: false }
    }

    pub fn writable() -> (set: EventSet)
        ensures
            set == (EventSet { readable: false, writable: true, error: false, hup: false }),
    {
        EventSet { readable: false, writable: true, error: false, hup: false }
    }

    /// Adds the events of `other`.
    pub fn insert(&mut self, other: EventSet)
        ensures
            *final(self) == old(self).union(other),
    {
        *self = EventSet {
            readable: self.readable || other.readable,
            writable: self.writable || other.writable,
            error: self.error || other.error,
            hup: self.hup || other.hup,
        };
    }
}

/// How the event loop reports readiness of a socket.
#[derive(Debug, Clone, Copy, PartialEq, Eq, Hash, Structural)]
pub struct PollOpt {
    pub edge: bool,
    pub level: bool,
    pub oneshot: bool,
}

/// One registration to make with the event loop.
#[derive(Debug, Clone, Copy, PartialEq, Eq, Hash, Structural)]
pub struct Registration {
    pub token: Token,
    pub interest: EventSet,
    pub opts: PollOpt,
}

/// An event is in the union exactly when it is in one of the two sets.
pub proof fn union_holds_the_events_of_both(set: EventSet, other: EventSet)
    ensures
        set.union(other).readable <==> set.readable || other.readable,
        set.union(other).writable <==> set.writable || other.writable,
        set.union(other).error <==> set.error || other.error,
        set.union(other).hup <==> set.hup || other.hup,
{
}

} // verus!
