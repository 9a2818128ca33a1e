//! Events as the listener sees them: a category tag and a payload that is
//! carried through untouched.

use vstd::prelude::*;

verus! {

/// The category of a chain event. Filters look at nothing else.
#[derive(Clone, Copy, Debug, PartialEq, Eq, Structural)]
pub enum EventKind {
    /// A new block was committed.
    NewBlock,
    /// The chain reported an error while checking or delivering a transaction.
    ChainError,
    /// Any other event; all of these stem from transactions.
    Other,
}

/// One event of a chain: its category, and whatever the source attached to it.
#[derive(Clone, Debug, PartialEq, Eq)]
pub struct Event<P> {
    pub kind: EventKind,
    pub payload: P,
}

impl<P> Event<P> {
    pub fn new(kind: EventKind, payload: P) -> (event: Self)
        ensures
            event.kind == kind,
            event.payload == payload,
    {
        Event { kind, payload }
    }
}

/// The events that a chain produced at one height, in the order in which
/// they occurred.
#[derive(Clone, Debug, PartialEq, Eq)]
pub struct EventBatch<P> {
    pub height: u64,
    pub events: Vec<Event<P>>,
}

impl<P> EventBatch<P> {
    pub fn new(height: u64, events: Vec<Event<P>>) -> (batch: Self)
        ensures
            batch.height == height,
            batch.events == events,
    {
        EventBatch { height, events }
    }
}

} // verus!
