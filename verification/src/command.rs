//! The listen command as the user gave it.

use vstd::prelude::*;

use crate::filter::{effective, effective_filters, EventFilter};

verus! {

/// A request to listen to the events of one chain.
#[derive(Clone, Debug, PartialEq, Eq)]
pub struct ListenCmd {
    /// Identifier of the chain to listen to.
    pub chain_id: String,
    /// The filters that were selected, in the order given; may be empty.
    pub events: Vec<EventFilter>,
}

impl ListenCmd {
    pub fn new(chain_id: String, events: Vec<EventFilter>) -> (cmd: Self)
        ensures
            cmd.chain_id == chain_id,
            cmd.events == events,
    {
        ListenCmd { chain_id, events }
    }

    /// The filter set that the session runs with: the selected filters, or
    /// all of them if none was selected.
    pub fn filters(&self) -> (filters: Vec<EventFilter>)
        ensures
            filters@ == effective(self.events@),
    {
        effective_filters(self.events.as_slice())
    }
}

} // verus!
