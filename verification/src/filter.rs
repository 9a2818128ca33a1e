//! Event filters: named predicates over the category of an event.

use vstd::prelude::*;

use crate::error::ListenError;
use crate::event::{Event, EventKind};

verus! {

/// A category of events that a listener can ask for.
#[derive(Clone, Copy, Debug, PartialEq, Eq, Structural)]
pub enum EventFilter {
    /// New blocks only.
    NewBlock,
    /// Everything that is neither a new block nor a chain error.
    Tx,
}

impl EventFilter {
    /// Whether this filter lets an event of the given category through.
    pub open spec fn accepts(self, kind: EventKind) -> bool {
        match self {
            EventFilter::NewBlock => kind is NewBlock,
            EventFilter::Tx => !(kind is NewBlock) && !(kind is ChainError),
        }
    }

    /// The name by which this filter is asked for and shown.
    pub open spec fn token(self) -> Seq<char> {
        match self {
            EventFilter::NewBlock => "NewBlock"@,
            EventFilter::Tx => "Tx"@,
        }
    }

    /// The filter that a name stands for, if it stands for one. Names are
    /// case-sensitive and must match in full.
    pub open spec fn parse(token: Seq<char>) -> Option<EventFilter> {
        if token == "NewBlock"@ {
            Some(EventFilter::NewBlock)
        } else if token == "Tx"@ {
            Some(EventFilter::Tx)
        } else {
            None
        }
    }

    /// The name of this filter.
    pub fn as_str(&self) -> (name: &'static str)
        ensures
            name@ == self.token(),
    {
        match self {
            EventFilter::NewBlock => "NewBlock",
            EventFilter::Tx => "Tx",
        }
    }

    /// The name of this filter, as an owned string.
    pub fn to_string(&self) -> (name: String)
        ensures
            name@ == self.token(),
    {
        self.as_str().to_owned()
    }

    /// Reads a filter from its name. Any other text is turned down, and the
    /// error holds that text.
    pub fn from_str(s: &str) -> (parsed: Result<EventFilter, ListenError>)
        ensures
            EventFilter::parse(s@) matches Some(filter) ==> parsed == Ok::<EventFilter, ListenError>(
                filter,
            ),
            EventFilter::parse(s@) is None ==> (parsed matches Err(
                ListenError::UnrecognizedFilter(token),
            ) && token@ == s@),
    {
        let token = s.to_owned();
        if token == "NewBlock".to_owned() {
            Ok(EventFilter::NewBlock)
        } else if token == "Tx".to_owned() {
            Ok(EventFilter::Tx)
        } else {
            Err(ListenError::UnrecognizedFilter(token))
        }
    }

    /// Decides whether `event` belongs to the category of this filter.
    pub fn matches<P>(&self, event: &Event<P>) -> (accepted: bool)
        ensures
            accepted == self.accepts(event.kind),
    {
        match self {
            EventFilter::NewBlock => match event.kind {
                EventKind::NewBlock => true,
                _ => false,
            },
            EventFilter::Tx => match event.kind {
                EventKind::NewBlock | EventKind::ChainError => false,
                _ => true,
            },
        }
    }
}

/// Whether any filter of a set lets an event of the given category through.
/// A set is written as a sequence; neither the order of its members nor
/// their repetition matters, and the empty set accepts nothing.
pub open spec fn any_accepts(filters: Seq<EventFilter>, kind: EventKind) -> bool {
    exists|i: int| 0 <= i < filters.len() && #[trigger] filters[i].accepts(kind)
}

/// Decides whether `event` matches at least one of `filters`.
pub fn event_match<P>(event: &Event<P>, filters: &[EventFilter]) -> (matched: bool)
    ensures
        matched == any_accepts(filters@, event.kind),
{
    let mut i: usize = 0;
    while i < filters.len()
        invariant
            i <= filters.len(),
            forall|j: int| 0 <= j < i ==> !(#[trigger] filters@[j].accepts(event.kind)),
        decreases filters.len() - i,
    {
        if filters[i].matches(event) {
            return true;
        }
        i += 1;
    }
    false
}

/// The filter set that a session runs with, given what the user selected:
/// the selection itself, or every filter if nothing was selected.
pub open spec fn effective(selection: Seq<EventFilter>) -> Seq<EventFilter> {
    if selection.len() == 0 {
        seq![EventFilter::Tx, EventFilter::NewBlock]
    } else {
        selection
    }
}

/// Resolves the user's selection to the filter set of the session. This is
/// done once, before the first event is looked at.
pub fn effective_filters(selection: &[EventFilter]) -> (filters: Vec<EventFilter>)
    ensures
        filters@ == effective(selection@),
{
    let mut filters: Vec<EventFilter> = Vec::new();
    if selection.len() == 0 {
        filters.push(EventFilter::Tx);
        filters.push(EventFilter::NewBlock);
        return filters;
    }
    let mut i: usize = 0;
    while i < selection.len()
        invariant
            i <= selection.len(),
            filters@ == selection@.take(i as int),
        decreases selection.len() - i,
    {
        filters.push(selection[i]);
        i += 1;
    }
    filters
}

/// An event is a new block, and only the block filter lets it through.
pub open spec fn block_case(kind: EventKind) -> bool {
    kind is NewBlock && EventFilter::NewBlock.accepts(kind) && !EventFilter::Tx.accepts(kind)
}

/// An event is a chain error, and no filter lets it through.
pub open spec fn error_case(kind: EventKind) -> bool {
    kind is ChainError && !EventFilter::NewBlock.accepts(kind) && !EventFilter::Tx.accepts(kind)
}

/// An event is neither, and only the transaction filter lets it through.
pub open spec fn transaction_case(kind: EventKind) -> bool {
    !(kind is NewBlock) && !(kind is ChainError) && !EventFilter::NewBlock.accepts(kind)
        && EventFilter::Tx.accepts(kind)
}

/// The two filters and the chain errors split the events three ways: every
/// event falls under exactly one of the three cases.
pub proof fn lemma_filters_partition_events(kind: EventKind)
    ensures
        block_case(kind) || error_case(kind) || transaction_case(kind),
        !(block_case(kind) && error_case(kind)),
        !(block_case(kind) && transaction_case(kind)),
        !(error_case(kind) && transaction_case(kind)),
{
}

/// A name that is read as a filter is the name that this filter shows.
pub proof fn lemma_parse_then_show(token: Seq<char>)
    requires
        EventFilter::parse(token) is Some,
    ensures
        EventFilter::parse(token).unwrap().token() == token,
{
}

/// The name that a filter shows is read as that filter.
pub proof fn lemma_show_then_parse(filter: EventFilter)
    ensures
        EventFilter::parse(filter.token()) == Some(filter),
{
    reveal_strlit("NewBlock");
    reveal_strlit("Tx");
    assert("NewBlock"@.len() != "Tx"@.len());
}

/// The empty set accepts no event.
pub proof fn lemma_empty_set_accepts_nothing(kind: EventKind)
    ensures
        !any_accepts(Seq::empty(), kind),
{
}

/// Only the members of a filter set count: two sets with the same members
/// accept the same events, in whatever order and however often the members
/// are written.
pub proof fn lemma_members_decide(a: Seq<EventFilter>, b: Seq<EventFilter>, kind: EventKind)
    requires
        forall|filter: EventFilter| a.contains(filter) <==> b.contains(filter),
    ensures
        any_accepts(a, kind) == any_accepts(b, kind),
{
    if any_accepts(a, kind) {
        let i = choose|i: int| 0 <= i < a.len() && #[trigger] a[i].accepts(kind);
        assert(a.contains(a[i]));
        let j = choose|j: int| 0 <= j < b.len() && b[j] == a[i];
        assert(b[j].accepts(kind));
    }
    if any_accepts(b, kind) {
        let j = choose|j: int| 0 <= j < b.len() && #[trigger] b[j].accepts(kind);
        assert(b.contains(b[j]));
        let i = choose|i: int| 0 <= i < a.len() && a[i] == b[j];
        assert(a[i].accepts(kind));
    }
}

/// A session for which nothing was selected accepts exactly what a session
/// accepts for which both filters were selected.
pub proof fn lemma_empty_selection_selects_all(kind: EventKind)
    ensures
        any_accepts(effective(Seq::empty()), kind) == any_accepts(
            effective(seq![EventFilter::NewBlock, EventFilter::Tx]),
            kind,
        ),
{
    let by_default = effective(Seq::empty());
    let by_choice = effective(seq![EventFilter::NewBlock, EventFilter::Tx]);
    assert(by_default[0] == EventFilter::Tx && by_default[1] == EventFilter::NewBlock);
    assert(by_choice[0] == EventFilter::NewBlock && by_choice[1] == EventFilter::Tx);
    if any_accepts(by_default, kind) {
        let i = choose|i: int| 0 <= i < by_default.len() && #[trigger] by_default[i].accepts(kind);
        assert(by_choice[1 - i].accepts(kind));
    }
    if any_accepts(by_choice, kind) {
        let i = choose|i: int| 0 <= i < by_choice.len() && #[trigger] by_choice[i].accepts(kind);
        assert(by_default[1 - i].accepts(kind));
    }
}

} // verus!
