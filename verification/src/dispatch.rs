//! The decisions of the dispatch loop: what to report for each delivery of
//! the event source, and when to stop.
//!
//! The loop keeps no state between deliveries. Each one is judged on its own
//! against the filter set of the session.

use vstd::prelude::*;
use vstd::seq_lib::lemma_flatten_concat;

use crate::event::{Event, EventBatch, EventKind};
use crate::filter::{
    any_accepts, effective, event_match, lemma_empty_selection_selects_all, EventFilter,
};

verus! {

/// One record of the listener's output.
#[derive(Clone, Debug, PartialEq, Eq)]
pub enum Line<P> {
    /// Opens the report of a batch: the height at which its events occurred.
    Height(u64),
    /// An event that matched the filter set.
    Event(Event<P>),
    /// Closes the report of a batch.
    Blank,
    /// A batch that could not be delivered, with the reason.
    Error(String),
}

/// What the loop does after it has polled the event source once.
#[derive(Clone, Debug, PartialEq, Eq)]
pub enum Action<P> {
    /// Write these records, in order, then poll again.
    Emit(Vec<Line<P>>),
    /// The source has closed: leave the loop.
    Stop,
}

/// The events of a batch that match the filter set, in the order in which they came.
pub open spec fn surviving<P>(events: Seq<Event<P>>, filters: Seq<EventFilter>) -> Seq<Event<P>> {
    events.filter(|e: Event<P>| any_accepts(filters, e.kind))
}

/// The records that a batch gives rise to: none if no event matches,
/// otherwise its height, the matching events and a closing blank.
pub open spec fn batch_lines<P>(height: u64, events: Seq<Event<P>>, filters: Seq<EventFilter>) -> Seq<
    Line<P>,
> {
    let kept = surviving(events, filters);
    if kept.len() == 0 {
        Seq::empty()
    } else {
        seq![Line::Height(height)] + kept.map_values(|e: Event<P>| Line::Event(e)) + seq![
            Line::Blank,
        ]
    }
}

/// The records that one delivery gives rise to.
pub open spec fn delivery_lines<P>(
    delivery: Result<EventBatch<P>, String>,
    filters: Seq<EventFilter>,
) -> Seq<Line<P>> {
    match delivery {
        Ok(batch) => batch_lines(batch.height, batch.events@, filters),
        Err(reason) => seq![Line::Error(reason)],
    }
}

/// The records that a whole stream of deliveries gives rise to: those of
/// each delivery, one after the other.
pub open spec fn stream_lines<P>(
    stream: Seq<Result<EventBatch<P>, String>>,
    filters: Seq<EventFilter>,
) -> Seq<Line<P>> {
    stream.flat_map(|delivery: Result<EventBatch<P>, String>| delivery_lines(delivery, filters))
}

/// One more event of a batch is kept if it matches and dropped if it does
/// not; what was kept of the events before it stays as it was.
proof fn lemma_surviving_next<P>(events: Seq<Event<P>>, filters: Seq<EventFilter>, i: int)
    requires
        0 <= i < events.len(),
    ensures
        surviving(events.take(i + 1), filters) == if any_accepts(filters, events[i].kind) {
            surviving(events.take(i), filters).push(events[i])
        } else {
            surviving(events.take(i), filters)
        },
{
    events.lemma_take_succ_push(i);
    events.take(i).lemma_filter_push(events[i], |e: Event<P>| any_accepts(filters, e.kind));
}

/// Keeps the events that match the filter set and drops the others.
pub fn filter_events<P>(events: Vec<Event<P>>, filters: &[EventFilter]) -> (kept: Vec<Event<P>>)
    ensures
        kept@ == surviving(events@, filters@),
{
    let ghost all = events@;
    let mut kept: Vec<Event<P>> = Vec::new();
    for event in it: events
        invariant
            it.seq() == all,
            kept@ == surviving(all.take(it.index()), filters@),
    {
        proof {
            lemma_surviving_next(all, filters@, it.index());
        }
        if event_match(&event, filters) {
            kept.push(event);
        }
    }
    assert(all.take(all.len() as int) == all);
    kept
}

/// Builds the records of one batch: nothing if none of its events matches,
/// otherwise the height, the matching events in the order in which they came, and
/// a closing blank.
pub fn report_batch<P>(batch: EventBatch<P>, filters: &[EventFilter]) -> (lines: Vec<Line<P>>)
    ensures
        lines@ == batch_lines(batch.height, batch.events@, filters@),
{
    let height = batch.height;
    let kept = filter_events(batch.events, filters);
    let mut lines: Vec<Line<P>> = Vec::new();
    if kept.is_empty() {
        return lines;
    }
    let ghost all = kept@;
    let ghost wrap = |e: Event<P>| Line::Event(e);
    lines.push(Line::Height(height));
    for event in it: kept
        invariant
            it.seq() == all,
            wrap == |e: Event<P>| Line::Event(e),
            lines@ == seq![Line::Height(height)] + all.take(it.index()).map_values(wrap),
    {
        proof {
            all.lemma_take_succ_push(it.index());
            all.take(it.index()).lemma_push_map_commute(wrap, event);
        }
        lines.push(Line::Event(event));
    }
    assert(all.take(all.len() as int) == all);
    lines.push(Line::Blank);
    lines
}

/// Builds the records of one delivery. A delivery that failed is reported
/// as a single error record.
pub fn report_delivery<P>(delivery: Result<EventBatch<P>, String>, filters: &[EventFilter]) -> (lines:
    Vec<Line<P>>)
    ensures
        lines@ == delivery_lines(delivery, filters@),
{
    match delivery {
        Ok(batch) => report_batch(batch, filters),
        Err(reason) => {
            let mut lines: Vec<Line<P>> = Vec::new();
            lines.push(Line::Error(reason));
            lines
        },
    }
}

/// Decides what the loop does with what a poll of the event source gave:
/// `None` once the source has closed, otherwise the next delivery.
///
/// The loop stops when the source has closed and at no other time. A
/// delivery that failed is reported and the loop goes on.
pub fn next_action<P>(polled: Option<Result<EventBatch<P>, String>>, filters: &[EventFilter]) -> (action:
    Action<P>)
    ensures
        polled is None <==> action is Stop,
        polled matches Some(delivery) ==> (action matches Action::Emit(lines) && lines@
            == delivery_lines(delivery, filters@)),
{
    match polled {
        None => Action::Stop,
        Some(delivery) => Action::Emit(report_delivery(delivery, filters)),
    }
}

/// Runs the dispatch loop over a stream that has ended: polls it until it
/// is exhausted and returns everything that was reported, in order.
pub fn listen<P>(stream: Vec<Result<EventBatch<P>, String>>, filters: &[EventFilter]) -> (lines: Vec<
    Line<P>,
>)
    ensures
        lines@ == stream_lines(stream@, filters@),
{
    let ghost all = stream@;
    let ghost each = |delivery: Result<EventBatch<P>, String>| delivery_lines(delivery, filters@);
    let mut lines: Vec<Line<P>> = Vec::new();
    for delivery in it: stream
        invariant
            it.seq() == all,
            each == |delivery: Result<EventBatch<P>, String>| delivery_lines(delivery, filters@),
            lines@ == all.take(it.index()).flat_map(each),
    {
        proof {
            all.lemma_flat_map_take_append(each, it.index());
        }
        let mut report = report_delivery(delivery, filters);
        lines.append(&mut report);
    }
    assert(all.take(all.len() as int) == all);
    lines
}

/// Filtering keeps the order of events: what survives of two runs of events
/// laid end to end is what survives of the first, followed by what
/// survives of the second.
pub proof fn lemma_surviving_keeps_order<P>(
    first: Seq<Event<P>>,
    second: Seq<Event<P>>,
    filters: Seq<EventFilter>,
)
    ensures
        surviving(first + second, filters) == surviving(first, filters) + surviving(
            second,
            filters,
        ),
{
    Seq::filter_distributes_over_add(first, second, |e: Event<P>| any_accepts(filters, e.kind));
}

/// Every event that survives matches the filter set, and every event of
/// the batch that matches it survives.
pub proof fn lemma_surviving_are_the_matching<P>(events: Seq<Event<P>>, filters: Seq<EventFilter>)
    ensures
        forall|i: int|
            0 <= i < surviving(events, filters).len() ==> any_accepts(
                filters,
                (#[trigger] surviving(events, filters)[i]).kind,
            ),
        forall|i: int|
            0 <= i < events.len() && any_accepts(filters, (#[trigger] events[i]).kind)
                ==> surviving(events, filters).contains(events[i]),
        forall|i: int|
            0 <= i < surviving(events, filters).len() ==> events.contains(
                #[trigger] surviving(events, filters)[i],
            ),
{
    let pred = |e: Event<P>| any_accepts(filters, e.kind);
    let kept = surviving(events, filters);
    assert forall|i: int| 0 <= i < kept.len() implies any_accepts(filters, (#[trigger] kept[i]).kind)
        && events.contains(kept[i]) by {
        events.lemma_filter_pred(pred, i);
        assert(kept.contains(kept[i]));
        events.lemma_filter_contains_rev(pred, kept[i]);
    }
    assert forall|i: int|
        0 <= i < events.len() && any_accepts(filters, (#[trigger] events[i]).kind) implies kept.contains(
        events[i],
    ) by {
        events.lemma_filter_contains(pred, i);
    }
}

/// Of three events of which the first and the last match and the middle
/// one does not, the first and the last are reported, in that order.
pub proof fn lemma_middle_event_dropped<P>(
    height: u64,
    first: Event<P>,
    middle: Event<P>,
    last: Event<P>,
    filters: Seq<EventFilter>,
)
    requires
        any_accepts(filters, first.kind),
        !any_accepts(filters, middle.kind),
        any_accepts(filters, last.kind),
    ensures
        surviving(seq![first, middle, last], filters) == seq![first, last],
        batch_lines(height, seq![first, middle, last], filters) == seq![
            Line::Height(height),
            Line::Event(first),
            Line::Event(last),
            Line::Blank,
        ],
{
    let pred = |e: Event<P>| any_accepts(filters, e.kind);
    let none = Seq::<Event<P>>::empty();
    none.lemma_filter_len(pred);
    none.lemma_filter_push(first, pred);
    none.push(first).lemma_filter_push(middle, pred);
    none.push(first).push(middle).lemma_filter_push(last, pred);
    assert(seq![first, middle, last] == none.push(first).push(middle).push(last));
    assert(surviving(seq![first, middle, last], filters) == seq![first, last]);
}

/// A batch is passed over in silence exactly when none of its events
/// matches the filter set.
pub proof fn lemma_silent_iff_nothing_matches<P>(
    height: u64,
    events: Seq<Event<P>>,
    filters: Seq<EventFilter>,
)
    ensures
        batch_lines(height, events, filters).len() == 0 <==> forall|i: int|
            0 <= i < events.len() ==> !any_accepts(filters, (#[trigger] events[i]).kind),
{
    lemma_surviving_are_the_matching(events, filters);
    let kept = surviving(events, filters);
    if kept.len() > 0 {
        assert(events.contains(kept[0]));
    } else {
        assert forall|i: int| 0 <= i < events.len() implies !any_accepts(
            filters,
            (#[trigger] events[i]).kind,
        ) by {
            if any_accepts(filters, events[i].kind) {
                assert(kept.contains(events[i]));
            }
        }
    }
}

/// A batch of which some event matches is reported as its height, then
/// its matching events in the order in which they came, then a blank.
pub proof fn lemma_report_shape<P>(height: u64, events: Seq<Event<P>>, filters: Seq<EventFilter>)
    requires
        surviving(events, filters).len() > 0,
    ensures
        batch_lines(height, events, filters).len() == surviving(events, filters).len() + 2,
        batch_lines(height, events, filters).first() == Line::<P>::Height(height),
        batch_lines(height, events, filters).last() == Line::<P>::Blank,
        forall|i: int|
            0 <= i < surviving(events, filters).len() ==> #[trigger] batch_lines(
                height,
                events,
                filters,
            )[i + 1] == Line::Event(surviving(events, filters)[i]),
{
}

/// Deliveries are judged one by one: what is reported for two streams laid
/// end to end is what is reported for the first, followed by what is
/// reported for the second.
pub proof fn lemma_deliveries_are_independent<P>(
    before: Seq<Result<EventBatch<P>, String>>,
    after: Seq<Result<EventBatch<P>, String>>,
    filters: Seq<EventFilter>,
)
    ensures
        stream_lines(before + after, filters) == stream_lines(before, filters) + stream_lines(
            after,
            filters,
        ),
{
    let each = |delivery: Result<EventBatch<P>, String>| delivery_lines(delivery, filters);
    assert((before + after).map_values(each) == before.map_values(each) + after.map_values(each));
    lemma_flatten_concat(before.map_values(each), after.map_values(each));
}

/// A delivery that failed costs one error record and nothing else: what
/// came before it and what comes after it are reported as if it had not
/// occurred.
pub proof fn lemma_failure_does_not_end_the_stream<P>(
    before: Seq<Result<EventBatch<P>, String>>,
    reason: String,
    after: Seq<Result<EventBatch<P>, String>>,
    filters: Seq<EventFilter>,
)
    ensures
        stream_lines(before + seq![Err(reason)] + after, filters) == stream_lines(before, filters)
            + seq![Line::Error(reason)] + stream_lines(after, filters),
{
    let failed = seq![Err::<EventBatch<P>, String>(reason)];
    let each = |delivery: Result<EventBatch<P>, String>| delivery_lines(delivery, filters);
    lemma_deliveries_are_independent(before + failed, after, filters);
    lemma_deliveries_are_independent(before, failed, filters);
    failed.map_values(each).lemma_flatten_singleton();
}

/// A stream that has ended without a delivery leaves nothing to report.
pub proof fn lemma_empty_stream_is_silent<P>(filters: Seq<EventFilter>)
    ensures
        stream_lines(Seq::<Result<EventBatch<P>, String>>::empty(), filters).len() == 0,
{
}

/// Two filter sets that accept the same events lead to the same report.
pub proof fn lemma_equal_sets_report_alike<P>(
    stream: Seq<Result<EventBatch<P>, String>>,
    a: Seq<EventFilter>,
    b: Seq<EventFilter>,
)
    requires
        forall|kind: EventKind| any_accepts(a, kind) == any_accepts(b, kind),
    ensures
        stream_lines(stream, a) == stream_lines(stream, b),
{
    let pred_a = |e: Event<P>| any_accepts(a, e.kind);
    let pred_b = |e: Event<P>| any_accepts(b, e.kind);
    assert(pred_a =~= pred_b);
    let each_a = |delivery: Result<EventBatch<P>, String>| delivery_lines(delivery, a);
    let each_b = |delivery: Result<EventBatch<P>, String>| delivery_lines(delivery, b);
    assert(each_a =~= each_b);
}

/// A session for which nothing was selected reports exactly what a session
/// reports for which both filters were selected.
pub proof fn lemma_empty_selection_reports_all<P>(stream: Seq<Result<EventBatch<P>, String>>)
    ensures
        stream_lines(stream, effective(Seq::empty())) == stream_lines(
            stream,
            effective(seq![EventFilter::NewBlock, EventFilter::Tx]),
        ),
{
    assert forall|kind: EventKind|
        any_accepts(effective(Seq::empty()), kind) == any_accepts(
            effective(seq![EventFilter::NewBlock, EventFilter::Tx]),
            kind,
        ) by {
        lemma_empty_selection_selects_all(kind);
    }
    lemma_equal_sets_report_alike(
        stream,
        effective(Seq::empty()),
        effective(seq![EventFilter::NewBlock, EventFilter::Tx]),
    );
}

} // verus!
