use event_listen::dispatch::{
    filter_events, listen, next_action, report_batch, report_delivery, Action, Line,
};
use event_listen::event::{Event, EventBatch, EventKind};
use event_listen::filter::{effective_filters, EventFilter};

type Delivery = Result<EventBatch<&'static str>, String>;

fn block(payload: &'static str) -> Event<&'static str> {
    Event::new(EventKind::NewBlock, payload)
}

fn tx(payload: &'static str) -> Event<&'static str> {
    Event::new(EventKind::Other, payload)
}

fn chain_error(payload: &'static str) -> Event<&'static str> {
    Event::new(EventKind::ChainError, payload)
}

#[test]
fn filtering_keeps_order_and_drops_the_rest() {
    let events = vec![block("e1"), tx("e2"), block("e3")];
    let kept = filter_events(events, &[EventFilter::NewBlock]);
    assert_eq!(kept, vec![block("e1"), block("e3")]);
}

#[test]
fn filtering_nothing_gives_nothing() {
    let kept = filter_events(Vec::<Event<&'static str>>::new(), &[EventFilter::Tx]);
    assert_eq!(kept, vec![]);
}

#[test]
fn filtering_with_empty_set_drops_everything() {
    let kept = filter_events(vec![block("a"), tx("b")], &[]);
    assert_eq!(kept, vec![]);
}

#[test]
fn chain_errors_never_survive() {
    let all = effective_filters(&[]);
    let kept = filter_events(vec![chain_error("x"), tx("y"), chain_error("z")], &all);
    assert_eq!(kept, vec![tx("y")]);
}

#[test]
fn batch_report_lists_first_and_last_of_three() {
    let batch = EventBatch::new(42, vec![tx("e1"), block("e2"), tx("e3")]);
    let lines = report_batch(batch, &[EventFilter::Tx]);
    assert_eq!(
        lines,
        vec![
            Line::Height(42),
            Line::Event(tx("e1")),
            Line::Event(tx("e3")),
            Line::Blank,
        ]
    );
}

#[test]
fn batch_without_match_is_silent() {
    let batch = EventBatch::new(7, vec![block("a"), chain_error("b")]);
    assert_eq!(report_batch(batch, &[EventFilter::Tx]), vec![]);
}

#[test]
fn empty_batch_is_silent() {
    let batch: EventBatch<&'static str> = EventBatch::new(7, vec![]);
    assert_eq!(report_batch(batch, &[EventFilter::Tx, EventFilter::NewBlock]), vec![]);
}

#[test]
fn failed_delivery_is_one_error_record() {
    let delivery: Delivery = Err("connection reset".to_string());
    assert_eq!(
        report_delivery(delivery, &[EventFilter::Tx]),
        vec![Line::Error("connection reset".to_string())]
    );
}

#[test]
fn delivered_batch_is_reported_as_batch() {
    let delivery: Delivery = Ok(EventBatch::new(3, vec![block("b")]));
    assert_eq!(
        report_delivery(delivery, &[EventFilter::NewBlock]),
        vec![Line::Height(3), Line::Event(block("b")), Line::Blank]
    );
}

#[test]
fn closed_source_stops_the_loop() {
    let action: Action<&'static str> = next_action(None, &[EventFilter::Tx]);
    assert_eq!(action, Action::Stop);
}

#[test]
fn failed_delivery_does_not_stop_the_loop() {
    let action: Action<&'static str> =
        next_action(Some(Err("timeout".to_string())), &[EventFilter::Tx]);
    assert_eq!(action, Action::Emit(vec![Line::Error("timeout".to_string())]));
}

#[test]
fn unmatched_batch_emits_nothing_and_goes_on() {
    let polled: Option<Delivery> = Some(Ok(EventBatch::new(1, vec![block("b")])));
    assert_eq!(next_action(polled, &[EventFilter::Tx]), Action::Emit(vec![]));
}

#[test]
fn matched_batch_is_emitted() {
    let polled: Option<Delivery> = Some(Ok(EventBatch::new(9, vec![tx("t"), block("b")])));
    assert_eq!(
        next_action(polled, &[EventFilter::NewBlock]),
        Action::Emit(vec![Line::Height(9), Line::Event(block("b")), Line::Blank])
    );
}

#[test]
fn stream_survives_a_failed_delivery() {
    let stream: Vec<Delivery> = vec![
        Ok(EventBatch::new(10, vec![tx("a")])),
        Err("delivery failed".to_string()),
        Ok(EventBatch::new(11, vec![tx("b")])),
    ];
    assert_eq!(
        listen(stream, &[EventFilter::Tx]),
        vec![
            Line::Height(10),
            Line::Event(tx("a")),
            Line::Blank,
            Line::Error("delivery failed".to_string()),
            Line::Height(11),
            Line::Event(tx("b")),
            Line::Blank,
        ]
    );
}

#[test]
fn ended_stream_returns() {
    let stream: Vec<Delivery> = vec![];
    assert_eq!(listen(stream, &[EventFilter::Tx]), vec![]);
}

#[test]
fn heights_need_not_increase() {
    let stream: Vec<Delivery> = vec![
        Ok(EventBatch::new(5, vec![block("late")])),
        Ok(EventBatch::new(2, vec![block("early")])),
        Ok(EventBatch::new(2, vec![tx("skipped")])),
        Ok(EventBatch::new(u64::MAX, vec![block("far")])),
    ];
    assert_eq!(
        listen(stream, &[EventFilter::NewBlock]),
        vec![
            Line::Height(5),
            Line::Event(block("late")),
            Line::Blank,
            Line::Height(2),
            Line::Event(block("early")),
            Line::Blank,
            Line::Height(u64::MAX),
            Line::Event(block("far")),
            Line::Blank,
        ]
    );
}

#[test]
fn stream_is_the_sum_of_its_deliveries() {
    let filters = effective_filters(&[]);
    let first: Vec<Delivery> = vec![Ok(EventBatch::new(1, vec![block("a"), chain_error("b")]))];
    let second: Vec<Delivery> =
        vec![Err("lost".to_string()), Ok(EventBatch::new(2, vec![tx("c")]))];
    let mut whole = first.clone();
    whole.extend(second.clone());
    let mut expected = listen(first, &filters);
    expected.extend(listen(second, &filters));
    assert_eq!(listen(whole, &filters), expected);
}

#[test]
fn default_set_reports_as_both_selected() {
    let stream: Vec<Delivery> = vec![
        Ok(EventBatch::new(1, vec![block("a"), chain_error("b"), tx("c")])),
        Ok(EventBatch::new(2, vec![chain_error("d")])),
    ];
    let by_default = listen(stream.clone(), &effective_filters(&[]));
    let by_choice = listen(stream, &effective_filters(&[EventFilter::NewBlock, EventFilter::Tx]));
    assert_eq!(by_default, by_choice);
    assert_eq!(
        by_default,
        vec![Line::Height(1), Line::Event(block("a")), Line::Event(tx("c")), Line::Blank]
    );
}
