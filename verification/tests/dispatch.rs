use eventsourcing::event::{EventData, MyEvent};
use eventsourcing::eventbus::{EventBus, EventBusError, EventMatcher};
use eventsourcing::eventhandler::RecordingEventHandler;
use eventsourcing::matcher::{
    AggregateType, EventType, MatchAggregates, MatchAll, MatchAny, MatchEvents, Matcher, TestEvent,
};
use eventsourcing::middleware::{
    use_command_handler_middleware, use_event_handler_middleware, CommandHandler, EventHandler,
};
use eventsourcing::outbox::SimpleOutbox;
use eventsourcing::uuid::new;

fn plain_event(event_type: &str) -> MyEvent {
    MyEvent::new(
        event_type.to_string(),
        EventData::empty(),
        "TestAggregate".to_string(),
        new(),
        1,
    )
}

#[test]
fn test_match_events() {
    let event_type1 = EventType(new());
    let event_type2 = EventType(new());
    let matcher = MatchEvents::new(vec![event_type1]);

    let event = TestEvent::new(event_type1, AggregateType(new()));
    assert!(matcher.matches(&event));

    let event = TestEvent::new(event_type2, AggregateType(new()));
    assert!(!matcher.matches(&event));
}

#[test]
fn test_match_aggregates() {
    let aggregate_type1 = AggregateType(new());
    let aggregate_type2 = AggregateType(new());
    let matcher = MatchAggregates::new(vec![aggregate_type1]);

    let event = TestEvent::new(EventType(new()), aggregate_type1);
    assert!(matcher.matches(&event));

    let event = TestEvent::new(EventType(new()), aggregate_type2);
    assert!(!matcher.matches(&event));
}

#[test]
fn test_match_any() {
    let event_type1 = EventType(new());
    let aggregate_type1 = AggregateType(new());

    let matcher1 = Matcher::Events(MatchEvents::new(vec![event_type1]));
    let matcher2 = Matcher::Aggregates(MatchAggregates::new(vec![aggregate_type1]));

    let matcher_any = MatchAny::new(vec![matcher1, matcher2]);

    let event = TestEvent::new(event_type1, aggregate_type1);
    assert!(matcher_any.matches(&event));
}

#[test]
fn test_match_all() {
    let event_type1 = EventType(new());
    let aggregate_type1 = AggregateType(new());

    let matcher1 = Matcher::Events(MatchEvents::new(vec![event_type1]));
    let matcher2 = Matcher::Aggregates(MatchAggregates::new(vec![aggregate_type1]));

    let matcher_all = MatchAll::new(vec![matcher1, matcher2]);

    let event = TestEvent::new(event_type1, aggregate_type1);
    assert!(matcher_all.matches(&event));

    let event = TestEvent::new(EventType(new()), aggregate_type1);
    assert!(!matcher_all.matches(&event));
}

// The matcher algebra on concrete values: AND over nothing accepts, OR
// over nothing rejects, and pairs behave as plain conjunction and
// disjunction.
#[test]
fn test_matcher_algebra_on_values() {
    let event = TestEvent::new(EventType(new()), AggregateType(new()));

    assert!(MatchAll::new(vec![]).matches(&event));
    assert!(!MatchAny::new(vec![]).matches(&event));

    let hit = event.event_type();
    let miss = EventType(new());

    let all_pair = MatchAll::new(vec![
        Matcher::Events(MatchEvents::new(vec![hit])),
        Matcher::Events(MatchEvents::new(vec![miss])),
    ]);
    assert!(!all_pair.matches(&event));

    let any_pair = MatchAny::new(vec![
        Matcher::Events(MatchEvents::new(vec![hit])),
        Matcher::Events(MatchEvents::new(vec![miss])),
    ]);
    assert!(any_pair.matches(&event));
}

#[test]
fn test_event_bus() {
    let mut bus: EventBus<RecordingEventHandler> = EventBus::new();
    let matcher = EventMatcher::Events(vec!["Test Event".to_string()]);
    let handler = RecordingEventHandler::new("test_handler".to_string());

    assert!(bus.add_handler(Some(matcher), Some(handler)).is_ok());

    let event = plain_event("Test Event");
    let (matched, report) = bus.dispatch(&event);
    assert_eq!(matched, vec![true]);
    assert_eq!(report, vec![true]);
    assert_eq!(bus.entries[0].2.received, vec!["Test Event"]);
}

#[test]
fn test_event_bus_rejects_duplicates_and_missing() {
    let mut bus: EventBus<RecordingEventHandler> = EventBus::new();
    let missing = bus.add_handler(None, Some(RecordingEventHandler::new("h".to_string())));
    assert_eq!(missing.unwrap_err(), EventBusError::MissingMatcher);

    let missing = bus.add_handler(Some(EventMatcher::Events(vec![])), None);
    assert_eq!(missing.unwrap_err(), EventBusError::MissingHandler);

    assert!(bus
        .add_handler(
            Some(EventMatcher::Events(vec!["A".to_string()])),
            Some(RecordingEventHandler::new("h".to_string())),
        )
        .is_ok());
    let duplicate = bus.add_handler(
        Some(EventMatcher::Events(vec!["B".to_string()])),
        Some(RecordingEventHandler::new("h".to_string())),
    );
    assert_eq!(duplicate.unwrap_err(), EventBusError::HandlerAlreadyAdded);
}

#[test]
fn test_add_handler_and_event_processing() {
    let mut outbox: SimpleOutbox<RecordingEventHandler> = SimpleOutbox::new();

    let event_handler = RecordingEventHandler::new("handler".to_string());
    let event_matcher = EventMatcher::Events(vec!["test_event".to_string()]);

    outbox.add_handler(event_matcher, event_handler).unwrap();

    let event = plain_event("test_event");
    outbox.handle_event(&event).unwrap();
    let _ = outbox.process_pending();

    assert_eq!(outbox.entries[0].2.received, vec!["test_event"]);
}

#[test]
fn test_event_not_matching() {
    let mut outbox: SimpleOutbox<RecordingEventHandler> = SimpleOutbox::new();

    let event_handler = RecordingEventHandler::new("handler".to_string());
    let event_matcher = EventMatcher::Events(vec!["other_event".to_string()]);

    outbox.add_handler(event_matcher, event_handler).unwrap();

    let event = plain_event("test_event");
    outbox.handle_event(&event).unwrap();
    let (outcomes, reports) = outbox.process_pending();

    // The event did not match, so it counts as delivered vacuously.
    assert_eq!(outcomes, vec![true]);
    assert_eq!(reports, vec![vec![true]]);
    assert!(outbox.entries[0].2.received.is_empty());
}

#[test]
fn test_error_handling_in_outbox() {
    let mut outbox: SimpleOutbox<RecordingEventHandler> = SimpleOutbox::new();

    let event_handler = RecordingEventHandler::failing("handler".to_string(), 1);
    let event_matcher = EventMatcher::Events(vec!["test_event".to_string()]);

    outbox.add_handler(event_matcher, event_handler).unwrap();

    let event = plain_event("test_event");
    let result = outbox.handle_event(&event);
    assert!(result.is_ok());

    let _ = outbox.process_pending();
    assert_eq!(outbox.errors().len(), 1);
    assert_eq!(
        outbox.errors()[0].message(),
        "outbox error: delivery refused [test_event]"
    );
}

#[test]
fn test_start_and_close_outbox() {
    let mut outbox: SimpleOutbox<RecordingEventHandler> = SimpleOutbox::new();

    outbox.start().unwrap();

    let result = outbox.close();
    assert!(result.is_ok());
}

// At-least-once delivery: a handler that fails the first attempt and
// succeeds the next sees the event twice, yet the event is marked
// delivered exactly once.
#[test]
fn test_outbox_retries_until_delivered() {
    let mut outbox: SimpleOutbox<RecordingEventHandler> = SimpleOutbox::new();
    outbox
        .add_handler(
            EventMatcher::Events(vec!["Created".to_string()]),
            RecordingEventHandler::failing("handler".to_string(), 1),
        )
        .unwrap();

    let event = plain_event("Created");
    outbox.handle_event(&event).unwrap();

    // First pass: the handler refuses, the event stays pending.
    let (outcomes, reports) = outbox.process_pending();
    assert_eq!(outcomes, vec![false]);
    assert_eq!(reports, vec![vec![false]]);
    assert_eq!(outbox.pending.len(), 1);
    assert_eq!(outbox.delivered.len(), 0);
    assert_eq!(outbox.errors().len(), 1);

    // Second pass: the handler accepts, the event moves to delivered.
    let (outcomes, reports) = outbox.process_pending();
    assert_eq!(outcomes, vec![true]);
    assert_eq!(reports, vec![vec![true]]);
    assert_eq!(outbox.pending.len(), 0);
    assert_eq!(outbox.delivered.len(), 1);
    assert_eq!(outbox.entries[0].2.received, vec!["Created"]);
}

// A handler subscribed to one event type sees only that type when a
// mixed batch is committed.
#[test]
fn test_outbox_delivers_only_matching_events() {
    let mut outbox: SimpleOutbox<RecordingEventHandler> = SimpleOutbox::new();
    outbox
        .add_handler(
            EventMatcher::Events(vec!["Created".to_string()]),
            RecordingEventHandler::new("created_handler".to_string()),
        )
        .unwrap();

    outbox.handle_event(&plain_event("Created")).unwrap();
    outbox.handle_event(&plain_event("Renamed")).unwrap();
    let (outcomes, reports) = outbox.process_pending();

    assert_eq!(outcomes, vec![true, true]);
    assert_eq!(reports, vec![vec![true], vec![true]]);
    assert_eq!(outbox.entries[0].2.received, vec!["Created"]);
    assert_eq!(outbox.delivered.len(), 2);
}

struct PlainCommandHandler;

impl CommandHandler for PlainCommandHandler {
    fn handle_command(&mut self, _command: &str) {}
}

struct PlainEventHandler;

impl EventHandler for PlainEventHandler {
    fn handle_event(&mut self, _event: &str) {}
}

#[test]
fn test_command_handler_middleware() {
    let handler = PlainCommandHandler;

    let mut wrapped = use_command_handler_middleware(
        handler,
        vec!["Middleware 1".to_string(), "Middleware 2".to_string()],
    );

    wrapped.handle_command("TestCommand");
    assert_eq!(
        wrapped.trace,
        vec![
            "Middleware 1 before".to_string(),
            "Middleware 2 before".to_string(),
            "Middleware 2 after".to_string(),
            "Middleware 1 after".to_string(),
        ]
    );
}

#[test]
fn test_event_handler_middleware() {
    let handler = PlainEventHandler;

    let mut wrapped = use_event_handler_middleware(
        handler,
        vec!["Middleware 1".to_string(), "Middleware 2".to_string()],
    );

    wrapped.handle_event("TestEvent");
    assert_eq!(
        wrapped.trace,
        vec![
            "Middleware 1 before".to_string(),
            "Middleware 2 before".to_string(),
            "Middleware 2 after".to_string(),
            "Middleware 1 after".to_string(),
        ]
    );
}

#[test]
fn test_event_bus_records_handler_failures() {
    let mut bus: EventBus<RecordingEventHandler> = EventBus::new();
    bus.add_handler(
        Some(EventMatcher::Events(vec!["Created".to_string()])),
        Some(RecordingEventHandler::failing("handler".to_string(), 1)),
    )
    .unwrap();

    let event = plain_event("Created");
    let (matched, report) = bus.dispatch(&event);
    assert_eq!(matched, vec![true]);
    assert_eq!(report, vec![false]);
    assert_eq!(bus.errors().len(), 1);

    bus.close().unwrap();
    let (matched, _) = bus.dispatch(&event);
    assert!(matched.is_empty());
}
