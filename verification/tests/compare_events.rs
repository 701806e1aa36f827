use eventsourcing::compare::{compare_event_slices, compare_events, ignore_timestamp};
use eventsourcing::event::{EventData, MyEvent};
use eventsourcing::uuid::{new, Uuid};

fn event_with(
    event_type: &str,
    data: Vec<u8>,
    timestamp: u64,
    aggregate_type: &str,
    aggregate_id: Uuid,
    version: u64,
) -> MyEvent {
    MyEvent::new(
        event_type.to_string(),
        EventData::new(data),
        aggregate_type.to_string(),
        aggregate_id,
        version,
    )
    .with_timestamp(timestamp)
}

#[test]
fn test_compare_events_equal() {
    let id = new();
    let event1 = event_with("TestEvent", vec![42], 1000, "TestAggregate", id, 1);
    let event2 = event_with("TestEvent", vec![42], 1000, "TestAggregate", id, 1);

    let result = compare_events(&event1, &event2, &vec![]);
    assert!(result.is_ok(), "Expected events to be equal, but they were not.");
}

#[test]
fn test_compare_events_different_data() {
    let id = new();
    let event1 = event_with("TestEvent", vec![42], 1000, "TestAggregate", id, 1);
    let event2 = event_with("TestEvent", vec![43], 1000, "TestAggregate", id, 1);

    let result = compare_events(&event1, &event2, &vec![]);
    assert!(result.is_err(), "Expected events to be different, but they were equal.");
    assert_eq!(result.unwrap_err().details, "Event data mismatch");
}

#[test]
fn test_compare_events_different_metadata() {
    let id = new();
    let mut event1 = event_with("TestEvent", vec![42], 1000, "TestAggregate", id, 1);
    event1.insert_metadata("key1".to_string(), "value1".to_string());

    let mut event2 = event_with("TestEvent", vec![42], 1000, "TestAggregate", id, 1);
    event2.insert_metadata("key1".to_string(), "value2".to_string());

    let result = compare_events(&event1, &event2, &vec![]);
    assert!(result.is_err(), "Expected events to have different metadata, but they were equal.");
}

#[test]
fn test_compare_events_different_aggregate_type() {
    let id = new();
    let event1 = event_with("TestEvent", vec![42], 1000, "TestAggregateA", id, 1);
    let event2 = event_with("TestEvent", vec![42], 1000, "TestAggregateB", id, 1);

    let result = compare_events(&event1, &event2, &vec![]);
    assert!(
        result.is_err(),
        "Expected events to have different aggregate types, but they were equal."
    );
}

#[test]
fn test_compare_events_different_timestamp() {
    let id = new();
    let event1 = event_with("TestEvent", vec![42], 1000, "TestAggregate", id, 1);
    let event2 = event_with("TestEvent", vec![42], 1001, "TestAggregate", id, 1);

    let result = compare_events(&event1, &event2, &vec![]);
    assert!(result.is_err(), "Expected events to have different timestamps, but they were equal.");
}

#[test]
fn test_compare_events_different_version() {
    let id = new();
    let event1 = event_with("TestEvent", vec![42], 1000, "TestAggregate", id, 1);
    let event2 = event_with("TestEvent", vec![42], 1000, "TestAggregate", id, 2);

    let result = compare_events(&event1, &event2, &vec![]);
    assert!(result.is_err(), "Expected events to have different versions, but they were equal.");
}

#[test]
fn test_compare_events_ignore_timestamp() {
    let id = new();
    let event1 = event_with("TestEvent", vec![42], 1000, "TestAggregate", id, 1);
    let event2 = event_with("TestEvent", vec![42], 1001, "TestAggregate", id, 1);

    let result = compare_events(&event1, &event2, &vec![ignore_timestamp()]);
    assert!(
        result.is_ok(),
        "Expected events to be equal when ignoring timestamps, but they were not."
    );
}

#[test]
fn test_compare_event_slices_pairwise() {
    let id = new();
    let first = vec![
        event_with("Created", vec![1], 1, "TestAggregate", id, 1),
        event_with("Renamed", vec![2], 2, "TestAggregate", id, 2),
    ];
    let second = vec![
        event_with("Created", vec![1], 1, "TestAggregate", id, 1),
        event_with("Renamed", vec![2], 2, "TestAggregate", id, 2),
    ];
    assert!(compare_event_slices(&first, &second, &vec![]));

    let third = vec![event_with("Created", vec![1], 1, "TestAggregate", id, 1)];
    assert!(!compare_event_slices(&first, &third, &vec![]));
}

#[test]
fn test_compare_events_ignore_position_metadata() {
    let id = new();
    let mut event1 = event_with("TestEvent", vec![42], 1000, "TestAggregate", id, 1);
    event1.insert_metadata("position".to_string(), "12".to_string());

    let event2 = event_with("TestEvent", vec![42], 1000, "TestAggregate", id, 1);

    assert!(compare_events(&event1, &event2, &vec![]).is_err());
    assert!(
        compare_events(
            &event1,
            &event2,
            &vec![eventsourcing::compare::ignore_position_metadata()],
        )
        .is_ok()
    );
}

#[test]
fn test_compare_events_ignore_version_option() {
    let id = new();
    let event1 = event_with("TestEvent", vec![42], 1000, "TestAggregate", id, 1);
    let event2 = event_with("TestEvent", vec![42], 1000, "TestAggregate", id, 2);

    assert!(
        compare_events(&event1, &event2, &vec![eventsourcing::compare::ignore_version()]).is_ok()
    );
}

#[test]
fn test_compare_metadata_shadowed_keys_agree() {
    let id = new();
    let mut event1 = event_with("TestEvent", vec![1], 1, "TestAggregate", id, 1);
    event1.insert_metadata("key".to_string(), "old".to_string());
    event1.insert_metadata("key".to_string(), "new".to_string());

    let mut event2 = event_with("TestEvent", vec![1], 1, "TestAggregate", id, 1);
    event2.insert_metadata("key".to_string(), "new".to_string());

    // Only the last value under a key counts, so the tables agree.
    assert!(compare_events(&event1, &event2, &vec![]).is_ok());
}
