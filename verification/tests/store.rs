use eventsourcing::aggregate::{Aggregate, MyAggregate};
use eventsourcing::aggregatestore::{AggregateRoot, AggregateStore};
use eventsourcing::event::{EventData, MyEvent};
use eventsourcing::eventmaintenance::{BasicEventStoreMaintenance, EventStoreMaintenance};
use eventsourcing::eventsource::{BasicEventSource, EventSource};
use eventsourcing::eventstore::{EventStoreErrorKind, MemoryEventStore};
use eventsourcing::entity::Versionable;
use eventsourcing::repo::{Entity, MemoryRepo, RepoOperation};
use eventsourcing::uuid::{new, Uuid};

fn plain_event(event_type: &str, id: Uuid, version: u64) -> MyEvent {
    MyEvent::new(
        event_type.to_string(),
        EventData::empty(),
        "TestAggregate".to_string(),
        id,
        version,
    )
}

#[test]
fn test_event_store_save_and_load() {
    let mut store = MemoryEventStore::new();
    let id = new();

    let events = vec![plain_event("Event1", id, 1), plain_event("Event2", id, 2)];
    assert!(store.save(events, 0).is_ok());

    let loaded = store.load(id).unwrap();
    assert_eq!(loaded.len(), 2);
    assert_eq!(loaded[0].event_type(), "Event1");
    assert_eq!(loaded[1].event_type(), "Event2");

    let missing = store.load(new());
    assert!(missing.is_err());
    assert_eq!(missing.unwrap_err().kind, EventStoreErrorKind::NotFound);
}

#[test]
fn test_load_aggregate_not_found() {
    let store = MemoryEventStore::new();
    let aggregate_id = new();

    let result = store.load(aggregate_id);
    assert!(result.is_err());

    let error = result.unwrap_err();
    assert_eq!(
        error.message(),
        format!("event store: load: aggregate not found, Aggregate({}, v0)", aggregate_id.to_text())
    );
}

#[test]
fn test_load_from_missing_aggregate_message() {
    let store = MemoryEventStore::new();
    let aggregate_id = new();

    let result = store.load_from(aggregate_id, 5);
    assert!(result.is_err());

    let error = result.unwrap_err();
    assert_eq!(
        error.message(),
        format!(
            "event store: load_from: aggregate not found, Aggregate({}, v5)",
            aggregate_id.to_text()
        )
    );
}

#[test]
fn test_save_missing_events_error() {
    let mut store = MemoryEventStore::new();
    let result = store.save(vec![], 1);
    assert!(result.is_err());
    let err = result.unwrap_err();
    assert_eq!(err.kind, EventStoreErrorKind::InvalidInput);
    assert_eq!(err.message(), "event store: save: missing events");
}

#[test]
fn test_save_non_contiguous_versions_error() {
    let mut store = MemoryEventStore::new();
    let id = new();
    let events = vec![plain_event("Event1", id, 1), plain_event("Event2", id, 3)];
    let result = store.save(events, 0);
    assert!(result.is_err());
    assert_eq!(result.unwrap_err().kind, EventStoreErrorKind::InvalidInput);
}

// A second saver against the same expected version loses with a conflict;
// after a reload the retry against the advanced version succeeds.
#[test]
fn test_optimistic_concurrency_scenario() {
    let mut store = MemoryEventStore::new();
    let id = new();

    // First caller: two events against a fresh aggregate.
    let first = vec![plain_event("Created", id, 1), plain_event("Renamed", id, 2)];
    assert!(store.save(first, 0).is_ok());

    // Second caller raced on the same expected version and loses.
    let stale = vec![plain_event("Closed", id, 1)];
    let conflict = store.save(stale, 0);
    assert!(conflict.is_err());
    assert_eq!(conflict.unwrap_err().kind, EventStoreErrorKind::ConcurrencyConflict);

    // The loser reloads, sees version 2, and retries.
    let loaded = store.load(id).unwrap();
    assert_eq!(loaded.len(), 2);
    let retry = vec![plain_event("Closed", id, 3)];
    assert!(store.save(retry, 2).is_ok());

    let final_history = store.load(id).unwrap();
    let versions: Vec<u64> = final_history.iter().map(|e| e.version()).collect();
    assert_eq!(versions, vec![1, 2, 3]);
}

#[test]
fn test_load_from_returns_suffix() {
    let mut store = MemoryEventStore::new();
    let id = new();
    let events = vec![
        plain_event("Created", id, 1),
        plain_event("Renamed", id, 2),
        plain_event("Closed", id, 3),
    ];
    assert!(store.save(events, 0).is_ok());

    let suffix = store.load_from(id, 2).unwrap();
    assert_eq!(suffix.len(), 2);
    assert_eq!(suffix[0].version(), 2);
    assert_eq!(suffix[1].version(), 3);

    let nothing = store.load_from(id, 4);
    assert!(nothing.is_err());
    assert_eq!(nothing.unwrap_err().kind, EventStoreErrorKind::NotFound);
}

// Replaying all events onto a fresh aggregate equals replaying a snapshot
// plus the events after it.
#[test]
fn test_snapshot_replay_round_trip() {
    let mut store: AggregateStore<MyAggregate> = AggregateStore::new();
    let id = new();

    let mut root = AggregateRoot {
        id,
        version: 0,
        state: MyAggregate::new(id),
        uncommitted: Vec::new(),
    };
    root.record(plain_event("Created", id, 1));
    root.record(plain_event("Renamed", id, 2));
    assert!(store.save(&mut root).is_ok());
    assert_eq!(root.version, 2);

    // Cache the state at version 2 and commit one more event.
    assert!(store.take_snapshot(&root, 7).is_ok());
    root.record(plain_event("Closed", id, 3));
    assert!(store.save(&mut root).is_ok());

    // Loading goes through the snapshot and the suffix, and must equal a
    // full replay onto a fresh aggregate.
    let via_snapshot = store.load(id).unwrap();
    assert_eq!(via_snapshot.version, 3);
    assert_eq!(via_snapshot.state.applied, vec!["Created", "Renamed", "Closed"]);

    let mut replayed = MyAggregate::new(id);
    for event in store.events.load(id).unwrap() {
        replayed.apply(&event);
    }
    assert_eq!(via_snapshot.state.applied, replayed.applied);
}

#[test]
fn test_aggregate_store_conflict_leaves_root_untouched() {
    let mut store: AggregateStore<MyAggregate> = AggregateStore::new();
    let id = new();

    let mut first = AggregateRoot {
        id,
        version: 0,
        state: MyAggregate::new(id),
        uncommitted: Vec::new(),
    };
    first.record(plain_event("Created", id, 1));
    assert!(store.save(&mut first).is_ok());

    let mut stale = AggregateRoot {
        id,
        version: 0,
        state: MyAggregate::new(id),
        uncommitted: Vec::new(),
    };
    stale.record(plain_event("Other", id, 1));
    let result = store.save(&mut stale);
    assert!(result.is_err());
    assert_eq!(result.unwrap_err().kind, EventStoreErrorKind::ConcurrencyConflict);
    // The losing aggregate keeps its uncommitted event for the retry.
    assert_eq!(stale.uncommitted.len(), 1);
    assert_eq!(stale.version, 0);
}

#[test]
fn test_event_source() {
    let mut event_source = BasicEventSource::new();

    let event = plain_event("TestEvent", new(), 1);
    event_source.record(event);

    let events = event_source.uncommitted_events();
    assert_eq!(events.len(), 1);
    assert_eq!(events[0].event_type(), "TestEvent");

    event_source.clear_uncommitted_events();
    let events = event_source.uncommitted_events();
    assert_eq!(events.len(), 0);
}

#[test]
fn test_event_store_maintenance() {
    let mut maintenance = BasicEventStoreMaintenance::new();
    let id = new();

    let original = plain_event("OldEvent", id, 1);
    assert!(maintenance.replace(original).is_err());

    maintenance.events.push(plain_event("OldEvent", id, 1));
    let replacement = plain_event("OldEvent", id, 1);
    assert!(maintenance.replace(replacement).is_ok());

    assert!(maintenance.rename_event("OldEvent", "NewEvent").is_ok());
    assert_eq!(maintenance.events[0].event_type(), "NewEvent");
}

#[test]
fn test_find_entity() {
    let mut repo = MemoryRepo::new();
    let entity = eventsourcing::entity::MyEntity::new(new(), 1);

    let entity_id = entity.id();
    repo.save(entity).unwrap();

    let found_entity = repo.find(entity_id).unwrap();
    assert_eq!(found_entity.id(), entity_id);
}

#[test]
fn test_find_entity_not_found() {
    let repo: MemoryRepo<eventsourcing::entity::MyEntity> = MemoryRepo::new();
    let entity_id = new();

    let result = repo.find(entity_id);
    assert!(result.is_err());
    let err = result.unwrap_err();
    assert_eq!(err.op, RepoOperation::Find);
    assert_eq!(err.entity_id, Some(entity_id));
    assert_eq!(
        err.message(),
        format!("repo: Find: unknown error entity ID: {}", entity_id.to_text())
    );
}

#[test]
fn test_save_entity_in_read_write_repo() {
    let mut repo = MemoryRepo::new();

    let entity = eventsourcing::entity::MyEntity::new(new(), 1);

    let result = repo.save(entity);
    assert!(result.is_ok());
}

#[test]
fn test_remove_entity() {
    let mut repo = MemoryRepo::new();
    let entity = eventsourcing::entity::MyEntity::new(new(), 1);
    let entity_id = entity.id();
    repo.save(entity).unwrap();

    assert!(repo.remove(entity_id).is_ok());
    assert!(repo.find(entity_id).is_err());

    let again = repo.remove(entity_id);
    assert!(again.is_err());
    assert_eq!(again.unwrap_err().op, RepoOperation::Remove);
}

#[test]
fn test_find_all_returns_insertion_order() {
    let mut repo = MemoryRepo::new();
    let first = eventsourcing::entity::MyEntity::new(new(), 1);
    let second = eventsourcing::entity::MyEntity::new(new(), 2);
    repo.save(first).unwrap();
    repo.save(second).unwrap();

    let all = repo.find_all().unwrap();
    assert_eq!(all.len(), 2);
    assert_eq!(all[0].aggregate_version(), 1);
    assert_eq!(all[1].aggregate_version(), 2);
}
