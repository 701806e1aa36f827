use eventsourcing::add;
use eventsourcing::entity::{Entity, MyEntity, Versionable};
use eventsourcing::event::{EventData, MyEvent, MyEventData};
use eventsourcing::uuid::{must_parse, new, parse, Uuid};

#[test]
fn it_works() {
    let result = add(2, 2);
    assert_eq!(result, 4);
}

#[test]
fn test_entity_id() {
    let id = new();
    let entity = MyEntity::new(id, 1);
    assert_eq!(entity.entity_id(), id);
}

#[test]
fn test_aggregate_version() {
    let id = new();
    let entity = MyEntity::new(id, 10);
    assert_eq!(entity.aggregate_version(), 10);
}

#[test]
fn test_event_creation() {
    let event_data = MyEventData { field: "Some data".to_string() }.to_event_data();
    let event = MyEvent::new(
        "TestEvent".to_string(),
        event_data,
        "TestAggregate".to_string(),
        new(),
        1,
    );
    assert_eq!(event.event_type(), "TestEvent");
    assert_eq!(event.aggregate_type(), "TestAggregate");
    assert_eq!(event.version(), 1);
}

#[test]
fn test_event_metadata_and_text() {
    let mut event = MyEvent::new(
        "TestEvent".to_string(),
        EventData::empty(),
        "TestAggregate".to_string(),
        new(),
        1,
    );
    event.insert_metadata("key".to_string(), "value".to_string());
    let metadata = event.metadata();
    assert_eq!(metadata.len(), 1);
    assert_eq!(metadata[0].0, "key");
    assert_eq!(metadata[0].1, "value");
    assert_eq!(event.to_text(), "Event type: TestEvent");
    let copy = event.duplicate();
    assert_eq!(copy.event_type(), "TestEvent");
    assert_eq!(copy.metadata().len(), 1);
}

#[test]
fn test_uuid_parse_hyphenated() {
    let id = parse("67e55044-10b1-426f-9247-bb680e5fe0c8").unwrap();
    assert_eq!(id.value, 0x67e5504410b1426f9247bb680e5fe0c8);
}

#[test]
fn test_uuid_parse_simple_and_case() {
    let id = parse("67E5504410B1426F9247BB680E5FE0C8").unwrap();
    assert_eq!(id.value, 0x67e5504410b1426f9247bb680e5fe0c8);
}

#[test]
fn test_uuid_parse_rejects_malformed() {
    assert!(parse("not-a-uuid").is_err());
    assert!(parse("67e55044-10b1-426f-9247-bb680e5fe0c").is_err());
    assert!(parse("67e55044x10b1x426fx9247xbb680e5fe0c8").is_err());
}

#[test]
fn test_uuid_parse_braced_and_urn() {
    let braced = parse("{67e55044-10b1-426f-9247-bb680e5fe0c8}").unwrap();
    assert_eq!(braced.value, 0x67e5504410b1426f9247bb680e5fe0c8);

    let urn = parse("urn:uuid:67e55044-10b1-426f-9247-bb680e5fe0c8").unwrap();
    assert_eq!(urn.value, 0x67e5504410b1426f9247bb680e5fe0c8);

    let shouting = parse("URN:UUID:67E55044-10B1-426F-9247-BB680E5FE0C8").unwrap();
    assert_eq!(shouting.value, 0x67e5504410b1426f9247bb680e5fe0c8);

    assert!(parse("{67e5504410b1426f9247bb680e5fe0c8}").is_err());
    assert!(parse("arn:uuid:67e55044-10b1-426f-9247-bb680e5fe0c8").is_err());
}

#[test]
fn test_uuid_to_text_round_trip() {
    let id = new();
    let text = id.to_text();
    assert_eq!(parse(&text).unwrap(), id);

    let known = Uuid { value: 0x67e5504410b1426f9247bb680e5fe0c8 };
    assert_eq!(known.to_text(), "67e55044-10b1-426f-9247-bb680e5fe0c8");
}

#[test]
fn test_uuid_must_parse() {
    let id = must_parse("00000000-0000-0000-0000-000000000001");
    assert_eq!(id, Uuid { value: 1 });
}

#[test]
fn test_uuid_new_is_version_four() {
    let id = new();
    assert_eq!((id.value >> 76) & 0xf, 4);
    assert_eq!((id.value >> 62) & 0x3, 2);
}
