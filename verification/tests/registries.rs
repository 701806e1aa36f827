use eventsourcing::aggregate::{
    create_aggregate, register_aggregate, Aggregate, AggregateRegistry, MyAggregate,
};
use eventsourcing::command_main::{
    create_command, register_command, Command, CommandRegistry, MyCommand,
};
use eventsourcing::context::{
    copy_context, marshal_context, register_context_marshaler, register_context_unmarshaler,
    CloneableAny, Context, ContextMarshaler, ContextRegistry, ContextUnmarshaler,
};
use eventsourcing::event::{
    create_event_data, register_event_data, EventDataRegistry, MyEventData,
};
use eventsourcing::snapshot::{AggregateType, Snapshot, SnapshotFactoryRegistry};
use eventsourcing::event::EventData;
use eventsourcing::uuid::new;

#[test]
fn test_register_and_create_aggregate() {
    let aggregate_type = "MyAggregate".to_string();
    let mut registry = AggregateRegistry::new();
    register_aggregate(&mut registry, aggregate_type.clone());

    let id = new();
    let aggregate: Result<MyAggregate, _> = create_aggregate(&registry, &aggregate_type, id);
    assert!(aggregate.is_ok());

    let aggregate = aggregate.unwrap();
    assert_eq!(aggregate.aggregate_type(), "MyAggregate");
    assert_eq!(aggregate.entity_id(), id);
}

#[test]
fn test_create_unregistered_aggregate() {
    let registry = AggregateRegistry::new();
    let result: Result<MyAggregate, _> = create_aggregate(&registry, "UnregisteredAggregate", new());
    assert!(result.is_err());
}

#[test]
fn test_register_and_create_command() {
    let command_type = "MyCommand".to_string();
    let mut registry = CommandRegistry::new();
    register_command(&mut registry, command_type.clone(), MyCommand::new());

    let command = create_command(&registry, &command_type);
    assert!(command.is_ok());

    let command = command.unwrap();
    assert_eq!(command.command_type(), "MyCommand");
}

#[test]
fn test_create_unregistered_command() {
    let registry: CommandRegistry<MyCommand> = CommandRegistry::new();
    let result = create_command(&registry, "UnregisteredCommand");
    assert!(result.is_err());
}

#[test]
fn test_register_and_create_event_data() {
    let mut registry = EventDataRegistry::new();
    register_event_data(
        &mut registry,
        "TestEvent".to_string(),
        MyEventData { field: "Test".to_string() }.to_event_data(),
    );
    let event_data = create_event_data(&registry, "TestEvent");
    assert!(event_data.is_ok());
}

#[test]
fn test_event_data_not_registered() {
    let registry = EventDataRegistry::new();
    let result = create_event_data(&registry, "UnregisteredEvent");
    assert!(result.is_err());
}

#[test]
fn test_marshal_unmarshal_context() {
    let mut registry = ContextRegistry::new();
    register_context_marshaler(
        &mut registry,
        ContextMarshaler { keys: vec!["aggregate_id".to_string()] },
    );
    register_context_unmarshaler(&mut registry, ContextUnmarshaler {});

    let mut ctx = Context::new();
    ctx.insert("aggregate_id".to_string(), CloneableAny::new(42));

    let mut new_ctx = Context::new();
    copy_context(&registry, &ctx, &mut new_ctx).unwrap();

    assert_eq!(new_ctx.get("aggregate_id").unwrap().as_i32().unwrap(), 42);
}

#[test]
fn test_register_context_marshaler() {
    let mut registry = ContextRegistry::new();
    register_context_marshaler(
        &mut registry,
        ContextMarshaler { keys: vec!["aggregate_id".to_string()] },
    );

    let ctx = Context::new();
    assert!(marshal_context(&registry, &ctx).is_ok());
}

#[test]
fn test_register_context_unmarshaler() {
    let mut registry = ContextRegistry::new();
    register_context_unmarshaler(&mut registry, ContextUnmarshaler {});

    let ctx = Context::new();
    let mut new_ctx = Context::new();
    copy_context(&registry, &ctx, &mut new_ctx).unwrap();
}

#[test]
fn test_snapshot_creation() {
    let data = EventData::new("snapshot_data".as_bytes().to_vec());

    let snapshot = Snapshot {
        version: 1,
        aggregate_type: AggregateType("MyAggregate".to_string()),
        timestamp: 1,
        state: data,
    };

    assert_eq!(snapshot.version, 1);
    assert_eq!(snapshot.aggregate_type.0, "MyAggregate");
}

#[test]
fn test_snapshot_factory_registration() {
    let mut registry: SnapshotFactoryRegistry<EventData> = SnapshotFactoryRegistry::new();
    let aggregate_type = AggregateType("MyAggregate".to_string());

    registry.register_snapshot_data(
        AggregateType("MyAggregate".to_string()),
        EventData::new("test_value".as_bytes().to_vec()),
    );

    let result = registry.create_snapshot_data(new(), &aggregate_type);
    assert!(result.is_ok());

    let snapshot_data = result.unwrap();
    assert_eq!(snapshot_data.bytes, "test_value".as_bytes().to_vec());
}

#[test]
fn test_context_later_insert_shadows_earlier() {
    let mut ctx = Context::new();
    ctx.insert("key".to_string(), CloneableAny::new(1));
    ctx.insert("key".to_string(), CloneableAny::new(2));
    assert_eq!(ctx.get("key").unwrap().as_i32().unwrap(), 2);
    assert!(ctx.get("absent").is_none());
}
