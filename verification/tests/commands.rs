use eventsourcing::codec_main::{
    CommandCodec, EventCodec, MyCommandCodec, MyEventCodec,
};
use eventsourcing::command_check::{check_command, CommandCheckError, IsZero};
use eventsourcing::command_main::{create_command, CommandRegistry, MyCommand};
use eventsourcing::commandhandler::{
    CheckingCommandHandler, CommandHandler, CommandHandlerError,
};
use eventsourcing::context::Context;
use eventsourcing::event::{EventData, MyEvent};
use eventsourcing::uuid::{new, Uuid};

#[test]
fn test_missing_aggregate_id() {
    let command = MyCommand { id: Uuid { value: 0 } };
    let result = check_command(&command);
    assert!(result.is_err());
    let err = result.unwrap_err();
    assert_eq!(err.field, CommandCheckError::new("missing aggregate ID").field);
    assert_eq!(err.message(), "missing field: missing aggregate ID");
}

#[test]
fn test_valid_command() {
    let command = MyCommand { id: new() };
    let result = check_command(&command);
    assert!(result.is_ok());
}

#[test]
fn test_is_zero() {
    assert!(Uuid { value: 0 }.is_zero());
    assert!(!new().is_zero());
    assert!(0u64.is_zero());
    assert!(!7u64.is_zero());
}

#[test]
fn test_command_handler_func() {
    let mut handler = CheckingCommandHandler::new();
    let command = MyCommand { id: new() };
    let context = Context::new();

    let result = handler.handle_command(&context, &command);
    assert!(result.is_ok());
    assert_eq!(handler.handled.len(), 1);
}

#[test]
fn test_command_handler_error() {
    let mut handler = CheckingCommandHandler::new();
    let command = MyCommand { id: Uuid { value: 0 } };
    let context = Context::new();

    let result = handler.handle_command(&context, &command);
    assert!(result.is_err());
    assert_eq!(result.unwrap_err().details, CommandHandlerError::new("missing aggregate ID").details);
}

#[test]
fn test_marshal_event() {
    let codec = MyEventCodec;
    let event = MyEvent::new(
        "TestEvent".to_string(),
        EventData::new(vec![1, 2, 3]),
        "TestAggregate".to_string(),
        new(),
        1,
    );

    let result = codec.marshal_event(&event);
    assert!(result.is_ok());
    assert_eq!(result.unwrap(), vec![1, 2, 3]);
}

#[test]
fn test_marshal_command() {
    let codec = MyCommandCodec;
    let command = MyCommand { id: Uuid { value: 0x0102 } };

    let result = codec.marshal_command(&command);
    assert!(result.is_ok());
    let bytes = result.unwrap();
    assert_eq!(bytes.len(), 16);
    assert_eq!(bytes[14], 1);
    assert_eq!(bytes[15], 2);
}

#[test]
fn test_create_command_error_message() {
    let registry: CommandRegistry<MyCommand> = CommandRegistry::new();
    let err = create_command(&registry, "UnregisteredCommand").unwrap_err();
    assert_eq!(err.message(), "command error: Command not registered");
}

#[test]
fn test_command_codec_round_trip() {
    let codec = MyCommandCodec;
    let command = MyCommand { id: new() };

    let bytes = codec.marshal_command(&command).unwrap();
    let decoded = codec.unmarshal_command(&bytes).unwrap();
    assert_eq!(decoded.id, command.id);

    assert!(codec.unmarshal_command(&vec![1, 2, 3]).is_err());
}

#[test]
fn test_event_codec_declines_decoding() {
    let codec = MyEventCodec;
    assert!(codec.unmarshal_event(&vec![]).is_err());
}
