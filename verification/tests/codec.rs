//! Wire codec tests: byte-exact encoding of each variant, round trips,
//! key-order independence, escaping, and each decode error.

use chat_core::command::{
    JoinRoomCommand, LeaveRoomCommand, LoginCommand, QuitCommand, SendMessageCommand, UserCommand,
};
use chat_core::event::{Event, RoomParticipationEvent, RoomParticipationStatus, UserMessageEvent};
use chat_core::wire::DecodeError;

fn assert_command_serialization(command: &UserCommand, expected: &str) {
    let serialized = command.encode();
    assert_eq!(serialized, expected);
    let deserialized: UserCommand = UserCommand::decode(&serialized).unwrap();
    assert_eq!(deserialized, *command);
}

fn assert_event_serialization(event: &Event, expected: &str) {
    let serialized = event.encode();
    assert_eq!(serialized, expected);
    let deserialized: Event = Event::decode(&serialized).unwrap();
    assert_eq!(deserialized, *event);
}

#[test]
fn test_login_command() {
    let command = UserCommand::Login(LoginCommand {
        username: "test".to_string(),
    });

    assert_command_serialization(&command, r#"{"t":"login","u":"test"}"#);
}

#[test]
fn test_join_command() {
    let command = UserCommand::JoinRoom(JoinRoomCommand {
        room: "test".to_string(),
    });

    assert_command_serialization(&command, r#"{"t":"join_room","r":"test"}"#);
}

#[test]
fn test_leave_command() {
    let command = UserCommand::LeaveRoom(LeaveRoomCommand {
        room: "test".to_string(),
    });

    assert_command_serialization(&command, r#"{"t":"leave_room","r":"test"}"#);
}

#[test]
fn test_message_command() {
    let command = UserCommand::SendMessage(SendMessageCommand {
        room: "test".to_string(),
        content: "test".to_string(),
    });

    assert_command_serialization(&command, r#"{"t":"send_message","r":"test","c":"test"}"#);
}

#[test]
fn test_quit_command() {
    let command = UserCommand::Quit(QuitCommand);

    assert_command_serialization(&command, r#"{"t":"quit"}"#);
}

#[test]
fn test_room_participation_join_event() {
    let event = Event::RoomParticipation(RoomParticipationEvent {
        room: "test".to_string(),
        username: "test".to_string(),
        status: RoomParticipationStatus::Joined,
    });

    assert_event_serialization(
        &event,
        r#"{"t":"room_participation","r":"test","u":"test","s":"joined"}"#,
    );
}

#[test]
fn test_room_participation_leave_event() {
    let event = Event::RoomParticipation(RoomParticipationEvent {
        room: "test".to_string(),
        username: "test".to_string(),
        status: RoomParticipationStatus::Left,
    });

    assert_event_serialization(
        &event,
        r#"{"t":"room_participation","r":"test","u":"test","s":"left"}"#,
    );
}

#[test]
fn test_user_message_event() {
    let event = Event::UserMessage(UserMessageEvent {
        room: "test".to_string(),
        username: "test".to_string(),
        content: "test".to_string(),
    });

    assert_event_serialization(
        &event,
        r#"{"t":"user_message","r":"test","u":"test","c":"test"}"#,
    );
}

#[test]
fn unknown_tag_fails_command_decode() {
    assert_eq!(
        UserCommand::decode(r#"{"t":"bogus"}"#),
        Err(DecodeError::UnknownTag)
    );
}

#[test]
fn unknown_tag_fails_event_decode() {
    assert_eq!(Event::decode(r#"{"t":"bogus"}"#), Err(DecodeError::UnknownTag));
}

#[test]
fn missing_field_fails_decode() {
    // the resolved variant needs a username
    assert_eq!(
        UserCommand::decode(r#"{"t":"login"}"#),
        Err(DecodeError::MissingField)
    );
    // no tag at all
    assert_eq!(
        UserCommand::decode(r#"{"r":"test"}"#),
        Err(DecodeError::MissingField)
    );
    assert_eq!(
        Event::decode(r#"{"t":"user_message","r":"a","u":"b"}"#),
        Err(DecodeError::MissingField)
    );
}

#[test]
fn type_mismatch_fails_decode() {
    // not an object of string fields
    assert_eq!(UserCommand::decode("login"), Err(DecodeError::TypeMismatch));
    assert_eq!(
        UserCommand::decode(r#"{"t":7}"#),
        Err(DecodeError::TypeMismatch)
    );
    // trailing garbage after the object
    assert_eq!(
        UserCommand::decode(r#"{"t":"quit"}x"#),
        Err(DecodeError::TypeMismatch)
    );
    // a status token that names no status
    assert_eq!(
        Event::decode(r#"{"t":"room_participation","r":"a","u":"b","s":"gone"}"#),
        Err(DecodeError::TypeMismatch)
    );
}

#[test]
fn decode_accepts_any_key_order() {
    assert_eq!(
        UserCommand::decode(r#"{"u":"ada","t":"login"}"#),
        Ok(UserCommand::Login(LoginCommand {
            username: "ada".to_string()
        }))
    );
    assert_eq!(
        Event::decode(r#"{"s":"joined","u":"ada","r":"lobby","t":"room_participation"}"#),
        Ok(Event::RoomParticipation(RoomParticipationEvent {
            room: "lobby".to_string(),
            username: "ada".to_string(),
            status: RoomParticipationStatus::Joined,
        }))
    );
}

#[test]
fn escaped_content_round_trips() {
    let command = UserCommand::SendMessage(SendMessageCommand {
        room: "x".to_string(),
        content: "a\"b\\c".to_string(),
    });

    assert_command_serialization(&command, "{\"t\":\"send_message\",\"r\":\"x\",\"c\":\"a\\\"b\\\\c\"}");
}

#[test]
fn multibyte_content_round_trips() {
    let command = UserCommand::SendMessage(SendMessageCommand {
        room: "café".to_string(),
        content: "héllo 🦀".to_string(),
    });

    let serialized = command.encode();
    assert_eq!(UserCommand::decode(&serialized), Ok(command));
}

#[test]
fn empty_fields_round_trip() {
    let command = UserCommand::Login(LoginCommand {
        username: String::new(),
    });

    assert_command_serialization(&command, r#"{"t":"login","u":""}"#);
}
