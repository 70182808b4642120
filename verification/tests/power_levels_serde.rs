use matrix_wire::power_codec::encode_power_levels;
use matrix_wire::power_levels::{NotificationPowerLevels, RoomPowerLevelsEventContent};
use matrix_wire::raw::RawPayload;

fn all_default() -> RoomPowerLevelsEventContent {
    RoomPowerLevelsEventContent::new()
}

#[test]
fn serialization_with_optional_fields_as_none() {
    let default: i64 = 50;
    let power_levels = RoomPowerLevelsEventContent {
        ban: default,
        events: Vec::new(),
        events_default: 0,
        invite: 0,
        kick: default,
        redact: default,
        state_default: default,
        users: Vec::new(),
        users_default: 0,
        notifications: NotificationPowerLevels::default(),
    };
    let actual = encode_power_levels(&power_levels);
    let actual_value: serde_json::Value = serde_json::from_slice(&actual).unwrap();
    let expected_value: serde_json::Value = serde_json::from_str("{}").unwrap();
    assert_eq!(actual_value, expected_value);
    assert_eq!(actual, b"{}".to_vec());
}

#[test]
fn serialization_with_all_fields() {
    let user = b"@carl:example.com".to_vec();
    let power_levels_event = RoomPowerLevelsEventContent {
        ban: 23,
        events: vec![(b"m.dummy".to_vec(), 23)],
        events_default: 23,
        invite: 23,
        kick: 23,
        redact: 23,
        state_default: 23,
        users: vec![(user, 23)],
        users_default: 23,
        notifications: NotificationPowerLevels { room: 23 },
    };
    let actual = encode_power_levels(&power_levels_event);
    let actual_value: serde_json::Value = serde_json::from_slice(&actual).unwrap();
    let expected_value: serde_json::Value = serde_json::from_str(
        "{\"ban\":23,\"events\":{\"m.dummy\":23},\"events_default\":23,\"invite\":23,\
         \"kick\":23,\"redact\":23,\"state_default\":23,\
         \"users\":{\"@carl:example.com\":23},\"users_default\":23,\
         \"notifications\":{\"room\":23}}",
    )
    .unwrap();
    assert_eq!(actual_value, expected_value);
}

#[test]
fn selective_serialization_of_non_default_fields() {
    let content = RoomPowerLevelsEventContent {
        ban: 23,
        users: vec![(b"@carl:example.com".to_vec(), 23)],
        notifications: NotificationPowerLevels { room: 23 },
        ..all_default()
    };
    let actual = encode_power_levels(&content);
    assert_eq!(
        actual,
        b"{\"ban\":23,\"users\":{\"@carl:example.com\":23},\"notifications\":{\"room\":23}}"
            .to_vec()
    );
}

#[test]
fn default_round_trip_from_empty_object() {
    let payload = RawPayload::wrap(b"{}".to_vec());
    let c = payload.deserialize_power_levels().unwrap();
    assert_eq!(c.ban, 50);
    assert_eq!(c.kick, 50);
    assert_eq!(c.redact, 50);
    assert_eq!(c.state_default, 50);
    assert_eq!(c.invite, 0);
    assert_eq!(c.events_default, 0);
    assert_eq!(c.users_default, 0);
    assert!(c.events.is_empty());
    assert!(c.users.is_empty());
    assert_eq!(c.notifications.room, 0);
    assert_eq!(encode_power_levels(&c), b"{}".to_vec());
}

#[test]
fn legacy_string_levels_are_read_but_not_written() {
    let payload = RawPayload::wrap(b"{\"ban\":\"23\",\"users_default\":\"-5\"}".to_vec());
    let c = payload.deserialize_power_levels().unwrap();
    assert_eq!(c.ban, 23);
    assert_eq!(c.users_default, -5);
    assert_eq!(encode_power_levels(&c), b"{\"ban\":23,\"users_default\":-5}".to_vec());
}

#[test]
fn unknown_fields_are_ignored_on_decode() {
    let payload = RawPayload::wrap(b"{\"ban\":60,\"mystery\":[1,{\"x\":null}]}".to_vec());
    let c = payload.deserialize_power_levels().unwrap();
    assert_eq!(c.ban, 60);
    assert_eq!(c.kick, 50);
}

#[test]
fn schema_error_on_wrong_field_shape() {
    let payload = RawPayload::wrap(b"{\"ban\":[]}".to_vec());
    let e = payload.deserialize_power_levels().unwrap_err();
    assert!(matches!(e, matrix_wire::raw::DeserializeError::Schema));
}

#[test]
fn syntax_error_on_malformed_json() {
    let payload = RawPayload::wrap(b"{\"ban\":".to_vec());
    let e = payload.deserialize_power_levels().unwrap_err();
    assert!(matches!(e, matrix_wire::raw::DeserializeError::Syntax));
}

#[test]
fn encode_then_decode_gives_back_the_same_content() {
    let content = RoomPowerLevelsEventContent {
        ban: -3,
        events: vec![(b"m.a".to_vec(), 1), (b"m.b".to_vec(), 2)],
        events_default: 50,
        invite: 7,
        kick: 50,
        redact: 0,
        state_default: 50,
        users: vec![(b"@x:y".to_vec(), 9000000000000000000)],
        users_default: -1,
        notifications: NotificationPowerLevels { room: 0 },
    };
    let bytes = encode_power_levels(&content);
    let back = RawPayload::wrap(bytes).deserialize_power_levels().unwrap();
    assert_eq!(back.ban, content.ban);
    assert_eq!(back.events, content.events);
    assert_eq!(back.events_default, content.events_default);
    assert_eq!(back.invite, content.invite);
    assert_eq!(back.kick, content.kick);
    assert_eq!(back.redact, content.redact);
    assert_eq!(back.state_default, content.state_default);
    assert_eq!(back.users, content.users);
    assert_eq!(back.users_default, content.users_default);
    assert_eq!(back.notifications.room, content.notifications.room);
}
