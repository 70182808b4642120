use matrix_wire::power_levels::{
    NotificationPowerLevels, PowerLevelAction, RoomPowerLevelsEvent, RoomPowerLevelsEventContent,
    RoomVersionId, StrippedRoomPowerLevelsEvent, SyncRoomPowerLevelsEvent,
};

fn sample_content() -> RoomPowerLevelsEventContent {
    RoomPowerLevelsEventContent {
        ban: 60,
        events: vec![(b"m.room.topic".to_vec(), 70)],
        events_default: 10,
        invite: 5,
        kick: 55,
        redact: 65,
        state_default: 80,
        users: vec![
            (b"@alice:example.org".to_vec(), 100),
            (b"@bob:example.org".to_vec(), 9),
            (b"@dave:example.org".to_vec(), 40),
        ],
        users_default: 3,
        notifications: NotificationPowerLevels { room: 90 },
    }
}

#[test]
fn absent_user_gets_users_default() {
    let view = sample_content().power_levels();
    assert_eq!(view.for_user(b"@nobody:example.org"), 3);
    assert_eq!(view.for_user(b"@alice:example.org"), 100);
    assert_eq!(view.for_user(b"@bob:example.org"), 9);
}

#[test]
fn send_state_and_send_message_share_the_events_entry() {
    let view = sample_content().power_levels();
    // listed type: both consult events["m.room.topic"] == 70
    assert!(view.user_can_send_message(b"@alice:example.org", b"m.room.topic"));
    assert!(view.user_can_send_state(b"@alice:example.org", b"m.room.topic"));
    assert!(!view.user_can_send_message(b"@bob:example.org", b"m.room.topic"));
    assert!(!view.user_can_send_state(b"@bob:example.org", b"m.room.topic"));
    // unlisted type: fallbacks differ (events_default 10 vs state_default 80)
    let carol = b"@carol:example.org"; // level 3 < 10
    assert!(!view.user_can_send_message(carol, b"m.room.message"));
    assert!(!view.user_can_send_state(carol, b"m.room.message"));
    assert!(view.user_can_send_message(b"@dave:example.org", b"m.room.message"));
    assert!(!view.user_can_send_state(b"@dave:example.org", b"m.room.message"));
}

#[test]
fn capability_queries_match_thresholds() {
    let view = sample_content().power_levels();
    assert!(view.user_can_ban(b"@alice:example.org"));
    assert!(!view.user_can_ban(b"@bob:example.org"));
    assert!(view.user_can_invite(b"@bob:example.org"));
    assert!(!view.user_can_kick(b"@bob:example.org"));
    assert!(!view.user_can_redact(b"@bob:example.org"));
    assert!(view.user_can_trigger_room_notification(b"@alice:example.org"));
    assert!(!view.user_can_trigger_room_notification(b"@bob:example.org"));
    assert!(view.user_can_do(b"@alice:example.org", &PowerLevelAction::Ban));
    assert!(view.user_can_do(
        b"@alice:example.org",
        &PowerLevelAction::SendState(b"m.room.name".to_vec())
    ));
}

#[test]
fn max_is_greatest_user_level() {
    let view = sample_content().power_levels();
    assert_eq!(view.max(), 100);
    let empty = RoomPowerLevelsEventContent::new().power_levels();
    assert_eq!(empty.max(), 0);
    let negative = RoomPowerLevelsEventContent {
        users: vec![(b"@a:x".to_vec(), -7)],
        users_default: -20,
        ..RoomPowerLevelsEventContent::new()
    };
    assert_eq!(negative.power_levels().max(), -7);
}

#[test]
fn redaction_preserves_shared_fields_and_forces_invite_by_version() {
    for (version, expect_invite) in [
        (RoomVersionId::V1, 0),
        (RoomVersionId::V9, 0),
        (RoomVersionId::V10, 0),
        (RoomVersionId::V11, 5),
        (RoomVersionId::Custom(b"org.example.custom".to_vec()), 5),
    ] {
        let r = sample_content().redact(&version);
        assert_eq!(r.ban, 60);
        assert_eq!(r.events, vec![(b"m.room.topic".to_vec(), 70)]);
        assert_eq!(r.events_default, 10);
        assert_eq!(r.kick, 55);
        assert_eq!(r.redact, 65);
        assert_eq!(r.state_default, 80);
        assert_eq!(r.users_default, 3);
        assert_eq!(r.invite, expect_invite, "invite under {:?}", version_name(&version));
    }
}

fn version_name(v: &RoomVersionId) -> &'static str {
    match v {
        RoomVersionId::V1 => "v1",
        RoomVersionId::V9 => "v9",
        RoomVersionId::V10 => "v10",
        RoomVersionId::V11 => "v11",
        _ => "custom",
    }
}

#[test]
fn effective_view_defaults_notifications_for_redacted_source() {
    let redacted = sample_content().redact(&RoomVersionId::V11);
    let view = redacted.power_levels();
    assert_eq!(view.notifications.room, 0);
    assert_eq!(view.ban, 60);
    let ev = RoomPowerLevelsEvent::Redacted(sample_content().redact(&RoomVersionId::V11));
    assert_eq!(ev.power_levels().notifications.room, 0);
    let ev2 = RoomPowerLevelsEvent::Original(sample_content());
    assert_eq!(ev2.power_levels().notifications.room, 90);
    let ev3 = SyncRoomPowerLevelsEvent::Original(sample_content());
    assert_eq!(ev3.power_levels().ban, 60);
    let ev4 = StrippedRoomPowerLevelsEvent { content: sample_content() };
    assert_eq!(ev4.power_levels().kick, 55);
}

#[test]
fn effective_view_converts_back_to_content() {
    let view = sample_content().power_levels();
    let content = view.into_content();
    assert_eq!(content.ban, 60);
    assert_eq!(content.notifications.room, 90);
    assert_eq!(content.users, sample_content().users);
}
