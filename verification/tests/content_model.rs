use matrix_wire::content::{
    decode_state_content, redact_state_content, validate_state_key, AnyRedactedStateEventContent,
    AnyStateEventContent, StateKeyKind,
};
use matrix_wire::power_levels::RoomVersionId;

#[test]
fn known_tag_decodes_into_the_typed_variant() {
    let c = decode_state_content(
        b"m.room.power_levels".to_vec(),
        b"{\"ban\":75}".to_vec(),
    )
    .unwrap();
    match c {
        AnyStateEventContent::RoomPowerLevels(pl) => assert_eq!(pl.ban, 75),
        AnyStateEventContent::Custom { .. } => panic!("expected the typed variant"),
    }
}

#[test]
fn known_tag_with_malformed_payload_fails() {
    assert!(decode_state_content(b"m.room.power_levels".to_vec(), b"\"no\"".to_vec()).is_err());
    assert!(decode_state_content(b"m.room.power_levels".to_vec(), b"{{".to_vec()).is_err());
}

#[test]
fn unknown_tag_always_decodes_into_custom() {
    let c = decode_state_content(
        b"org.example.novel".to_vec(),
        b"{\"anything\": [1, 2, \"three\"]}".to_vec(),
    )
    .unwrap();
    match c {
        AnyStateEventContent::Custom { event_type, payload } => {
            assert_eq!(event_type, b"org.example.novel".to_vec());
            assert_eq!(payload.serialize(), b"{\"anything\": [1, 2, \"three\"]}".to_vec());
        },
        AnyStateEventContent::RoomPowerLevels(_) => panic!("expected the fallback"),
    }
    // even bytes that are not JSON at all wrap without validation
    let c = decode_state_content(b"org.example.bad".to_vec(), b"%%%".to_vec()).unwrap();
    match c {
        AnyStateEventContent::Custom { payload, .. } => {
            assert_eq!(payload.serialize(), b"%%%".to_vec());
        },
        AnyStateEventContent::RoomPowerLevels(_) => panic!("expected the fallback"),
    }
}

#[test]
fn redacting_custom_content_keeps_only_the_tag() {
    let c = decode_state_content(b"org.example.novel".to_vec(), b"{\"secret\":1}".to_vec())
        .unwrap();
    match redact_state_content(c, &RoomVersionId::V5) {
        AnyRedactedStateEventContent::Custom { event_type, payload } => {
            assert_eq!(event_type, b"org.example.novel".to_vec());
            assert_eq!(payload.serialize(), b"{}".to_vec());
        },
        AnyRedactedStateEventContent::RoomPowerLevels(_) => panic!("expected the fallback"),
    }
}

#[test]
fn redacting_power_levels_applies_the_version_policy() {
    let c = decode_state_content(
        b"m.room.power_levels".to_vec(),
        b"{\"invite\":40,\"ban\":70}".to_vec(),
    )
    .unwrap();
    match redact_state_content(c, &RoomVersionId::V4) {
        AnyRedactedStateEventContent::RoomPowerLevels(r) => {
            assert_eq!(r.invite, 0);
            assert_eq!(r.ban, 70);
        },
        AnyRedactedStateEventContent::Custom { .. } => panic!("expected the typed variant"),
    }
}

#[test]
fn state_key_kinds_constrain_the_key() {
    assert!(validate_state_key(&StateKeyKind::EmptyOnly, b""));
    assert!(!validate_state_key(&StateKeyKind::EmptyOnly, b"x"));
    assert!(validate_state_key(&StateKeyKind::FreeformString, b"anything at all"));
    assert!(validate_state_key(&StateKeyKind::TypedKey, b"@user:example.org"));
}
