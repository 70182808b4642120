use matrix_wire::raw::RawPayload;

#[test]
fn wrapped_bytes_survive_typed_reinterpretation_exactly() {
    // unknown field, odd spacing, non-canonical number spelling
    let original = b"{ \"ban\" : 75 , \"wholly_unknown\" : [1e2, {\"x\": 1.50}] }".to_vec();
    let payload = RawPayload::wrap(original.clone());
    let typed = payload.deserialize_power_levels().unwrap();
    assert_eq!(typed.ban, 75);
    assert_eq!(payload.serialize(), original);
    // a second reinterpretation, after the first, still sees the same bytes
    let again = payload.deserialize_json().unwrap();
    let _ = again;
    assert_eq!(payload.serialize(), original);
}

#[test]
fn failed_reinterpretation_leaves_the_payload_usable() {
    let payload = RawPayload::wrap(b"[1,2,3]".to_vec());
    assert!(payload.deserialize_power_levels().is_err());
    assert!(payload.deserialize_json().is_ok());
    assert_eq!(payload.serialize(), b"[1,2,3]".to_vec());
}

#[test]
fn from_value_stores_canonical_bytes() {
    let doc = matrix_wire::json_parse::parse_json(b" { \"a\" : 1 } ").unwrap();
    let payload = RawPayload::from_value(&doc);
    assert_eq!(payload.serialize(), b"{\"a\":1}".to_vec());
}
