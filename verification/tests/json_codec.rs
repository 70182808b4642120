use matrix_wire::json::JsonValue;
use matrix_wire::json_out::to_json_bytes;
use matrix_wire::json_parse::parse_json;

fn reencode(input: &[u8]) -> Option<Vec<u8>> {
    parse_json(input).map(|v| to_json_bytes(&v))
}

#[test]
fn scalars_parse_and_serialize() {
    assert_eq!(reencode(b" null ").unwrap(), b"null".to_vec());
    assert_eq!(reencode(b"true").unwrap(), b"true".to_vec());
    assert_eq!(reencode(b"false").unwrap(), b"false".to_vec());
    assert_eq!(reencode(b"0").unwrap(), b"0".to_vec());
    assert_eq!(reencode(b"-42").unwrap(), b"-42".to_vec());
    assert_eq!(reencode(b"9223372036854775807").unwrap(), b"9223372036854775807".to_vec());
    assert_eq!(reencode(b"-9223372036854775808").unwrap(), b"-9223372036854775808".to_vec());
}

#[test]
fn non_i64_numbers_keep_their_literal_text() {
    assert_eq!(reencode(b"1.5").unwrap(), b"1.5".to_vec());
    assert_eq!(reencode(b"1e10").unwrap(), b"1e10".to_vec());
    assert_eq!(reencode(b"-0.25E-3").unwrap(), b"-0.25E-3".to_vec());
    assert_eq!(
        reencode(b"18446744073709551616").unwrap(),
        b"18446744073709551616".to_vec()
    );
}

#[test]
fn strings_unescape_and_reescape() {
    assert_eq!(reencode(b"\"a b\"").unwrap(), b"\"a b\"".to_vec());
    assert_eq!(reencode(b"\"a\\nb\\t\\\"\"").unwrap(), b"\"a\\nb\\t\\\"\"".to_vec());
    // \u00e9 decodes to the UTF-8 bytes of an accented letter
    let v = parse_json(b"\"\\u00e9\"").unwrap();
    match v {
        JsonValue::Str(s) => assert_eq!(s, vec![0xc3, 0xa9]),
        _ => panic!("expected a string"),
    }
    // a surrogate pair decodes to one four-byte character
    let v = parse_json(b"\"\\ud83d\\ude00\"").unwrap();
    match v {
        JsonValue::Str(s) => assert_eq!(s, vec![0xf0, 0x9f, 0x98, 0x80]),
        _ => panic!("expected a string"),
    }
}

#[test]
fn containers_parse_with_whitespace() {
    assert_eq!(
        reencode(b" { \"a\" : [ 1 , 2 , { } ] , \"b\" : \"x\" } ").unwrap(),
        b"{\"a\":[1,2,{}],\"b\":\"x\"}".to_vec()
    );
    assert_eq!(reencode(b"[]").unwrap(), b"[]".to_vec());
    assert_eq!(reencode(b"{}").unwrap(), b"{}".to_vec());
}

#[test]
fn malformed_documents_are_rejected() {
    for bad in [
        &b"{\"a\":1,}"[..],
        b"[1,]",
        b"01",
        b"+1",
        b"1.",
        b"1e",
        b"\"\\ud83d\"",
        b"\"\\udc00\"",
        b"\"ab",
        b"{\"a\" 1}",
        b"nul",
        b"truex",
        b"[1] [2]",
        b"",
        b"\"\x01\"",
    ] {
        assert!(parse_json(bad).is_none(), "accepted {:?}", bad);
    }
}

#[test]
fn control_bytes_in_strings_are_escaped_canonically() {
    let v = JsonValue::Str(vec![0x01, b'a']);
    assert_eq!(to_json_bytes(&v), b"\"\\u0001a\"".to_vec());
}
