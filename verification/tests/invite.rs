use matrix_wire::create_invite::{Request, RequestInit, Response, ResponseError, UnsignedEventContent};
use matrix_wire::http_msg::{FromHttpRequestError, HttpResponse};
use matrix_wire::metadata::ProtocolVersion;
use matrix_wire::raw::RawPayload;

fn v(major: u8, minor: u8) -> ProtocolVersion {
    ProtocolVersion { major, minor }
}

fn sample_request() -> Request {
    RequestInit {
        room_id: b"!abc:matrix.org".to_vec(),
        event_id: b"$ev1".to_vec(),
        sender: b"@alice:example.org".to_vec(),
        origin: b"example.org".to_vec(),
        origin_server_ts: 1234,
        state_key: b"@bob:elsewhere.test".to_vec(),
        content: RawPayload::wrap(b"{\"membership\":\"invite\"}".to_vec()),
        unsigned: UnsignedEventContent::new(),
    }
    .into_request()
}

#[test]
fn invite_request_body_is_the_unsigned_event_object() {
    let req = sample_request();
    assert_eq!(req.kind, b"m.room.member".to_vec());
    let body = req.body_bytes();
    assert_eq!(
        body,
        b"{\"sender\":\"@alice:example.org\",\"origin\":\"example.org\",\
          \"origin_server_ts\":1234,\"type\":\"m.room.member\",\
          \"state_key\":\"@bob:elsewhere.test\",\
          \"content\":{\"membership\":\"invite\"}}"
            .to_vec()
    );
}

#[test]
fn non_empty_unsigned_block_is_included() {
    let mut req = sample_request();
    req.unsigned.invite_room_state.push(RawPayload::wrap(b"{\"type\":\"m.room.name\"}".to_vec()));
    req.unsigned.invite_room_state.push(RawPayload::wrap(b"{\"type\":\"m.room.join_rules\"}".to_vec()));
    assert!(!req.unsigned.is_empty());
    let body = req.body_bytes();
    let text = String::from_utf8(body).unwrap();
    assert!(text.ends_with(
        "\"unsigned\":{\"invite_room_state\":[{\"type\":\"m.room.name\"},\
         {\"type\":\"m.room.join_rules\"}]}}"
    ));
}

#[test]
fn invite_request_resolves_the_v1_federation_path() {
    let req = sample_request();
    let http = req
        .try_into_http_request(b"https://remote.example", &vec![v(1, 0)])
        .unwrap();
    assert_eq!(
        http.uri,
        b"https://remote.example/_matrix/federation/v1/invite/%21abc%3Amatrix.org/%24ev1"
            .to_vec()
    );
    assert_eq!(http.headers.len(), 1);
    assert_eq!(http.headers[0].0, b"Content-Type".to_vec());
}

#[test]
fn invite_response_round_trips_through_its_envelope() {
    let signed = b"{\"signatures\":{\"example.org\":{}}}".to_vec();
    let resp = Response::new(RawPayload::wrap(signed.clone()));
    let http = resp.try_into_http_response();
    assert_eq!(http.status, 200);
    assert_eq!(
        http.body,
        b"{\"event\":{\"signatures\":{\"example.org\":{}}}}".to_vec()
    );
    let back = Response::try_from_http_response(http).unwrap();
    assert_eq!(back.event.serialize(), signed);
}

#[test]
fn invite_response_errors_are_distinguished() {
    let rejected = HttpResponse { status: 500, body: b"{}".to_vec() };
    match Response::try_from_http_response(rejected).unwrap_err() {
        ResponseError::Endpoint(e) => assert_eq!(e.status, 500),
        ResponseError::MalformedBody => panic!("expected the endpoint rejection"),
    }
    let malformed = HttpResponse { status: 200, body: b"{\"other\":1}".to_vec() };
    assert!(matches!(
        Response::try_from_http_response(malformed).unwrap_err(),
        ResponseError::MalformedBody
    ));
    let garbled = HttpResponse { status: 200, body: b"not json".to_vec() };
    assert!(matches!(
        Response::try_from_http_response(garbled).unwrap_err(),
        ResponseError::MalformedBody
    ));
}

#[test]
fn incoming_invite_request_decodes_its_body() {
    let args = vec![b"!abc:matrix.org".to_vec(), b"$ev1".to_vec()];
    let body = b"{\"sender\":\"@alice:example.org\",\"origin\":\"example.org\",\
                  \"origin_server_ts\":1234,\"type\":\"m.room.member\",\
                  \"state_key\":\"@bob:elsewhere.test\",\
                  \"content\":{\"membership\":\"invite\"},\
                  \"unsigned\":{\"invite_room_state\":[{\"type\":\"m.room.name\"}]}}";
    let req = Request::try_from_http_request(&args, body).unwrap();
    assert_eq!(req.room_id, b"!abc:matrix.org".to_vec());
    assert_eq!(req.event_id, b"$ev1".to_vec());
    assert_eq!(req.sender, b"@alice:example.org".to_vec());
    assert_eq!(req.origin, b"example.org".to_vec());
    assert_eq!(req.origin_server_ts, 1234);
    assert_eq!(req.kind, b"m.room.member".to_vec());
    assert_eq!(req.state_key, b"@bob:elsewhere.test".to_vec());
    assert_eq!(req.content.serialize(), b"{\"membership\":\"invite\"}".to_vec());
    assert_eq!(req.unsigned.invite_room_state.len(), 1);
    assert_eq!(
        req.unsigned.invite_room_state[0].serialize(),
        b"{\"type\":\"m.room.name\"}".to_vec()
    );

    // a missing required field is a malformed body
    let partial = b"{\"sender\":\"@alice:example.org\"}";
    assert!(matches!(
        Request::try_from_http_request(&args, partial).unwrap_err(),
        FromHttpRequestError::MalformedBody
    ));
    // wrong path arity is reported as such
    let one = vec![b"!abc:matrix.org".to_vec()];
    assert!(matches!(
        Request::try_from_http_request(&one, body).unwrap_err(),
        FromHttpRequestError::ArityError
    ));
}
