use matrix_wire::http_msg::{HttpResponse, IntoHttpError};
use matrix_wire::metadata::{AuthScheme, HttpMethod};
use matrix_wire::metadata::ProtocolVersion;
use matrix_wire::raw::RawPayload;
use matrix_wire::state_event;

fn v(major: u8, minor: u8) -> ProtocolVersion {
    ProtocolVersion { major, minor }
}

#[test]
fn missing_token_fails_before_path_resolution() {
    let req = state_event::Request::new(
        b"!r:x".to_vec(),
        b"m.room.power_levels".to_vec(),
        b"".to_vec(),
    );
    let err = req
        .try_into_http_request(b"https://hs.example", None, &vec![v(1, 1)])
        .unwrap_err();
    assert!(matches!(err, IntoHttpError::MissingAuthentication));
}

#[test]
fn resolved_path_omits_empty_trailing_state_key() {
    let req = state_event::Request::new(
        b"!r:x".to_vec(),
        b"m.room.power_levels".to_vec(),
        b"".to_vec(),
    );
    let token = b"syt_example_token".to_vec();
    let http = req
        .try_into_http_request(b"https://hs.example", Some(&token), &vec![v(1, 1)])
        .unwrap();
    assert_eq!(
        http.uri,
        b"https://hs.example/_matrix/client/v3/rooms/%21r%3Ax/state/m.room.power_levels"
            .to_vec()
    );
    assert_eq!(http.body, b"{}".to_vec());
    assert_eq!(http.headers.len(), 2);
    assert_eq!(http.headers[0].0, b"Content-Type".to_vec());
    assert_eq!(http.headers[0].1, b"application/json".to_vec());
    assert_eq!(http.headers[1].0, b"Authorization".to_vec());
    assert_eq!(http.headers[1].1, b"Bearer syt_example_token".to_vec());
}

#[test]
fn old_protocol_version_resolves_the_r0_shape() {
    let req = state_event::Request::new(
        b"!r:x".to_vec(),
        b"m.room.name".to_vec(),
        b"k".to_vec(),
    );
    let token = b"t".to_vec();
    let http = req
        .try_into_http_request(b"", Some(&token), &vec![v(1, 0)])
        .unwrap();
    assert_eq!(http.uri, b"/_matrix/client/r0/rooms/%21r%3Ax/state/m.room.name/k".to_vec());
}

#[test]
fn no_compatible_version_names_the_attempted_versions() {
    let req = state_event::Request::new(b"!r:x".to_vec(), b"t".to_vec(), b"k".to_vec());
    let token = b"t".to_vec();
    let err = req
        .try_into_http_request(b"", Some(&token), &vec![v(0, 1)])
        .unwrap_err();
    match err {
        IntoHttpError::VersionMismatch(attempted) => {
            assert_eq!(attempted, vec![v(0, 1)]);
        },
        other => panic!("expected a version mismatch, got {:?}", other),
    }
}

#[test]
fn incoming_path_arguments_fill_the_request_positionally() {
    let args = vec![b"!r:x".to_vec(), b"m.room.create".to_vec(), b"key".to_vec()];
    let req = state_event::Request::try_from_http_request(&args).unwrap();
    assert_eq!(req.room_id, b"!r:x".to_vec());
    assert_eq!(req.event_type, b"m.room.create".to_vec());
    assert_eq!(req.state_key, b"key".to_vec());

    let args2 = vec![b"!r:x".to_vec(), b"m.room.create".to_vec()];
    let req2 = state_event::Request::try_from_http_request(&args2).unwrap();
    assert_eq!(req2.state_key, b"".to_vec());

    let args1 = vec![b"!r:x".to_vec()];
    assert!(state_event::Request::try_from_http_request(&args1).is_err());
}

#[test]
fn state_response_body_is_the_content_itself() {
    let ok = HttpResponse { status: 200, body: b"{\"ban\":75}".to_vec() };
    let resp = state_event::Response::try_from_http_response(ok).unwrap();
    assert_eq!(resp.content.serialize(), b"{\"ban\":75}".to_vec());
    let c = resp.content.deserialize_power_levels().unwrap();
    assert_eq!(c.ban, 75);

    let rejected = HttpResponse { status: 403, body: b"{\"errcode\":\"M_FORBIDDEN\"}".to_vec() };
    let err = state_event::Response::try_from_http_response(rejected).unwrap_err();
    assert_eq!(err.status, 403);
    assert_eq!(err.body.serialize(), b"{\"errcode\":\"M_FORBIDDEN\"}".to_vec());

    let out = state_event::Response::new(RawPayload::wrap(b"{\"x\":1}".to_vec()))
        .try_into_http_response();
    assert_eq!(out.status, 200);
    assert_eq!(out.body, b"{\"x\":1}".to_vec());
}

#[test]
fn endpoint_metadata_matches_the_declared_shape() {
    let m = state_event::metadata();
    assert!(matches!(m.method, HttpMethod::Get));
    assert!(!m.rate_limited);
    assert!(matches!(m.authentication, AuthScheme::AccessToken));
    assert_eq!(m.path_params, 3);
    assert!(m.last_param_optional);
    assert_eq!(m.history.len(), 2);

    let mi = matrix_wire::create_invite::metadata();
    assert!(matches!(mi.method, HttpMethod::Put));
    assert!(matches!(mi.authentication, AuthScheme::ServerSignatures));
    assert_eq!(mi.path_params, 2);
    assert!(!mi.last_param_optional);
    assert_eq!(mi.history.len(), 1);
}
