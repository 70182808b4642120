use matrix_wire::metadata::{
    resolve_auth, resolve_path, AuthError, AuthScheme, EndpointMetadata, HttpMethod, PathSeg,
    ProtocolVersion, ResolveError,
};

fn v(major: u8, minor: u8) -> ProtocolVersion {
    ProtocolVersion { major, minor }
}

fn two_shape_metadata() -> EndpointMetadata {
    EndpointMetadata {
        method: HttpMethod::Get,
        rate_limited: false,
        authentication: AuthScheme::AccessToken,
        path_params: 0,
        last_param_optional: false,
        history: vec![
            (v(1, 0), vec![PathSeg::Literal(b"r0".to_vec()), PathSeg::Literal(b"X".to_vec())]),
            (v(1, 1), vec![PathSeg::Literal(b"v3".to_vec()), PathSeg::Literal(b"X".to_vec())]),
        ],
    }
}

#[test]
fn version_resolution_picks_greatest_compatible_shape() {
    let m = two_shape_metadata();
    let none: Vec<Vec<u8>> = Vec::new();
    assert_eq!(resolve_path(&m, &vec![v(1, 0)], &none).unwrap(), b"/r0/X".to_vec());
    assert_eq!(resolve_path(&m, &vec![v(1, 1), v(1, 0)], &none).unwrap(), b"/v3/X".to_vec());
    assert_eq!(resolve_path(&m, &vec![v(2, 0)], &none).unwrap(), b"/v3/X".to_vec());
    match resolve_path(&m, &vec![v(0, 9)], &none).unwrap_err() {
        ResolveError::VersionMismatch(attempted) => assert_eq!(attempted, vec![v(0, 9)]),
        ResolveError::ArityError => panic!("expected a version mismatch"),
    }
    match resolve_path(&m, &Vec::new(), &none).unwrap_err() {
        ResolveError::VersionMismatch(attempted) => assert!(attempted.is_empty()),
        ResolveError::ArityError => panic!("expected a version mismatch"),
    }
}

#[test]
fn path_values_are_percent_encoded() {
    let m = EndpointMetadata {
        path_params: 1,
        history: vec![(v(1, 0), vec![PathSeg::Literal(b"rooms".to_vec()), PathSeg::Param])],
        ..two_shape_metadata()
    };
    let path = resolve_path(&m, &vec![v(1, 0)], &vec![b"!a:b/c d".to_vec()]).unwrap();
    assert_eq!(path, b"/rooms/%21a%3Ab%2Fc%20d".to_vec());
}

#[test]
fn arity_mismatch_is_an_error_without_the_exception() {
    let m = EndpointMetadata {
        path_params: 1,
        history: vec![(v(1, 0), vec![PathSeg::Param])],
        ..two_shape_metadata()
    };
    assert!(matches!(
        resolve_path(&m, &vec![v(1, 0)], &Vec::new()).unwrap_err(),
        ResolveError::ArityError
    ));
    assert!(matches!(
        resolve_path(&m, &vec![v(1, 0)], &vec![b"a".to_vec(), b"b".to_vec()]).unwrap_err(),
        ResolveError::ArityError
    ));
}

#[test]
fn trailing_optional_value_defaults_to_empty_and_drops_its_segment() {
    let m = EndpointMetadata {
        path_params: 2,
        last_param_optional: true,
        history: vec![(
            v(1, 0),
            vec![PathSeg::Literal(b"state".to_vec()), PathSeg::Param, PathSeg::Param],
        )],
        ..two_shape_metadata()
    };
    // one fewer value: accepted, trailing segment omitted
    let path = resolve_path(&m, &vec![v(1, 0)], &vec![b"t".to_vec()]).unwrap();
    assert_eq!(path, b"/state/t".to_vec());
    // full arity with empty trailing value: same path
    let path = resolve_path(&m, &vec![v(1, 0)], &vec![b"t".to_vec(), b"".to_vec()]).unwrap();
    assert_eq!(path, b"/state/t".to_vec());
    // full arity with a real trailing value: kept
    let path = resolve_path(&m, &vec![v(1, 0)], &vec![b"t".to_vec(), b"k".to_vec()]).unwrap();
    assert_eq!(path, b"/state/t/k".to_vec());
}

#[test]
fn auth_resolution_by_scheme() {
    let token = b"syt_example_token".to_vec();
    let header = resolve_auth(&AuthScheme::AccessToken, Some(&token)).unwrap().unwrap();
    assert_eq!(header, b"Bearer syt_example_token".to_vec());
    assert!(matches!(
        resolve_auth(&AuthScheme::AccessToken, None),
        Err(AuthError::MissingAuthentication)
    ));
    assert!(resolve_auth(&AuthScheme::AccessTokenOptional, None).unwrap().is_none());
    assert!(resolve_auth(&AuthScheme::AccessTokenOptional, Some(&token)).unwrap().is_some());
    assert!(resolve_auth(&AuthScheme::NoAuthentication, Some(&token)).unwrap().is_none());
    assert!(resolve_auth(&AuthScheme::ServerSignatures, None).unwrap().is_none());
}
