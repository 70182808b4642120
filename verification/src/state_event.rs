//! The "get state content by key" endpoint binding:
//! `GET .../rooms/{roomId}/state/{eventType}/{stateKey}`.
//!
//! The endpoint requires an access token, has two historical wire shapes
//! (the `r0` path up to protocol version 1.0, the `v3` path from 1.1 on),
//! takes three path parameters, and carries the endpoint-scoped arity
//! exception: an absent or empty trailing state key leaves its path
//! segment out.  A successful response's body is the state event's
//! content JSON, not an envelope.

use vstd::prelude::*;

use crate::http_msg::{HttpRequest, HttpResponse, IntoHttpError, FromHttpRequestError,
    EndpointError, h_content_type, v_app_json, h_authorization, h_content_type_bytes,
    v_app_json_bytes, h_authorization_bytes};
use crate::metadata::{EndpointMetadata, HttpMethod, AuthScheme, PathSeg, SpecPathSeg,
    PathTemplate, ProtocolVersion, metadata_wf, history_view, segs_view, spec_param_count,
    spec_resolve_core, spec_resolve_path, resolve_path, resolve_auth, vals_view, ResolveError,
    AuthError, bearer_prefix};
use crate::raw::RawPayload;
use crate::json_parse::copy_range;
use crate::json_out::push_bytes;

verus! {

/// The bytes of the path segment `_matrix`.
pub open spec fn l_matrix() -> Seq<u8> {
    seq![95u8, 109u8, 97u8, 116u8, 114u8, 105u8, 120u8]
}

/// The path segment `_matrix`, as fresh bytes.
fn l_matrix_bytes() -> (v: Vec<u8>)
    ensures
        v@ == l_matrix(),
{
    let mut v: Vec<u8> = Vec::new();
    v.push(95u8);
    v.push(109u8);
    v.push(97u8);
    v.push(116u8);
    v.push(114u8);
    v.push(105u8);
    v.push(120u8);
    proof {
        assert(v@ =~= l_matrix());
    }
    v
}

/// The bytes of the path segment `client`.
pub open spec fn l_client() -> Seq<u8> {
    seq![99u8, 108u8, 105u8, 101u8, 110u8, 116u8]
}

/// The path segment `client`, as fresh bytes.
fn l_client_bytes() -> (v: Vec<u8>)
    ensures
        v@ == l_client(),
{
    let mut v: Vec<u8> = Vec::new();
    v.push(99u8);
    v.push(108u8);
    v.push(105u8);
    v.push(101u8);
    v.push(110u8);
    v.push(116u8);
    proof {
        assert(v@ =~= l_client());
    }
    v
}

/// The bytes of the path segment `r0`.
pub open spec fn l_r0() -> Seq<u8> {
    seq![114u8, 48u8]
}

/// The path segment `r0`, as fresh bytes.
fn l_r0_bytes() -> (v: Vec<u8>)
    ensures
        v@ == l_r0(),
{
    let mut v: Vec<u8> = Vec::new();
    v.push(114u8);
    v.push(48u8);
    proof {
        assert(v@ =~= l_r0());
    }
    v
}

/// The bytes of the path segment `v3`.
pub open spec fn l_v3() -> Seq<u8> {
    seq![118u8, 51u8]
}

/// The path segment `v3`, as fresh bytes.
fn l_v3_bytes() -> (v: Vec<u8>)
    ensures
        v@ == l_v3(),
{
    let mut v: Vec<u8> = Vec::new();
    v.push(118u8);
    v.push(51u8);
    proof {
        assert(v@ =~= l_v3());
    }
    v
}

/// The bytes of the path segment `rooms`.
pub open spec fn l_rooms() -> Seq<u8> {
    seq![114u8, 111u8, 111u8, 109u8, 115u8]
}

/// The path segment `rooms`, as fresh bytes.
fn l_rooms_bytes() -> (v: Vec<u8>)
    ensures
        v@ == l_rooms(),
{
    let mut v: Vec<u8> = Vec::new();
    v.push(114u8);
    v.push(111u8);
    v.push(111u8);
    v.push(109u8);
    v.push(115u8);
    proof {
        assert(v@ =~= l_rooms());
    }
    v
}

/// The bytes of the path segment `state`.
pub open spec fn l_state() -> Seq<u8> {
    seq![115u8, 116u8, 97u8, 116u8, 101u8]
}

/// The path segment `state`, as fresh bytes.
fn l_state_bytes() -> (v: Vec<u8>)
    ensures
        v@ == l_state(),
{
    let mut v: Vec<u8> = Vec::new();
    v.push(115u8);
    v.push(116u8);
    v.push(97u8);
    v.push(116u8);
    v.push(101u8);
    proof {
        assert(v@ =~= l_state());
    }
    v
}

/// The template shared by both wire shapes, with `ver_seg` as the
/// version-prefix segment: `/_matrix/client/<ver>/rooms/{room}/state/
/// {type}/{key}`.
pub open spec fn state_template(ver_seg: Seq<u8>) -> Seq<SpecPathSeg> {
    seq![
        SpecPathSeg::Literal(l_matrix()),
        SpecPathSeg::Literal(l_client()),
        SpecPathSeg::Literal(ver_seg),
        SpecPathSeg::Literal(l_rooms()),
        SpecPathSeg::Param,
        SpecPathSeg::Literal(l_state()),
        SpecPathSeg::Param,
        SpecPathSeg::Param,
    ]
}

/// The endpoint's wire-shape history: the `r0` path at protocol version
/// 1.0, the `v3` path at 1.1.
pub open spec fn state_history() -> Seq<(ProtocolVersion, Seq<SpecPathSeg>)> {
    seq![
        (ProtocolVersion { major: 1, minor: 0 }, state_template(l_r0())),
        (ProtocolVersion { major: 1, minor: 1 }, state_template(l_v3())),
    ]
}

/// Builds the executable template with the given version segment.
fn build_template(ver_seg: Vec<u8>) -> (t: PathTemplate)
    ensures
        segs_view(t@) == state_template(ver_seg@),
{
    let mut t: PathTemplate = Vec::new();
    t.push(PathSeg::Literal(l_matrix_bytes()));
    t.push(PathSeg::Literal(l_client_bytes()));
    t.push(PathSeg::Literal(ver_seg));
    t.push(PathSeg::Literal(l_rooms_bytes()));
    t.push(PathSeg::Param);
    t.push(PathSeg::Literal(l_state_bytes()));
    t.push(PathSeg::Param);
    t.push(PathSeg::Param);
    proof {
        assert(segs_view(t@) =~= state_template(ver_seg@));
    }
    t
}

/// The endpoint's metadata: `GET`, not rate-limited, access token
/// required, three path parameters with the trailing one optional, and
/// the two-entry history.
pub fn metadata() -> (m: EndpointMetadata)
    ensures
        metadata_wf(&m),
        m.method is Get,
        !m.rate_limited,
        m.authentication is AccessToken,
        m.path_params == 3,
        m.last_param_optional,
        history_view(m.history@) == state_history(),
{
    let mut history: Vec<(ProtocolVersion, PathTemplate)> = Vec::new();
    history.push((ProtocolVersion { major: 1, minor: 0 }, build_template(l_r0_bytes())));
    history.push((ProtocolVersion { major: 1, minor: 1 }, build_template(l_v3_bytes())));
    let m = EndpointMetadata {
        method: HttpMethod::Get,
        rate_limited: false,
        authentication: AuthScheme::AccessToken,
        path_params: 3,
        last_param_optional: true,
        history,
    };
    proof {
        assert(history_view(m.history@) =~= state_history());
        reveal_with_fuel(spec_param_count, 10);
        assert forall|i: int| 0 <= i < state_history().len() implies spec_param_count(
            #[trigger] state_history()[i].1,
        ) == 3 by {
            let t = state_history()[i].1;
            assert(t.subrange(0, 7).subrange(0, 6) =~= t.subrange(0, 6));
            assert(t.subrange(0, 6).subrange(0, 5) =~= t.subrange(0, 5));
            assert(t.subrange(0, 5).subrange(0, 4) =~= t.subrange(0, 4));
            assert(t.subrange(0, 4).subrange(0, 3) =~= t.subrange(0, 3));
            assert(t.subrange(0, 3).subrange(0, 2) =~= t.subrange(0, 2));
            assert(t.subrange(0, 2).subrange(0, 1) =~= t.subrange(0, 1));
            assert(t.subrange(0, 1).subrange(0, 0) =~= t.subrange(0, 0));
            assert(t.subrange(0, 8) =~= t);
            assert(spec_param_count(t) == 3);
        }
        assert(metadata_wf(&m));
    }
    m
}

/// Request type for the "get state content by key" endpoint.
#[derive(Debug)]
pub struct Request {
    /// The room to look the state up in, as a room identifier.
    pub room_id: Vec<u8>,
    /// The type of state to look up, as a wire type tag.
    pub event_type: Vec<u8>,
    /// The key of the state to look up; the empty key is common.
    pub state_key: Vec<u8>,
}

impl Request {
    /// Creates a new request from room identifier, event type and state
    /// key.
    pub fn new(room_id: Vec<u8>, event_type: Vec<u8>, state_key: Vec<u8>) -> (r: Self)
        ensures
            r.room_id@ == room_id@,
            r.event_type@ == event_type@,
            r.state_key@ == state_key@,
    {
        Request { room_id, event_type, state_key }
    }

    /// Turns this request into an HTTP message.  The access token is
    /// checked first: without one nothing is resolved and
    /// `MissingAuthentication` is returned.  With one, the path is
    /// resolved against the considered versions (its trailing segment
    /// left out for an empty state key), and the message carries the
    /// content-type and bearer headers over an empty-object body.
    pub fn try_into_http_request(
        self,
        base_url: &[u8],
        access_token: Option<&Vec<u8>>,
        considering_versions: &Vec<ProtocolVersion>,
    ) -> (r: Result<HttpRequest, IntoHttpError>)
        ensures
            ({
                let resolved = spec_resolve_core(
                    state_history(),
                    3,
                    true,
                    considering_versions@,
                    seq![self.room_id@, self.event_type@, self.state_key@],
                );
                match r {
                    Ok(req) => {
                        &&& access_token is Some
                        &&& resolved matches Ok(p) && req.uri@ == base_url@ + p
                        &&& req.method is Get
                        &&& req.headers@.len() == 2
                        &&& req.headers@[0].0@ == h_content_type()
                        &&& req.headers@[0].1@ == v_app_json()
                        &&& req.headers@[1].0@ == h_authorization()
                        &&& req.headers@[1].1@ == bearer_prefix() + access_token.unwrap()@
                        &&& req.body@ == seq![0x7bu8, 0x7du8]
                    },
                    Err(e) => match e {
                        IntoHttpError::MissingAuthentication => access_token is None,
                        IntoHttpError::VersionMismatch(vs) => access_token is Some && vs@
                            == considering_versions@ && resolved matches Err(
                            ResolveError::VersionMismatch(_),
                        ),
                        IntoHttpError::ArityError => access_token is Some && resolved matches Err(
                            ResolveError::ArityError,
                        ),
                    },
                }
            }),
    {
        let meta = metadata();
        let auth_header = match resolve_auth(&meta.authentication, access_token) {
            Ok(h) => h,
            Err(AuthError::MissingAuthentication) => {
                return Err(IntoHttpError::MissingAuthentication);
            },
        };
        let mut vals: Vec<Vec<u8>> = Vec::new();
        vals.push(self.room_id);
        vals.push(self.event_type);
        vals.push(self.state_key);
        proof {
            assert(vals_view(vals@) =~= seq![
                self.room_id@,
                self.event_type@,
                self.state_key@,
            ]);
        }
        let path = match resolve_path(&meta, considering_versions, &vals) {
            Ok(p) => p,
            Err(ResolveError::VersionMismatch(vs)) => {
                return Err(IntoHttpError::VersionMismatch(vs));
            },
            Err(ResolveError::ArityError) => {
                return Err(IntoHttpError::ArityError);
            },
        };
        let mut uri = copy_range(base_url, 0, base_url.len());
        proof {
            assert(uri@ =~= base_url@);
        }
        push_bytes(path.as_slice(), &mut uri);
        let mut headers: Vec<(Vec<u8>, Vec<u8>)> = Vec::new();
        headers.push((h_content_type_bytes(), v_app_json_bytes()));
        let bearer = match auth_header {
            Some(h) => h,
            None => {
                // unreachable: an access-token endpoint always yields a header
                Vec::new()
            },
        };
        headers.push((h_authorization_bytes(), bearer));
        let mut body: Vec<u8> = Vec::new();
        body.push(0x7b);
        body.push(0x7d);
        proof {
            assert(body@ =~= seq![0x7bu8, 0x7du8]);
        }
        Ok(HttpRequest { method: HttpMethod::Get, uri, headers, body })
    }

    /// Decodes a typed request from positional path arguments: three
    /// arguments fill the three fields; two leave the state key empty,
    /// per the endpoint-scoped arity exception; any other count is an
    /// arity error.  The request body is not consulted.
    pub fn try_from_http_request(path_args: &Vec<Vec<u8>>) -> (r: Result<
        Request,
        FromHttpRequestError,
    >)
        ensures
            path_args@.len() == 3 ==> (r matches Ok(req) && req.room_id@ == path_args@[0]@
                && req.event_type@ == path_args@[1]@ && req.state_key@ == path_args@[2]@),
            path_args@.len() == 2 ==> (r matches Ok(req) && req.room_id@ == path_args@[0]@
                && req.event_type@ == path_args@[1]@ && req.state_key@ == Seq::<u8>::empty()),
            path_args@.len() != 3 && path_args@.len() != 2 ==> (r matches Err(
                FromHttpRequestError::ArityError,
            )),
    {
        if path_args.len() == 3 {
            Ok(
                Request {
                    room_id: copy_range(path_args[0].as_slice(), 0, path_args[0].len()),
                    event_type: copy_range(path_args[1].as_slice(), 0, path_args[1].len()),
                    state_key: copy_range(path_args[2].as_slice(), 0, path_args[2].len()),
                },
            )
        } else if path_args.len() == 2 {
            let r = Request {
                room_id: copy_range(path_args[0].as_slice(), 0, path_args[0].len()),
                event_type: copy_range(path_args[1].as_slice(), 0, path_args[1].len()),
                state_key: Vec::new(),
            };
            proof {
                assert(r.state_key@ =~= Seq::<u8>::empty());
            }
            Ok(r)
        } else {
            Err(FromHttpRequestError::ArityError)
        }
    }
}

/// The serialized body of an outgoing request: no body fields are
/// declared, so it encodes as the empty object.
pub struct RequestBody {}

/// Response type for the "get state content by key" endpoint.
#[derive(Debug)]
pub struct Response {
    /// The content of the state event, byte-exact.  Reinterpret it
    /// against a typed content with the payload's own methods.
    pub content: RawPayload,
}

impl Response {
    /// Creates a new response with the given content.
    pub fn new(content: RawPayload) -> (r: Self)
        ensures
            r.content@ == content@,
    {
        Response { content }
    }

    /// Decodes a response from an HTTP message: a 2xx status wraps the
    /// body — the content JSON itself, not an envelope — byte-exact;
    /// any other status is the remote side's structured rejection.
    pub fn try_from_http_response(resp: HttpResponse) -> (r: Result<Response, EndpointError>)
        ensures
            200 <= resp.status < 300 ==> (r matches Ok(res) && res.content@ == resp.body@),
            !(200 <= resp.status < 300) ==> (r matches Err(e) && e.status == resp.status
                && e.body@ == resp.body@),
    {
        if 200 <= resp.status && resp.status < 300 {
            Ok(Response { content: RawPayload::wrap(resp.body) })
        } else {
            Err(EndpointError { status: resp.status, body: RawPayload::wrap(resp.body) })
        }
    }

    /// Encodes this response as a 200 HTTP message whose body is the
    /// content itself.
    pub fn try_into_http_response(self) -> (r: HttpResponse)
        ensures
            r.status == 200,
            r.body@ == self.content@,
    {
        HttpResponse { status: 200, body: self.content.serialize() }
    }
}

} // verus!
