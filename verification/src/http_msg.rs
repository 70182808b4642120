//! Plain HTTP message values.
//!
//! The marshaler produces and consumes these plain-data messages; an
//! actual transport converts them to and from its own request and
//! response types outside this crate.

use vstd::prelude::*;

use crate::metadata::HttpMethod;
use crate::raw::RawPayload;

verus! {

/// An HTTP request: method, request target, headers in order, body.
#[derive(Debug)]
pub struct HttpRequest {
    /// The request method.
    pub method: HttpMethod,
    /// The request target (URL), as bytes.
    pub uri: Vec<u8>,
    /// The headers, in order, each a `(name, value)` pair of bytes.
    pub headers: Vec<(Vec<u8>, Vec<u8>)>,
    /// The body bytes.
    pub body: Vec<u8>,
}

/// An HTTP response: status code and body.
#[derive(Debug)]
pub struct HttpResponse {
    /// The status code.
    pub status: u16,
    /// The body bytes.
    pub body: Vec<u8>,
}

/// The bytes of `Content-Type`.
pub open spec fn h_content_type() -> Seq<u8> {
    seq![67u8, 111u8, 110u8, 116u8, 101u8, 110u8, 116u8, 45u8, 84u8, 121u8, 112u8, 101u8]
}

/// The bytes of `Content-Type`, as a fresh vector.
pub fn h_content_type_bytes() -> (v: Vec<u8>)
    ensures
        v@ == h_content_type(),
{
    let mut v: Vec<u8> = Vec::new();
    v.push(67u8);
    v.push(111u8);
    v.push(110u8);
    v.push(116u8);
    v.push(101u8);
    v.push(110u8);
    v.push(116u8);
    v.push(45u8);
    v.push(84u8);
    v.push(121u8);
    v.push(112u8);
    v.push(101u8);
    proof {
        assert(v@ =~= h_content_type());
    }
    v
}

/// The bytes of `application/json`.
pub open spec fn v_app_json() -> Seq<u8> {
    seq![97u8, 112u8, 112u8, 108u8, 105u8, 99u8, 97u8, 116u8, 105u8, 111u8, 110u8, 47u8, 106u8, 115u8, 111u8, 110u8]
}

/// The bytes of `application/json`, as a fresh vector.
pub fn v_app_json_bytes() -> (v: Vec<u8>)
    ensures
        v@ == v_app_json(),
{
    let mut v: Vec<u8> = Vec::new();
    v.push(97u8);
    v.push(112u8);
    v.push(112u8);
    v.push(108u8);
    v.push(105u8);
    v.push(99u8);
    v.push(97u8);
    v.push(116u8);
    v.push(105u8);
    v.push(111u8);
    v.push(110u8);
    v.push(47u8);
    v.push(106u8);
    v.push(115u8);
    v.push(111u8);
    v.push(110u8);
    proof {
        assert(v@ =~= v_app_json());
    }
    v
}

/// The bytes of `Authorization`.
pub open spec fn h_authorization() -> Seq<u8> {
    seq![65u8, 117u8, 116u8, 104u8, 111u8, 114u8, 105u8, 122u8, 97u8, 116u8, 105u8, 111u8, 110u8]
}

/// The bytes of `Authorization`, as a fresh vector.
pub fn h_authorization_bytes() -> (v: Vec<u8>)
    ensures
        v@ == h_authorization(),
{
    let mut v: Vec<u8> = Vec::new();
    v.push(65u8);
    v.push(117u8);
    v.push(116u8);
    v.push(104u8);
    v.push(111u8);
    v.push(114u8);
    v.push(105u8);
    v.push(122u8);
    v.push(97u8);
    v.push(116u8);
    v.push(105u8);
    v.push(111u8);
    v.push(110u8);
    proof {
        assert(v@ =~= h_authorization());
    }
    v
}

/// A non-2xx response: the remote side rejected the request and sent a
/// structured error payload, kept byte-exact.  Distinct from a transport
/// failure, which never produces a response at all, and from a failure
/// to build the request, which produces no bytes.
#[derive(Debug)]
pub struct EndpointError {
    /// The response's status code (outside the 2xx range).
    pub status: u16,
    /// The error payload bytes.
    pub body: RawPayload,
}

/// Why a typed request could not be turned into an HTTP message.  No
/// bytes are produced on failure.
#[derive(Debug)]
pub enum IntoHttpError {
    /// The endpoint requires an access token and none was supplied.
    MissingAuthentication,
    /// No historical wire shape fits the considered protocol versions;
    /// carries the versions that were attempted.
    VersionMismatch(Vec<crate::metadata::ProtocolVersion>),
    /// The supplied path values do not match the placeholder count.
    ArityError,
}

/// Why an incoming HTTP request could not be decoded into a typed
/// request; each variant names the stage that failed.
#[derive(Debug)]
pub enum FromHttpRequestError {
    /// The number of path arguments does not fit the endpoint.
    ArityError,
    /// A path argument could not be decoded.
    MalformedPathSegment,
    /// The query string could not be decoded.
    MalformedQuery,
    /// The body could not be decoded.
    MalformedBody,
}

} // verus!

