//! The federation "create invite" endpoint binding:
//! `PUT /_matrix/federation/v1/invite/{roomId}/{eventId}`.
//!
//! The endpoint is authenticated by server signatures (computed by the
//! signing collaborator), has a single historical wire shape, and takes
//! two path parameters.  The request body is the full unsigned invite
//! event object; the response body is the single-field envelope
//! `{"event": <signed event JSON>}`.  Embedded event payloads are
//! spliced into the body verbatim, as raw JSON.

use vstd::prelude::*;

use crate::http_msg::{HttpRequest, HttpResponse, IntoHttpError, FromHttpRequestError,
    EndpointError, h_content_type, v_app_json, h_content_type_bytes, v_app_json_bytes};
use crate::metadata::{EndpointMetadata, HttpMethod, AuthScheme, PathSeg, SpecPathSeg,
    PathTemplate, ProtocolVersion, metadata_wf, history_view, segs_view, spec_param_count,
    spec_resolve_core, resolve_path, vals_view, ResolveError};
use crate::raw::RawPayload;
use crate::json::{JsonValue, SpecJson, spec_obj_get, obj_get};
use crate::json_parse::{copy_range, spec_parse_json};
use crate::json_out::{push_bytes, write_escaped, esc_bytes, dec_digits, ser_json};

verus! {

/// The bytes of the path segment `_matrix`.
pub open spec fn seg_matrix() -> Seq<u8> {
    seq![95u8, 109u8, 97u8, 116u8, 114u8, 105u8, 120u8]
}

/// The bytes of `_matrix`, as a fresh vector.
fn seg_matrix_bytes() -> (v: Vec<u8>)
    ensures
        v@ == seg_matrix(),
{
    let mut v: Vec<u8> = Vec::new();
    v.push(95u8);
    v.push(109u8);
    v.push(97u8);
    v.push(116u8);
    v.push(114u8);
    v.push(105u8);
    v.push(120u8);
    proof {
        assert(v@ =~= seg_matrix());
    }
    v
}

/// The bytes of the path segment `federation`.
pub open spec fn seg_federation() -> Seq<u8> {
    seq![102u8, 101u8, 100u8, 101u8, 114u8, 97u8, 116u8, 105u8, 111u8, 110u8]
}

/// The bytes of `federation`, as a fresh vector.
fn seg_federation_bytes() -> (v: Vec<u8>)
    ensures
        v@ == seg_federation(),
{
    let mut v: Vec<u8> = Vec::new();
    v.push(102u8);
    v.push(101u8);
    v.push(100u8);
    v.push(101u8);
    v.push(114u8);
    v.push(97u8);
    v.push(116u8);
    v.push(105u8);
    v.push(111u8);
    v.push(110u8);
    proof {
        assert(v@ =~= seg_federation());
    }
    v
}

/// The bytes of the path segment `v1`.
pub open spec fn seg_v1() -> Seq<u8> {
    seq![118u8, 49u8]
}

/// The bytes of `v1`, as a fresh vector.
fn seg_v1_bytes() -> (v: Vec<u8>)
    ensures
        v@ == seg_v1(),
{
    let mut v: Vec<u8> = Vec::new();
    v.push(118u8);
    v.push(49u8);
    proof {
        assert(v@ =~= seg_v1());
    }
    v
}

/// The bytes of the path segment `invite`.
pub open spec fn seg_invite() -> Seq<u8> {
    seq![105u8, 110u8, 118u8, 105u8, 116u8, 101u8]
}

/// The bytes of `invite`, as a fresh vector.
fn seg_invite_bytes() -> (v: Vec<u8>)
    ensures
        v@ == seg_invite(),
{
    let mut v: Vec<u8> = Vec::new();
    v.push(105u8);
    v.push(110u8);
    v.push(118u8);
    v.push(105u8);
    v.push(116u8);
    v.push(101u8);
    proof {
        assert(v@ =~= seg_invite());
    }
    v
}

/// The bytes of the field name or tag `sender`.
pub open spec fn kw_sender() -> Seq<u8> {
    seq![115u8, 101u8, 110u8, 100u8, 101u8, 114u8]
}

/// The bytes of `sender`, as a fresh vector.
fn kw_sender_bytes() -> (v: Vec<u8>)
    ensures
        v@ == kw_sender(),
{
    let mut v: Vec<u8> = Vec::new();
    v.push(115u8);
    v.push(101u8);
    v.push(110u8);
    v.push(100u8);
    v.push(101u8);
    v.push(114u8);
    proof {
        assert(v@ =~= kw_sender());
    }
    v
}

/// The bytes of the field name or tag `origin`.
pub open spec fn kw_origin() -> Seq<u8> {
    seq![111u8, 114u8, 105u8, 103u8, 105u8, 110u8]
}

/// The bytes of `origin`, as a fresh vector.
fn kw_origin_bytes() -> (v: Vec<u8>)
    ensures
        v@ == kw_origin(),
{
    let mut v: Vec<u8> = Vec::new();
    v.push(111u8);
    v.push(114u8);
    v.push(105u8);
    v.push(103u8);
    v.push(105u8);
    v.push(110u8);
    proof {
        assert(v@ =~= kw_origin());
    }
    v
}

/// The bytes of the field name or tag `origin_server_ts`.
pub open spec fn kw_origin_server_ts() -> Seq<u8> {
    seq![111u8, 114u8, 105u8, 103u8, 105u8, 110u8, 95u8, 115u8, 101u8, 114u8, 118u8, 101u8, 114u8, 95u8, 116u8, 115u8]
}

/// The bytes of `origin_server_ts`, as a fresh vector.
fn kw_origin_server_ts_bytes() -> (v: Vec<u8>)
    ensures
        v@ == kw_origin_server_ts(),
{
    let mut v: Vec<u8> = Vec::new();
    v.push(111u8);
    v.push(114u8);
    v.push(105u8);
    v.push(103u8);
    v.push(105u8);
    v.push(110u8);
    v.push(95u8);
    v.push(115u8);
    v.push(101u8);
    v.push(114u8);
    v.push(118u8);
    v.push(101u8);
    v.push(114u8);
    v.push(95u8);
    v.push(116u8);
    v.push(115u8);
    proof {
        assert(v@ =~= kw_origin_server_ts());
    }
    v
}

/// The bytes of the field name or tag `type`.
pub open spec fn kw_type() -> Seq<u8> {
    seq![116u8, 121u8, 112u8, 101u8]
}

/// The bytes of `type`, as a fresh vector.
fn kw_type_bytes() -> (v: Vec<u8>)
    ensures
        v@ == kw_type(),
{
    let mut v: Vec<u8> = Vec::new();
    v.push(116u8);
    v.push(121u8);
    v.push(112u8);
    v.push(101u8);
    proof {
        assert(v@ =~= kw_type());
    }
    v
}

/// The bytes of the field name or tag `state_key`.
pub open spec fn kw_state_key() -> Seq<u8> {
    seq![115u8, 116u8, 97u8, 116u8, 101u8, 95u8, 107u8, 101u8, 121u8]
}

/// The bytes of `state_key`, as a fresh vector.
fn kw_state_key_bytes() -> (v: Vec<u8>)
    ensures
        v@ == kw_state_key(),
{
    let mut v: Vec<u8> = Vec::new();
    v.push(115u8);
    v.push(116u8);
    v.push(97u8);
    v.push(116u8);
    v.push(101u8);
    v.push(95u8);
    v.push(107u8);
    v.push(101u8);
    v.push(121u8);
    proof {
        assert(v@ =~= kw_state_key());
    }
    v
}

/// The bytes of the field name or tag `content`.
pub open spec fn kw_content() -> Seq<u8> {
    seq![99u8, 111u8, 110u8, 116u8, 101u8, 110u8, 116u8]
}

/// The bytes of `content`, as a fresh vector.
fn kw_content_bytes() -> (v: Vec<u8>)
    ensures
        v@ == kw_content(),
{
    let mut v: Vec<u8> = Vec::new();
    v.push(99u8);
    v.push(111u8);
    v.push(110u8);
    v.push(116u8);
    v.push(101u8);
    v.push(110u8);
    v.push(116u8);
    proof {
        assert(v@ =~= kw_content());
    }
    v
}

/// The bytes of the field name or tag `unsigned`.
pub open spec fn kw_unsigned() -> Seq<u8> {
    seq![117u8, 110u8, 115u8, 105u8, 103u8, 110u8, 101u8, 100u8]
}

/// The bytes of `unsigned`, as a fresh vector.
fn kw_unsigned_bytes() -> (v: Vec<u8>)
    ensures
        v@ == kw_unsigned(),
{
    let mut v: Vec<u8> = Vec::new();
    v.push(117u8);
    v.push(110u8);
    v.push(115u8);
    v.push(105u8);
    v.push(103u8);
    v.push(110u8);
    v.push(101u8);
    v.push(100u8);
    proof {
        assert(v@ =~= kw_unsigned());
    }
    v
}

/// The bytes of the field name or tag `invite_room_state`.
pub open spec fn kw_invite_room_state() -> Seq<u8> {
    seq![105u8, 110u8, 118u8, 105u8, 116u8, 101u8, 95u8, 114u8, 111u8, 111u8, 109u8, 95u8, 115u8, 116u8, 97u8, 116u8, 101u8]
}

/// The bytes of `invite_room_state`, as a fresh vector.
fn kw_invite_room_state_bytes() -> (v: Vec<u8>)
    ensures
        v@ == kw_invite_room_state(),
{
    let mut v: Vec<u8> = Vec::new();
    v.push(105u8);
    v.push(110u8);
    v.push(118u8);
    v.push(105u8);
    v.push(116u8);
    v.push(101u8);
    v.push(95u8);
    v.push(114u8);
    v.push(111u8);
    v.push(111u8);
    v.push(109u8);
    v.push(95u8);
    v.push(115u8);
    v.push(116u8);
    v.push(97u8);
    v.push(116u8);
    v.push(101u8);
    proof {
        assert(v@ =~= kw_invite_room_state());
    }
    v
}

/// The bytes of the field name or tag `event`.
pub open spec fn kw_event() -> Seq<u8> {
    seq![101u8, 118u8, 101u8, 110u8, 116u8]
}

/// The bytes of `event`, as a fresh vector.
fn kw_event_bytes() -> (v: Vec<u8>)
    ensures
        v@ == kw_event(),
{
    let mut v: Vec<u8> = Vec::new();
    v.push(101u8);
    v.push(118u8);
    v.push(101u8);
    v.push(110u8);
    v.push(116u8);
    proof {
        assert(v@ =~= kw_event());
    }
    v
}

/// The bytes of the field name or tag `m.room.member`.
pub open spec fn member_tag() -> Seq<u8> {
    seq![109u8, 46u8, 114u8, 111u8, 111u8, 109u8, 46u8, 109u8, 101u8, 109u8, 98u8, 101u8, 114u8]
}

/// The bytes of `m.room.member`, as a fresh vector.
fn member_tag_bytes() -> (v: Vec<u8>)
    ensures
        v@ == member_tag(),
{
    let mut v: Vec<u8> = Vec::new();
    v.push(109u8);
    v.push(46u8);
    v.push(114u8);
    v.push(111u8);
    v.push(111u8);
    v.push(109u8);
    v.push(46u8);
    v.push(109u8);
    v.push(101u8);
    v.push(109u8);
    v.push(98u8);
    v.push(101u8);
    v.push(114u8);
    proof {
        assert(v@ =~= member_tag());
    }
    v
}

/// The endpoint's single template:
/// `/_matrix/federation/v1/invite/{room}/{event}`.
pub open spec fn invite_template() -> Seq<SpecPathSeg> {
    seq![
        SpecPathSeg::Literal(seg_matrix()),
        SpecPathSeg::Literal(seg_federation()),
        SpecPathSeg::Literal(seg_v1()),
        SpecPathSeg::Literal(seg_invite()),
        SpecPathSeg::Param,
        SpecPathSeg::Param,
    ]
}

/// The endpoint's wire-shape history: the one shape, at protocol
/// version 1.0.
pub open spec fn invite_history() -> Seq<(ProtocolVersion, Seq<SpecPathSeg>)> {
    seq![(ProtocolVersion { major: 1, minor: 0 }, invite_template())]
}

/// The endpoint's metadata: `PUT`, not rate-limited, server-signature
/// authentication, two path parameters, no arity exception.
pub fn metadata() -> (m: EndpointMetadata)
    ensures
        metadata_wf(&m),
        m.method is Put,
        !m.rate_limited,
        m.authentication is ServerSignatures,
        m.path_params == 2,
        !m.last_param_optional,
        history_view(m.history@) == invite_history(),
{
    let mut t: PathTemplate = Vec::new();
    t.push(PathSeg::Literal(seg_matrix_bytes()));
    t.push(PathSeg::Literal(seg_federation_bytes()));
    t.push(PathSeg::Literal(seg_v1_bytes()));
    t.push(PathSeg::Literal(seg_invite_bytes()));
    t.push(PathSeg::Param);
    t.push(PathSeg::Param);
    proof {
        assert(segs_view(t@) =~= invite_template());
    }
    let mut history: Vec<(ProtocolVersion, PathTemplate)> = Vec::new();
    history.push((ProtocolVersion { major: 1, minor: 0 }, t));
    let m = EndpointMetadata {
        method: HttpMethod::Put,
        rate_limited: false,
        authentication: AuthScheme::ServerSignatures,
        path_params: 2,
        last_param_optional: false,
        history,
    };
    proof {
        assert(history_view(m.history@) =~= invite_history());
        reveal_with_fuel(spec_param_count, 8);
        assert forall|i: int| 0 <= i < invite_history().len() implies spec_param_count(
            #[trigger] invite_history()[i].1,
        ) == 2 by {
            let t2 = invite_history()[i].1;
            assert(t2.subrange(0, 5).subrange(0, 4) =~= t2.subrange(0, 4));
            assert(t2.subrange(0, 4).subrange(0, 3) =~= t2.subrange(0, 3));
            assert(t2.subrange(0, 3).subrange(0, 2) =~= t2.subrange(0, 2));
            assert(t2.subrange(0, 2).subrange(0, 1) =~= t2.subrange(0, 1));
            assert(t2.subrange(0, 1).subrange(0, 0) =~= t2.subrange(0, 0));
            assert(t2.subrange(0, 6) =~= t2);
            assert(spec_param_count(t2) == 2);
        }
        assert(metadata_wf(&m));
    }
    m
}

/// Information included alongside an event that is not signed.
#[derive(Debug)]
pub struct UnsignedEventContent {
    /// Simplified (stripped) state events helping the invited user's
    /// server identify the room, each a verbatim event payload.
    pub invite_room_state: Vec<RawPayload>,
}

/// The abstraction of a list of verbatim payloads: their byte
/// sequences, in order.
pub open spec fn raws_view(v: Seq<RawPayload>) -> Seq<Seq<u8>> {
    Seq::new(v.len(), |i: int| v[i]@)
}

impl UnsignedEventContent {
    /// Creates an empty value.
    pub fn new() -> (r: Self)
        ensures
            r.invite_room_state@.len() == 0,
    {
        UnsignedEventContent { invite_room_state: Vec::new() }
    }

    /// Whether every field is empty.
    pub fn is_empty(&self) -> (r: bool)
        ensures
            r == (self.invite_room_state@.len() == 0),
    {
        self.invite_room_state.len() == 0
    }
}

/// The comma-separated splice of verbatim payloads.
pub open spec fn raw_list(items: Seq<Seq<u8>>) -> Seq<u8>
    decreases items.len(),
{
    if items.len() == 0 {
        Seq::empty()
    } else if items.len() == 1 {
        items[0]
    } else {
        raw_list(items.subrange(0, items.len() - 1)) + seq![0x2cu8] + items[items.len() - 1]
    }
}

/// The encoding of a string value.
pub open spec fn jstr(s: Seq<u8>) -> Seq<u8> {
    seq![0x22u8] + esc_bytes(s) + seq![0x22u8]
}

/// The request body: the unsigned invite event object, with the sender,
/// origin, timestamp, type, state key, verbatim content, and — only when
/// any are present — the unsigned block's stripped-state list.
pub open spec fn invite_body(
    sender: Seq<u8>,
    origin: Seq<u8>,
    origin_server_ts: u64,
    kind: Seq<u8>,
    state_key: Seq<u8>,
    content: Seq<u8>,
    irs: Seq<Seq<u8>>,
) -> Seq<u8> {
    seq![0x7bu8, 0x22u8] + kw_sender() + seq![0x22u8, 0x3au8] + jstr(sender) + seq![
        0x2cu8,
        0x22u8,
    ] + kw_origin() + seq![0x22u8, 0x3au8] + jstr(origin) + seq![0x2cu8, 0x22u8]
        + kw_origin_server_ts() + seq![0x22u8, 0x3au8] + dec_digits(origin_server_ts as nat)
        + seq![0x2cu8, 0x22u8] + kw_type() + seq![0x22u8, 0x3au8] + jstr(kind) + seq![
        0x2cu8,
        0x22u8,
    ] + kw_state_key() + seq![0x22u8, 0x3au8] + jstr(state_key) + seq![0x2cu8, 0x22u8]
        + kw_content() + seq![0x22u8, 0x3au8] + content + (
    if irs.len() == 0 {
        Seq::<u8>::empty()
    } else {
        seq![0x2cu8, 0x22u8] + kw_unsigned() + seq![0x22u8, 0x3au8, 0x7bu8, 0x22u8]
            + kw_invite_room_state() + seq![0x22u8, 0x3au8, 0x5bu8] + raw_list(irs) + seq![
            0x5du8,
            0x7du8,
        ]
    }) + seq![0x7du8]
}

/// Request type for the create-invite endpoint.
#[derive(Debug)]
pub struct Request {
    /// The room the user is being invited to, as a room identifier.
    pub room_id: Vec<u8>,
    /// The invite event's identifier, generated by the inviting server.
    pub event_id: Vec<u8>,
    /// The user who sent the original invite, as a user identifier.
    pub sender: Vec<u8>,
    /// The name of the inviting homeserver.
    pub origin: Vec<u8>,
    /// A millisecond timestamp added by the inviting homeserver.
    pub origin_server_ts: u64,
    /// The event's wire type tag, `m.room.member`.
    pub kind: Vec<u8>,
    /// The invited user, as a user identifier.
    pub state_key: Vec<u8>,
    /// The membership event content, verbatim.
    pub content: RawPayload,
    /// Information alongside the event that is not signed.
    pub unsigned: UnsignedEventContent,
}

/// Initial set of fields of [`Request`]: everything except the type
/// tag, which is fixed.
pub struct RequestInit {
    /// The room the user is being invited to, as a room identifier.
    pub room_id: Vec<u8>,
    /// The invite event's identifier, generated by the inviting server.
    pub event_id: Vec<u8>,
    /// The user who sent the original invite, as a user identifier.
    pub sender: Vec<u8>,
    /// The name of the inviting homeserver.
    pub origin: Vec<u8>,
    /// A millisecond timestamp added by the inviting homeserver.
    pub origin_server_ts: u64,
    /// The invited user, as a user identifier.
    pub state_key: Vec<u8>,
    /// The membership event content, verbatim.
    pub content: RawPayload,
    /// Information alongside the event that is not signed.
    pub unsigned: UnsignedEventContent,
}

impl RequestInit {
    /// Builds the full request, fixing the type tag to `m.room.member`.
    pub fn into_request(self) -> (r: Request)
        ensures
            r.room_id@ == self.room_id@,
            r.event_id@ == self.event_id@,
            r.sender@ == self.sender@,
            r.origin@ == self.origin@,
            r.origin_server_ts == self.origin_server_ts,
            r.kind@ == member_tag(),
            r.state_key@ == self.state_key@,
            r.content@ == self.content@,
            raws_view(r.unsigned.invite_room_state@) == raws_view(
                self.unsigned.invite_room_state@,
            ),
    {
        Request {
            room_id: self.room_id,
            event_id: self.event_id,
            sender: self.sender,
            origin: self.origin,
            origin_server_ts: self.origin_server_ts,
            kind: member_tag_bytes(),
            state_key: self.state_key,
            content: self.content,
            unsigned: self.unsigned,
        }
    }
}

/// Appends the splice of the stripped-state payloads to `out`.
fn write_raw_list(items: &Vec<RawPayload>, out: &mut Vec<u8>)
    ensures
        final(out)@ == old(out)@ + raw_list(raws_view(items@)),
{
    let ghost rv = raws_view(items@);
    let mut i: usize = 0;
    proof {
        assert(raw_list(rv.take(0)) =~= Seq::<u8>::empty());
        assert(out@ =~= old(out)@ + raw_list(rv.take(0)));
    }
    while i < items.len()
        invariant
            i <= items.len(),
            rv == raws_view(items@),
            rv.len() == items@.len(),
            forall|k: int| 0 <= k < rv.len() ==> rv[k] == items@[k]@,
            out@ == old(out)@ + raw_list(rv.take(i as int)),
        decreases items.len() - i,
    {
        if i > 0 {
            out.push(0x2c);
        }
        push_bytes(items[i].as_bytes(), out);
        proof {
            let t = rv.take(i as int + 1);
            if i == 0 {
                assert(raw_list(t) == rv[0]);
            } else {
                assert(t.subrange(0, t.len() - 1) =~= rv.take(i as int));
                assert(t[t.len() - 1] == rv[i as int]);
            }
            assert(out@ =~= old(out)@ + raw_list(rv.take(i as int + 1)));
        }
        i = i + 1;
    }
    proof {
        assert(rv.take(rv.len() as int) =~= rv);
    }
}

/// Appends `"<key>":` to `out` for a key without escapes.
fn write_key(key: Vec<u8>, out: &mut Vec<u8>)
    ensures
        final(out)@ == old(out)@ + seq![0x22u8] + key@ + seq![0x22u8, 0x3au8],
{
    out.push(0x22);
    push_bytes(key.as_slice(), out);
    out.push(0x22);
    out.push(0x3a);
    proof {
        assert(out@ =~= old(out)@ + seq![0x22u8] + key@ + seq![0x22u8, 0x3au8]);
    }
}

/// Appends a string value `"<escaped>"` to `out`.
fn write_jstr(s: &[u8], out: &mut Vec<u8>)
    ensures
        final(out)@ == old(out)@ + jstr(s@),
{
    out.push(0x22);
    write_escaped(s, out);
    out.push(0x22);
    proof {
        assert(out@ =~= old(out)@ + jstr(s@));
    }
}

impl Request {
    /// Builds the request body: the unsigned invite event object, with
    /// the verbatim content spliced in and the unsigned block present
    /// only when it is non-empty.
    #[verifier::rlimit(100)]
    pub fn body_bytes(&self) -> (out: Vec<u8>)
        ensures
            out@ == invite_body(
                self.sender@,
                self.origin@,
                self.origin_server_ts,
                self.kind@,
                self.state_key@,
                self.content@,
                raws_view(self.unsigned.invite_room_state@),
            ),
    {
        let mut out: Vec<u8> = Vec::new();
        out.push(0x7b);
        write_key(kw_sender_bytes(), &mut out);
        write_jstr(self.sender.as_slice(), &mut out);
        let ghost g1 = out@;
        out.push(0x2c);
        write_key(kw_origin_bytes(), &mut out);
        write_jstr(self.origin.as_slice(), &mut out);
        let ghost g2 = out@;
        out.push(0x2c);
        write_key(kw_origin_server_ts_bytes(), &mut out);
        let ts: u64 = self.origin_server_ts;
        crate::json_out::write_u64_digits(ts, &mut out);
        let ghost g3 = out@;
        out.push(0x2c);
        write_key(kw_type_bytes(), &mut out);
        write_jstr(self.kind.as_slice(), &mut out);
        let ghost g4 = out@;
        out.push(0x2c);
        write_key(kw_state_key_bytes(), &mut out);
        write_jstr(self.state_key.as_slice(), &mut out);
        let ghost g5 = out@;
        out.push(0x2c);
        write_key(kw_content_bytes(), &mut out);
        push_bytes(self.content.as_bytes(), &mut out);
        let ghost g6 = out@;
        if self.unsigned.invite_room_state.len() > 0 {
            out.push(0x2c);
            write_key(kw_unsigned_bytes(), &mut out);
            out.push(0x7b);
            write_key(kw_invite_room_state_bytes(), &mut out);
            out.push(0x5b);
            write_raw_list(&self.unsigned.invite_room_state, &mut out);
            out.push(0x5d);
            out.push(0x7d);
        }
        out.push(0x7d);
        proof {
            assert(out@ =~= invite_body(
                self.sender@,
                self.origin@,
                self.origin_server_ts,
                self.kind@,
                self.state_key@,
                self.content@,
                raws_view(self.unsigned.invite_room_state@),
            ));
        }
        out
    }

    /// Turns this request into an HTTP message.  No bearer credential is
    /// involved: the endpoint is authenticated by server signatures,
    /// which the signing collaborator adds.  The path is resolved
    /// against the considered versions; the body is the unsigned invite
    /// event object.
    pub fn try_into_http_request(
        self,
        base_url: &[u8],
        considering_versions: &Vec<ProtocolVersion>,
    ) -> (r: Result<HttpRequest, IntoHttpError>)
        ensures
            ({
                let resolved = spec_resolve_core(
                    invite_history(),
                    2,
                    false,
                    considering_versions@,
                    seq![self.room_id@, self.event_id@],
                );
                match r {
                    Ok(req) => {
                        &&& resolved matches Ok(p) && req.uri@ == base_url@ + p
                        &&& req.method is Put
                        &&& req.headers@.len() == 1
                        &&& req.headers@[0].0@ == h_content_type()
                        &&& req.headers@[0].1@ == v_app_json()
                        &&& req.body@ == invite_body(
                            self.sender@,
                            self.origin@,
                            self.origin_server_ts,
                            self.kind@,
                            self.state_key@,
                            self.content@,
                            raws_view(self.unsigned.invite_room_state@),
                        )
                    },
                    Err(e) => match e {
                        IntoHttpError::MissingAuthentication => false,
                        IntoHttpError::VersionMismatch(vs) => vs@ == considering_versions@
                            && resolved matches Err(ResolveError::VersionMismatch(_)),
                        IntoHttpError::ArityError => resolved matches Err(
                            ResolveError::ArityError,
                        ),
                    },
                }
            }),
    {
        let meta = metadata();
        let body = self.body_bytes();
        let mut vals: Vec<Vec<u8>> = Vec::new();
        vals.push(self.room_id);
        vals.push(self.event_id);
        proof {
            assert(vals_view(vals@) =~= seq![self.room_id@, self.event_id@]);
        }
        let path = match resolve_path(&meta, considering_versions, &vals) {
            Ok(p) => p,
            Err(ResolveError::VersionMismatch(vs)) => {
                return Err(IntoHttpError::VersionMismatch(vs));
            },
            Err(ResolveError::ArityError) => {
                return Err(IntoHttpError::ArityError);
            },
        };
        let mut uri = copy_range(base_url, 0, base_url.len());
        proof {
            assert(uri@ =~= base_url@);
        }
        push_bytes(path.as_slice(), &mut uri);
        let mut headers: Vec<(Vec<u8>, Vec<u8>)> = Vec::new();
        headers.push((h_content_type_bytes(), v_app_json_bytes()));
        Ok(HttpRequest { method: HttpMethod::Put, uri, headers, body })
    }
}

/// The response body: the single-field envelope `{"event": ...}` with
/// the signed event spliced in verbatim.
pub open spec fn invite_resp_body(event: Seq<u8>) -> Seq<u8> {
    seq![0x7bu8, 0x22u8] + kw_event() + seq![0x22u8, 0x3au8] + event + seq![0x7du8]
}

/// Why an incoming create-invite response could not be decoded.
#[derive(Debug)]
pub enum ResponseError {
    /// The remote side rejected the request with a non-2xx response.
    Endpoint(EndpointError),
    /// A 2xx response whose body is not an `{"event": ...}` envelope.
    MalformedBody,
}

/// Response type for the create-invite endpoint.
#[derive(Debug)]
pub struct Response {
    /// The signed invite event, as a verbatim payload.
    pub event: RawPayload,
}

impl Response {
    /// Creates a new response with the given signed invite event.
    pub fn new(event: RawPayload) -> (r: Self)
        ensures
            r.event@ == event@,
    {
        Response { event }
    }

    /// Encodes this response as a 200 HTTP message whose body is the
    /// `{"event": ...}` envelope around the verbatim signed event.
    pub fn try_into_http_response(self) -> (r: HttpResponse)
        ensures
            r.status == 200,
            r.body@ == invite_resp_body(self.event@),
    {
        let mut body: Vec<u8> = Vec::new();
        body.push(0x7b);
        write_key(kw_event_bytes(), &mut body);
        push_bytes(self.event.as_bytes(), &mut body);
        body.push(0x7d);
        proof {
            assert(body@ =~= invite_resp_body(self.event@));
        }
        HttpResponse { status: 200, body }
    }

    /// Decodes a response from an HTTP message: a 2xx body must be an
    /// object with an `event` member, whose canonical serialization
    /// becomes the signed event payload; any other status is the remote
    /// side's structured rejection.
    pub fn try_from_http_response(resp: HttpResponse) -> (r: Result<Response, ResponseError>)
        ensures
            !(200 <= resp.status < 300) ==> (r matches Err(ResponseError::Endpoint(e))
                && e.status == resp.status && e.body@ == resp.body@),
            200 <= resp.status < 300 ==> match r {
                Ok(res) => spec_parse_json(resp.body@) matches Some(d) && d matches
                    SpecJson::Obj(ms) && spec_obj_get(ms, kw_event()) matches Some(ev)
                    && res.event@ == ser_json(ev),
                Err(ResponseError::Endpoint(_)) => false,
                Err(ResponseError::MalformedBody) => match spec_parse_json(resp.body@) {
                    None => true,
                    Some(d) => match d {
                        SpecJson::Obj(ms) => spec_obj_get(ms, kw_event()) is None,
                        _ => true,
                    },
                },
            },
    {
        if !(200 <= resp.status && resp.status < 300) {
            return Err(
                ResponseError::Endpoint(
                    EndpointError { status: resp.status, body: RawPayload::wrap(resp.body) },
                ),
            );
        }
        let doc = match crate::json_parse::parse_json(resp.body.as_slice()) {
            Some(d) => d,
            None => {
                return Err(ResponseError::MalformedBody);
            },
        };
        let members = match &doc {
            JsonValue::Obj(members) => members,
            _ => {
                return Err(ResponseError::MalformedBody);
            },
        };
        let ke = kw_event_bytes();
        match obj_get(members, ke.as_slice()) {
            Some(ev) => Ok(Response { event: RawPayload::from_value(ev) }),
            None => Err(ResponseError::MalformedBody),
        }
    }
}

/// The required string member `key` of an object, or `None` where it is
/// absent or not a string.
pub open spec fn str_field(ms: Seq<(Seq<u8>, SpecJson)>, key: Seq<u8>) -> Option<Seq<u8>> {
    match spec_obj_get(ms, key) {
        Some(SpecJson::Str(s)) => Some(s),
        _ => None,
    }
}

/// The required non-negative integer member `key` of an object, as a
/// timestamp.
pub open spec fn ts_field(ms: Seq<(Seq<u8>, SpecJson)>, key: Seq<u8>) -> Option<u64> {
    match spec_obj_get(ms, key) {
        Some(SpecJson::Int(n)) => if n >= 0 {
            Some(n as u64)
        } else {
            None
        },
        _ => None,
    }
}

/// The canonical bytes of each document in a list.
pub open spec fn raws_of(items: Seq<SpecJson>) -> Seq<Seq<u8>> {
    Seq::new(items.len(), |i: int| ser_json(items[i]))
}

/// The stripped-state list the optional `unsigned` member denotes: empty
/// where the member is absent, else the canonical bytes of each item of
/// its required `invite_room_state` array.
pub open spec fn unsigned_field(ms: Seq<(Seq<u8>, SpecJson)>) -> Option<Seq<Seq<u8>>> {
    match spec_obj_get(ms, kw_unsigned()) {
        None => Some(Seq::empty()),
        Some(SpecJson::Obj(mm)) => match spec_obj_get(mm, kw_invite_room_state()) {
            Some(SpecJson::Arr(items)) => Some(raws_of(items)),
            _ => None,
        },
        Some(_) => None,
    }
}

/// The body fields an incoming invite request denotes — sender, origin,
/// timestamp, type, state key, canonical content bytes, stripped-state
/// list — or `None` where the document does not fit that shape.
pub open spec fn invite_req_of_json(d: SpecJson) -> Option<
    (Seq<u8>, Seq<u8>, u64, Seq<u8>, Seq<u8>, Seq<u8>, Seq<Seq<u8>>),
> {
    match d {
        SpecJson::Obj(ms) => match (
            str_field(ms, kw_sender()),
            str_field(ms, kw_origin()),
            ts_field(ms, kw_origin_server_ts()),
            str_field(ms, kw_type()),
            str_field(ms, kw_state_key()),
        ) {
            (Some(sender), Some(origin), Some(ts), Some(kind), Some(state_key)) => match (
                spec_obj_get(ms, kw_content()),
                unsigned_field(ms),
            ) {
                (Some(content), Some(irs)) => Some(
                    (sender, origin, ts, kind, state_key, ser_json(content), irs),
                ),
                _ => None,
            },
            _ => None,
        },
        _ => None,
    }
}

/// Reads a required string member, copying its bytes.
fn str_field_x(members: &Vec<(Vec<u8>, JsonValue)>, key: &[u8]) -> (r: Option<Vec<u8>>)
    ensures
        match r {
            Some(v) => str_field(crate::json::obj_view(members), key@) == Some(v@),
            None => str_field(crate::json::obj_view(members), key@) is None,
        },
{
    match obj_get(members, key) {
        Some(j) => match j {
            JsonValue::Str(s) => Some(copy_range(s.as_slice(), 0, s.len())),
            _ => None,
        },
        None => None,
    }
}

/// Reads the stripped-state payloads of an `invite_room_state` array.
fn raws_from_items(items: &Vec<JsonValue>) -> (r: Vec<RawPayload>)
    ensures
        raws_view(r@) == raws_of(crate::json::arr_view(items@)),
{
    let ghost av = crate::json::arr_view(items@);
    proof {
        crate::json::lemma_arr_view_index(items@);
    }
    let mut r: Vec<RawPayload> = Vec::new();
    let mut i: usize = 0;
    while i < items.len()
        invariant
            i <= items.len(),
            av == crate::json::arr_view(items@),
            av.len() == items@.len(),
            forall|k: int| 0 <= k < av.len() ==> av[k] == items@[k]@,
            r@.len() == i,
            forall|k: int| 0 <= k < i ==> r@[k]@ == ser_json(av[k]),
        decreases items.len() - i,
    {
        r.push(RawPayload::from_value(&items[i]));
        i = i + 1;
    }
    proof {
        assert(raws_view(r@) =~= raws_of(av));
    }
    r
}

impl Request {
    /// Decodes a typed request from its two positional path arguments
    /// and its body bytes: the body must be well-formed JSON denoting
    /// the unsigned invite event object.  Embedded payloads (the
    /// content, each stripped-state event) are kept as their canonical
    /// serialization.
    pub fn try_from_http_request(path_args: &Vec<Vec<u8>>, body: &[u8]) -> (r: Result<
        Request,
        FromHttpRequestError,
    >)
        ensures
            match r {
                Ok(req) => {
                    &&& path_args@.len() == 2
                    &&& req.room_id@ == path_args@[0]@
                    &&& req.event_id@ == path_args@[1]@
                    &&& spec_parse_json(body@) matches Some(d) && invite_req_of_json(d) == Some(
                        (
                            req.sender@,
                            req.origin@,
                            req.origin_server_ts,
                            req.kind@,
                            req.state_key@,
                            req.content@,
                            raws_view(req.unsigned.invite_room_state@),
                        ),
                    )
                },
                Err(FromHttpRequestError::ArityError) => path_args@.len() != 2,
                Err(FromHttpRequestError::MalformedBody) => path_args@.len() == 2 && match
                    spec_parse_json(body@) {
                    None => true,
                    Some(d) => invite_req_of_json(d) is None,
                },
                Err(_) => false,
            },
    {
        if path_args.len() != 2 {
            return Err(FromHttpRequestError::ArityError);
        }
        let doc = match crate::json_parse::parse_json(body) {
            Some(d) => d,
            None => {
                return Err(FromHttpRequestError::MalformedBody);
            },
        };
        let members = match &doc {
            JsonValue::Obj(members) => members,
            _ => {
                return Err(FromHttpRequestError::MalformedBody);
            },
        };
        let ks = kw_sender_bytes();
        let sender = match str_field_x(members, ks.as_slice()) {
            Some(v) => v,
            None => {
                return Err(FromHttpRequestError::MalformedBody);
            },
        };
        let ko = kw_origin_bytes();
        let origin = match str_field_x(members, ko.as_slice()) {
            Some(v) => v,
            None => {
                return Err(FromHttpRequestError::MalformedBody);
            },
        };
        let kt = kw_origin_server_ts_bytes();
        let origin_server_ts: u64 = match obj_get(members, kt.as_slice()) {
            Some(j) => match j {
                JsonValue::Int(n) => if *n >= 0 {
                    *n as u64
                } else {
                    return Err(FromHttpRequestError::MalformedBody);
                },
                _ => {
                    return Err(FromHttpRequestError::MalformedBody);
                },
            },
            None => {
                return Err(FromHttpRequestError::MalformedBody);
            },
        };
        let kk = kw_type_bytes();
        let kind = match str_field_x(members, kk.as_slice()) {
            Some(v) => v,
            None => {
                return Err(FromHttpRequestError::MalformedBody);
            },
        };
        let ksk = kw_state_key_bytes();
        let state_key = match str_field_x(members, ksk.as_slice()) {
            Some(v) => v,
            None => {
                return Err(FromHttpRequestError::MalformedBody);
            },
        };
        let kc = kw_content_bytes();
        let content = match obj_get(members, kc.as_slice()) {
            Some(j) => RawPayload::from_value(j),
            None => {
                return Err(FromHttpRequestError::MalformedBody);
            },
        };
        let ku = kw_unsigned_bytes();
        let invite_room_state: Vec<RawPayload> = match obj_get(members, ku.as_slice()) {
            None => {
                let empty: Vec<RawPayload> = Vec::new();
                proof {
                    assert(raws_view(empty@) =~= Seq::<Seq<u8>>::empty());
                }
                empty
            },
            Some(j) => match j {
                JsonValue::Obj(mm) => {
                    let kirs = kw_invite_room_state_bytes();
                    match obj_get(mm, kirs.as_slice()) {
                        Some(inner) => match inner {
                            JsonValue::Arr(items) => raws_from_items(items),
                            _ => {
                                return Err(FromHttpRequestError::MalformedBody);
                            },
                        },
                        _ => {
                            return Err(FromHttpRequestError::MalformedBody);
                        },
                    }
                },
                _ => {
                    return Err(FromHttpRequestError::MalformedBody);
                },
            },
        };
        Ok(
            Request {
                room_id: copy_range(path_args[0].as_slice(), 0, path_args[0].len()),
                event_id: copy_range(path_args[1].as_slice(), 0, path_args[1].len()),
                sender,
                origin,
                origin_server_ts,
                kind,
                state_key,
                content,
                unsigned: UnsignedEventContent { invite_room_state },
            },
        )
    }
}

} // verus!

