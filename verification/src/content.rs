//! The forward-compatible event-content union and its redaction rules.
//!
//! Decoding takes a wire type tag and payload bytes.  A registered tag
//! decodes into its typed variant; every other tag decodes — always
//! successfully — into the `Custom` fallback carrying the tag and the
//! verbatim payload.  An unrecognized type is by design not an error.
//! The registry of known state-content types is the explicit match in
//! [`decode_state_content`]; it currently registers
//! `m.room.power_levels`.

use vstd::prelude::*;

use crate::power_levels::{RoomPowerLevelsEventContent, RedactedRoomPowerLevelsEventContent,
    RoomVersionId, spec_redacts_invite, pairs_view};
use crate::raw::{RawPayload, DeserializeError};
use crate::json_parse::spec_parse_json;
use crate::power_codec::spl_of_json;

verus! {

/// The bytes of the wire type tag `m.room.power_levels`.
pub open spec fn power_levels_tag() -> Seq<u8> {
    seq![
        109u8, 46u8, 114u8, 111u8, 111u8, 109u8, 46u8, 112u8, 111u8, 119u8, 101u8, 114u8, 95u8,
        108u8, 101u8, 118u8, 101u8, 108u8, 115u8,
    ]
}

/// The wire type tag `m.room.power_levels`, as fresh bytes.
pub fn power_levels_tag_bytes() -> (v: Vec<u8>)
    ensures
        v@ == power_levels_tag(),
{
    let mut v: Vec<u8> = Vec::new();
    v.push(109u8);
    v.push(46u8);
    v.push(114u8);
    v.push(111u8);
    v.push(111u8);
    v.push(109u8);
    v.push(46u8);
    v.push(112u8);
    v.push(111u8);
    v.push(119u8);
    v.push(101u8);
    v.push(114u8);
    v.push(95u8);
    v.push(108u8);
    v.push(101u8);
    v.push(118u8);
    v.push(101u8);
    v.push(108u8);
    v.push(115u8);
    proof {
        assert(v@ =~= power_levels_tag());
    }
    v
}

/// A state-event content: a known, typed variant, or the
/// forward-compatible fallback keeping the tag and the raw payload.
pub enum AnyStateEventContent {
    /// An `m.room.power_levels` content.
    RoomPowerLevels(RoomPowerLevelsEventContent),
    /// A content whose type tag is not registered.
    Custom {
        /// The wire type tag, kept verbatim.
        event_type: Vec<u8>,
        /// The payload bytes, kept verbatim.
        payload: RawPayload,
    },
}

/// A redacted state-event content.
pub enum AnyRedactedStateEventContent {
    /// A redacted `m.room.power_levels` content.
    RoomPowerLevels(RedactedRoomPowerLevelsEventContent),
    /// A redacted content of an unregistered type: only the tag survives,
    /// over an empty payload.
    Custom {
        /// The wire type tag, kept verbatim.
        event_type: Vec<u8>,
        /// The redacted payload: an empty object.
        payload: RawPayload,
    },
}

/// The shapes a state key may take for a given content type.
pub enum StateKeyKind {
    /// The state key must be exactly the empty string.
    EmptyOnly,
    /// Any string is accepted.
    FreeformString,
    /// The state key is a typed identifier (such as a user identifier);
    /// its syntax is checked by the identifier-validation collaborator,
    /// not here.
    TypedKey,
}

/// Whether `key` fits `kind`, as far as this crate checks it: `EmptyOnly`
/// demands emptiness, the other kinds accept every string (a typed key's
/// syntax belongs to the identifier validator).
pub open spec fn spec_state_key_ok(kind: StateKeyKind, key: Seq<u8>) -> bool {
    match kind {
        StateKeyKind::EmptyOnly => key.len() == 0,
        StateKeyKind::FreeformString => true,
        StateKeyKind::TypedKey => true,
    }
}

/// Validates a state key against the declared kind of its content type.
pub fn validate_state_key(kind: &StateKeyKind, key: &[u8]) -> (r: bool)
    ensures
        r == spec_state_key_ok(*kind, key@),
{
    match kind {
        StateKeyKind::EmptyOnly => key.len() == 0,
        StateKeyKind::FreeformString => true,
        StateKeyKind::TypedKey => true,
    }
}

/// Decodes a state-event content from its wire type tag and payload
/// bytes.  A registered tag decodes into its typed variant, failing only
/// on malformed payload bytes; any other tag always succeeds, wrapping
/// the tag and the verbatim payload in `Custom`.
pub fn decode_state_content(event_type: Vec<u8>, bytes: Vec<u8>) -> (r: Result<
    AnyStateEventContent,
    DeserializeError,
>)
    ensures
        event_type@ == power_levels_tag() ==> match r {
            Ok(c) => c matches AnyStateEventContent::RoomPowerLevels(pl)
                && spec_parse_json(bytes@) matches Some(d) && spl_of_json(d) == Some(pl@),
            Err(e) => match e {
                DeserializeError::Syntax => spec_parse_json(bytes@) is None,
                DeserializeError::Schema => spec_parse_json(bytes@) matches Some(d)
                    && spl_of_json(d) is None,
            },
        },
        event_type@ != power_levels_tag() ==> match r {
            Ok(c) => c matches AnyStateEventContent::Custom { event_type: t, payload } && t@
                == event_type@ && payload@ == bytes@,
            Err(_) => false,
        },
{
    let tag = power_levels_tag_bytes();
    if crate::json::bytes_eq(event_type.as_slice(), tag.as_slice()) {
        let payload = RawPayload::wrap(bytes);
        match payload.deserialize_power_levels() {
            Ok(pl) => Ok(AnyStateEventContent::RoomPowerLevels(pl)),
            Err(e) => Err(e),
        }
    } else {
        Ok(AnyStateEventContent::Custom { event_type, payload: RawPayload::wrap(bytes) })
    }
}

/// Redacts a state-event content under `version`.  A power-levels
/// content follows its table-driven policy; a content of an unregistered
/// type keeps only its tag over an empty-object payload, the
/// protocol-level default for unknown types.
pub fn redact_state_content(content: AnyStateEventContent, version: &RoomVersionId) -> (r:
    AnyRedactedStateEventContent)
    ensures
        match content {
            AnyStateEventContent::RoomPowerLevels(c) => r matches
                AnyRedactedStateEventContent::RoomPowerLevels(rc) && rc.ban == c.ban && pairs_view(
                rc.events@,
            ) == pairs_view(c.events@) && rc.events_default == c.events_default && rc.kick
                == c.kick && rc.redact == c.redact && rc.state_default == c.state_default
                && pairs_view(rc.users@) == pairs_view(c.users@) && rc.users_default
                == c.users_default && rc.invite == if spec_redacts_invite(*version) {
                0
            } else {
                c.invite
            },
            AnyStateEventContent::Custom { event_type, .. } => r matches
                AnyRedactedStateEventContent::Custom { event_type: t, payload } && t@
                == event_type@ && payload@ == seq![0x7bu8, 0x7du8],
        },
{
    match content {
        AnyStateEventContent::RoomPowerLevels(c) => AnyRedactedStateEventContent::RoomPowerLevels(
            c.redact(version),
        ),
        AnyStateEventContent::Custom { event_type, payload: _ } => {
            let mut empty: Vec<u8> = Vec::new();
            empty.push(0x7b);
            empty.push(0x7d);
            proof {
                assert(empty@ =~= seq![0x7bu8, 0x7du8]);
            }
            AnyRedactedStateEventContent::Custom {
                event_type,
                payload: RawPayload::wrap(empty),
            }
        },
    }
}

} // verus!
