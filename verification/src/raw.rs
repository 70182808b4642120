//! The raw payload container: a byte-exact JSON holder with lazy typed
//! reinterpretation.
//!
//! A [`RawPayload`] owns an immutable byte sequence.  Wrapping performs no
//! validation against any target type; serializing returns the stored
//! bytes exactly, whatever unknown fields, member order or numeric
//! spellings they contain; and a payload can be reinterpreted repeatedly,
//! against different targets, without ever being changed by a failed or
//! successful attempt.

use vstd::prelude::*;

use crate::json::JsonValue;
use crate::json_parse::spec_parse_json;
use crate::power_codec::{spl_of_json, spl_to_json, encode_power_levels, power_levels_from_json};
use crate::power_levels::RoomPowerLevelsEventContent;

verus! {

/// Why a typed reinterpretation of a payload failed.  A failure is local
/// to the one attempt: the payload itself is unchanged and may be
/// reinterpreted again, against the same target or another.
#[derive(Debug)]
pub enum DeserializeError {
    /// The bytes are not well-formed JSON.
    Syntax,
    /// The bytes are well-formed JSON but do not fit the target type.
    Schema,
}

/// An immutable, byte-exact payload.  Its abstraction is the stored byte
/// sequence.
#[derive(Debug)]
pub struct RawPayload {
    bytes: Vec<u8>,
}

impl View for RawPayload {
    type V = Seq<u8>;

    closed spec fn view(&self) -> Seq<u8> {
        self.bytes@
    }
}

impl RawPayload {
    /// Stores `bytes` verbatim, validating nothing.
    pub fn wrap(bytes: Vec<u8>) -> (r: Self)
        ensures
            r@ == bytes@,
    {
        RawPayload { bytes }
    }

    /// Stores the canonical serialization of the document `v`; from now
    /// on those canonical bytes are the authoritative form.
    pub fn from_value(v: &JsonValue) -> (r: Self)
        ensures
            r@ == crate::json_out::ser_json(v@),
    {
        RawPayload { bytes: crate::json_out::to_json_bytes(v) }
    }

    /// Stores the canonical serialization of a power-levels content.
    pub fn from_power_levels(c: &RoomPowerLevelsEventContent) -> (r: Self)
        ensures
            r@ == crate::json_out::ser_json(spl_to_json(c@)),
    {
        RawPayload { bytes: encode_power_levels(c) }
    }

    /// Returns the stored bytes, exactly as they were wrapped or first
    /// produced — unknown fields, member order and numeric spellings
    /// included.
    pub fn serialize(&self) -> (out: Vec<u8>)
        ensures
            out@ == self@,
    {
        crate::json_parse::copy_range(self.bytes.as_slice(), 0, self.bytes.len())
    }

    /// The stored bytes, borrowed.
    pub fn as_bytes(&self) -> (out: &[u8])
        ensures
            out@ == self@,
    {
        self.bytes.as_slice()
    }

    /// The number of stored bytes.
    pub fn len(&self) -> (n: usize)
        ensures
            n == self@.len(),
    {
        self.bytes.len()
    }

    /// Reinterprets the stored bytes as a JSON document, without
    /// changing them.
    pub fn deserialize_json(&self) -> (r: Result<JsonValue, DeserializeError>)
        ensures
            match r {
                Ok(v) => spec_parse_json(self@) == Some(v@),
                Err(e) => spec_parse_json(self@) is None && e is Syntax,
            },
    {
        match crate::json_parse::parse_json(self.bytes.as_slice()) {
            Some(v) => Ok(v),
            None => Err(DeserializeError::Syntax),
        }
    }

    /// Reinterprets the stored bytes as a power-levels content, without
    /// changing them: the bytes must be well-formed JSON (else
    /// `Syntax`) denoting a well-formed content object (else `Schema`).
    pub fn deserialize_power_levels(&self) -> (r: Result<
        RoomPowerLevelsEventContent,
        DeserializeError,
    >)
        ensures
            match r {
                Ok(c) => spec_parse_json(self@) matches Some(d) && spl_of_json(d) == Some(c@),
                Err(e) => match e {
                    DeserializeError::Syntax => spec_parse_json(self@) is None,
                    DeserializeError::Schema => spec_parse_json(self@) matches Some(d)
                        && spl_of_json(d) is None,
                },
            },
    {
        let v = match crate::json_parse::parse_json(self.bytes.as_slice()) {
            Some(v) => v,
            None => {
                return Err(DeserializeError::Syntax);
            },
        };
        match power_levels_from_json(&v) {
            Some(c) => Ok(c),
            None => Err(DeserializeError::Schema),
        }
    }
}

} // verus!
