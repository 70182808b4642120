//! Typed wire bindings for a federated real-time-communication protocol.
//!
//! The crate models the pieces needed to bind strongly-typed request and
//! response values to HTTP messages across several coexisting protocol
//! versions, together with the power-level authorization rules that sit on
//! top of versioned, redactable event payloads:
//!
//! - [`json`], [`json_out`] and [`json_parse`]: a small JSON document model
//!   with a verified serializer and parser over raw bytes.
//! - [`raw`]: a byte-exact payload container with lazy typed reinterpretation.
//! - [`power_levels`]: the `m.room.power_levels` content model, its redacted
//!   form, and the capability queries derived from it.
//! - [`power_codec`]: the default-aware encoding and decoding of that
//!   content, with its round-trip law.
//! - [`content`]: the forward-compatible event-content union and its
//!   redaction rules.
//! - [`metadata`] and [`http_msg`]: per-endpoint wire metadata,
//!   version-aware path resolution, and plain HTTP message values.
//! - [`state_event`] and [`create_invite`]: two endpoint bindings built on
//!   those pieces.

pub mod content;
pub mod create_invite;
pub mod http_msg;
pub mod json;
pub mod json_out;
pub mod json_parse;
pub mod metadata;
pub mod power_codec;
pub mod power_levels;
pub mod raw;
pub mod state_event;
