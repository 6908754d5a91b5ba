//! `ProstUuid`: a 16-byte UUID that travels as the protobuf message
//! `uuid.Uuid { bytes value = 1; }`, with its wire encoding, its decoding
//! and its RFC 9562 checks verified.
//!
//! On the wire the UUID is its 16 raw bytes in a `bytes` field (18 bytes in
//! all); as text it is the lowercase hyphenated form of RFC 9562 §4.

use vstd::prelude::*;

pub mod error;
pub mod id;
pub mod message;
pub mod text;
pub mod wire;

pub use error::{Error, TextError, Variant};
pub use id::ProstUuid;
pub use message::{DecodeFailure, FailureKind};
pub use wire::WireType;

verus! {

/// Field number of `bytes value` inside the `uuid.Uuid` message.
pub const VALUE_TAG: u32 = 1;

/// Size of a UUID in bytes.
pub const UUID_LEN: usize = 16;

/// The `uuid.proto` definition this crate implements, for `build.rs` scripts
/// that want to write it out and compile against it.
pub const PROTO_FILE: &'static str = "syntax = \"proto3\";\npackage uuid;\n\nmessage Uuid {\n  bytes value = 1;\n}\n";

} // verus!
