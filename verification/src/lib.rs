//! Decoder and executor for OTA update payload files.
//!
//! A payload file carries a fixed 24-byte header, a serialized manifest
//! describing per-partition update operations, and a data region holding
//! raw or compressed block payloads.  This crate parses the header, frames
//! the manifest bytes, and replays a partition's operations against the
//! data region to reconstruct the partition image byte for byte.
//!
//! Decoding the manifest bytes against the wire schema is the caller's
//! part: the crate says exactly which bytes form the manifest, and takes
//! the decoded entities back as plain values.

pub mod codec;
pub mod manifest;
pub mod payload;
