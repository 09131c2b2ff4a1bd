//! Typed entities of a decoded payload manifest, and the error taxonomy.

use vstd::prelude::*;

verus! {

/// One contiguous block range inside a partition image.
#[derive(Clone, Copy, Debug, PartialEq, Eq, Structural)]
pub struct Extent {
    pub start_block: u64,
    pub num_blocks: u64,
}

/// The kind of one update operation.  Only the four kinds below are
/// replayed; every other wire code is carried as `Unsupported` so that
/// the error can name it.
#[derive(Clone, Copy, Debug, PartialEq, Eq, Structural)]
pub enum OpKind {
    /// Copy the source window verbatim.
    Replace,
    /// Decompress the source window as an xz-framed stream.
    ReplaceXz,
    /// Decompress the source window as a bzip2-framed stream.
    ReplaceBz,
    /// Write zero bytes; reads nothing from the data region.
    Zero,
    /// Any other wire code.
    Unsupported(i32),
}

/// One instruction turning a window of the data region into a contiguous
/// piece of the output partition image.
#[derive(Clone, Debug)]
pub struct Operation {
    pub kind: OpKind,
    /// Start of the source window, relative to the data region.
    pub data_offset: u64,
    /// Exact byte count of the source window.
    pub data_length: u64,
    /// Destination block ranges; a well-formed operation has at least one.
    pub dst_extents: Vec<Extent>,
}

/// One partition's update: its name, its declared size if any, and its
/// operations in the order they must be replayed.
#[derive(Clone, Debug)]
pub struct PartitionUpdate {
    pub partition_name: String,
    pub size: Option<u64>,
    pub operations: Vec<Operation>,
}

/// The decoded manifest: partitions in file order.
#[derive(Clone, Debug)]
pub struct Manifest {
    pub partitions: Vec<PartitionUpdate>,
}

/// A row of the partition listing: the name and the declared size,
/// zero when the partition declares none.
#[derive(Clone, Debug)]
pub struct PartitionEntry {
    pub name: String,
    pub size: u64,
}

/// The declared size of a partition, defaulting to zero.
pub open spec fn declared_size(p: PartitionUpdate) -> u64 {
    match p.size {
        Some(s) => s,
        None => 0u64,
    }
}

/// Everything that can go wrong while decoding or replaying a payload.
#[derive(Clone, Debug, PartialEq)]
pub enum PayloadError {
    /// The first four bytes of the payload are not the required magic.
    InvalidMagic,
    /// The header's version is not the single supported value.
    UnsupportedVersion,
    /// The manifest bytes did not decode against the wire schema.
    ManifestDecode,
    /// The payload ends before a region that had to be read: the header,
    /// the manifest bytes, or an operation's source window.
    ShortInput,
    /// An operation declares no destination extents.
    InvalidDstExtents,
    /// An operation of a kind this decoder does not replay; carries the
    /// wire code that was encountered.
    UnsupportedOperation(i32),
    /// The zero-fill byte count of an operation cannot be produced.
    ZeroFillMismatch,
    /// A compressed source window failed to decompress.
    CodecError,
    /// No partition matched the requested name after a full scan; carries
    /// the requested name and the source path.
    NotFound(String, String),
}

} // verus!
