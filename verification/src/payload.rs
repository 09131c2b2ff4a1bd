//! The payload session: header parsing, manifest framing, and the
//! operation-replay engine that reconstructs a partition image.

use vstd::prelude::*;

use crate::codec::{bz_decoded, bz_decompress, xz_decoded, xz_decompress};
use crate::manifest::{
    declared_size,
    Manifest,
    OpKind,
    Operation,
    PartitionEntry,
    PartitionUpdate,
    PayloadError,
};
use vstd::string::StringExecFns;

verus! {

/// Fixed block granularity: block counts convert to byte counts at this size.
pub const BLOCK_SIZE: u64 = 4096;

/// Byte count of the fixed framing header.
pub const PAYLOAD_HEADER_SIZE: u64 = 24;

/// The single supported major payload version.
pub const BRILLO_MAJOR_PAYLOAD_VERSION: u64 = 2;

/// The fixed 24-byte framing header, with the offsets derived from it.
#[derive(Clone, Copy, Debug, PartialEq, Eq, Structural)]
pub struct PayloadHeader {
    /// Major payload version; always the supported value once parsed.
    pub version: u64,
    /// Byte count of the fixed header itself.
    pub size: u64,
    /// Byte count of the manifest region that follows the header.
    pub manifest_len: u64,
    /// Byte count of the signature block that follows the manifest.
    pub signature_len: u32,
    /// Header plus manifest: where the signature block starts.
    pub metadata_size: u64,
    /// Where the data region starts; operation offsets are relative to it.
    pub data_offset: u64,
}

/// A payload decoding session: the source bytes, the source path kept for
/// error reporting, and the header and manifest once parsed.
pub struct Payload {
    pub path: String,
    pub data: Vec<u8>,
    pub header: Option<PayloadHeader>,
    pub manifest: Option<Manifest>,
}

/// The big-endian unsigned 64-bit value of the eight bytes at `off`.
pub open spec fn be64_at(data: Seq<u8>, off: int) -> u64
    recommends
        0 <= off,
        off + 8 <= data.len(),
{
    ((data[off] as u64) << 56) | ((data[off + 1] as u64) << 48) | ((data[off + 2] as u64) << 40)
        | ((data[off + 3] as u64) << 32) | ((data[off + 4] as u64) << 24) | ((data[off + 5] as u64)
        << 16) | ((data[off + 6] as u64) << 8) | (data[off + 7] as u64)
}

/// The big-endian unsigned 32-bit value of the four bytes at `off`.
pub open spec fn be32_at(data: Seq<u8>, off: int) -> u32
    recommends
        0 <= off,
        off + 4 <= data.len(),
{
    ((data[off] as u32) << 24) | ((data[off + 1] as u32) << 16) | ((data[off + 2] as u32) << 8) | (
    data[off + 3] as u32)
}

/// Whether the payload opens with the required four magic bytes `CrAU`.
pub open spec fn magic_ok(data: Seq<u8>) -> bool {
    &&& data.len() >= 4
    &&& data[0] == 0x43u8
    &&& data[1] == 0x72u8
    &&& data[2] == 0x41u8
    &&& data[3] == 0x55u8
}

/// What parsing the fixed header of `data` yields: the checks run in file
/// order (magic, then version, then the two length fields), each region
/// must be present before it is read, and the derived offsets must fit in
/// an unsigned 64-bit value.
pub open spec fn header_parse(data: Seq<u8>) -> Result<PayloadHeader, PayloadError> {
    if data.len() < 4 {
        Err(PayloadError::ShortInput)
    } else if !magic_ok(data) {
        Err(PayloadError::InvalidMagic)
    } else if data.len() < 12 {
        Err(PayloadError::ShortInput)
    } else if be64_at(data, 4) != BRILLO_MAJOR_PAYLOAD_VERSION {
        Err(PayloadError::UnsupportedVersion)
    } else if data.len() < 24 {
        Err(PayloadError::ShortInput)
    } else {
        let manifest_len = be64_at(data, 12);
        let signature_len = be32_at(data, 20);
        if PAYLOAD_HEADER_SIZE + manifest_len + signature_len > u64::MAX {
            Err(PayloadError::ShortInput)
        } else {
            Ok(
                PayloadHeader {
                    version: BRILLO_MAJOR_PAYLOAD_VERSION,
                    size: PAYLOAD_HEADER_SIZE,
                    manifest_len,
                    signature_len,
                    metadata_size: (PAYLOAD_HEADER_SIZE + manifest_len) as u64,
                    data_offset: (PAYLOAD_HEADER_SIZE + manifest_len + signature_len) as u64,
                },
            )
        }
    }
}

/// Whether an operation's source window lies inside the payload: the
/// window starts at the operation's offset into the data region and is
/// exactly `data_length` bytes long.
pub open spec fn window_in_bounds(op: Operation, h: PayloadHeader, data: Seq<u8>) -> bool {
    h.data_offset + op.data_offset + op.data_length <= data.len()
}

/// The source window of an operation: the `data_length` bytes starting
/// at `data_offset` into the data region.
pub open spec fn window_of(op: Operation, h: PayloadHeader, data: Seq<u8>) -> Seq<u8>
    recommends
        window_in_bounds(op, h, data),
{
    data.subrange(
        h.data_offset + op.data_offset,
        h.data_offset + op.data_offset + op.data_length,
    )
}

/// The byte count a zero-fill operation must write: the block count of
/// the first destination extent times the fixed block size.
pub open spec fn zero_fill_len(op: Operation) -> int
    recommends
        op.dst_extents.len() > 0,
{
    op.dst_extents[0].num_blocks * BLOCK_SIZE
}

/// What one operation contributes to the output image, or the exact
/// error it fails with: an operation must name at least one destination
/// extent; the three window kinds need their whole source window inside
/// the payload; a zero-fill reads nothing and yields its byte count of
/// zeros, failing only where that count cannot be represented; every
/// other kind is rejected with its wire code.
pub open spec fn op_piece(op: Operation, h: PayloadHeader, data: Seq<u8>) -> Result<
    Seq<u8>,
    PayloadError,
> {
    if op.dst_extents.len() == 0 {
        Err(PayloadError::InvalidDstExtents)
    } else {
        match op.kind {
            OpKind::Replace => if window_in_bounds(op, h, data) {
                Ok(window_of(op, h, data))
            } else {
                Err(PayloadError::ShortInput)
            },
            OpKind::ReplaceXz => if window_in_bounds(op, h, data) {
                match xz_decoded(window_of(op, h, data)) {
                    Some(plain) => Ok(plain),
                    None => Err(PayloadError::CodecError),
                }
            } else {
                Err(PayloadError::ShortInput)
            },
            OpKind::ReplaceBz => if window_in_bounds(op, h, data) {
                match bz_decoded(window_of(op, h, data)) {
                    Some(plain) => Ok(plain),
                    None => Err(PayloadError::CodecError),
                }
            } else {
                Err(PayloadError::ShortInput)
            },
            OpKind::Zero => if zero_fill_len(op) <= u64::MAX {
                Ok(Seq::new(zero_fill_len(op) as nat, |i: int| 0u8))
            } else {
                Err(PayloadError::ZeroFillMismatch)
            },
            OpKind::Unsupported(code) => Err(PayloadError::UnsupportedOperation(code)),
        }
    }
}

/// The image built by the first `n` operations in order: the
/// concatenation of their pieces, or the error of the first operation
/// that fails.
pub open spec fn replay_prefix(
    ops: Seq<Operation>,
    h: PayloadHeader,
    data: Seq<u8>,
    n: int,
) -> Result<Seq<u8>, PayloadError>
    recommends
        n <= ops.len(),
    decreases n,
{
    if n <= 0 {
        Ok(Seq::empty())
    } else {
        match replay_prefix(ops, h, data, n - 1) {
            Ok(acc) => match op_piece(ops[n - 1], h, data) {
                Ok(piece) => Ok(acc + piece),
                Err(e) => Err(e),
            },
            Err(e) => Err(e),
        }
    }
}

/// The image built by replaying all operations of a partition in order.
pub open spec fn replay(ops: Seq<Operation>, h: PayloadHeader, data: Seq<u8>) -> Result<
    Seq<u8>,
    PayloadError,
> {
    replay_prefix(ops, h, data, ops.len() as int)
}

/// Once a prefix of the operations has failed, every longer prefix fails
/// with the same error.
pub proof fn lemma_replay_error_persists(
    ops: Seq<Operation>,
    h: PayloadHeader,
    data: Seq<u8>,
    m: int,
    n: int,
)
    requires
        0 <= m <= n,
        replay_prefix(ops, h, data, m) is Err,
    ensures
        replay_prefix(ops, h, data, n) == replay_prefix(ops, h, data, m),
    decreases n - m,
{
    if m < n {
        lemma_replay_error_persists(ops, h, data, m, n - 1);
    }
}

/// The image an optional extraction result stands for.
pub open spec fn image_of(found: Option<Vec<u8>>) -> Option<Seq<u8>> {
    match found {
        Some(v) => Some(v@),
        None => None,
    }
}

/// What a full scan of the first `n` partitions for `name` yields: the
/// image of the last match replayed so far (every match is replayed, in
/// manifest order), `None` where none matched yet, or the error of the
/// first replay that fails.
pub open spec fn scan_prefix(
    parts: Seq<PartitionUpdate>,
    name: Seq<char>,
    h: PayloadHeader,
    data: Seq<u8>,
    n: int,
) -> Result<Option<Seq<u8>>, PayloadError>
    recommends
        n <= parts.len(),
    decreases n,
{
    if n <= 0 {
        Ok(None)
    } else {
        match scan_prefix(parts, name, h, data, n - 1) {
            Ok(prev) => if parts[n - 1].partition_name@ == name {
                match replay(parts[n - 1].operations@, h, data) {
                    Ok(img) => Ok(Some(img)),
                    Err(e) => Err(e),
                }
            } else {
                Ok(prev)
            },
            Err(e) => Err(e),
        }
    }
}

/// What scanning every partition for `name` yields.
pub open spec fn scan_partitions(
    parts: Seq<PartitionUpdate>,
    name: Seq<char>,
    h: PayloadHeader,
    data: Seq<u8>,
) -> Result<Option<Seq<u8>>, PayloadError> {
    scan_prefix(parts, name, h, data, parts.len() as int)
}

/// A failing operation never reports a missing partition: that error is
/// reserved for a scan that ends with zero matches.
pub proof fn lemma_op_piece_err_not_notfound(op: Operation, h: PayloadHeader, data: Seq<u8>)
    ensures
        match op_piece(op, h, data) {
            Err(e) => !(e is NotFound),
            Ok(_) => true,
        },
{
}

/// A failing replay never reports a missing partition.
pub proof fn lemma_replay_err_not_notfound(
    ops: Seq<Operation>,
    h: PayloadHeader,
    data: Seq<u8>,
    n: int,
)
    ensures
        match replay_prefix(ops, h, data, n) {
            Err(e) => !(e is NotFound),
            Ok(_) => true,
        },
    decreases n,
{
    if n > 0 {
        lemma_replay_err_not_notfound(ops, h, data, n - 1);
        lemma_op_piece_err_not_notfound(ops[n - 1], h, data);
    }
}

/// A failing scan never reports a missing partition.
pub proof fn lemma_scan_err_not_notfound(
    parts: Seq<PartitionUpdate>,
    name: Seq<char>,
    h: PayloadHeader,
    data: Seq<u8>,
    n: int,
)
    ensures
        match scan_prefix(parts, name, h, data, n) {
            Err(e) => !(e is NotFound),
            Ok(_) => true,
        },
    decreases n,
{
    if n > 0 {
        lemma_scan_err_not_notfound(parts, name, h, data, n - 1);
        lemma_replay_err_not_notfound(
            parts[n - 1].operations@,
            h,
            data,
            parts[n - 1].operations@.len() as int,
        );
    }
}

/// Once a prefix of the scan has failed, every longer prefix fails with
/// the same error.
pub proof fn lemma_scan_error_persists(
    parts: Seq<PartitionUpdate>,
    name: Seq<char>,
    h: PayloadHeader,
    data: Seq<u8>,
    m: int,
    n: int,
)
    requires
        0 <= m <= n,
        scan_prefix(parts, name, h, data, m) is Err,
    ensures
        scan_prefix(parts, name, h, data, n) == scan_prefix(parts, name, h, data, m),
    decreases n - m,
{
    if m < n {
        lemma_scan_error_persists(parts, name, h, data, m, n - 1);
    }
}

/// A payload whose first four bytes are not the required magic fails
/// header parsing with the magic error — before the version or the
/// length fields are even read, so no manifest read can follow: handing
/// out manifest bytes needs a parsed header.
pub proof fn lemma_bad_magic_rejected(data: Seq<u8>)
    requires
        data.len() >= 4,
        !magic_ok(data),
    ensures
        header_parse(data) == Err::<PayloadHeader, PayloadError>(PayloadError::InvalidMagic),
{
}

/// Replaying a single operation yields exactly that operation's piece.
pub proof fn lemma_replay_single(op: Operation, h: PayloadHeader, data: Seq<u8>)
    ensures
        replay(seq![op], h, data) == (match op_piece(op, h, data) {
            Ok(piece) => Ok::<Seq<u8>, PayloadError>(piece),
            Err(e) => Err::<Seq<u8>, PayloadError>(e),
        }),
{
    let ops = seq![op];
    assert(ops[0] == op);
    assert(replay_prefix(ops, h, data, 0) == Ok::<Seq<u8>, PayloadError>(Seq::empty()));
    match op_piece(op, h, data) {
        Ok(piece) => {
            assert(Seq::empty() + piece =~= piece);
        },
        Err(_) => {
        },
    }
}

/// A Replace operation contributes exactly the raw source bytes of its
/// window, the `data_length` bytes at `data_offset` into the data region.
pub proof fn lemma_replace_exact(op: Operation, h: PayloadHeader, data: Seq<u8>)
    requires
        op.kind == OpKind::Replace,
        op.dst_extents.len() > 0,
        window_in_bounds(op, h, data),
    ensures
        op_piece(op, h, data) == Ok::<Seq<u8>, PayloadError>(window_of(op, h, data)),
        replay(seq![op], h, data) == Ok::<Seq<u8>, PayloadError>(window_of(op, h, data)),
{
    lemma_replay_single(op, h, data);
}

/// A ReplaceXz operation whose window decompresses contributes exactly
/// that decompression.
pub proof fn lemma_replace_xz_exact(op: Operation, h: PayloadHeader, data: Seq<u8>)
    requires
        op.kind == OpKind::ReplaceXz,
        op.dst_extents.len() > 0,
        window_in_bounds(op, h, data),
        xz_decoded(window_of(op, h, data)) is Some,
    ensures
        op_piece(op, h, data) == Ok::<Seq<u8>, PayloadError>(
            xz_decoded(window_of(op, h, data))->0,
        ),
        replay(seq![op], h, data) == Ok::<Seq<u8>, PayloadError>(
            xz_decoded(window_of(op, h, data))->0,
        ),
{
    lemma_replay_single(op, h, data);
}

/// A ReplaceBz operation whose window decompresses contributes exactly
/// that decompression.
pub proof fn lemma_replace_bz_exact(op: Operation, h: PayloadHeader, data: Seq<u8>)
    requires
        op.kind == OpKind::ReplaceBz,
        op.dst_extents.len() > 0,
        window_in_bounds(op, h, data),
        bz_decoded(window_of(op, h, data)) is Some,
    ensures
        op_piece(op, h, data) == Ok::<Seq<u8>, PayloadError>(
            bz_decoded(window_of(op, h, data))->0,
        ),
        replay(seq![op], h, data) == Ok::<Seq<u8>, PayloadError>(
            bz_decoded(window_of(op, h, data))->0,
        ),
{
    lemma_replay_single(op, h, data);
}

/// A Zero operation contributes exactly `num_blocks` of its first
/// destination extent times the block size in zero bytes; a count that
/// cannot be represented is the zero-fill error.
pub proof fn lemma_zero_exact(op: Operation, h: PayloadHeader, data: Seq<u8>)
    requires
        op.kind == OpKind::Zero,
        op.dst_extents.len() > 0,
    ensures
        zero_fill_len(op) <= u64::MAX ==> op_piece(op, h, data) == Ok::<Seq<u8>, PayloadError>(
            Seq::new(zero_fill_len(op) as nat, |i: int| 0u8),
        ),
        zero_fill_len(op) > u64::MAX ==> op_piece(op, h, data) == Err::<Seq<u8>, PayloadError>(
            PayloadError::ZeroFillMismatch,
        ),
{
}

/// A scan for a name that no partition bears ends with zero matches.
pub proof fn lemma_absent_name_unmatched(
    parts: Seq<PartitionUpdate>,
    name: Seq<char>,
    h: PayloadHeader,
    data: Seq<u8>,
    n: int,
)
    requires
        n <= parts.len(),
        forall|i: int| 0 <= i < parts.len() ==> parts[i].partition_name@ != name,
    ensures
        scan_prefix(parts, name, h, data, n) == Ok::<Option<Seq<u8>>, PayloadError>(None),
    decreases n,
{
    if n > 0 {
        lemma_absent_name_unmatched(parts, name, h, data, n - 1);
    }
}

/// Extraction is deterministic: two successful scans of the same
/// partitions, name and payload bytes yield the same image, so
/// extracting the same partition twice produces byte-identical output.
pub proof fn lemma_extract_deterministic(
    parts: Seq<PartitionUpdate>,
    name: Seq<char>,
    h: PayloadHeader,
    data: Seq<u8>,
    img1: Seq<u8>,
    img2: Seq<u8>,
)
    requires
        scan_partitions(parts, name, h, data) == Ok::<Option<Seq<u8>>, PayloadError>(Some(img1)),
        scan_partitions(parts, name, h, data) == Ok::<Option<Seq<u8>>, PayloadError>(Some(img2)),
    ensures
        img1 == img2,
{
}

/// Reads the eight bytes at `off` as a big-endian unsigned 64-bit value.
fn read_be64(data: &Vec<u8>, off: usize) -> (r: u64)
    requires
        off + 8 <= data@.len(),
    ensures
        r == be64_at(data@, off as int),
{
    let n: usize = data.len();
    assert(off + 8 <= n);
    ((data[off] as u64) << 56u64) | ((data[off + 1] as u64) << 48u64) | ((data[off + 2] as u64)
        << 40u64) | ((data[off + 3] as u64) << 32u64) | ((data[off + 4] as u64) << 24u64) | ((data[off
        + 5] as u64) << 16u64) | ((data[off + 6] as u64) << 8u64) | (data[off + 7] as u64)
}

/// Reads the four bytes at `off` as a big-endian unsigned 32-bit value.
fn read_be32(data: &Vec<u8>, off: usize) -> (r: u32)
    requires
        off + 4 <= data@.len(),
    ensures
        r == be32_at(data@, off as int),
{
    let n: usize = data.len();
    assert(off + 4 <= n);
    ((data[off] as u32) << 24u32) | ((data[off + 1] as u32) << 16u32) | ((data[off + 2] as u32)
        << 8u32) | (data[off + 3] as u32)
}

/// Copies the `len` bytes of `data` starting at `start` into a fresh
/// vector.
fn copy_range(data: &Vec<u8>, start: usize, len: usize) -> (r: Vec<u8>)
    requires
        start + len <= data@.len(),
    ensures
        r@ == data@.subrange(start as int, start as int + len as int),
{
    let n: usize = data.len();
    let mut r: Vec<u8> = Vec::new();
    let mut i: usize = 0;
    while i < len
        invariant
            start + len <= n,
            n == data@.len(),
            i <= len,
            r@ == data@.subrange(start as int, start as int + i as int),
        decreases len - i,
    {
        r.push(data[start + i]);
        proof {
            assert(data@.subrange(start as int, start as int + (i + 1)) =~= data@.subrange(
                start as int,
                start as int + i as int,
            ).push(data@[start + i]));
        }
        i = i + 1;
    }
    r
}

/// Builds a vector of `count` zero bytes.
fn zero_bytes(count: u64) -> (r: Vec<u8>)
    ensures
        r@ == Seq::new(count as nat, |i: int| 0u8),
{
    let mut r: Vec<u8> = Vec::new();
    let mut i: u64 = 0;
    while i < count
        invariant
            i <= count,
            r@ == Seq::new(i as nat, |j: int| 0u8),
        decreases count - i,
    {
        r.push(0u8);
        proof {
            assert(Seq::new((i + 1) as nat, |j: int| 0u8) =~= Seq::new(i as nat, |j: int| 0u8).push(
                0u8,
            ));
        }
        i = i + 1;
    }
    r
}

/// Copies an operation's source window out of the payload, or reports
/// that the payload ends before the window does.
fn read_window(data: &Vec<u8>, h: &PayloadHeader, op: &Operation) -> (r: Result<
    Vec<u8>,
    PayloadError,
>)
    ensures
        match r {
            Ok(v) => window_in_bounds(*op, *h, data@) && v@ == window_of(*op, *h, data@),
            Err(e) => !window_in_bounds(*op, *h, data@) && e == PayloadError::ShortInput,
        },
{
    let n: usize = data.len();
    let abs = match h.data_offset.checked_add(op.data_offset) {
        Some(a) => a,
        None => {
            return Err(PayloadError::ShortInput);
        },
    };
    let end = match abs.checked_add(op.data_length) {
        Some(e) => e,
        None => {
            return Err(PayloadError::ShortInput);
        },
    };
    if end > n as u64 {
        return Err(PayloadError::ShortInput);
    }
    Ok(copy_range(data, abs as usize, op.data_length as usize))
}

/// Replays one operation against the payload, yielding the bytes it
/// contributes to the output image or the exact error it fails with.
fn apply_operation(data: &Vec<u8>, h: &PayloadHeader, op: &Operation) -> (r: Result<
    Vec<u8>,
    PayloadError,
>)
    ensures
        match r {
            Ok(v) => op_piece(*op, *h, data@) == Ok::<Seq<u8>, PayloadError>(v@),
            Err(e) => op_piece(*op, *h, data@) == Err::<Seq<u8>, PayloadError>(e),
        },
{
    if op.dst_extents.len() == 0 {
        return Err(PayloadError::InvalidDstExtents);
    }
    match op.kind {
        OpKind::Replace => read_window(data, h, op),
        OpKind::ReplaceXz => match read_window(data, h, op) {
            Ok(window) => xz_decompress(window.as_slice()),
            Err(e) => Err(e),
        },
        OpKind::ReplaceBz => match read_window(data, h, op) {
            Ok(window) => bz_decompress(window.as_slice()),
            Err(e) => Err(e),
        },
        OpKind::Zero => match op.dst_extents[0].num_blocks.checked_mul(BLOCK_SIZE) {
            Some(count) => Ok(zero_bytes(count)),
            None => Err(PayloadError::ZeroFillMismatch),
        },
        OpKind::Unsupported(code) => Err(PayloadError::UnsupportedOperation(code)),
    }
}

impl Payload {
    /// Whether both the header and the manifest of this session are set.
    pub open spec fn is_init(self) -> bool {
        &&& self.header is Some
        &&& self.manifest is Some
    }

    /// The parsed header of an initialized session.
    pub open spec fn the_header(self) -> PayloadHeader
        recommends
            self.header is Some,
    {
        self.header->0
    }

    /// Opens a session over the given source bytes; nothing is parsed yet.
    pub fn new(path: String, data: Vec<u8>) -> (p: Payload)
        ensures
            p.path == path,
            p.data == data,
            p.header is None,
            p.manifest is None,
    {
        Payload { path, data, header: None, manifest: None }
    }

    /// Parses the fixed 24-byte header from the start of the source bytes,
    /// stores it in the session and returns it; on failure the session is
    /// unchanged.
    pub fn read_header(&mut self) -> (r: Result<PayloadHeader, PayloadError>)
        ensures
            final(self).path == old(self).path,
            final(self).data == old(self).data,
            final(self).manifest == old(self).manifest,
            match r {
                Ok(h) => header_parse(old(self).data@) == Ok::<PayloadHeader, PayloadError>(h)
                    && final(self).header == Some(h),
                Err(e) => header_parse(old(self).data@) == Err::<PayloadHeader, PayloadError>(e)
                    && final(self).header == old(self).header,
            },
    {
        if self.data.len() < 4 {
            return Err(PayloadError::ShortInput);
        }
        if !(self.data[0] == 0x43u8 && self.data[1] == 0x72u8 && self.data[2] == 0x41u8
            && self.data[3] == 0x55u8) {
            return Err(PayloadError::InvalidMagic);
        }
        if self.data.len() < 12 {
            return Err(PayloadError::ShortInput);
        }
        let version = read_be64(&self.data, 4);
        if version != BRILLO_MAJOR_PAYLOAD_VERSION {
            return Err(PayloadError::UnsupportedVersion);
        }
        if self.data.len() < 24 {
            return Err(PayloadError::ShortInput);
        }
        let manifest_len = read_be64(&self.data, 12);
        let signature_len = read_be32(&self.data, 20);
        let metadata_size = match PAYLOAD_HEADER_SIZE.checked_add(manifest_len) {
            Some(m) => m,
            None => {
                return Err(PayloadError::ShortInput);
            },
        };
        let data_offset = match metadata_size.checked_add(signature_len as u64) {
            Some(d) => d,
            None => {
                return Err(PayloadError::ShortInput);
            },
        };
        let header = PayloadHeader {
            version,
            size: PAYLOAD_HEADER_SIZE,
            manifest_len,
            signature_len,
            metadata_size,
            data_offset,
        };
        self.header = Some(header);
        Ok(header)
    }

    /// Hands out the manifest bytes: exactly `manifest_len` bytes starting
    /// right after the fixed header.  The caller decodes them against the
    /// wire schema and hands the entities back through `set_manifest`.
    pub fn manifest_bytes(&self) -> (r: Result<Vec<u8>, PayloadError>)
        requires
            self.header is Some,
        ensures
            match r {
                Ok(v) => PAYLOAD_HEADER_SIZE + self.the_header().manifest_len <= self.data@.len()
                    && v@ == self.data@.subrange(
                    PAYLOAD_HEADER_SIZE as int,
                    PAYLOAD_HEADER_SIZE + self.the_header().manifest_len,
                ),
                Err(e) => PAYLOAD_HEADER_SIZE + self.the_header().manifest_len > self.data@.len()
                    && e == PayloadError::ShortInput,
            },
    {
        let n: usize = self.data.len();
        let h = self.header.unwrap();
        let end = match PAYLOAD_HEADER_SIZE.checked_add(h.manifest_len) {
            Some(e) => e,
            None => {
                return Err(PayloadError::ShortInput);
            },
        };
        if end > n as u64 {
            return Err(PayloadError::ShortInput);
        }
        Ok(copy_range(&self.data, PAYLOAD_HEADER_SIZE as usize, h.manifest_len as usize))
    }

    /// Installs the decoded manifest entities into the session.
    pub fn set_manifest(&mut self, manifest: Manifest)
        ensures
            final(self).path == old(self).path,
            final(self).data == old(self).data,
            final(self).header == old(self).header,
            final(self).manifest == Some(manifest),
    {
        self.manifest = Some(manifest);
    }

    /// Whether both the header and the manifest have been installed.
    pub fn is_initialized(&self) -> (b: bool)
        ensures
            b == self.is_init(),
    {
        self.header.is_some() && self.manifest.is_some()
    }

    /// Replays one partition's operations strictly in manifest order,
    /// returning the reconstructed image: the concatenation of each
    /// operation's contribution, or the error of the first operation
    /// that fails.
    pub fn extract_selected(&self, partition: &PartitionUpdate) -> (r: Result<
        Vec<u8>,
        PayloadError,
    >)
        requires
            self.header is Some,
        ensures
            match r {
                Ok(v) => replay(partition.operations@, self.the_header(), self.data@)
                    == Ok::<Seq<u8>, PayloadError>(v@),
                Err(e) => replay(partition.operations@, self.the_header(), self.data@)
                    == Err::<Seq<u8>, PayloadError>(e),
            },
    {
        let h = self.header.unwrap();
        let ops = &partition.operations;
        let mut out: Vec<u8> = Vec::new();
        let mut idx: usize = 0;
        while idx < ops.len()
            invariant
                idx <= ops@.len(),
                ops@ == partition.operations@,
                self.header is Some,
                h == self.the_header(),
                replay_prefix(ops@, h, self.data@, idx as int) == Ok::<Seq<u8>, PayloadError>(
                    out@,
                ),
            decreases ops@.len() - idx,
        {
            let mut piece = match apply_operation(&self.data, &h, &ops[idx]) {
                Ok(p) => p,
                Err(e) => {
                    proof {
                        assert(replay_prefix(ops@, h, self.data@, idx as int + 1)
                            == Err::<Seq<u8>, PayloadError>(e));
                        lemma_replay_error_persists(
                            ops@,
                            h,
                            self.data@,
                            idx as int + 1,
                            ops@.len() as int,
                        );
                    }
                    return Err(e);
                },
            };
            out.append(&mut piece);
            idx = idx + 1;
        }
        Ok(out)
    }

    /// Scans the manifest for exact matches of the requested name, in
    /// manifest order, replaying every match; returns the image of the
    /// last match, the error of the first replay that fails, or — only
    /// where the scan ends with zero matches — a not-found error naming
    /// the requested partition and the source path.
    pub fn extract(&self, partition_to_extract: &str) -> (r: Result<Vec<u8>, PayloadError>)
        requires
            self.is_init(),
        ensures
            ({
                let s = scan_partitions(
                    self.manifest->0.partitions@,
                    partition_to_extract@,
                    self.the_header(),
                    self.data@,
                );
                match r {
                    Ok(v) => s == Ok::<Option<Seq<u8>>, PayloadError>(Some(v@)),
                    Err(e) => match e {
                        PayloadError::NotFound(name, path) => s == Ok::<
                            Option<Seq<u8>>,
                            PayloadError,
                        >(None) && name@ == partition_to_extract@ && path@ == self.path@,
                        _ => s == Err::<Option<Seq<u8>>, PayloadError>(e),
                    },
                }
            }),
    {
        let h = self.header.unwrap();
        let manifest = self.manifest.as_ref().unwrap();
        let parts = &manifest.partitions;
        let want: String = String::from_str(partition_to_extract);
        let mut found: Option<Vec<u8>> = None;
        let mut i: usize = 0;
        while i < parts.len()
            invariant
                i <= parts@.len(),
                parts@ == self.manifest->0.partitions@,
                self.header is Some,
                self.manifest is Some,
                h == self.the_header(),
                want@ == partition_to_extract@,
                scan_prefix(parts@, partition_to_extract@, h, self.data@, i as int) == Ok::<
                    Option<Seq<u8>>,
                    PayloadError,
                >(image_of(found)),
            decreases parts@.len() - i,
        {
            let p = &parts[i];
            if p.partition_name == want {
                match self.extract_selected(p) {
                    Ok(img) => {
                        found = Some(img);
                    },
                    Err(e) => {
                        proof {
                            assert(scan_prefix(
                                parts@,
                                partition_to_extract@,
                                h,
                                self.data@,
                                i as int + 1,
                            ) == Err::<Option<Seq<u8>>, PayloadError>(e));
                            lemma_scan_error_persists(
                                parts@,
                                partition_to_extract@,
                                h,
                                self.data@,
                                i as int + 1,
                                parts@.len() as int,
                            );
                            lemma_replay_err_not_notfound(
                                parts@[i as int].operations@,
                                h,
                                self.data@,
                                parts@[i as int].operations@.len() as int,
                            );
                        }
                        return Err(e);
                    },
                }
            }
            i = i + 1;
        }
        match found {
            Some(v) => Ok(v),
            None => Err(
                PayloadError::NotFound(String::from_str(partition_to_extract), self.path.clone()),
            ),
        }
    }

    /// Lists every partition of the manifest, in manifest order, each
    /// with its declared size in bytes, zero where it declares none; an
    /// empty manifest yields an empty listing.
    pub fn get_partition_list(&self) -> (r: Result<Vec<PartitionEntry>, PayloadError>)
        requires
            self.manifest is Some,
        ensures
            ({
                let parts = self.manifest->0.partitions@;
                match r {
                    Ok(entries) => entries@.len() == parts.len() && forall|i: int|
                        0 <= i < parts.len() ==> (#[trigger] entries@[i]).name@
                            == parts[i].partition_name@ && entries@[i].size == declared_size(
                            parts[i],
                        ),
                    Err(_) => false,
                }
            }),
    {
        let manifest = self.manifest.as_ref().unwrap();
        let parts = &manifest.partitions;
        let mut entries: Vec<PartitionEntry> = Vec::new();
        let mut i: usize = 0;
        while i < parts.len()
            invariant
                i <= parts@.len(),
                parts@ == self.manifest->0.partitions@,
                self.manifest is Some,
                entries@.len() == i,
                forall|j: int|
                    0 <= j < i ==> (#[trigger] entries@[j]).name@ == parts@[j].partition_name@
                        && entries@[j].size == declared_size(parts@[j]),
            decreases parts@.len() - i,
        {
            let p = &parts[i];
            let size = match p.size {
                Some(s) => s,
                None => 0u64,
            };
            entries.push(PartitionEntry { name: p.partition_name.clone(), size });
            i = i + 1;
        }
        Ok(entries)
    }
}

} // verus!
