use payload_dumper::manifest::{
    Extent, Manifest, OpKind, Operation, PartitionUpdate, PayloadError,
};
use payload_dumper::payload::Payload;

fn be64(v: u64) -> [u8; 8] {
    v.to_be_bytes()
}

fn be32(v: u32) -> [u8; 4] {
    v.to_be_bytes()
}

/// A well-formed 24-byte header followed by `manifest_len` filler bytes
/// and the given data region.
fn build_payload(manifest_len: u64, signature_len: u32, region: &[u8]) -> Vec<u8> {
    let mut d: Vec<u8> = Vec::new();
    d.extend_from_slice(b"CrAU");
    d.extend_from_slice(&be64(2));
    d.extend_from_slice(&be64(manifest_len));
    d.extend_from_slice(&be32(signature_len));
    for i in 0..manifest_len {
        d.push((i % 251) as u8);
    }
    for _ in 0..signature_len {
        d.push(0xee);
    }
    d.extend_from_slice(region);
    d
}

fn one_partition(name: &str, size: Option<u64>, operations: Vec<Operation>) -> Manifest {
    Manifest {
        partitions: vec![PartitionUpdate {
            partition_name: name.to_string(),
            size,
            operations,
        }],
    }
}

fn replace_op(data_offset: u64, data_length: u64, extents: Vec<Extent>) -> Operation {
    Operation {
        kind: OpKind::Replace,
        data_offset,
        data_length,
        dst_extents: extents,
    }
}

fn session(manifest_len: u64, signature_len: u32, region: &[u8], m: Manifest) -> Payload {
    let data = build_payload(manifest_len, signature_len, region);
    let mut p = Payload::new("payload.bin".to_string(), data);
    p.read_header().expect("header must parse");
    p.set_manifest(m);
    p
}

fn xz_compress(plain: &[u8]) -> Vec<u8> {
    let mut out = Vec::new();
    std::io::Read::read_to_end(&mut xz2::read::XzEncoder::new(plain, 6), &mut out).unwrap();
    out
}

fn bz_compress(plain: &[u8]) -> Vec<u8> {
    let mut out = Vec::new();
    std::io::Read::read_to_end(
        &mut bzip2::read::BzEncoder::new(plain, bzip2::Compression::default()),
        &mut out,
    )
    .unwrap();
    out
}

#[test]
fn parses_valid_header() {
    let data = build_payload(10, 3, &[1, 2, 3]);
    let mut p = Payload::new("payload.bin".to_string(), data);
    let h = p.read_header().expect("well-formed header");
    assert_eq!(h.version, 2);
    assert_eq!(h.size, 24);
    assert_eq!(h.manifest_len, 10);
    assert_eq!(h.signature_len, 3);
    assert_eq!(h.metadata_size, 34);
    assert_eq!(h.data_offset, 37);
    assert!(p.is_initialized() == false);
}

#[test]
fn bad_magic_fails_before_anything_else() {
    let mut data = build_payload(10, 0, &[]);
    data[0] = b'X';
    let mut p = Payload::new("payload.bin".to_string(), data);
    assert_eq!(p.read_header().unwrap_err(), PayloadError::InvalidMagic);
    // the session never reached a parsed header, so no manifest bytes
    // can be handed out: nothing past the magic was consumed
    assert!(!p.is_initialized());
}

#[test]
fn unsupported_version_is_rejected() {
    let mut data = build_payload(0, 0, &[]);
    data[4..12].copy_from_slice(&be64(1));
    let mut p = Payload::new("payload.bin".to_string(), data);
    assert_eq!(
        p.read_header().unwrap_err(),
        PayloadError::UnsupportedVersion
    );
}

#[test]
fn truncated_header_is_rejected() {
    let mut p = Payload::new("payload.bin".to_string(), b"CrAU\x00\x00".to_vec());
    assert_eq!(p.read_header().unwrap_err(), PayloadError::ShortInput);
}

#[test]
fn manifest_bytes_are_framed_exactly() {
    let data = build_payload(5, 0, &[9, 9]);
    let expected: Vec<u8> = data[24..29].to_vec();
    let mut p = Payload::new("payload.bin".to_string(), data);
    p.read_header().unwrap();
    assert_eq!(p.manifest_bytes().unwrap(), expected);
}

#[test]
fn manifest_bytes_past_end_of_file_fail() {
    let mut data = build_payload(5, 0, &[]);
    data.truncate(26);
    let mut p = Payload::new("payload.bin".to_string(), data);
    p.read_header().unwrap();
    assert_eq!(p.manifest_bytes().unwrap_err(), PayloadError::ShortInput);
}

#[test]
fn lists_partitions_in_manifest_order_with_sizes() {
    let m = Manifest {
        partitions: vec![
            PartitionUpdate {
                partition_name: "boot".to_string(),
                size: Some(123),
                operations: vec![],
            },
            PartitionUpdate {
                partition_name: "vendor".to_string(),
                size: None,
                operations: vec![],
            },
            PartitionUpdate {
                partition_name: "system".to_string(),
                size: Some(7),
                operations: vec![],
            },
        ],
    };
    let p = session(0, 0, &[], m);
    let entries = p.get_partition_list().unwrap();
    assert_eq!(entries.len(), 3);
    assert_eq!(entries[0].name, "boot");
    assert_eq!(entries[0].size, 123);
    assert_eq!(entries[1].name, "vendor");
    assert_eq!(entries[1].size, 0);
    assert_eq!(entries[2].name, "system");
    assert_eq!(entries[2].size, 7);
}

#[test]
fn lists_empty_manifest_as_empty() {
    let p = session(0, 0, &[], Manifest { partitions: vec![] });
    assert_eq!(p.get_partition_list().unwrap().len(), 0);
}

#[test]
fn replace_copies_the_exact_source_window() {
    // end to end: magic valid, version supported, manifest_len = 40,
    // signature_len = 0, one partition "boot" with a single Replace of
    // 1024 bytes at data region offset 0, destination extent {0, 1}
    let manifest_len: u64 = 40;
    let region: Vec<u8> = (0..1024u32).map(|i| (i % 256) as u8).collect();
    let m = one_partition(
        "boot",
        Some(1024),
        vec![replace_op(0, 1024, vec![Extent { start_block: 0, num_blocks: 1 }])],
    );
    let p = session(manifest_len, 0, &region, m);
    let out = p.extract("boot").unwrap();
    let data = build_payload(manifest_len, 0, &region);
    let lo = (24 + manifest_len) as usize;
    assert_eq!(out.len(), 1024);
    assert_eq!(out, data[lo..lo + 1024].to_vec());
}

#[test]
fn replace_honours_signature_offset() {
    // a non-empty signature block shifts the data region start
    let region = b"data region payload".to_vec();
    let m = one_partition(
        "boot",
        None,
        vec![replace_op(5, 6, vec![Extent { start_block: 0, num_blocks: 1 }])],
    );
    let p = session(8, 4, &region, m);
    assert_eq!(p.extract("boot").unwrap(), b"region".to_vec());
}

#[test]
fn xz_window_round_trips() {
    let plain: Vec<u8> = (0..5000u32).map(|i| (i * 7 % 256) as u8).collect();
    let packed = xz_compress(&plain);
    let m = Manifest {
        partitions: vec![PartitionUpdate {
            partition_name: "boot".to_string(),
            size: None,
            operations: vec![Operation {
                kind: OpKind::ReplaceXz,
                data_offset: 0,
                data_length: packed.len() as u64,
                dst_extents: vec![Extent { start_block: 0, num_blocks: 2 }],
            }],
        }],
    };
    let p = session(0, 0, &packed, m);
    assert_eq!(p.extract("boot").unwrap(), plain);
}

#[test]
fn bz_window_round_trips() {
    let plain: Vec<u8> = (0..5000u32).map(|i| (i * 13 % 256) as u8).collect();
    let packed = bz_compress(&plain);
    let m = Manifest {
        partitions: vec![PartitionUpdate {
            partition_name: "boot".to_string(),
            size: None,
            operations: vec![Operation {
                kind: OpKind::ReplaceBz,
                data_offset: 0,
                data_length: packed.len() as u64,
                dst_extents: vec![Extent { start_block: 0, num_blocks: 2 }],
            }],
        }],
    };
    let p = session(0, 0, &packed, m);
    assert_eq!(p.extract("boot").unwrap(), plain);
}

#[test]
fn corrupt_xz_window_is_a_codec_error() {
    let garbage = vec![0x12u8; 64];
    let m = Manifest {
        partitions: vec![PartitionUpdate {
            partition_name: "boot".to_string(),
            size: None,
            operations: vec![Operation {
                kind: OpKind::ReplaceXz,
                data_offset: 0,
                data_length: 64,
                dst_extents: vec![Extent { start_block: 0, num_blocks: 1 }],
            }],
        }],
    };
    let p = session(0, 0, &garbage, m);
    assert_eq!(p.extract("boot").unwrap_err(), PayloadError::CodecError);
}

#[test]
fn zero_fills_num_blocks_times_block_size() {
    let m = Manifest {
        partitions: vec![PartitionUpdate {
            partition_name: "cache".to_string(),
            size: None,
            operations: vec![Operation {
                kind: OpKind::Zero,
                data_offset: 0,
                data_length: 0,
                dst_extents: vec![Extent { start_block: 4, num_blocks: 2 }],
            }],
        }],
    };
    let p = session(0, 0, &[], m);
    let out = p.extract("cache").unwrap();
    assert_eq!(out.len(), 2 * 4096);
    assert!(out.iter().all(|b| *b == 0));
}

#[test]
fn unrepresentable_zero_fill_count_is_an_error() {
    let m = Manifest {
        partitions: vec![PartitionUpdate {
            partition_name: "cache".to_string(),
            size: None,
            operations: vec![Operation {
                kind: OpKind::Zero,
                data_offset: 0,
                data_length: 0,
                dst_extents: vec![Extent { start_block: 0, num_blocks: u64::MAX }],
            }],
        }],
    };
    let p = session(0, 0, &[], m);
    assert_eq!(
        p.extract("cache").unwrap_err(),
        PayloadError::ZeroFillMismatch
    );
}

#[test]
fn operations_concatenate_in_manifest_order() {
    let region = b"abcdefgh".to_vec();
    let m = one_partition(
        "boot",
        None,
        vec![
            replace_op(4, 4, vec![Extent { start_block: 0, num_blocks: 1 }]),
            Operation {
                kind: OpKind::Zero,
                data_offset: 0,
                data_length: 0,
                dst_extents: vec![Extent { start_block: 1, num_blocks: 1 }],
            },
            replace_op(0, 4, vec![Extent { start_block: 2, num_blocks: 1 }]),
        ],
    );
    let p = session(0, 0, &region, m);
    let out = p.extract("boot").unwrap();
    assert_eq!(out.len(), 4 + 4096 + 4);
    assert_eq!(&out[0..4], b"efgh");
    assert!(out[4..4100].iter().all(|b| *b == 0));
    assert_eq!(&out[4100..4104], b"abcd");
}

#[test]
fn missing_partition_is_not_found_with_name_and_path() {
    let m = one_partition(
        "boot",
        None,
        vec![replace_op(0, 1, vec![Extent { start_block: 0, num_blocks: 1 }])],
    );
    let p = session(0, 0, &[7], m);
    match p.extract("recovery").unwrap_err() {
        PayloadError::NotFound(name, path) => {
            assert_eq!(name, "recovery");
            assert_eq!(path, "payload.bin");
        }
        other => panic!("expected NotFound, got {:?}", other),
    }
}

#[test]
fn extracting_twice_is_byte_identical() {
    let region: Vec<u8> = (0..2048u32).map(|i| (i * 31 % 256) as u8).collect();
    let m = one_partition(
        "boot",
        None,
        vec![replace_op(100, 900, vec![Extent { start_block: 0, num_blocks: 1 }])],
    );
    let p = session(0, 0, &region, m);
    let first = p.extract("boot").unwrap();
    let second = p.extract("boot").unwrap();
    assert_eq!(first, second);
}

#[test]
fn duplicate_names_extract_every_match_and_keep_the_last() {
    let region = b"firstsecond".to_vec();
    let m = Manifest {
        partitions: vec![
            PartitionUpdate {
                partition_name: "boot".to_string(),
                size: None,
                operations: vec![replace_op(
                    0,
                    5,
                    vec![Extent { start_block: 0, num_blocks: 1 }],
                )],
            },
            PartitionUpdate {
                partition_name: "boot".to_string(),
                size: None,
                operations: vec![replace_op(
                    5,
                    6,
                    vec![Extent { start_block: 0, num_blocks: 1 }],
                )],
            },
        ],
    };
    let p = session(0, 0, &region, m);
    assert_eq!(p.extract("boot").unwrap(), b"second".to_vec());
}

#[test]
fn empty_destination_extents_are_invalid() {
    let m = one_partition("boot", None, vec![replace_op(0, 1, vec![])]);
    let p = session(0, 0, &[7], m);
    assert_eq!(
        p.extract("boot").unwrap_err(),
        PayloadError::InvalidDstExtents
    );
}

#[test]
fn unsupported_operation_reports_its_code() {
    let m = one_partition(
        "boot",
        None,
        vec![Operation {
            kind: OpKind::Unsupported(4),
            data_offset: 0,
            data_length: 0,
            dst_extents: vec![Extent { start_block: 0, num_blocks: 1 }],
        }],
    );
    let p = session(0, 0, &[], m);
    assert_eq!(
        p.extract("boot").unwrap_err(),
        PayloadError::UnsupportedOperation(4)
    );
}

#[test]
fn window_past_end_of_payload_fails() {
    let m = one_partition(
        "boot",
        None,
        vec![replace_op(0, 100, vec![Extent { start_block: 0, num_blocks: 1 }])],
    );
    let p = session(0, 0, &[1, 2, 3], m);
    assert_eq!(p.extract("boot").unwrap_err(), PayloadError::ShortInput);
}
