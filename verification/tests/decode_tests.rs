use chrono::TimeZone;
use mdscan::endian::Endian;
use mdscan::report::{quoted_name, render_timestamp, version_string};
use mdscan::superblock::{decode_block, extract_64bit_timestamp, extract_version, Timestamp};

const MAGIC_LE: [u8; 4] = [0xfc, 0x4e, 0x2b, 0xa9];
const MAGIC_BE: [u8; 4] = [0xa9, 0x2b, 0x4e, 0xfc];

fn put_u32_le(block: &mut [u8], off: usize, v: u32) {
    block[off..off + 4].copy_from_slice(&v.to_le_bytes());
}

fn put_u32_be(block: &mut [u8], off: usize, v: u32) {
    block[off..off + 4].copy_from_slice(&v.to_be_bytes());
}

fn put_u64_le(block: &mut [u8], off: usize, v: u64) {
    block[off..off + 8].copy_from_slice(&v.to_le_bytes());
}

fn le_block(major: u32) -> Vec<u8> {
    let mut block = vec![0u8; 512];
    block[0..4].copy_from_slice(&MAGIC_LE);
    put_u32_le(&mut block, 4, major);
    block
}

#[test]
fn version_one_reports_one_dot_x() {
    let block = le_block(1);
    let rec = decode_block(0, &block, Endian::Little).unwrap();
    assert_eq!(rec.major, 1);
    assert_eq!(rec.minor, None);
    assert_eq!(rec.patch, None);
    assert_eq!(version_string((rec.major, rec.minor, rec.patch)), "1.x");
}

#[test]
fn v090_creation_time_and_unknown_update_time() {
    let mut block = le_block(0);
    put_u32_le(&mut block, 8, 90);
    put_u32_le(&mut block, 12, 0);
    put_u32_le(&mut block, 24, 1431648000);
    let rec = decode_block(0, &block, Endian::Little).unwrap();
    assert_eq!(version_string((rec.major, rec.minor, rec.patch)), "0.90.0");
    assert_eq!(rec.ctime, Some(Timestamp { secs: 1431648000, nsecs: 0 }));
    assert_eq!(rec.utime, None);
    let expected = chrono::Local
        .timestamp_opt(1431648000, 0)
        .earliest()
        .unwrap()
        .to_rfc3339();
    assert_eq!(render_timestamp(&rec.ctime), expected);
    assert_eq!(render_timestamp(&rec.utime), "unknown");
}

#[test]
fn v1_name_is_null_truncated_and_quoted() {
    let mut block = le_block(1);
    block[32..36].copy_from_slice(b"data");
    let rec = decode_block(0, &block, Endian::Little).unwrap();
    assert_eq!(rec.name.as_deref(), Some(b"data".as_slice()));
    assert_eq!(quoted_name(&rec.name.unwrap()), "\"data\"");
}

#[test]
fn v0_has_no_name() {
    let mut block = le_block(0);
    block[32..36].copy_from_slice(b"data");
    let rec = decode_block(0, &block, Endian::Little).unwrap();
    assert_eq!(rec.name, None);
}

#[test]
fn name_uses_all_32_bytes_without_null() {
    let mut block = le_block(1);
    for i in 32..64 {
        block[i] = b'a';
    }
    let rec = decode_block(0, &block, Endian::Little).unwrap();
    assert_eq!(rec.name, Some(vec![b'a'; 32]));
}

#[test]
fn big_endian_version_one_is_suppressed() {
    let mut block = vec![0u8; 512];
    block[0..4].copy_from_slice(&MAGIC_BE);
    put_u32_be(&mut block, 4, 1);
    assert!(decode_block(0, &block, Endian::Big).is_none());
}

#[test]
fn big_endian_v090_is_decoded() {
    let mut block = vec![0u8; 512];
    block[0..4].copy_from_slice(&MAGIC_BE);
    put_u32_be(&mut block, 4, 0);
    put_u32_be(&mut block, 8, 90);
    put_u32_be(&mut block, 12, 3);
    put_u32_be(&mut block, 24, 77);
    let rec = decode_block(4096, &block, Endian::Big).unwrap();
    assert_eq!(rec.offset, 4096);
    assert_eq!(rec.endianess, Endian::Big);
    assert_eq!((rec.major, rec.minor, rec.patch), (0, Some(90), Some(3)));
    assert_eq!(rec.ctime, Some(Timestamp { secs: 77, nsecs: 0 }));
}

#[test]
fn v1_packed_timestamps_are_decoded() {
    let mut block = le_block(1);
    let ctime_raw: u64 = 1_000_000 | (5u64 << 40);
    let utime_raw: u64 = 2_000_000 | (7u64 << 40);
    put_u64_le(&mut block, 64, ctime_raw);
    put_u64_le(&mut block, 192, utime_raw);
    let rec = decode_block(0, &block, Endian::Little).unwrap();
    assert_eq!(rec.ctime, Some(Timestamp { secs: 1_000_000, nsecs: 5000 }));
    assert_eq!(rec.utime, Some(Timestamp { secs: 2_000_000, nsecs: 7000 }));
}

#[test]
fn extract_version_reads_both_byte_orders() {
    let mut le = vec![0u8; 16];
    put_u32_le(&mut le, 4, 0);
    put_u32_le(&mut le, 8, 90);
    put_u32_le(&mut le, 12, 2);
    assert_eq!(extract_version(&le, Endian::Little), (0, Some(90), Some(2)));

    let mut be = vec![0u8; 16];
    put_u32_be(&mut be, 4, 3);
    assert_eq!(extract_version(&be, Endian::Big), (3, None, None));
}

#[test]
fn extract_64bit_timestamp_splits_seconds_and_micros() {
    let raw: u64 = 0x12345678 | (0x000102u64 << 40);
    let stamp = raw.to_le_bytes();
    assert_eq!(extract_64bit_timestamp(&stamp), (0x12345678, 258_000));
}

#[test]
fn extract_64bit_timestamp_nanoseconds_wrap_at_32_bits() {
    let raw: u64 = 5 | (0xff_ffffu64 << 40);
    let stamp = raw.to_le_bytes();
    let (secs, nsecs) = extract_64bit_timestamp(&stamp);
    assert_eq!(secs, 5);
    assert_eq!(nsecs, ((0xff_ffffu64 * 1000) % 0x1_0000_0000) as u32);
}
