use chrono::TimeZone;
use mdscan::endian::Endian;
use mdscan::numfmt::{u32_dec, u64_dec};
use mdscan::report::{format_hit, hit_line, quoted_name, render_timestamp, timestamp_text, version_string};
use mdscan::superblock::{SuperblockRecord, Timestamp};

fn v1_record() -> SuperblockRecord {
    SuperblockRecord {
        offset: 512,
        major: 1,
        minor: None,
        patch: None,
        name: Some(b"data".to_vec()),
        ctime: Some(Timestamp { secs: 1_000_000, nsecs: 5000 }),
        utime: Some(Timestamp { secs: 2_000_000, nsecs: 7000 }),
        endianess: Endian::Little,
    }
}

fn v090_record() -> SuperblockRecord {
    SuperblockRecord {
        offset: 0,
        major: 0,
        minor: Some(90),
        patch: Some(0),
        name: None,
        ctime: Some(Timestamp { secs: 1431648000, nsecs: 0 }),
        utime: None,
        endianess: Endian::Big,
    }
}

#[test]
fn decimal_rendering_is_exact() {
    assert_eq!(u64_dec(0), "0");
    assert_eq!(u64_dec(7), "7");
    assert_eq!(u64_dec(90), "90");
    assert_eq!(u64_dec(1024), "1024");
    assert_eq!(u64_dec(u64::MAX), "18446744073709551615");
    assert_eq!(u32_dec(u32::MAX), "4294967295");
}

#[test]
fn version_labels() {
    assert_eq!(version_string((0, Some(90), Some(0))), "0.90.0");
    assert_eq!(version_string((1, None, None)), "1.x");
    assert_eq!(version_string((2, None, None)), "2.x");
}

#[test]
fn endian_labels() {
    assert_eq!(Endian::Little.label(), "little");
    assert_eq!(Endian::Big.label(), "big");
}

#[test]
fn timestamp_text_picks_rendering_or_invalid() {
    assert_eq!(timestamp_text(Some("2015-05-15T00:00:00+00:00".to_string())), "2015-05-15T00:00:00+00:00");
    assert_eq!(timestamp_text(None), "invalid");
}

#[test]
fn out_of_range_timestamp_renders_invalid() {
    let ts = Some(Timestamp { secs: i64::MAX, nsecs: 0 });
    assert_eq!(render_timestamp(&ts), "invalid");
}

#[test]
fn missing_timestamp_renders_unknown() {
    assert_eq!(render_timestamp(&None), "unknown");
}

#[test]
fn quoted_name_wraps_and_replaces_invalid_utf8() {
    assert_eq!(quoted_name(&b"data".to_vec()), "\"data\"");
    assert_eq!(quoted_name(&Vec::new()), "\"\"");
    assert_eq!(quoted_name(&vec![0xff]), "\"\u{fffd}\"");
}

#[test]
fn hit_line_v1_layout() {
    let line = hit_line(&v1_record(), "CT", "UT", false);
    assert_eq!(
        line,
        "hit at byte 512 (version: 1.x, name: \"data\", creation time: CT, update time: UT)"
    );
}

#[test]
fn hit_line_endianess_suffix_only_for_v0_with_support() {
    let rec = v090_record();
    let with_support = hit_line(&rec, "CT", "UT", true);
    assert_eq!(
        with_support,
        "hit at byte 0 (version: 0.90.0, name: unknown, creation time: CT, update time: UT, endianess: big)"
    );
    let without_support = hit_line(&rec, "CT", "UT", false);
    assert_eq!(
        without_support,
        "hit at byte 0 (version: 0.90.0, name: unknown, creation time: CT, update time: UT)"
    );
    let v1 = hit_line(&v1_record(), "CT", "UT", true);
    assert!(!v1.contains("endianess"));
}

#[test]
fn format_hit_renders_local_timestamps() {
    let rec = v090_record();
    let expected_ct = chrono::Local
        .timestamp_opt(1431648000, 0)
        .earliest()
        .unwrap()
        .to_rfc3339();
    let expected = format!(
        "hit at byte 0 (version: 0.90.0, name: unknown, creation time: {}, update time: unknown, endianess: big)",
        expected_ct
    );
    assert_eq!(format_hit(&rec, true), expected);
}
