use vstd::prelude::*;

use crate::endian::Endian;
use crate::words::{le64, read_u32, read_u64_le, word32};

verus! {

/// A decoded on-disk timestamp: seconds since the epoch and a nanosecond
/// part. Both layouts yield a non-negative number of seconds.
#[derive(Clone, Copy, Debug, PartialEq, Eq, Structural)]
pub struct Timestamp {
    pub secs: i64,
    pub nsecs: u32,
}

/// The 32-bit word at byte offset `i`, read in the given byte order.
pub open spec fn word32_u(s: Seq<u8>, i: int, endianess: Endian) -> u32
    recommends
        0 <= i,
        i + 4 <= s.len(),
{
    word32(s, i, endianess) as u32
}

/// The seconds part of a packed 64-bit v1.x timestamp: its low 40 bits.
pub open spec fn packed_secs(raw: int) -> int {
    raw % 0x100_0000_0000
}

/// The nanoseconds part of a packed 64-bit v1.x timestamp: its high 24 bits
/// hold microseconds, scaled by 1000 and truncated to 32 bits.
pub open spec fn packed_nsecs(raw: int) -> int {
    ((raw / 0x100_0000_0000) * 1000) % 0x1_0000_0000
}

/// The packed 64-bit timestamp at byte offset `off`, always little-endian:
/// low 40 bits seconds, high 24 bits microseconds rendered as nanoseconds.
pub open spec fn packed_timestamp(block: Seq<u8>, off: int) -> Timestamp
    recommends
        0 <= off,
        off + 8 <= block.len(),
{
    Timestamp {
        secs: packed_secs(le64(block, off)) as i64,
        nsecs: packed_nsecs(le64(block, off)) as u32,
    }
}

/// The version fields of a block: the major version at offset 4, and, for
/// major version 0 only, the minor and patch versions at offsets 8 and 12.
pub open spec fn spec_version(block: Seq<u8>, endianess: Endian) -> (u32, Option<u32>, Option<
    u32,
>) {
    let major = word32_u(block, 4, endianess);
    if major == 0 {
        (major, Some(word32_u(block, 8, endianess)), Some(word32_u(block, 12, endianess)))
    } else {
        (major, None, None)
    }
}

/// The first offset in `[i, 64)` holding a NUL byte, or 64 if there is none:
/// one past the end of the array name.
pub open spec fn name_end_from(block: Seq<u8>, i: int) -> int
    recommends
        32 <= i <= 64,
        block.len() >= 64,
    decreases 64 - i,
{
    if i < 32 || i >= 64 {
        64
    } else if block[i] == 0 {
        i
    } else {
        name_end_from(block, i + 1)
    }
}

/// The array name of a v1.x block: the leading NUL-free run of the bytes at
/// offsets 32 to 64.
pub open spec fn name_bytes(block: Seq<u8>) -> Seq<u8>
    recommends
        block.len() >= 64,
{
    block.subrange(32, name_end_from(block, 32))
}

/// The creation timestamp of a block, when one is defined: a 32-bit
/// seconds-only value at offset 24 for version 0.90, the packed 64-bit value
/// at offset 64 for version 1.
pub open spec fn spec_ctime(block: Seq<u8>, endianess: Endian) -> Option<Timestamp> {
    let v = spec_version(block, endianess);
    if v.0 == 0 && v.1 == Some(90u32) {
        Some(Timestamp { secs: word32_u(block, 24, endianess) as i64, nsecs: 0 })
    } else if v.0 == 1 {
        Some(packed_timestamp(block, 64))
    } else {
        None
    }
}

/// The update timestamp of a block, when one is defined: version 1 only, the
/// packed 64-bit value at offset 192.
pub open spec fn spec_utime(block: Seq<u8>, endianess: Endian) -> Option<Timestamp> {
    let v = spec_version(block, endianess);
    if v.0 == 1 {
        Some(packed_timestamp(block, 192))
    } else {
        None
    }
}

/// The decoded metadata of one hit. The name is present only for major
/// version 1; a missing name or timestamp is reported as "unknown" when the
/// record is rendered.
#[derive(Clone, Debug)]
pub struct SuperblockRecord {
    pub offset: u64,
    pub major: u32,
    pub minor: Option<u32>,
    pub patch: Option<u32>,
    pub name: Option<Vec<u8>>,
    pub ctime: Option<Timestamp>,
    pub utime: Option<Timestamp>,
    pub endianess: Endian,
}

/// Reads the version fields of a block: the major version at offset 4, and,
/// for major version 0, the minor and patch versions at offsets 8 and 12, all
/// in the byte order under which the magic signature matched.
pub fn extract_version(data: &[u8], endianess: Endian) -> (r: (u32, Option<u32>, Option<u32>))
    requires
        data@.len() >= 16,
    ensures
        r == spec_version(data@, endianess),
{
    let major = read_u32(data, 4, endianess);
    if major == 0 {
        (major, Some(read_u32(data, 8, endianess)), Some(read_u32(data, 12, endianess)))
    } else {
        (major, None, None)
    }
}

/// Unpacks a 64-bit v1.x timestamp: the low 40 bits are seconds, the high 24
/// bits are microseconds, returned as nanoseconds truncated to 32 bits.
pub fn extract_64bit_timestamp(stamp: &[u8]) -> (r: (i64, u32))
    requires
        stamp@.len() == 8,
    ensures
        r.0 == packed_secs(le64(stamp@, 0)),
        r.1 == packed_nsecs(le64(stamp@, 0)),
{
    let raw = read_u64_le(stamp, 0);
    let secs: u64 = raw % 0x100_0000_0000;
    let micros: u64 = raw / 0x100_0000_0000;
    let nsecs: u64 = (micros * 1000) % 0x1_0000_0000;
    (secs as i64, nsecs as u32)
}

/// Copies the leading NUL-free run of the name field at offsets 32 to 64.
fn read_name(block: &[u8]) -> (name: Vec<u8>)
    requires
        block@.len() >= 64,
    ensures
        name@ == name_bytes(block@),
{
    let mut name: Vec<u8> = Vec::new();
    let mut i: usize = 32;
    proof {
        assert(name@ =~= block@.subrange(32, 32));
    }
    while i < 64 && block[i] != 0
        invariant
            block@.len() >= 64,
            32 <= i <= 64,
            name_end_from(block@, 32) == name_end_from(block@, i as int),
            name@ == block@.subrange(32, i as int),
        decreases 64 - i,
    {
        name.push(block[i]);
        proof {
            assert(name@ =~= block@.subrange(32, i as int + 1));
        }
        i = i + 1;
    }
    proof {
        assert(name_end_from(block@, i as int) == i as int);
    }
    name
}

/// Decodes the 512-byte block at the given absolute offset, under the byte
/// order in which the magic signature matched there. Returns `None` exactly
/// for the big-endian false positive: only the legacy version-0 layout is
/// ever big-endian on disk, so a big-endian match whose major version is not
/// 0 is discarded.
pub fn decode_block(offset: u64, block: &[u8], endianess: Endian) -> (r: Option<SuperblockRecord>)
    requires
        block@.len() == 512,
    ensures
        r is None <==> (endianess is Big && spec_version(block@, endianess).0 != 0),
        r matches Some(rec) ==> {
            &&& rec.offset == offset
            &&& rec.endianess == endianess
            &&& (rec.major, rec.minor, rec.patch) == spec_version(block@, endianess)
            &&& rec.name matches Some(n) ==> n@ == name_bytes(block@)
            &&& (rec.name is Some <==> rec.major == 1)
            &&& rec.ctime == spec_ctime(block@, endianess)
            &&& rec.utime == spec_utime(block@, endianess)
        },
{
    let version = extract_version(block, endianess);
    let (major, minor, patch) = version;

    if matches!(endianess, Endian::Big) && major != 0 {
        // Only legacy 0.x metadata may be big-endian on disk: any other major
        // version under a big-endian match is a false positive.
        return None;
    }

    let name = if major == 1 {
        Some(read_name(block))
    } else {
        None
    };

    let ctime = if major == 0 && matches!(minor, Some(90)) {
        Some(Timestamp { secs: read_u32(block, 24, endianess) as i64, nsecs: 0 })
    } else if major == 1 {
        let (secs, nsecs) = extract_64bit_timestamp(slice_range(block, 64, 72));
        Some(Timestamp { secs, nsecs })
    } else {
        None
    };

    let utime = if major == 1 {
        let (secs, nsecs) = extract_64bit_timestamp(slice_range(block, 192, 200));
        Some(Timestamp { secs, nsecs })
    } else {
        None
    };

    Some(SuperblockRecord { offset, major, minor, patch, name, ctime, utime, endianess })
}

/// The subslice `data[lo..hi]`.
fn slice_range(data: &[u8], lo: usize, hi: usize) -> (r: &[u8])
    requires
        lo <= hi <= data@.len(),
    ensures
        r@ == data@.subrange(lo as int, hi as int),
{
    &data[lo..hi]
}

} // verus!
