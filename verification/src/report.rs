use vstd::prelude::*;

use chrono::TimeZone;

use crate::endian::endian_label;
use crate::numfmt::{dec_rep, u32_dec, u64_dec};
use crate::superblock::SuperblockRecord;
use crate::superblock::Timestamp;

verus! {

/// The version label: `major.minor.patch` when the minor and patch versions
/// are known, `major.x` otherwise.
pub open spec fn spec_version_string(version: (u32, Option<u32>, Option<u32>)) -> Seq<char> {
    if version.1 is Some && version.2 is Some {
        dec_rep(version.0 as int) + seq!['.'] + dec_rep(version.1.unwrap() as int) + seq!['.']
            + dec_rep(version.2.unwrap() as int)
    } else {
        dec_rep(version.0 as int) + seq!['.', 'x']
    }
}

/// Renders the version label of a hit.
pub fn version_string(version: (u32, Option<u32>, Option<u32>)) -> (s: String)
    ensures
        s@ == spec_version_string(version),
{
    let mut s = u32_dec(version.0);
    match (version.1, version.2) {
        (Some(minor), Some(patch)) => {
            s.append(".");
            s.append(u32_dec(minor).as_str());
            s.append(".");
            s.append(u32_dec(patch).as_str());
            proof {
                reveal_strlit(".");
                assert(s@ =~= spec_version_string(version));
            }
        },
        _ => {
            s.append(".x");
            proof {
                reveal_strlit(".x");
                assert(s@ =~= spec_version_string(version));
            }
        },
    }
    s
}

/// What `String::from_utf8_lossy` decodes the given bytes to.
pub uninterp spec fn lossy_utf8(bytes: Seq<u8>) -> Seq<char>;

/// Relies on String::from_utf8_lossy: the decoding is a function of the
/// bytes alone, and bytes below 0x80 (ASCII, always valid UTF-8) decode to
/// the characters of the same code points.
#[verifier::external_body]
fn utf8_lossy(bytes: &Vec<u8>) -> (r: String)
    ensures
        r@ == lossy_utf8(bytes@),
        (forall|i: int| 0 <= i < bytes@.len() ==> bytes@[i] < 0x80) ==> (r@.len() == bytes@.len()
            && (forall|i: int| 0 <= i < bytes@.len() ==> r@[i] == bytes@[i] as char)),
{
    String::from_utf8_lossy(bytes).into_owned()
}

/// The name field bytes wrapped in literal double quotes (byte 0x22).
pub open spec fn quoted(name: Seq<u8>) -> Seq<u8> {
    seq![34u8] + name + seq![34u8]
}

/// Renders a v1.x array name: the name bytes wrapped in double quotes,
/// decoded as UTF-8 with invalid sequences replaced.
pub fn quoted_name(name: &Vec<u8>) -> (r: String)
    ensures
        r@ == lossy_utf8(quoted(name@)),
{
    let mut v: Vec<u8> = Vec::new();
    v.push(34);
    let mut i: usize = 0;
    proof {
        assert(v@ =~= seq![34u8] + name@.subrange(0, 0));
    }
    while i < name.len()
        invariant
            i <= name@.len(),
            v@ == seq![34u8] + name@.subrange(0, i as int),
        decreases name@.len() - i,
    {
        v.push(name[i]);
        proof {
            assert(v@ =~= seq![34u8] + name@.subrange(0, i as int + 1));
        }
        i = i + 1;
    }
    v.push(34);
    proof {
        assert(name@.subrange(0, name@.len() as int) =~= name@);
        assert(v@ =~= quoted(name@));
    }
    utf8_lossy(&v)
}

/// Relies on chrono: `TimeZone::timestamp_opt` on `Local` converts an epoch
/// timestamp to the machine's local time zone, and `DateTime::to_rfc3339`
/// renders it; `None` comes back when chrono cannot represent the instant.
/// The result depends on the machine's time zone, so nothing more is stated
/// of it.
#[verifier::external_body]
fn local_rfc3339(secs: i64, nsecs: u32) -> (r: Option<String>) {
    match chrono::Local.timestamp_opt(secs, nsecs).earliest() {
        Some(t) => Some(t.to_rfc3339()),
        None => None,
    }
}

/// Chooses the text for a rendered timestamp: the rendering where chrono
/// produced one, the literal "invalid" where the instant was out of range.
pub fn timestamp_text(rendered: Option<String>) -> (r: String)
    ensures
        rendered matches Some(s) ==> r@ == s@,
        rendered is None ==> r@ == "invalid"@,
{
    match rendered {
        Some(s) => s,
        None => String::from_str("invalid"),
    }
}

/// Renders an optional timestamp: "unknown" where the layout defines none,
/// otherwise the local-time rendering, or "invalid" where that fails.
pub fn render_timestamp(ts: &Option<Timestamp>) -> (r: String)
    ensures
        ts is None ==> r@ == "unknown"@,
{
    match ts {
        None => String::from_str("unknown"),
        Some(t) => timestamp_text(local_rfc3339(t.secs, t.nsecs)),
    }
}

/// The full text of a hit line, given the already-rendered timestamp texts.
/// The byte-order suffix appears only when big-endian support is enabled and
/// the hit decodes to the legacy major version 0.
pub open spec fn spec_hit_line(
    rec: SuperblockRecord,
    ctime_text: Seq<char>,
    utime_text: Seq<char>,
    big_endian_support: bool,
) -> Seq<char> {
    "hit at byte "@ + dec_rep(rec.offset as int) + " (version: "@ + spec_version_string(
        (rec.major, rec.minor, rec.patch),
    ) + ", name: "@ + (match rec.name {
        Some(n) => lossy_utf8(quoted(n@)),
        None => "unknown"@,
    }) + ", creation time: "@ + ctime_text + ", update time: "@ + utime_text + (if big_endian_support
        && rec.major == 0 {
        ", endianess: "@ + endian_label(rec.endianess)
    } else {
        Seq::<char>::empty()
    }) + ")"@
}

/// Assembles the line emitted for one hit from its record and the rendered
/// timestamp texts.
pub fn hit_line(
    rec: &SuperblockRecord,
    ctime_text: &str,
    utime_text: &str,
    big_endian_support: bool,
) -> (line: String)
    ensures
        line@ == spec_hit_line(*rec, ctime_text@, utime_text@, big_endian_support),
{
    let mut line = String::from_str("hit at byte ");
    line.append(u64_dec(rec.offset).as_str());
    line.append(" (version: ");
    line.append(version_string((rec.major, rec.minor, rec.patch)).as_str());
    line.append(", name: ");
    match &rec.name {
        Some(n) => {
            line.append(quoted_name(n).as_str());
        },
        None => {
            line.append("unknown");
        },
    }
    line.append(", creation time: ");
    line.append(ctime_text);
    line.append(", update time: ");
    line.append(utime_text);
    if big_endian_support && rec.major == 0 {
        line.append(", endianess: ");
        line.append(rec.endianess.label().as_str());
    }
    line.append(")");
    proof {
        assert(line@ =~= spec_hit_line(*rec, ctime_text@, utime_text@, big_endian_support));
    }
    line
}

/// Renders one accepted hit as the emitted line, rendering its timestamps in
/// the machine's local time zone; a missing timestamp reads "unknown".
pub fn format_hit(rec: &SuperblockRecord, big_endian_support: bool) -> (line: String)
    ensures
        exists|ct: Seq<char>, ut: Seq<char>|
            line@ == spec_hit_line(*rec, ct, ut, big_endian_support) && (rec.ctime is None ==> ct
                == "unknown"@) && (rec.utime is None ==> ut == "unknown"@),
{
    let ct = render_timestamp(&rec.ctime);
    let ut = render_timestamp(&rec.utime);
    let line = hit_line(rec, ct.as_str(), ut.as_str(), big_endian_support);
    proof {
        assert(line@ == spec_hit_line(*rec, ct@, ut@, big_endian_support) && (rec.ctime is None
            ==> ct@ == "unknown"@) && (rec.utime is None ==> ut@ == "unknown"@));
    }
    line
}

} // verus!
