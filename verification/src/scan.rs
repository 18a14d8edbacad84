use vstd::prelude::*;

use crate::endian::Endian;

verus! {

/// Size in bytes of an on-disk superblock, and the alignment of the
/// block-aligned scan.
pub const BLOCK_SIZE: usize = 512;

/// The magic signature `0xa92b4efc` appears at the start of a block, in
/// little-endian byte order, as the bytes `FC 4E 2B A9`.
pub open spec fn magic_le_at(data: Seq<u8>, i: int) -> bool {
    &&& 0 <= i
    &&& i + 4 <= data.len()
    &&& data[i] == 0xfc
    &&& data[i + 1] == 0x4e
    &&& data[i + 2] == 0x2b
    &&& data[i + 3] == 0xa9
}

/// The magic signature `0xa92b4efc` in big-endian byte order: the bytes
/// `A9 2B 4E FC`.
pub open spec fn magic_be_at(data: Seq<u8>, i: int) -> bool {
    &&& 0 <= i
    &&& i + 4 <= data.len()
    &&& data[i] == 0xa9
    &&& data[i + 1] == 0x2b
    &&& data[i + 2] == 0x4e
    &&& data[i + 3] == 0xfc
}

/// The byte order, if any, under which the magic signature stands at offset
/// `i`. The little-endian pattern is checked first; the big-endian pattern
/// only when big-endian support is enabled. The two byte patterns differ in
/// their first byte, so at most one can match.
pub open spec fn hit_at(data: Seq<u8>, i: int, big_endian: bool) -> Option<Endian> {
    if magic_le_at(data, i) {
        Some(Endian::Little)
    } else if big_endian && magic_be_at(data, i) {
        Some(Endian::Big)
    } else {
        None
    }
}

/// One detected occurrence of the magic signature: its absolute byte offset
/// and the byte order under which it matched.
#[derive(Clone, Copy, Debug, PartialEq, Eq, Structural)]
pub struct Hit {
    pub offset: u64,
    pub endian: Endian,
}

/// The hits of the block-aligned scan at offsets `off, off + 512, ...`,
/// keeping only offsets with a full block available, in increasing order.
pub open spec fn aligned_hits_from(data: Seq<u8>, big_endian: bool, off: int) -> Seq<Hit>
    decreases data.len() - off,
{
    if off < 0 || off + BLOCK_SIZE > data.len() {
        Seq::empty()
    } else {
        (match hit_at(data, off, big_endian) {
            Some(e) => seq![Hit { offset: off as u64, endian: e }],
            None => Seq::empty(),
        }) + aligned_hits_from(data, big_endian, off + BLOCK_SIZE as int)
    }
}

/// The hits of the block-aligned scan of the whole buffer: one hit per
/// 512-byte block whose first four bytes are the magic signature.
pub open spec fn aligned_hits(data: Seq<u8>, big_endian: bool) -> Seq<Hit> {
    aligned_hits_from(data, big_endian, 0)
}

/// The hits of the byte-granular scan at offsets `off, off + 1, ...`, in
/// increasing order.
pub open spec fn rolling_hits_from(data: Seq<u8>, big_endian: bool, off: int) -> Seq<Hit>
    decreases data.len() - off,
{
    if off < 0 || off + 4 > data.len() {
        Seq::empty()
    } else {
        (match hit_at(data, off, big_endian) {
            Some(e) => seq![Hit { offset: off as u64, endian: e }],
            None => Seq::empty(),
        }) + rolling_hits_from(data, big_endian, off + 1)
    }
}

/// The hits of the byte-granular scan of the whole buffer: one hit per byte
/// offset where the magic signature stands.
pub open spec fn rolling_hits(data: Seq<u8>, big_endian: bool) -> Seq<Hit> {
    rolling_hits_from(data, big_endian, 0)
}

/// Tests whether the magic signature stands at offset `off`, returning the
/// byte order under which it matched.
pub fn check_block(data: &[u8], off: usize, big_endian: bool) -> (r: Option<Endian>)
    requires
        off + 4 <= data@.len(),
    ensures
        r == hit_at(data@, off as int, big_endian),
{
    // Binding the length teaches the verifier that it fits in usize.
    let _n: usize = data.len();
    if data[off] == 0xfc && data[off + 1] == 0x4e && data[off + 2] == 0x2b && data[off + 3] == 0xa9 {
        Some(Endian::Little)
    } else if big_endian && data[off] == 0xa9 && data[off + 1] == 0x2b && data[off + 2] == 0x4e
        && data[off + 3] == 0xfc {
        Some(Endian::Big)
    } else {
        None
    }
}

/// Block-aligned scan of an in-memory buffer: reports the magic signature
/// wherever it starts a complete 512-byte block.
pub fn scan_aligned(data: &[u8], big_endian: bool) -> (hits: Vec<Hit>)
    ensures
        hits@ == aligned_hits(data@, big_endian),
{
    let n: usize = data.len();
    let mut hits: Vec<Hit> = Vec::new();
    let mut off: usize = 0;
    while n - off >= BLOCK_SIZE
        invariant
            n == data@.len(),
            off <= n,
            hits@ + aligned_hits_from(data@, big_endian, off as int) == aligned_hits(
                data@,
                big_endian,
            ),
        decreases data@.len() - off,
    {
        match check_block(data, off, big_endian) {
            Some(e) => hits.push(Hit { offset: off as u64, endian: e }),
            None => (),
        }
        off = off + BLOCK_SIZE;
    }
    proof {
        assert(aligned_hits_from(data@, big_endian, off as int) =~= Seq::<Hit>::empty());
        assert(hits@ =~= hits@ + Seq::<Hit>::empty());
    }
    hits
}

/// Byte-granular scan of an in-memory buffer: reports the magic signature at
/// every byte offset where it occurs, aligned or not.
pub fn scan_rolling(data: &[u8], big_endian: bool) -> (hits: Vec<Hit>)
    ensures
        hits@ == rolling_hits(data@, big_endian),
{
    let n: usize = data.len();
    let mut hits: Vec<Hit> = Vec::new();
    let mut off: usize = 0;
    while n - off >= 4
        invariant
            n == data@.len(),
            off <= n,
            hits@ + rolling_hits_from(data@, big_endian, off as int) == rolling_hits(
                data@,
                big_endian,
            ),
        decreases data@.len() - off,
    {
        match check_block(data, off, big_endian) {
            Some(e) => hits.push(Hit { offset: off as u64, endian: e }),
            None => (),
        }
        off = off + 1;
    }
    proof {
        assert(rolling_hits_from(data@, big_endian, off as int) =~= Seq::<Hit>::empty());
        assert(hits@ =~= hits@ + Seq::<Hit>::empty());
    }
    hits
}

proof fn lemma_aligned_none_from(data: Seq<u8>, big_endian: bool, off: int)
    requires
        0 <= off,
        off % 512 == 0,
        forall|i: int|
            off <= i && i % 512 == 0 && i + 512 <= data.len() ==> (#[trigger] hit_at(
                data,
                i,
                big_endian,
            )) is None,
    ensures
        aligned_hits_from(data, big_endian, off) == Seq::<Hit>::empty(),
    decreases data.len() - off,
{
    if off + BLOCK_SIZE > data.len() {
    } else {
        lemma_aligned_none_from(data, big_endian, off + 512);
        assert(aligned_hits_from(data, big_endian, off) =~= Seq::<Hit>::empty());
    }
}

/// A buffer that holds the magic signature at no block-aligned offset yields
/// no hits under the block-aligned scan.
pub proof fn lemma_aligned_no_magic_no_hits(data: Seq<u8>, big_endian: bool)
    requires
        forall|i: int|
            0 <= i && i % 512 == 0 && i + 512 <= data.len() ==> (#[trigger] hit_at(
                data,
                i,
                big_endian,
            )) is None,
    ensures
        aligned_hits(data, big_endian) == Seq::<Hit>::empty(),
{
    lemma_aligned_none_from(data, big_endian, 0);
}

proof fn lemma_rolling_none_from(data: Seq<u8>, big_endian: bool, off: int)
    requires
        0 <= off,
        forall|i: int|
            off <= i && i + 4 <= data.len() ==> (#[trigger] hit_at(data, i, big_endian)) is None,
    ensures
        rolling_hits_from(data, big_endian, off) == Seq::<Hit>::empty(),
    decreases data.len() - off,
{
    if off + 4 > data.len() {
    } else {
        lemma_rolling_none_from(data, big_endian, off + 1);
        assert(rolling_hits_from(data, big_endian, off) =~= Seq::<Hit>::empty());
    }
}

/// A buffer that holds the magic signature at no byte offset yields no hits
/// under the byte-granular scan.
pub proof fn lemma_rolling_no_magic_no_hits(data: Seq<u8>, big_endian: bool)
    requires
        forall|i: int|
            0 <= i && i + 4 <= data.len() ==> (#[trigger] hit_at(data, i, big_endian)) is None,
    ensures
        rolling_hits(data, big_endian) == Seq::<Hit>::empty(),
{
    lemma_rolling_none_from(data, big_endian, 0);
}

proof fn lemma_aligned_single_from(data: Seq<u8>, big_endian: bool, off: int, n: int, e: Endian)
    requires
        0 <= off <= n,
        off % 512 == 0,
        n % 512 == 0,
        n + 512 <= data.len(),
        hit_at(data, n, big_endian) == Some(e),
        forall|i: int|
            off <= i && i % 512 == 0 && i + 512 <= data.len() && i != n ==> (#[trigger] hit_at(
                data,
                i,
                big_endian,
            )) is None,
    ensures
        aligned_hits_from(data, big_endian, off) == seq![Hit { offset: n as u64, endian: e }],
    decreases n - off,
{
    if off == n {
        lemma_aligned_none_from(data, big_endian, off + 512);
        assert(aligned_hits_from(data, big_endian, off) =~= seq![
            Hit { offset: n as u64, endian: e },
        ]);
    } else {
        assert((n - off) % 512 == 0);
        lemma_aligned_single_from(data, big_endian, off + 512, n, e);
        assert(aligned_hits_from(data, big_endian, off) =~= seq![
            Hit { offset: n as u64, endian: e },
        ]);
    }
}

/// Round trip of the block-aligned scan: a buffer whose only block-aligned
/// magic signature stands at offset `n` yields exactly one hit, at offset
/// `n`, under the byte order of that signature.
pub proof fn lemma_aligned_single_hit(data: Seq<u8>, big_endian: bool, n: int, e: Endian)
    requires
        0 <= n,
        n % 512 == 0,
        n + 512 <= data.len(),
        hit_at(data, n, big_endian) == Some(e),
        forall|i: int|
            0 <= i && i % 512 == 0 && i + 512 <= data.len() && i != n ==> (#[trigger] hit_at(
                data,
                i,
                big_endian,
            )) is None,
    ensures
        aligned_hits(data, big_endian) == seq![Hit { offset: n as u64, endian: e }],
{
    lemma_aligned_single_from(data, big_endian, 0, n, e);
}

proof fn lemma_rolling_contains_from(data: Seq<u8>, big_endian: bool, off: int, m: int, e: Endian)
    requires
        0 <= off <= m,
        m + 4 <= data.len(),
        hit_at(data, m, big_endian) == Some(e),
    ensures
        rolling_hits_from(data, big_endian, off).contains(Hit { offset: m as u64, endian: e }),
    decreases m - off,
{
    let h = Hit { offset: m as u64, endian: e };
    let s = rolling_hits_from(data, big_endian, off);
    if off == m {
        assert(s[0] == h);
        assert(s.contains(h));
    } else {
        lemma_rolling_contains_from(data, big_endian, off + 1, m, e);
        let rest = rolling_hits_from(data, big_endian, off + 1);
        let j = choose|j: int| 0 <= j < rest.len() && rest[j] == h;
        let head_len = s.len() - rest.len();
        assert(s[head_len + j] == h);
        assert(s.contains(h));
    }
}

/// The byte-granular scan finds the magic signature wherever it stands, at
/// any byte offset, aligned or not.
pub proof fn lemma_rolling_finds_hit(data: Seq<u8>, big_endian: bool, m: int, e: Endian)
    requires
        0 <= m,
        m + 4 <= data.len(),
        hit_at(data, m, big_endian) == Some(e),
    ensures
        rolling_hits(data, big_endian).contains(Hit { offset: m as u64, endian: e }),
{
    lemma_rolling_contains_from(data, big_endian, 0, m, e);
}

proof fn lemma_aligned_offsets_from(data: Seq<u8>, big_endian: bool, off: int)
    requires
        0 <= off,
        off % 512 == 0,
        data.len() <= u64::MAX,
    ensures
        forall|h: Hit|
            #[trigger] aligned_hits_from(data, big_endian, off).contains(h) ==> h.offset % 512
                == 0,
    decreases data.len() - off,
{
    if off + BLOCK_SIZE > data.len() {
    } else {
        lemma_aligned_offsets_from(data, big_endian, off + 512);
        let s = aligned_hits_from(data, big_endian, off);
        let rest = aligned_hits_from(data, big_endian, off + 512);
        assert forall|h: Hit| #[trigger] s.contains(h) implies h.offset % 512 == 0 by {
            let j = choose|j: int| 0 <= j < s.len() && s[j] == h;
            let head_len = s.len() - rest.len();
            if j >= head_len {
                assert(rest[j - head_len] == h);
                assert(rest.contains(h));
            }
        }
    }
}

/// Every hit of the block-aligned scan lies at a multiple of 512 bytes: a
/// magic signature at an unaligned offset is never reported by that scan.
pub proof fn lemma_aligned_hits_are_aligned(data: Seq<u8>, big_endian: bool)
    requires
        data.len() <= u64::MAX,
    ensures
        forall|h: Hit|
            #[trigger] aligned_hits(data, big_endian).contains(h) ==> h.offset % 512 == 0,
{
    lemma_aligned_offsets_from(data, big_endian, 0);
}

/// The hits gained by one more byte: they are those of the old buffer,
/// followed by at most one new hit, at the offset whose 4-byte window the new
/// byte completes.
proof fn lemma_rolling_push_from(data: Seq<u8>, b: u8, big_endian: bool, i: int)
    requires
        0 <= i,
    ensures
        rolling_hits_from(data.push(b), big_endian, i) == rolling_hits_from(data, big_endian, i)
            + (if i <= data.len() - 3 {
            match hit_at(data.push(b), data.len() - 3, big_endian) {
                Some(e) => seq![Hit { offset: (data.len() - 3) as u64, endian: e }],
                None => Seq::<Hit>::empty(),
            }
        } else {
            Seq::<Hit>::empty()
        }),
    decreases data.len() + 1 - i,
{
    let d2 = data.push(b);
    let len = data.len() as int;
    let tail = if i <= len - 3 {
        match hit_at(d2, len - 3, big_endian) {
            Some(e) => seq![Hit { offset: (len - 3) as u64, endian: e }],
            None => Seq::<Hit>::empty(),
        }
    } else {
        Seq::<Hit>::empty()
    };
    if i > len - 3 {
        assert(rolling_hits_from(d2, big_endian, i) =~= rolling_hits_from(data, big_endian, i)
            + tail);
    } else if i == len - 3 {
        assert(rolling_hits_from(d2, big_endian, i + 1) =~= Seq::<Hit>::empty());
        assert(rolling_hits_from(data, big_endian, i) =~= Seq::<Hit>::empty());
        assert(rolling_hits_from(d2, big_endian, i) =~= rolling_hits_from(data, big_endian, i)
            + tail);
    } else {
        lemma_rolling_push_from(data, b, big_endian, i + 1);
        assert(hit_at(d2, i, big_endian) == hit_at(data, i, big_endian));
        assert(rolling_hits_from(d2, big_endian, i) =~= rolling_hits_from(data, big_endian, i)
            + tail);
    }
}

/// A byte-granular scanner fed a stream chunk by chunk. It keeps the last
/// three bytes consumed, so that a magic signature split across chunk
/// boundaries is still found.
pub struct RollingScanner {
    pub w0: u8,
    pub w1: u8,
    pub w2: u8,
    pub pos: u64,
    pub big_endian: bool,
    pub history: Ghost<Seq<u8>>,
}

impl RollingScanner {
    /// The bytes consumed so far.
    pub open spec fn seen(self) -> Seq<u8> {
        self.history@
    }

    /// The position counter equals the number of bytes consumed, and the
    /// three window bytes are the last three bytes consumed, where those
    /// exist.
    pub open spec fn wf(self) -> bool {
        let s = self.history@;
        let n = s.len() as int;
        &&& self.pos == n
        &&& n >= 1 ==> self.w2 == s[n - 1]
        &&& n >= 2 ==> self.w1 == s[n - 2]
        &&& n >= 3 ==> self.w0 == s[n - 3]
    }

    /// A fresh scanner that has consumed nothing.
    pub fn new(big_endian: bool) -> (s: Self)
        ensures
            s.wf(),
            s.seen() == Seq::<u8>::empty(),
            s.big_endian == big_endian,
    {
        RollingScanner { w0: 0, w1: 0, w2: 0, pos: 0, big_endian, history: Ghost(Seq::empty()) }
    }

    /// The absolute offset of the next byte to be consumed.
    pub fn offset(&self) -> (r: u64)
        requires
            self.wf(),
        ensures
            r == self.seen().len(),
    {
        self.pos
    }

    /// Consumes one chunk of the stream and reports the hits it completes:
    /// afterwards, the hits of everything consumed are the hits already
    /// reported followed by the hits returned here.
    pub fn feed(&mut self, chunk: &[u8]) -> (hits: Vec<Hit>)
        requires
            old(self).wf(),
            old(self).seen().len() + chunk@.len() <= u64::MAX,
        ensures
            final(self).wf(),
            final(self).seen() == old(self).seen() + chunk@,
            final(self).big_endian == old(self).big_endian,
            rolling_hits(old(self).seen(), old(self).big_endian) + hits@ == rolling_hits(
                final(self).seen(),
                final(self).big_endian,
            ),
    {
        let clen: usize = chunk.len();
        let mut hits: Vec<Hit> = Vec::new();
        let mut j: usize = 0;
        proof {
            assert(self.seen() =~= old(self).seen() + chunk@.subrange(0, 0));
            assert(rolling_hits(old(self).seen(), old(self).big_endian) + hits@ =~= rolling_hits(
                self.seen(),
                self.big_endian,
            ));
        }
        while j < clen
            invariant
                clen == chunk@.len(),
                j <= clen,
                self.wf(),
                self.big_endian == old(self).big_endian,
                self.seen() == old(self).seen() + chunk@.subrange(0, j as int),
                old(self).seen().len() + chunk@.len() <= u64::MAX,
                rolling_hits(old(self).seen(), old(self).big_endian) + hits@ == rolling_hits(
                    self.seen(),
                    self.big_endian,
                ),
            decreases clen - j,
        {
            let b = chunk[j];
            let matched_le = self.pos >= 3 && self.w0 == 0xfc && self.w1 == 0x4e && self.w2 == 0x2b
                && b == 0xa9;
            let matched_be = self.big_endian && self.pos >= 3 && self.w0 == 0xa9 && self.w1 == 0x2b
                && self.w2 == 0x4e && b == 0xfc;
            let ghost prev = self.seen();
            proof {
                lemma_rolling_push_from(prev, b, self.big_endian, 0);
            }
            self.history = Ghost(prev.push(b));
            self.w0 = self.w1;
            self.w1 = self.w2;
            self.w2 = b;
            self.pos = self.pos + 1;
            if matched_le {
                hits.push(Hit { offset: self.pos - 4, endian: Endian::Little });
            } else if matched_be {
                hits.push(Hit { offset: self.pos - 4, endian: Endian::Big });
            }
            proof {
                assert(self.seen() =~= old(self).seen() + chunk@.subrange(0, j as int + 1));
                assert(rolling_hits(old(self).seen(), old(self).big_endian) + hits@
                    =~= rolling_hits(self.seen(), self.big_endian));
            }
            j = j + 1;
        }
        proof {
            assert(chunk@.subrange(0, clen as int) =~= chunk@);
        }
        hits
    }
}

/// The two scanning strategies: at 512-byte block boundaries only, or at
/// every byte offset.
#[derive(Clone, Copy, Debug, PartialEq, Eq, Structural)]
pub enum ScanMode {
    Aligned,
    Rolling,
}

/// Configuration of a scan: the strategy, and whether the big-endian form of
/// the magic signature is also searched for.
#[derive(Clone, Copy, Debug, PartialEq, Eq, Structural)]
pub struct ScanConfig {
    pub mode: ScanMode,
    pub big_endian: bool,
}

/// The hits that a scan of the whole buffer under the given configuration
/// reports.
pub open spec fn buffer_hits(data: Seq<u8>, config: ScanConfig) -> Seq<Hit> {
    match config.mode {
        ScanMode::Aligned => aligned_hits(data, config.big_endian),
        ScanMode::Rolling => rolling_hits(data, config.big_endian),
    }
}

/// Scans an in-memory buffer under the given configuration.
pub fn scan_buffer(data: &[u8], config: ScanConfig) -> (hits: Vec<Hit>)
    ensures
        hits@ == buffer_hits(data@, config),
{
    match config.mode {
        ScanMode::Aligned => scan_aligned(data, config.big_endian),
        ScanMode::Rolling => scan_rolling(data, config.big_endian),
    }
}

} // verus!
