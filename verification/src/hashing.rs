//! Streaming BLAKE3 and the versioned sampling fingerprint.

use vstd::prelude::*;
use vstd::string::StringSliceAdditionalSpecFns;

verus! {

/// Name of the trusted full-content hash algorithm.
pub const FULL_HASH_ALGORITHM: &'static str = "blake3";

/// Name (and domain-separation tag) of the sampling fingerprint.
pub const SAMPLE_HASH_ALGORITHM: &'static str = "blake3-sample-v1";

/// The ranges `(offset, length)` that the sampling fingerprint reads from a
/// file of `size` bytes: one complete range for small files, otherwise the
/// head, the middle and the tail.
pub open spec fn spec_sample_ranges(size: u64, sample_bytes: usize) -> Seq<(u64, usize)> {
    let amount = sample_bytes as int;
    if size <= amount * 3 {
        seq![(0u64, if size <= usize::MAX { size as usize } else { sample_bytes })]
    } else {
        seq![
            (0u64, sample_bytes),
            (((size - amount) / 2) as u64, sample_bytes),
            ((size - amount) as u64, sample_bytes),
        ]
    }
}

/// Returns the sampled ranges `(offset, length)`; a small file has exactly one
/// complete range.
pub fn sample_ranges(size: u64, sample_bytes: usize) -> (ranges: Vec<(u64, usize)>)
    ensures
        ranges@ == spec_sample_ranges(size, sample_bytes),
        ranges@.len() == 1 || ranges@.len() == 3,
        forall|i: int|
            0 <= i < ranges@.len() && ranges@.len() == 3 ==> ranges@[i].0 + ranges@[i].1 <= size,
{
    let amount = sample_bytes as u64;
    let limit: u64 = if amount > u64::MAX / 3 { u64::MAX } else { amount * 3 };
    if size <= limit {
        let length: usize = if size <= usize::MAX as u64 { size as usize } else { sample_bytes };
        return vec![(0u64, length)];
    }
    let tail: u64 = size - amount;
    let middle: u64 = tail / 2;
    vec![(0u64, sample_bytes), (middle, sample_bytes), (tail, sample_bytes)]
}

/// The streaming hasher of the `blake3` crate (`blake3::Hasher`), carried as
/// an opaque value; what it absorbed is named by `hasher_input`.
#[verifier::external_type_specification]
#[verifier::external_body]
pub struct ExBlake3Hasher(blake3::Hasher);

/// Name for the lowercase hexadecimal BLAKE3 digest of a byte sequence.
pub uninterp spec fn blake3_hex(data: Seq<u8>) -> Seq<char>;

/// Name for the bytes that a `blake3::Hasher` has absorbed so far.
pub uninterp spec fn hasher_input(hasher: blake3::Hasher) -> Seq<u8>;

/// A lowercase hexadecimal digit.
pub open spec fn is_hex_digit(c: char) -> bool {
    ('0' <= c && c <= '9') || ('a' <= c && c <= 'f')
}

/// `blake3::hash` followed by `Hash::to_hex`: the digest of `data` as 64
/// lowercase hexadecimal digits. The digest itself is not modelled.
#[verifier::external_body]
pub(crate) fn blake3_hash_hex(data: &[u8]) -> (r: String)
    ensures
        r@ == blake3_hex(data@),
        r@.len() == 64,
        forall|i: int| 0 <= i < r@.len() ==> is_hex_digit(#[trigger] r@[i]),
{
    blake3::hash(data).to_hex().to_string()
}

/// `blake3::Hasher::new`: a hasher that has absorbed nothing.
#[verifier::external_body]
pub(crate) fn blake3_hasher_new() -> (r: blake3::Hasher)
    ensures
        hasher_input(r) == Seq::<u8>::empty(),
{
    blake3::Hasher::new()
}

/// `blake3::Hasher::update`: appends `data` to what the hasher absorbed.
#[verifier::external_body]
pub(crate) fn blake3_hasher_update(hasher: &mut blake3::Hasher, data: &[u8])
    ensures
        hasher_input(*final(hasher)) == hasher_input(*old(hasher)) + data@,
{
    hasher.update(data);
}

/// `blake3::Hasher::finalize` followed by `Hash::to_hex`; the crate documents
/// that this equals `blake3::hash` of everything absorbed.
#[verifier::external_body]
pub(crate) fn blake3_hasher_finalize_hex(hasher: &blake3::Hasher) -> (r: String)
    ensures
        r@ == blake3_hex(hasher_input(*hasher)),
        r@.len() == 64,
        forall|i: int| 0 <= i < r@.len() ==> is_hex_digit(#[trigger] r@[i]),
{
    hasher.finalize().to_hex().to_string()
}

/// The result of hashing a file: hex digest and bytes read.
#[derive(Debug, Clone, PartialEq, Eq)]
pub struct HashResult {
    pub hex: String,
    pub bytes_read: u64,
}

/// Little-endian bytes of `x`, lowest byte first, `n` bytes.
pub open spec fn le_bytes(x: nat, n: nat) -> Seq<u8>
    decreases n,
{
    if n == 0 {
        Seq::empty()
    } else {
        seq![(x % 256) as u8] + le_bytes(x / 256, (n - 1) as nat)
    }
}

/// `u64::to_le_bytes`.
pub open spec fn le64(x: u64) -> Seq<u8> {
    le_bytes(x as nat, 8)
}

/// The eight little-endian bytes of `x`.
pub fn u64_le_bytes(x: u64) -> (r: Vec<u8>)
    ensures
        r@ == le64(x),
{
    let mut out: Vec<u8> = Vec::new();
    let mut cur: u64 = x;
    let mut i: usize = 0;
    while i < 8
        invariant
            i <= 8,
            out@ + le_bytes(cur as nat, (8 - i) as nat) == le64(x),
        decreases 8 - i,
    {
        let ghost before = out@;
        out.push((cur % 256) as u8);
        proof {
            assert(le_bytes(cur as nat, (8 - i) as nat) == seq![(cur as nat % 256) as u8] + le_bytes(
                cur as nat / 256,
                (8 - i - 1) as nat,
            ));
            assert(out@ + le_bytes((cur / 256) as nat, (8 - i - 1) as nat) =~= before + le_bytes(
                cur as nat,
                (8 - i) as nat,
            ));
        }
        cur = cur / 256;
        i = i + 1;
    }
    assert(le_bytes(cur as nat, 0) =~= Seq::<u8>::empty());
    assert(out@ + Seq::<u8>::empty() =~= out@);
    out
}

/// A full-content hash fed in chunks while the file is read.
pub struct FullHasher {
    hasher: blake3::Hasher,
    bytes_read: u64,
}

impl FullHasher {
    /// The bytes absorbed so far.
    pub closed spec fn input(&self) -> Seq<u8> {
        hasher_input(self.hasher)
    }

    /// Bytes read so far, saturating.
    pub closed spec fn read_count(&self) -> u64 {
        self.bytes_read
    }

    pub fn new() -> (r: FullHasher)
        ensures
            r.input() == Seq::<u8>::empty(),
            r.read_count() == 0,
    {
        FullHasher { hasher: blake3_hasher_new(), bytes_read: 0 }
    }

    /// Absorbs one chunk.
    pub fn update(&mut self, chunk: &[u8])
        ensures
            final(self).input() == old(self).input() + chunk@,
            final(self).read_count() == if old(self).read_count() + chunk@.len() > u64::MAX {
                u64::MAX as int
            } else {
                old(self).read_count() + chunk@.len()
            },
    {
        blake3_hasher_update(&mut self.hasher, chunk);
        let n = chunk.len() as u64;
        self.bytes_read = self.bytes_read.saturating_add(n);
    }

    /// The digest of everything absorbed and the byte count.
    pub fn finish(&self) -> (r: HashResult)
        ensures
            r.hex@ == blake3_hex(self.input()),
            r.bytes_read == self.read_count(),
    {
        HashResult { hex: blake3_hasher_finalize_hex(&self.hasher), bytes_read: self.bytes_read }
    }
}

/// The bytes fed to the sampling fingerprint: the algorithm tag, the file
/// size, then each range's offset, length and contents.
pub open spec fn sample_input(size: u64, ranges: Seq<(u64, usize)>, data: Seq<Seq<u8>>) -> Seq<u8>
    decreases ranges.len(),
{
    if ranges.len() == 0 {
        SAMPLE_HASH_ALGORITHM@.map_values(|c: char| c as u8) + le64(size)
    } else {
        let k = ranges.len() - 1;
        sample_input(size, ranges.drop_last(), data.subrange(0, k)) + le64(ranges[k].0) + le64(
            ranges[k].1 as u64,
        ) + data[k]
    }
}

/// Total number of bytes in the chunks, saturating at `u64::MAX`.
pub open spec fn saturating_total(data: Seq<Seq<u8>>) -> nat
    decreases data.len(),
{
    if data.len() == 0 {
        0
    } else {
        let t = saturating_total(data.drop_last()) + data.last().len();
        if t > u64::MAX { u64::MAX as nat } else { t }
    }
}

/// All chunks, one after another.
pub open spec fn concat_all(chunks: Seq<Seq<u8>>) -> Seq<u8>
    decreases chunks.len(),
{
    if chunks.len() == 0 {
        Seq::empty()
    } else {
        concat_all(chunks.drop_last()) + chunks.last()
    }
}

/// `x` capped at `u64::MAX`.
pub open spec fn saturate(x: int) -> int {
    if x > u64::MAX { u64::MAX as int } else { x }
}

proof fn lemma_saturating_total(d: Seq<Seq<u8>>)
    ensures
        saturating_total(d) == saturate(concat_all(d).len() as int),
    decreases d.len(),
{
    if d.len() > 0 {
        lemma_saturating_total(d.drop_last());
    }
}

proof fn lemma_sample_input_step(size: u64, ranges: Seq<(u64, usize)>, data: Seq<Seq<u8>>, k: int, part: Seq<u8>)
    requires
        0 <= k < ranges.len(),
        data.len() == k,
    ensures
        sample_input(size, ranges.subrange(0, k + 1), data.push(part)) == sample_input(size, ranges.subrange(0, k), data)
            + le64(ranges[k].0) + le64(ranges[k].1 as u64) + part,
{
    let r = ranges.subrange(0, k + 1);
    let d = data.push(part);
    assert(r.drop_last() =~= ranges.subrange(0, k));
    assert(d.subrange(0, k) =~= data);
    assert(r[k] == ranges[k]);
    assert(d[k] == part);
}

/// The sampling fingerprint computed while the sampled ranges are read, one
/// chunk at a time: it asks for the next position to read and absorbs what
/// was read there.
pub struct SampleHasher {
    hasher: blake3::Hasher,
    size: u64,
    sample_bytes: usize,
    ranges: Vec<(u64, usize)>,
    current: usize,
    filled: usize,
    bytes_read: u64,
    done: Ghost<Seq<Seq<u8>>>,
    partial: Ghost<Seq<u8>>,
}

impl SampleHasher {
    /// The size of the file being sampled.
    pub closed spec fn file_size(&self) -> u64 {
        self.size
    }

    /// The sample amount per range.
    pub closed spec fn sample_amount(&self) -> usize {
        self.sample_bytes
    }

    /// The contents of the ranges read completely so far, in range order.
    pub closed spec fn ranges_read(&self) -> Seq<Seq<u8>> {
        self.done@
    }

    /// Every byte absorbed so far, in order.
    pub closed spec fn fed(&self) -> Seq<u8> {
        concat_all(self.done@) + self.partial@
    }

    /// Every sampled range has been read.
    pub closed spec fn is_done(&self) -> bool {
        self.current == self.ranges@.len()
    }

    /// Where the next read starts and how many bytes the current range still
    /// needs.
    pub closed spec fn pending(&self) -> (int, int) {
        (self.ranges@[self.current as int].0 + self.filled, self.ranges@[self.current as int].1 - self.filled)
    }

    closed spec fn inv(&self, settled: bool) -> bool {
        let rs = self.ranges@;
        let k = self.current as int;
        &&& rs == spec_sample_ranges(self.size, self.sample_bytes)
        &&& rs.len() == 1 || (rs.len() == 3 && forall|i: int| 0 <= i < 3 ==> rs[i].0 + rs[i].1 <= self.size)
        &&& k <= rs.len()
        &&& self.done@.len() == k
        &&& forall|i: int| 0 <= i < k ==> (#[trigger] self.done@[i]).len() == rs[i].1
        &&& self.bytes_read == saturate((concat_all(self.done@).len() + self.partial@.len()) as int)
        &&& if k < rs.len() {
            &&& self.filled == self.partial@.len()
            &&& if settled { self.filled < rs[k].1 } else { self.filled <= rs[k].1 }
            &&& hasher_input(self.hasher) == sample_input(self.size, rs.subrange(0, k), self.done@) + le64(rs[k].0)
                + le64(rs[k].1 as u64) + self.partial@
        } else {
            &&& self.partial@.len() == 0
            &&& hasher_input(self.hasher) == sample_input(self.size, rs, self.done@)
        }
    }

    /// The hasher is in a consistent state.
    pub closed spec fn wf(&self) -> bool {
        self.inv(true)
    }

    /// Absorbs the offset and length of the current range.
    fn feed_header(&mut self)
        requires
            old(self).current < old(self).ranges@.len(),
        ensures
            hasher_input(final(self).hasher) == hasher_input(old(self).hasher) + le64(
                old(self).ranges@[old(self).current as int].0,
            ) + le64(old(self).ranges@[old(self).current as int].1 as u64),
            final(self).size == old(self).size,
            final(self).sample_bytes == old(self).sample_bytes,
            final(self).ranges == old(self).ranges,
            final(self).current == old(self).current,
            final(self).filled == old(self).filled,
            final(self).bytes_read == old(self).bytes_read,
            final(self).done == old(self).done,
            final(self).partial == old(self).partial,
    {
        let (offset, length) = self.ranges[self.current];
        let off_le = u64_le_bytes(offset);
        let len_le = u64_le_bytes(length as u64);
        blake3_hasher_update(&mut self.hasher, off_le.as_slice());
        blake3_hasher_update(&mut self.hasher, len_le.as_slice());
    }

    /// Closes every range that is complete, opening the next one.
    fn settle(&mut self)
        requires
            old(self).inv(false),
        ensures
            final(self).inv(true),
            final(self).fed() == old(self).fed(),
            final(self).size == old(self).size,
            final(self).sample_bytes == old(self).sample_bytes,
    {
        while self.current < self.ranges.len() && self.filled == self.ranges[self.current].1
            invariant
                self.inv(false),
                self.fed() == old(self).fed(),
                self.size == old(self).size,
                self.sample_bytes == old(self).sample_bytes,
            decreases self.ranges@.len() - self.current,
        {
            let ghost k = self.current as int;
            let ghost rs = self.ranges@;
            let ghost d = self.done@;
            let ghost p = self.partial@;
            proof {
                lemma_sample_input_step(self.size, rs, d, k, p);
                assert(rs.subrange(0, k + 1).drop_last() =~= rs.subrange(0, k));
                assert(concat_all(d.push(p)) == concat_all(d.push(p).drop_last()) + p);
                assert(d.push(p).drop_last() =~= d);
                assert(concat_all(d.push(p)) + Seq::<u8>::empty() =~= concat_all(d) + p);
            }
            self.done = Ghost(d.push(p));
            self.partial = Ghost(Seq::<u8>::empty());
            self.current = self.current + 1;
            self.filled = 0;
            proof {
                assert forall|i: int| 0 <= i < k + 1 implies (#[trigger] self.done@[i]).len() == rs[i].1 by {
                    if i < k {
                        assert(self.done@[i] == d[i]);
                    }
                }
                if k + 1 == rs.len() {
                    assert(rs.subrange(0, k + 1) =~= rs);
                }
            }
            if self.current < self.ranges.len() {
                let ghost before = hasher_input(self.hasher);
                self.feed_header();
                proof {
                    assert(before + le64(rs[k + 1].0) + le64(rs[k + 1].1 as u64) + Seq::<u8>::empty() =~= before
                        + le64(rs[k + 1].0) + le64(rs[k + 1].1 as u64));
                }
            }
        }
    }

    /// A hasher for a file of `size` bytes: it has absorbed the algorithm tag
    /// and the size, and waits for the first sampled range.
    pub fn start(size: u64, sample_bytes: usize) -> (r: SampleHasher)
        ensures
            r.wf(),
            r.file_size() == size,
            r.sample_amount() == sample_bytes,
            r.fed() == Seq::<u8>::empty(),
    {
        let ranges = sample_ranges(size, sample_bytes);
        let mut hasher = blake3_hasher_new();
        let tag = SAMPLE_HASH_ALGORITHM.as_bytes();
        proof {
            reveal_strlit("blake3-sample-v1");
            vstd::string::is_ascii_spec_bytes(SAMPLE_HASH_ALGORITHM);
            assert(SAMPLE_HASH_ALGORITHM.spec_bytes() =~= SAMPLE_HASH_ALGORITHM@.map_values(|c: char| c as u8));
        }
        blake3_hasher_update(&mut hasher, tag);
        let size_le = u64_le_bytes(size);
        blake3_hasher_update(&mut hasher, size_le.as_slice());
        let mut r = SampleHasher {
            hasher,
            size,
            sample_bytes,
            ranges,
            current: 0,
            filled: 0,
            bytes_read: 0,
            done: Ghost(Seq::<Seq<u8>>::empty()),
            partial: Ghost(Seq::<u8>::empty()),
        };
        let ghost before = hasher_input(r.hasher);
        proof {
            assert(r.ranges@.subrange(0, 0) =~= Seq::<(u64, usize)>::empty());
            assert(before == sample_input(size, r.ranges@.subrange(0, 0), Seq::<Seq<u8>>::empty()));
        }
        r.feed_header();
        proof {
            let rs = r.ranges@;
            assert(before + le64(rs[0].0) + le64(rs[0].1 as u64) + Seq::<u8>::empty() =~= before + le64(rs[0].0)
                + le64(rs[0].1 as u64));
            assert(concat_all(Seq::<Seq<u8>>::empty()) + Seq::<u8>::empty() =~= Seq::<u8>::empty());
        }
        r.settle();
        r
    }

    /// The next read: its file offset and how many bytes the current range
    /// still needs; `None` once every range has been read.
    pub fn next_read(&self) -> (r: Option<(u64, usize)>)
        requires
            self.wf(),
        ensures
            r is None <==> self.is_done(),
            r matches Some(p) ==> p.0 == self.pending().0 && p.1 == self.pending().1 && p.1 > 0,
    {
        if self.current == self.ranges.len() {
            return None;
        }
        let (offset, length) = self.ranges[self.current];
        Some((offset + self.filled as u64, length - self.filled))
    }

    /// Absorbs bytes read at the pending position; at most what the current
    /// range still needs.
    pub fn feed(&mut self, chunk: &[u8])
        requires
            old(self).wf(),
            !old(self).is_done(),
            chunk@.len() <= old(self).pending().1,
        ensures
            final(self).wf(),
            final(self).fed() == old(self).fed() + chunk@,
            final(self).file_size() == old(self).file_size(),
            final(self).sample_amount() == old(self).sample_amount(),
    {
        let ghost k = self.current as int;
        let ghost rs = self.ranges@;
        let ghost p = self.partial@;
        let ghost before = hasher_input(self.hasher);
        blake3_hasher_update(&mut self.hasher, chunk);
        self.filled = self.filled + chunk.len();
        self.bytes_read = self.bytes_read.saturating_add(chunk.len() as u64);
        self.partial = Ghost(p + chunk@);
        proof {
            assert(before + chunk@ =~= sample_input(self.size, rs.subrange(0, k), self.done@) + le64(rs[k].0) + le64(
                rs[k].1 as u64,
            ) + (p + chunk@));
            assert(concat_all(self.done@) + (p + chunk@) =~= (concat_all(self.done@) + p) + chunk@);
        }
        self.settle();
    }

    /// The fingerprint once every range is read: the digest of the tag, the
    /// size and each range's offset, length and contents, and the number of
    /// bytes read (saturating).
    pub fn finish(&self) -> (r: HashResult)
        requires
            self.wf(),
            self.is_done(),
        ensures
            self.ranges_read().len() == spec_sample_ranges(self.file_size(), self.sample_amount()).len(),
            forall|k: int| 0 <= k < self.ranges_read().len() ==> (#[trigger] self.ranges_read()[k]).len()
                == spec_sample_ranges(self.file_size(), self.sample_amount())[k].1,
            concat_all(self.ranges_read()) == self.fed(),
            r.hex@ == blake3_hex(sample_input(self.file_size(), spec_sample_ranges(self.file_size(), self.sample_amount()), self.ranges_read())),
            r.bytes_read == saturating_total(self.ranges_read()),
    {
        proof {
            lemma_saturating_total(self.done@);
            assert(concat_all(self.done@) + self.partial@ =~= concat_all(self.done@));
        }
        HashResult { hex: blake3_hasher_finalize_hex(&self.hasher), bytes_read: self.bytes_read }
    }
}

/// Any way of cutting the bytes into chunks gives the one-shot digest: when
/// `states` are the successive hashers from `FullHasher::new` through one
/// `update` per chunk (as their contracts relate them), the last one has
/// absorbed exactly the concatenation of the chunks, so `finish` yields
/// `blake3_hex` of it (the digest `blake3::hash` gives), with the
/// saturating total of the chunk lengths as its byte count.
pub proof fn any_chunking_gives_the_one_shot_digest(states: Seq<FullHasher>, chunks: Seq<Seq<u8>>)
    requires
        states.len() == chunks.len() + 1,
        states[0].input() == Seq::<u8>::empty(),
        states[0].read_count() == 0,
        forall|i: int| 0 <= i < chunks.len() ==> (#[trigger] states[i + 1]).input() == states[i].input() + chunks[i],
        forall|i: int| 0 <= i < chunks.len() ==> (#[trigger] states[i + 1]).read_count() == if states[i].read_count()
            + chunks[i].len() > u64::MAX {
            u64::MAX as int
        } else {
            states[i].read_count() + chunks[i].len()
        },
    ensures
        states.last().input() == concat_all(chunks),
        states.last().read_count() == saturating_total(chunks),
    decreases chunks.len(),
{
    if chunks.len() > 0 {
        let n = chunks.len() - 1;
        let s = states.subrange(0, n + 1);
        let c = chunks.drop_last();
        assert forall|i: int| 0 <= i < c.len() implies (#[trigger] s[i + 1]).input() == s[i].input() + c[i] by {
            assert(s[i + 1] == states[i + 1]);
            assert(s[i] == states[i]);
            assert(c[i] == chunks[i]);
        }
        assert forall|i: int| 0 <= i < c.len() implies (#[trigger] s[i + 1]).read_count() == if s[i].read_count()
            + c[i].len() > u64::MAX {
            u64::MAX as int
        } else {
            s[i].read_count() + c[i].len()
        } by {
            assert(s[i + 1] == states[i + 1]);
            assert(s[i] == states[i]);
            assert(c[i] == chunks[i]);
        }
        assert(s[0] == states[0]);
        any_chunking_gives_the_one_shot_digest(s, c);
        assert(s.last() == states[n]);
        assert(states.last() == states[n + 1]);
        assert(chunks.last() == chunks[n]);
    }
}

} // verus!
