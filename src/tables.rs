//! Sample table atoms: time-to-sample (`stts`), sample-to-chunk (`stsc`),
//! sample sizes (`stsz`), chunk offsets (`stco`, `co64`), sync samples
//! (`stss`), composition offsets (`ctts`) and dependency flags (`sdtp`).
//!
//! Every decoder takes the atom's payload (the bytes after its header);
//! all integers are big-endian and every table starts with a one-byte
//! version and three flag bytes.

use vstd::prelude::*;

use crate::bytes::{
    array3_at, be_u16_at, be_u32_at, be_u64_at, be_words, be_words64, lemma_be_words,
    lemma_be_words64, u16_at, u32_at, u32_be_bytes, u64_at, u8_at,
};
use crate::error::Mp4Error;

verus! {

/// Fails with `ReadMismatch` unless the payload holds `need` bytes.
pub fn check_len(b: &[u8], need: u64) -> (r: Result<(), Mp4Error>)
    ensures
        r is Ok <==> b@.len() >= need,
        r is Err ==> r == Err::<(), Mp4Error>(Mp4Error::ReadMismatch { got: b@.len() as u64, expected: need }),
{
    if (b.len() as u64) < need {
        return Err(Mp4Error::ReadMismatch { got: b.len() as u64, expected: need });
    }
    Ok(())
}

/// The one-byte version, three flag bytes and entry count that open a table:
/// `r.0`, `r.1` and `r.2`.
fn table_prefix(b: &[u8]) -> (r: Result<(u8, [u8; 3], u32), Mp4Error>)
    ensures
        r is Ok <==> b@.len() >= 8,
        r is Ok ==> r->Ok_0.0 == b@[0] && r->Ok_0.1@ == b@.subrange(1, 4) && r->Ok_0.2 == be_u32_at(b@, 4),
        r is Err ==> r->Err_0 is ReadMismatch,
{
    check_len(b, 8)?;
    Ok((u8_at(b, 0), array3_at(b, 1), u32_at(b, 4)))
}

/// One run of the time-to-sample table: `sample_count` samples that each
/// last `sample_duration` time units.
#[derive(Debug, Clone, Copy, PartialEq, Eq)]
pub struct TimeToSample {
    pub sample_count: u32,
    pub sample_duration: u32,
}

impl TimeToSample {
    /// Number of samples in the run.
    pub fn sample_count(&self) -> (r: u32)
        ensures
            r == self.sample_count,
    {
        self.sample_count
    }

    /// Unscaled duration of each sample in the run.
    pub fn sample_duration(&self) -> (r: u32)
        ensures
            r == self.sample_duration,
    {
        self.sample_duration
    }
}

/// Per-sample durations of a time-to-sample table: each run expanded.
pub open spec fn expand_durations(t: Seq<TimeToSample>) -> Seq<u32>
    decreases t.len(),
{
    if t.len() == 0 {
        Seq::empty()
    } else {
        expand_durations(t.drop_last()) + Seq::new(t.last().sample_count as nat, |_j: int| t.last().sample_duration)
    }
}

/// Total number of samples of a time-to-sample table.
pub open spec fn sample_total(t: Seq<TimeToSample>) -> int
    decreases t.len(),
{
    if t.len() == 0 {
        0
    } else {
        sample_total(t.drop_last()) + t.last().sample_count
    }
}

/// Total unscaled duration of a time-to-sample table.
pub open spec fn duration_total(t: Seq<TimeToSample>) -> int
    decreases t.len(),
{
    if t.len() == 0 {
        0
    } else {
        duration_total(t.drop_last()) + t.last().sample_count * t.last().sample_duration
    }
}

/// The expanded durations have one entry per sample.
pub proof fn lemma_expand_durations_len(t: Seq<TimeToSample>)
    ensures
        expand_durations(t).len() == sample_total(t),
    decreases t.len(),
{
    if t.len() > 0 {
        lemma_expand_durations_len(t.drop_last());
    }
}

/// Time-to-sample atom (`stts`): run-length encoded sample durations.
#[derive(Debug, Clone)]
pub struct Stts {
    pub version: u8,
    pub flags: [u8; 3],
    pub table: Vec<TimeToSample>,
}

impl Stts {
    /// This value is what the payload `b` holds.
    pub open spec fn parsed_from(&self, b: Seq<u8>) -> bool {
        &&& b.len() >= 8 + 8 * self.table@.len()
        &&& self.version == b[0]
        &&& self.flags@ == b.subrange(1, 4)
        &&& self.table@.len() == be_u32_at(b, 4)
        &&& forall|i: int|
            0 <= i < self.table@.len() ==> #[trigger] self.table@[i].sample_count == be_u32_at(b, 8 + 8 * i)
                && self.table@[i].sample_duration == be_u32_at(b, 12 + 8 * i)
    }

    /// The table as the words it is written with.
    pub open spec fn words(&self) -> Seq<u32> {
        Seq::new(
            2 * self.table@.len(),
            |j: int|
                if j % 2 == 0 {
                    self.table@[j / 2].sample_count
                } else {
                    self.table@[j / 2].sample_duration
                },
        )
    }

    /// The bytes this value is written as.
    pub open spec fn layout(&self) -> Seq<u8> {
        seq![self.version] + self.flags@ + u32_be_bytes(self.table@.len() as u32) + be_words(self.words())
    }

    /// Decodes the payload of an `stts` atom.
    pub fn parse(b: &[u8]) -> (r: Result<Stts, Mp4Error>)
        ensures
            r is Ok <==> (b@.len() >= 8 && b@.len() >= 8 + 8 * be_u32_at(b@, 4)),
            r is Ok ==> r->Ok_0.parsed_from(b@),
            r is Err ==> r->Err_0 is ReadMismatch,
    {
        let (version, flags, n) = table_prefix(b)?;
        check_len(b, 8 + 8 * (n as u64))?;
        let _len = b.len();
        let mut table: Vec<TimeToSample> = Vec::new();
        let mut i: usize = 0;
        while i < n as usize
            invariant
                b@.len() <= usize::MAX,
                b@.len() >= 8 + 8 * n,
                n == be_u32_at(b@, 4),
                i <= n,
                table@.len() == i,
                forall|k: int|
                    0 <= k < i ==> #[trigger] table@[k].sample_count == be_u32_at(b@, 8 + 8 * k)
                        && table@[k].sample_duration == be_u32_at(b@, 12 + 8 * k),
            decreases n - i,
        {
            let e = TimeToSample { sample_count: u32_at(b, 8 + 8 * i), sample_duration: u32_at(b, 12 + 8 * i) };
            table.push(e);
            i = i + 1;
        }
        Ok(Stts { version, flags, table })
    }

    /// Total number of samples, when it fits in `usize`.
    pub fn len(&self) -> (r: Option<usize>)
        ensures
            r is Some <==> sample_total(self.table@) <= usize::MAX,
            r is Some ==> r.unwrap() == sample_total(self.table@),
    {
        let mut sum: usize = 0;
        let mut i: usize = 0;
        while i < self.table.len()
            invariant
                i <= self.table@.len(),
                sum == sample_total(self.table@.subrange(0, i as int)),
            decreases self.table@.len() - i,
        {
            proof {
                assert(self.table@.subrange(0, i + 1).drop_last() =~= self.table@.subrange(0, i as int));
                lemma_sample_total_prefix(self.table@, i + 1);
            }
            let c = self.table[i].sample_count as usize;
            if sum > usize::MAX - c {
                return None;
            }
            sum = sum + c;
            i = i + 1;
        }
        proof {
            assert(self.table@.subrange(0, i as int) =~= self.table@);
        }
        Some(sum)
    }

    /// The table as `(sample_count, sample_duration)` pairs.
    pub fn table(&self) -> (r: Vec<(u32, u32)>)
        ensures
            r@.len() == self.table@.len(),
            forall|i: int|
                0 <= i < r@.len() ==> #[trigger] r@[i] == (self.table@[i].sample_count, self.table@[i].sample_duration),
    {
        let mut r: Vec<(u32, u32)> = Vec::new();
        let mut i: usize = 0;
        while i < self.table.len()
            invariant
                i <= self.table@.len(),
                r@.len() == i,
                forall|k: int|
                    0 <= k < i ==> #[trigger] r@[k] == (self.table@[k].sample_count, self.table@[k].sample_duration),
            decreases self.table@.len() - i,
        {
            r.push((self.table[i].sample_count, self.table[i].sample_duration));
            i = i + 1;
        }
        r
    }

    /// Unscaled duration of every sample, in order.
    pub fn durations(&self) -> (r: Vec<u32>)
        ensures
            r@ == expand_durations(self.table@),
    {
        let mut r: Vec<u32> = Vec::new();
        let mut i: usize = 0;
        while i < self.table.len()
            invariant
                i <= self.table@.len(),
                r@ == expand_durations(self.table@.subrange(0, i as int)),
            decreases self.table@.len() - i,
        {
            let e = self.table[i];
            let ghost prefix = r@;
            let mut j: u32 = 0;
            while j < e.sample_count
                invariant
                    j <= e.sample_count,
                    r@ == prefix + Seq::new(j as nat, |_k: int| e.sample_duration),
                decreases e.sample_count - j,
            {
                r.push(e.sample_duration);
                proof {
                    assert(r@ =~= prefix + Seq::new((j + 1) as nat, |_k: int| e.sample_duration));
                }
                j = j + 1;
            }
            proof {
                let t = self.table@.subrange(0, i + 1);
                assert(t.drop_last() =~= self.table@.subrange(0, i as int));
                assert(t.last() == e);
            }
            i = i + 1;
        }
        proof {
            assert(self.table@.subrange(0, i as int) =~= self.table@);
        }
        r
    }

    /// Unscaled duration of every sample, in order.
    pub fn expand(&self) -> (r: Vec<u32>)
        ensures
            r@ == expand_durations(self.table@),
    {
        self.durations()
    }

    /// The unscaled sample duration when the table has exactly one run.
    pub fn duration(&self) -> (r: Option<u32>)
        ensures
            r is Some <==> self.table@.len() == 1,
            r is Some ==> r.unwrap() == self.table@[0].sample_duration,
    {
        if self.table.len() == 1 {
            Some(self.table[0].sample_duration)
        } else {
            None
        }
    }

    /// Total unscaled duration of all samples.
    pub fn duration_sum(&self) -> (r: u128)
        ensures
            r == duration_total(self.table@),
    {
        let mut sum: u128 = 0;
        let mut i: usize = 0;
        while i < self.table.len()
            invariant
                i <= self.table@.len(),
                sum == duration_total(self.table@.subrange(0, i as int)),
                sum <= i * 0x1_0000_0000_0000_0000,
            decreases self.table@.len() - i,
        {
            let e = self.table[i];
            proof {
                let (c, u) = (e.sample_count as int, e.sample_duration as int);
                assert(0 <= c * u <= 0xFFFF_FFFF * 0xFFFF_FFFF) by (nonlinear_arith)
                    requires
                        0 <= c <= 0xFFFF_FFFF,
                        0 <= u <= 0xFFFF_FFFF,
                ;
            }
            let d = (e.sample_count as u64) * (e.sample_duration as u64);
            proof {
                assert(self.table@.subrange(0, i + 1).drop_last() =~= self.table@.subrange(0, i as int));
                assert(i < usize::MAX);
            }
            sum = sum + d as u128;
            i = i + 1;
        }
        proof {
            assert(self.table@.subrange(0, i as int) =~= self.table@);
        }
        sum
    }

    /// Total number of samples.
    pub fn sample_sum(&self) -> (r: u128)
        ensures
            r == sample_total(self.table@),
    {
        let mut sum: u128 = 0;
        let mut i: usize = 0;
        while i < self.table.len()
            invariant
                i <= self.table@.len(),
                sum == sample_total(self.table@.subrange(0, i as int)),
                sum <= i * 0x1_0000_0000,
            decreases self.table@.len() - i,
        {
            proof {
                assert(self.table@.subrange(0, i + 1).drop_last() =~= self.table@.subrange(0, i as int));
                assert(i < usize::MAX);
            }
            sum = sum + self.table[i].sample_count as u128;
            i = i + 1;
        }
        proof {
            assert(self.table@.subrange(0, i as int) =~= self.table@);
        }
        sum
    }
}

proof fn lemma_sample_total_prefix(t: Seq<TimeToSample>, k: int)
    requires
        0 <= k <= t.len(),
    ensures
        0 <= sample_total(t.subrange(0, k)) <= sample_total(t),
    decreases t.len() - k,
{
    if k == t.len() {
        assert(t.subrange(0, k) =~= t);
        lemma_sample_total_nonneg(t);
    } else {
        assert(t.subrange(0, k + 1).drop_last() =~= t.subrange(0, k));
        assert(sample_total(t.subrange(0, k + 1)) == sample_total(t.subrange(0, k)) + t[k].sample_count);
        lemma_sample_total_prefix(t, k + 1);
        lemma_sample_total_nonneg(t.subrange(0, k));
    }
}

proof fn lemma_sample_total_nonneg(t: Seq<TimeToSample>)
    ensures
        sample_total(t) >= 0,
    decreases t.len(),
{
    if t.len() > 0 {
        lemma_sample_total_nonneg(t.drop_last());
    }
}

/// Writing a decoded `stts` back with the same layout gives the bytes it was
/// decoded from.
pub proof fn lemma_stts_round_trip(x: Stts, b: Seq<u8>)
    requires
        x.parsed_from(b),
    ensures
        x.layout() == b.subrange(0, x.layout().len() as int),
        x.layout().len() == 8 + 8 * x.table@.len(),
{
    let w = x.words();
    assert forall|j: int| 0 <= j < w.len() implies #[trigger] w[j] == be_u32_at(b, 8 + 4 * j) by {
        let k = j / 2;
        assert(0 <= k < x.table@.len());
        assert(x.table@[k].sample_count == be_u32_at(b, 8 + 8 * k));
        if j % 2 == 0 {
            assert(8 + 4 * j == 8 + 8 * k);
        } else {
            assert(8 + 4 * j == 12 + 8 * k);
        }
    }
    lemma_be_words(b, 8, w);
    crate::bytes::lemma_be_u32_round_trip(b, 4, x.table@.len() as u32);
    assert(x.layout() =~= b.subrange(0, 8 + 8 * x.table@.len() as int));
}


/// One entry of the sample-to-chunk table: from chunk `first_chunk` (1-based)
/// on, each chunk holds `samples_per_chunk` samples, until the next entry.
#[derive(Debug, Clone, Copy, PartialEq, Eq)]
pub struct SampleToChunk {
    pub first_chunk: u32,
    pub samples_per_chunk: u32,
    pub sample_description_id: u32,
}

/// Index of the last adjacent pair `(t[i], t[i + 1])`, with `i < k`, whose
/// range `[t[i].first_chunk, t[i + 1].first_chunk)` holds `chunk`; -1 when none does.
pub open spec fn window_hit(t: Seq<SampleToChunk>, chunk: int, k: int) -> int
    decreases k,
{
    if k <= 0 || k >= t.len() {
        -1
    } else if t[k - 1].first_chunk <= chunk < t[k].first_chunk {
        k - 1
    } else {
        window_hit(t, chunk, k - 1)
    }
}

/// Number of samples in the 1-based `chunk`: the only entry's count when the
/// table has one entry; else the count of the entry whose range holds the
/// chunk; else the last entry's count for chunks from its first chunk on.
pub open spec fn samples_in_chunk(t: Seq<SampleToChunk>, chunk: int) -> Option<u32> {
    if t.len() == 1 {
        Some(t[0].samples_per_chunk)
    } else {
        let w = window_hit(t, chunk, t.len() - 1);
        if w >= 0 {
            Some(t[w].samples_per_chunk)
        } else if t.len() > 0 && chunk >= t.last().first_chunk {
            Some(t.last().samples_per_chunk)
        } else {
            None
        }
    }
}

/// Total samples in chunks `1..=k`, when every one of them has an entry.
pub open spec fn samples_in_chunks(t: Seq<SampleToChunk>, k: int) -> Option<int>
    decreases k,
{
    if k <= 0 {
        Some(0)
    } else {
        match (samples_in_chunks(t, k - 1), samples_in_chunk(t, k)) {
            (Some(a), Some(n)) => Some(a + n),
            _ => None,
        }
    }
}

/// Sample-to-chunk atom (`stsc`): run-length encoded samples per chunk.
#[derive(Debug, Clone)]
pub struct Stsc {
    pub version: u8,
    pub flags: [u8; 3],
    pub table: Vec<SampleToChunk>,
}

impl Stsc {
    /// This value is what the payload `b` holds.
    pub open spec fn parsed_from(&self, b: Seq<u8>) -> bool {
        &&& b.len() >= 8 + 12 * self.table@.len()
        &&& self.version == b[0]
        &&& self.flags@ == b.subrange(1, 4)
        &&& self.table@.len() == be_u32_at(b, 4)
        &&& forall|i: int|
            0 <= i < self.table@.len() ==> #[trigger] self.table@[i].first_chunk == be_u32_at(b, 8 + 12 * i)
                && self.table@[i].samples_per_chunk == be_u32_at(b, 12 + 12 * i)
                && self.table@[i].sample_description_id == be_u32_at(b, 16 + 12 * i)
    }

    /// The table as the words it is written with.
    pub open spec fn words(&self) -> Seq<u32> {
        Seq::new(
            3 * self.table@.len(),
            |j: int|
                if j % 3 == 0 {
                    self.table@[j / 3].first_chunk
                } else if j % 3 == 1 {
                    self.table@[j / 3].samples_per_chunk
                } else {
                    self.table@[j / 3].sample_description_id
                },
        )
    }

    /// The bytes this value is written as.
    pub open spec fn layout(&self) -> Seq<u8> {
        seq![self.version] + self.flags@ + u32_be_bytes(self.table@.len() as u32) + be_words(self.words())
    }

    /// Decodes the payload of an `stsc` atom.
    pub fn parse(b: &[u8]) -> (r: Result<Stsc, Mp4Error>)
        ensures
            r is Ok <==> (b@.len() >= 8 && b@.len() >= 8 + 12 * be_u32_at(b@, 4)),
            r is Ok ==> r->Ok_0.parsed_from(b@),
            r is Err ==> r->Err_0 is ReadMismatch,
    {
        let (version, flags, n) = table_prefix(b)?;
        check_len(b, 8 + 12 * (n as u64))?;
        let _len = b.len();
        let mut table: Vec<SampleToChunk> = Vec::new();
        let mut i: usize = 0;
        while i < n as usize
            invariant
                b@.len() <= usize::MAX,
                b@.len() >= 8 + 12 * n,
                n == be_u32_at(b@, 4),
                i <= n,
                table@.len() == i,
                forall|k: int|
                    0 <= k < i ==> #[trigger] table@[k].first_chunk == be_u32_at(b@, 8 + 12 * k)
                        && table@[k].samples_per_chunk == be_u32_at(b@, 12 + 12 * k)
                        && table@[k].sample_description_id == be_u32_at(b@, 16 + 12 * k),
            decreases n - i,
        {
            let e = SampleToChunk {
                first_chunk: u32_at(b, 8 + 12 * i),
                samples_per_chunk: u32_at(b, 12 + 12 * i),
                sample_description_id: u32_at(b, 16 + 12 * i),
            };
            table.push(e);
            i = i + 1;
        }
        Ok(Stsc { version, flags, table })
    }

    /// Number of samples in the chunk with 1-based index `chunk_index`;
    /// `None` when no entry covers it.
    pub fn no_of_samples(&self, chunk_index: usize) -> (r: Option<u32>)
        ensures
            r == samples_in_chunk(self.table@, chunk_index as int),
    {
        let len = self.table.len();
        if len == 1 {
            return Some(self.table[0].samples_per_chunk);
        }
        let mut hit: Option<usize> = None;
        let mut i: usize = 1;
        while i < len
            invariant
                len == self.table@.len(),
                1 <= i <= len || len == 0,
                hit is Some ==> hit.unwrap() == window_hit(self.table@, chunk_index as int, i - 1) && hit.unwrap() < len,
                hit is None ==> window_hit(self.table@, chunk_index as int, i - 1) == -1,
            decreases len - i,
        {
            if self.table[i - 1].first_chunk as usize <= chunk_index && chunk_index < self.table[i].first_chunk as usize {
                hit = Some(i - 1);
            }
            i = i + 1;
        }
        match hit {
            Some(w) => Some(self.table[w].samples_per_chunk),
            None => {
                if len > 0 && chunk_index >= self.table[len - 1].first_chunk as usize {
                    Some(self.table[len - 1].samples_per_chunk)
                } else {
                    None
                }
            },
        }
    }

    /// Total number of samples in the first `chunk_count` chunks; `None`
    /// when one of them has no entry.
    pub fn len(&self, chunk_count: usize) -> (r: Option<u128>)
        ensures
            r is Some <==> samples_in_chunks(self.table@, chunk_count as int) is Some,
            r is Some ==> r.unwrap() == samples_in_chunks(self.table@, chunk_count as int).unwrap(),
    {
        let mut sum: u128 = 0;
        let mut c: usize = 0;
        while c < chunk_count
            invariant
                c <= chunk_count,
                samples_in_chunks(self.table@, c as int) == Some(sum as int),
                sum <= c * 0x1_0000_0000,
            decreases chunk_count - c,
        {
            match self.no_of_samples(c + 1) {
                Some(n) => {
                    sum = sum + n as u128;
                },
                None => {
                    proof {
                        lemma_samples_in_chunks_none(self.table@, c + 1, chunk_count as int);
                    }
                    return None;
                },
            }
            c = c + 1;
        }
        Some(sum)
    }
}

proof fn lemma_samples_in_chunks_none(t: Seq<SampleToChunk>, k: int, m: int)
    requires
        1 <= k <= m,
        samples_in_chunk(t, k) is None,
    ensures
        samples_in_chunks(t, m) is None,
    decreases m - k,
{
    if m > k {
        lemma_samples_in_chunks_none(t, k, m - 1);
    }
}

/// Writing a decoded `stsc` back with the same layout gives the bytes it was
/// decoded from.
pub proof fn lemma_stsc_round_trip(x: Stsc, b: Seq<u8>)
    requires
        x.parsed_from(b),
    ensures
        x.layout() == b.subrange(0, x.layout().len() as int),
        x.layout().len() == 8 + 12 * x.table@.len(),
{
    let w = x.words();
    assert forall|j: int| 0 <= j < w.len() implies #[trigger] w[j] == be_u32_at(b, 8 + 4 * j) by {
        let k = j / 3;
        assert(0 <= k < x.table@.len());
        assert(x.table@[k].first_chunk == be_u32_at(b, 8 + 12 * k));
        if j % 3 == 0 {
            assert(8 + 4 * j == 8 + 12 * k);
        } else if j % 3 == 1 {
            assert(8 + 4 * j == 12 + 12 * k);
        } else {
            assert(8 + 4 * j == 16 + 12 * k);
        }
    }
    lemma_be_words(b, 8, w);
    crate::bytes::lemma_be_u32_round_trip(b, 4, x.table@.len() as u32);
    assert(x.layout() =~= b.subrange(0, 8 + 12 * x.table@.len() as int));
}

/// Sample size atom (`stsz`). With a non-zero `sample_size` every sample
/// has that size and no list follows; otherwise `sizes` lists them.
#[derive(Debug, Clone)]
pub struct Stsz {
    pub version: u8,
    pub flags: [u8; 3],
    pub sample_size: u32,
    pub no_of_entries: u32,
    pub sizes: Vec<u32>,
}

impl Stsz {
    /// Size of every sample, in order.
    pub open spec fn expanded(&self) -> Seq<u32> {
        if self.sample_size != 0 {
            Seq::new(self.no_of_entries as nat, |_i: int| self.sample_size)
        } else {
            self.sizes@
        }
    }

    /// The list is stored only when there is no common size, and then has
    /// one entry per sample.
    pub open spec fn wf(&self) -> bool {
        if self.sample_size != 0 {
            self.sizes@.len() == 0
        } else {
            self.sizes@.len() == self.no_of_entries
        }
    }

    /// This value is what the payload `b` holds.
    pub open spec fn parsed_from(&self, b: Seq<u8>) -> bool {
        &&& b.len() >= 12
        &&& self.version == b[0]
        &&& self.flags@ == b.subrange(1, 4)
        &&& self.sample_size == be_u32_at(b, 4)
        &&& self.no_of_entries == be_u32_at(b, 8)
        &&& self.wf()
        &&& self.sample_size == 0 ==> b.len() >= 12 + 4 * self.sizes@.len()
        &&& forall|i: int| 0 <= i < self.sizes@.len() ==> #[trigger] self.sizes@[i] == be_u32_at(b, 12 + 4 * i)
    }

    /// The bytes this value is written as.
    pub open spec fn layout(&self) -> Seq<u8> {
        seq![self.version] + self.flags@ + u32_be_bytes(self.sample_size) + u32_be_bytes(self.no_of_entries)
            + be_words(self.sizes@)
    }

    /// Decodes the payload of an `stsz` atom.
    pub fn parse(b: &[u8]) -> (r: Result<Stsz, Mp4Error>)
        ensures
            r is Ok <==> (b@.len() >= 12 && (be_u32_at(b@, 4) != 0 || b@.len() >= 12 + 4 * be_u32_at(b@, 8))),
            r is Ok ==> r->Ok_0.parsed_from(b@),
            r is Err ==> r->Err_0 is ReadMismatch,
    {
        check_len(b, 12)?;
        let version = u8_at(b, 0);
        let flags = array3_at(b, 1);
        let sample_size = u32_at(b, 4);
        let n = u32_at(b, 8);
        let mut sizes: Vec<u32> = Vec::new();
        if sample_size == 0 {
            check_len(b, 12 + 4 * (n as u64))?;
            let _len = b.len();
            let mut i: usize = 0;
            while i < n as usize
                invariant
                    b@.len() <= usize::MAX,
                    b@.len() >= 12 + 4 * n,
                    i <= n,
                    sizes@.len() == i,
                    forall|k: int| 0 <= k < i ==> #[trigger] sizes@[k] == be_u32_at(b@, 12 + 4 * k),
                decreases n - i,
            {
                sizes.push(u32_at(b, 12 + 4 * i));
                i = i + 1;
            }
        }
        Ok(Stsz { version, flags, sample_size, no_of_entries: n, sizes })
    }

    /// Number of samples.
    pub fn len(&self) -> (r: usize)
        ensures
            r == self.no_of_entries,
    {
        self.no_of_entries as usize
    }

    /// The common sample size, or 0 when sizes are listed.
    pub fn sample_size(&self) -> (r: u32)
        ensures
            r == self.sample_size,
    {
        self.sample_size
    }

    /// Size of sample `i` (0-based).
    pub fn size(&self, i: usize) -> (r: Option<u32>)
        requires
            self.wf(),
        ensures
            r is Some <==> i < self.expanded().len(),
            r is Some ==> r.unwrap() == self.expanded()[i as int],
    {
        if self.sample_size != 0 {
            if i < self.no_of_entries as usize {
                Some(self.sample_size)
            } else {
                None
            }
        } else if i < self.sizes.len() {
            Some(self.sizes[i])
        } else {
            None
        }
    }

    /// Size of every sample, in order (the common size repeated when there
    /// is one).
    pub fn expand(&self) -> (r: Vec<u32>)
        ensures
            r@ == self.expanded(),
    {
        if self.sample_size != 0 {
            let mut r: Vec<u32> = Vec::new();
            let mut i: u32 = 0;
            while i < self.no_of_entries
                invariant
                    self.sample_size != 0,
                    i <= self.no_of_entries,
                    r@ =~= Seq::new(i as nat, |_k: int| self.sample_size),
                decreases self.no_of_entries - i,
            {
                r.push(self.sample_size);
                i = i + 1;
            }
            r
        } else {
            let r = self.sizes.clone();
            proof {
                assert(r@ =~= self.sizes@);
            }
            r
        }
    }

    /// Size of every sample, in order.
    pub fn sizes(&self) -> (r: Vec<u32>)
        ensures
            r@ == self.expanded(),
    {
        self.expand()
    }
}

/// Decoding the same `stsz` payload twice and expanding both gives identical
/// size lists.
pub proof fn lemma_stsz_expand_deterministic(x: Stsz, y: Stsz, b: Seq<u8>)
    requires
        x.parsed_from(b),
        y.parsed_from(b),
    ensures
        x.expanded() == y.expanded(),
{
    if x.sample_size == 0 {
        assert(x.sizes@ =~= y.sizes@);
    }
}

/// Writing a decoded `stsz` back with the same layout gives the bytes it was
/// decoded from.
pub proof fn lemma_stsz_round_trip(x: Stsz, b: Seq<u8>)
    requires
        x.parsed_from(b),
    ensures
        x.layout() == b.subrange(0, x.layout().len() as int),
        x.layout().len() == 12 + 4 * x.sizes@.len(),
{
    lemma_be_words(b, 12, x.sizes@);
    crate::bytes::lemma_be_u32_round_trip(b, 4, x.sample_size);
    crate::bytes::lemma_be_u32_round_trip(b, 8, x.no_of_entries);
    assert(x.layout() =~= b.subrange(0, 12 + 4 * x.sizes@.len() as int));
}

/// Chunk offset atom with 32-bit offsets (`stco`).
#[derive(Debug, Clone)]
pub struct Stco {
    pub version: u8,
    pub flags: [u8; 3],
    pub no_of_entries: u32,
    pub offsets: Vec<u32>,
}

impl Stco {
    /// This value is what the payload `b` holds.
    pub open spec fn parsed_from(&self, b: Seq<u8>) -> bool {
        &&& b.len() >= 8 + 4 * self.offsets@.len()
        &&& self.version == b[0]
        &&& self.flags@ == b.subrange(1, 4)
        &&& self.no_of_entries == be_u32_at(b, 4)
        &&& self.offsets@.len() == self.no_of_entries
        &&& forall|i: int| 0 <= i < self.offsets@.len() ==> #[trigger] self.offsets@[i] == be_u32_at(b, 8 + 4 * i)
    }

    /// The bytes this value is written as.
    pub open spec fn layout(&self) -> Seq<u8> {
        seq![self.version] + self.flags@ + u32_be_bytes(self.no_of_entries) + be_words(self.offsets@)
    }

    /// Decodes the payload of an `stco` atom.
    pub fn parse(b: &[u8]) -> (r: Result<Stco, Mp4Error>)
        ensures
            r is Ok <==> (b@.len() >= 8 && b@.len() >= 8 + 4 * be_u32_at(b@, 4)),
            r is Ok ==> r->Ok_0.parsed_from(b@),
            r is Err ==> r->Err_0 is ReadMismatch,
    {
        let (version, flags, n) = table_prefix(b)?;
        check_len(b, 8 + 4 * (n as u64))?;
        let _len = b.len();
        let mut offsets: Vec<u32> = Vec::new();
        let mut i: usize = 0;
        while i < n as usize
            invariant
                b@.len() <= usize::MAX,
                b@.len() >= 8 + 4 * n,
                i <= n,
                offsets@.len() == i,
                forall|k: int| 0 <= k < i ==> #[trigger] offsets@[k] == be_u32_at(b@, 8 + 4 * k),
            decreases n - i,
        {
            offsets.push(u32_at(b, 8 + 4 * i));
            i = i + 1;
        }
        Ok(Stco { version, flags, no_of_entries: n, offsets })
    }

    /// Number of chunks.
    pub fn len(&self) -> (r: usize)
        ensures
            r == self.offsets@.len(),
    {
        self.offsets.len()
    }

    /// The atom's version byte.
    pub fn version(&self) -> (r: u8)
        ensures
            r == self.version,
    {
        self.version
    }

    /// The atom's three flag bytes.
    pub fn flags(&self) -> (r: [u8; 3])
        ensures
            r == self.flags,
    {
        self.flags
    }

    /// The entry count as written in the atom.
    pub fn no_of_entries(&self) -> (r: u32)
        ensures
            r == self.no_of_entries,
    {
        self.no_of_entries
    }

    /// Chunk offsets, in order.
    pub fn offsets(&self) -> (r: Vec<u32>)
        ensures
            r@ == self.offsets@,
    {
        let r = self.offsets.clone();
        proof {
            assert(r@ =~= self.offsets@);
        }
        r
    }

    /// Offset of the chunk with 0-based index `chunk_id`.
    pub fn get(&self, chunk_id: usize) -> (r: Option<u32>)
        ensures
            r is Some <==> chunk_id < self.offsets@.len(),
            r is Some ==> r.unwrap() == self.offsets@[chunk_id as int],
    {
        if chunk_id < self.offsets.len() {
            Some(self.offsets[chunk_id])
        } else {
            None
        }
    }

    /// Chunk offsets, in order.
    pub fn expand(&self) -> (r: Vec<u32>)
        ensures
            r@ == self.offsets@,
    {
        self.offsets()
    }
}

/// Writing a decoded `stco` back with the same layout gives the bytes it was
/// decoded from.
pub proof fn lemma_stco_round_trip(x: Stco, b: Seq<u8>)
    requires
        x.parsed_from(b),
    ensures
        x.layout() == b.subrange(0, x.layout().len() as int),
        x.layout().len() == 8 + 4 * x.offsets@.len(),
{
    lemma_be_words(b, 8, x.offsets@);
    crate::bytes::lemma_be_u32_round_trip(b, 4, x.no_of_entries);
    assert(x.layout() =~= b.subrange(0, 8 + 4 * x.offsets@.len() as int));
}

/// Chunk offset atom with 64-bit offsets (`co64`). A decoded `stco` is
/// widened to this form, so later steps see 64-bit offsets only.
#[derive(Debug, Clone)]
pub struct Co64 {
    pub version: u8,
    pub flags: [u8; 3],
    pub no_of_entries: u32,
    pub offsets: Vec<u64>,
}

impl Co64 {
    /// This value is what the payload `b` holds.
    pub open spec fn parsed_from(&self, b: Seq<u8>) -> bool {
        &&& b.len() >= 8 + 8 * self.offsets@.len()
        &&& self.version == b[0]
        &&& self.flags@ == b.subrange(1, 4)
        &&& self.no_of_entries == be_u32_at(b, 4)
        &&& self.offsets@.len() == self.no_of_entries
        &&& forall|i: int| 0 <= i < self.offsets@.len() ==> #[trigger] self.offsets@[i] == be_u64_at(b, 8 + 8 * i)
    }

    /// The bytes this value is written as.
    pub open spec fn layout(&self) -> Seq<u8> {
        seq![self.version] + self.flags@ + u32_be_bytes(self.no_of_entries) + be_words64(self.offsets@)
    }

    /// Decodes the payload of a `co64` atom.
    pub fn parse(b: &[u8]) -> (r: Result<Co64, Mp4Error>)
        ensures
            r is Ok <==> (b@.len() >= 8 && b@.len() >= 8 + 8 * be_u32_at(b@, 4)),
            r is Ok ==> r->Ok_0.parsed_from(b@),
            r is Err ==> r->Err_0 is ReadMismatch,
    {
        let (version, flags, n) = table_prefix(b)?;
        check_len(b, 8 + 8 * (n as u64))?;
        let _len = b.len();
        let mut offsets: Vec<u64> = Vec::new();
        let mut i: usize = 0;
        while i < n as usize
            invariant
                b@.len() <= usize::MAX,
                b@.len() >= 8 + 8 * n,
                i <= n,
                offsets@.len() == i,
                forall|k: int| 0 <= k < i ==> #[trigger] offsets@[k] == be_u64_at(b@, 8 + 8 * k),
            decreases n - i,
        {
            offsets.push(u64_at(b, 8 + 8 * i));
            i = i + 1;
        }
        Ok(Co64 { version, flags, no_of_entries: n, offsets })
    }

    /// Number of chunks.
    pub fn len(&self) -> (r: usize)
        ensures
            r == self.offsets@.len(),
    {
        self.offsets.len()
    }

    /// Chunk offsets, in order.
    pub fn offsets(&self) -> (r: &[u64])
        ensures
            r@ == self.offsets@,
    {
        self.offsets.as_slice()
    }

    /// Chunk offsets, in order.
    pub fn expand(&self) -> (r: Vec<u64>)
        ensures
            r@ == self.offsets@,
    {
        let r = self.offsets.clone();
        proof {
            assert(r@ =~= self.offsets@);
        }
        r
    }

    /// The same table with each offset widened to 64 bits.
    pub fn from_stco(stco: Stco) -> (r: Co64)
        ensures
            r.version == stco.version,
            r.flags == stco.flags,
            r.no_of_entries == stco.no_of_entries,
            r.offsets@.len() == stco.offsets@.len(),
            forall|i: int| 0 <= i < r.offsets@.len() ==> #[trigger] r.offsets@[i] == stco.offsets@[i],
    {
        let mut offsets: Vec<u64> = Vec::new();
        let mut i: usize = 0;
        while i < stco.offsets.len()
            invariant
                i <= stco.offsets@.len(),
                offsets@.len() == i,
                forall|k: int| 0 <= k < i ==> #[trigger] offsets@[k] == stco.offsets@[k],
            decreases stco.offsets@.len() - i,
        {
            offsets.push(stco.offsets[i] as u64);
            i = i + 1;
        }
        Co64 { version: stco.version, flags: stco.flags, no_of_entries: stco.no_of_entries, offsets }
    }
}

/// Writing a decoded `co64` back with the same layout gives the bytes it was
/// decoded from.
pub proof fn lemma_co64_round_trip(x: Co64, b: Seq<u8>)
    requires
        x.parsed_from(b),
    ensures
        x.layout() == b.subrange(0, x.layout().len() as int),
        x.layout().len() == 8 + 8 * x.offsets@.len(),
{
    lemma_be_words64(b, 8, x.offsets@);
    crate::bytes::lemma_be_u32_round_trip(b, 4, x.no_of_entries);
    assert(x.layout() =~= b.subrange(0, 8 + 8 * x.offsets@.len() as int));
}

} // verus!
