//! Reconstruction of a track's per-sample `(position, size, duration)`
//! table from its chunk offsets (`stco`/`co64`), sample-to-chunk table
//! (`stsc`), sample sizes (`stsz`) and durations (`stts`).

use vstd::prelude::*;

use crate::error::Mp4Error;
use crate::tables::{expand_durations, lemma_expand_durations_len, sample_total, samples_in_chunk, Co64, SampleToChunk, Stsc, Stsz, Stts};
use crate::timing::{effective_scale, Duration};

verus! {

/// Sum of the first `k` sizes.
pub open spec fn size_sum(s: Seq<u32>, k: int) -> int
    decreases k,
{
    if k <= 0 {
        0
    } else {
        size_sum(s, k - 1) + s[k - 1]
    }
}

/// Positions of the samples of one chunk that starts at `start`: each
/// sample follows the one before it.
pub open spec fn chunk_positions(start: int, s: Seq<u32>) -> Seq<u64> {
    Seq::new(s.len(), |k: int| (start + size_sum(s, k)) as u64)
}

/// Sample positions of chunks `i..` (0-based), whose samples take sizes from
/// `cursor` on: chunk `i` holds `samples_in_chunk(t, i + 1)` samples.
/// `None` when a chunk has no entry, the sizes run out, or a chunk's end
/// passes `u64::MAX`.
pub open spec fn positions_from(
    t: Seq<SampleToChunk>,
    co: Seq<u64>,
    sizes: Seq<u32>,
    i: int,
    cursor: int,
) -> Option<Seq<u64>>
    decreases co.len() - i,
{
    if i < 0 || i >= co.len() {
        Some(Seq::empty())
    } else {
        match samples_in_chunk(t, i + 1) {
            None => None,
            Some(n) => if cursor < 0 || cursor + n > sizes.len() {
                None
            } else {
                let s = sizes.subrange(cursor, cursor + n);
                if co[i] + size_sum(s, n as int) > u64::MAX {
                    None
                } else {
                    match positions_from(t, co, sizes, i + 1, cursor + n) {
                        None => None,
                        Some(rest) => Some(chunk_positions(co[i] as int, s) + rest),
                    }
                }
            },
        }
    }
}

/// Position of every sample of a track, chunk after chunk.
pub open spec fn sample_positions_spec(t: Seq<SampleToChunk>, co: Seq<u64>, sizes: Seq<u32>) -> Option<Seq<u64>> {
    positions_from(t, co, sizes, 0, 0)
}

proof fn lemma_size_sum_step(s: Seq<u32>, k: int)
    requires
        0 <= k < s.len(),
    ensures
        size_sum(s, k + 1) == size_sum(s, k) + s[k],
        size_sum(s, k) >= 0,
    decreases k,
{
    if k > 0 {
        lemma_size_sum_step(s, k - 1);
    }
}

proof fn lemma_size_sum_prefix(s: Seq<u32>, k: int, m: int)
    requires
        0 <= k <= m <= s.len(),
    ensures
        size_sum(s, k) <= size_sum(s, m),
        size_sum(s.subrange(0, m), k) == size_sum(s, k),
    decreases m - k,
{
    if k < m {
        lemma_size_sum_step(s, k);
        lemma_size_sum_prefix(s, k + 1, m);
        lemma_size_sum_step(s.subrange(0, m), k);
    } else {
        lemma_size_sum_sub(s, m, k);
    }
}

proof fn lemma_size_sum_sub(s: Seq<u32>, m: int, k: int)
    requires
        0 <= k <= m <= s.len(),
    ensures
        size_sum(s.subrange(0, m), k) == size_sum(s, k),
    decreases k,
{
    if k > 0 {
        lemma_size_sum_sub(s, m, k - 1);
    }
}

/// Positions of the samples of one chunk starting at `start`, whose sizes
/// are `sizes[from..from + n]`.
fn chunk_sample_positions(start: u64, sizes: &[u32], from: usize, n: usize, out: &mut Vec<u64>) -> (r: Result<(), Mp4Error>)
    requires
        from + n <= sizes@.len(),
    ensures
        ({
            let s = sizes@.subrange(from as int, from + n);
            &&& r is Ok <==> start + size_sum(s, n as int) <= u64::MAX
            &&& r is Ok ==> final(out)@ == old(out)@ + chunk_positions(start as int, s)
            &&& r is Err ==> r->Err_0 is NumericOverflow
        }),
{
    let ghost s = sizes@.subrange(from as int, from + n);
    let ghost prefix = out@;
    let _len = sizes.len();
    let mut delta: u64 = 0;
    let mut k: usize = 0;
    while k < n
        invariant
            from + n <= sizes@.len(),
            sizes@.len() <= usize::MAX,
            s == sizes@.subrange(from as int, from + n),
            k <= n,
            start + delta <= u64::MAX,
            delta == size_sum(s, k as int),
            out@ == prefix + chunk_positions(start as int, s.subrange(0, k as int)),
        decreases n - k,
    {
        proof {
            lemma_size_sum_step(s, k as int);
            lemma_size_sum_prefix(s, k as int, k as int);
            assert forall|j: int| 0 <= j <= k implies size_sum(s.subrange(0, k + 1), j) == size_sum(s, j) by {
                lemma_size_sum_prefix(s, j, k + 1);
            }
            assert forall|j: int| 0 <= j < k implies size_sum(s.subrange(0, k as int), j) == size_sum(s, j) by {
                lemma_size_sum_prefix(s, j, k as int);
            }
            let lhs = chunk_positions(start as int, s.subrange(0, k + 1));
            let rhs = chunk_positions(start as int, s.subrange(0, k as int)).push(
                (start + size_sum(s, k as int)) as u64,
            );
            assert forall|j: int| 0 <= j < k + 1 implies lhs[j] == rhs[j] by {
                lemma_size_sum_prefix(s, j, k + 1);
                if j < k {
                    lemma_size_sum_prefix(s, j, k as int);
                }
            }
            assert(lhs =~= rhs);
        }
        out.push(start + delta);
        let sz = sizes[from + k] as u64;
        if sz > u64::MAX - start - delta {
            proof {
                lemma_size_sum_prefix(s, k + 1, n as int);
            }
            return Err(Mp4Error::NumericOverflow);
        }
        delta = delta + sz;
        k = k + 1;
    }
    proof {
        assert(s.subrange(0, n as int) =~= s);
    }
    Ok(())
}

/// Position of every sample: for chunk `i` (1-based in the sample-to-chunk
/// table), `samples_in_chunk(i)` samples starting at the chunk's offset,
/// each following the one before; sizes are taken from one cursor that runs
/// across all chunks. Fails with `MissingChunkEntry` when a chunk has no
/// entry, `SampleCountMismatch` when the sizes run out, and
/// `NumericOverflow` when a chunk ends past `u64::MAX`.
pub fn sample_positions(stsc: &Stsc, chunk_offsets: &[u64], sizes: &[u32]) -> (r: Result<Vec<u64>, Mp4Error>)
    ensures
        ({
            let p = sample_positions_spec(stsc.table@, chunk_offsets@, sizes@);
            &&& r is Ok <==> p is Some
            &&& r is Ok ==> r->Ok_0@ == p.unwrap()
        }),
        r is Err ==> (r->Err_0 is SampleCountMismatch || r->Err_0 is MissingChunkEntry || r->Err_0 is NumericOverflow),
{
    let mut out: Vec<u64> = Vec::new();
    let mut cursor: usize = 0;
    let mut i: usize = 0;
    while i < chunk_offsets.len()
        invariant
            i <= chunk_offsets@.len(),
            cursor <= sizes@.len(),
            sample_positions_spec(stsc.table@, chunk_offsets@, sizes@) == match positions_from(
                stsc.table@,
                chunk_offsets@,
                sizes@,
                i as int,
                cursor as int,
            ) {
                None => None,
                Some(rest) => Some(out@ + rest),
            },
        decreases chunk_offsets@.len() - i,
    {
        let n = match stsc.no_of_samples(i + 1) {
            Some(n) => n as usize,
            None => {
                return Err(Mp4Error::MissingChunkEntry((i + 1) as u64));
            },
        };
        if n > sizes.len() - cursor {
            return Err(Mp4Error::SampleCountMismatch {
                durations: 0,
                sizes: sizes.len() as u64,
                positions: cursor as u64,
            });
        }
        let ghost before = out@;
        let ghost rest = positions_from(stsc.table@, chunk_offsets@, sizes@, i + 1, (cursor + n) as int);
        chunk_sample_positions(chunk_offsets[i], sizes, cursor, n, &mut out)?;
        proof {
            let s = sizes@.subrange(cursor as int, cursor + n);
            if rest is Some {
                assert(out@ + rest.unwrap() =~= before + (chunk_positions(chunk_offsets@[i as int] as int, s) + rest.unwrap()));
            }
        }
        cursor = cursor + n;
        i = i + 1;
    }
    proof {
        assert(out@ + Seq::<u64>::empty() =~= out@);
    }
    Ok(out)
}

/// One sample: where it is in the file, its size in bytes, and how long it
/// lasts in the track's time scale.
#[derive(Debug, Clone, Copy, PartialEq, Eq)]
pub struct SampleOffset {
    /// Absolute file offset of the sample's first byte.
    pub position: u64,
    /// Size in bytes.
    pub size: u32,
    /// Duration, in the track's time scale.
    pub duration: Duration,
}

impl SampleOffset {
    /// Sample at `position` of `size` bytes lasting `duration_ticks` units of
    /// `time_scale`. A zero `time_scale` is read as one, which
    /// `time_scale_zero_ok` must allow.
    pub fn new(position: u64, size: u32, duration_ticks: u32, time_scale: u32, time_scale_zero_ok: bool) -> (r:
        SampleOffset)
        requires
            time_scale != 0 || time_scale_zero_ok,
        ensures
            r.position == position,
            r.size == size,
            r.duration.ticks == duration_ticks,
            r.duration.time_scale == effective_scale(time_scale),
    {
        SampleOffset { position, size, duration: Duration::from_ticks(duration_ticks as u128, time_scale) }
    }
}

/// The sample table of a track built from its durations, sizes and
/// positions: one sample per position, each with the duration and size of
/// the same index. The durations must match the positions one for one;
/// sizes beyond those the chunks use are ignored (the sample-to-chunk table
/// decides the count).
pub open spec fn offsets_spec(durations: Seq<u32>, sizes: Seq<u32>, positions: Seq<u64>, time_scale: u32) -> Option<
    Seq<SampleOffset>,
> {
    if durations.len() != positions.len() || sizes.len() < positions.len() {
        None
    } else {
        Some(
            Seq::new(
                positions.len(),
                |k: int|
                    SampleOffset {
                        position: positions[k],
                        size: sizes[k],
                        duration: Duration { ticks: durations[k] as u128, time_scale: effective_scale(time_scale) },
                    },
            ),
        )
    }
}

/// The full sample table of a track from its decoded sample atoms.
pub open spec fn track_offsets_spec(stts: Stts, stsc: Stsc, stsz: Stsz, co64: Co64, time_scale: u32) -> Option<
    Seq<SampleOffset>,
> {
    match sample_positions_spec(stsc.table@, co64.offsets@, stsz.expanded()) {
        None => None,
        Some(p) => offsets_spec(expand_durations(stts.table@), stsz.expanded(), p, time_scale),
    }
}

/// Builds the per-sample table of a track: positions from chunk offsets,
/// sample-to-chunk table and sizes; sizes from `stsz`; durations from `stts`
/// in `time_scale` (zero read as one). Fails with `SampleCountMismatch` when
/// the durations and positions differ in number.
pub fn build_sample_offsets(stts: &Stts, stsc: &Stsc, stsz: &Stsz, co64: &Co64, time_scale: u32) -> (r: Result<
    Vec<SampleOffset>,
    Mp4Error,
>)
    ensures
        ({
            let o = track_offsets_spec(*stts, *stsc, *stsz, *co64, time_scale);
            &&& r is Ok <==> o is Some
            &&& r is Ok ==> r->Ok_0@ == o.unwrap()
        }),
        r is Err ==> (r->Err_0 is SampleCountMismatch || r->Err_0 is MissingChunkEntry || r->Err_0 is NumericOverflow),
{
    let durations = stts.durations();
    let sizes = stsz.expand();
    let positions = sample_positions(stsc, co64.offsets(), &sizes)?;
    if durations.len() != positions.len() || sizes.len() < positions.len() {
        return Err(Mp4Error::SampleCountMismatch {
            durations: durations.len() as u64,
            sizes: sizes.len() as u64,
            positions: positions.len() as u64,
        });
    }
    let mut out: Vec<SampleOffset> = Vec::new();
    let mut k: usize = 0;
    while k < positions.len()
        invariant
            durations@.len() == positions@.len(),
            sizes@.len() >= positions@.len(),
            k <= positions@.len(),
            out@.len() == k,
            forall|j: int|
                0 <= j < k ==> #[trigger] out@[j] == (SampleOffset {
                    position: positions@[j],
                    size: sizes@[j],
                    duration: (Duration { ticks: durations@[j] as u128, time_scale: effective_scale(time_scale) }),
                }),
        decreases positions@.len() - k,
    {
        out.push(SampleOffset {
            position: positions[k],
            size: sizes[k],
            duration: Duration::from_ticks(durations[k] as u128, time_scale),
        });
        k = k + 1;
    }
    proof {
        let o = offsets_spec(durations@, sizes@, positions@, time_scale).unwrap();
        assert(out@ =~= o);
    }
    Ok(out)
}

/// A track's sample table has one entry per sample of its time-to-sample
/// table, and, when the sample size table lists exactly that many samples,
/// one per size.
pub proof fn lemma_sample_counts(stts: Stts, stsc: Stsc, stsz: Stsz, co64: Co64, time_scale: u32)
    requires
        track_offsets_spec(stts, stsc, stsz, co64, time_scale) is Some,
        stsz.expanded().len() == sample_total(stts.table@),
    ensures
        track_offsets_spec(stts, stsc, stsz, co64, time_scale).unwrap().len() == sample_total(stts.table@),
        track_offsets_spec(stts, stsc, stsz, co64, time_scale).unwrap().len() == stsz.expanded().len(),
{
    lemma_expand_durations_len(stts.table@);
}

proof fn lemma_size_sum_strict(s: Seq<u32>, j: int, k: int)
    requires
        0 <= j < k <= s.len(),
        forall|m: int| 0 <= m < s.len() ==> #[trigger] s[m] > 0,
    ensures
        size_sum(s, j) < size_sum(s, k),
    decreases k - j,
{
    lemma_size_sum_step(s, k - 1);
    if j < k - 1 {
        lemma_size_sum_strict(s, j, k - 1);
    }
}

/// Within a chunk each sample starts where the one before it ends; when no
/// sample is empty, positions within the chunk strictly increase.
pub proof fn lemma_chunk_positions_contiguous(start: int, s: Seq<u32>)
    requires
        0 <= start,
        start + size_sum(s, s.len() as int) <= u64::MAX,
    ensures
        forall|k: int|
            0 <= k < s.len() - 1 ==> #[trigger] chunk_positions(start, s)[k + 1] == chunk_positions(start, s)[k] + s[k],
        (forall|m: int| 0 <= m < s.len() ==> #[trigger] s[m] > 0) ==> forall|j: int, k: int|
            0 <= j < k < s.len() ==> #[trigger] chunk_positions(start, s)[j] < #[trigger] chunk_positions(start, s)[k],
{
    assert forall|k: int| 0 <= k < s.len() - 1 implies #[trigger] chunk_positions(start, s)[k + 1]
        == chunk_positions(start, s)[k] + s[k] by {
        lemma_size_sum_step(s, k);
        lemma_size_sum_prefix(s, k + 1, s.len() as int);
    }
    if forall|m: int| 0 <= m < s.len() ==> #[trigger] s[m] > 0 {
        assert forall|j: int, k: int| 0 <= j < k < s.len() implies #[trigger] chunk_positions(start, s)[j]
            < #[trigger] chunk_positions(start, s)[k] by {
            lemma_size_sum_strict(s, j, k);
            lemma_size_sum_prefix(s, k, s.len() as int);
            lemma_size_sum_prefix(s, j, s.len() as int);
            lemma_size_sum_nonneg(s, j);
        }
    }
}

proof fn lemma_size_sum_nonneg(s: Seq<u32>, k: int)
    ensures
        size_sum(s, k) >= 0,
    decreases k,
{
    if k > 0 {
        lemma_size_sum_nonneg(s, k - 1);
    }
}

/// Chunks `i..` are laid out in file order: each chunk's samples end no
/// later than where the next chunk starts (cursor `cur` as in
/// [`positions_from`]).
pub open spec fn chunks_in_order(t: Seq<SampleToChunk>, co: Seq<u64>, sizes: Seq<u32>, i: int, cur: int) -> bool
    decreases co.len() - i,
{
    if i < 0 || i >= co.len() {
        true
    } else {
        match samples_in_chunk(t, i + 1) {
            None => true,
            Some(n) => if cur < 0 || cur + n > sizes.len() {
                true
            } else {
                (i + 1 < co.len() ==> co[i] + size_sum(sizes.subrange(cur, cur + n), n as int) <= co[i + 1])
                    && chunks_in_order(t, co, sizes, i + 1, cur + n)
            },
        }
    }
}

proof fn lemma_positions_from_ordered(t: Seq<SampleToChunk>, co: Seq<u64>, sizes: Seq<u32>, i: int, cur: int)
    requires
        0 <= i,
        positions_from(t, co, sizes, i, cur) is Some,
        chunks_in_order(t, co, sizes, i, cur),
        forall|m: int| 0 <= m < sizes.len() ==> #[trigger] sizes[m] > 0,
    ensures
        ({
            let p = positions_from(t, co, sizes, i, cur).unwrap();
            &&& forall|j: int, k: int| 0 <= j < k < p.len() ==> #[trigger] p[j] < #[trigger] p[k]
            &&& i < co.len() ==> forall|j: int| 0 <= j < p.len() ==> #[trigger] p[j] >= co[i]
        }),
    decreases co.len() - i,
{
    if i < co.len() {
        let n = samples_in_chunk(t, i + 1).unwrap() as int;
        let s = sizes.subrange(cur, cur + n);
        let c = chunk_positions(co[i] as int, s);
        let rest = positions_from(t, co, sizes, i + 1, cur + n).unwrap();
        let p = positions_from(t, co, sizes, i, cur).unwrap();
        assert(p == c + rest);
        lemma_positions_from_ordered(t, co, sizes, i + 1, cur + n);
        assert forall|m: int| 0 <= m < s.len() implies #[trigger] s[m] > 0 by {
            assert(s[m] == sizes[cur + m]);
        }
        lemma_chunk_positions_contiguous(co[i] as int, s);
        assert forall|j: int| 0 <= j < c.len() implies co[i] <= #[trigger] c[j] && c[j] < co[i] + size_sum(s, n) by {
            lemma_size_sum_nonneg(s, j);
            lemma_size_sum_strict(s, j, n);
            lemma_size_sum_prefix(s, j, n);
        }
        if rest.len() > 0 {
            assert(i + 1 < co.len());
            assert forall|k: int| 0 <= k < rest.len() implies co[i] + size_sum(s, n) <= #[trigger] rest[k] by {}
        }
        assert forall|j: int, k: int| 0 <= j < k < p.len() implies #[trigger] p[j] < #[trigger] p[k] by {
            if k < c.len() {
                assert(p[j] == c[j] && p[k] == c[k]);
            } else if j < c.len() {
                assert(p[j] == c[j] && p[k] == rest[k - c.len()]);
            } else {
                assert(p[j] == rest[j - c.len()] && p[k] == rest[k - c.len()]);
            }
        }
        assert forall|j: int| 0 <= j < p.len() implies #[trigger] p[j] >= co[i] by {
            if j < c.len() {
                assert(p[j] == c[j]);
            } else {
                assert(p[j] == rest[j - c.len()]);
                assert(i + 1 < co.len());
                lemma_size_sum_nonneg(s, n);
            }
        }
    }
}

/// When no sample is empty and each chunk ends no later than the next one
/// starts, sample positions strictly increase over the whole track.
pub proof fn lemma_positions_increasing(t: Seq<SampleToChunk>, co: Seq<u64>, sizes: Seq<u32>)
    requires
        sample_positions_spec(t, co, sizes) is Some,
        chunks_in_order(t, co, sizes, 0, 0),
        forall|m: int| 0 <= m < sizes.len() ==> #[trigger] sizes[m] > 0,
    ensures
        ({
            let p = sample_positions_spec(t, co, sizes).unwrap();
            forall|j: int, k: int| 0 <= j < k < p.len() ==> #[trigger] p[j] < #[trigger] p[k]
        }),
{
    lemma_positions_from_ordered(t, co, sizes, 0, 0);
}

} // verus!
