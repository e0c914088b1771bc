//! Tabular atoms used as they are: sync samples (`stss`), composition
//! offsets (`ctts`), edit lists (`elst`), sample dependency flags (`sdtp`)
//! and data references (`dref`).

use vstd::prelude::*;

use crate::bytes::{
    array3_at, be_u16_at, be_u32_at, be_words16, copy_range, lemma_be_u32_round_trip, lemma_be_words16, u16_at,
    u32_at, u32_be_bytes, u8_at,
};
use crate::error::Mp4Error;
use crate::tables::check_len;

verus! {

/// One sync sample entry, read as two 16-bit values.
#[derive(Debug, Clone, Copy, PartialEq, Eq)]
pub struct SyncSample {
    /// Entry number.
    pub entry_number: u16,
    /// Sample.
    pub sample: u16,
}

impl SyncSample {
    /// Entry number.
    pub fn entry_number(&self) -> (r: u16)
        ensures
            r == self.entry_number,
    {
        self.entry_number
    }

    /// Sample.
    pub fn sample(&self) -> (r: u16)
        ensures
            r == self.sample,
    {
        self.sample
    }
}

/// Sync sample atom (`stss`).
#[derive(Debug, Clone)]
pub struct Stss {
    pub version: u8,
    pub flags: [u8; 3],
    pub sync_sample_table: Vec<SyncSample>,
}

impl Stss {
    /// The table as the words it is written with.
    pub open spec fn words(&self) -> Seq<u16> {
        Seq::new(
            2 * self.sync_sample_table@.len(),
            |j: int|
                if j % 2 == 0 {
                    self.sync_sample_table@[j / 2].entry_number
                } else {
                    self.sync_sample_table@[j / 2].sample
                },
        )
    }

    /// The bytes this value is written as.
    pub open spec fn layout(&self) -> Seq<u8> {
        seq![self.version] + self.flags@ + u32_be_bytes(self.sync_sample_table@.len() as u32) + be_words16(self.words())
    }

    /// This value is what the payload `b` holds.
    pub open spec fn parsed_from(&self, b: Seq<u8>) -> bool {
        &&& b.len() >= 8 + 4 * self.sync_sample_table@.len()
        &&& self.version == b[0]
        &&& self.flags@ == b.subrange(1, 4)
        &&& self.sync_sample_table@.len() == be_u32_at(b, 4)
        &&& forall|i: int| 0 <= i < self.sync_sample_table@.len() ==> #[trigger] self.sync_sample_table@[i].entry_number == be_u16_at(b, 8 + 4 * i + 0) && self.sync_sample_table@[i].sample == be_u16_at(b, 8 + 4 * i + 2)
    }

    /// Decodes the payload.
    pub fn parse(b: &[u8]) -> (r: Result<Stss, Mp4Error>)
        ensures
            r is Ok <==> (b@.len() >= 8 && b@.len() >= 8 + 4 * be_u32_at(b@, 4)),
            r is Ok ==> r->Ok_0.parsed_from(b@),
            r is Err ==> r->Err_0 is ReadMismatch,
    {
        check_len(b, 8)?;
        let n = u32_at(b, 4);
        check_len(b, 8 + 4 * (n as u64))?;
        let _len = b.len();
        let mut table: Vec<SyncSample> = Vec::new();
        let mut i: usize = 0;
        while i < n as usize
            invariant
                b@.len() <= usize::MAX,
                b@.len() >= 8 + 4 * n,
                i <= n,
                table@.len() == i,
                forall|k: int| 0 <= k < i ==> #[trigger] table@[k].entry_number == be_u16_at(b@, 8 + 4 * k + 0) && table@[k].sample == be_u16_at(b@, 8 + 4 * k + 2),
            decreases n - i,
        {
            table.push(SyncSample { entry_number: u16_at(b, 8 + 4 * i + 0), sample: u16_at(b, 8 + 4 * i + 2) });
            i = i + 1;
        }
        Ok(Stss { version: u8_at(b, 0), flags: array3_at(b, 1), sync_sample_table: table })
    }

    /// The table, in order.
    pub fn sync_sample_table(&self) -> (r: &[SyncSample])
        ensures
            r@ == self.sync_sample_table@,
    {
        self.sync_sample_table.as_slice()
    }
}

/// Writing a decoded `stss` back with the same layout gives the bytes it was
/// decoded from.
pub proof fn lemma_stss_round_trip(x: Stss, b: Seq<u8>)
    requires
        x.parsed_from(b),
    ensures
        x.layout() == b.subrange(0, x.layout().len() as int),
        x.layout().len() == 8 + 4 * x.sync_sample_table@.len(),
{
    let w = x.words();
    assert forall|j: int| 0 <= j < w.len() implies #[trigger] w[j] == be_u16_at(b, 8 + 2 * j) by {
        let k = j / 2;
        assert(0 <= k < x.sync_sample_table@.len());
        assert(x.sync_sample_table@[k].entry_number == be_u16_at(b, 8 + 4 * k + 0));
        if j % 2 == 0 {
            assert(8 + 2 * j == 8 + 4 * k + 0);
        } else {
            assert(8 + 2 * j == 8 + 4 * k + 2);
        }
    }
    lemma_be_words16(b, 8, w);
    lemma_be_u32_round_trip(b, 4, x.sync_sample_table@.len() as u32);
    assert(x.layout() =~= b.subrange(0, 8 + 4 * x.sync_sample_table@.len() as int));
}

/// One run of composition offsets.
#[derive(Debug, Clone, Copy, PartialEq, Eq)]
pub struct OffsetTableEntry {
    /// Number of samples in the run.
    pub sample_count: u32,
    /// Composition offset of each sample in the run.
    pub composition_offset: u32,
}

impl OffsetTableEntry {
    /// Number of samples in the run.
    pub fn sample_count(&self) -> (r: u32)
        ensures
            r == self.sample_count,
    {
        self.sample_count
    }

    /// Composition offset of each sample in the run.
    pub fn composition_offset(&self) -> (r: u32)
        ensures
            r == self.composition_offset,
    {
        self.composition_offset
    }
}

/// Composition offset atom (`ctts`).
#[derive(Debug, Clone)]
pub struct Ctts {
    pub version: u8,
    pub flags: [u8; 3],
    pub offset_table: Vec<OffsetTableEntry>,
}

impl Ctts {
    /// This value is what the payload `b` holds.
    pub open spec fn parsed_from(&self, b: Seq<u8>) -> bool {
        &&& b.len() >= 8 + 8 * self.offset_table@.len()
        &&& self.version == b[0]
        &&& self.flags@ == b.subrange(1, 4)
        &&& self.offset_table@.len() == be_u32_at(b, 4)
        &&& forall|i: int| 0 <= i < self.offset_table@.len() ==> #[trigger] self.offset_table@[i].sample_count == be_u32_at(b, 8 + 8 * i + 0) && self.offset_table@[i].composition_offset == be_u32_at(b, 8 + 8 * i + 4)
    }

    /// Decodes the payload.
    pub fn parse(b: &[u8]) -> (r: Result<Ctts, Mp4Error>)
        ensures
            r is Ok <==> (b@.len() >= 8 && b@.len() >= 8 + 8 * be_u32_at(b@, 4)),
            r is Ok ==> r->Ok_0.parsed_from(b@),
            r is Err ==> r->Err_0 is ReadMismatch,
    {
        check_len(b, 8)?;
        let n = u32_at(b, 4);
        check_len(b, 8 + 8 * (n as u64))?;
        let _len = b.len();
        let mut table: Vec<OffsetTableEntry> = Vec::new();
        let mut i: usize = 0;
        while i < n as usize
            invariant
                b@.len() <= usize::MAX,
                b@.len() >= 8 + 8 * n,
                i <= n,
                table@.len() == i,
                forall|k: int| 0 <= k < i ==> #[trigger] table@[k].sample_count == be_u32_at(b@, 8 + 8 * k + 0) && table@[k].composition_offset == be_u32_at(b@, 8 + 8 * k + 4),
            decreases n - i,
        {
            table.push(OffsetTableEntry { sample_count: u32_at(b, 8 + 8 * i + 0), composition_offset: u32_at(b, 8 + 8 * i + 4) });
            i = i + 1;
        }
        Ok(Ctts { version: u8_at(b, 0), flags: array3_at(b, 1), offset_table: table })
    }

    /// The table, in order.
    pub fn offset_table(&self) -> (r: &[OffsetTableEntry])
        ensures
            r@ == self.offset_table@,
    {
        self.offset_table.as_slice()
    }
}

/// One edit.
#[derive(Debug, Clone, Copy, PartialEq, Eq)]
pub struct EditListTable {
    /// Unscaled duration of the edit.
    pub track_duration: u32,
    /// Start time within the media (all ones: an empty edit).
    pub media_time: u32,
    /// 16.16 fixed-point playback rate.
    pub media_rate: u32,
}

impl EditListTable {
    /// Unscaled duration of the edit.
    pub fn track_duration(&self) -> (r: u32)
        ensures
            r == self.track_duration,
    {
        self.track_duration
    }

    /// Start time within the media (all ones: an empty edit).
    pub fn media_time(&self) -> (r: u32)
        ensures
            r == self.media_time,
    {
        self.media_time
    }

    /// 16.16 fixed-point playback rate.
    pub fn media_rate(&self) -> (r: u32)
        ensures
            r == self.media_rate,
    {
        self.media_rate
    }
}

/// Edit list atom (`elst`).
#[derive(Debug, Clone)]
pub struct Elst {
    pub version: u8,
    pub flags: [u8; 3],
    pub edit_list_table: Vec<EditListTable>,
}

impl Elst {
    /// This value is what the payload `b` holds.
    pub open spec fn parsed_from(&self, b: Seq<u8>) -> bool {
        &&& b.len() >= 8 + 12 * self.edit_list_table@.len()
        &&& self.version == b[0]
        &&& self.flags@ == b.subrange(1, 4)
        &&& self.edit_list_table@.len() == be_u32_at(b, 4)
        &&& forall|i: int| 0 <= i < self.edit_list_table@.len() ==> #[trigger] self.edit_list_table@[i].track_duration == be_u32_at(b, 8 + 12 * i + 0) && self.edit_list_table@[i].media_time == be_u32_at(b, 8 + 12 * i + 4) && self.edit_list_table@[i].media_rate == be_u32_at(b, 8 + 12 * i + 8)
    }

    /// Decodes the payload.
    pub fn parse(b: &[u8]) -> (r: Result<Elst, Mp4Error>)
        ensures
            r is Ok <==> (b@.len() >= 8 && b@.len() >= 8 + 12 * be_u32_at(b@, 4)),
            r is Ok ==> r->Ok_0.parsed_from(b@),
            r is Err ==> r->Err_0 is ReadMismatch,
    {
        check_len(b, 8)?;
        let n = u32_at(b, 4);
        check_len(b, 8 + 12 * (n as u64))?;
        let _len = b.len();
        let mut table: Vec<EditListTable> = Vec::new();
        let mut i: usize = 0;
        while i < n as usize
            invariant
                b@.len() <= usize::MAX,
                b@.len() >= 8 + 12 * n,
                i <= n,
                table@.len() == i,
                forall|k: int| 0 <= k < i ==> #[trigger] table@[k].track_duration == be_u32_at(b@, 8 + 12 * k + 0) && table@[k].media_time == be_u32_at(b@, 8 + 12 * k + 4) && table@[k].media_rate == be_u32_at(b@, 8 + 12 * k + 8),
            decreases n - i,
        {
            table.push(EditListTable { track_duration: u32_at(b, 8 + 12 * i + 0), media_time: u32_at(b, 8 + 12 * i + 4), media_rate: u32_at(b, 8 + 12 * i + 8) });
            i = i + 1;
        }
        Ok(Elst { version: u8_at(b, 0), flags: array3_at(b, 1), edit_list_table: table })
    }

    /// The table, in order.
    pub fn edit_list_table(&self) -> (r: &[EditListTable])
        ensures
            r@ == self.edit_list_table@,
    {
        self.edit_list_table.as_slice()
    }
}

/// One sample's dependency flags.
#[derive(Debug, Clone, Copy, PartialEq, Eq)]
pub struct SampleFlagsTable {
    pub sample_dependency_flag: u8,
    pub sample: u8,
}

impl SampleFlagsTable {
    /// The dependency flag byte.
    pub fn sample_dependency_flag(&self) -> (r: u8)
        ensures
            r == self.sample_dependency_flag,
    {
        self.sample_dependency_flag
    }

    /// The second byte.
    pub fn sample(&self) -> (r: u8)
        ensures
            r == self.sample,
    {
        self.sample
    }
}

/// Sample dependency flags atom (`sdtp`). It precedes `stsz`, so the number
/// of entries comes from the payload size: two bytes each after the four
/// bytes of version and flags.
#[derive(Debug, Clone)]
pub struct Sdtp {
    pub version: u8,
    pub flags: [u8; 3],
    pub sample_flags_table: Vec<SampleFlagsTable>,
}

impl Sdtp {
    /// Decodes the payload.
    pub fn parse(b: &[u8]) -> (r: Result<Sdtp, Mp4Error>)
        ensures
            r is Ok <==> b@.len() >= 4,
            r is Ok ==> r->Ok_0.version == b@[0] && r->Ok_0.flags@ == b@.subrange(1, 4)
                && r->Ok_0.sample_flags_table@.len() == (b@.len() - 4) / 2
                && forall|i: int| 0 <= i < r->Ok_0.sample_flags_table@.len() ==>
                    (#[trigger] r->Ok_0.sample_flags_table@[i]).sample_dependency_flag == b@[4 + 2 * i]
                    && r->Ok_0.sample_flags_table@[i].sample == b@[5 + 2 * i],
            r is Err ==> r->Err_0 is ReadMismatch,
    {
        check_len(b, 4)?;
        let n = (b.len() - 4) / 2;
        let mut table: Vec<SampleFlagsTable> = Vec::new();
        let mut i: usize = 0;
        while i < n
            invariant
                b@.len() <= usize::MAX,
                b@.len() >= 4,
                n == (b@.len() - 4) / 2,
                i <= n,
                table@.len() == i,
                forall|k: int| 0 <= k < i ==> (#[trigger] table@[k]).sample_dependency_flag == b@[4 + 2 * k]
                    && table@[k].sample == b@[5 + 2 * k],
            decreases n - i,
        {
            table.push(SampleFlagsTable { sample_dependency_flag: b[4 + 2 * i], sample: b[5 + 2 * i] });
            i = i + 1;
        }
        Ok(Sdtp { version: u8_at(b, 0), flags: array3_at(b, 1), sample_flags_table: table })
    }

    /// The flags of every sample, in order.
    pub fn sample_flags_table(&self) -> (r: &[SampleFlagsTable])
        ensures
            r@ == self.sample_flags_table@,
    {
        self.sample_flags_table.as_slice()
    }
}

/// One data reference: a size and that many bytes.
#[derive(Debug, Clone)]
pub struct DrefTable {
    pub size: u32,
    pub data: Vec<u8>,
}

/// Data reference atom (`dref`).
#[derive(Debug, Clone)]
pub struct Dref {
    pub version: u8,
    pub flags: [u8; 3],
    pub table: Vec<DrefTable>,
}

/// Whether `n` references, each a 4-byte size followed by that many bytes,
/// fit one after another from index `off`.
pub open spec fn refs_fit(b: Seq<u8>, off: int, n: int) -> bool
    decreases n,
{
    if n <= 0 {
        true
    } else {
        0 <= off && off + 4 <= b.len() && off + 4 + be_u32_at(b, off) <= b.len() && refs_fit(
            b,
            off + 4 + be_u32_at(b, off),
            n - 1,
        )
    }
}

/// Index of reference `i` in a `dref` payload: the references follow one
/// another from index 8, each a 4-byte size and that many bytes.
pub open spec fn ref_at(b: Seq<u8>, i: int) -> int
    decreases i,
{
    if i <= 0 {
        8
    } else {
        let p = ref_at(b, i - 1);
        p + 4 + be_u32_at(b, p)
    }
}

impl Dref {
    /// Decodes the payload.
    pub fn parse(b: &[u8]) -> (r: Result<Dref, Mp4Error>)
        ensures
            r is Ok <==> (b@.len() >= 8 && refs_fit(b@, 8, be_u32_at(b@, 4))),
            r is Ok ==> r->Ok_0.version == b@[0] && r->Ok_0.flags@ == b@.subrange(1, 4)
                && r->Ok_0.table@.len() == be_u32_at(b@, 4),
            r is Ok ==> forall|i: int|
                0 <= i < r->Ok_0.table@.len() ==> (#[trigger] r->Ok_0.table@[i]).size == be_u32_at(b@, ref_at(b@, i))
                    && r->Ok_0.table@[i].data@ == b@.subrange(ref_at(b@, i) + 4, ref_at(b@, i) + 4 + r->Ok_0.table@[i].size),
            r is Err ==> r->Err_0 is ReadMismatch,
    {
        check_len(b, 8)?;
        let n = u32_at(b, 4);
        let _len = b.len();
        let mut table: Vec<DrefTable> = Vec::new();
        let mut off: usize = 8;
        let mut i: u32 = 0;
        while i < n
            invariant
                b@.len() <= usize::MAX,
                n == be_u32_at(b@, 4),
                8 <= off <= b@.len(),
                i <= n,
                table@.len() == i,
                off == ref_at(b@, i as int),
                refs_fit(b@, 8, n as int) == refs_fit(b@, off as int, (n - i) as int),
                forall|k: int|
                    0 <= k < i ==> (#[trigger] table@[k]).size == be_u32_at(b@, ref_at(b@, k)) && table@[k].data@
                        == b@.subrange(ref_at(b@, k) + 4, ref_at(b@, k) + 4 + table@[k].size),
            decreases n - i,
        {
            if b.len() - off < 4 {
                return Err(Mp4Error::ReadMismatch { got: b.len() as u64, expected: 4 });
            }
            let size = u32_at(b, off);
            if size as usize > b.len() - off - 4 {
                return Err(Mp4Error::ReadMismatch { got: b.len() as u64, expected: size as u64 });
            }
            let data = copy_range(b, off + 4, off + 4 + size as usize);
            table.push(DrefTable { size, data });
            off = off + 4 + size as usize;
            i = i + 1;
        }
        Ok(Dref { version: u8_at(b, 0), flags: array3_at(b, 1), table })
    }

    /// The references, in order.
    pub fn table(&self) -> (r: &[DrefTable])
        ensures
            r@ == self.table@,
    {
        self.table.as_slice()
    }
}

} // verus!
