//! Tracks: locating a track by id, name or sub-type, collecting its sample
//! tables from `stbl`, and its samples with their relative times.

use vstd::prelude::*;

use crate::atom::{payload_in, payload_of, Atom};
use crate::bytes::latin1;
use crate::error::Mp4Error;
use crate::fourcc::FourCC;
use crate::header::{header_at, lemma_header_at_wf, AtomHeader};
use crate::headers::{Hdlr, Mdhd, Tkhd};
use crate::navigate::{dist, find_from};
use crate::offsets::{build_sample_offsets, track_offsets_spec, SampleOffset};
use crate::stream::{ByteStream, ReadOption, SeekFrom};
use crate::stsd::{records_fit, is_time_code, tmcd_from, DataFormat, Stsd, TMCD};
use crate::bytes::be_u32_at;
use crate::tables::{Co64, Stco, Stsc, Stsz, Stts};
use crate::timing::{effective_scale, Duration};

verus! {

/// A header read at `h.offset` of the buffer, named `name`, at or after `from`.
pub open spec fn read_at(d: Seq<u8>, base: int, from: int, h: AtomHeader, name: FourCC) -> bool {
    &&& header_at(d, base, h.offset as int) == Some(h)
    &&& h.name.code() == name.code()
    &&& from <= h.offset
    &&& h.wf()
}

/// The chunk offsets `offs` are what an `stco` or `co64` payload `p` holds
/// (32-bit offsets widened).
pub open spec fn chunk_offsets_from(name: FourCC, p: Seq<u8>, offs: Seq<u64>) -> bool {
    if name is Co64 {
        offs.len() == crate::bytes::be_u32_at(p, 4) && forall|i: int|
            0 <= i < offs.len() ==> #[trigger] offs[i] == crate::bytes::be_u64_at(p, 8 + 8 * i)
    } else {
        offs.len() == crate::bytes::be_u32_at(p, 4) && forall|i: int|
            0 <= i < offs.len() ==> #[trigger] offs[i] == crate::bytes::be_u32_at(p, 8 + 4 * i)
    }
}

/// Headers of the sample atoms a walk has met so far.
#[derive(Debug, Clone, Copy)]
pub struct SeenTables {
    pub stsd: Option<AtomHeader>,
    pub stts: Option<AtomHeader>,
    pub stsc: Option<AtomHeader>,
    pub stsz: Option<AtomHeader>,
    /// `stco` or `co64`.
    pub chunks: Option<AtomHeader>,
}

/// How a walk over one track's sample atoms ends.
pub enum TablesWalk {
    /// All five were met and decode (these are the last of each kind); the
    /// walk stops at the given position.
    Complete(SeenTables, u64),
    /// The next `trak` came first.
    NextTrack,
    /// A header or payload could not be read or decoded, or the stream ended.
    Failed,
}

/// Whether `name` is one of the five sample atoms.
pub open spec fn is_sample_atom(name: FourCC) -> bool {
    name is Stsd || name is Stts || name is Stsc || name is Stsz || name is Stco || name is Co64
}

/// Whether the payload `p` of a sample atom named `name` decodes.
pub open spec fn decodes(name: FourCC, p: Seq<u8>) -> bool {
    if name is Stsd {
        p.len() >= 8 && records_fit(p, 8, be_u32_at(p, 4))
    } else if name is Stts {
        p.len() >= 8 && p.len() >= 8 + 8 * be_u32_at(p, 4)
    } else if name is Stsc {
        p.len() >= 8 && p.len() >= 8 + 12 * be_u32_at(p, 4)
    } else if name is Stco {
        p.len() >= 8 && p.len() >= 8 + 4 * be_u32_at(p, 4)
    } else if name is Co64 {
        p.len() >= 8 && p.len() >= 8 + 8 * be_u32_at(p, 4)
    } else {
        p.len() >= 12 && (be_u32_at(p, 4) != 0 || p.len() >= 12 + 4 * be_u32_at(p, 8))
    }
}

/// `seen` with the sample atom `h` recorded in its place.
pub open spec fn record(seen: SeenTables, h: AtomHeader) -> SeenTables {
    if h.name is Stsd {
        SeenTables { stsd: Some(h), ..seen }
    } else if h.name is Stts {
        SeenTables { stts: Some(h), ..seen }
    } else if h.name is Stsc {
        SeenTables { stsc: Some(h), ..seen }
    } else if h.name is Stsz {
        SeenTables { stsz: Some(h), ..seen }
    } else {
        SeenTables { chunks: Some(h), ..seen }
    }
}

/// All five sample atoms have been met.
pub open spec fn complete(seen: SeenTables) -> bool {
    seen.stsd is Some && seen.stts is Some && seen.stsc is Some && seen.stsz is Some && seen.chunks is Some
}

/// Nothing met yet.
pub open spec fn none_seen() -> SeenTables {
    SeenTables { stsd: None, stts: None, stsc: None, stsz: None, chunks: None }
}

/// The walk from `pos` that collects one track's sample atoms, in any order,
/// descending into containers and skipping other atoms.
pub open spec fn tables_from(d: Seq<u8>, base: int, pos: int, seen: SeenTables) -> TablesWalk
    decreases dist(d, base, pos),
{
    if complete(seen) {
        TablesWalk::Complete(seen, pos as u64)
    } else if pos >= base + d.len() {
        TablesWalk::Failed
    } else {
        match header_at(d, base, pos) {
            None => TablesWalk::Failed,
            Some(h) => if h.spec_end() <= pos || h.spec_next_pos() <= pos {
                TablesWalk::Failed
            } else if h.name is Trak {
                TablesWalk::NextTrack
            } else if is_sample_atom(h.name) {
                if payload_in(d, base, h) && decodes(h.name, payload_of(d, base, h)) {
                    tables_from(d, base, h.spec_end(), record(seen, h))
                } else {
                    TablesWalk::Failed
                }
            } else {
                tables_from(d, base, h.spec_next_pos(), seen)
            },
        }
    }
}

/// The header of a recorded table, if any.
pub open spec fn hdr_of<T>(o: Option<(AtomHeader, T)>) -> Option<AtomHeader> {
    match o {
        Some(t) => Some(t.0),
        None => None,
    }
}

/// The five sample atoms of one track, each with the header it was read at.
#[derive(Debug)]
pub struct SampleTables {
    pub stsd: (AtomHeader, Stsd),
    pub stts: (AtomHeader, Stts),
    pub stsc: (AtomHeader, Stsc),
    pub stsz: (AtomHeader, Stsz),
    /// `stco` widened to 64 bits, or `co64`.
    pub chunks: (AtomHeader, Co64),
}

impl SampleTables {
    /// The headers the tables were read at.
    pub open spec fn seen(&self) -> SeenTables {
        SeenTables {
            stsd: Some(self.stsd.0),
            stts: Some(self.stts.0),
            stsc: Some(self.stsc.0),
            stsz: Some(self.stsz.0),
            chunks: Some(self.chunks.0),
        }
    }

    /// Each table was decoded from the payload of an atom of its kind read
    /// in `d` at or after `from`.
    pub open spec fn read_from(&self, d: Seq<u8>, base: int, from: int) -> bool {
        &&& read_at(d, base, from, self.stsd.0, FourCC::Stsd)
        &&& read_at(d, base, from, self.stts.0, FourCC::Stts)
        &&& self.stts.1.parsed_from(payload_of(d, base, self.stts.0))
        &&& read_at(d, base, from, self.stsc.0, FourCC::Stsc)
        &&& self.stsc.1.parsed_from(payload_of(d, base, self.stsc.0))
        &&& read_at(d, base, from, self.stsz.0, FourCC::Stsz)
        &&& self.stsz.1.parsed_from(payload_of(d, base, self.stsz.0))
        &&& (self.chunks.0.name is Stco || self.chunks.0.name is Co64)
        &&& read_at(d, base, from, self.chunks.0, self.chunks.0.name)
        &&& chunk_offsets_from(self.chunks.0.name, payload_of(d, base, self.chunks.0), self.chunks.1.offsets@)
    }

    /// Walks the atoms from the stream's position (inside one `trak`, at or
    /// before its `stbl`), descending into containers, until `stsd`, `stts`,
    /// `stsc`, `stsz` and `stco` or `co64` have all been decoded, in any
    /// order. Fails with `SampleOffsetError` when the next `trak` comes
    /// first and with `EndOfFile` at the end of the stream.
    #[verifier::rlimit(60)]
    pub fn collect(s: &mut ByteStream) -> (r: Result<SampleTables, Mp4Error>)
        requires
            old(s).wf(),
        ensures
            final(s).same_buffer(old(s)),
            final(s).wf(),
            r is Ok ==> r->Ok_0.read_from(old(s).data(), old(s).base(), old(s).position()),
            r is Ok ==> final(s).position() >= old(s).position(),
            ({
                let w = tables_from(old(s).data(), old(s).base(), old(s).position(), none_seen());
                &&& r is Ok <==> w is Complete
                &&& r is Ok ==> w->Complete_0 == r->Ok_0.seen() && final(s).position() == w->Complete_1
                &&& w is NextTrack ==> r == Err::<SampleTables, Mp4Error>(Mp4Error::SampleOffsetError)
            }),
    {
        let ghost d = s.data();
        let ghost base = s.base();
        let ghost start = s.position();
        let mut stsd: Option<(AtomHeader, Stsd)> = None;
        let mut stts: Option<(AtomHeader, Stts)> = None;
        let mut stsc: Option<(AtomHeader, Stsc)> = None;
        let mut stsz: Option<(AtomHeader, Stsz)> = None;
        let mut chunks: Option<(AtomHeader, Co64)> = None;
        let end = s.upper();
        while !(stsd.is_some() && stts.is_some() && stsc.is_some() && stsz.is_some() && chunks.is_some())
            invariant
                s.wf(),
                s.same_buffer(old(s)),
                d == s.data(),
                base == s.base(),
                start == old(s).position(),
                start <= s.position(),
                end == s.end(),
                stsd is Some ==> read_at(d, base, start, stsd.unwrap().0, FourCC::Stsd),
                stts is Some ==> read_at(d, base, start, stts.unwrap().0, FourCC::Stts)
                    && stts.unwrap().1.parsed_from(payload_of(d, base, stts.unwrap().0)),
                stsc is Some ==> read_at(d, base, start, stsc.unwrap().0, FourCC::Stsc)
                    && stsc.unwrap().1.parsed_from(payload_of(d, base, stsc.unwrap().0)),
                stsz is Some ==> read_at(d, base, start, stsz.unwrap().0, FourCC::Stsz)
                    && stsz.unwrap().1.parsed_from(payload_of(d, base, stsz.unwrap().0)),
                chunks is Some ==> (chunks.unwrap().0.name is Stco || chunks.unwrap().0.name is Co64)
                    && read_at(d, base, start, chunks.unwrap().0, chunks.unwrap().0.name)
                    && chunk_offsets_from(chunks.unwrap().0.name, payload_of(d, base, chunks.unwrap().0), chunks.unwrap().1.offsets@),
                tables_from(d, base, start, none_seen()) == tables_from(
                    d,
                    base,
                    s.position(),
                    SeenTables {
                        stsd: hdr_of(stsd),
                        stts: hdr_of(stts),
                        stsc: hdr_of(stsc),
                        stsz: hdr_of(stsz),
                        chunks: hdr_of(chunks),
                    },
                ),
            decreases dist(d, base, s.position()),
        {
            if s.pos() >= end {
                return Err(Mp4Error::EndOfFile);
            }
            let ghost p = s.position();
            let h = s.next_header(false)?;
            proof {
                lemma_header_at_wf(d, base, p);
            }
            match h.name {
                FourCC::Trak => {
                    return Err(Mp4Error::SampleOffsetError);
                },
                FourCC::Stsd => {
                    let atom = Atom::read(s, h)?;
                    stsd = Some((h, atom.stsd()?));
                },
                FourCC::Stts => {
                    let atom = Atom::read(s, h)?;
                    stts = Some((h, atom.stts()?));
                },
                FourCC::Stsc => {
                    let atom = Atom::read(s, h)?;
                    stsc = Some((h, atom.stsc()?));
                },
                FourCC::Stsz => {
                    let atom = Atom::read(s, h)?;
                    stsz = Some((h, atom.stsz()?));
                },
                FourCC::Stco => {
                    let atom = Atom::read(s, h)?;
                    let t = atom.stco()?;
                    chunks = Some((h, Co64::from_stco(t)));
                },
                FourCC::Co64 => {
                    let atom = Atom::read(s, h)?;
                    chunks = Some((h, atom.co64()?));
                },
                _ => {
                    let target = h.offset + h.header_size() as u64 + h.next;
                    let _ = s.seek(SeekFrom::Start(target));
                },
            }
        }
        proof {
            let seen = SeenTables {
                stsd: hdr_of(stsd),
                stts: hdr_of(stts),
                stsc: hdr_of(stsc),
                stsz: hdr_of(stsz),
                chunks: hdr_of(chunks),
            };
            assert(complete(seen));
            assert(tables_from(d, base, s.position(), seen) == TablesWalk::Complete(seen, s.position() as u64));
            assert(tables_from(d, base, start, none_seen()) == TablesWalk::Complete(seen, s.position() as u64));
            assert(0 <= s.position() <= u64::MAX);
            assert((s.position() as u64) as int == s.position());
        }
        match (stsd, stts, stsc, stsz, chunks) {
            (Some(a), Some(b), Some(c), Some(e), Some(f)) => Ok(SampleTables { stsd: a, stts: b, stsc: c, stsz: e, chunks: f }),
            _ => Err(Mp4Error::EndOfFile),
        }
    }
}

/// Ways to pick a track.
#[derive(Debug, Clone, PartialEq, Eq)]
pub enum TrackIdentifier {
    /// The handler name (`hdlr` component name), e.g. `GoPro MET`.
    Name(String),
    /// The numeric track ID (`tkhd`).
    Id(u32),
    /// The handler sub-type, e.g. `vide`, `soun`, `tmcd`.
    SubType(String),
}

/// Value of a decimal numeral, when the text is one and fits in `u32`.
pub open spec fn decimal_value(s: Seq<char>) -> Option<int>
    decreases s.len(),
{
    if s.len() == 0 {
        None
    } else {
        let c = s.last();
        if !('0' <= c && c <= '9') {
            None
        } else {
            let d = c as int - '0' as int;
            if s.len() == 1 {
                Some(d)
            } else {
                match decimal_value(s.drop_last()) {
                    None => None,
                    Some(v) => Some(v * 10 + d),
                }
            }
        }
    }
}

impl TrackIdentifier {
    /// A copy of this identifier.
    pub fn copy(&self) -> (r: TrackIdentifier)
        ensures
            r == *self,
    {
        match self {
            TrackIdentifier::Name(n) => TrackIdentifier::Name(n.clone()),
            TrackIdentifier::Id(i) => TrackIdentifier::Id(*i),
            TrackIdentifier::SubType(t) => TrackIdentifier::SubType(t.clone()),
        }
    }

    /// A track ID when the text is a decimal number that fits in `u32`,
    /// a handler name otherwise (never a sub-type).
    pub fn from_str(value: &str) -> (r: TrackIdentifier)
        ensures
            ({
                let v = decimal_value(value@);
                if v is Some && v.unwrap() <= u32::MAX {
                    r == TrackIdentifier::Id(v.unwrap() as u32)
                } else {
                    r is Name && r->Name_0@ == value@
                }
            }),
    {
        let n = value.unicode_len();
        if n == 0 {
            return TrackIdentifier::Name(value.to_owned());
        }
        let mut acc: u64 = 0;
        let mut i: usize = 0;
        while i < n
            invariant
                n == value@.len(),
                0 < n,
                i <= n,
                i >= 1 ==> decimal_value(value@.subrange(0, i as int)) == Some(acc as int),
                i == 0 ==> acc == 0,
                acc <= u32::MAX,
            decreases n - i,
        {
            let c = value.get_char(i);
            proof {
                let t = value@.subrange(0, i + 1);
                assert(t.drop_last() =~= value@.subrange(0, i as int));
                assert(t.last() == c);
            }
            if c < '0' || c > '9' {
                proof {
                    lemma_decimal_prefix(value@, i + 1, n as int);
                    assert(value@.subrange(0, n as int) =~= value@);
                }
                return TrackIdentifier::Name(value.to_owned());
            }
            let digit = (c as u32 - '0' as u32) as u64;
            let next = acc * 10 + digit;
            if next > u32::MAX as u64 {
                proof {
                    lemma_decimal_prefix(value@, i + 1, n as int);
                    assert(value@.subrange(0, n as int) =~= value@);
                }
                return TrackIdentifier::Name(value.to_owned());
            }
            acc = next;
            i = i + 1;
        }
        proof {
            assert(value@.subrange(0, n as int) =~= value@);
        }
        TrackIdentifier::Id(acc as u32)
    }
}

/// A numeral whose prefix is not a numeral (or exceeds `u32::MAX`) is not one
/// either (or exceeds it too).
proof fn lemma_decimal_prefix(s: Seq<char>, k: int, n: int)
    requires
        1 <= k <= n <= s.len(),
        decimal_value(s.subrange(0, k)) is None || decimal_value(s.subrange(0, k)).unwrap() > u32::MAX,
    ensures
        decimal_value(s.subrange(0, n)) is None || decimal_value(s.subrange(0, n)).unwrap() > u32::MAX,
    decreases n - k,
{
    if n > k {
        lemma_decimal_prefix(s, k, n - 1);
        let t = s.subrange(0, n);
        assert(t.drop_last() =~= s.subrange(0, n - 1));
        lemma_decimal_nonneg(s.subrange(0, n - 1));
    }
}

proof fn lemma_decimal_nonneg(s: Seq<char>)
    ensures
        decimal_value(s) is Some ==> decimal_value(s).unwrap() >= 0,
    decreases s.len(),
{
    if s.len() > 1 {
        lemma_decimal_nonneg(s.drop_last());
    }
}

/// Whether a track with this id, handler name and handler sub-type is the
/// one `ident` picks.
pub open spec fn identifies(ident: TrackIdentifier, id: u32, name: Seq<char>, sub_type: Seq<char>) -> bool {
    match ident {
        TrackIdentifier::Id(i) => i == id,
        TrackIdentifier::Name(n) => n@ == name,
        TrackIdentifier::SubType(t) => t@ == sub_type,
    }
}

/// The first atom named `name` from `pos`, when its payload lies in the buffer.
pub open spec fn found_atom(d: Seq<u8>, base: int, pos: int, name: FourCC) -> Option<AtomHeader> {
    match find_from(d, base, pos, name, None) {
        Some(Some(h)) => if payload_in(d, base, h) {
            Some(h)
        } else {
            None
        },
        _ => None,
    }
}

/// The next track's `tkhd`, `mdhd` and `hdlr` from `pos`, each found after
/// the one before and decodable, and where the walk then stands: just past
/// the next `stbl` header, or the end of the buffer when there is none.
pub open spec fn track_headers_at(d: Seq<u8>, base: int, pos: int) -> Option<(AtomHeader, AtomHeader, AtomHeader, u64)> {
    match found_atom(d, base, pos, FourCC::Tkhd) {
        None => None,
        Some(t) => if payload_of(d, base, t).len() < 84 {
            None
        } else {
            match found_atom(d, base, t.spec_end(), FourCC::Mdhd) {
                None => None,
                Some(m) => if payload_of(d, base, m).len() < 24 {
                    None
                } else {
                    match found_atom(d, base, m.spec_end(), FourCC::Hdlr) {
                        None => None,
                        Some(g) => if payload_of(d, base, g).len() < 25 {
                            None
                        } else {
                            match find_from(d, base, g.spec_end(), FourCC::Stbl, None) {
                                None => None,
                                Some(None) => Some((t, m, g, (base + d.len()) as u64)),
                                Some(Some(sb)) => Some((t, m, g, sb.spec_data_offset() as u64)),
                            }
                        },
                    }
                },
            }
        },
    }
}

/// Whether `ident` picks the track whose `tkhd` payload is `pt` and whose
/// `hdlr` payload is `pg`.
pub open spec fn picks(ident: TrackIdentifier, pt: Seq<u8>, pg: Seq<u8>) -> bool {
    identifies(
        ident,
        be_u32_at(pt, 12) as u32,
        crate::headers::handler_name(pg.subrange(24, pg.len() as int)),
        latin1(pg.subrange(8, 12)),
    )
}

/// How a search for a track ends.
pub enum TrackSearch {
    /// No further track can be read before one matches.
    NoTrack,
    /// The first matching track: its `tkhd`, `mdhd`, `hdlr`, and where its
    /// sample tables are read from.
    Found(AtomHeader, AtomHeader, AtomHeader, u64),
}

/// The search from `pos` for the first track that `ident` picks.
pub open spec fn tracks_from(d: Seq<u8>, base: int, pos: int, ident: TrackIdentifier) -> TrackSearch
    decreases dist(d, base, pos),
{
    if pos >= base + d.len() {
        TrackSearch::NoTrack
    } else {
        match track_headers_at(d, base, pos) {
            None => TrackSearch::NoTrack,
            Some((t, m, g, p)) => if picks(ident, payload_of(d, base, t), payload_of(d, base, g)) {
                TrackSearch::Found(t, m, g, p)
            } else if p > pos {
                tracks_from(d, base, p as int, ident)
            } else {
                TrackSearch::NoTrack
            },
        }
    }
}

/// The tracks from `pos` on, in file order, as long as their headers can be
/// read: each with its `tkhd`, `mdhd` and `hdlr` headers and the headers of
/// its sample atoms. `None` when a track's sample tables cannot be read.
pub open spec fn track_list_from(d: Seq<u8>, base: int, pos: int) -> Option<
    Seq<(AtomHeader, AtomHeader, AtomHeader, SeenTables)>,
>
    decreases dist(d, base, pos),
{
    if pos >= base + d.len() {
        Some(Seq::empty())
    } else {
        match track_headers_at(d, base, pos) {
            None => Some(Seq::empty()),
            Some((t, m, g, p)) => match tables_from(d, base, p as int, none_seen()) {
                TablesWalk::Complete(seen, e) => if e > pos {
                    match track_list_from(d, base, e as int) {
                        None => None,
                        Some(rest) => Some(seq![(t, m, g, seen)] + rest),
                    }
                } else {
                    None
                },
                _ => None,
            },
        }
    }
}

/// The attributes `a` are those of the track with `tkhd` payload `pt`,
/// `mdhd` payload `pm` and `hdlr` payload `pg`.
pub open spec fn attributes_from(a: TrackAttributes, pt: Seq<u8>, pm: Seq<u8>, pg: Seq<u8>) -> bool {
    &&& a.id == be_u32_at(pt, 12)
    &&& a.creation_time == be_u32_at(pt, 4)
    &&& a.modification_time == be_u32_at(pt, 8)
    &&& a.width == be_u32_at(pt, 76) / 0x10000
    &&& a.height == be_u32_at(pt, 80) / 0x10000
    &&& a.time_scale == be_u32_at(pm, 12)
    &&& a.duration == be_u32_at(pm, 16)
    &&& a.name@ == crate::headers::handler_name(pg.subrange(24, pg.len() as int))
    &&& a.sub_type@ == latin1(pg.subrange(8, 12))
}

/// What a search for the track that `ident` picks from `start` returns
/// (see [`TrackAttributes::new`]).
pub open spec fn track_search_result(
    d: Seq<u8>,
    b: int,
    start: int,
    ident: TrackIdentifier,
    r: Result<TrackAttributes, Mp4Error>,
) -> bool {
    let o = tracks_from(d, b, start, ident);
    &&& r is Ok ==> r->Ok_0.consistent() && identifies(ident, r->Ok_0.id, r->Ok_0.name@, r->Ok_0.sub_type@)
    &&& o is NoTrack ==> r == Err::<TrackAttributes, Mp4Error>(Mp4Error::NoSuchTrack(ident))
    &&& o is Found ==> {
        let (t, m, g, p) = (o->Found_0, o->Found_1, o->Found_2, o->Found_3);
        let w = tables_from(d, b, p as int, none_seen());
        &&& r is Ok ==> attributes_from(r->Ok_0, payload_of(d, b, t), payload_of(d, b, m), payload_of(d, b, g))
            && w is Complete && w->Complete_0 == r->Ok_0.tables.seen() && r->Ok_0.tables.read_from(d, b, p as int)
        &&& !(w is Complete) ==> r is Err
        &&& w is NextTrack ==> r == Err::<TrackAttributes, Mp4Error>(Mp4Error::SampleOffsetError)
        &&& (w is Complete && r is Err) ==> (r->Err_0 is SampleCountMismatch || r->Err_0 is MissingChunkEntry
            || r->Err_0 is NumericOverflow)
        &&& (w is Complete && r is Err) ==> exists|st: SampleTables|
            #![trigger st.read_from(d, b, p as int)]
            st.read_from(d, b, p as int) && st.seen() == w->Complete_0 && track_offsets_spec(
                st.stts.1,
                st.stsc.1,
                st.stsz.1,
                st.chunks.1,
                be_u32_at(payload_of(d, b, m), 12) as u32,
            ) is None
    }
}

/// What a listing of all tracks from `start` returns (see
/// [`TrackAttributes::all`]).
pub open spec fn track_list_result(d: Seq<u8>, b: int, start: int, r: Result<Seq<TrackAttributes>, Mp4Error>) -> bool {
    let l = track_list_from(d, b, start);
    &&& r is Ok ==> forall|i: int| 0 <= i < r->Ok_0.len() ==> (#[trigger] r->Ok_0[i]).consistent()
    &&& l is None ==> r is Err
    &&& r is Ok ==> l is Some && r->Ok_0.len() == l.unwrap().len() && forall|i: int|
        0 <= i < r->Ok_0.len() ==> attributes_from(
            #[trigger] r->Ok_0[i],
            payload_of(d, b, l.unwrap()[i].0),
            payload_of(d, b, l.unwrap()[i].1),
            payload_of(d, b, l.unwrap()[i].2),
        ) && r->Ok_0[i].tables.seen() == l.unwrap()[i].3
    &&& (l is Some && r is Err) ==> (r->Err_0 is SampleCountMismatch || r->Err_0 is MissingChunkEntry
        || r->Err_0 is NumericOverflow)
    &&& (l is Some && r is Err) ==> exists|k: int, st: SampleTables|
        #![trigger st.read_from(d, b, b), l.unwrap()[k]]
        0 <= k < l.unwrap().len() && st.read_from(d, b, b) && st.seen() == l.unwrap()[k].3 && track_offsets_spec(
            st.stts.1,
            st.stsc.1,
            st.stsz.1,
            st.chunks.1,
            be_u32_at(payload_of(d, b, l.unwrap()[k].1), 12) as u32,
        ) is None
}

/// Everything known about one track.
#[derive(Debug)]
pub struct TrackAttributes {
    /// Handler name (`hdlr` component name).
    pub name: String,
    /// Track ID (`tkhd`).
    pub id: u32,
    /// Seconds since midnight, 1904-01-01 (`tkhd`).
    pub creation_time: u32,
    /// Seconds since midnight, 1904-01-01 (`tkhd`).
    pub modification_time: u32,
    /// Handler sub-type as text, e.g. `vide` (`hdlr`).
    pub sub_type: String,
    /// Time units per second of this track (`mdhd`).
    pub time_scale: u32,
    /// Unscaled duration (`mdhd`).
    pub duration: u32,
    /// Width in whole pixels (`tkhd`); 0 for tracks that are not video.
    pub width: u32,
    /// Height in whole pixels (`tkhd`); 0 for tracks that are not video.
    pub height: u32,
    /// The track's sample tables.
    pub tables: SampleTables,
    /// Position, size and duration of every sample.
    pub offsets: Vec<SampleOffset>,
}

impl TrackAttributes {
    /// The samples are the ones the track's tables describe, durations in
    /// the track's time scale.
    pub open spec fn consistent(&self) -> bool {
        track_offsets_spec(self.tables.stts.1, self.tables.stsc.1, self.tables.stsz.1, self.tables.chunks.1, self.time_scale)
            == Some(self.offsets@)
    }

    /// Attributes of the track whose `tkhd`, `mdhd` and `hdlr` were decoded,
    /// with its sample tables read from the stream's position.
    #[verifier::rlimit(50)]
    fn build(s: &mut ByteStream, tkhd: &Tkhd, mdhd: &Mdhd, hdlr: &Hdlr) -> (r: Result<TrackAttributes, Mp4Error>)
        requires
            old(s).wf(),
        ensures
            final(s).same_buffer(old(s)),
            final(s).wf(),
            r is Ok ==> final(s).position() >= old(s).position(),
            r is Ok ==> r->Ok_0.consistent() && r->Ok_0.id == tkhd.track_id && r->Ok_0.name@ == hdlr.component_name@
                && r->Ok_0.sub_type@ == latin1(hdlr.component_sub_type@) && r->Ok_0.time_scale == mdhd.time_scale
                && r->Ok_0.duration == mdhd.duration && r->Ok_0.creation_time == tkhd.creation_time
                && r->Ok_0.modification_time == tkhd.modification_time && r->Ok_0.width == tkhd.track_width / 0x10000
                && r->Ok_0.height == tkhd.track_height / 0x10000
                && r->Ok_0.tables.read_from(old(s).data(), old(s).base(), old(s).position()),
            ({
                let w = tables_from(old(s).data(), old(s).base(), old(s).position(), none_seen());
                &&& r is Ok ==> w is Complete && w->Complete_0 == r->Ok_0.tables.seen() && final(s).position() == w->Complete_1
                &&& !(w is Complete) ==> r is Err
                &&& w is NextTrack ==> r == Err::<TrackAttributes, Mp4Error>(Mp4Error::SampleOffsetError)
                &&& (w is Complete && r is Err) ==> (r->Err_0 is SampleCountMismatch || r->Err_0 is MissingChunkEntry
                    || r->Err_0 is NumericOverflow)
                &&& (w is Complete && r is Err) ==> exists|t: SampleTables|
                    #![trigger t.read_from(old(s).data(), old(s).base(), old(s).position())]
                    t.read_from(old(s).data(), old(s).base(), old(s).position()) && t.seen() == w->Complete_0
                        && track_offsets_spec(t.stts.1, t.stsc.1, t.stsz.1, t.chunks.1, mdhd.time_scale) is None
            }),
    {
        let tables = SampleTables::collect(s)?;
        let offsets = match build_sample_offsets(&tables.stts.1, &tables.stsc.1, &tables.stsz.1, &tables.chunks.1, mdhd.time_scale) {
            Ok(o) => o,
            Err(e) => {
                proof {
                    assert(tables.read_from(old(s).data(), old(s).base(), old(s).position()));
                }
                return Err(e);
            },
        };
        Ok(TrackAttributes {
            name: hdlr.component_name.clone(),
            id: tkhd.track_id,
            creation_time: tkhd.creation_time,
            modification_time: tkhd.modification_time,
            sub_type: hdlr.component_sub_type(),
            time_scale: mdhd.time_scale,
            duration: mdhd.duration,
            width: tkhd.width(),
            height: tkhd.height(),
            tables,
            offsets,
        })
    }

    /// Finds and decodes the next atom named `name` after the position.
    pub(crate) fn next_atom(s: &mut ByteStream, name: FourCC) -> (r: Result<Atom, Mp4Error>)
        requires
            old(s).wf(),
        ensures
            final(s).same_buffer(old(s)),
            final(s).wf(),
            r is Ok ==> final(s).position() > old(s).position() && r->Ok_0.header.name.code() == name.code()
                && old(s).position() < old(s).end() && header_at(old(s).data(), old(s).base(), r->Ok_0.header.offset as int)
                == Some(r->Ok_0.header) && r->Ok_0.data@ == payload_of(old(s).data(), old(s).base(), r->Ok_0.header)
                && r->Ok_0.header.offset >= old(s).position() && final(s).position() == r->Ok_0.header.spec_end()
                && r->Ok_0.header.wf(),
            ({
                let f = found_atom(old(s).data(), old(s).base(), old(s).position(), name);
                &&& r is Ok <==> f is Some
                &&& r is Ok ==> r->Ok_0.header == f.unwrap()
            }),
    {
        match s.find_header(name, false)? {
            Some(h) => Atom::read(s, h),
            None => Err(Mp4Error::NoSuchAtom(name)),
        }
    }

    /// Decodes the next `tkhd`, `mdhd` and `hdlr` after the position and
    /// moves past the next `stbl` header; also returns their headers.
    fn next_track_headers(s: &mut ByteStream) -> (r: Result<(Tkhd, Mdhd, Hdlr, AtomHeader, AtomHeader, AtomHeader), Mp4Error>)
        requires
            old(s).wf(),
        ensures
            final(s).same_buffer(old(s)),
            final(s).wf(),
            r is Ok ==> final(s).position() > old(s).position() && old(s).position() < old(s).end(),
            ({
                let d = old(s).data();
                let b = old(s).base();
                let th = track_headers_at(d, b, old(s).position());
                &&& r is Ok <==> th is Some
                &&& r is Ok ==> {
                    let (x, y, z, t, m, g) = r->Ok_0;
                    &&& t == th.unwrap().0 && m == th.unwrap().1 && g == th.unwrap().2
                    &&& x.parsed_from(payload_of(d, b, t)) && y.parsed_from(payload_of(d, b, m)) && z.parsed_from(payload_of(d, b, g))
                    &&& final(s).position() == th.unwrap().3 || (th.unwrap().3 == old(s).end() && final(s).position() >= old(s).end())
                }
            }),
    {
        let ta = TrackAttributes::next_atom(s, FourCC::Tkhd)?;
        let tkhd = ta.tkhd()?;
        let ma = TrackAttributes::next_atom(s, FourCC::Mdhd)?;
        let mdhd = ma.mdhd()?;
        let ha = TrackAttributes::next_atom(s, FourCC::Hdlr)?;
        let hdlr = ha.hdlr()?;
        let _ = s.find_header(FourCC::Stbl, false)?;
        Ok((tkhd, mdhd, hdlr, ta.header, ma.header, ha.header))
    }

    /// The first track from the stream's position (from the start with
    /// `reset`) that `identifier` picks: each track's `tkhd`, `mdhd` and
    /// `hdlr` are decoded in turn; on a match its sample tables are read from
    /// its `stbl`. Fails with `NoSuchTrack` when no further track can be read.
    pub fn new(s: &mut ByteStream, identifier: &TrackIdentifier, reset: bool) -> (r: Result<TrackAttributes, Mp4Error>)
        requires
            old(s).wf(),
        ensures
            final(s).same_buffer(old(s)),
            final(s).wf(),
            r is Ok ==> r->Ok_0.consistent() && identifies(*identifier, r->Ok_0.id, r->Ok_0.name@, r->Ok_0.sub_type@),
            track_search_result(
                old(s).data(),
                old(s).base(),
                if reset {
                    old(s).base()
                } else {
                    old(s).position()
                },
                *identifier,
                r,
            ),
    {
        if reset {
            s.reset();
        }
        let ghost start = s.position();
        let ghost d = s.data();
        let ghost b = s.base();
        loop
            invariant
                s.wf(),
                s.same_buffer(old(s)),
                d == s.data(),
                b == s.base(),
                start == if reset {
                    old(s).base()
                } else {
                    old(s).position()
                },
                tracks_from(d, b, start, *identifier) == tracks_from(d, b, s.position(), *identifier),
            decreases dist(s.data(), s.base(), s.position()),
        {
            let ghost q = s.position();
            let (tkhd, mdhd, hdlr, th, mh, gh) = match TrackAttributes::next_track_headers(s) {
                Ok(t) => t,
                Err(_) => {
                    return Err(Mp4Error::NoSuchTrack(identifier.copy()));
                },
            };
            let ghost p = track_headers_at(d, b, q).unwrap().3;
            let sub_type = hdlr.component_sub_type();
            let matched = match identifier {
                TrackIdentifier::Id(i) => *i == tkhd.track_id,
                TrackIdentifier::Name(n) => *n == hdlr.component_name,
                TrackIdentifier::SubType(t) => *t == sub_type,
            };
            proof {
                assert(matched == picks(*identifier, payload_of(d, b, th), payload_of(d, b, gh)));
                if s.position() != p {
                    assert(tables_from(d, b, s.position(), none_seen()) is Failed);
                    assert(tables_from(d, b, p as int, none_seen()) is Failed);
                }
            }
            if matched {
                return TrackAttributes::build(s, &tkhd, &mdhd, &hdlr);
            }
            proof {
                if s.position() != p {
                    assert(tracks_from(d, b, s.position(), *identifier) is NoTrack);
                    assert(tracks_from(d, b, p as int, *identifier) is NoTrack);
                }
            }
        }
    }
}


impl TrackAttributes {
    /// Attributes of every track from the stream's position (from the start
    /// with `reset`), in file order, until no further `tkhd` is found.
    pub fn all(s: &mut ByteStream, reset: bool) -> (r: Result<Vec<TrackAttributes>, Mp4Error>)
        requires
            old(s).wf(),
        ensures
            final(s).same_buffer(old(s)),
            final(s).wf(),
            r is Ok ==> forall|i: int| 0 <= i < r->Ok_0@.len() ==> (#[trigger] r->Ok_0@[i]).consistent(),
            track_list_result(
                old(s).data(),
                old(s).base(),
                if reset {
                    old(s).base()
                } else {
                    old(s).position()
                },
                match r {
                    Ok(v) => Ok(v@),
                    Err(e) => Err(e),
                },
            ),
    {
        if reset {
            s.reset();
        }
        let ghost d = s.data();
        let ghost b = s.base();
        let ghost start = s.position();
        let ghost mut done: Seq<(AtomHeader, AtomHeader, AtomHeader, SeenTables)> = Seq::empty();
        let mut out: Vec<TrackAttributes> = Vec::new();
        loop
            invariant
                s.wf(),
                s.same_buffer(old(s)),
                d == s.data(),
                b == s.base(),
                start == if reset {
                    b
                } else {
                    old(s).position()
                },
                forall|i: int| 0 <= i < out@.len() ==> (#[trigger] out@[i]).consistent(),
                out@.len() == done.len(),
                forall|i: int|
                    0 <= i < out@.len() ==> attributes_from(
                        #[trigger] out@[i],
                        payload_of(d, b, done[i].0),
                        payload_of(d, b, done[i].1),
                        payload_of(d, b, done[i].2),
                    ) && out@[i].tables.seen() == done[i].3,
                track_list_from(d, b, start) == match track_list_from(d, b, s.position()) {
                    None => None,
                    Some(rest) => Some(done + rest),
                },
            decreases dist(s.data(), s.base(), s.position()),
        {
            let ghost q = s.position();
            let (tkhd, mdhd, hdlr, th, mh, gh) = match TrackAttributes::next_track_headers(s) {
                Ok(t) => t,
                Err(_) => {
                    proof {
                        assert(track_list_from(d, b, q) == Some(Seq::<(AtomHeader, AtomHeader, AtomHeader, SeenTables)>::empty()));
                        assert(done + Seq::<(AtomHeader, AtomHeader, AtomHeader, SeenTables)>::empty() =~= done);
                    }
                    return Ok(out);
                },
            };
            let ghost p = track_headers_at(d, b, q).unwrap().3;
            proof {
                if s.position() != p {
                    assert(tables_from(d, b, s.position(), none_seen()) is Failed);
                    assert(tables_from(d, b, p as int, none_seen()) is Failed);
                }
            }
            let ghost at = s.position();
            let a = match TrackAttributes::build(s, &tkhd, &mdhd, &hdlr) {
                Ok(a) => a,
                Err(e) => {
                    proof {
                        let w = tables_from(d, b, p as int, none_seen());
                        let l = track_list_from(d, b, start);
                        if w is Complete && l is Some {
                            assert(at == p);
                            let item = (th, mh, gh, w->Complete_0);
                            let e2 = w->Complete_1;
                            let rest = track_list_from(d, b, e2 as int);
                            assert(rest is Some);
                            assert(l.unwrap() == done + (seq![item] + rest.unwrap()));
                            assert(l.unwrap()[done.len() as int] == item);
                            let t = choose|t: SampleTables|
                                t.read_from(d, b, at) && t.seen() == w->Complete_0 && track_offsets_spec(
                                    t.stts.1,
                                    t.stsc.1,
                                    t.stsz.1,
                                    t.chunks.1,
                                    mdhd.time_scale,
                                ) is None;
                            assert(t.read_from(d, b, b));
                            assert(mdhd.time_scale == be_u32_at(payload_of(d, b, mh), 12));
                        }
                    }
                    return Err(e);
                },
            };
            proof {
                let w = tables_from(d, b, p as int, none_seen());
                let e = w->Complete_1;
                let item = (th, mh, gh, w->Complete_0);
                let rest = track_list_from(d, b, e as int);
                assert(e > q);
                assert(track_list_from(d, b, q) == match rest {
                    None => None,
                    Some(rr) => Some(seq![item] + rr),
                });
                if rest is Some {
                    assert(done.push(item) + rest.unwrap() =~= done + (seq![item] + rest.unwrap()));
                }
                done = done.push(item);
            }
            out.push(a);
        }
        Ok(out)
    }

    /// Handler name.
    pub fn name(&self) -> (r: &str)
        ensures
            r@ == self.name@,
    {
        self.name.as_str()
    }

    /// Track ID.
    pub fn id(&self) -> (r: u32)
        ensures
            r == self.id,
    {
        self.id
    }

    /// Seconds since midnight, 1904-01-01.
    pub fn creation_time(&self) -> (r: u32)
        ensures
            r == self.creation_time,
    {
        self.creation_time
    }

    /// Seconds since midnight, 1904-01-01.
    pub fn modification_time(&self) -> (r: u32)
        ensures
            r == self.modification_time,
    {
        self.modification_time
    }

    /// Handler sub-type, e.g. `vide`.
    pub fn sub_type(&self) -> (r: &str)
        ensures
            r@ == self.sub_type@,
    {
        self.sub_type.as_str()
    }

    /// Time units per second of this track.
    pub fn time_scale(&self) -> (r: u32)
        ensures
            r == self.time_scale,
    {
        self.time_scale
    }

    /// Unscaled duration.
    pub fn duration_unscaled(&self) -> (r: u32)
        ensures
            r == self.duration,
    {
        self.duration
    }

    /// Duration in the track's time scale (zero read as one).
    pub fn duration(&self) -> (r: Duration)
        ensures
            r.ticks == self.duration,
            r.time_scale == effective_scale(self.time_scale),
    {
        Duration::from_ticks(self.duration as u128, self.time_scale)
    }

    /// Width in whole pixels; 0 for tracks that are not video.
    pub fn width(&self) -> (r: u32)
        ensures
            r == self.width,
    {
        self.width
    }

    /// Height in whole pixels; 0 for tracks that are not video.
    pub fn height(&self) -> (r: u32)
        ensures
            r == self.height,
    {
        self.height
    }

    /// Position, size and duration of every sample.
    pub fn offsets(&self) -> (r: &[SampleOffset])
        ensures
            r@ == self.offsets@,
    {
        self.offsets.as_slice()
    }

    /// The track's sample descriptions.
    pub fn stsd(&self) -> (r: &Stsd)
        ensures
            *r == self.tables.stsd.1,
    {
        &self.tables.stsd.1
    }

    /// Frame rate as the fraction `(samples * time_scale, unscaled_duration)`;
    /// `None` when the duration is zero.
    pub fn frame_rate(&self) -> (r: Option<(u128, u32)>)
        ensures
            r is Some <==> self.duration != 0,
            r is Some ==> r.unwrap() == ((self.offsets@.len() * self.time_scale) as u128, self.duration),
    {
        if self.duration == 0 {
            return None;
        }
        let n = self.offsets.len() as u128;
        proof {
            assert(n * (self.time_scale as int) <= 0xFFFF_FFFF_FFFF_FFFF * 0xFFFF_FFFF) by (nonlinear_arith)
                requires n <= 0xFFFF_FFFF_FFFF_FFFF, self.time_scale <= 0xFFFF_FFFF;
        }
        Some((n * self.time_scale as u128, self.duration))
    }
}

/// Time from the track's start to sample `k`: the sum of the durations of
/// the samples before it.
pub open spec fn relative_ticks(o: Seq<SampleOffset>, k: int) -> int
    decreases k,
{
    if k <= 0 {
        0
    } else {
        relative_ticks(o, k - 1) + o[k - 1].duration.ticks
    }
}

/// Each sample starts where the one before it ends: its relative time is the
/// previous sample's relative time plus that sample's duration.
pub proof fn lemma_relative_time_step(o: Seq<SampleOffset>, k: int)
    requires
        0 <= k,
    ensures
        relative_ticks(o, k + 1) == relative_ticks(o, k) + o[k].duration.ticks,
        relative_ticks(o, 0) == 0,
{
}

/// Every sample of a consistent track lasts at most `u32::MAX` units of the
/// track's effective time scale.
pub proof fn lemma_consistent_ticks(a: &TrackAttributes)
    requires
        a.consistent(),
    ensures
        forall|k: int| 0 <= k < a.offsets@.len() ==> (#[trigger] a.offsets@[k]).duration.ticks <= u32::MAX
            && a.offsets@[k].duration.time_scale == effective_scale(a.time_scale),
{
}

proof fn lemma_relative_bound(o: Seq<SampleOffset>, k: int)
    requires
        0 <= k <= o.len(),
        forall|j: int| 0 <= j < o.len() ==> (#[trigger] o[j]).duration.ticks <= u32::MAX,
    ensures
        0 <= relative_ticks(o, k) <= k * 0xFFFF_FFFF,
    decreases k,
{
    if k > 0 {
        lemma_relative_bound(o, k - 1);
    }
}

/// One sample's bytes with its timing.
#[derive(Debug, Clone)]
pub struct Sample {
    /// Time from the track's start.
    pub relative_time: Duration,
    /// How long the sample lasts.
    pub sample_duration: Duration,
    /// The sample's bytes, copied from the file.
    pub data: Vec<u8>,
}

impl Sample {
    /// Sample with the given bytes and timing.
    pub fn new(data: Vec<u8>, relative_time: Duration, sample_duration: Duration) -> (r: Sample)
        ensures
            r.data@ == data@,
            r.relative_time == relative_time,
            r.sample_duration == sample_duration,
    {
        Sample { relative_time, sample_duration, data }
    }

    /// The same sample with another relative time.
    pub fn with_time(self, relative_time: Duration) -> (r: Sample)
        ensures
            r.data@ == self.data@,
            r.relative_time == relative_time,
            r.sample_duration == self.sample_duration,
    {
        Sample { relative_time, sample_duration: self.sample_duration, data: self.data }
    }

    /// How long the sample lasts.
    pub fn duration(&self) -> (r: Duration)
        ensures
            r == self.sample_duration,
    {
        self.sample_duration
    }

    /// Time from the track's start.
    pub fn relative(&self) -> (r: Duration)
        ensures
            r == self.relative_time,
    {
        self.relative_time
    }

    /// `(relative time, duration)`.
    pub fn time(&self) -> (r: (Duration, Duration))
        ensures
            r == (self.relative_time, self.sample_duration),
    {
        (self.relative_time, self.sample_duration)
    }

    /// The sample's bytes.
    pub fn raw(&self) -> (r: &[u8])
        ensures
            r@ == self.data@,
    {
        self.data.as_slice()
    }

    /// Size in bytes.
    pub fn len(&self) -> (r: usize)
        ensures
            r == self.data@.len(),
    {
        self.data.len()
    }
}

/// A track: its attributes and sample table. Sample bytes are read from a
/// stream over the file on request.
#[derive(Debug)]
pub struct Track {
    pub attributes: TrackAttributes,
}

impl Track {
    /// The track's attributes hold the samples its tables describe.
    pub open spec fn wf(&self) -> bool {
        self.attributes.consistent()
    }

    /// Track with the given attributes.
    pub fn from_attributes(attributes: TrackAttributes) -> (r: Track)
        ensures
            r.attributes == attributes,
    {
        Track { attributes }
    }

    /// Number of samples.
    pub fn len(&self) -> (r: usize)
        ensures
            r == self.attributes.offsets@.len(),
    {
        self.attributes.offsets.len()
    }

    /// Total size of all samples in bytes.
    pub fn size(&self) -> (r: u128)
        ensures
            r == size_total(self.attributes.offsets@, self.attributes.offsets@.len() as int),
    {
        let o = &self.attributes.offsets;
        let mut sum: u128 = 0;
        let mut k: usize = 0;
        while k < o.len()
            invariant
                k <= o@.len(),
                sum == size_total(o@, k as int),
                sum <= k * 0xFFFF_FFFF,
            decreases o@.len() - k,
        {
            sum = sum + o[k].size as u128;
            k = k + 1;
        }
        sum
    }

    /// Handler name.
    pub fn name(&self) -> (r: &str)
        ensures
            r@ == self.attributes.name@,
    {
        self.attributes.name()
    }

    /// Track ID.
    pub fn id(&self) -> (r: u32)
        ensures
            r == self.attributes.id,
    {
        self.attributes.id
    }

    /// Seconds since midnight, 1904-01-01.
    pub fn creation_time(&self) -> (r: u32)
        ensures
            r == self.attributes.creation_time,
    {
        self.attributes.creation_time
    }

    /// Seconds since midnight, 1904-01-01.
    pub fn modification_time(&self) -> (r: u32)
        ensures
            r == self.attributes.modification_time,
    {
        self.attributes.modification_time
    }

    /// Handler sub-type, e.g. `vide`.
    pub fn sub_type(&self) -> (r: &str)
        ensures
            r@ == self.attributes.sub_type@,
    {
        self.attributes.sub_type()
    }

    /// Position, size and duration of every sample.
    pub fn offsets(&self) -> (r: &[SampleOffset])
        ensures
            r@ == self.attributes.offsets@,
    {
        self.attributes.offsets()
    }

    /// Duration in the track's time scale.
    pub fn duration(&self) -> (r: Duration)
        ensures
            r.ticks == self.attributes.duration,
            r.time_scale == effective_scale(self.attributes.time_scale),
    {
        self.attributes.duration()
    }

    /// `(relative time, duration)` of every sample: relative times start at
    /// zero and each is the previous one plus the previous duration.
    pub fn timestamps(&self) -> (r: Vec<(Duration, Duration)>)
        requires
            self.wf(),
        ensures
            r@.len() == self.attributes.offsets@.len(),
            forall|k: int|
                0 <= k < r@.len() ==> (#[trigger] r@[k]).0.ticks == relative_ticks(self.attributes.offsets@, k)
                    && r@[k].0.time_scale == effective_scale(self.attributes.time_scale)
                    && r@[k].1 == self.attributes.offsets@[k].duration,
    {
        proof {
            lemma_consistent_ticks(&self.attributes);
        }
        let o = &self.attributes.offsets;
        let scale = self.attributes.time_scale;
        let mut t: u128 = 0;
        let mut r: Vec<(Duration, Duration)> = Vec::new();
        let mut k: usize = 0;
        while k < o.len()
            invariant
                k <= o@.len(),
                o@ == self.attributes.offsets@,
                scale == self.attributes.time_scale,
                forall|j: int| 0 <= j < o@.len() ==> (#[trigger] o@[j]).duration.ticks <= u32::MAX,
                t == relative_ticks(o@, k as int),
                r@.len() == k,
                forall|j: int|
                    0 <= j < k ==> (#[trigger] r@[j]).0.ticks == relative_ticks(o@, j) && r@[j].0.time_scale
                        == effective_scale(scale) && r@[j].1 == o@[j].duration,
            decreases o@.len() - k,
        {
            proof {
                lemma_relative_bound(o@, k as int);
            }
            let d = o[k].duration;
            r.push((Duration::from_ticks(t, scale), d));
            t = t + d.ticks;
            k = k + 1;
        }
        r
    }

    /// Relative time of sample `k`: the durations of the samples before it.
    pub fn relative_time(&self, k: usize) -> (r: Duration)
        requires
            self.wf(),
            k <= self.attributes.offsets@.len(),
        ensures
            r.ticks == relative_ticks(self.attributes.offsets@, k as int),
            r.time_scale == effective_scale(self.attributes.time_scale),
    {
        proof {
            lemma_consistent_ticks(&self.attributes);
        }
        let o = &self.attributes.offsets;
        let mut t: u128 = 0;
        let mut j: usize = 0;
        while j < k
            invariant
                k <= o@.len(),
                j <= k,
                forall|i: int| 0 <= i < o@.len() ==> (#[trigger] o@[i]).duration.ticks <= u32::MAX,
                t == relative_ticks(o@, j as int),
            decreases k - j,
        {
            proof {
                lemma_relative_bound(o@, j as int);
            }
            t = t + o[j].duration.ticks;
            j = j + 1;
        }
        Duration::from_ticks(t, self.attributes.time_scale)
    }

    /// Sample `k`: its bytes read from `file` (a stream over the file), its
    /// relative time and duration. Fails with `ReadMismatch` when the bytes
    /// are not all in the stream.
    pub fn sample(&self, k: usize, file: &mut ByteStream) -> (r: Result<Sample, Mp4Error>)
        requires
            self.wf(),
            k < self.attributes.offsets@.len(),
            old(file).wf(),
        ensures
            final(file).same_buffer(old(file)),
            final(file).wf(),
            ({
                let o = self.attributes.offsets@[k as int];
                let d = old(file).data();
                let b = old(file).base();
                &&& r is Ok <==> crate::stream::can_read(d, b, o.position as int, o.size as int)
                &&& r is Ok ==> r->Ok_0.data@ == d.subrange(o.position - b, o.position - b + o.size)
                    && r->Ok_0.relative_time.ticks == relative_ticks(self.attributes.offsets@, k as int)
                    && r->Ok_0.relative_time.time_scale == effective_scale(self.attributes.time_scale)
                    && r->Ok_0.sample_duration == o.duration
            }),
    {
        let t = self.relative_time(k);
        let off = self.attributes.offsets[k];
        Track::read_sample(file, &off, t)
    }

    /// Reads the bytes of the sample `off` from `file`.
    fn read_sample(file: &mut ByteStream, off: &SampleOffset, relative_time: Duration) -> (r: Result<Sample, Mp4Error>)
        requires
            old(file).wf(),
        ensures
            final(file).same_buffer(old(file)),
            final(file).wf(),
            ({
                let d = old(file).data();
                let b = old(file).base();
                &&& r is Ok <==> crate::stream::can_read(d, b, off.position as int, off.size as int)
                &&& r is Ok ==> r->Ok_0.data@ == d.subrange(off.position - b, off.position - b + off.size)
                    && r->Ok_0.relative_time == relative_time && r->Ok_0.sample_duration == off.duration
            }),
    {
        if off.position < file.start() {
            return Err(Mp4Error::ReadMismatch { got: 0, expected: off.size as u64 });
        }
        let _ = file.seek(SeekFrom::Start(off.position));
        let data = file.read_bytes(ReadOption::Sized(off.size as usize))?;
        Ok(Sample { relative_time, sample_duration: off.duration, data })
    }

    /// Every sample in order, read from `file`, up to and including the first
    /// that cannot be read (an `Err`, always last).
    pub fn samples(&self, file: &mut ByteStream) -> (r: Vec<Result<Sample, Mp4Error>>)
        requires
            self.wf(),
            old(file).wf(),
        ensures
            final(file).same_buffer(old(file)),
            final(file).wf(),
            r@.len() <= self.attributes.offsets@.len(),
            forall|k: int| 0 <= k < r@.len() - 1 ==> (#[trigger] r@[k]) is Ok,
            r@.len() < self.attributes.offsets@.len() ==> r@.len() > 0 && r@.last() is Err,
            forall|k: int|
                0 <= k < r@.len() ==> ((#[trigger] r@[k]) is Ok <==> crate::stream::can_read(
                    old(file).data(),
                    old(file).base(),
                    self.attributes.offsets@[k].position as int,
                    self.attributes.offsets@[k].size as int,
                )),
            forall|k: int|
                0 <= k < r@.len() && (#[trigger] r@[k]) is Ok ==> {
                    let o = self.attributes.offsets@[k];
                    let d = old(file).data();
                    let b = old(file).base();
                    &&& r@[k]->Ok_0.data@ == d.subrange(o.position - b, o.position - b + o.size)
                    &&& r@[k]->Ok_0.relative_time.ticks == relative_ticks(self.attributes.offsets@, k)
                    &&& r@[k]->Ok_0.sample_duration == o.duration
                },
    {
        proof {
            lemma_consistent_ticks(&self.attributes);
        }
        let o = &self.attributes.offsets;
        let mut t: u128 = 0;
        let mut r: Vec<Result<Sample, Mp4Error>> = Vec::new();
        let mut k: usize = 0;
        while k < o.len()
            invariant
                file.wf(),
                file.same_buffer(old(file)),
                k <= o@.len(),
                o@ == self.attributes.offsets@,
                forall|i: int| 0 <= i < o@.len() ==> (#[trigger] o@[i]).duration.ticks <= u32::MAX,
                t == relative_ticks(o@, k as int),
                r@.len() == k,
                forall|j: int| 0 <= j < k ==> (#[trigger] r@[j]) is Ok,
                forall|j: int|
                    0 <= j < k ==> #[trigger] crate::stream::can_read(
                        old(file).data(),
                        old(file).base(),
                        o@[j].position as int,
                        o@[j].size as int,
                    ),
                forall|j: int|
                    0 <= j < k ==> {
                        let s = o@[j];
                        let d = old(file).data();
                        let b = old(file).base();
                        &&& (#[trigger] r@[j])->Ok_0.data@ == d.subrange(s.position - b, s.position - b + s.size)
                        &&& r@[j]->Ok_0.relative_time.ticks == relative_ticks(o@, j)
                        &&& r@[j]->Ok_0.sample_duration == s.duration
                    },
            decreases o@.len() - k,
        {
            proof {
                lemma_relative_bound(o@, k as int);
            }
            let off = o[k];
            let res = Track::read_sample(file, &off, Duration::from_ticks(t, self.attributes.time_scale));
            let failed = res.is_err();
            r.push(res);
            if failed {
                return r;
            }
            t = t + off.duration.ticks;
            k = k + 1;
        }
        r
    }

    /// The time code entry of the track's `tmcd` description.
    pub fn tmcd(&self) -> (r: Result<crate::stsd::Tmcd, Mp4Error>)
        ensures
            (forall|i: int| 0 <= i < self.attributes.tables.stsd.1.descriptions@.len() ==> !(#[trigger] self.attributes.tables.stsd.1.descriptions@[i].format == TMCD
                && self.attributes.tables.stsd.1.descriptions@[i].data is Binary)) ==> r == Err::<crate::stsd::Tmcd, Mp4Error>(
                Mp4Error::NoSuchAtom(FourCC::Tmcd),
            ),
            forall|i: int|
                0 <= i < self.attributes.tables.stsd.1.descriptions@.len() && is_time_code(#[trigger] self.attributes.tables.stsd.1.descriptions@[i]) && (forall|k: int|
                    0 <= k < i ==> !is_time_code(#[trigger] self.attributes.tables.stsd.1.descriptions@[k])) ==> (r is Ok <==> self.attributes.tables.stsd.1.descriptions@[i].data->Binary_0@.len() >= 18)
                    && (r is Ok ==> tmcd_from(r->Ok_0, self.attributes.tables.stsd.1.descriptions@[i].data->Binary_0@)),
            r is Ok ==> exists|i: int|
                0 <= i < self.attributes.tables.stsd.1.descriptions@.len() && is_time_code(#[trigger] self.attributes.tables.stsd.1.descriptions@[i]) && tmcd_from(
                    r->Ok_0,
                    self.attributes.tables.stsd.1.descriptions@[i].data->Binary_0@,
                ),
    {
        self.attributes.tables.stsd.1.tmcd()
    }

    /// Time of the first frame from a time code track: the first sample holds
    /// a big-endian frame count, and the time code entry the frames per
    /// second. The result counts that many frames in a time scale of that
    /// many per second (zero read as one).
    pub fn time_first_frame(&self, file: &mut ByteStream) -> (r: Result<Duration, Mp4Error>)
        requires
            self.wf(),
            old(file).wf(),
        ensures
            final(file).wf(),
            ((exists|i: int|
                0 <= i < self.attributes.tables.stsd.1.descriptions@.len() && is_time_code(#[trigger] self.attributes.tables.stsd.1.descriptions@[i]) && (forall|k: int|
                    0 <= k < i ==> !is_time_code(#[trigger] self.attributes.tables.stsd.1.descriptions@[k])) && self.attributes.tables.stsd.1.descriptions@[i].data->Binary_0@.len() >= 18)
                && self.attributes.offsets@.len() > 0 && self.attributes.offsets@[0].size >= 4
                && crate::stream::can_read(
                old(file).data(),
                old(file).base(),
                self.attributes.offsets@[0].position as int,
                self.attributes.offsets@[0].size as int,
            )) ==> r is Ok,
            r is Ok ==> ({
                let o = self.attributes.offsets@[0];
                let d = old(file).data();
                let b = old(file).base();
                &&& self.attributes.offsets@.len() > 0
                &&& crate::stream::can_read(d, b, o.position as int, o.size as int) && o.size >= 4
                &&& r->Ok_0.ticks == be_u32_at(d, o.position - b)
                &&& exists|i: int|
                    0 <= i < self.attributes.tables.stsd.1.descriptions@.len() && is_time_code(#[trigger] self.attributes.tables.stsd.1.descriptions@[i])
                        && r->Ok_0.time_scale == effective_scale(self.attributes.tables.stsd.1.descriptions@[i].data->Binary_0@[16] as u32)
            }),
    {
        let tmcd = self.tmcd()?;
        if self.attributes.offsets.len() == 0 {
            return Err(Mp4Error::NoSuchAtom(FourCC::Tmcd));
        }
        let first = self.sample(0, file)?;
        if first.data.len() < 4 {
            return Err(Mp4Error::ReadMismatch { got: first.data.len() as u64, expected: 4 });
        }
        let frames = crate::bytes::u32_at(first.data.as_slice(), 0);
        Ok(Duration::from_ticks(frames as u128, tmcd.number_of_frames as u32))
    }

    /// Frames per second from the track's time code entry.
    pub fn number_of_frames(&self) -> (r: Result<u8, Mp4Error>)
        ensures
            forall|i: int|
                0 <= i < self.attributes.tables.stsd.1.descriptions@.len() && is_time_code(#[trigger] self.attributes.tables.stsd.1.descriptions@[i]) && (forall|k: int|
                    0 <= k < i ==> !is_time_code(#[trigger] self.attributes.tables.stsd.1.descriptions@[k])) ==> (r is Ok <==> self.attributes.tables.stsd.1.descriptions@[i].data->Binary_0@.len() >= 18)
                    && (r is Ok ==> r->Ok_0 == self.attributes.tables.stsd.1.descriptions@[i].data->Binary_0@[16]),
            (forall|i: int| 0 <= i < self.attributes.tables.stsd.1.descriptions@.len() ==> !is_time_code(#[trigger] self.attributes.tables.stsd.1.descriptions@[i])) ==> r is Err,
    {
        let t = self.tmcd()?;
        Ok(t.number_of_frames)
    }

    /// Whether the track's descriptions include a known video format.
    pub fn is_video(&self) -> (r: bool)
        ensures
            r == exists|i: int|
                0 <= i < self.attributes.tables.stsd.1.descriptions@.len()
                    && #[trigger] self.attributes.tables.stsd.1.descriptions@[i].data_format is Video
                    && !(self.attributes.tables.stsd.1.descriptions@[i].data_format->Video_0 is Unknown),
    {
        self.attributes.tables.stsd.1.is_video()
    }

    /// Format of the first video description.
    pub fn video_format(&self) -> (r: Option<crate::formats::VideoFormat>)
        ensures
            r is None <==> forall|i: int| 0 <= i < self.attributes.tables.stsd.1.descriptions@.len() ==> !(#[trigger] self.attributes.tables.stsd.1.descriptions@[i].data_format is Video),
            r is Some ==> exists|i: int| 0 <= i < self.attributes.tables.stsd.1.descriptions@.len() && (#[trigger] self.attributes.tables.stsd.1.descriptions@[i]).data_format
                == DataFormat::Video(r.unwrap()) && forall|k: int| 0 <= k < i ==> !((#[trigger] self.attributes.tables.stsd.1.descriptions@[k]).data_format is Video),
    {
        self.attributes.tables.stsd.1.video_format()
    }

    /// Whether the track's descriptions include a known audio format.
    pub fn is_audio(&self) -> (r: bool)
        ensures
            r == exists|i: int|
                0 <= i < self.attributes.tables.stsd.1.descriptions@.len()
                    && #[trigger] self.attributes.tables.stsd.1.descriptions@[i].data_format is Audio
                    && !(self.attributes.tables.stsd.1.descriptions@[i].data_format->Audio_0 is Unknown),
    {
        self.attributes.tables.stsd.1.is_audio()
    }

    /// Format of the first audio description.
    pub fn audio_format(&self) -> (r: Option<crate::formats::AudioFormat>)
        ensures
            r is None <==> forall|i: int| 0 <= i < self.attributes.tables.stsd.1.descriptions@.len() ==> !(#[trigger] self.attributes.tables.stsd.1.descriptions@[i].data_format is Audio),
            r is Some ==> exists|i: int| 0 <= i < self.attributes.tables.stsd.1.descriptions@.len() && (#[trigger] self.attributes.tables.stsd.1.descriptions@[i]).data_format
                == DataFormat::Audio(r.unwrap()) && forall|k: int| 0 <= k < i ==> !((#[trigger] self.attributes.tables.stsd.1.descriptions@[k]).data_format is Audio),
    {
        self.attributes.tables.stsd.1.audio_format()
    }

    /// Whether the track's descriptions include one that is neither video
    /// nor audio.
    pub fn is_binary(&self) -> (r: bool)
        ensures
            r == exists|i: int|
                0 <= i < self.attributes.tables.stsd.1.descriptions@.len()
                    && #[trigger] self.attributes.tables.stsd.1.descriptions@[i].data_format is Binary,
    {
        self.attributes.tables.stsd.1.is_binary()
    }

    /// Sample rate in whole Hz of the first audio description.
    pub fn sample_rate(&self) -> (r: Option<u32>)
        ensures
            r is None <==> forall|i: int| 0 <= i < self.attributes.tables.stsd.1.descriptions@.len() ==> !(#[trigger] self.attributes.tables.stsd.1.descriptions@[i].data is Audio),
            r is Some ==> exists|i: int| 0 <= i < self.attributes.tables.stsd.1.descriptions@.len() && (#[trigger] self.attributes.tables.stsd.1.descriptions@[i]).data is Audio
                && r.unwrap() == self.attributes.tables.stsd.1.descriptions@[i].data->Audio_0.sample_rate / 0x10000
                && forall|k: int| 0 <= k < i ==> !((#[trigger] self.attributes.tables.stsd.1.descriptions@[k]).data is Audio),
    {
        self.attributes.tables.stsd.1.sample_rate()
    }
}

/// Total size of the first `k` samples.
pub open spec fn size_total(o: Seq<SampleOffset>, k: int) -> int
    decreases k,
{
    if k <= 0 {
        0
    } else {
        size_total(o, k - 1) + o[k - 1].size
    }
}

} // verus!
