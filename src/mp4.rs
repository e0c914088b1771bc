//! The file facade: the `moov` payload held in memory, with lookups of
//! typed atoms, movie-level attributes and tracks.

use vstd::prelude::*;
use vstd::string::StringExecFns;

use crate::atom::{payload_of, Atom};
use crate::bytes::{be_u32_at, latin1};

use crate::error::Mp4Error;
use crate::formats::{AudioFormat, VideoFormat};
use crate::fourcc::FourCC;
use crate::header::{header_at, AtomHeader};
use crate::headers::{Ftyp, Hdlr, Mdhd, Mvhd, Smhd, Tkhd, Vmhd};
use crate::navigate::{dist, find_from};
use crate::stream::{ByteStream, SeekFrom};
use crate::lists::{Dref, Sdtp, Stss};
use crate::stsd::{is_time_code, tmcd_from, first_audio_at, first_video_at, DataFormat, has_audio, has_binary, has_video, Stsd, Tmcd};
use crate::udta::{fields_at, Udta};
use crate::tables::{sample_total, Co64, Stco, Stsc, Stsz, Stts};
use crate::timing::{effective_scale, Duration};
use crate::track::{found_atom, decodes, identifies, track_list_result, track_search_result, Track, TrackAttributes, TrackIdentifier};

verus! {

/// Where a search of the stream `m` starts: its first byte with `reset`,
/// its position otherwise.
pub open spec fn start_of(m: ByteStream, reset: bool) -> int {
    if reset {
        m.base()
    } else {
        m.position()
    }
}

/// `h` is the header of an atom named `name` read in the bytes `d` of a
/// buffer starting at file offset `base`.
pub open spec fn atom_in(d: Seq<u8>, base: int, h: AtomHeader, name: FourCC) -> bool {
    &&& header_at(d, base, h.offset as int) == Some(h)
    &&& h.name.code() == name.code()
    &&& h.wf()
}

/// The headers of the atoms walked from `pos` up to `end` (the end of a
/// `udta` atom), stopping early at a zero FourCC (padding); `None` when a
/// header cannot be read.
pub open spec fn children_from(d: Seq<u8>, b: int, pos: int, end: int) -> Option<Seq<AtomHeader>>
    decreases dist(d, b, pos),
{
    if pos >= end || pos >= b + d.len() {
        Some(Seq::empty())
    } else if crate::stream::can_read(d, b, pos, 8) && be_u32_at(d, pos - b + 4) == 0 {
        Some(Seq::empty())
    } else {
        match header_at(d, b, pos) {
            None => None,
            Some(h) => if h.spec_next_pos() > pos {
                match children_from(d, b, h.spec_next_pos(), end) {
                    None => None,
                    Some(rest) => Some(seq![h] + rest),
                }
            } else {
                None
            },
        }
    }
}

/// The first decodable `hdlr` from `pos` whose payload satisfies `want`.
pub open spec fn hdlr_from(d: Seq<u8>, b: int, pos: int, want: spec_fn(Seq<u8>) -> bool) -> Option<AtomHeader>
    decreases dist(d, b, pos),
{
    if pos >= b + d.len() {
        None
    } else {
        match found_atom(d, b, pos, FourCC::Hdlr) {
            None => None,
            Some(g) => if payload_of(d, b, g).len() < 25 {
                None
            } else if want(payload_of(d, b, g)) {
                Some(g)
            } else if g.spec_end() > pos {
                hdlr_from(d, b, g.spec_end(), want)
            } else {
                None
            },
        }
    }
}

/// The first decodable `stsd` from `pos` whose payload satisfies `want`.
pub open spec fn stsd_search(d: Seq<u8>, b: int, pos: int, want: spec_fn(Seq<u8>) -> bool) -> Option<AtomHeader>
    decreases dist(d, b, pos),
{
    if pos >= b + d.len() {
        None
    } else {
        match found_atom(d, b, pos, FourCC::Stsd) {
            None => None,
            Some(h) => if !decodes(FourCC::Stsd, payload_of(d, b, h)) {
                None
            } else if want(payload_of(d, b, h)) {
                Some(h)
            } else if h.spec_end() > pos {
                stsd_search(d, b, h.spec_end(), want)
            } else {
                None
            },
        }
    }
}

/// An `stsd` payload with a video record.
pub open spec fn video_stsd() -> spec_fn(Seq<u8>) -> bool {
    |p: Seq<u8>| has_video(p)
}

/// An `stsd` payload with an audio record.
pub open spec fn audio_stsd() -> spec_fn(Seq<u8>) -> bool {
    |p: Seq<u8>| has_audio(p)
}

/// An `stsd` payload with a record that is neither video nor audio.
pub open spec fn binary_stsd() -> spec_fn(Seq<u8>) -> bool {
    |p: Seq<u8>| has_binary(p)
}

/// The next atom named `first` from `pos` with at least `min` payload bytes,
/// and the next decodable `hdlr` after it.
pub open spec fn pair_at(d: Seq<u8>, b: int, pos: int, first: FourCC, min: int) -> Option<(AtomHeader, AtomHeader)> {
    match found_atom(d, b, pos, first) {
        None => None,
        Some(h) => if payload_of(d, b, h).len() < min {
            None
        } else {
            match found_atom(d, b, h.spec_end(), FourCC::Hdlr) {
                None => None,
                Some(g) => if payload_of(d, b, g).len() < 25 {
                    None
                } else {
                    Some((h, g))
                },
            }
        },
    }
}

/// The first atom named `first` (each followed by an `hdlr`) from `pos` whose
/// following `hdlr` payload satisfies `want`.
pub open spec fn handler_search(
    d: Seq<u8>,
    b: int,
    pos: int,
    first: FourCC,
    min: int,
    want: spec_fn(Seq<u8>) -> bool,
) -> Option<AtomHeader>
    decreases dist(d, b, pos),
{
    if pos >= b + d.len() {
        None
    } else {
        match pair_at(d, b, pos, first, min) {
            None => None,
            Some((h, g)) => if want(payload_of(d, b, g)) {
                Some(h)
            } else if g.spec_end() > pos {
                handler_search(d, b, g.spec_end(), first, min, want)
            } else {
                None
            },
        }
    }
}

/// An `hdlr` payload naming its handler `name`.
pub open spec fn names(name: Seq<char>) -> spec_fn(Seq<u8>) -> bool {
    |p: Seq<u8>| crate::headers::handler_name(p.subrange(24, p.len() as int)) == name
}

/// An `hdlr` payload with handler sub-type `sub_type`.
pub open spec fn types(sub_type: Seq<char>) -> spec_fn(Seq<u8>) -> bool {
    |p: Seq<u8>| latin1(p.subrange(8, 12)) == sub_type
}

/// What a top-level search does after reading a header.
#[derive(Debug, Clone, Copy, PartialEq, Eq)]
pub enum Scan {
    /// The header names the wanted atom.
    Found(AtomHeader),
    /// Read the next header at this file offset.
    Next(u64),
}

/// One step of a search for the atom named `wanted` over headers read from
/// a file: stop at a match, otherwise continue where the walk goes next.
pub fn scan_step(wanted: FourCC, h: AtomHeader) -> (r: Scan)
    requires
        h.wf(),
    ensures
        h.name.code() == wanted.code() ==> r == Scan::Found(h),
        h.name.code() != wanted.code() ==> r == Scan::Next(h.spec_next_pos() as u64),
{
    if h.name == wanted {
        Scan::Found(h)
    } else {
        Scan::Next(h.offset + h.header_size() as u64 + h.next)
    }
}

/// Which of the two streams over a file to read from.
#[derive(Debug, Clone, Copy, PartialEq, Eq)]
pub enum TargetReader {
    /// The stream over the whole file.
    File,
    /// The in-memory stream over the `moov` payload.
    Moov,
}

/// An opened MP4 file: its size, its `moov` atom's header and payload, and
/// its `ftyp` atom when it has one.
#[derive(Debug)]
pub struct Mp4 {
    file_len: u64,
    moov_header: AtomHeader,
    moov: ByteStream,
    ftyp: Option<Atom>,
}

impl Mp4 {
    /// The `moov` payload stream, positioned at absolute file offsets.
    pub closed spec fn moov_stream(&self) -> ByteStream {
        self.moov
    }

    /// The `moov` atom's header.
    pub closed spec fn spec_moov_header(&self) -> AtomHeader {
        self.moov_header
    }

    /// The `ftyp` atom found when the file was opened.
    pub closed spec fn spec_ftyp(&self) -> Option<Atom> {
        self.ftyp
    }

    /// File size in bytes.
    pub closed spec fn spec_len(&self) -> u64 {
        self.file_len
    }

    /// The stream holds exactly the payload of the `moov` header.
    pub closed spec fn wf(&self) -> bool {
        &&& self.moov.wf()
        &&& self.moov_header.wf()
        &&& self.moov_header.name.code() == FourCC::Moov.code()
        &&& self.moov.base() == self.moov_header.spec_data_offset()
        &&& self.moov.data().len() == self.moov_header.atom_size - self.moov_header.hs()
    }

    /// File whose `moov` atom has header `moov_header` and payload `payload`
    /// (read from the file), with its `ftyp` atom if found. Fails with
    /// `MoovReadError` unless the header names `moov` and the payload has the
    /// header's data size.
    pub fn from_moov(file_len: u64, moov_header: AtomHeader, payload: Vec<u8>, ftyp: Option<Atom>) -> (r: Result<Mp4, Mp4Error>)
        requires
            moov_header.wf(),
        ensures
            r is Ok <==> (moov_header.name.code() == FourCC::Moov.code() && payload@.len() == moov_header.atom_size - moov_header.hs()),
            r is Ok ==> r->Ok_0.wf() && r->Ok_0.moov_stream().data() == payload@ && r->Ok_0.spec_moov_header() == moov_header
                && r->Ok_0.spec_ftyp() == ftyp && r->Ok_0.spec_len() == file_len
                && r->Ok_0.moov_stream().position() == moov_header.spec_data_offset(),
            r is Err ==> r == Err::<Mp4, Mp4Error>(Mp4Error::MoovReadError),
    {
        if moov_header.name != FourCC::Moov {
            return Err(Mp4Error::MoovReadError);
        }
        if payload.len() as u64 != moov_header.data_size() {
            return Err(Mp4Error::MoovReadError);
        }
        let moov = ByteStream::new(payload, moov_header.data_offset());
        Ok(Mp4 { file_len, moov_header, moov, ftyp })
    }

    /// Opens a file held in memory: locates `moov` among the atoms walked
    /// from the start and loads its payload; also keeps `ftyp` when found.
    /// Fails with `MoovReadError` when the walk ends without `moov`.
    pub fn from_bytes(data: Vec<u8>) -> (r: Result<Mp4, Mp4Error>)
        ensures
            ({
                let f = find_from(data@, 0, 0, FourCC::Moov, None);
                &&& f == Some(None::<AtomHeader>) ==> r == Err::<Mp4, Mp4Error>(Mp4Error::MoovReadError)
                &&& f is None ==> r is Err
                &&& (f is Some && f.unwrap() is Some && crate::atom::payload_in(data@, 0, f.unwrap().unwrap())) ==> r is Ok
                &&& r is Ok ==> r->Ok_0.spec_len() == data@.len()
                    && r->Ok_0.moov_stream().position() == r->Ok_0.spec_moov_header().spec_data_offset()
                &&& r is Ok ==> f is Some && f.unwrap() is Some && r->Ok_0.wf()
                    && r->Ok_0.spec_moov_header() == f.unwrap().unwrap()
                    && r->Ok_0.moov_stream().data() == payload_of(data@, 0, f.unwrap().unwrap())
            }),
    {
        let file_len = data.len() as u64;
        let mut s = ByteStream::new(data, 0);
        let ftyp = match s.find_header(FourCC::Ftyp, true) {
            Ok(Some(h)) => match Atom::read(&mut s, h) {
                Ok(a) => Some(a),
                Err(_) => None,
            },
            _ => None,
        };
        let h = match s.find_header(FourCC::Moov, true)? {
            Some(h) => h,
            None => {
                return Err(Mp4Error::MoovReadError);
            },
        };
        let atom = Atom::read(&mut s, h)?;
        Mp4::from_moov(file_len, h, atom.data, ftyp)
    }

    /// File size in bytes.
    pub fn len(&self) -> (r: u64)
        ensures
            r == self.spec_len(),
    {
        self.file_len
    }

    /// The `moov` atom's header.
    pub fn moov_header(&self) -> (r: AtomHeader)
        ensures
            r == self.spec_moov_header(),
    {
        self.moov_header
    }

    /// The stream over the `moov` payload.
    pub fn moov_reader(&self) -> (r: &ByteStream)
        ensures
            *r == self.moov_stream(),
    {
        &self.moov
    }

    /// Moves the `moov` stream to its start.
    pub fn reset(&mut self)
        requires
            old(self).wf(),
        ensures
            final(self).wf(),
            final(self).moov_stream().same_buffer(&old(self).moov_stream()),
            final(self).moov_stream().position() == old(self).moov_stream().base(),
    {
        self.moov.reset();
    }

    /// First header named `fourcc` in `moov`, from the position or the start
    /// with `reset`; the stream is left at its payload.
    pub fn find_header(&mut self, fourcc: FourCC, reset: bool) -> (r: Result<Option<AtomHeader>, Mp4Error>)
        requires
            old(self).wf(),
        ensures
            final(self).wf(),
            final(self).moov_stream().same_buffer(&old(self).moov_stream()),
            ({
                let m = old(self).moov_stream();
                let start = if reset {
                    m.base()
                } else {
                    m.position()
                };
                let f = find_from(m.data(), m.base(), start, fourcc, None);
                &&& r is Ok <==> f is Some
                &&& r is Ok ==> r->Ok_0 == f.unwrap()
                &&& (r is Ok && r->Ok_0 is Some) ==> final(self).moov_stream().position() == r->Ok_0.unwrap().spec_data_offset()
            }),
    {
        self.moov.find_header(fourcc, reset)
    }

    /// First atom named `fourcc` in `moov`, from the position or the start
    /// with `reset`, with its payload. Fails with `NoSuchAtom` when the walk
    /// ends first.
    pub fn find_atom(&mut self, fourcc: FourCC, reset: bool) -> (r: Result<Atom, Mp4Error>)
        requires
            old(self).wf(),
        ensures
            final(self).wf(),
            final(self).moov_stream().same_buffer(&old(self).moov_stream()),
            ({
                let m = old(self).moov_stream();
                let start = if reset {
                    m.base()
                } else {
                    m.position()
                };
                let f = find_from(m.data(), m.base(), start, fourcc, None);
                &&& f == Some(None::<AtomHeader>) ==> r == Err::<Atom, Mp4Error>(Mp4Error::NoSuchAtom(fourcc))
                &&& r is Ok ==> f is Some && f.unwrap() is Some && r->Ok_0.header == f.unwrap().unwrap()
                    && r->Ok_0.data@ == payload_of(m.data(), m.base(), f.unwrap().unwrap())
                &&& r is Ok ==> final(self).moov_stream().position() > start && start < m.end()
                &&& r is Ok ==> atom_in(m.data(), m.base(), r->Ok_0.header, fourcc)
                &&& (f is Some && f.unwrap() is Some && crate::atom::payload_in(m.data(), m.base(), f.unwrap().unwrap())) ==> r is Ok
            }),
    {
        match self.moov.find_header(fourcc, reset)? {
            Some(h) => Atom::read(&mut self.moov, h),
            None => Err(Mp4Error::NoSuchAtom(fourcc)),
        }
    }

    /// Movie header (`moov.mvhd`).
    pub fn mvhd(&mut self, reset: bool) -> (r: Result<Mvhd, Mp4Error>)
        requires
            old(self).wf(),
        ensures
            final(self).wf(),
            final(self).moov_stream().same_buffer(&old(self).moov_stream()),
            ({
                let m = old(self).moov_stream();
                let f = find_from(m.data(), m.base(), start_of(m, reset), FourCC::Mvhd, None);
                let found = crate::track::found_atom(m.data(), m.base(), start_of(m, reset), FourCC::Mvhd);
                &&& (found is Some && {
                    let p = payload_of(m.data(), m.base(), found.unwrap());
                    p.len() >= 100
                }) ==> r is Ok
                &&& r is Ok ==> atom_in(m.data(), m.base(), f.unwrap().unwrap(), FourCC::Mvhd)
                &&& f == Some(None::<AtomHeader>) ==> r == Err::<Mvhd, Mp4Error>(Mp4Error::NoSuchAtom(FourCC::Mvhd))
                &&& r is Ok ==> f is Some && f.unwrap() is Some && r->Ok_0.parsed_from(
                    payload_of(m.data(), m.base(), f.unwrap().unwrap()),
                )
            }),
    {
        self.find_atom(FourCC::Mvhd, reset)?.mvhd()
    }

    /// Next track header (`moov.trak.tkhd`).
    pub fn tkhd(&mut self, reset: bool) -> (r: Result<Tkhd, Mp4Error>)
        requires
            old(self).wf(),
        ensures
            final(self).wf(),
            ({
                let m = old(self).moov_stream();
                let f = find_from(m.data(), m.base(), start_of(m, reset), FourCC::Tkhd, None);
                let found = crate::track::found_atom(m.data(), m.base(), start_of(m, reset), FourCC::Tkhd);
                &&& (found is Some && {
                    let p = payload_of(m.data(), m.base(), found.unwrap());
                    p.len() >= 84
                }) ==> r is Ok
                &&& r is Ok ==> atom_in(m.data(), m.base(), f.unwrap().unwrap(), FourCC::Tkhd)
                &&& f == Some(None::<AtomHeader>) ==> r == Err::<Tkhd, Mp4Error>(Mp4Error::NoSuchAtom(FourCC::Tkhd))
                &&& r is Ok ==> f is Some && f.unwrap() is Some && r->Ok_0.parsed_from(
                    payload_of(m.data(), m.base(), f.unwrap().unwrap()),
                )
            }),
    {
        self.find_atom(FourCC::Tkhd, reset)?.tkhd()
    }

    /// Next media header (`moov.trak.mdia.mdhd`).
    pub fn mdhd(&mut self, reset: bool) -> (r: Result<Mdhd, Mp4Error>)
        requires
            old(self).wf(),
        ensures
            final(self).wf(),
            ({
                let m = old(self).moov_stream();
                let f = find_from(m.data(), m.base(), start_of(m, reset), FourCC::Mdhd, None);
                let found = crate::track::found_atom(m.data(), m.base(), start_of(m, reset), FourCC::Mdhd);
                &&& (found is Some && {
                    let p = payload_of(m.data(), m.base(), found.unwrap());
                    p.len() >= 24
                }) ==> r is Ok
                &&& r is Ok ==> atom_in(m.data(), m.base(), f.unwrap().unwrap(), FourCC::Mdhd)
                &&& f == Some(None::<AtomHeader>) ==> r == Err::<Mdhd, Mp4Error>(Mp4Error::NoSuchAtom(FourCC::Mdhd))
                &&& r is Ok ==> f is Some && f.unwrap() is Some && r->Ok_0.parsed_from(
                    payload_of(m.data(), m.base(), f.unwrap().unwrap()),
                )
            }),
    {
        self.find_atom(FourCC::Mdhd, reset)?.mdhd()
    }

    /// Next handler reference (`moov.trak.mdia.hdlr`).
    pub fn hdlr(&mut self, reset: bool) -> (r: Result<Hdlr, Mp4Error>)
        requires
            old(self).wf(),
        ensures
            final(self).wf(),
            ({
                let m = old(self).moov_stream();
                let f = find_from(m.data(), m.base(), start_of(m, reset), FourCC::Hdlr, None);
                let found = crate::track::found_atom(m.data(), m.base(), start_of(m, reset), FourCC::Hdlr);
                &&& (found is Some && {
                    let p = payload_of(m.data(), m.base(), found.unwrap());
                    p.len() >= 25
                }) ==> r is Ok
                &&& r is Ok ==> atom_in(m.data(), m.base(), f.unwrap().unwrap(), FourCC::Hdlr)
                &&& f == Some(None::<AtomHeader>) ==> r == Err::<Hdlr, Mp4Error>(Mp4Error::NoSuchAtom(FourCC::Hdlr))
                &&& r is Ok ==> f is Some && f.unwrap() is Some && r->Ok_0.parsed_from(
                    payload_of(m.data(), m.base(), f.unwrap().unwrap()),
                )
            }),
    {
        self.find_atom(FourCC::Hdlr, reset)?.hdlr()
    }

    /// Next time-to-sample table.
    pub fn stts(&mut self, reset: bool) -> (r: Result<Stts, Mp4Error>)
        requires
            old(self).wf(),
        ensures
            final(self).wf(),
            final(self).moov_stream().same_buffer(&old(self).moov_stream()),
            ({
                let m = old(self).moov_stream();
                let f = find_from(m.data(), m.base(), start_of(m, reset), FourCC::Stts, None);
                let found = crate::track::found_atom(m.data(), m.base(), start_of(m, reset), FourCC::Stts);
                &&& (found is Some && {
                    let p = payload_of(m.data(), m.base(), found.unwrap());
                    decodes(FourCC::Stts, p)
                }) ==> r is Ok
                &&& r is Ok ==> atom_in(m.data(), m.base(), f.unwrap().unwrap(), FourCC::Stts)
                &&& f == Some(None::<AtomHeader>) ==> r == Err::<Stts, Mp4Error>(Mp4Error::NoSuchAtom(FourCC::Stts))
                &&& r is Ok ==> f is Some && f.unwrap() is Some && r->Ok_0.parsed_from(
                    payload_of(m.data(), m.base(), f.unwrap().unwrap()),
                )
            }),
    {
        self.find_atom(FourCC::Stts, reset)?.stts()
    }

    /// Next sample size table.
    pub fn stsz(&mut self, reset: bool) -> (r: Result<Stsz, Mp4Error>)
        requires
            old(self).wf(),
        ensures
            final(self).wf(),
            ({
                let m = old(self).moov_stream();
                let f = find_from(m.data(), m.base(), start_of(m, reset), FourCC::Stsz, None);
                let found = crate::track::found_atom(m.data(), m.base(), start_of(m, reset), FourCC::Stsz);
                &&& (found is Some && {
                    let p = payload_of(m.data(), m.base(), found.unwrap());
                    decodes(FourCC::Stsz, p)
                }) ==> r is Ok
                &&& r is Ok ==> atom_in(m.data(), m.base(), f.unwrap().unwrap(), FourCC::Stsz)
                &&& f == Some(None::<AtomHeader>) ==> r == Err::<Stsz, Mp4Error>(Mp4Error::NoSuchAtom(FourCC::Stsz))
                &&& r is Ok ==> f is Some && f.unwrap() is Some && r->Ok_0.parsed_from(
                    payload_of(m.data(), m.base(), f.unwrap().unwrap()),
                )
            }),
    {
        self.find_atom(FourCC::Stsz, reset)?.stsz()
    }

    /// Next 32-bit chunk offset table.
    pub fn stco(&mut self, reset: bool) -> (r: Result<Stco, Mp4Error>)
        requires
            old(self).wf(),
        ensures
            final(self).wf(),
            ({
                let m = old(self).moov_stream();
                let f = find_from(m.data(), m.base(), start_of(m, reset), FourCC::Stco, None);
                let found = crate::track::found_atom(m.data(), m.base(), start_of(m, reset), FourCC::Stco);
                &&& (found is Some && {
                    let p = payload_of(m.data(), m.base(), found.unwrap());
                    decodes(FourCC::Stco, p)
                }) ==> r is Ok
                &&& r is Ok ==> atom_in(m.data(), m.base(), f.unwrap().unwrap(), FourCC::Stco)
                &&& f == Some(None::<AtomHeader>) ==> r == Err::<Stco, Mp4Error>(Mp4Error::NoSuchAtom(FourCC::Stco))
                &&& r is Ok ==> f is Some && f.unwrap() is Some && r->Ok_0.parsed_from(
                    payload_of(m.data(), m.base(), f.unwrap().unwrap()),
                )
            }),
    {
        self.find_atom(FourCC::Stco, reset)?.stco()
    }

    /// Next sample-to-chunk table.
    pub fn stsc(&mut self, reset: bool) -> (r: Result<Stsc, Mp4Error>)
        requires
            old(self).wf(),
        ensures
            final(self).wf(),
            ({
                let m = old(self).moov_stream();
                let f = find_from(m.data(), m.base(), start_of(m, reset), FourCC::Stsc, None);
                let found = crate::track::found_atom(m.data(), m.base(), start_of(m, reset), FourCC::Stsc);
                &&& (found is Some && {
                    let p = payload_of(m.data(), m.base(), found.unwrap());
                    decodes(FourCC::Stsc, p)
                }) ==> r is Ok
                &&& r is Ok ==> atom_in(m.data(), m.base(), f.unwrap().unwrap(), FourCC::Stsc)
                &&& f == Some(None::<AtomHeader>) ==> r == Err::<Stsc, Mp4Error>(Mp4Error::NoSuchAtom(FourCC::Stsc))
                &&& r is Ok ==> f is Some && f.unwrap() is Some && r->Ok_0.parsed_from(
                    payload_of(m.data(), m.base(), f.unwrap().unwrap()),
                )
            }),
    {
        self.find_atom(FourCC::Stsc, reset)?.stsc()
    }

    /// Next 64-bit chunk offset table.
    pub fn co64(&mut self, reset: bool) -> (r: Result<Co64, Mp4Error>)
        requires
            old(self).wf(),
        ensures
            final(self).wf(),
            ({
                let m = old(self).moov_stream();
                let f = find_from(m.data(), m.base(), start_of(m, reset), FourCC::Co64, None);
                let found = crate::track::found_atom(m.data(), m.base(), start_of(m, reset), FourCC::Co64);
                &&& (found is Some && {
                    let p = payload_of(m.data(), m.base(), found.unwrap());
                    decodes(FourCC::Co64, p)
                }) ==> r is Ok
                &&& r is Ok ==> atom_in(m.data(), m.base(), f.unwrap().unwrap(), FourCC::Co64)
                &&& f == Some(None::<AtomHeader>) ==> r == Err::<Co64, Mp4Error>(Mp4Error::NoSuchAtom(FourCC::Co64))
                &&& r is Ok ==> f is Some && f.unwrap() is Some && r->Ok_0.parsed_from(
                    payload_of(m.data(), m.base(), f.unwrap().unwrap()),
                )
            }),
    {
        self.find_atom(FourCC::Co64, reset)?.co64()
    }

    /// Next sample description atom.
    pub fn stsd(&mut self, reset: bool) -> (r: Result<Stsd, Mp4Error>)
        requires
            old(self).wf(),
        ensures
            final(self).wf(),
            ({
                let m = old(self).moov_stream();
                let f = find_from(m.data(), m.base(), start_of(m, reset), FourCC::Stsd, None);
                let found = crate::track::found_atom(m.data(), m.base(), start_of(m, reset), FourCC::Stsd);
                &&& (found is Some && {
                    let p = payload_of(m.data(), m.base(), found.unwrap());
                    decodes(FourCC::Stsd, p)
                }) ==> r is Ok
                &&& r is Ok ==> atom_in(m.data(), m.base(), f.unwrap().unwrap(), FourCC::Stsd)
                &&& f == Some(None::<AtomHeader>) ==> r == Err::<Stsd, Mp4Error>(Mp4Error::NoSuchAtom(FourCC::Stsd))
            }),
    {
        self.find_atom(FourCC::Stsd, reset)?.stsd()
    }

    /// Next video media header.
    pub fn vmhd(&mut self, reset: bool) -> (r: Result<Vmhd, Mp4Error>)
        requires
            old(self).wf(),
        ensures
            final(self).wf(),
            ({
                let m = old(self).moov_stream();
                let f = find_from(m.data(), m.base(), start_of(m, reset), FourCC::Vmhd, None);
                let found = crate::track::found_atom(m.data(), m.base(), start_of(m, reset), FourCC::Vmhd);
                &&& (found is Some && {
                    let p = payload_of(m.data(), m.base(), found.unwrap());
                    p.len() >= 12
                }) ==> r is Ok
                &&& r is Ok ==> atom_in(m.data(), m.base(), f.unwrap().unwrap(), FourCC::Vmhd)
                &&& f == Some(None::<AtomHeader>) ==> r == Err::<Vmhd, Mp4Error>(Mp4Error::NoSuchAtom(FourCC::Vmhd))
            }),
    {
        self.find_atom(FourCC::Vmhd, reset)?.vmhd()
    }

    /// Next sound media header.
    pub fn smhd(&mut self, reset: bool) -> (r: Result<Smhd, Mp4Error>)
        requires
            old(self).wf(),
        ensures
            final(self).wf(),
            ({
                let m = old(self).moov_stream();
                let f = find_from(m.data(), m.base(), start_of(m, reset), FourCC::Smhd, None);
                let found = crate::track::found_atom(m.data(), m.base(), start_of(m, reset), FourCC::Smhd);
                &&& (found is Some && {
                    let p = payload_of(m.data(), m.base(), found.unwrap());
                    p.len() >= 8
                }) ==> r is Ok
                &&& r is Ok ==> atom_in(m.data(), m.base(), f.unwrap().unwrap(), FourCC::Smhd)
                &&& f == Some(None::<AtomHeader>) ==> r == Err::<Smhd, Mp4Error>(Mp4Error::NoSuchAtom(FourCC::Smhd))
            }),
    {
        self.find_atom(FourCC::Smhd, reset)?.smhd()
    }

    /// The `ftyp` atom found when the file was opened.
    pub fn ftyp(&self) -> (r: Result<Ftyp, Mp4Error>)
        ensures
            (self.spec_ftyp() is Some && self.spec_ftyp().unwrap().header.name.code() == FourCC::Ftyp.code() && self.spec_ftyp().unwrap().data@.len() >= 8) ==> r is Ok,
            self.spec_ftyp() is None ==> r == Err::<Ftyp, Mp4Error>(Mp4Error::NoSuchAtom(FourCC::Ftyp)),
            r is Ok ==> self.spec_ftyp() is Some && r->Ok_0.parsed_from(self.spec_ftyp().unwrap().data@),
    {
        match &self.ftyp {
            Some(a) => a.ftyp(),
            None => Err(Mp4Error::NoSuchAtom(FourCC::Ftyp)),
        }
    }

    /// Major brand from `ftyp`.
    pub fn major_brand(&self) -> (r: Result<String, Mp4Error>)
        ensures
            (self.spec_ftyp() is Some && self.spec_ftyp().unwrap().header.name.code() == FourCC::Ftyp.code() && self.spec_ftyp().unwrap().data@.len() >= 8) ==> r is Ok,
            self.spec_ftyp() is None ==> r is Err,
            r is Ok ==> self.spec_ftyp() is Some && r->Ok_0@ == latin1(self.spec_ftyp().unwrap().data@.subrange(0, 4)),
    {
        Ok(self.ftyp()?.major_brand())
    }

    /// Compatible brands from `ftyp`.
    pub fn compatible_brands(&self) -> (r: Result<Vec<String>, Mp4Error>)
        ensures
            (self.spec_ftyp() is Some && self.spec_ftyp().unwrap().header.name.code() == FourCC::Ftyp.code() && self.spec_ftyp().unwrap().data@.len() >= 8) ==> r is Ok,
            self.spec_ftyp() is None ==> r is Err,
            r is Ok ==> self.spec_ftyp() is Some && ({
                let b = self.spec_ftyp().unwrap().data@;
                &&& r->Ok_0@.len() == (b.len() - 8) / 4
                &&& forall|i: int| 0 <= i < r->Ok_0@.len() ==> #[trigger] r->Ok_0@[i]@ == latin1(b.subrange(8 + 4 * i, 12 + 4 * i))
            }),
    {
        Ok(self.ftyp()?.compatible_brands())
    }

    /// Movie time scale (from `mvhd`).
    pub fn time_scale(&mut self) -> (r: Result<u32, Mp4Error>)
        requires
            old(self).wf(),
        ensures
            final(self).wf(),
            ({
                let m = old(self).moov_stream();
                let f = find_from(m.data(), m.base(), m.base(), FourCC::Mvhd, None);
                let found = crate::track::found_atom(m.data(), m.base(), m.base(), FourCC::Mvhd);
                &&& (found is Some && payload_of(m.data(), m.base(), found.unwrap()).len() >= 100) ==> r is Ok
                &&& r is Ok ==> f is Some && f.unwrap() is Some && r->Ok_0 == be_u32_at(
                    payload_of(m.data(), m.base(), f.unwrap().unwrap()),
                    12,
                )
            }),
    {
        Ok(self.mvhd(true)?.time_scale)
    }

    /// Movie duration (from `mvhd`), in the movie time scale.
    pub fn duration(&mut self, reset: bool) -> (r: Result<Duration, Mp4Error>)
        requires
            old(self).wf(),
        ensures
            final(self).wf(),
            ({
                let m = old(self).moov_stream();
                let f = find_from(m.data(), m.base(), start_of(m, reset), FourCC::Mvhd, None);
                let p = payload_of(m.data(), m.base(), f.unwrap().unwrap());
                let found = crate::track::found_atom(m.data(), m.base(), start_of(m, reset), FourCC::Mvhd);
                &&& (found is Some && payload_of(m.data(), m.base(), found.unwrap()).len() >= 100) ==> r is Ok
                &&& r is Ok ==> f is Some && f.unwrap() is Some && r->Ok_0.ticks == be_u32_at(p, 16)
                    && r->Ok_0.time_scale == effective_scale(be_u32_at(p, 12) as u32)
            }),
    {
        let m = self.mvhd(reset)?;
        Ok(Duration::from_ticks(m.duration as u128, m.time_scale))
    }

    /// Movie creation time, seconds since midnight 1904-01-01 (from `mvhd`).
    pub fn creation_time(&mut self, reset: bool) -> (r: Result<u32, Mp4Error>)
        requires
            old(self).wf(),
        ensures
            final(self).wf(),
            ({
                let m = old(self).moov_stream();
                let f = find_from(m.data(), m.base(), start_of(m, reset), FourCC::Mvhd, None);
                let found = crate::track::found_atom(m.data(), m.base(), start_of(m, reset), FourCC::Mvhd);
                &&& (found is Some && payload_of(m.data(), m.base(), found.unwrap()).len() >= 100) ==> r is Ok
                &&& r is Ok ==> f is Some && f.unwrap() is Some && r->Ok_0 == be_u32_at(
                    payload_of(m.data(), m.base(), f.unwrap().unwrap()),
                    4,
                )
            }),
    {
        Ok(self.mvhd(reset)?.creation_time)
    }

    /// Movie creation time and duration (from `mvhd`).
    pub fn time(&mut self, reset: bool) -> (r: Result<(u32, Duration), Mp4Error>)
        requires
            old(self).wf(),
        ensures
            final(self).wf(),
            ({
                let m = old(self).moov_stream();
                let f = find_from(m.data(), m.base(), start_of(m, reset), FourCC::Mvhd, None);
                let p = payload_of(m.data(), m.base(), f.unwrap().unwrap());
                let found = crate::track::found_atom(m.data(), m.base(), start_of(m, reset), FourCC::Mvhd);
                &&& (found is Some && payload_of(m.data(), m.base(), found.unwrap()).len() >= 100) ==> r is Ok
                &&& r is Ok ==> f is Some && f.unwrap() is Some && r->Ok_0.0 == be_u32_at(p, 4) && r->Ok_0.1.ticks
                    == be_u32_at(p, 16) && r->Ok_0.1.time_scale == effective_scale(be_u32_at(p, 12) as u32)
            }),
    {
        let m = self.mvhd(reset)?;
        Ok((m.creation_time, Duration::from_ticks(m.duration as u128, m.time_scale)))
    }

    /// The next track's `tkhd` and `hdlr`.
    fn next_tkhd_hdlr(&mut self) -> (r: Result<(Tkhd, Hdlr, AtomHeader, AtomHeader), Mp4Error>)
        requires
            old(self).wf(),
        ensures
            final(self).wf(),
            final(self).moov_stream().same_buffer(&old(self).moov_stream()),
            r is Ok ==> final(self).moov_stream().position() > old(self).moov_stream().position()
                && old(self).moov_stream().position() < old(self).moov_stream().end(),
            r is Ok ==> ({
                let d = old(self).moov_stream().data();
                let b = old(self).moov_stream().base();
                let (x, y, h, g) = r->Ok_0;
                &&& atom_in(d, b, h, FourCC::Tkhd) && x.parsed_from(payload_of(d, b, h))
                &&& atom_in(d, b, g, FourCC::Hdlr) && y.parsed_from(payload_of(d, b, g))
                &&& pair_at(d, b, old(self).moov_stream().position(), FourCC::Tkhd, 84) == Some((h, g))
                &&& final(self).moov_stream().position() == g.spec_end()
            }),
            r is Err ==> pair_at(
                old(self).moov_stream().data(),
                old(self).moov_stream().base(),
                old(self).moov_stream().position(),
                FourCC::Tkhd,
                84,
            ) is None,
    {
        let ta = TrackAttributes::next_atom(&mut self.moov, FourCC::Tkhd)?;
        let x = ta.tkhd()?;
        let ha = TrackAttributes::next_atom(&mut self.moov, FourCC::Hdlr)?;
        let hdlr = ha.hdlr()?;
        Ok((x, hdlr, ta.header, ha.header))
    }

    /// The next track's `mdhd` and `hdlr`.
    fn next_mdhd_hdlr(&mut self) -> (r: Result<(Mdhd, Hdlr, AtomHeader, AtomHeader), Mp4Error>)
        requires
            old(self).wf(),
        ensures
            final(self).wf(),
            final(self).moov_stream().same_buffer(&old(self).moov_stream()),
            r is Ok ==> final(self).moov_stream().position() > old(self).moov_stream().position()
                && old(self).moov_stream().position() < old(self).moov_stream().end(),
            r is Ok ==> ({
                let d = old(self).moov_stream().data();
                let b = old(self).moov_stream().base();
                let (x, y, h, g) = r->Ok_0;
                &&& atom_in(d, b, h, FourCC::Mdhd) && x.parsed_from(payload_of(d, b, h))
                &&& atom_in(d, b, g, FourCC::Hdlr) && y.parsed_from(payload_of(d, b, g))
                &&& pair_at(d, b, old(self).moov_stream().position(), FourCC::Mdhd, 24) == Some((h, g))
                &&& final(self).moov_stream().position() == g.spec_end()
            }),
            r is Err ==> pair_at(
                old(self).moov_stream().data(),
                old(self).moov_stream().base(),
                old(self).moov_stream().position(),
                FourCC::Mdhd,
                24,
            ) is None,
    {
        let ma = TrackAttributes::next_atom(&mut self.moov, FourCC::Mdhd)?;
        let x = ma.mdhd()?;
        let ha = TrackAttributes::next_atom(&mut self.moov, FourCC::Hdlr)?;
        let hdlr = ha.hdlr()?;
        Ok((x, hdlr, ma.header, ha.header))
    }

    /// Track header of the first track whose handler is named `handler_name`.
    pub fn tkhd_handler(&mut self, handler_name: &str, reset: bool) -> (r: Result<Tkhd, Mp4Error>)
        requires
            old(self).wf(),
        ensures
            final(self).wf(),
            ({
                let w = handler_search(
                    old(self).moov_stream().data(),
                    old(self).moov_stream().base(),
                    start_of(old(self).moov_stream(), reset),
                    FourCC::Tkhd,
                    84,
                    names(handler_name@),
                );
                &&& r is Ok <==> w is Some
                &&& r is Ok ==> r->Ok_0.parsed_from(payload_of(old(self).moov_stream().data(), old(self).moov_stream().base(), w.unwrap()))
            }),
    {
        let wanted = handler_name.to_owned();
        if reset {
            self.reset();
        }
        loop
            invariant
                self.wf(),
                self.moov_stream().same_buffer(&old(self).moov_stream()),
                wanted@ == handler_name@,
                handler_search(
                    old(self).moov_stream().data(),
                    old(self).moov_stream().base(),
                    start_of(old(self).moov_stream(), reset),
                    FourCC::Tkhd,
                    84,
                    names(handler_name@),
                ) == handler_search(
                    self.moov_stream().data(),
                    self.moov_stream().base(),
                    self.moov_stream().position(),
                    FourCC::Tkhd,
                    84,
                    names(handler_name@),
                ),
            decreases dist(self.moov_stream().data(), self.moov_stream().base(), self.moov_stream().position()),
        {
            let (tkhd, hdlr, h, g) = self.next_tkhd_hdlr()?;
            if hdlr.component_name == wanted {
                return Ok(tkhd);
            }
        }
    }

    /// Media header of the first track whose handler is named `track_name`.
    pub fn mdhd_track_name(&mut self, track_name: &str, reset: bool) -> (r: Result<Mdhd, Mp4Error>)
        requires
            old(self).wf(),
        ensures
            final(self).wf(),
            ({
                let w = handler_search(
                    old(self).moov_stream().data(),
                    old(self).moov_stream().base(),
                    start_of(old(self).moov_stream(), reset),
                    FourCC::Mdhd,
                    24,
                    names(track_name@),
                );
                &&& r is Ok <==> w is Some
                &&& r is Ok ==> r->Ok_0.parsed_from(payload_of(old(self).moov_stream().data(), old(self).moov_stream().base(), w.unwrap()))
            }),
    {
        let wanted = track_name.to_owned();
        if reset {
            self.reset();
        }
        loop
            invariant
                self.wf(),
                self.moov_stream().same_buffer(&old(self).moov_stream()),
                wanted@ == track_name@,
                handler_search(
                    old(self).moov_stream().data(),
                    old(self).moov_stream().base(),
                    start_of(old(self).moov_stream(), reset),
                    FourCC::Mdhd,
                    24,
                    names(track_name@),
                ) == handler_search(
                    self.moov_stream().data(),
                    self.moov_stream().base(),
                    self.moov_stream().position(),
                    FourCC::Mdhd,
                    24,
                    names(track_name@),
                ),
            decreases dist(self.moov_stream().data(), self.moov_stream().base(), self.moov_stream().position()),
        {
            let (mdhd, hdlr, h, g) = self.next_mdhd_hdlr()?;
            if hdlr.component_name == wanted {
                return Ok(mdhd);
            }
        }
    }

    /// Media header of the first track whose handler sub-type is `sub_type`.
    pub fn mdhd_track_subtype(&mut self, sub_type: &str, reset: bool) -> (r: Result<Mdhd, Mp4Error>)
        requires
            old(self).wf(),
        ensures
            final(self).wf(),
            ({
                let w = handler_search(
                    old(self).moov_stream().data(),
                    old(self).moov_stream().base(),
                    start_of(old(self).moov_stream(), reset),
                    FourCC::Mdhd,
                    24,
                    types(sub_type@),
                );
                &&& r is Ok <==> w is Some
                &&& r is Ok ==> r->Ok_0.parsed_from(payload_of(old(self).moov_stream().data(), old(self).moov_stream().base(), w.unwrap()))
            }),
    {
        let wanted = sub_type.to_owned();
        if reset {
            self.reset();
        }
        loop
            invariant
                self.wf(),
                self.moov_stream().same_buffer(&old(self).moov_stream()),
                wanted@ == sub_type@,
                handler_search(
                    old(self).moov_stream().data(),
                    old(self).moov_stream().base(),
                    start_of(old(self).moov_stream(), reset),
                    FourCC::Mdhd,
                    24,
                    types(sub_type@),
                ) == handler_search(
                    self.moov_stream().data(),
                    self.moov_stream().base(),
                    self.moov_stream().position(),
                    FourCC::Mdhd,
                    24,
                    types(sub_type@),
                ),
            decreases dist(self.moov_stream().data(), self.moov_stream().base(), self.moov_stream().position()),
        {
            let (mdhd, hdlr, h, g) = self.next_mdhd_hdlr()?;
            if hdlr.component_sub_type() == wanted {
                return Ok(mdhd);
            }
        }
    }

    /// Time scale of the first track whose handler is named `track_name`.
    pub fn time_scale_track(&mut self, track_name: &str, reset: bool) -> (r: Result<u32, Mp4Error>)
        requires
            old(self).wf(),
        ensures
            final(self).wf(),
            ({
                let w = handler_search(
                    old(self).moov_stream().data(),
                    old(self).moov_stream().base(),
                    start_of(old(self).moov_stream(), reset),
                    FourCC::Mdhd,
                    24,
                    names(track_name@),
                );
                &&& r is Ok <==> w is Some
                &&& r is Ok ==> r->Ok_0 == be_u32_at(payload_of(old(self).moov_stream().data(), old(self).moov_stream().base(), w.unwrap()), 12)
            }),
    {
        Ok(self.mdhd_track_name(track_name, reset)?.time_scale)
    }

    /// Duration of the first track whose handler is named `track_name`.
    pub fn duration_track(&mut self, track_name: &str, reset: bool) -> (r: Result<Duration, Mp4Error>)
        requires
            old(self).wf(),
        ensures
            final(self).wf(),
            ({
                let w = handler_search(
                    old(self).moov_stream().data(),
                    old(self).moov_stream().base(),
                    start_of(old(self).moov_stream(), reset),
                    FourCC::Mdhd,
                    24,
                    names(track_name@),
                );
                &&& r is Ok <==> w is Some
                &&& r is Ok ==> r->Ok_0.ticks == be_u32_at(payload_of(old(self).moov_stream().data(), old(self).moov_stream().base(), w.unwrap()), 16)
                    && r->Ok_0.time_scale == effective_scale(be_u32_at(payload_of(old(self).moov_stream().data(), old(self).moov_stream().base(), w.unwrap()), 12) as u32)
            }),
    {
        let m = self.mdhd_track_name(track_name, reset)?;
        Ok(Duration::from_ticks(m.duration as u128, m.time_scale))
    }

    /// The next `stsd` after the position.
    fn next_stsd(&mut self) -> (r: Result<Stsd, Mp4Error>)
        requires
            old(self).wf(),
        ensures
            final(self).wf(),
            final(self).moov_stream().same_buffer(&old(self).moov_stream()),
            r is Ok ==> final(self).moov_stream().position() > old(self).moov_stream().position()
                && old(self).moov_stream().position() < old(self).moov_stream().end(),
            ({
                let m = old(self).moov_stream();
                let h = found_atom(m.data(), m.base(), m.position(), FourCC::Stsd);
                &&& r is Ok <==> (h is Some && decodes(FourCC::Stsd, payload_of(m.data(), m.base(), h.unwrap())))
                &&& r is Ok ==> r->Ok_0.parsed_from(payload_of(m.data(), m.base(), h.unwrap()))
                    && final(self).moov_stream().position() == h.unwrap().spec_end()
            }),
    {
        TrackAttributes::next_atom(&mut self.moov, FourCC::Stsd)?.stsd()
    }

    /// The first `stsd` that describes video.
    pub fn stsd_video(&mut self, reset: bool) -> (r: Result<Stsd, Mp4Error>)
        requires
            old(self).wf(),
        ensures
            final(self).wf(),
            final(self).moov_stream().same_buffer(&old(self).moov_stream()),
            ({
                let m = old(self).moov_stream();
                let w = stsd_search(m.data(), m.base(), start_of(old(self).moov_stream(), reset), video_stsd());
                &&& r is Ok <==> w is Some
                &&& r is Ok ==> r->Ok_0.parsed_from(payload_of(m.data(), m.base(), w.unwrap()))
                    && has_video(payload_of(m.data(), m.base(), w.unwrap()))
                &&& r is Ok ==> final(self).moov_stream().position() == w.unwrap().spec_end()
                    && final(self).moov_stream().same_buffer(&m)
            }),
    {
        if reset {
            self.reset();
        }
        loop
            invariant
                self.wf(),
                self.moov_stream().same_buffer(&old(self).moov_stream()),
                stsd_search(
                    old(self).moov_stream().data(),
                    old(self).moov_stream().base(),
                    start_of(old(self).moov_stream(), reset),
                    video_stsd(),
                ) == stsd_search(self.moov_stream().data(), self.moov_stream().base(), self.moov_stream().position(), video_stsd()),
            decreases dist(self.moov_stream().data(), self.moov_stream().base(), self.moov_stream().position()),
        {
            let ghost q = self.moov_stream().position();
            let stsd = self.next_stsd()?;
            proof {
                let m = self.moov_stream();
                let h = found_atom(m.data(), m.base(), q, FourCC::Stsd).unwrap();
                stsd.lemma_kinds(payload_of(m.data(), m.base(), h));
            }
            if stsd.is_video() {
                return Ok(stsd);
            }
        }
    }

    /// The first `stsd` that describes audio.
    pub fn stsd_audio(&mut self, reset: bool) -> (r: Result<Stsd, Mp4Error>)
        requires
            old(self).wf(),
        ensures
            final(self).wf(),
            ({
                let m = old(self).moov_stream();
                let w = stsd_search(m.data(), m.base(), start_of(old(self).moov_stream(), reset), audio_stsd());
                &&& r is Ok <==> w is Some
                &&& r is Ok ==> r->Ok_0.parsed_from(payload_of(m.data(), m.base(), w.unwrap()))
                    && has_audio(payload_of(m.data(), m.base(), w.unwrap()))
            }),
    {
        if reset {
            self.reset();
        }
        loop
            invariant
                self.wf(),
                self.moov_stream().same_buffer(&old(self).moov_stream()),
                stsd_search(
                    old(self).moov_stream().data(),
                    old(self).moov_stream().base(),
                    start_of(old(self).moov_stream(), reset),
                    audio_stsd(),
                ) == stsd_search(self.moov_stream().data(), self.moov_stream().base(), self.moov_stream().position(), audio_stsd()),
            decreases dist(self.moov_stream().data(), self.moov_stream().base(), self.moov_stream().position()),
        {
            let ghost q = self.moov_stream().position();
            let stsd = self.next_stsd()?;
            proof {
                let m = self.moov_stream();
                let h = found_atom(m.data(), m.base(), q, FourCC::Stsd).unwrap();
                stsd.lemma_kinds(payload_of(m.data(), m.base(), h));
            }
            if stsd.is_audio() {
                return Ok(stsd);
            }
        }
    }

    /// The first `stsd` that describes neither video nor audio.
    pub fn stsd_binary(&mut self) -> (r: Result<Stsd, Mp4Error>)
        requires
            old(self).wf(),
        ensures
            final(self).wf(),
            ({
                let m = old(self).moov_stream();
                let w = stsd_search(m.data(), m.base(), old(self).moov_stream().base(), binary_stsd());
                &&& r is Ok <==> w is Some
                &&& r is Ok ==> r->Ok_0.parsed_from(payload_of(m.data(), m.base(), w.unwrap()))
                    && has_binary(payload_of(m.data(), m.base(), w.unwrap()))
            }),
    {
        self.reset();
        loop
            invariant
                self.wf(),
                self.moov_stream().same_buffer(&old(self).moov_stream()),
                stsd_search(
                    old(self).moov_stream().data(),
                    old(self).moov_stream().base(),
                    old(self).moov_stream().base(),
                    binary_stsd(),
                ) == stsd_search(self.moov_stream().data(), self.moov_stream().base(), self.moov_stream().position(), binary_stsd()),
            decreases dist(self.moov_stream().data(), self.moov_stream().base(), self.moov_stream().position()),
        {
            let ghost q = self.moov_stream().position();
            let stsd = self.next_stsd()?;
            proof {
                let m = self.moov_stream();
                let h = found_atom(m.data(), m.base(), q, FourCC::Stsd).unwrap();
                stsd.lemma_kinds(payload_of(m.data(), m.base(), h));
            }
            if stsd.is_binary() {
                return Ok(stsd);
            }
        }
    }

    /// The `stsd` of the first track after the position whose handler is
    /// named `track_name`.
    pub fn stsd_track(&mut self, track_name: &str) -> (r: Result<Stsd, Mp4Error>)
        requires
            old(self).wf(),
        ensures
            final(self).wf(),
            ({
                let m = old(self).moov_stream();
                let g = hdlr_from(m.data(), m.base(), m.position(), names(track_name@));
                let h = found_atom(m.data(), m.base(), g.unwrap().spec_end(), FourCC::Stsd);
                &&& g is None ==> r is Err
                &&& g is Some ==> (r is Ok <==> (h is Some && decodes(FourCC::Stsd, payload_of(m.data(), m.base(), h.unwrap()))))
                &&& r is Ok ==> g is Some && r->Ok_0.parsed_from(payload_of(m.data(), m.base(), h.unwrap()))
            }),
    {
        let wanted = track_name.to_owned();
        loop
            invariant
                self.wf(),
                self.moov_stream().same_buffer(&old(self).moov_stream()),
                wanted@ == track_name@,
                hdlr_from(
                    old(self).moov_stream().data(),
                    old(self).moov_stream().base(),
                    old(self).moov_stream().position(),
                    names(track_name@),
                ) == hdlr_from(
                    self.moov_stream().data(),
                    self.moov_stream().base(),
                    self.moov_stream().position(),
                    names(track_name@),
                ),
            decreases dist(self.moov_stream().data(), self.moov_stream().base(), self.moov_stream().position()),
        {
            let ghost q = self.moov_stream().position();
            let atom = TrackAttributes::next_atom(&mut self.moov, FourCC::Hdlr)?;
            let hdlr = atom.hdlr()?;
            if hdlr.component_name == wanted {
                return self.next_stsd();
            }
        }
    }

    /// The `stts` of the first track whose `stsd` describes video.
    /// The next `stts` after the position.
    fn next_stts(&mut self) -> (r: Result<Stts, Mp4Error>)
        requires
            old(self).wf(),
        ensures
            final(self).wf(),
            final(self).moov_stream().same_buffer(&old(self).moov_stream()),
            ({
                let m = old(self).moov_stream();
                let h = found_atom(m.data(), m.base(), m.position(), FourCC::Stts);
                &&& r is Ok <==> (h is Some && decodes(FourCC::Stts, payload_of(m.data(), m.base(), h.unwrap())))
                &&& r is Ok ==> r->Ok_0.parsed_from(payload_of(m.data(), m.base(), h.unwrap()))
            }),
    {
        TrackAttributes::next_atom(&mut self.moov, FourCC::Stts)?.stts()
    }

    /// The `stts` that follows the first `stsd` that describes video.
    pub fn stts_video(&mut self, reset: bool) -> (r: Result<Stts, Mp4Error>)
        requires
            old(self).wf(),
        ensures
            final(self).wf(),
            final(self).moov_stream().same_buffer(&old(self).moov_stream()),
            ({
                let m = old(self).moov_stream();
                let w = stsd_search(m.data(), m.base(), start_of(m, reset), video_stsd());
                let h = found_atom(m.data(), m.base(), w.unwrap().spec_end(), FourCC::Stts);
                &&& w is None ==> r is Err
                &&& w is Some ==> (r is Ok <==> (h is Some && decodes(FourCC::Stts, payload_of(m.data(), m.base(), h.unwrap()))))
                &&& r is Ok ==> w is Some && r->Ok_0.parsed_from(payload_of(m.data(), m.base(), h.unwrap()))
            }),
    {
        let _ = self.stsd_video(reset)?;
        self.next_stts()
    }

    /// `(width, height)` of the first video description. Fails with
    /// `ResolutionExtractionError` when a video `stsd` has no video fields.
    #[verifier::rlimit(80)]
    pub fn resolution(&mut self, reset: bool) -> (r: Result<(u16, u16), Mp4Error>)
        requires
            old(self).wf(),
        ensures
            final(self).wf(),
            ({
                let m = old(self).moov_stream();
                let w = stsd_search(m.data(), m.base(), start_of(m, reset), video_stsd());
                &&& r is Ok <==> w is Some
                &&& r is Ok ==> exists|x: Stsd|
                    #![trigger x.parsed_from(payload_of(m.data(), m.base(), w.unwrap()))]
                    x.parsed_from(payload_of(m.data(), m.base(), w.unwrap())) && exists|i: int|
                        0 <= i < x.descriptions@.len() && (#[trigger] x.descriptions@[i]).data is Video && r->Ok_0 == (x.descriptions@[i].data->Video_0.width, x.descriptions@[i].data->Video_0.height)
                            && forall|k: int| 0 <= k < i ==> !((#[trigger] x.descriptions@[k]).data is Video)
            }),
    {
        let stsd = self.stsd_video(reset)?;
        proof {
            let m = old(self).moov_stream();
            let w = stsd_search(m.data(), m.base(), start_of(m, reset), video_stsd());
            stsd.lemma_kinds(payload_of(m.data(), m.base(), w.unwrap()));
            assert(exists|i: int| 0 <= i < stsd.descriptions@.len() && #[trigger] stsd.descriptions@[i].data is Video);
        }
        match stsd.resolution() {
            Some(r) => Ok(r),
            None => Err(Mp4Error::ResolutionExtractionError),
        }
    }

    /// Format of the first video description.
    #[verifier::rlimit(80)]
    pub fn video_format(&mut self, reset: bool) -> (r: Result<VideoFormat, Mp4Error>)
        requires
            old(self).wf(),
        ensures
            final(self).wf(),
            ({
                let m = old(self).moov_stream();
                let w = stsd_search(m.data(), m.base(), start_of(m, reset), video_stsd());
                &&& r is Ok <==> w is Some
                &&& r is Ok ==> exists|x: Stsd|
                    #![trigger x.parsed_from(payload_of(m.data(), m.base(), w.unwrap()))]
                    x.parsed_from(payload_of(m.data(), m.base(), w.unwrap())) && exists|i: int|
                        0 <= i < x.descriptions@.len() && (#[trigger] x.descriptions@[i]).data_format is Video && x.descriptions@[i].data_format == DataFormat::Video(r->Ok_0)
                            && forall|k: int| 0 <= k < i ==> !((#[trigger] x.descriptions@[k]).data_format is Video)
            }),
    {
        let stsd = self.stsd_video(reset)?;
        proof {
            let m = old(self).moov_stream();
            let w = stsd_search(m.data(), m.base(), start_of(m, reset), video_stsd());
            stsd.lemma_kinds(payload_of(m.data(), m.base(), w.unwrap()));
            assert(exists|i: int| 0 <= i < stsd.descriptions@.len() && #[trigger] stsd.descriptions@[i].data is Video);
        }
        match stsd.video_format() {
            Some(f) => Ok(f),
            None => Err(Mp4Error::VideoFormatExtractionError),
        }
    }

    /// Format of the first audio description.
    #[verifier::rlimit(80)]
    pub fn audio_format(&mut self, reset: bool) -> (r: Result<AudioFormat, Mp4Error>)
        requires
            old(self).wf(),
        ensures
            final(self).wf(),
            ({
                let m = old(self).moov_stream();
                let w = stsd_search(m.data(), m.base(), start_of(m, reset), audio_stsd());
                &&& r is Ok <==> w is Some
                &&& r is Ok ==> exists|x: Stsd|
                    #![trigger x.parsed_from(payload_of(m.data(), m.base(), w.unwrap()))]
                    x.parsed_from(payload_of(m.data(), m.base(), w.unwrap())) && exists|i: int|
                        0 <= i < x.descriptions@.len() && (#[trigger] x.descriptions@[i]).data_format is Audio && x.descriptions@[i].data_format == DataFormat::Audio(r->Ok_0)
                            && forall|k: int| 0 <= k < i ==> !((#[trigger] x.descriptions@[k]).data_format is Audio)
            }),
    {
        let stsd = self.stsd_audio(reset)?;
        proof {
            let m = old(self).moov_stream();
            let w = stsd_search(m.data(), m.base(), start_of(m, reset), audio_stsd());
            stsd.lemma_kinds(payload_of(m.data(), m.base(), w.unwrap()));
            assert(exists|i: int| 0 <= i < stsd.descriptions@.len() && #[trigger] stsd.descriptions@[i].data is Audio);
        }
        match stsd.audio_format() {
            Some(f) => Ok(f),
            None => Err(Mp4Error::AudioFormatExtractionError),
        }
    }

    /// Sample rate in whole Hz of the first audio description.
    #[verifier::rlimit(80)]
    pub fn sample_rate(&mut self, reset: bool) -> (r: Result<u32, Mp4Error>)
        requires
            old(self).wf(),
        ensures
            final(self).wf(),
            ({
                let m = old(self).moov_stream();
                let w = stsd_search(m.data(), m.base(), start_of(m, reset), audio_stsd());
                &&& r is Ok <==> w is Some
                &&& r is Ok ==> exists|x: Stsd|
                    #![trigger x.parsed_from(payload_of(m.data(), m.base(), w.unwrap()))]
                    x.parsed_from(payload_of(m.data(), m.base(), w.unwrap())) && exists|i: int|
                        0 <= i < x.descriptions@.len() && (#[trigger] x.descriptions@[i]).data is Audio && r->Ok_0 == x.descriptions@[i].data->Audio_0.sample_rate / 0x10000
                            && forall|k: int| 0 <= k < i ==> !((#[trigger] x.descriptions@[k]).data is Audio)
            }),
    {
        let stsd = self.stsd_audio(reset)?;
        proof {
            let m = old(self).moov_stream();
            let w = stsd_search(m.data(), m.base(), start_of(m, reset), audio_stsd());
            stsd.lemma_kinds(payload_of(m.data(), m.base(), w.unwrap()));
            assert(exists|i: int| 0 <= i < stsd.descriptions@.len() && #[trigger] stsd.descriptions@[i].data is Audio);
        }
        match stsd.sample_rate() {
            Some(f) => Ok(f),
            None => Err(Mp4Error::SampleRateExtractionError),
        }
    }

    /// Video frame rate as the fraction `(video samples * movie time scale,
    /// movie duration)`, from `mvhd` and the first video track's `stts`.
    /// The first `mvhd` of `moov`.
    fn first_mvhd(&mut self) -> (r: Result<Mvhd, Mp4Error>)
        requires
            old(self).wf(),
        ensures
            final(self).wf(),
            final(self).moov_stream().same_buffer(&old(self).moov_stream()),
            ({
                let m = old(self).moov_stream();
                let h = found_atom(m.data(), m.base(), m.base(), FourCC::Mvhd);
                &&& r is Ok <==> (h is Some && payload_of(m.data(), m.base(), h.unwrap()).len() >= 100)
                &&& r is Ok ==> r->Ok_0.parsed_from(payload_of(m.data(), m.base(), h.unwrap()))
                    && final(self).moov_stream().position() == h.unwrap().spec_end()
            }),
    {
        self.reset();
        TrackAttributes::next_atom(&mut self.moov, FourCC::Mvhd)?.mvhd()
    }

    /// Video frame rate as the fraction `(video samples * movie time scale,
    /// movie duration)`, from the first `mvhd` and the `stts` of the first
    /// video track after it. Fails with `NumericOverflow` when the sample
    /// count exceeds `u64::MAX`.
    pub fn frame_rate(&mut self) -> (r: Result<(u128, u32), Mp4Error>)
        requires
            old(self).wf(),
        ensures
            final(self).wf(),
            ({
                let m = old(self).moov_stream();
                let h0 = found_atom(m.data(), m.base(), m.base(), FourCC::Mvhd);
                let p = payload_of(m.data(), m.base(), h0.unwrap());
                let w = stsd_search(m.data(), m.base(), h0.unwrap().spec_end(), video_stsd());
                let h = found_atom(m.data(), m.base(), w.unwrap().spec_end(), FourCC::Stts);
                let q = payload_of(m.data(), m.base(), h.unwrap());
                &&& r is Ok ==> h0 is Some && w is Some && h is Some && r->Ok_0.1 == be_u32_at(p, 16) && exists|x: Stts|
                    #![trigger x.parsed_from(q)]
                    x.parsed_from(q) && r->Ok_0.0 == sample_total(x.table@) * be_u32_at(p, 12)
                &&& (h0 is Some && p.len() >= 100 && w is Some && h is Some && decodes(FourCC::Stts, q) && forall|x: Stts|
                    #[trigger] x.parsed_from(q) ==> sample_total(x.table@) <= u64::MAX) ==> r is Ok
            }),
    {
        let mvhd = self.first_mvhd()?;
        let stts = self.stts_video(false)?;
        let n = stts.sample_sum();
        proof {
            assert(sample_total(stts.table@) == n);
        }
        if n > u64::MAX as u128 {
            return Err(Mp4Error::NumericOverflow);
        }
        proof {
            assert(n * (mvhd.time_scale as int) <= 0xFFFF_FFFF_FFFF_FFFF * 0xFFFF_FFFF) by (nonlinear_arith)
                requires n <= 0xFFFF_FFFF_FFFF_FFFF, mvhd.time_scale <= 0xFFFF_FFFF;
        }
        Ok((n * mvhd.time_scale as u128, mvhd.duration))
    }

    /// The track that `identifier` picks (see [`TrackAttributes::new`]).
    pub fn track(&mut self, identifier: &TrackIdentifier, reset: bool) -> (r: Result<Track, Mp4Error>)
        requires
            old(self).wf(),
        ensures
            final(self).wf(),
            r is Ok ==> r->Ok_0.wf() && identifies(
                *identifier,
                r->Ok_0.attributes.id,
                r->Ok_0.attributes.name@,
                r->Ok_0.attributes.sub_type@,
            ),
            track_search_result(
                old(self).moov_stream().data(),
                old(self).moov_stream().base(),
                start_of(old(self).moov_stream(), reset),
                *identifier,
                match r {
                    Ok(t) => Ok(t.attributes),
                    Err(e) => Err(e),
                },
            ),
    {
        let attributes = TrackAttributes::new(&mut self.moov, identifier, reset)?;
        Ok(Track::from_attributes(attributes))
    }

    /// Attributes of every track, in file order.
    pub fn track_list(&mut self, reset: bool) -> (r: Result<Vec<TrackAttributes>, Mp4Error>)
        requires
            old(self).wf(),
        ensures
            final(self).wf(),
            r is Ok ==> forall|i: int| 0 <= i < r->Ok_0@.len() ==> (#[trigger] r->Ok_0@[i]).consistent(),
            track_list_result(
                old(self).moov_stream().data(),
                old(self).moov_stream().base(),
                start_of(old(self).moov_stream(), reset),
                match r {
                    Ok(v) => Ok(v@),
                    Err(e) => Err(e),
                },
            ),
    {
        TrackAttributes::all(&mut self.moov, reset)
    }

    /// The user data atom (`moov.udta`) with its payload.
    pub fn udta(&mut self, reset: bool) -> (r: Result<Atom, Mp4Error>)
        requires
            old(self).wf(),
        ensures
            final(self).wf(),
            ({
                let m = old(self).moov_stream();
                let f = find_from(m.data(), m.base(), start_of(m, reset), FourCC::Udta, None);
                &&& f == Some(None::<AtomHeader>) ==> r == Err::<Atom, Mp4Error>(Mp4Error::NoSuchAtom(FourCC::Udta))
                &&& r is Ok ==> f is Some && f.unwrap() is Some && r->Ok_0.data@ == payload_of(m.data(), m.base(), f.unwrap().unwrap())
                &&& (f is Some && f.unwrap() is Some && crate::atom::payload_in(m.data(), m.base(), f.unwrap().unwrap())) ==> r is Ok
            }),
            r is Ok ==> r->Ok_0.header.name.code() == FourCC::Udta.code(),
    {
        let a = self.find_atom(FourCC::Udta, reset)?;
        if a.header.name != FourCC::Udta {
            return Err(Mp4Error::NoSuchAtom(FourCC::Udta));
        }
        Ok(a)
    }

    /// The atom named `fourcc` inside `udta`.
    pub fn find_user_data(&mut self, fourcc: FourCC) -> (r: Result<Atom, Mp4Error>)
        requires
            old(self).wf(),
        ensures
            final(self).wf(),
            ({
                let m = old(self).moov_stream();
                let u = find_from(m.data(), m.base(), m.base(), FourCC::Udta, None);
                let f = find_from(m.data(), m.base(), u.unwrap().unwrap().spec_data_offset(), fourcc, None);
                &&& u == Some(None::<AtomHeader>) ==> r == Err::<Atom, Mp4Error>(Mp4Error::NoSuchAtom(fourcc))
                &&& u is None ==> r is Err
                &&& (u is Some && u.unwrap() is Some) ==> {
                    &&& f == Some(None::<AtomHeader>) ==> r == Err::<Atom, Mp4Error>(Mp4Error::NoSuchAtom(fourcc))
                    &&& (f is Some && f.unwrap() is Some && crate::atom::payload_in(m.data(), m.base(), f.unwrap().unwrap())) ==> r is Ok
                    &&& r is Ok ==> f is Some && f.unwrap() is Some && r->Ok_0.header == f.unwrap().unwrap()
                        && r->Ok_0.data@ == payload_of(m.data(), m.base(), f.unwrap().unwrap())
                }
            }),
    {
        match self.find_header(FourCC::Udta, true)? {
            Some(_) => self.find_atom(fourcc, false),
            None => Err(Mp4Error::NoSuchAtom(fourcc)),
        }
    }
    /// Next sync sample table.
    pub fn stss(&mut self, reset: bool) -> (r: Result<Stss, Mp4Error>)
        requires
            old(self).wf(),
        ensures
            final(self).wf(),
            ({
                let m = old(self).moov_stream();
                let f = find_from(m.data(), m.base(), start_of(m, reset), FourCC::Stss, None);
                let found = crate::track::found_atom(m.data(), m.base(), start_of(m, reset), FourCC::Stss);
                &&& (found is Some && {
                    let p = payload_of(m.data(), m.base(), found.unwrap());
                    p.len() >= 8 && p.len() >= 8 + 4 * be_u32_at(p, 4)
                }) ==> r is Ok
                &&& r is Ok ==> atom_in(m.data(), m.base(), f.unwrap().unwrap(), FourCC::Stss)
                &&& f == Some(None::<AtomHeader>) ==> r == Err::<Stss, Mp4Error>(Mp4Error::NoSuchAtom(FourCC::Stss))
                &&& r is Ok ==> f is Some && f.unwrap() is Some && r->Ok_0.parsed_from(
                    payload_of(m.data(), m.base(), f.unwrap().unwrap()),
                )
            }),
    {
        self.find_atom(FourCC::Stss, reset)?.stss()
    }

    /// Next sample dependency flags table.
    pub fn sdtp(&mut self, reset: bool) -> (r: Result<Sdtp, Mp4Error>)
        requires
            old(self).wf(),
        ensures
            final(self).wf(),
            ({
                let m = old(self).moov_stream();
                let f = find_from(m.data(), m.base(), start_of(m, reset), FourCC::Sdtp, None);
                let found = crate::track::found_atom(m.data(), m.base(), start_of(m, reset), FourCC::Sdtp);
                &&& (found is Some && {
                    let p = payload_of(m.data(), m.base(), found.unwrap());
                    p.len() >= 4
                }) ==> r is Ok
                &&& r is Ok ==> atom_in(m.data(), m.base(), f.unwrap().unwrap(), FourCC::Sdtp)
                &&& f == Some(None::<AtomHeader>) ==> r == Err::<Sdtp, Mp4Error>(Mp4Error::NoSuchAtom(FourCC::Sdtp))
            }),
    {
        self.find_atom(FourCC::Sdtp, reset)?.sdtp()
    }

    /// Next data reference atom.
    pub fn dref(&mut self, reset: bool) -> (r: Result<Dref, Mp4Error>)
        requires
            old(self).wf(),
        ensures
            final(self).wf(),
            ({
                let m = old(self).moov_stream();
                let f = find_from(m.data(), m.base(), start_of(m, reset), FourCC::Dref, None);
                let found = crate::track::found_atom(m.data(), m.base(), start_of(m, reset), FourCC::Dref);
                &&& (found is Some && {
                    let p = payload_of(m.data(), m.base(), found.unwrap());
                    p.len() >= 8 && crate::lists::refs_fit(p, 8, be_u32_at(p, 4))
                }) ==> r is Ok
                &&& r is Ok ==> atom_in(m.data(), m.base(), f.unwrap().unwrap(), FourCC::Dref)
                &&& f == Some(None::<AtomHeader>) ==> r == Err::<Dref, Mp4Error>(Mp4Error::NoSuchAtom(FourCC::Dref))
            }),
    {
        self.find_atom(FourCC::Dref, reset)?.dref()
    }

    /// The fields of the user data atom.
    pub fn user_data(&mut self) -> (r: Result<Udta, Mp4Error>)
        requires
            old(self).wf(),
        ensures
            final(self).wf(),
            ({
                let m = old(self).moov_stream();
                let f = find_from(m.data(), m.base(), m.base(), FourCC::Udta, None);
                let p = payload_of(m.data(), m.base(), f.unwrap().unwrap());
                &&& (f is Some && f.unwrap() is Some && crate::atom::payload_in(m.data(), m.base(), f.unwrap().unwrap())) ==> r is Ok
                &&& f == Some(None::<AtomHeader>) ==> r is Err
                &&& r is Ok ==> f is Some && f.unwrap() is Some && r->Ok_0.fields@.len() == fields_at(p, 0).len()
                    && forall|i: int|
                    0 <= i < r->Ok_0.fields@.len() ==> {
                        let x = fields_at(p, 0)[i];
                        &&& (#[trigger] r->Ok_0.fields@[i]).name.code() == x.0
                        &&& r->Ok_0.fields@[i].size == x.1
                        &&& r->Ok_0.fields@[i].data@ == x.2
                    }
            }),
    {
        let a = self.udta(true)?;
        Ok(Udta::parse(a.data.as_slice()))
    }

    /// The time code entry of the first time code track.
    pub fn tmcd(&mut self, reset: bool) -> (r: Result<Tmcd, Mp4Error>)
        requires
            old(self).wf(),
        ensures
            final(self).wf(),
            r is Ok ==> exists|n: String, t: TrackAttributes|
                #![trigger track_search_result(
                    old(self).moov_stream().data(),
                    old(self).moov_stream().base(),
                    start_of(old(self).moov_stream(), reset),
                    TrackIdentifier::SubType(n),
                    Ok::<TrackAttributes, Mp4Error>(t),
                )]
                n@ == "tmcd"@ && track_search_result(
                    old(self).moov_stream().data(),
                    old(self).moov_stream().base(),
                    start_of(old(self).moov_stream(), reset),
                    TrackIdentifier::SubType(n),
                    Ok::<TrackAttributes, Mp4Error>(t),
                ) && exists|i: int|
                    0 <= i < t.tables.stsd.1.descriptions@.len() && is_time_code(
                        #[trigger] t.tables.stsd.1.descriptions@[i],
                    ) && tmcd_from(r->Ok_0, t.tables.stsd.1.descriptions@[i].data->Binary_0@),
    {
        let ident = TrackIdentifier::SubType(String::from_str("tmcd"));
        let tr = self.track(&ident, reset);
        let track = match tr {
            Ok(t) => t,
            Err(e) => {
                return Err(e);
            },
        };
        let r = track.tmcd();
        proof {
            let n = ident->SubType_0;
            assert(n@ == "tmcd"@);
        }
        r
    }
    /// The stream to read file offset `file_pos` from: the in-memory `moov`
    /// stream for offsets inside the `moov` atom, the file otherwise.
    pub fn select_reader(&self, file_pos: u64) -> (r: TargetReader)
        requires
            self.wf(),
        ensures
            r == if self.spec_moov_header().spec_contains(file_pos as int) {
                TargetReader::Moov
            } else {
                TargetReader::File
            },
    {
        if self.moov_header.contains(file_pos) {
            TargetReader::Moov
        } else {
            TargetReader::File
        }
    }

    /// Moves the `moov` stream to file offset `file_pos`, so that it stands
    /// where a file stream at that offset stands. Fails with
    /// `BoundsError(file_pos, start, end)` unless the offset lies in the
    /// `moov` payload `[start, end]`.
    pub fn sync_pos(&mut self, file_pos: u64) -> (r: Result<u64, Mp4Error>)
        requires
            old(self).wf(),
        ensures
            final(self).wf(),
            final(self).moov_stream().same_buffer(&old(self).moov_stream()),
            ({
                let m = old(self).moov_stream();
                &&& r is Ok <==> m.base() <= file_pos <= m.end()
                &&& r is Ok ==> r->Ok_0 == file_pos && final(self).moov_stream().position() == file_pos
                &&& r is Err ==> r == Err::<u64, Mp4Error>(Mp4Error::BoundsError(file_pos, m.base() as u64, m.end() as u64))
                    && final(self).moov_stream() == m
            }),
    {
        let start = self.moov.start();
        let end = self.moov.upper();
        if file_pos < start || file_pos > end {
            return Err(Mp4Error::BoundsError(file_pos, start, end));
        }
        self.moov.seek(SeekFrom::Start(file_pos))
    }
    /// Headers of the atoms inside `udta`, in order, up to zero-byte padding.
    pub fn user_data_headers(&mut self) -> (r: Result<Vec<AtomHeader>, Mp4Error>)
        requires
            old(self).wf(),
        ensures
            final(self).wf(),
            ({
                let m = old(self).moov_stream();
                let f = find_from(m.data(), m.base(), m.base(), FourCC::Udta, None);
                &&& f == Some(None::<AtomHeader>) ==> r is Ok && r->Ok_0@.len() == 0
                &&& (f is Some && f.unwrap() is Some) ==> {
                    let h = f.unwrap().unwrap();
                    let c = children_from(m.data(), m.base(), h.spec_data_offset(), h.spec_end());
                    &&& r is Ok <==> c is Some
                    &&& r is Ok ==> r->Ok_0@ == c.unwrap()
                }
                &&& f is None ==> r is Err
            }),
    {
        let mut out: Vec<AtomHeader> = Vec::new();
        let h = match self.moov.find_header(FourCC::Udta, true)? {
            Some(h) => h,
            None => {
                return Ok(out);
            },
        };
        let end = h.end();
        let ghost d = self.moov_stream().data();
        let ghost b = self.moov_stream().base();
        let ghost first = self.moov_stream().position();
        while self.moov.pos() < end
            invariant
                self.wf(),
                d == self.moov_stream().data(),
                b == self.moov_stream().base(),
                end == h.spec_end(),
                d == old(self).moov_stream().data(),
                b == old(self).moov_stream().base(),
                first == h.spec_data_offset(),
                find_from(d, b, b, FourCC::Udta, None) == Some(Some(h)),
                children_from(d, b, first, end as int) == match children_from(d, b, self.moov_stream().position(), end as int) {
                    None => None,
                    Some(rest) => Some(out@ + rest),
                },
            decreases dist(self.moov_stream().data(), self.moov_stream().base(), self.moov_stream().position()),
        {
            let upper = self.moov.upper();
            let pos = self.moov.pos();
            if pos >= upper {
                proof {
                    assert(out@ + Seq::<AtomHeader>::empty() =~= out@);
                }
                return Ok(out);
            }
            if upper - pos >= 8 {
                let i = (pos - self.moov.start()) as usize;
                let code = crate::bytes::u32_at(self.moov.bytes().as_slice(), i + 4);
                if code == 0 {
                    proof {
                        assert(out@ + Seq::<AtomHeader>::empty() =~= out@);
                    }
                    return Ok(out);
                }
            }
            let ghost p = self.moov_stream().position();
            let next = self.moov.next_header(true)?;
            proof {
                crate::header::lemma_header_at_wf(d, b, p);
                let rest = children_from(d, b, next.spec_next_pos(), end as int);
                if rest is Some {
                    assert(out@.push(next) + rest.unwrap() =~= out@ + (seq![next] + rest.unwrap()));
                }
            }
            out.push(next);
        }
        proof {
            assert(out@ + Seq::<AtomHeader>::empty() =~= out@);
        }
        Ok(out)
    }

    /// First atom named `fourcc` in `moov` before the next atom named
    /// `sentinel`, from the position or the start with `reset`.
    pub fn find_atom_until(&mut self, fourcc: FourCC, sentinel: FourCC, reset: bool) -> (r: Result<Atom, Mp4Error>)
        requires
            old(self).wf(),
        ensures
            final(self).wf(),
            r is Ok ==> r->Ok_0.header.name.code() == fourcc.code(),
            ({
                let m = old(self).moov_stream();
                let f = find_from(m.data(), m.base(), start_of(m, reset), fourcc, Some(sentinel));
                &&& f == Some(None::<AtomHeader>) ==> r == Err::<Atom, Mp4Error>(Mp4Error::NoSuchAtom(fourcc))
                &&& f is None ==> r is Err
                &&& (f is Some && f.unwrap() is Some && crate::atom::payload_in(m.data(), m.base(), f.unwrap().unwrap())) ==> r is Ok
                &&& r is Ok ==> f is Some && f.unwrap() is Some && r->Ok_0.header == f.unwrap().unwrap()
                    && r->Ok_0.data@ == payload_of(m.data(), m.base(), f.unwrap().unwrap())
            }),
    {
        match self.moov.find_header_until(fourcc, Some(sentinel), reset)? {
            Some(h) => Atom::read(&mut self.moov, h),
            None => Err(Mp4Error::NoSuchAtom(fourcc)),
        }
    }
}

impl Track {
    /// The track of `mp4` that `identifier` picks.
    pub fn new(mp4: &mut Mp4, identifier: &TrackIdentifier, reset: bool) -> (r: Result<Track, Mp4Error>)
        requires
            old(mp4).wf(),
        ensures
            final(mp4).wf(),
            track_search_result(
                old(mp4).moov_stream().data(),
                old(mp4).moov_stream().base(),
                start_of(old(mp4).moov_stream(), reset),
                *identifier,
                match r {
                    Ok(t) => Ok(t.attributes),
                    Err(e) => Err(e),
                },
            ),
            r is Ok ==> r->Ok_0.wf() && identifies(
                *identifier,
                r->Ok_0.attributes.id,
                r->Ok_0.attributes.name@,
                r->Ok_0.attributes.sub_type@,
            ),
    {
        mp4.track(identifier, reset)
    }

    /// The track of `mp4` with track ID `id`.
    pub fn from_id(mp4: &mut Mp4, id: u32, reset: bool) -> (r: Result<Track, Mp4Error>)
        requires
            old(mp4).wf(),
        ensures
            final(mp4).wf(),
            r is Ok ==> r->Ok_0.wf() && r->Ok_0.attributes.id == id,
            track_search_result(
                old(mp4).moov_stream().data(),
                old(mp4).moov_stream().base(),
                start_of(old(mp4).moov_stream(), reset),
                TrackIdentifier::Id(id),
                match r {
                    Ok(t) => Ok(t.attributes),
                    Err(e) => Err(e),
                },
            ),
    {
        mp4.track(&TrackIdentifier::Id(id), reset)
    }

    /// The first track of `mp4` whose handler is named `name`.
    pub fn from_name(mp4: &mut Mp4, name: &str, reset: bool) -> (r: Result<Track, Mp4Error>)
        requires
            old(mp4).wf(),
        ensures
            final(mp4).wf(),
            r is Ok ==> r->Ok_0.wf() && r->Ok_0.attributes.name@ == name@,
            exists|n: String|
                #![trigger n@]
                n@ == name@ && track_search_result(
                    old(mp4).moov_stream().data(),
                    old(mp4).moov_stream().base(),
                    start_of(old(mp4).moov_stream(), reset),
                    TrackIdentifier::Name(n),
                    match r {
                        Ok(t) => Ok(t.attributes),
                        Err(e) => Err(e),
                    },
                ),
    {
        let ident = TrackIdentifier::Name(name.to_owned());
        let r = mp4.track(&ident, reset);
        proof {
            let n = ident->Name_0;
            assert(n@ == name@);
        }
        r
    }

    /// The first track of `mp4` whose handler sub-type is `sub_type`.
    pub fn from_subtype(mp4: &mut Mp4, sub_type: &str, reset: bool) -> (r: Result<Track, Mp4Error>)
        requires
            old(mp4).wf(),
        ensures
            final(mp4).wf(),
            r is Ok ==> r->Ok_0.wf() && r->Ok_0.attributes.sub_type@ == sub_type@,
            exists|n: String|
                #![trigger n@]
                n@ == sub_type@ && track_search_result(
                    old(mp4).moov_stream().data(),
                    old(mp4).moov_stream().base(),
                    start_of(old(mp4).moov_stream(), reset),
                    TrackIdentifier::SubType(n),
                    match r {
                        Ok(t) => Ok(t.attributes),
                        Err(e) => Err(e),
                    },
                ),
    {
        let ident = TrackIdentifier::SubType(sub_type.to_owned());
        let r = mp4.track(&ident, reset);
        proof {
            let n = ident->SubType_0;
            assert(n@ == sub_type@);
        }
        r
    }
}

} // verus!
