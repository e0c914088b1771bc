//! An atom read into memory: its header and its payload bytes, with a
//! typed decoder for each recognized FourCC.

use vstd::prelude::*;

use crate::bytes::be_u32_at;
use crate::error::Mp4Error;
use crate::fourcc::FourCC;
use crate::header::AtomHeader;
use crate::lists::{refs_fit, Ctts, Dref, Elst, Sdtp, Stss};
use crate::headers::{Ftyp, Hdlr, Mdhd, Mvhd, Smhd, Tkhd, Vmhd};
use crate::stream::{can_read, ByteStream, ReadOption, SeekFrom};
use crate::stsd::{records_fit, Stsd};
use crate::tables::{Co64, Stco, Stsc, Stsz, Stts};

verus! {

/// The payload bytes of the atom with header `h` in a buffer starting at `base`.
pub open spec fn payload_of(d: Seq<u8>, base: int, h: AtomHeader) -> Seq<u8> {
    d.subrange(h.spec_data_offset() - base, h.spec_end() - base)
}

/// Whether the payload of the atom with header `h` lies in the buffer.
pub open spec fn payload_in(d: Seq<u8>, base: int, h: AtomHeader) -> bool {
    can_read(d, base, h.spec_data_offset(), h.atom_size - h.hs())
}

/// An atom: its header and a copy of its payload.
#[derive(Debug, Clone)]
pub struct Atom {
    pub header: AtomHeader,
    pub data: Vec<u8>,
}

impl Atom {
    /// Reads the payload of the atom with header `header` from the stream,
    /// leaving the stream at the atom's end.
    pub fn read(s: &mut ByteStream, header: AtomHeader) -> (r: Result<Atom, Mp4Error>)
        requires
            old(s).wf(),
            header.wf(),
            old(s).base() <= header.spec_data_offset(),
        ensures
            final(s).same_buffer(old(s)),
            final(s).wf(),
            r is Ok <==> (payload_in(old(s).data(), old(s).base(), header) && header.atom_size - header.hs() <= usize::MAX),
            r is Ok ==> r->Ok_0.header == header && r->Ok_0.data@ == payload_of(old(s).data(), old(s).base(), header)
                && final(s).position() == header.spec_end(),
    {
        let size = header.data_size();
        if size > usize::MAX as u64 {
            return Err(Mp4Error::NumericOverflow);
        }
        let _ = s.seek(SeekFrom::Start(header.data_offset()));
        let data = s.read_bytes(ReadOption::Sized(size as usize))?;
        Ok(Atom { header, data })
    }

    /// Total atom size, header included.
    pub fn len(&self) -> (r: u64)
        ensures
            r == self.header.atom_size,
    {
        self.header.atom_size
    }

    /// The atom's FourCC.
    pub fn name(&self) -> (r: FourCC)
        ensures
            r == self.header.name,
    {
        self.header.name
    }

    /// Payload size in bytes.
    pub fn data_size(&self) -> (r: u64)
        requires
            self.header.wf(),
        ensures
            r == self.header.atom_size - self.header.hs(),
    {
        self.header.data_size()
    }

    /// The payload bytes.
    pub fn read_data(&self) -> (r: &[u8])
        ensures
            r@ == self.data@,
    {
        self.data.as_slice()
    }

    /// Absolute file offset of the atom's start.
    pub fn min(&self) -> (r: u64)
        ensures
            r == self.header.offset,
    {
        self.header.offset
    }

    /// Absolute file offset of the atom's end.
    pub fn max(&self) -> (r: u64)
        requires
            self.header.wf(),
        ensures
            r == self.header.spec_end(),
    {
        self.header.end()
    }

    /// Absolute file offset of the payload.
    pub fn data_offset(&self) -> (r: u64)
        requires
            self.header.wf(),
        ensures
            r == self.header.spec_data_offset(),
    {
        self.header.data_offset()
    }

    /// Fails with `AtomMismatch` unless the atom is named `name`.
    pub fn verify_fcc(&self, name: FourCC) -> (r: Result<(), Mp4Error>)
        ensures
            r is Ok <==> self.header.name.code() == name.code(),
            r is Err ==> r == Err::<(), Mp4Error>(Mp4Error::AtomMismatch { got: self.header.name, expected: name }),
    {
        if self.header.name != name {
            return Err(Mp4Error::AtomMismatch { got: self.header.name, expected: name });
        }
        Ok(())
    }

    /// Decodes the payload as `stts`; `AtomMismatch` for another atom.
    pub fn stts(&self) -> (r: Result<Stts, Mp4Error>)
        ensures
            self.header.name.code() != FourCC::Stts.code() ==> r == Err::<Stts, Mp4Error>(
                Mp4Error::AtomMismatch { got: self.header.name, expected: FourCC::Stts },
            ),
            self.header.name.code() == FourCC::Stts.code() ==> ({
                let b = self.data@;
                &&& r is Ok <==> b.len() >= 8 && b.len() >= 8 + 8 * be_u32_at(b, 4)
                &&& r is Ok ==> r->Ok_0.parsed_from(b)
            }),
    {
        self.verify_fcc(FourCC::Stts)?;
        Stts::parse(self.data.as_slice())
    }

    /// Decodes the payload as `stsz`; `AtomMismatch` for another atom.
    pub fn stsz(&self) -> (r: Result<Stsz, Mp4Error>)
        ensures
            self.header.name.code() != FourCC::Stsz.code() ==> r == Err::<Stsz, Mp4Error>(
                Mp4Error::AtomMismatch { got: self.header.name, expected: FourCC::Stsz },
            ),
            self.header.name.code() == FourCC::Stsz.code() ==> ({
                let b = self.data@;
                &&& r is Ok <==> b.len() >= 12 && (be_u32_at(b, 4) != 0 || b.len() >= 12 + 4 * be_u32_at(b, 8))
                &&& r is Ok ==> r->Ok_0.parsed_from(b)
            }),
    {
        self.verify_fcc(FourCC::Stsz)?;
        Stsz::parse(self.data.as_slice())
    }

    /// Decodes the payload as `stco`; `AtomMismatch` for another atom.
    pub fn stco(&self) -> (r: Result<Stco, Mp4Error>)
        ensures
            self.header.name.code() != FourCC::Stco.code() ==> r == Err::<Stco, Mp4Error>(
                Mp4Error::AtomMismatch { got: self.header.name, expected: FourCC::Stco },
            ),
            self.header.name.code() == FourCC::Stco.code() ==> ({
                let b = self.data@;
                &&& r is Ok <==> b.len() >= 8 && b.len() >= 8 + 4 * be_u32_at(b, 4)
                &&& r is Ok ==> r->Ok_0.parsed_from(b)
            }),
    {
        self.verify_fcc(FourCC::Stco)?;
        Stco::parse(self.data.as_slice())
    }

    /// Decodes the payload as `co64`; `AtomMismatch` for another atom.
    pub fn co64(&self) -> (r: Result<Co64, Mp4Error>)
        ensures
            self.header.name.code() != FourCC::Co64.code() ==> r == Err::<Co64, Mp4Error>(
                Mp4Error::AtomMismatch { got: self.header.name, expected: FourCC::Co64 },
            ),
            self.header.name.code() == FourCC::Co64.code() ==> ({
                let b = self.data@;
                &&& r is Ok <==> b.len() >= 8 && b.len() >= 8 + 8 * be_u32_at(b, 4)
                &&& r is Ok ==> r->Ok_0.parsed_from(b)
            }),
    {
        self.verify_fcc(FourCC::Co64)?;
        Co64::parse(self.data.as_slice())
    }

    /// Decodes the payload as `stsc`; `AtomMismatch` for another atom.
    pub fn stsc(&self) -> (r: Result<Stsc, Mp4Error>)
        ensures
            self.header.name.code() != FourCC::Stsc.code() ==> r == Err::<Stsc, Mp4Error>(
                Mp4Error::AtomMismatch { got: self.header.name, expected: FourCC::Stsc },
            ),
            self.header.name.code() == FourCC::Stsc.code() ==> ({
                let b = self.data@;
                &&& r is Ok <==> b.len() >= 8 && b.len() >= 8 + 12 * be_u32_at(b, 4)
                &&& r is Ok ==> r->Ok_0.parsed_from(b)
            }),
    {
        self.verify_fcc(FourCC::Stsc)?;
        Stsc::parse(self.data.as_slice())
    }

    /// Decodes the payload as `mvhd`; `AtomMismatch` for another atom.
    pub fn mvhd(&self) -> (r: Result<Mvhd, Mp4Error>)
        ensures
            self.header.name.code() != FourCC::Mvhd.code() ==> r == Err::<Mvhd, Mp4Error>(
                Mp4Error::AtomMismatch { got: self.header.name, expected: FourCC::Mvhd },
            ),
            self.header.name.code() == FourCC::Mvhd.code() ==> ({
                let b = self.data@;
                &&& r is Ok <==> b.len() >= 100
                &&& r is Ok ==> r->Ok_0.parsed_from(b)
            }),
    {
        self.verify_fcc(FourCC::Mvhd)?;
        Mvhd::parse(self.data.as_slice())
    }

    /// Decodes the payload as `tkhd`; `AtomMismatch` for another atom.
    pub fn tkhd(&self) -> (r: Result<Tkhd, Mp4Error>)
        ensures
            self.header.name.code() != FourCC::Tkhd.code() ==> r == Err::<Tkhd, Mp4Error>(
                Mp4Error::AtomMismatch { got: self.header.name, expected: FourCC::Tkhd },
            ),
            self.header.name.code() == FourCC::Tkhd.code() ==> ({
                let b = self.data@;
                &&& r is Ok <==> b.len() >= 84
                &&& r is Ok ==> r->Ok_0.parsed_from(b)
            }),
    {
        self.verify_fcc(FourCC::Tkhd)?;
        Tkhd::parse(self.data.as_slice())
    }

    /// Decodes the payload as `mdhd`; `AtomMismatch` for another atom.
    pub fn mdhd(&self) -> (r: Result<Mdhd, Mp4Error>)
        ensures
            self.header.name.code() != FourCC::Mdhd.code() ==> r == Err::<Mdhd, Mp4Error>(
                Mp4Error::AtomMismatch { got: self.header.name, expected: FourCC::Mdhd },
            ),
            self.header.name.code() == FourCC::Mdhd.code() ==> ({
                let b = self.data@;
                &&& r is Ok <==> b.len() >= 24
                &&& r is Ok ==> r->Ok_0.parsed_from(b)
            }),
    {
        self.verify_fcc(FourCC::Mdhd)?;
        Mdhd::parse(self.data.as_slice())
    }

    /// Decodes the payload as `hdlr`; `AtomMismatch` for another atom.
    pub fn hdlr(&self) -> (r: Result<Hdlr, Mp4Error>)
        ensures
            self.header.name.code() != FourCC::Hdlr.code() ==> r == Err::<Hdlr, Mp4Error>(
                Mp4Error::AtomMismatch { got: self.header.name, expected: FourCC::Hdlr },
            ),
            self.header.name.code() == FourCC::Hdlr.code() ==> ({
                let b = self.data@;
                &&& r is Ok <==> b.len() >= 25
                &&& r is Ok ==> r->Ok_0.parsed_from(b)
                &&& b.len() < 24 ==> r is Err && r->Err_0 is ReadMismatch
                &&& b.len() == 24 ==> r == Err::<Hdlr, Mp4Error>(Mp4Error::MissingHandlerName)
            }),
    {
        self.verify_fcc(FourCC::Hdlr)?;
        Hdlr::parse(self.data.as_slice())
    }

    /// Decodes the payload as `ftyp`; `AtomMismatch` for another atom.
    pub fn ftyp(&self) -> (r: Result<Ftyp, Mp4Error>)
        ensures
            self.header.name.code() != FourCC::Ftyp.code() ==> r == Err::<Ftyp, Mp4Error>(
                Mp4Error::AtomMismatch { got: self.header.name, expected: FourCC::Ftyp },
            ),
            self.header.name.code() == FourCC::Ftyp.code() ==> ({
                let b = self.data@;
                &&& r is Ok <==> b.len() >= 8
                &&& r is Ok ==> r->Ok_0.parsed_from(b)
            }),
    {
        self.verify_fcc(FourCC::Ftyp)?;
        Ftyp::parse(self.data.as_slice())
    }

    /// Decodes the payload as `stsd`; `AtomMismatch` for another atom.
    pub fn stsd(&self) -> (r: Result<Stsd, Mp4Error>)
        ensures
            self.header.name.code() != FourCC::Stsd.code() ==> r == Err::<Stsd, Mp4Error>(
                Mp4Error::AtomMismatch { got: self.header.name, expected: FourCC::Stsd },
            ),
            self.header.name.code() == FourCC::Stsd.code() ==> (r is Ok <==> (self.data@.len() >= 8
                && records_fit(self.data@, 8, be_u32_at(self.data@, 4)))),
            r is Ok ==> r->Ok_0.parsed_from(self.data@),
    {
        self.verify_fcc(FourCC::Stsd)?;
        Stsd::parse(self.data.as_slice())
    }

    /// Decodes the payload as `vmhd`; `AtomMismatch` for another atom.
    pub fn vmhd(&self) -> (r: Result<Vmhd, Mp4Error>)
        ensures
            self.header.name.code() != FourCC::Vmhd.code() ==> r == Err::<Vmhd, Mp4Error>(
                Mp4Error::AtomMismatch { got: self.header.name, expected: FourCC::Vmhd },
            ),
            self.header.name.code() == FourCC::Vmhd.code() ==> (r is Ok <==> self.data@.len() >= 12),
    {
        self.verify_fcc(FourCC::Vmhd)?;
        Vmhd::parse(self.data.as_slice())
    }

    /// Decodes the payload as `smhd`; `AtomMismatch` for another atom.
    pub fn smhd(&self) -> (r: Result<Smhd, Mp4Error>)
        ensures
            self.header.name.code() != FourCC::Smhd.code() ==> r == Err::<Smhd, Mp4Error>(
                Mp4Error::AtomMismatch { got: self.header.name, expected: FourCC::Smhd },
            ),
            self.header.name.code() == FourCC::Smhd.code() ==> (r is Ok <==> self.data@.len() >= 8),
    {
        self.verify_fcc(FourCC::Smhd)?;
        Smhd::parse(self.data.as_slice())
    }
    /// Decodes the payload as `stss`; `AtomMismatch` for another atom.
    pub fn stss(&self) -> (r: Result<Stss, Mp4Error>)
        ensures
            self.header.name.code() != FourCC::Stss.code() ==> r == Err::<Stss, Mp4Error>(
                Mp4Error::AtomMismatch { got: self.header.name, expected: FourCC::Stss },
            ),
            self.header.name.code() == FourCC::Stss.code() ==> ({
                let b = self.data@;
                &&& r is Ok <==> b.len() >= 8 && b.len() >= 8 + 4 * be_u32_at(b, 4)
                &&& r is Ok ==> r->Ok_0.parsed_from(b)
            }),
    {
        self.verify_fcc(FourCC::Stss)?;
        Stss::parse(self.data.as_slice())
    }

    /// Decodes the payload as `ctts`; `AtomMismatch` for another atom.
    pub fn ctts(&self) -> (r: Result<Ctts, Mp4Error>)
        ensures
            self.header.name.code() != FourCC::Ctts.code() ==> r == Err::<Ctts, Mp4Error>(
                Mp4Error::AtomMismatch { got: self.header.name, expected: FourCC::Ctts },
            ),
            self.header.name.code() == FourCC::Ctts.code() ==> ({
                let b = self.data@;
                &&& r is Ok <==> b.len() >= 8 && b.len() >= 8 + 8 * be_u32_at(b, 4)
                &&& r is Ok ==> r->Ok_0.parsed_from(b)
            }),
    {
        self.verify_fcc(FourCC::Ctts)?;
        Ctts::parse(self.data.as_slice())
    }

    /// Decodes the payload as `elst`; `AtomMismatch` for another atom.
    pub fn elst(&self) -> (r: Result<Elst, Mp4Error>)
        ensures
            self.header.name.code() != FourCC::Elst.code() ==> r == Err::<Elst, Mp4Error>(
                Mp4Error::AtomMismatch { got: self.header.name, expected: FourCC::Elst },
            ),
            self.header.name.code() == FourCC::Elst.code() ==> ({
                let b = self.data@;
                &&& r is Ok <==> b.len() >= 8 && b.len() >= 8 + 12 * be_u32_at(b, 4)
                &&& r is Ok ==> r->Ok_0.parsed_from(b)
            }),
    {
        self.verify_fcc(FourCC::Elst)?;
        Elst::parse(self.data.as_slice())
    }

    /// Decodes the payload as `sdtp`; `AtomMismatch` for another atom.
    pub fn sdtp(&self) -> (r: Result<Sdtp, Mp4Error>)
        ensures
            self.header.name.code() != FourCC::Sdtp.code() ==> r == Err::<Sdtp, Mp4Error>(
                Mp4Error::AtomMismatch { got: self.header.name, expected: FourCC::Sdtp },
            ),
            self.header.name.code() == FourCC::Sdtp.code() ==> (r is Ok <==> self.data@.len() >= 4),
    {
        self.verify_fcc(FourCC::Sdtp)?;
        Sdtp::parse(self.data.as_slice())
    }

    /// Decodes the payload as `dref`; `AtomMismatch` for another atom.
    pub fn dref(&self) -> (r: Result<Dref, Mp4Error>)
        ensures
            self.header.name.code() != FourCC::Dref.code() ==> r == Err::<Dref, Mp4Error>(
                Mp4Error::AtomMismatch { got: self.header.name, expected: FourCC::Dref },
            ),
            self.header.name.code() == FourCC::Dref.code() ==> (r is Ok <==> (self.data@.len() >= 8
                && refs_fit(self.data@, 8, be_u32_at(self.data@, 4)))),
    {
        self.verify_fcc(FourCC::Dref)?;
        Dref::parse(self.data.as_slice())
    }
}

} // verus!
