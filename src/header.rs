//! Atom headers: the 8- or 16-byte prefix of every atom.
//!
//! ```text
//! | [X X X X] [Y Y Y Y] [Z Z Z Z Z Z Z Z] |
//!    |         |         |
//!    |         |         64-bit size (only when the 32-bit size is 1)
//!    |         FourCC
//!    32-bit size
//! ```

use vstd::prelude::*;

use crate::bytes::{be_u32_at, be_u64_at};
use crate::error::Mp4Error;
use crate::fourcc::{fourcc_of, FourCC};
use crate::stream::{can_read, ByteStream, SeekFrom};

verus! {

/// Header of one atom, as read from the file.
#[derive(Debug, Clone, Copy, PartialEq, Eq)]
pub struct AtomHeader {
    /// Total atom size in bytes, header included.
    pub atom_size: u64,
    /// The atom's FourCC.
    pub name: FourCC,
    /// Absolute file offset of the header's first byte.
    pub offset: u64,
    /// Bytes to skip after the header to reach the next atom:
    /// zero for containers (the walk descends into them), the data size otherwise.
    pub next: u64,
    /// The 32-bit size field was `1` and a 64-bit size followed. Some
    /// encoders always write 64-bit sizes, so this cannot be derived from
    /// `atom_size`.
    pub size_64bit: bool,
}

/// Header with the given size, name and position, when the size covers at
/// least the header and the atom's end fits in `u64`.
pub open spec fn make_header(size: int, name: FourCC, pos: int, is64: bool) -> Option<AtomHeader> {
    let hs: int = if is64 {
        16
    } else {
        8
    };
    if size < hs || pos + size > u64::MAX || pos < 0 {
        None
    } else {
        Some(
            AtomHeader {
                atom_size: size as u64,
                name,
                offset: pos as u64,
                next: if name.spec_is_container() {
                    0
                } else {
                    (size - hs) as u64
                },
                size_64bit: is64,
            },
        )
    }
}

/// The header that the bytes at file offset `pos` describe, in a buffer
/// whose first byte is at `base`; `None` when the bytes run out or the size
/// is invalid.
#[verifier::opaque]
pub open spec fn header_at(d: Seq<u8>, base: int, pos: int) -> Option<AtomHeader> {
    if !can_read(d, base, pos, 8) {
        None
    } else {
        let i = pos - base;
        let size32 = be_u32_at(d, i);
        let name = fourcc_of(be_u32_at(d, i + 4) as u32);
        if size32 == 1 {
            if !can_read(d, base, pos, 16) {
                None
            } else {
                make_header(be_u64_at(d, i + 8), name, pos, true)
            }
        } else {
            make_header(size32, name, pos, false)
        }
    }
}

impl AtomHeader {
    /// Header size in bytes: 16 with a 64-bit size, else 8.
    pub open spec fn hs(self) -> int {
        if self.size_64bit {
            16
        } else {
            8
        }
    }

    /// File offset just past the atom.
    pub open spec fn spec_end(self) -> int {
        self.offset + self.atom_size
    }

    /// File offset of the atom's payload.
    pub open spec fn spec_data_offset(self) -> int {
        self.offset + self.hs()
    }

    /// Where a walk goes after this header: into a container's payload,
    /// past a leaf atom.
    pub open spec fn spec_next_pos(self) -> int {
        self.offset + self.hs() + self.next
    }

    /// The size covers the header, the end fits in `u64`, and `next` is
    /// zero for containers and the data size for leaves.
    pub open spec fn wf(self) -> bool {
        &&& self.hs() <= self.atom_size
        &&& self.offset + self.atom_size <= u64::MAX
        &&& self.next == if self.name.spec_is_container() {
            0
        } else {
            self.atom_size - self.hs()
        }
    }

    /// Whether `pos` lies in `[offset, end)`.
    pub open spec fn spec_contains(self, pos: int) -> bool {
        self.offset <= pos < self.spec_end()
    }

    /// Reads the header at the stream's position and leaves the stream just
    /// past it (past the 64-bit size when there is one).
    pub fn read(s: &mut ByteStream) -> (r: Result<AtomHeader, Mp4Error>)
        requires
            old(s).wf(),
        ensures
            final(s).same_buffer(old(s)),
            final(s).wf(),
            ({
                let h = header_at(old(s).data(), old(s).base(), old(s).position());
                &&& r is Ok <==> h is Some
                &&& r is Ok ==> r->Ok_0 == h.unwrap() && r->Ok_0.wf() && final(s).position()
                    == old(s).position() + r->Ok_0.hs()
            }),
            r is Err ==> (r->Err_0 is ReadMismatch || r->Err_0 is ZeroSizeAtom
                || r->Err_0 is UnexpectedAtomSize),
            ({
                let d = old(s).data();
                let p = old(s).position();
                let i = p - old(s).base();
                let size: int = if be_u32_at(d, i) == 1 {
                    be_u64_at(d, i + 8)
                } else {
                    be_u32_at(d, i)
                };
                let whole = can_read(d, old(s).base(), p, if be_u32_at(d, i) == 1 {
                    16
                } else {
                    8
                });
                &&& can_read(d, old(s).base(), p, 8) && whole && size == 0 ==> r == Err::<AtomHeader, Mp4Error>(
                    Mp4Error::ZeroSizeAtom { name: fourcc_of(be_u32_at(d, i + 4) as u32), offset: p as u64 },
                )
                &&& (r is Err && r->Err_0 is ZeroSizeAtom) ==> can_read(d, old(s).base(), p, 8) && whole && size == 0
            }),
    {
        reveal(header_at);
        let offset = s.pos();
        let size32 = s.read_u32()?;
        let code = s.read_u32()?;
        let name = FourCC::from_u32(code);
        let (atom_size, size_64bit): (u64, bool) = if size32 == 1 {
            let size64 = s.read_u64()?;
            (size64, true)
        } else {
            (size32 as u64, false)
        };
        if atom_size == 0 {
            return Err(Mp4Error::ZeroSizeAtom { name, offset });
        }
        let hs: u64 = if size_64bit {
            16
        } else {
            8
        };
        if atom_size < hs || offset > u64::MAX - atom_size {
            return Err(Mp4Error::UnexpectedAtomSize { len: atom_size, offset });
        }
        let next = if name.is_container() {
            0
        } else {
            atom_size - hs
        };
        Ok(AtomHeader { atom_size, name, offset, next, size_64bit })
    }

    /// Header from the bytes found at file offset `offset` (at least 8 bytes,
    /// 16 when the 32-bit size is `1`).
    pub fn parse(bytes: Vec<u8>, offset: u64) -> (r: Result<AtomHeader, Mp4Error>)
        ensures
            offset + bytes@.len() <= u64::MAX ==> (r is Ok <==> header_at(bytes@, offset as int, offset as int) is Some),
            r is Ok ==> r->Ok_0 == header_at(bytes@, offset as int, offset as int).unwrap() && r->Ok_0.wf(),
    {
        if bytes.len() as u64 > u64::MAX - offset {
            return Err(Mp4Error::NumericOverflow);
        }
        let mut s = ByteStream::new(bytes, offset);
        AtomHeader::read(&mut s)
    }

    /// Whether this atom is a container of other atoms.
    pub fn is_container(&self) -> (r: bool)
        ensures
            r == self.name.spec_is_container(),
    {
        self.name.is_container()
    }

    /// Absolute file offset of the header.
    pub fn start(&self) -> (r: u64)
        ensures
            r == self.offset,
    {
        self.offset
    }

    /// Absolute file offset just past the atom.
    pub fn end(&self) -> (r: u64)
        requires
            self.wf(),
        ensures
            r == self.spec_end(),
    {
        self.offset + self.atom_size
    }

    /// Total atom size, header included.
    pub fn atom_size(&self) -> (r: u64)
        ensures
            r == self.atom_size,
    {
        self.atom_size
    }

    /// The atom's FourCC.
    pub fn name(&self) -> (r: &FourCC)
        ensures
            *r == self.name,
    {
        &self.name
    }

    /// Absolute file offset of the header.
    pub fn offset(&self) -> (r: u64)
        ensures
            r == self.offset,
    {
        self.offset
    }

    /// Header size in bytes: 16 with a 64-bit size, else 8.
    pub fn header_size(&self) -> (r: u8)
        ensures
            r == self.hs(),
    {
        if self.size_64bit {
            16
        } else {
            8
        }
    }

    /// Absolute file offset of the payload (just past the header).
    pub fn data_offset(&self) -> (r: u64)
        requires
            self.wf(),
        ensures
            r == self.spec_data_offset(),
    {
        self.offset + self.header_size() as u64
    }

    /// Payload size (atom size minus header size).
    pub fn data_size(&self) -> (r: u64)
        requires
            self.wf(),
        ensures
            r == self.atom_size - self.hs(),
    {
        self.atom_size - self.header_size() as u64
    }

    /// Bytes from the end of the header to the next atom of a walk:
    /// zero for containers, the payload size for leaves.
    pub fn offset_next_rel(&self) -> (r: u64)
        requires
            self.wf(),
        ensures
            r == self.next,
            r == if self.name.spec_is_container() {
                0
            } else {
                self.atom_size - self.hs()
            },
    {
        if self.is_container() {
            0
        } else {
            self.atom_size - self.header_size() as u64
        }
    }

    /// Absolute file offset of the next sibling.
    pub fn offset_next_abs(&self) -> (r: u64)
        requires
            self.wf(),
        ensures
            r == self.spec_end(),
    {
        self.offset + self.atom_size
    }

    /// Where a walk goes after this header: into a container's payload,
    /// past a leaf atom.
    pub fn next_pos(&self) -> (r: u64)
        requires
            self.wf(),
        ensures
            r == self.spec_next_pos(),
    {
        self.offset + self.header_size() as u64 + self.next
    }

    /// The half-open range `[offset, end)` the atom covers.
    pub fn bounds(&self) -> (r: (u64, u64))
        requires
            self.wf(),
        ensures
            r.0 == self.offset && r.1 == self.spec_end(),
    {
        (self.offset, self.offset_next_abs())
    }

    /// Whether both ends of `range` lie in `[offset, end)`.
    pub fn in_bounds(&self, range: (u64, u64)) -> (r: bool)
        requires
            self.wf(),
        ensures
            r == (self.spec_contains(range.0 as int) && self.spec_contains(range.1 as int)),
    {
        self.contains(range.0) && self.contains(range.1)
    }

    /// Whether `pos` lies in `[offset, end)`: a position on an atom boundary
    /// belongs to the atom that starts there.
    pub fn contains(&self, pos: u64) -> (r: bool)
        requires
            self.wf(),
        ensures
            r == self.spec_contains(pos as int),
    {
        self.offset <= pos && self.offset_next_abs() > pos
    }
}

} // verus!

verus! {

/// Skipping `next` bytes past a leaf atom's header lands exactly on the atom's
/// end, the boundary where its next sibling starts.
pub proof fn lemma_leaf_next_is_boundary(h: AtomHeader)
    requires
        h.wf(),
        !h.name.spec_is_container(),
    ensures
        h.spec_next_pos() == h.spec_end(),
{
}

/// A header read from the bytes is well formed and lies at the position it
/// was read from: it covers at least its own 8 or 16 bytes.
pub proof fn lemma_header_at_wf(d: Seq<u8>, base: int, pos: int)
    requires
        header_at(d, base, pos) is Some,
    ensures
        header_at(d, base, pos).unwrap().wf(),
        header_at(d, base, pos).unwrap().offset == pos,
        header_at(d, base, pos).unwrap().atom_size >= header_at(d, base, pos).unwrap().hs(),
        header_at(d, base, pos).unwrap().spec_next_pos() >= pos + 8,
{
    reveal(header_at);
}

} // verus!
