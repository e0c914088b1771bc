//! Four-character codes that name atoms.

use vstd::prelude::*;

use crate::bytes::{be_u32_at, latin1, latin1_string, lemma_be_u32_round_trip, u32_be_bytes};

verus! {

/// An atom's four-character code. The well-known codes have a variant of
/// their own; any other four bytes are kept as they are in `Custom`.
#[derive(Debug, Clone, Copy, Eq)]
pub enum FourCC {
    /// `ctts`: Composition offsets.
    Ctts,
    /// `dinf`: Data information (container).
    Dinf,
    /// `dref`: Data references.
    Dref,
    /// `edts`: Edit container.
    Edts,
    /// `elst`: Edit list.
    Elst,
    /// `ftyp`: File type compatibility.
    Ftyp,
    /// `free`: Free space.
    Free,
    /// `gmhd`: Base media information header.
    Gmhd,
    /// `hdlr`: Handler reference.
    Hdlr,
    /// `iods`: Object descriptor.
    Iods,
    /// `mdat`: Media data.
    Mdat,
    /// `mdhd`: Media header.
    Mdhd,
    /// `mdia`: Media (container).
    Mdia,
    /// `minf`: Media information (container).
    Minf,
    /// `moov`: Movie (container).
    Moov,
    /// `mvhd`: Movie header.
    Mvhd,
    /// `smhd`: Sound media information header.
    Smhd,
    /// `sdtp`: Sample dependency flags.
    Sdtp,
    /// `stbl`: Sample table (container).
    Stbl,
    /// `stco`: Chunk offsets, 32-bit.
    Stco,
    /// `co64`: Chunk offsets, 64-bit.
    Co64,
    /// `stsc`: Sample to chunk.
    Stsc,
    /// `stsd`: Sample descriptions.
    Stsd,
    /// `stss`: Sync samples.
    Stss,
    /// `stsz`: Sample sizes.
    Stsz,
    /// `stts`: Time to sample.
    Stts,
    /// `tkhd`: Track header.
    Tkhd,
    /// `tmcd`: Time code sample description.
    Tmcd,
    /// `trak`: Track (container).
    Trak,
    /// `tref`: Track references (container).
    Tref,
    /// `udta`: User data (container).
    Udta,
    /// `vmhd`: Video media information header.
    Vmhd,
    /// Any other code, as its four bytes.
    Custom([u8; 4]),
}

/// Codes are equal when their four bytes are.
impl PartialEq for FourCC {
    fn eq(&self, other: &FourCC) -> (r: bool) {
        self.to_u32() == other.to_u32()
    }
}

impl vstd::std_specs::cmp::PartialEqSpecImpl for FourCC {
    open spec fn obeys_eq_spec() -> bool {
        true
    }

    open spec fn eq_spec(&self, other: &FourCC) -> bool {
        self.code() == other.code()
    }
}

/// The code that the big-endian value `v` names.
#[verifier::opaque]
pub open spec fn fourcc_of(v: u32) -> FourCC {
    match v {
        0x63747473 => FourCC::Ctts,
        0x64696e66 => FourCC::Dinf,
        0x64726566 => FourCC::Dref,
        0x65647473 => FourCC::Edts,
        0x656c7374 => FourCC::Elst,
        0x66747970 => FourCC::Ftyp,
        0x66726565 => FourCC::Free,
        0x676d6864 => FourCC::Gmhd,
        0x68646c72 => FourCC::Hdlr,
        0x696f6473 => FourCC::Iods,
        0x6d646174 => FourCC::Mdat,
        0x6d646864 => FourCC::Mdhd,
        0x6d646961 => FourCC::Mdia,
        0x6d696e66 => FourCC::Minf,
        0x6d6f6f76 => FourCC::Moov,
        0x6d766864 => FourCC::Mvhd,
        0x736d6864 => FourCC::Smhd,
        0x73647470 => FourCC::Sdtp,
        0x7374626c => FourCC::Stbl,
        0x7374636f => FourCC::Stco,
        0x636f3634 => FourCC::Co64,
        0x73747363 => FourCC::Stsc,
        0x73747364 => FourCC::Stsd,
        0x73747373 => FourCC::Stss,
        0x7374737a => FourCC::Stsz,
        0x73747473 => FourCC::Stts,
        0x746b6864 => FourCC::Tkhd,
        0x746d6364 => FourCC::Tmcd,
        0x7472616b => FourCC::Trak,
        0x74726566 => FourCC::Tref,
        0x75647461 => FourCC::Udta,
        0x766d6864 => FourCC::Vmhd,
        _ => FourCC::Custom(
            [
                (v / 0x1000000) as u8,
                ((v / 0x10000) % 0x100) as u8,
                ((v / 0x100) % 0x100) as u8,
                (v % 0x100) as u8,
            ],
        ),
    }
}

impl FourCC {
    /// The big-endian value of the code's four bytes.
    pub open spec fn code(self) -> u32 {
        match self {
            FourCC::Ctts => 0x63747473,
            FourCC::Dinf => 0x64696e66,
            FourCC::Dref => 0x64726566,
            FourCC::Edts => 0x65647473,
            FourCC::Elst => 0x656c7374,
            FourCC::Ftyp => 0x66747970,
            FourCC::Free => 0x66726565,
            FourCC::Gmhd => 0x676d6864,
            FourCC::Hdlr => 0x68646c72,
            FourCC::Iods => 0x696f6473,
            FourCC::Mdat => 0x6d646174,
            FourCC::Mdhd => 0x6d646864,
            FourCC::Mdia => 0x6d646961,
            FourCC::Minf => 0x6d696e66,
            FourCC::Moov => 0x6d6f6f76,
            FourCC::Mvhd => 0x6d766864,
            FourCC::Smhd => 0x736d6864,
            FourCC::Sdtp => 0x73647470,
            FourCC::Stbl => 0x7374626c,
            FourCC::Stco => 0x7374636f,
            FourCC::Co64 => 0x636f3634,
            FourCC::Stsc => 0x73747363,
            FourCC::Stsd => 0x73747364,
            FourCC::Stss => 0x73747373,
            FourCC::Stsz => 0x7374737a,
            FourCC::Stts => 0x73747473,
            FourCC::Tkhd => 0x746b6864,
            FourCC::Tmcd => 0x746d6364,
            FourCC::Trak => 0x7472616b,
            FourCC::Tref => 0x74726566,
            FourCC::Udta => 0x75647461,
            FourCC::Vmhd => 0x766d6864,
            FourCC::Custom(b) => be_u32_at(b@, 0) as u32,
        }
    }

    /// The code's four bytes.
    pub open spec fn bytes(self) -> Seq<u8> {
        u32_be_bytes(self.code())
    }

    /// Canonical form: a `Custom` code never holds one of the well-known codes.
    pub open spec fn wf(self) -> bool {
        fourcc_of(self.code()) == self
    }

    /// Whether the code names one of the container atoms
    /// `moov`, `trak`, `tref`, `edts`, `mdia`, `minf`, `dinf`, `stbl`, `udta`.
    pub open spec fn spec_is_container(self) -> bool {
        self is Moov || self is Trak || self is Tref || self is Edts || self is Mdia
            || self is Minf || self is Dinf || self is Stbl || self is Udta
    }

    /// Code named by a big-endian `u32`.
    pub fn from_u32(value: u32) -> (r: FourCC)
        ensures
            r == fourcc_of(value),
            r.code() == value,
            r.wf(),
    {
        proof {
            reveal(fourcc_of);
            lemma_be_u32_round_trip(u32_be_bytes(value), 0, value);
        }
        match value {
            0x63747473 => FourCC::Ctts,
            0x64696e66 => FourCC::Dinf,
            0x64726566 => FourCC::Dref,
            0x65647473 => FourCC::Edts,
            0x656c7374 => FourCC::Elst,
            0x66747970 => FourCC::Ftyp,
            0x66726565 => FourCC::Free,
            0x676d6864 => FourCC::Gmhd,
            0x68646c72 => FourCC::Hdlr,
            0x696f6473 => FourCC::Iods,
            0x6d646174 => FourCC::Mdat,
            0x6d646864 => FourCC::Mdhd,
            0x6d646961 => FourCC::Mdia,
            0x6d696e66 => FourCC::Minf,
            0x6d6f6f76 => FourCC::Moov,
            0x6d766864 => FourCC::Mvhd,
            0x736d6864 => FourCC::Smhd,
            0x73647470 => FourCC::Sdtp,
            0x7374626c => FourCC::Stbl,
            0x7374636f => FourCC::Stco,
            0x636f3634 => FourCC::Co64,
            0x73747363 => FourCC::Stsc,
            0x73747364 => FourCC::Stsd,
            0x73747373 => FourCC::Stss,
            0x7374737a => FourCC::Stsz,
            0x73747473 => FourCC::Stts,
            0x746b6864 => FourCC::Tkhd,
            0x746d6364 => FourCC::Tmcd,
            0x7472616b => FourCC::Trak,
            0x74726566 => FourCC::Tref,
            0x75647461 => FourCC::Udta,
            0x766d6864 => FourCC::Vmhd,
            _ => {
                let b: [u8; 4] = [
                    (value / 0x1000000) as u8,
                    ((value / 0x10000) % 0x100) as u8,
                    ((value / 0x100) % 0x100) as u8,
                    (value % 0x100) as u8,
                ];
                proof {
                    assert(b@ =~= u32_be_bytes(value));
                }
                FourCC::Custom(b)
            },
        }
    }

    /// The big-endian value of the code's four bytes.
    pub fn to_u32(&self) -> (r: u32)
        ensures
            r == self.code(),
    {
        match self {
            FourCC::Ctts => 0x63747473,
            FourCC::Dinf => 0x64696e66,
            FourCC::Dref => 0x64726566,
            FourCC::Edts => 0x65647473,
            FourCC::Elst => 0x656c7374,
            FourCC::Ftyp => 0x66747970,
            FourCC::Free => 0x66726565,
            FourCC::Gmhd => 0x676d6864,
            FourCC::Hdlr => 0x68646c72,
            FourCC::Iods => 0x696f6473,
            FourCC::Mdat => 0x6d646174,
            FourCC::Mdhd => 0x6d646864,
            FourCC::Mdia => 0x6d646961,
            FourCC::Minf => 0x6d696e66,
            FourCC::Moov => 0x6d6f6f76,
            FourCC::Mvhd => 0x6d766864,
            FourCC::Smhd => 0x736d6864,
            FourCC::Sdtp => 0x73647470,
            FourCC::Stbl => 0x7374626c,
            FourCC::Stco => 0x7374636f,
            FourCC::Co64 => 0x636f3634,
            FourCC::Stsc => 0x73747363,
            FourCC::Stsd => 0x73747364,
            FourCC::Stss => 0x73747373,
            FourCC::Stsz => 0x7374737a,
            FourCC::Stts => 0x73747473,
            FourCC::Tkhd => 0x746b6864,
            FourCC::Tmcd => 0x746d6364,
            FourCC::Trak => 0x7472616b,
            FourCC::Tref => 0x74726566,
            FourCC::Udta => 0x75647461,
            FourCC::Vmhd => 0x766d6864,
            FourCC::Custom(b) => {
                (b[0] as u32) * 0x1000000 + (b[1] as u32) * 0x10000 + (b[2] as u32) * 0x100 + (b[3] as u32)
            },
        }
    }

    /// Code from its four bytes.
    pub fn from_bytes(bytes: [u8; 4]) -> (r: FourCC)
        ensures
            r.code() == be_u32_at(bytes@, 0),
            r.bytes() == bytes@,
            r.wf(),
    {
        let v: u32 = (bytes[0] as u32) * 0x1000000 + (bytes[1] as u32) * 0x10000 + (bytes[2] as u32)
            * 0x100 + (bytes[3] as u32);
        proof {
            lemma_be_u32_round_trip(bytes@, 0, v);
            assert(bytes@.subrange(0, 4) =~= bytes@);
        }
        FourCC::from_u32(v)
    }

    /// Code from a slice of exactly four bytes.
    pub fn from_slice(fourcc: &[u8]) -> (r: FourCC)
        requires
            fourcc@.len() == 4,
        ensures
            r.bytes() == fourcc@,
            r.wf(),
    {
        let b: [u8; 4] = [fourcc[0], fourcc[1], fourcc[2], fourcc[3]];
        proof {
            assert(b@ =~= fourcc@);
        }
        FourCC::from_bytes(b)
    }

    /// The code's four bytes.
    pub fn to_bytes(&self) -> (r: [u8; 4])
        ensures
            r@ == self.bytes(),
    {
        let v = self.to_u32();
        let r: [u8; 4] = [
            (v / 0x1000000) as u8,
            ((v / 0x10000) % 0x100) as u8,
            ((v / 0x100) % 0x100) as u8,
            (v % 0x100) as u8,
        ];
        proof {
            assert(r@ =~= u32_be_bytes(v));
        }
        r
    }

    /// The code as text, each byte read as an ISO-8859-1 character.
    pub fn to_str(&self) -> (r: String)
        ensures
            r@ == latin1(self.bytes()),
    {
        let b = self.to_bytes();
        latin1_string(&b)
    }

    /// Code from text of exactly four characters, each in ISO-8859-1
    /// (code point below 256). Other text names no code.
    pub fn from_str(fourcc: &str) -> (r: Option<FourCC>)
        ensures
            r is Some <==> (fourcc@.len() == 4 && forall|i: int| 0 <= i < 4 ==> (fourcc@[i] as u32) < 256),
            r is Some ==> latin1(r.unwrap().bytes()) == fourcc@ && r.unwrap().wf(),
    {
        if fourcc.unicode_len() != 4 {
            return None;
        }
        let c0 = fourcc.get_char(0);
        let c1 = fourcc.get_char(1);
        let c2 = fourcc.get_char(2);
        let c3 = fourcc.get_char(3);
        if (c0 as u32) >= 256 || (c1 as u32) >= 256 || (c2 as u32) >= 256 || (c3 as u32) >= 256 {
            return None;
        }
        let b: [u8; 4] = [c0 as u32 as u8, c1 as u32 as u8, c2 as u32 as u8, c3 as u32 as u8];
        let r = FourCC::from_bytes(b);
        proof {
            assert forall|i: int| 0 <= i < 4 implies (fourcc@[i] as u32) < 256 by {
                assert(i == 0 || i == 1 || i == 2 || i == 3);
            }
            assert(latin1(b@) =~= fourcc@) by {
                assert forall|i: int| 0 <= i < 4 implies (b@[i] as char) == fourcc@[i] by {
                    assert(i == 0 || i == 1 || i == 2 || i == 3);
                    let c = fourcc@[i];
                    assert((c as u32 as u8) as char == c);
                }
            }
        }
        Some(r)
    }

    /// Whether the code names a container atom, whose payload is a
    /// sequence of child atoms.
    pub fn is_container(&self) -> (r: bool)
        ensures
            r == self.spec_is_container(),
    {
        match self {
            FourCC::Moov | FourCC::Trak | FourCC::Tref | FourCC::Edts | FourCC::Mdia | FourCC::Minf
            | FourCC::Dinf | FourCC::Stbl | FourCC::Udta => true,
            _ => false,
        }
    }
}

} // verus!
