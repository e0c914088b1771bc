//! User data (`udta`): a list of vendor fields, each laid out like an atom
//! (`size`, FourCC, bytes). Some producers pad the list with zero bytes.

use vstd::prelude::*;

use crate::bytes::{be_u32_at, copy_range, u32_at};
use crate::fourcc::FourCC;

verus! {

/// The fields `(code, size, bytes)` found from index `off` of a `udta`
/// payload; the list ends at the end of the payload, at a zero FourCC
/// (padding), or at a size that does not fit.
pub open spec fn fields_at(b: Seq<u8>, off: int) -> Seq<(u32, u32, Seq<u8>)>
    decreases b.len() - off,
{
    if off < 0 || off + 8 > b.len() {
        Seq::empty()
    } else {
        let size = be_u32_at(b, off);
        let code = be_u32_at(b, off + 4);
        if code == 0 || size < 8 || off + size > b.len() {
            Seq::empty()
        } else {
            seq![(code as u32, size as u32, b.subrange(off + 8, off + size))] + fields_at(b, off + size)
        }
    }
}

/// Relies on `String::from_utf8`: the text the bytes encode when they are
/// valid UTF-8.
#[verifier::external_body]
fn utf8_string(bytes: Vec<u8>) -> (r: Option<String>)
    ensures
        r is Some <==> vstd::utf8::valid_utf8(bytes@),
        r is Some ==> r.unwrap()@ == vstd::utf8::decode_utf8(bytes@),
{
    String::from_utf8(bytes).ok()
}

/// One user data field.
#[derive(Debug, Clone)]
pub struct UdtaField {
    pub name: FourCC,
    /// Total size in bytes, the 8-byte header included.
    pub size: u32,
    /// The bytes after the header.
    pub data: Vec<u8>,
}

impl UdtaField {
    /// Number of data bytes.
    pub fn len(&self) -> (r: usize)
        ensures
            r == self.data@.len(),
    {
        self.data.len()
    }

    /// Whether the field is named `fourcc`.
    pub fn matches(&self, fourcc: FourCC) -> (r: bool)
        ensures
            r == (self.name.code() == fourcc.code()),
    {
        self.name == fourcc
    }

    /// The data as text, when it is valid UTF-8.
    pub fn to_string(&self) -> (r: Option<String>)
        ensures
            r is Some <==> vstd::utf8::valid_utf8(self.data@),
            r is Some ==> r.unwrap()@ == vstd::utf8::decode_utf8(self.data@),
    {
        let copy = copy_range(self.data.as_slice(), 0, self.data.len());
        proof {
            assert(copy@ =~= self.data@);
        }
        utf8_string(copy)
    }
}

/// User data atom contents.
#[derive(Debug, Clone)]
pub struct Udta {
    pub fields: Vec<UdtaField>,
}

impl Udta {
    /// Decodes the fields of a `udta` payload.
    pub fn parse(b: &[u8]) -> (r: Udta)
        ensures
            r.fields@.len() == fields_at(b@, 0).len(),
            forall|i: int|
                0 <= i < r.fields@.len() ==> {
                    let f = fields_at(b@, 0)[i];
                    &&& (#[trigger] r.fields@[i]).name.code() == f.0
                    &&& r.fields@[i].size == f.1
                    &&& r.fields@[i].data@ == f.2
                },
    {
        let mut fields: Vec<UdtaField> = Vec::new();
        let mut off: usize = 0;
        let _len = b.len();
        loop
            invariant
                off <= b@.len() <= usize::MAX,
                fields_at(b@, 0) == fields@.map_values(|f: UdtaField| (f.name.code(), f.size, f.data@)) + fields_at(b@, off as int),
            ensures
                fields_at(b@, 0) == fields@.map_values(|f: UdtaField| (f.name.code(), f.size, f.data@)) + fields_at(b@, off as int),
                fields_at(b@, off as int) =~= Seq::empty(),
            decreases b@.len() - off,
        {
            if b.len() - off < 8 {
                break;
            }
            let size = u32_at(b, off);
            let code = u32_at(b, off + 4);
            if code == 0 || size < 8 || size as usize > b.len() - off {
                break;
            }
            let data = copy_range(b, off + 8, off + size as usize);
            let f = UdtaField { name: FourCC::from_u32(code), size, data };
            proof {
                let v = fields@.map_values(|f: UdtaField| (f.name.code(), f.size, f.data@));
                let v2 = fields@.push(f).map_values(|f: UdtaField| (f.name.code(), f.size, f.data@));
                assert(v2 =~= v.push((code, size, b@.subrange(off + 8, off + size))));
                assert(v2 + fields_at(b@, off + size) =~= v + (seq![(code, size, b@.subrange(off + 8, off + size))]
                    + fields_at(b@, off + size)));
            }
            fields.push(f);
            off = off + size as usize;
        }
        proof {
            let v = fields@.map_values(|f: UdtaField| (f.name.code(), f.size, f.data@));
            assert(v + Seq::<(u32, u32, Seq<u8>)>::empty() =~= v);
            assert forall|i: int| 0 <= i < fields@.len() implies {
                let f = fields_at(b@, 0)[i];
                &&& (#[trigger] fields@[i]).name.code() == f.0
                &&& fields@[i].size == f.1
                &&& fields@[i].data@ == f.2
            } by {
                assert(fields_at(b@, 0)[i] == v[i]);
            }
        }
        Udta { fields }
    }

    /// All fields, in order.
    pub fn iter(&self) -> (r: &[UdtaField])
        ensures
            r@ == self.fields@,
    {
        self.fields.as_slice()
    }

    /// The first field named `fourcc`.
    pub fn find(&self, fourcc: FourCC) -> (r: Option<&UdtaField>)
        ensures
            r is None <==> forall|i: int| 0 <= i < self.fields@.len() ==> (#[trigger] self.fields@[i]).name.code() != fourcc.code(),
            r is Some ==> exists|i: int| 0 <= i < self.fields@.len() && *r.unwrap() == #[trigger] self.fields@[i]
                && r.unwrap().name.code() == fourcc.code()
                && forall|k: int| 0 <= k < i ==> (#[trigger] self.fields@[k]).name.code() != fourcc.code(),
    {
        let mut i: usize = 0;
        while i < self.fields.len()
            invariant
                i <= self.fields@.len(),
                forall|k: int| 0 <= k < i ==> (#[trigger] self.fields@[k]).name.code() != fourcc.code(),
            decreases self.fields@.len() - i,
        {
            if self.fields[i].matches(fourcc) {
                return Some(&self.fields[i]);
            }
            i = i + 1;
        }
        None
    }
}

} // verus!
