//! Big-endian integers and ISO-8859-1 text over raw bytes.

use vstd::prelude::*;

verus! {

/// Big-endian value of two bytes starting at `i`.
pub open spec fn be_u16_at(b: Seq<u8>, i: int) -> int {
    b[i] * 0x100 + b[i + 1]
}

/// Big-endian value of four bytes starting at `i`.
pub open spec fn be_u32_at(b: Seq<u8>, i: int) -> int {
    b[i] * 0x1000000 + b[i + 1] * 0x10000 + b[i + 2] * 0x100 + b[i + 3]
}

/// Big-endian value of eight bytes starting at `i`.
pub open spec fn be_u64_at(b: Seq<u8>, i: int) -> int {
    be_u32_at(b, i) * 0x1_0000_0000 + be_u32_at(b, i + 4)
}

/// Little-endian value of two bytes starting at `i`.
pub open spec fn le_u16_at(b: Seq<u8>, i: int) -> int {
    b[i + 1] * 0x100 + b[i]
}

/// Little-endian value of four bytes starting at `i`.
pub open spec fn le_u32_at(b: Seq<u8>, i: int) -> int {
    b[i + 3] * 0x1000000 + b[i + 2] * 0x10000 + b[i + 1] * 0x100 + b[i]
}

/// Little-endian value of eight bytes starting at `i`.
pub open spec fn le_u64_at(b: Seq<u8>, i: int) -> int {
    le_u32_at(b, i + 4) * 0x1_0000_0000 + le_u32_at(b, i)
}

/// The four big-endian bytes of a `u32`.
pub open spec fn u32_be_bytes(v: u32) -> Seq<u8> {
    seq![
        (v / 0x1000000) as u8,
        ((v / 0x10000) % 0x100) as u8,
        ((v / 0x100) % 0x100) as u8,
        (v % 0x100) as u8,
    ]
}

/// The two big-endian bytes of a `u16`.
pub open spec fn u16_be_bytes(v: u16) -> Seq<u8> {
    seq![(v / 0x100) as u8, (v % 0x100) as u8]
}

/// The eight big-endian bytes of a `u64`.
pub open spec fn u64_be_bytes(v: u64) -> Seq<u8> {
    u32_be_bytes((v / 0x1_0000_0000) as u32) + u32_be_bytes((v % 0x1_0000_0000) as u32)
}

/// Encoding a `u32` and reading it back gives the value; reading four bytes and
/// encoding the value gives the bytes.
pub proof fn lemma_be_u32_round_trip(b: Seq<u8>, i: int, v: u32)
    requires
        0 <= i,
        i + 4 <= b.len(),
    ensures
        be_u32_at(u32_be_bytes(v), 0) == v,
        be_u32_at(b, i) == v ==> u32_be_bytes(v) == b.subrange(i, i + 4),
{
    let s = u32_be_bytes(v);
    assert(be_u32_at(s, 0) == v) by (nonlinear_arith)
        requires
            s[0] == (v / 0x1000000) as u8,
            s[1] == ((v / 0x10000) % 0x100) as u8,
            s[2] == ((v / 0x100) % 0x100) as u8,
            s[3] == (v % 0x100) as u8,
            be_u32_at(s, 0) == s[0] * 0x1000000 + s[1] * 0x10000 + s[2] * 0x100 + s[3],
    ;
    if be_u32_at(b, i) == v {
        let (b0, b1, b2, b3) = (b[i], b[i + 1], b[i + 2], b[i + 3]);
        assert(v / 0x1000000 == b0 && (v / 0x10000) % 0x100 == b1 && (v / 0x100) % 0x100 == b2
            && v % 0x100 == b3) by (nonlinear_arith)
            requires
                v == b0 * 0x1000000 + b1 * 0x10000 + b2 * 0x100 + b3,
                0 <= b0 < 256,
                0 <= b1 < 256,
                0 <= b2 < 256,
                0 <= b3 < 256,
        ;
        assert(s =~= b.subrange(i, i + 4));
    }
}

/// The `u16` counterpart of [`lemma_be_u32_round_trip`].
pub proof fn lemma_be_u16_round_trip(b: Seq<u8>, i: int, v: u16)
    requires
        0 <= i,
        i + 2 <= b.len(),
    ensures
        be_u16_at(u16_be_bytes(v), 0) == v,
        be_u16_at(b, i) == v ==> u16_be_bytes(v) == b.subrange(i, i + 2),
{
    let s = u16_be_bytes(v);
    assert(be_u16_at(s, 0) == v);
    if be_u16_at(b, i) == v {
        assert(s =~= b.subrange(i, i + 2));
    }
}

/// The `u64` counterpart of [`lemma_be_u32_round_trip`].
pub proof fn lemma_be_u64_round_trip(b: Seq<u8>, i: int, v: u64)
    requires
        0 <= i,
        i + 8 <= b.len(),
    ensures
        be_u64_at(u64_be_bytes(v), 0) == v,
        be_u64_at(b, i) == v ==> u64_be_bytes(v) == b.subrange(i, i + 8),
{
    let hi = (v / 0x1_0000_0000) as u32;
    let lo = (v % 0x1_0000_0000) as u32;
    let s = u64_be_bytes(v);
    lemma_be_u32_round_trip(b, i, hi);
    lemma_be_u32_round_trip(b, i + 4, lo);
    assert(s.subrange(0, 4) =~= u32_be_bytes(hi));
    assert(s.subrange(4, 8) =~= u32_be_bytes(lo));
    assert(be_u32_at(s, 0) == be_u32_at(u32_be_bytes(hi), 0));
    assert(be_u32_at(s, 4) == be_u32_at(u32_be_bytes(lo), 0));
    if be_u64_at(b, i) == v {
        let h = be_u32_at(b, i);
        let l = be_u32_at(b, i + 4);
        assert(h == hi && l == lo) by (nonlinear_arith)
            requires
                v == h * 0x1_0000_0000 + l,
                0 <= l < 0x1_0000_0000,
                0 <= h,
                hi == v / 0x1_0000_0000,
                lo == v % 0x1_0000_0000,
        ;
        assert(b.subrange(i, i + 8) =~= b.subrange(i, i + 4) + b.subrange(i + 4, i + 8));
    }
}

/// Byte `b` read as an ISO-8859-1 code point.
pub open spec fn latin1_char(b: u8) -> char {
    b as char
}

/// Bytes read as ISO-8859-1 text, one character per byte.
pub open spec fn latin1(b: Seq<u8>) -> Seq<char> {
    b.map_values(|x: u8| latin1_char(x))
}

/// The bytes with every zero byte removed.
pub open spec fn drop_nul(b: Seq<u8>) -> Seq<u8>
    decreases b.len(),
{
    if b.len() == 0 {
        b
    } else if b.last() == 0 {
        drop_nul(b.drop_last())
    } else {
        drop_nul(b.drop_last()).push(b.last())
    }
}

/// Whitespace within ISO-8859-1: tab, line feed, vertical tab, form feed,
/// carriage return, space, next line and no-break space.
pub open spec fn is_latin1_space(b: u8) -> bool {
    (9 <= b && b <= 13) || b == 0x20 || b == 0x85 || b == 0xA0
}

/// Number of leading whitespace bytes.
pub open spec fn leading_space(b: Seq<u8>) -> nat
    decreases b.len(),
{
    if b.len() > 0 && is_latin1_space(b[0]) {
        1 + leading_space(b.subrange(1, b.len() as int))
    } else {
        0
    }
}

/// Number of trailing whitespace bytes.
pub open spec fn trailing_space(b: Seq<u8>) -> nat
    decreases b.len(),
{
    if b.len() > 0 && is_latin1_space(b.last()) {
        1 + trailing_space(b.drop_last())
    } else {
        0
    }
}

/// The bytes with leading and trailing whitespace removed.
pub open spec fn trim(b: Seq<u8>) -> Seq<u8> {
    let s = b.subrange(leading_space(b) as int, b.len() as int);
    s.subrange(0, s.len() - trailing_space(s))
}

/// Relies on `String::push`: appends one character at the end.
#[verifier::external_body]
fn push_char(s: &mut String, c: char)
    ensures
        final(s)@ == old(s)@.push(c),
{
    s.push(c)
}

/// ISO-8859-1 text of the bytes `b[from..to]`.
pub fn latin1_string_range(b: &[u8], from: usize, to: usize) -> (r: String)
    requires
        from <= to <= b@.len(),
    ensures
        r@ == latin1(b@.subrange(from as int, to as int)),
{
    let mut s = String::new();
    let mut i = from;
    while i < to
        invariant
            from <= i <= to <= b@.len(),
            s@ == latin1(b@.subrange(from as int, i as int)),
        decreases to - i,
    {
        push_char(&mut s, b[i] as char);
        proof {
            assert(b@.subrange(from as int, i + 1) =~= b@.subrange(from as int, i as int).push(b@[i as int]));
        }
        i = i + 1;
    }
    proof {
        assert(latin1(b@.subrange(from as int, i as int)) =~= latin1(b@.subrange(from as int, to as int)));
    }
    s
}

/// ISO-8859-1 text of all the bytes.
pub fn latin1_string(b: &[u8]) -> (r: String)
    ensures
        r@ == latin1(b@),
{
    let r = latin1_string_range(b, 0, b.len());
    proof {
        assert(b@.subrange(0, b@.len() as int) =~= b@);
    }
    r
}

/// Removes every zero byte.
pub fn remove_nul(b: &[u8]) -> (r: Vec<u8>)
    ensures
        r@ == drop_nul(b@),
{
    let mut r: Vec<u8> = Vec::new();
    let mut i: usize = 0;
    while i < b.len()
        invariant
            i <= b@.len(),
            r@ == drop_nul(b@.subrange(0, i as int)),
        decreases b@.len() - i,
    {
        let ghost prev = b@.subrange(0, i as int);
        proof {
            let next = b@.subrange(0, i + 1);
            assert(next.drop_last() =~= prev);
            assert(next.last() == b@[i as int]);
        }
        if b[i] != 0 {
            r.push(b[i]);
        }
        i = i + 1;
    }
    proof {
        assert(b@.subrange(0, i as int) =~= b@);
    }
    r
}

/// Removes leading and trailing whitespace.
pub fn trim_space(b: &[u8]) -> (r: Vec<u8>)
    ensures
        r@ == trim(b@),
{
    let mut start: usize = 0;
    proof {
        assert(b@.subrange(0, b@.len() as int) =~= b@);
    }
    while start < b.len() && (9 <= b[start] && b[start] <= 13 || b[start] == 0x20 || b[start] == 0x85
        || b[start] == 0xA0)
        invariant
            start <= b@.len(),
            leading_space(b@) == start + leading_space(b@.subrange(start as int, b@.len() as int)),
        decreases b@.len() - start,
    {
        proof {
            let rest = b@.subrange(start as int, b@.len() as int);
            assert(rest.subrange(1, rest.len() as int) =~= b@.subrange(start + 1, b@.len() as int));
        }
        start = start + 1;
    }
    proof {
        let rest = b@.subrange(start as int, b@.len() as int);
        assert(leading_space(rest) == 0);
    }
    let ghost s = b@.subrange(start as int, b@.len() as int);
    let mut end: usize = b.len();
    while end > start && (9 <= b[end - 1] && b[end - 1] <= 13 || b[end - 1] == 0x20 || b[end - 1]
        == 0x85 || b[end - 1] == 0xA0)
        invariant
            start <= end <= b@.len(),
            s == b@.subrange(start as int, b@.len() as int),
            trailing_space(s) == (b@.len() - end) + trailing_space(b@.subrange(start as int, end as int)),
        decreases end - start,
    {
        proof {
            let cur = b@.subrange(start as int, end as int);
            assert(cur.drop_last() =~= b@.subrange(start as int, end - 1));
        }
        end = end - 1;
    }
    proof {
        assert(trailing_space(b@.subrange(start as int, end as int)) == 0);
        assert(s.subrange(0, s.len() - trailing_space(s)) =~= b@.subrange(start as int, end as int));
    }
    let mut r: Vec<u8> = Vec::new();
    let mut i = start;
    while i < end
        invariant
            start <= i <= end <= b@.len(),
            r@ == b@.subrange(start as int, i as int),
        decreases end - i,
    {
        r.push(b[i]);
        proof {
            assert(b@.subrange(start as int, i + 1) =~= b@.subrange(start as int, i as int).push(b@[i as int]));
        }
        i = i + 1;
    }
    r
}

} // verus!

verus! {

/// Big-endian encoding of a sequence of `u32` words, one after the other.
pub open spec fn be_words(w: Seq<u32>) -> Seq<u8>
    decreases w.len(),
{
    if w.len() == 0 {
        Seq::empty()
    } else {
        be_words(w.drop_last()) + u32_be_bytes(w.last())
    }
}

/// Big-endian encoding of a sequence of `u64` words, one after the other.
pub open spec fn be_words64(w: Seq<u64>) -> Seq<u8>
    decreases w.len(),
{
    if w.len() == 0 {
        Seq::empty()
    } else {
        be_words64(w.drop_last()) + u64_be_bytes(w.last())
    }
}

/// Big-endian encoding of a sequence of `u16` words, one after the other.
pub open spec fn be_words16(w: Seq<u16>) -> Seq<u8>
    decreases w.len(),
{
    if w.len() == 0 {
        Seq::empty()
    } else {
        be_words16(w.drop_last()) + u16_be_bytes(w.last())
    }
}

/// The `u16` counterpart of [`lemma_be_words`].
pub proof fn lemma_be_words16(b: Seq<u8>, off: int, w: Seq<u16>)
    requires
        0 <= off,
        off + 2 * w.len() <= b.len(),
        forall|j: int| 0 <= j < w.len() ==> #[trigger] w[j] == be_u16_at(b, off + 2 * j),
    ensures
        be_words16(w) == b.subrange(off, off + 2 * w.len()),
    decreases w.len(),
{
    if w.len() > 0 {
        let k = w.len() - 1;
        lemma_be_words16(b, off, w.drop_last());
        assert(w[k] == be_u16_at(b, off + 2 * k));
        lemma_be_u16_round_trip(b, off + 2 * k, w[k]);
        assert(b.subrange(off, off + 2 * w.len()) =~= b.subrange(off, off + 2 * k) + b.subrange(
            off + 2 * k,
            off + 2 * k + 2,
        ));
    }
}

/// Words read one after the other from `b` at `off` encode back to exactly
/// those bytes.
pub proof fn lemma_be_words(b: Seq<u8>, off: int, w: Seq<u32>)
    requires
        0 <= off,
        off + 4 * w.len() <= b.len(),
        forall|j: int| 0 <= j < w.len() ==> #[trigger] w[j] == be_u32_at(b, off + 4 * j),
    ensures
        be_words(w) == b.subrange(off, off + 4 * w.len()),
    decreases w.len(),
{
    if w.len() > 0 {
        let k = w.len() - 1;
        lemma_be_words(b, off, w.drop_last());
        assert(w[k] == be_u32_at(b, off + 4 * k));
        lemma_be_u32_round_trip(b, off + 4 * k, w[k]);
        assert(b.subrange(off, off + 4 * w.len()) =~= b.subrange(off, off + 4 * k) + b.subrange(
            off + 4 * k,
            off + 4 * k + 4,
        ));
    }
}

/// The `u64` counterpart of [`lemma_be_words`].
pub proof fn lemma_be_words64(b: Seq<u8>, off: int, w: Seq<u64>)
    requires
        0 <= off,
        off + 8 * w.len() <= b.len(),
        forall|j: int| 0 <= j < w.len() ==> #[trigger] w[j] == be_u64_at(b, off + 8 * j),
    ensures
        be_words64(w) == b.subrange(off, off + 8 * w.len()),
    decreases w.len(),
{
    if w.len() > 0 {
        let k = w.len() - 1;
        lemma_be_words64(b, off, w.drop_last());
        assert(w[k] == be_u64_at(b, off + 8 * k));
        lemma_be_u64_round_trip(b, off + 8 * k, w[k]);
        assert(b.subrange(off, off + 8 * w.len()) =~= b.subrange(off, off + 8 * k) + b.subrange(
            off + 8 * k,
            off + 8 * k + 8,
        ));
    }
}

/// Byte at index `i`.
pub fn u8_at(b: &[u8], i: usize) -> (r: u8)
    requires
        i < b@.len(),
    ensures
        r == b@[i as int],
{
    b[i]
}

/// Big-endian `u16` at index `i`.
pub fn u16_at(b: &[u8], i: usize) -> (r: u16)
    requires
        i + 2 <= b@.len(),
    ensures
        r == be_u16_at(b@, i as int),
{
    (b[i] as u16) * 0x100 + (b[i + 1] as u16)
}

/// Big-endian `u32` at index `i`.
pub fn u32_at(b: &[u8], i: usize) -> (r: u32)
    requires
        i + 4 <= b@.len(),
    ensures
        r == be_u32_at(b@, i as int),
{
    (b[i] as u32) * 0x1000000 + (b[i + 1] as u32) * 0x10000 + (b[i + 2] as u32) * 0x100 + (b[i
        + 3] as u32)
}

/// Big-endian `u64` at index `i`.
pub fn u64_at(b: &[u8], i: usize) -> (r: u64)
    requires
        i + 8 <= b@.len(),
    ensures
        r == be_u64_at(b@, i as int),
{
    let _len = b.len();
    let hi = u32_at(b, i) as u64;
    let lo = u32_at(b, i + 4) as u64;
    hi * 0x1_0000_0000 + lo
}

/// The four bytes at index `i`.
pub fn array4_at(b: &[u8], i: usize) -> (r: [u8; 4])
    requires
        i + 4 <= b@.len(),
    ensures
        r@ == b@.subrange(i as int, i + 4),
{
    let r = [b[i], b[i + 1], b[i + 2], b[i + 3]];
    proof {
        assert(r@ =~= b@.subrange(i as int, i + 4));
    }
    r
}

/// The three bytes at index `i`.
pub fn array3_at(b: &[u8], i: usize) -> (r: [u8; 3])
    requires
        i + 3 <= b@.len(),
    ensures
        r@ == b@.subrange(i as int, i + 3),
{
    let r = [b[i], b[i + 1], b[i + 2]];
    proof {
        assert(r@ =~= b@.subrange(i as int, i + 3));
    }
    r
}

/// A copy of the bytes `b[from..to]`.
pub fn copy_range(b: &[u8], from: usize, to: usize) -> (r: Vec<u8>)
    requires
        from <= to <= b@.len(),
    ensures
        r@ == b@.subrange(from as int, to as int),
{
    let mut r: Vec<u8> = Vec::new();
    let mut i = from;
    while i < to
        invariant
            from <= i <= to <= b@.len(),
            r@ == b@.subrange(from as int, i as int),
        decreases to - i,
    {
        r.push(b[i]);
        proof {
            assert(b@.subrange(from as int, i + 1) =~= b@.subrange(from as int, i as int).push(b@[i as int]));
        }
        i = i + 1;
    }
    r
}

/// Each of four bytes as an ISO-8859-1 character.
pub fn chars_from_bytes(bytes: [u8; 4]) -> (r: [char; 4])
    ensures
        r@ == latin1(bytes@),
{
    let r = [bytes[0] as char, bytes[1] as char, bytes[2] as char, bytes[3] as char];
    proof {
        assert(r@ =~= latin1(bytes@));
    }
    r
}

/// Each byte of a big-endian `u32` as an ISO-8859-1 character.
pub fn chars_from_be_u32(value: u32) -> (r: [char; 4])
    ensures
        r@ == latin1(u32_be_bytes(value)),
{
    let b: [u8; 4] = [
        (value / 0x1000000) as u8,
        ((value / 0x10000) % 0x100) as u8,
        ((value / 0x100) % 0x100) as u8,
        (value % 0x100) as u8,
    ];
    proof {
        assert(b@ =~= u32_be_bytes(value));
    }
    chars_from_bytes(b)
}

/// Four bytes as ISO-8859-1 text.
pub fn string_from_bytes(bytes: [u8; 4]) -> (r: String)
    ensures
        r@ == latin1(bytes@),
{
    latin1_string(&bytes)
}

/// The bytes of a big-endian `u32` as ISO-8859-1 text, without its zero
/// bytes when `ignore_null` is set.
pub fn string_from_be_u32(value: u32, ignore_null: bool) -> (r: String)
    ensures
        r@ == if ignore_null {
            latin1(drop_nul(u32_be_bytes(value)))
        } else {
            latin1(u32_be_bytes(value))
        },
{
    let b: [u8; 4] = [
        (value / 0x1000000) as u8,
        ((value / 0x10000) % 0x100) as u8,
        ((value / 0x100) % 0x100) as u8,
        (value % 0x100) as u8,
    ];
    proof {
        assert(b@ =~= u32_be_bytes(value));
    }
    if ignore_null {
        latin1_string(&remove_nul(&b))
    } else {
        latin1_string(&b)
    }
}

} // verus!
