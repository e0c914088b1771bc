//! A positioned byte stream over an in-memory buffer.
//!
//! Positions are absolute file offsets: the buffer holds the bytes of the
//! file from offset `base` on. The stream over a whole file has `base == 0`;
//! the stream over a preloaded `moov` payload has `base` at that payload.

use vstd::prelude::*;

use crate::bytes::{be_u16_at, be_u32_at, be_u64_at, latin1, latin1_string, le_u16_at, le_u32_at, le_u64_at};
use crate::error::Mp4Error;

verus! {

/// Where a seek counts from.
#[derive(Debug, Clone, Copy, PartialEq, Eq)]
pub enum SeekFrom {
    /// An absolute file offset.
    Start(u64),
    /// Relative to the current position.
    Current(i64),
    /// Relative to the end of the stream.
    End(i64),
}

/// Byte order of a multi-byte integer.
#[derive(Debug, Clone, Copy, PartialEq, Eq)]
pub enum Endian {
    Big,
    Little,
}

/// Value of the `n`-byte integer (2, 4 or 8 bytes) at index `i` in byte order `e`.
pub open spec fn int_at(b: Seq<u8>, i: int, n: int, e: Endian) -> int {
    match e {
        Endian::Big => if n == 2 {
            be_u16_at(b, i)
        } else if n == 4 {
            be_u32_at(b, i)
        } else {
            be_u64_at(b, i)
        },
        Endian::Little => if n == 2 {
            le_u16_at(b, i)
        } else if n == 4 {
            le_u32_at(b, i)
        } else {
            le_u64_at(b, i)
        },
    }
}

/// How many bytes `read_bytes` takes.
#[derive(Debug, Clone, Copy, PartialEq, Eq)]
pub enum ReadOption {
    /// Exactly this many bytes.
    Sized(usize),
    /// Up to and including the first sentinel byte, or to the end.
    Until(u8),
    /// One count byte, then that many bytes (the count byte is not returned).
    Counted,
}

/// Positioned byte stream over a buffer that starts at file offset `base`.
#[derive(Debug, Clone)]
pub struct ByteStream {
    data: Vec<u8>,
    base: u64,
    pos: u64,
}

/// Whether `n` bytes can be read at position `pos` of a buffer starting at `base`.
pub open spec fn can_read(data: Seq<u8>, base: int, pos: int, n: int) -> bool {
    base <= pos && pos + n <= base + data.len()
}

/// Number of bytes up to and including the first `sentinel` at or after
/// index `i`, or up to the end when there is none.
pub open spec fn until_len(d: Seq<u8>, i: int, sentinel: u8) -> int
    decreases d.len() - i,
{
    if i >= d.len() {
        0
    } else if d[i] == sentinel {
        1
    } else {
        1 + until_len(d, i + 1, sentinel)
    }
}

impl ByteStream {
    /// The buffered bytes.
    pub closed spec fn data(&self) -> Seq<u8> {
        self.data@
    }

    /// File offset of the first buffered byte.
    pub closed spec fn base(&self) -> int {
        self.base as int
    }

    /// Current position, as a file offset.
    pub closed spec fn position(&self) -> int {
        self.pos as int
    }

    /// File offset just past the last buffered byte.
    pub open spec fn end(&self) -> int {
        self.base() + self.data().len()
    }

    /// Buffer offsets fit in `u64`.
    pub open spec fn wf(&self) -> bool {
        0 <= self.base() && self.end() <= u64::MAX && self.base() <= self.position() <= u64::MAX && self.data().len()
            <= usize::MAX
    }

    /// Index into the buffer of the current position.
    pub open spec fn index(&self) -> int {
        self.position() - self.base()
    }

    /// Same bytes and base; only the position may differ.
    pub open spec fn same_buffer(&self, other: &ByteStream) -> bool {
        self.data() == other.data() && self.base() == other.base()
    }

    /// Stream over `data`, whose first byte is at file offset `base`,
    /// positioned at `base`.
    pub fn new(data: Vec<u8>, base: u64) -> (r: ByteStream)
        requires
            base + data@.len() <= u64::MAX,
        ensures
            r.data() == data@,
            r.base() == base,
            r.position() == base,
            r.wf(),
    {
        let _len = data.len();
        ByteStream { data, base, pos: base }
    }

    /// The buffered bytes.
    pub fn bytes(&self) -> (r: &Vec<u8>)
        ensures
            r@ == self.data(),
    {
        &self.data
    }

    /// Current position.
    pub fn pos(&self) -> (r: u64)
        ensures
            r == self.position(),
    {
        self.pos
    }

    /// Number of buffered bytes.
    pub fn len(&self) -> (r: u64)
        requires
            self.wf(),
        ensures
            r == self.data().len(),
    {
        self.data.len() as u64
    }

    /// File offset of the first buffered byte.
    pub fn start(&self) -> (r: u64)
        ensures
            r == self.base(),
    {
        self.base
    }

    /// File offset just past the last buffered byte.
    pub fn upper(&self) -> (r: u64)
        requires
            self.wf(),
        ensures
            r == self.end(),
    {
        self.base + self.data.len() as u64
    }

    /// Bytes left between the position and `max` (or the end of the stream
    /// when no bound is given); zero when the position is past it.
    pub fn remaining_in(&self, bounds: Option<(u64, u64)>) -> (r: u64)
        requires
            self.wf(),
        ensures
            bounds is Some ==> r == if bounds.unwrap().1 >= self.position() {
                bounds.unwrap().1 - self.position()
            } else {
                0
            },
            bounds is None ==> r == if self.end() >= self.position() {
                self.end() - self.position()
            } else {
                0
            },
    {
        let max = match bounds {
            Some((_, max)) => max,
            None => self.upper(),
        };
        if max >= self.pos {
            max - self.pos
        } else {
            0
        }
    }

    /// Moves the position; returns the new position. Fails with
    /// `NumericOverflow` when the target does not fit in `u64` and with
    /// `BoundsError` when it lies before the buffer's first byte.
    /// Positions past the end are allowed; reading there fails.
    pub fn seek(&mut self, from: SeekFrom) -> (r: Result<u64, Mp4Error>)
        requires
            old(self).wf(),
        ensures
            final(self).same_buffer(old(self)),
            final(self).wf(),
            ({
                let target: int = match from {
                    SeekFrom::Start(a) => a as int,
                    SeekFrom::Current(d) => old(self).position() + d,
                    SeekFrom::End(d) => old(self).end() + d,
                };
                match r {
                    Ok(p) => p == target && final(self).position() == target,
                    Err(e) => final(self).position() == old(self).position() && (
                        (target < 0 || target > u64::MAX) && e is NumericOverflow
                        || (0 <= target <= u64::MAX && target < old(self).base()) && e is BoundsError
                    ),
                }
            }),
    {
        let end = self.upper();
        let (anchor, delta): (u64, i64) = match from {
            SeekFrom::Start(a) => (a, 0),
            SeekFrom::Current(d) => (self.pos, d),
            SeekFrom::End(d) => (end, d),
        };
        let target: u64 = if delta >= 0 {
            let d = delta as u64;
            if anchor > u64::MAX - d {
                return Err(Mp4Error::NumericOverflow);
            }
            anchor + d
        } else {
            if delta == i64::MIN {
                if anchor < 0x8000_0000_0000_0000u64 {
                    return Err(Mp4Error::NumericOverflow);
                }
                anchor - 0x8000_0000_0000_0000u64
            } else {
                let d = (-delta) as u64;
                if anchor < d {
                    return Err(Mp4Error::NumericOverflow);
                }
                anchor - d
            }
        };
        if target < self.base {
            return Err(Mp4Error::BoundsError(target, self.base, end));
        }
        self.pos = target;
        Ok(target)
    }

    /// Moves to the buffer's first byte.
    pub fn reset(&mut self) -> (r: u64)
        requires
            old(self).wf(),
        ensures
            final(self).same_buffer(old(self)),
            final(self).wf(),
            final(self).position() == old(self).base(),
            r == old(self).base(),
    {
        self.pos = self.base;
        self.base
    }

    /// Fails unless `n` bytes can be read at the position.
    fn check_read(&self, n: u64) -> (r: Result<(), Mp4Error>)
        requires
            self.wf(),
        ensures
            r is Ok <==> can_read(self.data(), self.base(), self.position(), n as int),
            r is Err ==> r->Err_0 is ReadMismatch,
    {
        let end = self.upper();
        if self.pos > end {
            return Err(Mp4Error::ReadMismatch { got: 0, expected: n });
        }
        let avail = end - self.pos;
        if avail < n {
            return Err(Mp4Error::ReadMismatch { got: avail, expected: n });
        }
        Ok(())
    }

    /// Reads one byte.
    pub fn read_u8(&mut self) -> (r: Result<u8, Mp4Error>)
        requires
            old(self).wf(),
        ensures
            final(self).same_buffer(old(self)),
            final(self).wf(),
            r is Ok <==> can_read(old(self).data(), old(self).base(), old(self).position(), 1),
            r is Ok ==> r->Ok_0 == old(self).data()[old(self).index()] && final(self).position()
                == old(self).position() + 1,
            r is Err ==> r->Err_0 is ReadMismatch && final(self).position() == old(self).position(),
    {
        self.check_read(1)?;
        let i = (self.pos - self.base) as usize;
        let v = self.data[i];
        self.pos = self.pos + 1;
        Ok(v)
    }

    /// Reads a big-endian `u16`.
    pub fn read_u16(&mut self) -> (r: Result<u16, Mp4Error>)
        requires
            old(self).wf(),
        ensures
            final(self).same_buffer(old(self)),
            final(self).wf(),
            r is Ok <==> can_read(old(self).data(), old(self).base(), old(self).position(), 2),
            r is Ok ==> r->Ok_0 == be_u16_at(old(self).data(), old(self).index())
                && final(self).position() == old(self).position() + 2,
            r is Err ==> r->Err_0 is ReadMismatch && final(self).position() == old(self).position(),
    {
        self.check_read(2)?;
        let i = (self.pos - self.base) as usize;
        let v = (self.data[i] as u16) * 0x100 + (self.data[i + 1] as u16);
        self.pos = self.pos + 2;
        Ok(v)
    }

    /// Reads a big-endian `u32`.
    pub fn read_u32(&mut self) -> (r: Result<u32, Mp4Error>)
        requires
            old(self).wf(),
        ensures
            final(self).same_buffer(old(self)),
            final(self).wf(),
            r is Ok <==> can_read(old(self).data(), old(self).base(), old(self).position(), 4),
            r is Ok ==> r->Ok_0 == be_u32_at(old(self).data(), old(self).index())
                && final(self).position() == old(self).position() + 4,
            r is Err ==> r->Err_0 is ReadMismatch && final(self).position() == old(self).position(),
    {
        self.check_read(4)?;
        let i = (self.pos - self.base) as usize;
        let v = (self.data[i] as u32) * 0x1000000 + (self.data[i + 1] as u32) * 0x10000
            + (self.data[i + 2] as u32) * 0x100 + (self.data[i + 3] as u32);
        self.pos = self.pos + 4;
        Ok(v)
    }

    /// Reads a big-endian `u64`.
    pub fn read_u64(&mut self) -> (r: Result<u64, Mp4Error>)
        requires
            old(self).wf(),
        ensures
            final(self).same_buffer(old(self)),
            final(self).wf(),
            r is Ok <==> can_read(old(self).data(), old(self).base(), old(self).position(), 8),
            r is Ok ==> r->Ok_0 == be_u64_at(old(self).data(), old(self).index())
                && final(self).position() == old(self).position() + 8,
            r is Err ==> r->Err_0 is ReadMismatch && final(self).position() == old(self).position(),
    {
        self.check_read(8)?;
        let i = (self.pos - self.base) as usize;
        let hi = (self.data[i] as u64) * 0x1000000 + (self.data[i + 1] as u64) * 0x10000
            + (self.data[i + 2] as u64) * 0x100 + (self.data[i + 3] as u64);
        let lo = (self.data[i + 4] as u64) * 0x1000000 + (self.data[i + 5] as u64) * 0x10000
            + (self.data[i + 6] as u64) * 0x100 + (self.data[i + 7] as u64);
        self.pos = self.pos + 8;
        Ok(hi * 0x1_0000_0000 + lo)
    }

    /// Reads a `u16` in byte order `endian`.
    pub fn read_u16_in(&mut self, endian: Endian) -> (r: Result<u16, Mp4Error>)
        requires
            old(self).wf(),
        ensures
            final(self).same_buffer(old(self)),
            final(self).wf(),
            r is Ok <==> can_read(old(self).data(), old(self).base(), old(self).position(), 2),
            r is Ok ==> r->Ok_0 == int_at(old(self).data(), old(self).index(), 2, endian)
                && final(self).position() == old(self).position() + 2,
            r is Err ==> r->Err_0 is ReadMismatch && final(self).position() == old(self).position(),
    {
        let v = self.read_u16()?;
        match endian {
            Endian::Big => Ok(v),
            Endian::Little => Ok((v % 0x100) * 0x100 + v / 0x100),
        }
    }

    /// Reads a `u32` in byte order `endian`.
    pub fn read_u32_in(&mut self, endian: Endian) -> (r: Result<u32, Mp4Error>)
        requires
            old(self).wf(),
        ensures
            final(self).same_buffer(old(self)),
            final(self).wf(),
            r is Ok <==> can_read(old(self).data(), old(self).base(), old(self).position(), 4),
            r is Ok ==> r->Ok_0 == int_at(old(self).data(), old(self).index(), 4, endian)
                && final(self).position() == old(self).position() + 4,
            r is Err ==> r->Err_0 is ReadMismatch && final(self).position() == old(self).position(),
    {
        match endian {
            Endian::Big => self.read_u32(),
            Endian::Little => {
                self.check_read(4)?;
                let i = (self.pos - self.base) as usize;
                let v = (self.data[i + 3] as u32) * 0x1000000 + (self.data[i + 2] as u32) * 0x10000
                    + (self.data[i + 1] as u32) * 0x100 + (self.data[i] as u32);
                self.pos = self.pos + 4;
                Ok(v)
            },
        }
    }

    /// Reads a `u64` in byte order `endian`.
    pub fn read_u64_in(&mut self, endian: Endian) -> (r: Result<u64, Mp4Error>)
        requires
            old(self).wf(),
        ensures
            final(self).same_buffer(old(self)),
            final(self).wf(),
            r is Ok <==> can_read(old(self).data(), old(self).base(), old(self).position(), 8),
            r is Ok ==> r->Ok_0 == int_at(old(self).data(), old(self).index(), 8, endian)
                && final(self).position() == old(self).position() + 8,
            r is Err ==> r->Err_0 is ReadMismatch && final(self).position() == old(self).position(),
    {
        match endian {
            Endian::Big => self.read_u64(),
            Endian::Little => {
                self.check_read(8)?;
                let start = self.pos;
                let lo = self.read_u32_in(Endian::Little)?;
                let hi = self.read_u32_in(Endian::Little)?;
                proof {
                    assert(start + 8 == self.position());
                }
                Ok((hi as u64) * 0x1_0000_0000 + lo as u64)
            },
        }
    }

    /// Reads `n` consecutive `u32` values in byte order `endian`. Fails with
    /// `ReadMismatch`, leaving the position unchanged, when fewer than `4 * n`
    /// bytes remain.
    pub fn read_many_u32(&mut self, n: usize, endian: Endian) -> (r: Result<Vec<u32>, Mp4Error>)
        requires
            old(self).wf(),
        ensures
            final(self).same_buffer(old(self)),
            final(self).wf(),
            r is Ok <==> can_read(old(self).data(), old(self).base(), old(self).position(), 4 * n),
            r is Ok ==> r->Ok_0@.len() == n && final(self).position() == old(self).position() + 4 * n
                && forall|k: int| 0 <= k < n ==> #[trigger] r->Ok_0@[k] == int_at(old(self).data(), old(self).index() + 4 * k, 4, endian),
            r is Err ==> r->Err_0 is ReadMismatch && final(self).position() == old(self).position(),
    {
        if n as u64 > u64::MAX / 4 {
            return Err(Mp4Error::ReadMismatch { got: 0, expected: u64::MAX });
        }
        self.check_read(4 * n as u64)?;
        let ghost start = self.position();
        let mut out: Vec<u32> = Vec::new();
        let mut k: usize = 0;
        while k < n
            invariant
                self.wf(),
                self.same_buffer(old(self)),
                start == old(self).position(),
                can_read(self.data(), self.base(), start, 4 * n),
                k <= n,
                self.position() == start + 4 * k,
                out@.len() == k,
                forall|j: int| 0 <= j < k ==> #[trigger] out@[j] == int_at(self.data(), start - self.base() + 4 * j, 4, endian),
            decreases n - k,
        {
            let v = match self.read_u32_in(endian) {
                Ok(v) => v,
                Err(e) => {
                    return Err(e);
                },
            };
            out.push(v);
            k = k + 1;
        }
        Ok(out)
    }

    /// Copies `n` bytes from the position on.
    fn take(&mut self, n: usize) -> (r: Result<Vec<u8>, Mp4Error>)
        requires
            old(self).wf(),
        ensures
            final(self).same_buffer(old(self)),
            final(self).wf(),
            r is Ok <==> can_read(old(self).data(), old(self).base(), old(self).position(), n as int),
            r is Ok ==> r->Ok_0@ == old(self).data().subrange(old(self).index(), old(self).index() + n)
                && final(self).position() == old(self).position() + n,
            r is Err ==> r->Err_0 is ReadMismatch && final(self).position() == old(self).position(),
    {
        self.check_read(n as u64)?;
        let start = (self.pos - self.base) as usize;
        let mut out: Vec<u8> = Vec::with_capacity(n);
        let mut i: usize = 0;
        while i < n
            invariant
                self.wf(),
                can_read(self.data(), self.base(), self.position(), n as int),
                start == self.index(),
                i <= n,
                out@ == self.data().subrange(start as int, start + i),
            decreases n - i,
        {
            out.push(self.data[start + i]);
            proof {
                assert(self.data().subrange(start as int, start + i + 1) =~= self.data().subrange(
                    start as int,
                    start + i,
                ).push(self.data()[start + i]));
            }
            i = i + 1;
        }
        self.pos = self.pos + n as u64;
        Ok(out)
    }

    /// Reads bytes as `option` says: `Sized(n)` takes exactly `n` bytes,
    /// `Until(s)` takes bytes up to and including the first `s` (or up to the
    /// end), `Counted` reads a count byte and then that many bytes.
    pub fn read_bytes(&mut self, option: ReadOption) -> (r: Result<Vec<u8>, Mp4Error>)
        requires
            old(self).wf(),
        ensures
            final(self).same_buffer(old(self)),
            final(self).wf(),
            ({
                let d = old(self).data();
                let b = old(self).base();
                let p = old(self).position();
                let i = old(self).index();
                match option {
                    ReadOption::Sized(n) => (r is Ok <==> can_read(d, b, p, n as int)) && (r is Ok ==> r->Ok_0@
                        == d.subrange(i, i + n) && final(self).position() == p + n),
                    ReadOption::Until(s) => (r is Ok <==> can_read(d, b, p, 0)) && (r is Ok ==> r->Ok_0@
                        == d.subrange(i, i + until_len(d, i, s)) && final(self).position() == p
                        + until_len(d, i, s)),
                    ReadOption::Counted => (r is Ok <==> (can_read(d, b, p, 1) && can_read(
                        d,
                        b,
                        p,
                        1 + d[i],
                    ))) && (r is Ok ==> r->Ok_0@ == d.subrange(i + 1, i + 1 + d[i])
                        && final(self).position() == p + 1 + d[i]),
                }
            }),
            r is Err ==> r->Err_0 is ReadMismatch,
    {
        match option {
            ReadOption::Sized(n) => self.take(n),
            ReadOption::Until(s) => {
                self.check_read(0)?;
                let start = (self.pos - self.base) as usize;
                let len = self.data.len();
                let mut i = start;
                while i < len && self.data[i] != s
                    invariant
                        self.wf(),
                        start == self.index(),
                        start <= i <= len == self.data().len(),
                        until_len(self.data(), start as int, s) == (i - start) + until_len(
                            self.data(),
                            i as int,
                            s,
                        ),
                    decreases len - i,
                {
                    i = i + 1;
                }
                let n = if i < len {
                    i - start + 1
                } else {
                    i - start
                };
                self.take(n)
            },
            ReadOption::Counted => {
                let start = self.pos;
                let c = self.read_u8()?;
                let r = self.take(c as usize);
                if r.is_err() {
                    self.pos = start;
                }
                r
            },
        }
    }

    /// Reads bytes as [`read_bytes`](Self::read_bytes) does and returns them
    /// as ISO-8859-1 text, one character per byte.
    pub fn read_iso8859_1(&mut self, option: ReadOption) -> (r: Result<String, Mp4Error>)
        requires
            old(self).wf(),
        ensures
            final(self).same_buffer(old(self)),
            final(self).wf(),
            r is Err ==> r->Err_0 is ReadMismatch,
            ({
                let d = old(self).data();
                let i = old(self).index();
                match option {
                    ReadOption::Sized(n) => r is Ok ==> r->Ok_0@ == latin1(d.subrange(i, i + n)),
                    ReadOption::Until(s) => r is Ok ==> r->Ok_0@ == latin1(
                        d.subrange(i, i + until_len(d, i, s)),
                    ),
                    ReadOption::Counted => r is Ok ==> r->Ok_0@ == latin1(d.subrange(i + 1, i + 1 + d[i])),
                }
            }),
    {
        let b = self.read_bytes(option)?;
        Ok(latin1_string(&b))
    }

    /// Fails with `BoundsError(pos, min, max)` unless `min <= pos <= max`.
    pub fn bounds_check(&self, bounds: Option<(u64, u64)>) -> (r: Result<(), Mp4Error>)
        ensures
            match bounds {
                Some((min, max)) => (r is Ok <==> min <= self.position() <= max) && (r is Err ==> r
                    == Err::<(), Mp4Error>(Mp4Error::BoundsError(self.position() as u64, min, max))),
                None => r is Ok,
            },
    {
        if let Some((min, max)) = bounds {
            if self.pos < min || self.pos > max {
                return Err(Mp4Error::BoundsError(self.pos, min, max));
            }
        }
        Ok(())
    }
}

} // verus!
