//! Walking atoms in a stream: sibling iteration, first-match search,
//! sentinel-bounded search, and the innermost atom around a position.
//!
//! A walk reads a header, then moves by its `next` bytes: into a container's
//! payload, past a leaf. Every step moves at least 8 bytes forward.

use vstd::prelude::*;

use crate::error::Mp4Error;
use crate::fourcc::FourCC;
use crate::header::{header_at, lemma_header_at_wf, AtomHeader};
use crate::stream::{ByteStream, SeekFrom};

verus! {

/// Distance from `pos` to the end of the buffer, zero when past it.
pub open spec fn dist(d: Seq<u8>, base: int, pos: int) -> nat {
    if pos < base + d.len() {
        (base + d.len() - pos) as nat
    } else {
        0
    }
}

/// Outcome of a search walk from `pos`: `None` when a header cannot be
/// read, `Some(None)` when the end or the sentinel comes first, and
/// `Some(Some(h))` for the first header named `target`.
pub open spec fn find_from(
    d: Seq<u8>,
    base: int,
    pos: int,
    target: FourCC,
    sentinel: Option<FourCC>,
) -> Option<Option<AtomHeader>>
    decreases dist(d, base, pos),
{
    if pos >= base + d.len() {
        Some(None)
    } else {
        match header_at(d, base, pos) {
            None => None,
            Some(h) => if sentinel is Some && sentinel.unwrap().code() == h.name.code() {
                Some(None)
            } else if h.name.code() == target.code() {
                Some(Some(h))
            } else if h.spec_next_pos() > pos {
                find_from(d, base, h.spec_next_pos(), target, sentinel)
            } else {
                None
            },
        }
    }
}

/// Headers met by a walk from `pos` to the end of the buffer, in order;
/// `None` when a header cannot be read.
pub open spec fn walk_from(d: Seq<u8>, base: int, pos: int) -> Option<Seq<AtomHeader>>
    decreases dist(d, base, pos),
{
    if pos >= base + d.len() {
        Some(Seq::empty())
    } else {
        match header_at(d, base, pos) {
            None => None,
            Some(h) => if h.spec_next_pos() > pos {
                match walk_from(d, base, h.spec_next_pos()) {
                    None => None,
                    Some(rest) => Some(seq![h] + rest),
                }
            } else {
                None
            },
        }
    }
}

/// Outcome of the walk that looks for the innermost atom holding `p`;
/// `best` is the innermost one found so far. `None` when a header cannot
/// be read.
pub open spec fn closest_from(
    d: Seq<u8>,
    base: int,
    pos: int,
    p: int,
    ignore_container: bool,
    best: Option<AtomHeader>,
) -> Option<Option<AtomHeader>>
    decreases dist(d, base, pos),
{
    if pos >= base + d.len() {
        Some(best)
    } else {
        match header_at(d, base, pos) {
            None => None,
            Some(h) => if h.spec_next_pos() <= pos {
                None
            } else if ignore_container && h.name.spec_is_container() {
                closest_from(d, base, h.spec_next_pos(), p, ignore_container, best)
            } else if h.spec_contains(p) {
                if h.name.spec_is_container() {
                    closest_from(d, base, h.spec_next_pos(), p, ignore_container, Some(h))
                } else {
                    Some(Some(h))
                }
            } else {
                closest_from(d, base, h.spec_next_pos(), p, ignore_container, best)
            },
        }
    }
}

impl ByteStream {
    /// Reads the header at the position; with `seek_next`, then moves by its
    /// `next` bytes (into a container, past a leaf).
    pub fn next_header(&mut self, seek_next: bool) -> (r: Result<AtomHeader, Mp4Error>)
        requires
            old(self).wf(),
        ensures
            final(self).same_buffer(old(self)),
            final(self).wf(),
            ({
                let h = header_at(old(self).data(), old(self).base(), old(self).position());
                &&& r is Ok <==> h is Some
                &&& r is Ok ==> r->Ok_0 == h.unwrap() && r->Ok_0.wf() && final(self).position() == if seek_next {
                    r->Ok_0.spec_next_pos()
                } else {
                    r->Ok_0.spec_data_offset()
                }
            }),
    {
        let ghost p = self.position();
        let h = AtomHeader::read(self)?;
        proof {
            lemma_header_at_wf(self.data(), self.base(), p);
        }
        if seek_next {
            let target = h.offset + h.header_size() as u64 + h.next;
            let _ = self.seek(SeekFrom::Start(target));
        }
        Ok(h)
    }

    /// Moves to `h`'s next walk position (into a container, past a leaf).
    fn skip(&mut self, Ghost(h): Ghost<AtomHeader>, target: u64)
        requires
            old(self).wf(),
            h.wf(),
            target == h.spec_next_pos(),
            old(self).position() == h.spec_data_offset(),
        ensures
            final(self).same_buffer(old(self)),
            final(self).wf(),
            final(self).position() == h.spec_next_pos(),
    {
        let _ = self.seek(SeekFrom::Start(target));
    }

    /// Searches for the first atom named `fourcc`, from the position (or from
    /// the buffer's start with `reset`), stopping with `Ok(None)` at the end
    /// or, when a `sentinel` is given, at the first atom named `sentinel`.
    /// When found, the stream is left at the atom's payload.
    pub fn find_header_until(&mut self, fourcc: FourCC, sentinel: Option<FourCC>, reset: bool) -> (r:
        Result<Option<AtomHeader>, Mp4Error>)
        requires
            old(self).wf(),
        ensures
            final(self).same_buffer(old(self)),
            final(self).wf(),
            ({
                let start = if reset {
                    old(self).base()
                } else {
                    old(self).position()
                };
                let f = find_from(old(self).data(), old(self).base(), start, fourcc, sentinel);
                &&& r is Ok <==> f is Some
                &&& r is Ok ==> r->Ok_0 == f.unwrap()
                &&& (r is Ok && r->Ok_0 is Some) ==> r->Ok_0.unwrap().wf() && final(self).position()
                    == r->Ok_0.unwrap().spec_data_offset() && final(self).position() > start
                    && r->Ok_0.unwrap().name.code() == fourcc.code() && start < old(self).end()
                    && header_at(old(self).data(), old(self).base(), r->Ok_0.unwrap().offset as int) == r->Ok_0
                    && r->Ok_0.unwrap().offset >= start
                &&& r is Ok ==> final(self).position() >= start
                &&& (r is Ok && r->Ok_0 is None && sentinel is None) ==> final(self).position() >= old(self).end()
            }),
    {
        if reset {
            self.reset();
        }
        let ghost start = self.position();
        let end = self.upper();
        while self.pos() < end
            invariant
                self.wf(),
                self.same_buffer(old(self)),
                end == self.end(),
                start == if reset {
                    old(self).base()
                } else {
                    old(self).position()
                },
                start <= self.position(),
                find_from(self.data(), self.base(), self.position(), fourcc, sentinel) == find_from(
                    self.data(),
                    self.base(),
                    start,
                    fourcc,
                    sentinel,
                ),
            decreases dist(self.data(), self.base(), self.position()),
        {
            let ghost p = self.position();
            let h = match self.next_header(false) {
                Ok(h) => h,
                Err(e) => {
                    proof {
                        assert(find_from(self.data(), self.base(), p, fourcc, sentinel) is None);
                    }
                    return Err(e);
                },
            };
            proof {
                lemma_header_at_wf(self.data(), self.base(), p);
            }
            if let Some(s) = sentinel {
                if h.name == s {
                    proof {
                        assert(find_from(self.data(), self.base(), p, fourcc, sentinel) == Some(
                            None::<AtomHeader>,
                        ));
                    }
                    return Ok(None);
                }
            }
            if h.name == fourcc {
                return Ok(Some(h));
            }
            let target = h.offset + h.header_size() as u64 + h.next;
            self.skip(Ghost(h), target);
        }
        Ok(None)
    }

    /// Searches for the first atom named `fourcc` from the position (or from
    /// the buffer's start with `reset`); `Ok(None)` when the end comes first.
    /// When found, the stream is left at the atom's payload.
    pub fn find_header(&mut self, fourcc: FourCC, reset: bool) -> (r: Result<Option<AtomHeader>, Mp4Error>)
        requires
            old(self).wf(),
        ensures
            final(self).same_buffer(old(self)),
            final(self).wf(),
            ({
                let start = if reset {
                    old(self).base()
                } else {
                    old(self).position()
                };
                let f = find_from(old(self).data(), old(self).base(), start, fourcc, None);
                &&& r is Ok <==> f is Some
                &&& r is Ok ==> r->Ok_0 == f.unwrap()
                &&& (r is Ok && r->Ok_0 is Some) ==> r->Ok_0.unwrap().wf() && final(self).position()
                    == r->Ok_0.unwrap().spec_data_offset() && final(self).position() > start
                    && r->Ok_0.unwrap().name.code() == fourcc.code() && start < old(self).end()
                    && header_at(old(self).data(), old(self).base(), r->Ok_0.unwrap().offset as int) == r->Ok_0
                    && r->Ok_0.unwrap().offset >= start
                &&& r is Ok ==> final(self).position() >= start
                &&& (r is Ok && r->Ok_0 is None) ==> final(self).position() >= old(self).end()
            }),
    {
        self.find_header_until(fourcc, None, reset)
    }

    /// Every header met by a walk from the position to the end of the
    /// buffer, in order. The walk descends into containers.
    pub fn headers(&mut self) -> (r: Result<Vec<AtomHeader>, Mp4Error>)
        requires
            old(self).wf(),
        ensures
            final(self).same_buffer(old(self)),
            final(self).wf(),
            ({
                let w = walk_from(old(self).data(), old(self).base(), old(self).position());
                &&& r is Ok <==> w is Some
                &&& r is Ok ==> r->Ok_0@ == w.unwrap()
            }),
    {
        let ghost start = self.position();
        let mut out: Vec<AtomHeader> = Vec::new();
        let end = self.upper();
        while self.pos() < end
            invariant
                self.wf(),
                self.same_buffer(old(self)),
                end == self.end(),
                start == old(self).position(),
                walk_from(self.data(), self.base(), start) == match walk_from(
                    self.data(),
                    self.base(),
                    self.position(),
                ) {
                    None => None,
                    Some(rest) => Some(out@ + rest),
                },
            decreases dist(self.data(), self.base(), self.position()),
        {
            let ghost p = self.position();
            let h = match self.next_header(true) {
                Ok(h) => h,
                Err(e) => {
                    proof {
                        assert(walk_from(self.data(), self.base(), p) is None);
                    }
                    return Err(e);
                },
            };
            proof {
                lemma_header_at_wf(self.data(), self.base(), p);
                let rest = walk_from(self.data(), self.base(), h.spec_next_pos());
                if rest is Some {
                    assert(out@.push(h) + rest.unwrap() =~= out@ + (seq![h] + rest.unwrap()));
                }
            }
            out.push(h);
        }
        proof {
            assert(out@ + Seq::<AtomHeader>::empty() =~= out@);
        }
        Ok(out)
    }

    /// The innermost atom whose `[offset, end)` holds `pos` (the current
    /// position when `None`), walking from the buffer's start; with
    /// `ignore_container`, containers are never the answer. A position on a
    /// boundary belongs to the atom that starts there. Fails with `EndOfFile`
    /// when no atom holds it.
    pub fn header_closest(&mut self, pos: Option<u64>, ignore_container: bool) -> (r: Result<AtomHeader, Mp4Error>)
        requires
            old(self).wf(),
        ensures
            final(self).same_buffer(old(self)),
            final(self).wf(),
            ({
                let p = match pos {
                    Some(x) => x as int,
                    None => old(self).position(),
                };
                let c = closest_from(old(self).data(), old(self).base(), old(self).base(), p, ignore_container, None);
                &&& r is Ok <==> (c is Some && c.unwrap() is Some)
                &&& r is Ok ==> r->Ok_0 == c.unwrap().unwrap()
                &&& (c is Some && c.unwrap() is None) ==> r == Err::<AtomHeader, Mp4Error>(Mp4Error::EndOfFile)
            }),
    {
        let p = match pos {
            Some(x) => x,
            None => self.pos(),
        };
        self.reset();
        let ghost start = self.position();
        let mut best: Option<AtomHeader> = None;
        let end = self.upper();
        while self.pos() < end
            invariant
                self.wf(),
                self.same_buffer(old(self)),
                end == self.end(),
                start == old(self).base(),
                p == match pos {
                    Some(x) => x as int,
                    None => old(self).position(),
                },
                closest_from(self.data(), self.base(), self.position(), p as int, ignore_container, best)
                    == closest_from(self.data(), self.base(), start, p as int, ignore_container, None),
            decreases dist(self.data(), self.base(), self.position()),
        {
            let ghost q = self.position();
            let h = match self.next_header(true) {
                Ok(h) => h,
                Err(e) => {
                    proof {
                        assert(closest_from(self.data(), self.base(), q, p as int, ignore_container, best)
                            is None);
                    }
                    return Err(e);
                },
            };
            proof {
                lemma_header_at_wf(self.data(), self.base(), q);
            }
            let is_container = h.is_container();
            if ignore_container && is_container {
                continue;
            }
            if h.contains(p) {
                best = Some(h);
                if !is_container {
                    return Ok(h);
                }
            }
        }
        match best {
            Some(h) => Ok(h),
            None => Err(Mp4Error::EndOfFile),
        }
    }
}

/// Walking the same bytes from the same position twice yields the same
/// headers: the walk depends on the bytes alone.
pub proof fn lemma_walk_deterministic(a: ByteStream, b: ByteStream)
    requires
        a.same_buffer(&b),
        a.position() == b.position(),
    ensures
        walk_from(a.data(), a.base(), a.position()) == walk_from(b.data(), b.base(), b.position()),
{
}

/// Every header of a walk is well formed: its size covers its own header.
pub proof fn lemma_walk_headers_wf(d: Seq<u8>, base: int, pos: int)
    requires
        walk_from(d, base, pos) is Some,
    ensures
        forall|i: int|
            0 <= i < walk_from(d, base, pos).unwrap().len() ==> #[trigger] walk_from(d, base, pos).unwrap()[i].wf(),
    decreases dist(d, base, pos),
{
    if pos < base + d.len() {
        let h = header_at(d, base, pos).unwrap();
        lemma_header_at_wf(d, base, pos);
        lemma_walk_headers_wf(d, base, h.spec_next_pos());
        let rest = walk_from(d, base, h.spec_next_pos()).unwrap();
        assert forall|i: int| 0 <= i < walk_from(d, base, pos).unwrap().len() implies #[trigger] walk_from(
            d,
            base,
            pos,
        ).unwrap()[i].wf() by {
            if i > 0 {
                assert(walk_from(d, base, pos).unwrap()[i] == rest[i - 1]);
            }
        }
    }
}

} // verus!
