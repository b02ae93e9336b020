//! The header of a DNS message.

use vstd::prelude::*;

use crate::bytes::{be16, be16_bytes, Cursor, CursorView, Reader, WCursor, WCursorView, Writer};
use crate::constants::HEADER_LENGTH;
use crate::errors::{Error, Result};
use crate::message::flags::Flags;
use crate::names::writer::lemma_written_concat;

verus! {

/// The header of a DNS message.
#[derive(Copy, Clone, Debug, Default, PartialEq, Eq, Structural, PartialOrd, Ord, Hash)]
pub struct Header {
    /// The message ID.
    pub id: u16,
    /// The flags word.
    pub flags: Flags,
    /// The number of entries in the question section.
    pub qd_count: u16,
    /// The number of records in the answer section.
    pub an_count: u16,
    /// The number of records in the authority section.
    pub ns_count: u16,
    /// The number of records in the additional section.
    pub ar_count: u16,
}

/// The big-endian 16-bit number at `p` in `b`.
pub open spec fn u16_at(b: Seq<u8>, p: int) -> u16 {
    be16(b[p], b[p + 1]) as u16
}

/// The header encoded in the 12 bytes at `p` of `b`.
pub open spec fn header_at(b: Seq<u8>, p: int) -> Header {
    Header {
        id: u16_at(b, p),
        flags: Flags::spec_from_bits(u16_at(b, p + 2)),
        qd_count: u16_at(b, p + 4),
        an_count: u16_at(b, p + 6),
        ns_count: u16_at(b, p + 8),
        ar_count: u16_at(b, p + 10),
    }
}

/// The 12 bytes encoding a header: its six 16-bit fields, big-endian.
pub open spec fn header_bytes(h: Header) -> Seq<u8> {
    be16_bytes(h.id) + be16_bytes(h.flags.bits()) + be16_bytes(h.qd_count) + be16_bytes(
        h.an_count,
    ) + be16_bytes(h.ns_count) + be16_bytes(h.ar_count)
}

/// The outcome of reading a header from a cursor.
pub open spec fn read_header_spec(c: CursorView) -> (Result<Header>, CursorView) {
    if c.remaining() >= 12 {
        (Ok(header_at(c.buf, c.pos as int)), c.at(c.pos + 12))
    } else {
        (Err(Error::EndOfBuffer), c)
    }
}

/// Reading a header from the cursor `c` gives `r` and leaves the cursor at `c2`.
pub open spec fn header_read_outcome(c: CursorView, r: Result<Header>, c2: CursorView) -> bool {
    (r, c2) == read_header_spec(c)
}

/// Writing the header `h` to the write cursor `w` gives `r` and leaves the cursor at `w2`.
pub open spec fn header_write_outcome(
    w: WCursorView,
    h: Header,
    r: Result<usize>,
    w2: WCursorView,
) -> bool {
    (r, w2) == write_header_spec(w, h)
}

/// The outcome of writing a header to a write cursor.
pub open spec fn write_header_spec(w: WCursorView, h: Header) -> (Result<usize>, WCursorView) {
    if w.remaining() >= 12 {
        (Ok(12usize), w.written(header_bytes(h)))
    } else {
        (Err(Error::EndOfBuffer), w)
    }
}

/// A big-endian 16-bit number encodes and decodes to itself.
pub proof fn lemma_be16_round_trip(v: u16)
    ensures
        be16(be16_bytes(v)[0], be16_bytes(v)[1]) == v,
{
    let hi = (v / 256) as u8;
    let lo = (v % 256) as u8;
    assert(hi == v / 256);
    assert(lo == v % 256);
    assert((v / 256) * 256 + v % 256 == v) by (nonlinear_arith);
}

/// A header read back from its encoding is the header written: what a write puts in a buffer,
/// a read gives back.
pub proof fn lemma_header_round_trip(h: Header)
    ensures
        header_bytes(h).len() == 12,
        header_at(header_bytes(h), 0) == h,
{
    let b = header_bytes(h);
    lemma_be16_round_trip(h.id);
    lemma_be16_round_trip(h.flags.bits());
    lemma_be16_round_trip(h.qd_count);
    lemma_be16_round_trip(h.an_count);
    lemma_be16_round_trip(h.ns_count);
    lemma_be16_round_trip(h.ar_count);
    assert(b[0] == be16_bytes(h.id)[0] && b[1] == be16_bytes(h.id)[1]);
    assert(b[2] == be16_bytes(h.flags.bits())[0] && b[3] == be16_bytes(h.flags.bits())[1]);
    assert(b[4] == be16_bytes(h.qd_count)[0] && b[5] == be16_bytes(h.qd_count)[1]);
    assert(b[6] == be16_bytes(h.an_count)[0] && b[7] == be16_bytes(h.an_count)[1]);
    assert(b[8] == be16_bytes(h.ns_count)[0] && b[9] == be16_bytes(h.ns_count)[1]);
    assert(b[10] == be16_bytes(h.ar_count)[0] && b[11] == be16_bytes(h.ar_count)[1]);
    h.flags.lemma_bits(0);
}

impl<'a> Reader<Header> for Cursor<'a> {
    /// Reads a message header: twelve bytes.
    fn read(&mut self) -> (r: Result<Header>)
        ensures
            header_read_outcome(old(self)@, r, final(self)@),
    {
        if self.len() < HEADER_LENGTH {
            return Err(Error::EndOfBuffer);
        }
        let ghost c0 = self@;
        let id = self.u16_be();
        let flags = self.u16_be();
        let qd_count = self.u16_be();
        let an_count = self.u16_be();
        let ns_count = self.u16_be();
        let ar_count = self.u16_be();
        match (id, flags, qd_count, an_count, ns_count, ar_count) {
            (Ok(id), Ok(flags), Ok(qd_count), Ok(an_count), Ok(ns_count), Ok(ar_count)) => {
                let h = Header {
                    id,
                    flags: Flags::from(flags),
                    qd_count,
                    an_count,
                    ns_count,
                    ar_count,
                };
                assert(h == header_at(c0.buf, c0.pos as int));
                Ok(h)
            },
            _ => {
                assert(false);
                Err(Error::EndOfBuffer)
            },
        }
    }
}

impl<'a> Writer<Header> for WCursor<'a> {
    /// Writes a message header: twelve bytes.
    fn write(&mut self, h: &Header) -> (r: Result<usize>)
        ensures
            header_write_outcome(old(self)@, *h, r, final(self)@),
    {
        if self.len() < HEADER_LENGTH {
            return Err(Error::EndOfBuffer);
        }
        let ghost w0 = self@;
        let p = self.pos();
        let _ = self.u16_be(h.id);
        let _ = self.u16_be(u16::from(h.flags));
        proof {
            lemma_written_concat(w0, be16_bytes(h.id), be16_bytes(h.flags.bits()));
        }
        let _ = self.u16_be(h.qd_count);
        proof {
            lemma_written_concat(
                w0,
                be16_bytes(h.id) + be16_bytes(h.flags.bits()),
                be16_bytes(h.qd_count),
            );
        }
        let _ = self.u16_be(h.an_count);
        proof {
            lemma_written_concat(
                w0,
                be16_bytes(h.id) + be16_bytes(h.flags.bits()) + be16_bytes(h.qd_count),
                be16_bytes(h.an_count),
            );
        }
        let _ = self.u16_be(h.ns_count);
        proof {
            lemma_written_concat(
                w0,
                be16_bytes(h.id) + be16_bytes(h.flags.bits()) + be16_bytes(h.qd_count)
                    + be16_bytes(h.an_count),
                be16_bytes(h.ns_count),
            );
        }
        let _ = self.u16_be(h.ar_count);
        proof {
            lemma_written_concat(
                w0,
                be16_bytes(h.id) + be16_bytes(h.flags.bits()) + be16_bytes(h.qd_count)
                    + be16_bytes(h.an_count) + be16_bytes(h.ns_count),
                be16_bytes(h.ar_count),
            );
        }
        Ok(HEADER_LENGTH)
    }
}

} // verus!
