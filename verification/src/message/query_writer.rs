//! Writing DNS query messages.

use vstd::prelude::*;
use vstd::string::StringSliceAdditionalSpecFns;

use crate::bytes::{be16_bytes, WCursor, WCursorView, Writer};
use crate::errors::{Error, Result};
use crate::message::flags::{flags_view, Flags, FlagsView};
use crate::bytes::CursorView;
use crate::message::header::{
    header_at, header_bytes, lemma_be16_round_trip, lemma_header_round_trip, read_header_spec,
    u16_at, write_header_spec, Header,
};
use crate::message::reader::labels::read_name_spec;
use crate::names::round_trip::{lemma_name_write_prefix, lemma_name_write_read_in};
use crate::names::utils::absolute;
use crate::names::writer::lemma_name_write_forward;
use crate::names::writer::name_write;
use crate::records::class::Class;
use crate::records::opt::{opt_bytes, Opt, OptView};
use crate::records::rtype::Type;

verus! {

/// The flags of a query: all zero but the `RD` flag.
pub open spec fn query_flags(recursion_desired: bool) -> Flags {
    Flags::spec_from_bits(
        if recursion_desired {
            0x100
        } else {
            0
        },
    )
}

/// The header of a query with one question and, with an `OPT` record, one additional record.
pub open spec fn query_header(id: u16, recursion_desired: bool, has_opt: bool) -> Header {
    Header {
        id,
        flags: query_flags(recursion_desired),
        qd_count: 1,
        an_count: 0,
        ns_count: 0,
        ar_count: if has_opt {
            1
        } else {
            0
        },
    }
}

/// Writing the body of a query after the 2-byte length prefix: the header, the question and,
/// where given, the `OPT` record.
pub open spec fn query_body_write(
    w: WCursorView,
    h: Header,
    qname: Seq<u8>,
    qtype: u16,
    qclass: u16,
    opt: Option<OptView>,
) -> (Result<()>, WCursorView) {
    match write_header_spec(w, h) {
        (Err(e), w2) => (Err(e), w2),
        (Ok(_), w2) => match name_write(qname, w2) {
            (Err(e), w3) => (Err(e), w3),
            (Ok(_), w3) => if w3.remaining() < 2 {
                (Err(Error::EndOfBuffer), w3)
            } else {
                let w4 = w3.written(be16_bytes(qtype));
                if w4.remaining() < 2 {
                    (Err(Error::EndOfBuffer), w4)
                } else {
                    let w5 = w4.written(be16_bytes(qclass));
                    match opt {
                        None => (Ok(()), w5),
                        Some(o) => if w5.remaining() >= 11 {
                            (Ok(()), w5.written(opt_bytes(o)))
                        } else {
                            (Err(Error::EndOfBuffer), w5)
                        },
                    }
                }
            },
        },
    }
}

/// Writing a query with a 2-byte length prefix: the result is the number of bytes written,
/// prefix included; the prefix holds that number minus two.
pub open spec fn query_write(
    w: WCursorView,
    h: Header,
    qname: Seq<u8>,
    qtype: u16,
    qclass: u16,
    opt: Option<OptView>,
) -> Result<(usize, WCursorView)> {
    if w.remaining() < 2 {
        Err(Error::EndOfBuffer)
    } else {
        match query_body_write(w.written(be16_bytes(0)), h, qname, qtype, qclass, opt) {
            (Err(e), _w) => Err(e),
            (Ok(_), w6) => Ok(
                (
                    w6.pos as usize,
                    WCursorView { buf: w6.buf, pos: 0 }.written(
                        be16_bytes((w6.pos - 2) as u16),
                    ),
                ),
            ),
        }
    }
}

/// Draws a random message ID with `rand::random::<u16>()`.
///
/// Nothing is claimed of the value: any 16-bit number may come.
#[verifier::external_body]
fn random_id() -> (r: u16) {
    rand::random::<u16>()
}

/// A writer of DNS query messages into a buffer, with a random message ID.
pub struct QueryWriter<'a> {
    wcursor: WCursor<'a>,
    id: u16,
}

impl<'a> QueryWriter<'a> {
    /// The message ID of the queries written.
    pub closed spec fn spec_id(&self) -> u16 {
        self.id
    }

    /// The state of the write cursor.
    pub closed spec fn spec_cursor(&self) -> WCursorView {
        self.wcursor@
    }

    /// Creates a writer into `buf` with a random message ID.
    pub fn new(buf: &'a mut [u8]) -> (q: QueryWriter<'a>)
        requires
            old(buf)@.len() <= isize::MAX,
        ensures
            q.spec_cursor() == (WCursorView { buf: old(buf)@, pos: 0 }),
    {
        QueryWriter { wcursor: WCursor::new(buf), id: random_id() }
    }

    /// Returns the message ID of the queries written.
    pub fn message_id(&self) -> (r: u16)
        ensures
            r == self.spec_id(),
    {
        self.id
    }

    /// Writes a query for `qname`, `qtype` and `qclass`, with the `RD` flag as given and an
    /// `OPT` record where one is given; returns the number of bytes written.
    ///
    /// The message starts with its length in two bytes, as over TCP.
    ///
    /// # Errors
    ///
    /// The errors of writing a domain name, and [`Error::EndOfBuffer`] when the buffer is too
    /// short.
    pub fn write(
        &mut self,
        qname: &str,
        qtype: Type,
        qclass: Class,
        recursion_desired: bool,
        opt: Option<Opt>,
    ) -> (r: Result<usize>)
        ensures
            final(self).spec_id() == old(self).spec_id(),
            match query_write(
                old(self).spec_cursor(),
                query_header(old(self).spec_id(), recursion_desired, opt is Some),
                qname.spec_bytes(),
                qtype@,
                qclass@,
                match opt {
                    Some(o) => Some(o@),
                    None => None,
                },
            ) {
                Ok((n, w)) => r == Ok::<usize, Error>(n) && final(self).spec_cursor() == w,
                Err(e) => r == Err::<usize, Error>(e),
            },
    {
        let mut f = Flags::new();
        let flags: Flags = *f.set_recursion_desired(recursion_desired);
        proof {
            let b: u16 = if recursion_desired {
                0x100
            } else {
                0
            };
            let z: u16 = 0;
            assert(((b >> 15u16) & 1 == 1) == ((z >> 15u16) & 1 == 1) && (b >> 11u16) & 0xF == (z
                >> 11u16) & 0xF && ((b >> 10u16) & 1 == 1) == ((z >> 10u16) & 1 == 1) && ((b
                >> 9u16) & 1 == 1) == ((z >> 9u16) & 1 == 1) && ((b >> 8u16) & 1 == 1)
                == recursion_desired && ((b >> 7u16) & 1 == 1) == ((z >> 7u16) & 1 == 1) && (b
                >> 4u16) & 7 == (z >> 4u16) & 7 && b & 0xF == z & 0xF) by (bit_vector)
                requires
                    b == (if recursion_desired {
                        0x100u16
                    } else {
                        0u16
                    }),
                    z == 0,
            ;
            assert(flags_view(b) == (FlagsView { rd: recursion_desired, ..flags_view(0) }));
            flags.lemma_bits(b);
            Flags::lemma_view_eq(flags, query_flags(recursion_desired));
        }
        let header = Header {
            id: self.id,
            flags,
            qd_count: 1,
            an_count: 0,
            ns_count: 0,
            ar_count: if opt.is_some() {
                1
            } else {
                0
            },
        };
        let ghost w0 = self.wcursor@;
        match self.wcursor.u16_be(0) {
            Ok(_) => {},
            Err(e) => return Err(e),
        }
        let hres: Result<usize> = self.wcursor.write(&header);
        match hres {
            Ok(_) => {},
            Err(e) => return Err(e),
        }
        let ghost w2 = self.wcursor@;
        let p2 = self.wcursor.pos();
        proof {
            crate::names::writer::lemma_name_write_forward(qname.spec_bytes(), w2);
        }
        match self.wcursor.write_domain_name(qname) {
            Ok(_) => {},
            Err(e) => return Err(e),
        }
        match self.wcursor.u16_be(qtype.value()) {
            Ok(_) => {},
            Err(e) => return Err(e),
        }
        match self.wcursor.u16_be(qclass.value()) {
            Ok(_) => {},
            Err(e) => return Err(e),
        }
        match opt {
            Some(o) => {
                match self.wcursor.write_opt(&o) {
                    Ok(_) => {},
                    Err(e) => return Err(e),
                }
            },
            None => {},
        }
        let p6 = self.wcursor.pos();
        let pos = self.wcursor.reset_pos();
        let len = (pos - 2) as u16;
        match self.wcursor.u16_be(len) {
            Ok(_) => {},
            Err(e) => return Err(e),
        }
        Ok(pos)
    }
}

/// Writing `bytes` changes only the bytes it writes.
proof fn lemma_written_at(w: WCursorView, bytes: Seq<u8>, k: int)
    requires
        0 <= w.pos,
        w.pos + bytes.len() <= w.buf.len(),
        0 <= k < w.buf.len(),
    ensures
        w.written(bytes).buf.len() == w.buf.len(),
        k < w.pos || k >= w.pos + bytes.len() ==> w.written(bytes).buf[k] == w.buf[k],
        w.pos <= k < w.pos + bytes.len() ==> w.written(bytes).buf[k] == bytes[k - w.pos],
{
}

/// The bytes of a query written from the start of a buffer by [`query_write`].
pub open spec fn query_written(
    w: WCursorView,
    h: Header,
    qname: Seq<u8>,
    qtype: u16,
    qclass: u16,
    opt: Option<OptView>,
) -> Seq<u8> {
    query_write(w, h, qname, qtype, qclass, opt)->Ok_0.1.buf
}

/// A query written from the start of a buffer reads back: its length prefix holds the length
/// that follows, then come the header written, the question's name in its absolute form (with
/// a final dot), the type and the class, and, where one was written, the `OPT` record, which
/// ends the query.
pub proof fn lemma_query_write_read(
    w: WCursorView,
    h: Header,
    qname: Seq<u8>,
    qtype: u16,
    qclass: u16,
    opt: Option<OptView>,
)
    requires
        w.pos == 0,
        w.buf.len() <= usize::MAX,
        query_write(w, h, qname, qtype, qclass, opt) is Ok,
    ensures
        ({
            let n = query_write(w, h, qname, qtype, qclass, opt)->Ok_0.0;
            let b = query_written(w, h, qname, qtype, qclass, opt);
            let c = CursorView { buf: b, pos: 2, end: n, window: false };
            &&& u16_at(b, 0) == (n - 2) as u16
            &&& read_header_spec(c) == (Ok::<Header, Error>(h), c.at(14))
            &&& read_name_spec(c.at(14)) matches Ok((t, p)) && t == absolute(qname) && u16_at(b, p)
                == qtype && u16_at(b, p + 2) == qclass && match opt {
                None => n == p + 4,
                Some(o) => n == p + 15 && b.subrange(p + 4, p + 15) == opt_bytes(o),
            }
        }),
{
    let w1 = w.written(be16_bytes(0));
    let w2 = w1.written(header_bytes(h));
    let w3 = name_write(qname, w2).1;
    let w4 = w3.written(be16_bytes(qtype));
    let w5 = w4.written(be16_bytes(qclass));
    let w6 = match opt {
        None => w5,
        Some(o) => w5.written(opt_bytes(o)),
    };
    let n = w6.pos;
    let fin = WCursorView { buf: w6.buf, pos: 0 }.written(be16_bytes((w6.pos - 2) as u16));
    let b = fin.buf;
    assert(query_body_write(w1, h, qname, qtype, qclass, opt) == (Ok::<(), Error>(()), w6));
    assert(b == query_written(w, h, qname, qtype, qclass, opt));
    lemma_name_write_forward(qname, w2);
    let p = w3.pos;
    assert(w2.pos == 14);
    assert(p >= 14);
    assert(w6.buf.len() == w.buf.len());
    assert(b.len() == w.buf.len());
    // every byte of the final buffer, where it comes from
    assert forall|k: int| 0 <= k < b.len() implies b[k] == (if k < 2 {
        be16_bytes((w6.pos - 2) as u16)[k]
    } else if k < 14 {
        header_bytes(h)[k - 2]
    } else if k < p {
        w3.buf[k]
    } else if k < p + 2 {
        be16_bytes(qtype)[k - p]
    } else if k < p + 4 {
        be16_bytes(qclass)[k - p - 2]
    } else {
        w6.buf[k]
    }) by {
        lemma_written_at(WCursorView { buf: w6.buf, pos: 0 }, be16_bytes((w6.pos - 2) as u16), k);
        lemma_written_at(w, be16_bytes(0), k);
        lemma_written_at(w1, header_bytes(h), k);
        lemma_written_at(w3, be16_bytes(qtype), k);
        lemma_written_at(w4, be16_bytes(qclass), k);
        match opt {
            None => {},
            Some(o) => {
                lemma_written_at(w5, opt_bytes(o), k);
            },
        }
        if k < 14 {
            lemma_name_write_prefix(qname, w2, k);
        }
    }
    // the length prefix
    lemma_be16_round_trip((w6.pos - 2) as u16);
    // the header
    lemma_header_round_trip(h);
    assert(header_at(b, 2) == header_at(header_bytes(h), 0));
    // the name
    assert forall|k: int| 14 <= k < p implies b[k] == w3.buf[k] by {}
    lemma_name_write_read_in(qname, w2, b, n as usize);
    // the type and the class
    lemma_be16_round_trip(qtype);
    lemma_be16_round_trip(qclass);
    match opt {
        None => {},
        Some(o) => {
            assert forall|k: int| p + 4 <= k < p + 15 implies w6.buf[k] == opt_bytes(o)[k - p - 4] by {
                lemma_written_at(w5, opt_bytes(o), k);
            }
            assert(b.subrange(p + 4, p + 15) =~= opt_bytes(o));
        },
    }
}

} // verus!
