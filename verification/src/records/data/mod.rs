//! Resource record data.

use vstd::prelude::*;

use crate::bytes::{Cursor, CursorView};
use crate::errors::{Error, Result};
use crate::message::reader::labels::read_name_spec;

pub mod rfc1035;
pub mod rfc2782;
pub mod rfc3596;
pub mod rfc6844;

pub use rfc1035::{A, Cname, Hinfo, Mb, Md, Mf, Mg, Minfo, Mr, Mx, Ns, Null, Ptr, Soa, Txt, Wks};
pub use rfc2782::Srv;
pub use rfc3596::Aaaa;
pub use rfc6844::Caa;

verus! {

/// Reading a domain name at the cursor: its text, and the cursor afterwards.
pub open spec fn name_read(c: CursorView) -> (Result<Seq<u8>>, CursorView) {
    match read_name_spec(c) {
        Ok((t, p)) => (Ok(t), c.at(p)),
        Err(e) => (Err(e), c),
    }
}

/// The `rdlen` bytes of record data at the cursor, as a cursor that may not read past them.
pub open spec fn data_window(c: CursorView, rdlen: int) -> CursorView {
    CursorView { buf: c.buf, pos: c.pos, end: (c.pos + rdlen) as usize, window: true }
}

/// A name decoded within a window ends within it.
pub proof fn lemma_name_in_window(w: CursorView)
    ensures
        read_name_spec(w) matches Ok((_t, q)) ==> 0 < q <= w.end,
{
    crate::message::reader::labels::lemma_read_from_bound(
        w.buf,
        w.end as int,
        w.pos as int,
        0,
        0,
        Seq::empty(),
    );
}

/// The data of a resource record of one of the supported types.
#[derive(Debug, Clone, PartialEq, Eq)]
pub enum RecordData {
    /// An `A` record.
    A(A),
    /// An `NS` record.
    Ns(Ns),
    /// An `MD` record.
    Md(Md),
    /// An `MF` record.
    Mf(Mf),
    /// A `CNAME` record.
    Cname(Cname),
    /// An `SOA` record.
    Soa(Soa),
    /// An `MB` record.
    Mb(Mb),
    /// An `MG` record.
    Mg(Mg),
    /// An `MR` record.
    Mr(Mr),
    /// A `NULL` record.
    Null(Null),
    /// A `WKS` record.
    Wks(Wks),
    /// A `PTR` record.
    Ptr(Ptr),
    /// An `HINFO` record.
    Hinfo(Hinfo),
    /// A `MINFO` record.
    Minfo(Minfo),
    /// An `MX` record.
    Mx(Mx),
    /// A `TXT` record.
    Txt(Txt),
    /// An `AAAA` record.
    Aaaa(Aaaa),
}

/// The interface of record data types.
pub trait RDataBase: Sized {
    /// Reading `rdlen` bytes of record data at the cursor `c` gives `r` and leaves the cursor
    /// at `c2`.
    spec fn read_outcome(c: CursorView, rdlen: int, r: Result<Self>, c2: CursorView) -> bool;

    /// Reads record data of `rdlen` bytes.
    fn from_cursor(c: &mut Cursor<'_>, rdlen: usize) -> (r: Result<Self>)
        ensures
            Self::read_outcome(old(c)@, rdlen as int, r, final(c)@),
    ;

    /// The data of this type that `rd` holds, if it holds data of this type.
    spec fn of_data(rd: RecordData) -> Option<Self>;

    /// Takes the data of this type out of `rd`.
    ///
    /// # Errors
    ///
    /// [`Error::InternalError`] when `rd` holds data of another type.
    fn from(rd: RecordData) -> (r: Result<Self>)
        ensures
            match Self::of_data(rd) {
                Some(d) => r == Ok::<Self, Error>(d),
                None => r == Err::<Self, Error>(Error::InternalError("record data conversion failed")),
            },
    ;
}

/// A record data type, with the record type it belongs to.
pub trait RData: RDataBase {
    /// The record type of this data.
    spec fn spec_rtype() -> u16;

    /// Returns the record type of this data.
    fn rtype_value() -> (t: u16)
        ensures
            t == Self::spec_rtype(),
    ;
}

} // verus!
