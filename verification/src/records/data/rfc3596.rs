//! Record data of RFC 3596.

use vstd::prelude::*;

use crate::bytes::{slice_read, window_close, window_open, Cursor, CursorView};
use crate::errors::{Error, Result};

use crate::records::data::{RData, RDataBase, RecordData};
use crate::records::rtype::Type;

verus! {

/// The data of an `AAAA` record: an IPv6 address.
#[derive(Copy, Clone, Debug, PartialEq, Eq, Hash, PartialOrd, Ord)]
pub struct Aaaa {
    /// The IPv6 address, in network byte order.
    pub address: [u8; 16],
}

impl Aaaa {
    /// The record type of this data: `AAAA`.
    pub const RTYPE: u16 = Type::AAAA;

    /// Returns the record type of this data.
    pub fn rtype(&self) -> (t: Type)
        ensures
            t@ == Aaaa::RTYPE,
    {
        proof {
            Type::lemma_from_value(Aaaa::RTYPE);
        }
        Type::from(Aaaa::RTYPE)
    }
}

impl RDataBase for Aaaa {
    open spec fn read_outcome(c: CursorView, rdlen: int, r: Result<Aaaa>, c2: CursorView) -> bool {
        match window_open(c, rdlen) {
            (Err(e), c1) => r == Err::<Aaaa, Error>(e) && c2 == c1,
            (Ok(_), c1) => 
                match slice_read(c1, 16) {
                    (Err(e), c3) => r == Err::<Aaaa, Error>(e) && c2 == c3,
                    (Ok(v0), c3) => 
                        match window_close(c3) {
                            (Err(e), c4) => r == Err::<Aaaa, Error>(e) && c2 == c4,
                            (Ok(_), c4) => r matches Ok(d) && d.address@ == v0 && c2 == c4,
                        },
                    },
        }
    }

    fn from_cursor(c: &mut Cursor<'_>, rdlen: usize) -> (r: Result<Aaaa>) {
        match c.window(rdlen) {
            Ok(_) => {},
            Err(e) => return Err(e),
        }
        let s0 = match c.slice(16) {
            Ok(s) => s,
            Err(e) => return Err(e),
        };
        let v0 = [s0[0], s0[1], s0[2], s0[3], s0[4], s0[5], s0[6], s0[7], s0[8], s0[9], s0[10], s0[11], s0[12], s0[13], s0[14], s0[15]];
        assert(v0@ =~= s0@);
        match c.close_window() {
            Ok(_) => {},
            Err(e) => return Err(e),
        }
        Ok(Aaaa { address: v0 })
    }

    open spec fn of_data(rd: RecordData) -> Option<Aaaa> {
        match rd {
            RecordData::Aaaa(d) => Some(d),
            _ => None,
        }
    }

    fn from(rd: RecordData) -> (r: Result<Aaaa>) {
        match rd {
            RecordData::Aaaa(d) => Ok(d),
            _ => Err(Error::InternalError("record data conversion failed")),
        }
    }
}

impl RData for Aaaa {
    open spec fn spec_rtype() -> u16 {
        Aaaa::RTYPE
    }

    fn rtype_value() -> (t: u16) {
        Aaaa::RTYPE
    }
}

/// Decoded `AAAA` data is the record's sixteen data bytes in wire order: the data is exactly
/// sixteen bytes long, the address is those bytes, and the cursor ends after them.
pub proof fn lemma_aaaa_address(c: CursorView, rdlen: int, d: Aaaa, c2: CursorView)
    requires
        <Aaaa as RDataBase>::read_outcome(c, rdlen, Ok(d), c2),
    ensures
        rdlen == 16,
        c.pos + 16 <= c.end,
        d.address@ == c.buf.subrange(c.pos as int, c.pos + 16),
        c2.pos == c.pos + 16,
{
}

} // verus!
