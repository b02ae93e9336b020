//! Record data of RFC 2782.

use vstd::prelude::*;

use crate::bytes::{u16_read, window_close, window_open, Cursor, CursorView};
use crate::errors::{Error, Result};

use crate::message::reader::labels::read_name_spec;
use crate::names::name::Name;
use crate::records::data::{name_read, RData, RDataBase, RecordData};
use crate::records::rtype::Type;

verus! {

/// The data of an `SRV` record: the location of a service.
#[derive(Clone, Debug, PartialEq, Eq, Default)]
pub struct Srv {
    /// The priority of the target host; lower is preferred.
    pub priority: u16,
    /// The relative weight among targets of the same priority.
    pub weight: u16,
    /// The port of the service on the target host.
    pub port: u16,
    /// The domain name of the target host.
    pub target: Name,
}

impl Srv {
    /// The record type of this data: `SRV`.
    pub const RTYPE: u16 = 33;

    /// Returns the record type of this data.
    pub fn rtype(&self) -> (t: Type)
        ensures
            t@ == Srv::RTYPE,
    {
        proof {
            Type::lemma_from_value(Srv::RTYPE);
        }
        Type::from(Srv::RTYPE)
    }
}

impl RDataBase for Srv {
    open spec fn read_outcome(c: CursorView, rdlen: int, r: Result<Srv>, c2: CursorView) -> bool {
        match window_open(c, rdlen) {
            (Err(e), c1) => r == Err::<Srv, Error>(e) && c2 == c1,
            (Ok(_), c1) => 
                match u16_read(c1) {
                    (Err(e), c3) => r == Err::<Srv, Error>(e) && c2 == c3,
                    (Ok(v0), c3) => 
                        match u16_read(c3) {
                            (Err(e), c4) => r == Err::<Srv, Error>(e) && c2 == c4,
                            (Ok(v1), c4) => 
                                match u16_read(c4) {
                                    (Err(e), c5) => r == Err::<Srv, Error>(e) && c2 == c5,
                                    (Ok(v2), c5) => 
                                        match name_read(c5) {
                                            (Err(e), c6) => r == Err::<Srv, Error>(e) && c2 == c6,
                                            (Ok(v3), c6) => 
                                                match window_close(c6) {
                                                    (Err(e), c7) => r == Err::<Srv, Error>(e) && c2 == c7,
                                                    (Ok(_), c7) => r matches Ok(d) && d.priority == v0 && d.weight == v1 && d.port == v2 && d.target@ == v3 && c2 == c7,
                                                },
                                            },
                                    },
                            },
                    },
        }
    }

    fn from_cursor(c: &mut Cursor<'_>, rdlen: usize) -> (r: Result<Srv>) {
        match c.window(rdlen) {
            Ok(_) => {},
            Err(e) => return Err(e),
        }
        let v0 = match c.u16_be() {
            Ok(v) => v,
            Err(e) => return Err(e),
        };
        let v1 = match c.u16_be() {
            Ok(v) => v,
            Err(e) => return Err(e),
        };
        let v2 = match c.u16_be() {
            Ok(v) => v,
            Err(e) => return Err(e),
        };
        let v3 = match Name::from_cursor(c) {
            Ok(v) => v,
            Err(e) => return Err(e),
        };
        match c.close_window() {
            Ok(_) => {},
            Err(e) => return Err(e),
        }
        Ok(Srv { priority: v0, weight: v1, port: v2, target: v3 })
    }

    /// Record data of this type is never held by [`RecordData`].
    open spec fn of_data(rd: RecordData) -> Option<Srv> {
        None
    }

    fn from(rd: RecordData) -> (r: Result<Srv>) {
        Err(Error::InternalError("record data conversion failed"))
    }
}

impl RData for Srv {
    open spec fn spec_rtype() -> u16 {
        Srv::RTYPE
    }

    fn rtype_value() -> (t: u16) {
        Srv::RTYPE
    }
}

/// Decoded `SRV` data follows the wire order of its fields: the priority is the big-endian
/// number in the first two data bytes, the weight the one in the next two, the port the one in
/// the two after, and the target is the name encoded from the seventh data byte on.
pub proof fn lemma_srv_fields(c: CursorView, rdlen: int, d: Srv, c2: CursorView)
    requires
        <Srv as RDataBase>::read_outcome(c, rdlen, Ok(d), c2),
    ensures
        6 <= rdlen,
        c.pos + rdlen <= c.end,
        d.priority == c.buf[c.pos as int] * 256 + c.buf[c.pos + 1],
        d.weight == c.buf[c.pos + 2] * 256 + c.buf[c.pos + 3],
        d.port == c.buf[c.pos + 4] * 256 + c.buf[c.pos + 5],
        read_name_spec(
            CursorView { buf: c.buf, pos: (c.pos + 6) as usize, end: (c.pos + rdlen) as usize, window: true },
        ) matches Ok((t, p)) && t == d.target@ && p == c.pos + rdlen,
        c2.pos == c.pos + rdlen,
{
    let p = c.pos as int;
    let c1 = window_open(c, rdlen).1;
    assert(c.fits(rdlen));
    let c5 = u16_read(u16_read(u16_read(c1).1).1).1;
    assert(c5 == CursorView {
        buf: c.buf,
        pos: (c.pos + 6) as usize,
        end: (c.pos + rdlen) as usize,
        window: true,
    });
    crate::message::reader::labels::lemma_read_from_bound(
        c5.buf,
        c5.end as int,
        c5.pos as int,
        0,
        0,
        Seq::empty(),
    );
}

} // verus!
