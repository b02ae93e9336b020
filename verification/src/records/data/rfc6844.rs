//! Record data of RFC 6844.

use vstd::prelude::*;

use crate::bytes::{slice_read, u8_read, window_close, window_open, Cursor, CursorView};
use crate::errors::{Error, Result};
use crate::message::character_string::character_string_read;

use crate::records::data::{RData, RDataBase, RecordData};
use crate::records::rtype::Type;

verus! {

/// The data of a `CAA` record: a certification authority authorization.
#[derive(Clone, Debug, PartialEq, Eq, Default)]
pub struct Caa {
    /// The flags byte.
    pub flags: u8,
    /// The property tag.
    pub tag: Vec<u8>,
    /// The property value.
    pub value: Vec<u8>,
}

impl Caa {
    /// The record type of this data: `CAA`.
    pub const RTYPE: u16 = 257;

    /// Returns the record type of this data.
    pub fn rtype(&self) -> (t: Type)
        ensures
            t@ == Caa::RTYPE,
    {
        proof {
            Type::lemma_from_value(Caa::RTYPE);
        }
        Type::from(Caa::RTYPE)
    }
}

impl RDataBase for Caa {
    open spec fn read_outcome(c: CursorView, rdlen: int, r: Result<Caa>, c2: CursorView) -> bool {
        match window_open(c, rdlen) {
            (Err(e), c1) => r == Err::<Caa, Error>(e) && c2 == c1,
            (Ok(_), c1) => 
                match u8_read(c1) {
                    (Err(e), c3) => r == Err::<Caa, Error>(e) && c2 == c3,
                    (Ok(v0), c3) => 
                        match character_string_read(c3) {
                            (Err(e), c4) => r == Err::<Caa, Error>(e) && c2 == c4,
                            (Ok(v1), c4) => 
                                match slice_read(c4, c4.remaining()) {
                                    (Err(e), c5) => r == Err::<Caa, Error>(e) && c2 == c5,
                                    (Ok(v2), c5) => 
                                        match window_close(c5) {
                                            (Err(e), c6) => r == Err::<Caa, Error>(e) && c2 == c6,
                                            (Ok(_), c6) => r matches Ok(d) && d.flags == v0 && d.tag@ == v1 && d.value@ == v2 && c2 == c6,
                                        },
                                    },
                            },
                    },
        }
    }

    fn from_cursor(c: &mut Cursor<'_>, rdlen: usize) -> (r: Result<Caa>) {
        match c.window(rdlen) {
            Ok(_) => {},
            Err(e) => return Err(e),
        }
        let v0 = match c.u8() {
            Ok(v) => v,
            Err(e) => return Err(e),
        };
        let v1 = match c.read_character_string() {
            Ok(v) => v,
            Err(e) => return Err(e),
        };
        let n2 = c.len();
        let s2 = match c.slice(n2) {
            Ok(s) => s,
            Err(e) => return Err(e),
        };
        let v2 = vstd::slice::slice_to_vec(s2);
        match c.close_window() {
            Ok(_) => {},
            Err(e) => return Err(e),
        }
        Ok(Caa { flags: v0, tag: v1, value: v2 })
    }

    /// Record data of this type is never held by [`RecordData`].
    open spec fn of_data(rd: RecordData) -> Option<Caa> {
        None
    }

    fn from(rd: RecordData) -> (r: Result<Caa>) {
        Err(Error::InternalError("record data conversion failed"))
    }
}

impl RData for Caa {
    open spec fn spec_rtype() -> u16 {
        Caa::RTYPE
    }

    fn rtype_value() -> (t: u16) {
        Caa::RTYPE
    }
}

/// Decoded `CAA` data follows the wire order of its fields: the flags are the first data byte,
/// the tag the character-string after them, and the value every data byte after the tag.
pub proof fn lemma_caa_fields(c: CursorView, rdlen: int, d: Caa, c2: CursorView)
    requires
        c.end <= c.buf.len(),
        <Caa as RDataBase>::read_outcome(c, rdlen, Ok(d), c2),
    ensures
        ({
            let p = c.pos as int;
            let t = c.buf[p + 1] as int;
            &&& c.pos + rdlen <= c.end
            &&& 2 + t <= rdlen
            &&& d.flags == c.buf[p]
            &&& d.tag@ == c.buf.subrange(p + 2, p + 2 + t)
            &&& d.value@ == c.buf.subrange(p + 2 + t, p + rdlen)
            &&& d.value@.len() == rdlen - 2 - d.tag@.len()
            &&& c2.pos == p + rdlen
        }),
{
    let p = c.pos as int;
    let c1 = window_open(c, rdlen).1;
    assert(c.fits(rdlen));
    assert(c1.end == p + rdlen && c1.pos == p && c1.buf == c.buf);
    let c3 = u8_read(c1).1;
    assert(c3.pos == p + 1);
    let t = c.buf[p + 1] as int;
    let c4 = character_string_read(c3).1;
    assert(u8_read(c3).0 == Ok::<u8, Error>(c.buf[p + 1]));
    assert(c4.pos == p + 2 + t && c4.end == p + rdlen);
    assert(character_string_read(c3).0 == Ok::<Seq<u8>, Error>(c.buf.subrange(p + 2, p + 2 + t)));
    let c5 = slice_read(c4, c4.remaining()).1;
    assert(slice_read(c4, c4.remaining()).0 == Ok::<Seq<u8>, Error>(
        c.buf.subrange(p + 2 + t, p + rdlen),
    ));
    assert(c.buf.subrange(p + 2, p + 2 + t).len() == t);
    assert(c.buf.subrange(p + 2 + t, p + rdlen).len() == rdlen - 2 - t);
}

} // verus!
