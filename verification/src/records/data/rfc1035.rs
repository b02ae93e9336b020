//! Record data of RFC 1035.

use vstd::prelude::*;

use crate::bytes::{slice_read, u16_read, u32_read, u8_read, window_close, window_open, Cursor, CursorView};
use crate::errors::{Error, Result};
use crate::message::character_string::character_string_read;
use crate::names::name::Name;
use crate::message::reader::labels::read_name_spec;
use crate::records::data::{data_window, lemma_name_in_window, name_read, RData, RDataBase, RecordData};
use crate::records::rtype::Type;

verus! {

/// The data of an `A` record: an IPv4 address.
#[derive(Copy, Clone, Debug, PartialEq, Eq, Hash, PartialOrd, Ord)]
pub struct A {
    /// The IPv4 address, in network byte order.
    pub address: [u8; 4],
}

impl A {
    /// The record type of this data: `A`.
    pub const RTYPE: u16 = Type::A;

    /// Returns the record type of this data.
    pub fn rtype(&self) -> (t: Type)
        ensures
            t@ == A::RTYPE,
    {
        proof {
            Type::lemma_from_value(A::RTYPE);
        }
        Type::from(A::RTYPE)
    }
}

impl RDataBase for A {
    open spec fn read_outcome(c: CursorView, rdlen: int, r: Result<A>, c2: CursorView) -> bool {
        match window_open(c, rdlen) {
            (Err(e), c1) => r == Err::<A, Error>(e) && c2 == c1,
            (Ok(_), c1) => 
                match slice_read(c1, 4) {
                    (Err(e), c3) => r == Err::<A, Error>(e) && c2 == c3,
                    (Ok(v0), c3) => 
                        match window_close(c3) {
                            (Err(e), c4) => r == Err::<A, Error>(e) && c2 == c4,
                            (Ok(_), c4) => r matches Ok(d) && d.address@ == v0 && c2 == c4,
                        },
                    },
        }
    }

    fn from_cursor(c: &mut Cursor<'_>, rdlen: usize) -> (r: Result<A>) {
        match c.window(rdlen) {
            Ok(_) => {},
            Err(e) => return Err(e),
        }
        let s0 = match c.slice(4) {
            Ok(s) => s,
            Err(e) => return Err(e),
        };
        let v0 = [s0[0], s0[1], s0[2], s0[3]];
        assert(v0@ =~= s0@);
        match c.close_window() {
            Ok(_) => {},
            Err(e) => return Err(e),
        }
        Ok(A { address: v0 })
    }

    open spec fn of_data(rd: RecordData) -> Option<A> {
        match rd {
            RecordData::A(d) => Some(d),
            _ => None,
        }
    }

    fn from(rd: RecordData) -> (r: Result<A>) {
        match rd {
            RecordData::A(d) => Ok(d),
            _ => Err(Error::InternalError("record data conversion failed")),
        }
    }
}

impl RData for A {
    open spec fn spec_rtype() -> u16 {
        A::RTYPE
    }

    fn rtype_value() -> (t: u16) {
        A::RTYPE
    }
}

/// The data of a `CNAME` record: the canonical name of an alias.
#[derive(Clone, Debug, PartialEq, Eq, Default)]
pub struct Cname {
    /// The canonical name.
    pub cname: Name,
}

impl Cname {
    /// The record type of this data: `CNAME`.
    pub const RTYPE: u16 = Type::CNAME;

    /// Returns the record type of this data.
    pub fn rtype(&self) -> (t: Type)
        ensures
            t@ == Cname::RTYPE,
    {
        proof {
            Type::lemma_from_value(Cname::RTYPE);
        }
        Type::from(Cname::RTYPE)
    }
}

impl RDataBase for Cname {
    open spec fn read_outcome(c: CursorView, rdlen: int, r: Result<Cname>, c2: CursorView) -> bool {
        match window_open(c, rdlen) {
            (Err(e), c1) => r == Err::<Cname, Error>(e) && c2 == c1,
            (Ok(_), c1) => 
                match name_read(c1) {
                    (Err(e), c3) => r == Err::<Cname, Error>(e) && c2 == c3,
                    (Ok(v0), c3) => 
                        match window_close(c3) {
                            (Err(e), c4) => r == Err::<Cname, Error>(e) && c2 == c4,
                            (Ok(_), c4) => r matches Ok(d) && d.cname@ == v0 && c2 == c4,
                        },
                    },
        }
    }

    fn from_cursor(c: &mut Cursor<'_>, rdlen: usize) -> (r: Result<Cname>) {
        match c.window(rdlen) {
            Ok(_) => {},
            Err(e) => return Err(e),
        }
        let v0 = match Name::from_cursor(c) {
            Ok(v) => v,
            Err(e) => return Err(e),
        };
        match c.close_window() {
            Ok(_) => {},
            Err(e) => return Err(e),
        }
        Ok(Cname { cname: v0 })
    }

    open spec fn of_data(rd: RecordData) -> Option<Cname> {
        match rd {
            RecordData::Cname(d) => Some(d),
            _ => None,
        }
    }

    fn from(rd: RecordData) -> (r: Result<Cname>) {
        match rd {
            RecordData::Cname(d) => Ok(d),
            _ => Err(Error::InternalError("record data conversion failed")),
        }
    }
}

impl RData for Cname {
    open spec fn spec_rtype() -> u16 {
        Cname::RTYPE
    }

    fn rtype_value() -> (t: u16) {
        Cname::RTYPE
    }
}

/// The data of an `HINFO` record: host information.
#[derive(Clone, Debug, PartialEq, Eq, Default)]
pub struct Hinfo {
    /// The CPU type.
    pub cpu: Vec<u8>,
    /// The operating system.
    pub os: Vec<u8>,
}

impl Hinfo {
    /// The record type of this data: `HINFO`.
    pub const RTYPE: u16 = Type::HINFO;

    /// Returns the record type of this data.
    pub fn rtype(&self) -> (t: Type)
        ensures
            t@ == Hinfo::RTYPE,
    {
        proof {
            Type::lemma_from_value(Hinfo::RTYPE);
        }
        Type::from(Hinfo::RTYPE)
    }
}

impl RDataBase for Hinfo {
    open spec fn read_outcome(c: CursorView, rdlen: int, r: Result<Hinfo>, c2: CursorView) -> bool {
        match window_open(c, rdlen) {
            (Err(e), c1) => r == Err::<Hinfo, Error>(e) && c2 == c1,
            (Ok(_), c1) => 
                match character_string_read(c1) {
                    (Err(e), c3) => r == Err::<Hinfo, Error>(e) && c2 == c3,
                    (Ok(v0), c3) => 
                        match character_string_read(c3) {
                            (Err(e), c4) => r == Err::<Hinfo, Error>(e) && c2 == c4,
                            (Ok(v1), c4) => 
                                match window_close(c4) {
                                    (Err(e), c5) => r == Err::<Hinfo, Error>(e) && c2 == c5,
                                    (Ok(_), c5) => r matches Ok(d) && d.cpu@ == v0 && d.os@ == v1 && c2 == c5,
                                },
                            },
                    },
        }
    }

    fn from_cursor(c: &mut Cursor<'_>, rdlen: usize) -> (r: Result<Hinfo>) {
        match c.window(rdlen) {
            Ok(_) => {},
            Err(e) => return Err(e),
        }
        let v0 = match c.read_character_string() {
            Ok(v) => v,
            Err(e) => return Err(e),
        };
        let v1 = match c.read_character_string() {
            Ok(v) => v,
            Err(e) => return Err(e),
        };
        match c.close_window() {
            Ok(_) => {},
            Err(e) => return Err(e),
        }
        Ok(Hinfo { cpu: v0, os: v1 })
    }

    open spec fn of_data(rd: RecordData) -> Option<Hinfo> {
        match rd {
            RecordData::Hinfo(d) => Some(d),
            _ => None,
        }
    }

    fn from(rd: RecordData) -> (r: Result<Hinfo>) {
        match rd {
            RecordData::Hinfo(d) => Ok(d),
            _ => Err(Error::InternalError("record data conversion failed")),
        }
    }
}

impl RData for Hinfo {
    open spec fn spec_rtype() -> u16 {
        Hinfo::RTYPE
    }

    fn rtype_value() -> (t: u16) {
        Hinfo::RTYPE
    }
}

/// The data of a `WKS` record: a well known service description.
#[derive(Clone, Debug, PartialEq, Eq)]
pub struct Wks {
    /// The IPv4 address, in network byte order.
    pub address: [u8; 4],
    /// The IP protocol number.
    pub protocol: u8,
    /// The bit map of the ports served.
    pub bitmap: Vec<u8>,
}

impl Wks {
    /// The record type of this data: `WKS`.
    pub const RTYPE: u16 = Type::WKS;

    /// Returns the record type of this data.
    pub fn rtype(&self) -> (t: Type)
        ensures
            t@ == Wks::RTYPE,
    {
        proof {
            Type::lemma_from_value(Wks::RTYPE);
        }
        Type::from(Wks::RTYPE)
    }
}

impl RDataBase for Wks {
    open spec fn read_outcome(c: CursorView, rdlen: int, r: Result<Wks>, c2: CursorView) -> bool {
        match window_open(c, rdlen) {
            (Err(e), c1) => r == Err::<Wks, Error>(e) && c2 == c1,
            (Ok(_), c1) => 
                match slice_read(c1, 4) {
                    (Err(e), c3) => r == Err::<Wks, Error>(e) && c2 == c3,
                    (Ok(v0), c3) => 
                        match u8_read(c3) {
                            (Err(e), c4) => r == Err::<Wks, Error>(e) && c2 == c4,
                            (Ok(v1), c4) => 
                                match slice_read(c4, rdlen - 5) {
                                    (Err(e), c5) => r == Err::<Wks, Error>(e) && c2 == c5,
                                    (Ok(v2), c5) => 
                                        match window_close(c5) {
                                            (Err(e), c6) => r == Err::<Wks, Error>(e) && c2 == c6,
                                            (Ok(_), c6) => r matches Ok(d) && d.address@ == v0 && d.protocol == v1 && d.bitmap@ == v2 && c2 == c6,
                                        },
                                    },
                            },
                    },
        }
    }

    fn from_cursor(c: &mut Cursor<'_>, rdlen: usize) -> (r: Result<Wks>) {
        match c.window(rdlen) {
            Ok(_) => {},
            Err(e) => return Err(e),
        }
        let s0 = match c.slice(4) {
            Ok(s) => s,
            Err(e) => return Err(e),
        };
        let v0 = [s0[0], s0[1], s0[2], s0[3]];
        assert(v0@ =~= s0@);
        let v1 = match c.u8() {
            Ok(v) => v,
            Err(e) => return Err(e),
        };
        let s2 = match c.slice(rdlen - 5) {
            Ok(s) => s,
            Err(e) => return Err(e),
        };
        let v2 = vstd::slice::slice_to_vec(s2);
        match c.close_window() {
            Ok(_) => {},
            Err(e) => return Err(e),
        }
        Ok(Wks { address: v0, protocol: v1, bitmap: v2 })
    }

    open spec fn of_data(rd: RecordData) -> Option<Wks> {
        match rd {
            RecordData::Wks(d) => Some(d),
            _ => None,
        }
    }

    fn from(rd: RecordData) -> (r: Result<Wks>) {
        match rd {
            RecordData::Wks(d) => Ok(d),
            _ => Err(Error::InternalError("record data conversion failed")),
        }
    }
}

impl RData for Wks {
    open spec fn spec_rtype() -> u16 {
        Wks::RTYPE
    }

    fn rtype_value() -> (t: u16) {
        Wks::RTYPE
    }
}

/// The data of an `MB` record: a mailbox domain name.
#[derive(Clone, Debug, PartialEq, Eq, Default)]
pub struct Mb {
    /// A host with the mailbox.
    pub madname: Name,
}

impl Mb {
    /// The record type of this data: `MB`.
    pub const RTYPE: u16 = Type::MB;

    /// Returns the record type of this data.
    pub fn rtype(&self) -> (t: Type)
        ensures
            t@ == Mb::RTYPE,
    {
        proof {
            Type::lemma_from_value(Mb::RTYPE);
        }
        Type::from(Mb::RTYPE)
    }
}

impl RDataBase for Mb {
    open spec fn read_outcome(c: CursorView, rdlen: int, r: Result<Mb>, c2: CursorView) -> bool {
        match window_open(c, rdlen) {
            (Err(e), c1) => r == Err::<Mb, Error>(e) && c2 == c1,
            (Ok(_), c1) => 
                match name_read(c1) {
                    (Err(e), c3) => r == Err::<Mb, Error>(e) && c2 == c3,
                    (Ok(v0), c3) => 
                        match window_close(c3) {
                            (Err(e), c4) => r == Err::<Mb, Error>(e) && c2 == c4,
                            (Ok(_), c4) => r matches Ok(d) && d.madname@ == v0 && c2 == c4,
                        },
                    },
        }
    }

    fn from_cursor(c: &mut Cursor<'_>, rdlen: usize) -> (r: Result<Mb>) {
        match c.window(rdlen) {
            Ok(_) => {},
            Err(e) => return Err(e),
        }
        let v0 = match Name::from_cursor(c) {
            Ok(v) => v,
            Err(e) => return Err(e),
        };
        match c.close_window() {
            Ok(_) => {},
            Err(e) => return Err(e),
        }
        Ok(Mb { madname: v0 })
    }

    open spec fn of_data(rd: RecordData) -> Option<Mb> {
        match rd {
            RecordData::Mb(d) => Some(d),
            _ => None,
        }
    }

    fn from(rd: RecordData) -> (r: Result<Mb>) {
        match rd {
            RecordData::Mb(d) => Ok(d),
            _ => Err(Error::InternalError("record data conversion failed")),
        }
    }
}

impl RData for Mb {
    open spec fn spec_rtype() -> u16 {
        Mb::RTYPE
    }

    fn rtype_value() -> (t: u16) {
        Mb::RTYPE
    }
}

/// The data of an `MD` record: a mail destination (obsolete).
#[derive(Clone, Debug, PartialEq, Eq, Default)]
pub struct Md {
    /// A host with a mail agent for the domain.
    pub madname: Name,
}

impl Md {
    /// The record type of this data: `MD`.
    pub const RTYPE: u16 = Type::MD;

    /// Returns the record type of this data.
    pub fn rtype(&self) -> (t: Type)
        ensures
            t@ == Md::RTYPE,
    {
        proof {
            Type::lemma_from_value(Md::RTYPE);
        }
        Type::from(Md::RTYPE)
    }
}

impl RDataBase for Md {
    open spec fn read_outcome(c: CursorView, rdlen: int, r: Result<Md>, c2: CursorView) -> bool {
        match window_open(c, rdlen) {
            (Err(e), c1) => r == Err::<Md, Error>(e) && c2 == c1,
            (Ok(_), c1) => 
                match name_read(c1) {
                    (Err(e), c3) => r == Err::<Md, Error>(e) && c2 == c3,
                    (Ok(v0), c3) => 
                        match window_close(c3) {
                            (Err(e), c4) => r == Err::<Md, Error>(e) && c2 == c4,
                            (Ok(_), c4) => r matches Ok(d) && d.madname@ == v0 && c2 == c4,
                        },
                    },
        }
    }

    fn from_cursor(c: &mut Cursor<'_>, rdlen: usize) -> (r: Result<Md>) {
        match c.window(rdlen) {
            Ok(_) => {},
            Err(e) => return Err(e),
        }
        let v0 = match Name::from_cursor(c) {
            Ok(v) => v,
            Err(e) => return Err(e),
        };
        match c.close_window() {
            Ok(_) => {},
            Err(e) => return Err(e),
        }
        Ok(Md { madname: v0 })
    }

    open spec fn of_data(rd: RecordData) -> Option<Md> {
        match rd {
            RecordData::Md(d) => Some(d),
            _ => None,
        }
    }

    fn from(rd: RecordData) -> (r: Result<Md>) {
        match rd {
            RecordData::Md(d) => Ok(d),
            _ => Err(Error::InternalError("record data conversion failed")),
        }
    }
}

impl RData for Md {
    open spec fn spec_rtype() -> u16 {
        Md::RTYPE
    }

    fn rtype_value() -> (t: u16) {
        Md::RTYPE
    }
}

/// The data of an `MF` record: a mail forwarder (obsolete).
#[derive(Clone, Debug, PartialEq, Eq, Default)]
pub struct Mf {
    /// A host with a mail agent that forwards mail for the domain.
    pub madname: Name,
}

impl Mf {
    /// The record type of this data: `MF`.
    pub const RTYPE: u16 = Type::MF;

    /// Returns the record type of this data.
    pub fn rtype(&self) -> (t: Type)
        ensures
            t@ == Mf::RTYPE,
    {
        proof {
            Type::lemma_from_value(Mf::RTYPE);
        }
        Type::from(Mf::RTYPE)
    }
}

impl RDataBase for Mf {
    open spec fn read_outcome(c: CursorView, rdlen: int, r: Result<Mf>, c2: CursorView) -> bool {
        match window_open(c, rdlen) {
            (Err(e), c1) => r == Err::<Mf, Error>(e) && c2 == c1,
            (Ok(_), c1) => 
                match name_read(c1) {
                    (Err(e), c3) => r == Err::<Mf, Error>(e) && c2 == c3,
                    (Ok(v0), c3) => 
                        match window_close(c3) {
                            (Err(e), c4) => r == Err::<Mf, Error>(e) && c2 == c4,
                            (Ok(_), c4) => r matches Ok(d) && d.madname@ == v0 && c2 == c4,
                        },
                    },
        }
    }

    fn from_cursor(c: &mut Cursor<'_>, rdlen: usize) -> (r: Result<Mf>) {
        match c.window(rdlen) {
            Ok(_) => {},
            Err(e) => return Err(e),
        }
        let v0 = match Name::from_cursor(c) {
            Ok(v) => v,
            Err(e) => return Err(e),
        };
        match c.close_window() {
            Ok(_) => {},
            Err(e) => return Err(e),
        }
        Ok(Mf { madname: v0 })
    }

    open spec fn of_data(rd: RecordData) -> Option<Mf> {
        match rd {
            RecordData::Mf(d) => Some(d),
            _ => None,
        }
    }

    fn from(rd: RecordData) -> (r: Result<Mf>) {
        match rd {
            RecordData::Mf(d) => Ok(d),
            _ => Err(Error::InternalError("record data conversion failed")),
        }
    }
}

impl RData for Mf {
    open spec fn spec_rtype() -> u16 {
        Mf::RTYPE
    }

    fn rtype_value() -> (t: u16) {
        Mf::RTYPE
    }
}

/// The data of an `MG` record: a mail group member.
#[derive(Clone, Debug, PartialEq, Eq, Default)]
pub struct Mg {
    /// A mailbox which is a member of the mail group.
    pub mgmname: Name,
}

impl Mg {
    /// The record type of this data: `MG`.
    pub const RTYPE: u16 = Type::MG;

    /// Returns the record type of this data.
    pub fn rtype(&self) -> (t: Type)
        ensures
            t@ == Mg::RTYPE,
    {
        proof {
            Type::lemma_from_value(Mg::RTYPE);
        }
        Type::from(Mg::RTYPE)
    }
}

impl RDataBase for Mg {
    open spec fn read_outcome(c: CursorView, rdlen: int, r: Result<Mg>, c2: CursorView) -> bool {
        match window_open(c, rdlen) {
            (Err(e), c1) => r == Err::<Mg, Error>(e) && c2 == c1,
            (Ok(_), c1) => 
                match name_read(c1) {
                    (Err(e), c3) => r == Err::<Mg, Error>(e) && c2 == c3,
                    (Ok(v0), c3) => 
                        match window_close(c3) {
                            (Err(e), c4) => r == Err::<Mg, Error>(e) && c2 == c4,
                            (Ok(_), c4) => r matches Ok(d) && d.mgmname@ == v0 && c2 == c4,
                        },
                    },
        }
    }

    fn from_cursor(c: &mut Cursor<'_>, rdlen: usize) -> (r: Result<Mg>) {
        match c.window(rdlen) {
            Ok(_) => {},
            Err(e) => return Err(e),
        }
        let v0 = match Name::from_cursor(c) {
            Ok(v) => v,
            Err(e) => return Err(e),
        };
        match c.close_window() {
            Ok(_) => {},
            Err(e) => return Err(e),
        }
        Ok(Mg { mgmname: v0 })
    }

    open spec fn of_data(rd: RecordData) -> Option<Mg> {
        match rd {
            RecordData::Mg(d) => Some(d),
            _ => None,
        }
    }

    fn from(rd: RecordData) -> (r: Result<Mg>) {
        match rd {
            RecordData::Mg(d) => Ok(d),
            _ => Err(Error::InternalError("record data conversion failed")),
        }
    }
}

impl RData for Mg {
    open spec fn spec_rtype() -> u16 {
        Mg::RTYPE
    }

    fn rtype_value() -> (t: u16) {
        Mg::RTYPE
    }
}

/// The data of a `MINFO` record: mailbox or mail list information.
#[derive(Clone, Debug, PartialEq, Eq, Default)]
pub struct Minfo {
    /// The mailbox responsible for the mailing list or mailbox.
    pub rmailbx: Name,
    /// The mailbox to receive error messages.
    pub emailbx: Name,
}

impl Minfo {
    /// The record type of this data: `MINFO`.
    pub const RTYPE: u16 = Type::MINFO;

    /// Returns the record type of this data.
    pub fn rtype(&self) -> (t: Type)
        ensures
            t@ == Minfo::RTYPE,
    {
        proof {
            Type::lemma_from_value(Minfo::RTYPE);
        }
        Type::from(Minfo::RTYPE)
    }
}

impl RDataBase for Minfo {
    open spec fn read_outcome(c: CursorView, rdlen: int, r: Result<Minfo>, c2: CursorView) -> bool {
        match window_open(c, rdlen) {
            (Err(e), c1) => r == Err::<Minfo, Error>(e) && c2 == c1,
            (Ok(_), c1) => 
                match name_read(c1) {
                    (Err(e), c3) => r == Err::<Minfo, Error>(e) && c2 == c3,
                    (Ok(v0), c3) => 
                        match name_read(c3) {
                            (Err(e), c4) => r == Err::<Minfo, Error>(e) && c2 == c4,
                            (Ok(v1), c4) => 
                                match window_close(c4) {
                                    (Err(e), c5) => r == Err::<Minfo, Error>(e) && c2 == c5,
                                    (Ok(_), c5) => r matches Ok(d) && d.rmailbx@ == v0 && d.emailbx@ == v1 && c2 == c5,
                                },
                            },
                    },
        }
    }

    fn from_cursor(c: &mut Cursor<'_>, rdlen: usize) -> (r: Result<Minfo>) {
        match c.window(rdlen) {
            Ok(_) => {},
            Err(e) => return Err(e),
        }
        let v0 = match Name::from_cursor(c) {
            Ok(v) => v,
            Err(e) => return Err(e),
        };
        let v1 = match Name::from_cursor(c) {
            Ok(v) => v,
            Err(e) => return Err(e),
        };
        match c.close_window() {
            Ok(_) => {},
            Err(e) => return Err(e),
        }
        Ok(Minfo { rmailbx: v0, emailbx: v1 })
    }

    open spec fn of_data(rd: RecordData) -> Option<Minfo> {
        match rd {
            RecordData::Minfo(d) => Some(d),
            _ => None,
        }
    }

    fn from(rd: RecordData) -> (r: Result<Minfo>) {
        match rd {
            RecordData::Minfo(d) => Ok(d),
            _ => Err(Error::InternalError("record data conversion failed")),
        }
    }
}

impl RData for Minfo {
    open spec fn spec_rtype() -> u16 {
        Minfo::RTYPE
    }

    fn rtype_value() -> (t: u16) {
        Minfo::RTYPE
    }
}

/// The data of an `MR` record: a mail rename domain name.
#[derive(Clone, Debug, PartialEq, Eq, Default)]
pub struct Mr {
    /// A mailbox which is the proper rename of the mailbox.
    pub newname: Name,
}

impl Mr {
    /// The record type of this data: `MR`.
    pub const RTYPE: u16 = Type::MR;

    /// Returns the record type of this data.
    pub fn rtype(&self) -> (t: Type)
        ensures
            t@ == Mr::RTYPE,
    {
        proof {
            Type::lemma_from_value(Mr::RTYPE);
        }
        Type::from(Mr::RTYPE)
    }
}

impl RDataBase for Mr {
    open spec fn read_outcome(c: CursorView, rdlen: int, r: Result<Mr>, c2: CursorView) -> bool {
        match window_open(c, rdlen) {
            (Err(e), c1) => r == Err::<Mr, Error>(e) && c2 == c1,
            (Ok(_), c1) => 
                match name_read(c1) {
                    (Err(e), c3) => r == Err::<Mr, Error>(e) && c2 == c3,
                    (Ok(v0), c3) => 
                        match window_close(c3) {
                            (Err(e), c4) => r == Err::<Mr, Error>(e) && c2 == c4,
                            (Ok(_), c4) => r matches Ok(d) && d.newname@ == v0 && c2 == c4,
                        },
                    },
        }
    }

    fn from_cursor(c: &mut Cursor<'_>, rdlen: usize) -> (r: Result<Mr>) {
        match c.window(rdlen) {
            Ok(_) => {},
            Err(e) => return Err(e),
        }
        let v0 = match Name::from_cursor(c) {
            Ok(v) => v,
            Err(e) => return Err(e),
        };
        match c.close_window() {
            Ok(_) => {},
            Err(e) => return Err(e),
        }
        Ok(Mr { newname: v0 })
    }

    open spec fn of_data(rd: RecordData) -> Option<Mr> {
        match rd {
            RecordData::Mr(d) => Some(d),
            _ => None,
        }
    }

    fn from(rd: RecordData) -> (r: Result<Mr>) {
        match rd {
            RecordData::Mr(d) => Ok(d),
            _ => Err(Error::InternalError("record data conversion failed")),
        }
    }
}

impl RData for Mr {
    open spec fn spec_rtype() -> u16 {
        Mr::RTYPE
    }

    fn rtype_value() -> (t: u16) {
        Mr::RTYPE
    }
}

/// The data of an `MX` record: a mail exchange.
#[derive(Clone, Debug, PartialEq, Eq, Default)]
pub struct Mx {
    /// The preference of this exchange among others; lower is preferred.
    pub preference: u16,
    /// A host acting as a mail exchange.
    pub exchange: Name,
}

impl Mx {
    /// The record type of this data: `MX`.
    pub const RTYPE: u16 = Type::MX;

    /// Returns the record type of this data.
    pub fn rtype(&self) -> (t: Type)
        ensures
            t@ == Mx::RTYPE,
    {
        proof {
            Type::lemma_from_value(Mx::RTYPE);
        }
        Type::from(Mx::RTYPE)
    }
}

impl RDataBase for Mx {
    open spec fn read_outcome(c: CursorView, rdlen: int, r: Result<Mx>, c2: CursorView) -> bool {
        match window_open(c, rdlen) {
            (Err(e), c1) => r == Err::<Mx, Error>(e) && c2 == c1,
            (Ok(_), c1) => 
                match u16_read(c1) {
                    (Err(e), c3) => r == Err::<Mx, Error>(e) && c2 == c3,
                    (Ok(v0), c3) => 
                        match name_read(c3) {
                            (Err(e), c4) => r == Err::<Mx, Error>(e) && c2 == c4,
                            (Ok(v1), c4) => 
                                match window_close(c4) {
                                    (Err(e), c5) => r == Err::<Mx, Error>(e) && c2 == c5,
                                    (Ok(_), c5) => r matches Ok(d) && d.preference == v0 && d.exchange@ == v1 && c2 == c5,
                                },
                            },
                    },
        }
    }

    fn from_cursor(c: &mut Cursor<'_>, rdlen: usize) -> (r: Result<Mx>) {
        match c.window(rdlen) {
            Ok(_) => {},
            Err(e) => return Err(e),
        }
        let v0 = match c.u16_be() {
            Ok(v) => v,
            Err(e) => return Err(e),
        };
        let v1 = match Name::from_cursor(c) {
            Ok(v) => v,
            Err(e) => return Err(e),
        };
        match c.close_window() {
            Ok(_) => {},
            Err(e) => return Err(e),
        }
        Ok(Mx { preference: v0, exchange: v1 })
    }

    open spec fn of_data(rd: RecordData) -> Option<Mx> {
        match rd {
            RecordData::Mx(d) => Some(d),
            _ => None,
        }
    }

    fn from(rd: RecordData) -> (r: Result<Mx>) {
        match rd {
            RecordData::Mx(d) => Ok(d),
            _ => Err(Error::InternalError("record data conversion failed")),
        }
    }
}

impl RData for Mx {
    open spec fn spec_rtype() -> u16 {
        Mx::RTYPE
    }

    fn rtype_value() -> (t: u16) {
        Mx::RTYPE
    }
}

/// The data of a `NULL` record: anything.
#[derive(Clone, Debug, PartialEq, Eq, Default)]
pub struct Null {
    /// The record data.
    pub anything: Vec<u8>,
}

impl Null {
    /// The record type of this data: `NULL`.
    pub const RTYPE: u16 = Type::NULL;

    /// Returns the record type of this data.
    pub fn rtype(&self) -> (t: Type)
        ensures
            t@ == Null::RTYPE,
    {
        proof {
            Type::lemma_from_value(Null::RTYPE);
        }
        Type::from(Null::RTYPE)
    }
}

impl RDataBase for Null {
    open spec fn read_outcome(c: CursorView, rdlen: int, r: Result<Null>, c2: CursorView) -> bool {
        match window_open(c, rdlen) {
            (Err(e), c1) => r == Err::<Null, Error>(e) && c2 == c1,
            (Ok(_), c1) => 
                match slice_read(c1, rdlen) {
                    (Err(e), c3) => r == Err::<Null, Error>(e) && c2 == c3,
                    (Ok(v0), c3) => 
                        match window_close(c3) {
                            (Err(e), c4) => r == Err::<Null, Error>(e) && c2 == c4,
                            (Ok(_), c4) => r matches Ok(d) && d.anything@ == v0 && c2 == c4,
                        },
                    },
        }
    }

    fn from_cursor(c: &mut Cursor<'_>, rdlen: usize) -> (r: Result<Null>) {
        match c.window(rdlen) {
            Ok(_) => {},
            Err(e) => return Err(e),
        }
        let s0 = match c.slice(rdlen) {
            Ok(s) => s,
            Err(e) => return Err(e),
        };
        let v0 = vstd::slice::slice_to_vec(s0);
        match c.close_window() {
            Ok(_) => {},
            Err(e) => return Err(e),
        }
        Ok(Null { anything: v0 })
    }

    open spec fn of_data(rd: RecordData) -> Option<Null> {
        match rd {
            RecordData::Null(d) => Some(d),
            _ => None,
        }
    }

    fn from(rd: RecordData) -> (r: Result<Null>) {
        match rd {
            RecordData::Null(d) => Ok(d),
            _ => Err(Error::InternalError("record data conversion failed")),
        }
    }
}

impl RData for Null {
    open spec fn spec_rtype() -> u16 {
        Null::RTYPE
    }

    fn rtype_value() -> (t: u16) {
        Null::RTYPE
    }
}

/// The data of an `NS` record: an authoritative name server.
#[derive(Clone, Debug, PartialEq, Eq, Default)]
pub struct Ns {
    /// A host which should be authoritative for the domain.
    pub nsdname: Name,
}

impl Ns {
    /// The record type of this data: `NS`.
    pub const RTYPE: u16 = Type::NS;

    /// Returns the record type of this data.
    pub fn rtype(&self) -> (t: Type)
        ensures
            t@ == Ns::RTYPE,
    {
        proof {
            Type::lemma_from_value(Ns::RTYPE);
        }
        Type::from(Ns::RTYPE)
    }
}

impl RDataBase for Ns {
    open spec fn read_outcome(c: CursorView, rdlen: int, r: Result<Ns>, c2: CursorView) -> bool {
        match window_open(c, rdlen) {
            (Err(e), c1) => r == Err::<Ns, Error>(e) && c2 == c1,
            (Ok(_), c1) => 
                match name_read(c1) {
                    (Err(e), c3) => r == Err::<Ns, Error>(e) && c2 == c3,
                    (Ok(v0), c3) => 
                        match window_close(c3) {
                            (Err(e), c4) => r == Err::<Ns, Error>(e) && c2 == c4,
                            (Ok(_), c4) => r matches Ok(d) && d.nsdname@ == v0 && c2 == c4,
                        },
                    },
        }
    }

    fn from_cursor(c: &mut Cursor<'_>, rdlen: usize) -> (r: Result<Ns>) {
        match c.window(rdlen) {
            Ok(_) => {},
            Err(e) => return Err(e),
        }
        let v0 = match Name::from_cursor(c) {
            Ok(v) => v,
            Err(e) => return Err(e),
        };
        match c.close_window() {
            Ok(_) => {},
            Err(e) => return Err(e),
        }
        Ok(Ns { nsdname: v0 })
    }

    open spec fn of_data(rd: RecordData) -> Option<Ns> {
        match rd {
            RecordData::Ns(d) => Some(d),
            _ => None,
        }
    }

    fn from(rd: RecordData) -> (r: Result<Ns>) {
        match rd {
            RecordData::Ns(d) => Ok(d),
            _ => Err(Error::InternalError("record data conversion failed")),
        }
    }
}

impl RData for Ns {
    open spec fn spec_rtype() -> u16 {
        Ns::RTYPE
    }

    fn rtype_value() -> (t: u16) {
        Ns::RTYPE
    }
}

/// The data of a `PTR` record: a domain name pointer.
#[derive(Clone, Debug, PartialEq, Eq, Default)]
pub struct Ptr {
    /// A domain name which points to some location.
    pub ptrdname: Name,
}

impl Ptr {
    /// The record type of this data: `PTR`.
    pub const RTYPE: u16 = Type::PTR;

    /// Returns the record type of this data.
    pub fn rtype(&self) -> (t: Type)
        ensures
            t@ == Ptr::RTYPE,
    {
        proof {
            Type::lemma_from_value(Ptr::RTYPE);
        }
        Type::from(Ptr::RTYPE)
    }
}

impl RDataBase for Ptr {
    open spec fn read_outcome(c: CursorView, rdlen: int, r: Result<Ptr>, c2: CursorView) -> bool {
        match window_open(c, rdlen) {
            (Err(e), c1) => r == Err::<Ptr, Error>(e) && c2 == c1,
            (Ok(_), c1) => 
                match name_read(c1) {
                    (Err(e), c3) => r == Err::<Ptr, Error>(e) && c2 == c3,
                    (Ok(v0), c3) => 
                        match window_close(c3) {
                            (Err(e), c4) => r == Err::<Ptr, Error>(e) && c2 == c4,
                            (Ok(_), c4) => r matches Ok(d) && d.ptrdname@ == v0 && c2 == c4,
                        },
                    },
        }
    }

    fn from_cursor(c: &mut Cursor<'_>, rdlen: usize) -> (r: Result<Ptr>) {
        match c.window(rdlen) {
            Ok(_) => {},
            Err(e) => return Err(e),
        }
        let v0 = match Name::from_cursor(c) {
            Ok(v) => v,
            Err(e) => return Err(e),
        };
        match c.close_window() {
            Ok(_) => {},
            Err(e) => return Err(e),
        }
        Ok(Ptr { ptrdname: v0 })
    }

    open spec fn of_data(rd: RecordData) -> Option<Ptr> {
        match rd {
            RecordData::Ptr(d) => Some(d),
            _ => None,
        }
    }

    fn from(rd: RecordData) -> (r: Result<Ptr>) {
        match rd {
            RecordData::Ptr(d) => Ok(d),
            _ => Err(Error::InternalError("record data conversion failed")),
        }
    }
}

impl RData for Ptr {
    open spec fn spec_rtype() -> u16 {
        Ptr::RTYPE
    }

    fn rtype_value() -> (t: u16) {
        Ptr::RTYPE
    }
}

/// The data of an `SOA` record: the start of a zone of authority.
#[derive(Clone, Debug, PartialEq, Eq, Default)]
pub struct Soa {
    /// The primary name server of the zone.
    pub mname: Name,
    /// The mailbox of the person responsible for the zone.
    pub rname: Name,
    /// The version number of the zone.
    pub serial: u32,
    /// The interval before the zone should be refreshed.
    pub refresh: u32,
    /// The interval before a failed refresh should be retried.
    pub retry: u32,
    /// The upper limit on the interval before the zone is no longer authoritative.
    pub expire: u32,
    /// The minimum time to live of records of the zone.
    pub minimum: u32,
}

impl Soa {
    /// The record type of this data: `SOA`.
    pub const RTYPE: u16 = Type::SOA;

    /// Returns the record type of this data.
    pub fn rtype(&self) -> (t: Type)
        ensures
            t@ == Soa::RTYPE,
    {
        proof {
            Type::lemma_from_value(Soa::RTYPE);
        }
        Type::from(Soa::RTYPE)
    }
}

impl RDataBase for Soa {
    open spec fn read_outcome(c: CursorView, rdlen: int, r: Result<Soa>, c2: CursorView) -> bool {
        match window_open(c, rdlen) {
            (Err(e), c1) => r == Err::<Soa, Error>(e) && c2 == c1,
            (Ok(_), c1) => 
                match name_read(c1) {
                    (Err(e), c3) => r == Err::<Soa, Error>(e) && c2 == c3,
                    (Ok(v0), c3) => 
                        match name_read(c3) {
                            (Err(e), c4) => r == Err::<Soa, Error>(e) && c2 == c4,
                            (Ok(v1), c4) => 
                                match u32_read(c4) {
                                    (Err(e), c5) => r == Err::<Soa, Error>(e) && c2 == c5,
                                    (Ok(v2), c5) => 
                                        match u32_read(c5) {
                                            (Err(e), c6) => r == Err::<Soa, Error>(e) && c2 == c6,
                                            (Ok(v3), c6) => 
                                                match u32_read(c6) {
                                                    (Err(e), c7) => r == Err::<Soa, Error>(e) && c2 == c7,
                                                    (Ok(v4), c7) => 
                                                        match u32_read(c7) {
                                                            (Err(e), c8) => r == Err::<Soa, Error>(e) && c2 == c8,
                                                            (Ok(v5), c8) => 
                                                                match u32_read(c8) {
                                                                    (Err(e), c9) => r == Err::<Soa, Error>(e) && c2 == c9,
                                                                    (Ok(v6), c9) => 
                                                                        match window_close(c9) {
                                                                            (Err(e), c10) => r == Err::<Soa, Error>(e) && c2 == c10,
                                                                            (Ok(_), c10) => r matches Ok(d) && d.mname@ == v0 && d.rname@ == v1 && d.serial == v2 && d.refresh == v3 && d.retry == v4 && d.expire == v5 && d.minimum == v6 && c2 == c10,
                                                                        },
                                                                    },
                                                            },
                                                    },
                                            },
                                    },
                            },
                    },
        }
    }

    fn from_cursor(c: &mut Cursor<'_>, rdlen: usize) -> (r: Result<Soa>) {
        match c.window(rdlen) {
            Ok(_) => {},
            Err(e) => return Err(e),
        }
        let v0 = match Name::from_cursor(c) {
            Ok(v) => v,
            Err(e) => return Err(e),
        };
        let v1 = match Name::from_cursor(c) {
            Ok(v) => v,
            Err(e) => return Err(e),
        };
        let v2 = match c.u32_be() {
            Ok(v) => v,
            Err(e) => return Err(e),
        };
        let v3 = match c.u32_be() {
            Ok(v) => v,
            Err(e) => return Err(e),
        };
        let v4 = match c.u32_be() {
            Ok(v) => v,
            Err(e) => return Err(e),
        };
        let v5 = match c.u32_be() {
            Ok(v) => v,
            Err(e) => return Err(e),
        };
        let v6 = match c.u32_be() {
            Ok(v) => v,
            Err(e) => return Err(e),
        };
        match c.close_window() {
            Ok(_) => {},
            Err(e) => return Err(e),
        }
        Ok(Soa { mname: v0, rname: v1, serial: v2, refresh: v3, retry: v4, expire: v5, minimum: v6 })
    }

    open spec fn of_data(rd: RecordData) -> Option<Soa> {
        match rd {
            RecordData::Soa(d) => Some(d),
            _ => None,
        }
    }

    fn from(rd: RecordData) -> (r: Result<Soa>) {
        match rd {
            RecordData::Soa(d) => Ok(d),
            _ => Err(Error::InternalError("record data conversion failed")),
        }
    }
}

impl RData for Soa {
    open spec fn spec_rtype() -> u16 {
        Soa::RTYPE
    }

    fn rtype_value() -> (t: u16) {
        Soa::RTYPE
    }
}

/// The bytes of the character strings at the cursor, read while `left` bytes of the record
/// data remain, appended to `acc`; and the cursor afterwards.
pub open spec fn txt_read_from(c: CursorView, left: int, acc: Seq<u8>) -> (Result<Seq<u8>>, CursorView)
    decreases if left > 0 {
        left
    } else {
        0
    },
{
    if left <= 0 {
        (Ok(acc), c)
    } else {
        match u8_read(c) {
            (Err(e), c1) => (Err(e), c1),
            (Ok(len), c1) => if len > 0 {
                match slice_read(c1, len as int) {
                    (Err(e), c2) => (Err(e), c2),
                    (Ok(b), c2) => txt_read_from(c2, left - len - 1, acc + b),
                }
            } else {
                txt_read_from(c1, left - 1, acc)
            },
        }
    }
}

/// The data of a `TXT` record: text, the bytes of its character strings one after another.
#[derive(Clone, Debug, PartialEq, Eq, Default)]
pub struct Txt {
    /// The text.
    pub text: Vec<u8>,
}

impl Txt {
    /// The record type of this data: `TXT`.
    pub const RTYPE: u16 = Type::TXT;

    /// Returns the record type of this data.
    pub fn rtype(&self) -> (t: Type)
        ensures
            t@ == Txt::RTYPE,
    {
        proof {
            Type::lemma_from_value(Txt::RTYPE);
        }
        Type::from(Txt::RTYPE)
    }
}

impl RDataBase for Txt {
    open spec fn read_outcome(c: CursorView, rdlen: int, r: Result<Txt>, c2: CursorView) -> bool {
        match window_open(c, rdlen) {
            (Err(e), c1) => r == Err::<Txt, Error>(e) && c2 == c1,
            (Ok(_), c1) => match txt_read_from(c1, rdlen, Seq::empty()) {
                (Err(e), c3) => r == Err::<Txt, Error>(e) && c2 == c3,
                (Ok(t), c3) => match window_close(c3) {
                    (Err(e), c4) => r == Err::<Txt, Error>(e) && c2 == c4,
                    (Ok(_), c4) => r matches Ok(d) && d.text@ == t && c2 == c4,
                },
            },
        }
    }

    fn from_cursor(c: &mut Cursor<'_>, rdlen: usize) -> (r: Result<Txt>) {
        match c.window(rdlen) {
            Ok(_) => {},
            Err(e) => return Err(e),
        }
        let ghost c1 = c@;
        let mut text: Vec<u8> = Vec::new();
        let mut left: usize = rdlen;
        assert(text@ =~= Seq::<u8>::empty());
        while left > 0
            invariant
                window_open(old(c)@, rdlen as int) == (Ok::<(), Error>(()), c1),
                c@.pos + left == c@.end,
                c@.buf == c1.buf,
                c@.window == c1.window,
                txt_read_from(c1, rdlen as int, Seq::empty()) == txt_read_from(
                    c@,
                    left as int,
                    text@,
                ),
            decreases left,
        {
            let ghost before = c@;
            let ghost text0 = text@;
            let len = match c.u8() {
                Ok(l) => l as usize,
                Err(e) => return Err(e),
            };
            if len > 0 {
                let s = match c.slice(len) {
                    Ok(s) => s,
                    Err(e) => return Err(e),
                };
                text.extend_from_slice(s);
                assert(text@ == text0 + s@);
            }
            left = left - (len + 1);
        }
        match c.close_window() {
            Ok(_) => {},
            Err(e) => return Err(e),
        }
        Ok(Txt { text })
    }

    open spec fn of_data(rd: RecordData) -> Option<Txt> {
        match rd {
            RecordData::Txt(d) => Some(d),
            _ => None,
        }
    }

    fn from(rd: RecordData) -> (r: Result<Txt>) {
        match rd {
            RecordData::Txt(d) => Ok(d),
            _ => Err(Error::InternalError("record data conversion failed")),
        }
    }
}

impl RData for Txt {
    open spec fn spec_rtype() -> u16 {
        Txt::RTYPE
    }

    fn rtype_value() -> (t: u16) {
        Txt::RTYPE
    }
}

/// Decoded `HINFO` data is two character-strings in wire order: the CPU is the first (its
/// length byte, then as many bytes), the OS the one right after it, and together they fill
/// the record data.
pub proof fn lemma_hinfo_fields(c: CursorView, rdlen: int, d: Hinfo, c2: CursorView)
    requires
        <Hinfo as RDataBase>::read_outcome(c, rdlen, Ok(d), c2),
    ensures
        ({
            let p = c.pos as int;
            let q = p + 1 + c.buf[p];
            &&& c.pos + rdlen <= c.end
            &&& rdlen == 2 + c.buf[p] + c.buf[q]
            &&& d.cpu@ == c.buf.subrange(p + 1, q)
            &&& d.os@ == c.buf.subrange(q + 1, q + 1 + c.buf[q])
            &&& c2.pos == p + rdlen
        }),
{
}

/// Decoded `CNAME` data is the domain name encoded at the start of the record data, and that
/// name fills the record data.
pub proof fn lemma_cname_name(c: CursorView, rdlen: int, d: Cname, c2: CursorView)
    requires
        <Cname as RDataBase>::read_outcome(c, rdlen, Ok(d), c2),
    ensures
        c.pos + rdlen <= c.end,
        read_name_spec(data_window(c, rdlen)) matches Ok((t, q)) && t == d.cname@ && q == c.pos + rdlen,
        c2.pos == c.pos + rdlen,
{
    assert(c.fits(rdlen));
    lemma_name_in_window(data_window(c, rdlen));
}

/// Decoded `MB` data is the domain name encoded at the start of the record data, and that
/// name fills the record data.
pub proof fn lemma_mb_name(c: CursorView, rdlen: int, d: Mb, c2: CursorView)
    requires
        <Mb as RDataBase>::read_outcome(c, rdlen, Ok(d), c2),
    ensures
        c.pos + rdlen <= c.end,
        read_name_spec(data_window(c, rdlen)) matches Ok((t, q)) && t == d.madname@ && q == c.pos + rdlen,
        c2.pos == c.pos + rdlen,
{
    assert(c.fits(rdlen));
    lemma_name_in_window(data_window(c, rdlen));
}

/// Decoded `MD` data is the domain name encoded at the start of the record data, and that
/// name fills the record data.
pub proof fn lemma_md_name(c: CursorView, rdlen: int, d: Md, c2: CursorView)
    requires
        <Md as RDataBase>::read_outcome(c, rdlen, Ok(d), c2),
    ensures
        c.pos + rdlen <= c.end,
        read_name_spec(data_window(c, rdlen)) matches Ok((t, q)) && t == d.madname@ && q == c.pos + rdlen,
        c2.pos == c.pos + rdlen,
{
    assert(c.fits(rdlen));
    lemma_name_in_window(data_window(c, rdlen));
}

/// Decoded `MF` data is the domain name encoded at the start of the record data, and that
/// name fills the record data.
pub proof fn lemma_mf_name(c: CursorView, rdlen: int, d: Mf, c2: CursorView)
    requires
        <Mf as RDataBase>::read_outcome(c, rdlen, Ok(d), c2),
    ensures
        c.pos + rdlen <= c.end,
        read_name_spec(data_window(c, rdlen)) matches Ok((t, q)) && t == d.madname@ && q == c.pos + rdlen,
        c2.pos == c.pos + rdlen,
{
    assert(c.fits(rdlen));
    lemma_name_in_window(data_window(c, rdlen));
}

/// Decoded `MG` data is the domain name encoded at the start of the record data, and that
/// name fills the record data.
pub proof fn lemma_mg_name(c: CursorView, rdlen: int, d: Mg, c2: CursorView)
    requires
        <Mg as RDataBase>::read_outcome(c, rdlen, Ok(d), c2),
    ensures
        c.pos + rdlen <= c.end,
        read_name_spec(data_window(c, rdlen)) matches Ok((t, q)) && t == d.mgmname@ && q == c.pos + rdlen,
        c2.pos == c.pos + rdlen,
{
    assert(c.fits(rdlen));
    lemma_name_in_window(data_window(c, rdlen));
}

/// Decoded `MR` data is the domain name encoded at the start of the record data, and that
/// name fills the record data.
pub proof fn lemma_mr_name(c: CursorView, rdlen: int, d: Mr, c2: CursorView)
    requires
        <Mr as RDataBase>::read_outcome(c, rdlen, Ok(d), c2),
    ensures
        c.pos + rdlen <= c.end,
        read_name_spec(data_window(c, rdlen)) matches Ok((t, q)) && t == d.newname@ && q == c.pos + rdlen,
        c2.pos == c.pos + rdlen,
{
    assert(c.fits(rdlen));
    lemma_name_in_window(data_window(c, rdlen));
}

/// Decoded `NS` data is the domain name encoded at the start of the record data, and that
/// name fills the record data.
pub proof fn lemma_ns_name(c: CursorView, rdlen: int, d: Ns, c2: CursorView)
    requires
        <Ns as RDataBase>::read_outcome(c, rdlen, Ok(d), c2),
    ensures
        c.pos + rdlen <= c.end,
        read_name_spec(data_window(c, rdlen)) matches Ok((t, q)) && t == d.nsdname@ && q == c.pos + rdlen,
        c2.pos == c.pos + rdlen,
{
    assert(c.fits(rdlen));
    lemma_name_in_window(data_window(c, rdlen));
}

/// Decoded `PTR` data is the domain name encoded at the start of the record data, and that
/// name fills the record data.
pub proof fn lemma_ptr_name(c: CursorView, rdlen: int, d: Ptr, c2: CursorView)
    requires
        <Ptr as RDataBase>::read_outcome(c, rdlen, Ok(d), c2),
    ensures
        c.pos + rdlen <= c.end,
        read_name_spec(data_window(c, rdlen)) matches Ok((t, q)) && t == d.ptrdname@ && q == c.pos + rdlen,
        c2.pos == c.pos + rdlen,
{
    assert(c.fits(rdlen));
    lemma_name_in_window(data_window(c, rdlen));
}

/// Decoded `A` data is the record's four data bytes in wire order: the data is exactly four
/// bytes long and the address is those bytes.
pub proof fn lemma_a_address(c: CursorView, rdlen: int, d: A, c2: CursorView)
    requires
        <A as RDataBase>::read_outcome(c, rdlen, Ok(d), c2),
    ensures
        rdlen == 4,
        c.pos + 4 <= c.end,
        d.address@ == c.buf.subrange(c.pos as int, c.pos + 4),
        c2.pos == c.pos + 4,
{
}

/// Decoded `WKS` data follows the wire order of its fields: the address is the first four
/// data bytes, the protocol the fifth, and the bit map every data byte after it.
pub proof fn lemma_wks_fields(c: CursorView, rdlen: int, d: Wks, c2: CursorView)
    requires
        <Wks as RDataBase>::read_outcome(c, rdlen, Ok(d), c2),
    ensures
        5 <= rdlen,
        c.pos + rdlen <= c.end,
        d.address@ == c.buf.subrange(c.pos as int, c.pos + 4),
        d.protocol == c.buf[c.pos + 4],
        d.bitmap@ == c.buf.subrange(c.pos + 5, c.pos + rdlen),
        c2.pos == c.pos + rdlen,
{
}

/// Decoded `NULL` data is all the bytes of the record data.
pub proof fn lemma_null_data(c: CursorView, rdlen: int, d: Null, c2: CursorView)
    requires
        <Null as RDataBase>::read_outcome(c, rdlen, Ok(d), c2),
    ensures
        c.pos + rdlen <= c.end,
        d.anything@ == c.buf.subrange(c.pos as int, c.pos + rdlen),
        c2.pos == c.pos + rdlen,
{
}

/// Decoded `MX` data follows the wire order of its fields: the preference is the big-endian
/// number in the first two data bytes, and the exchange is the name encoded after them, which
/// ends the record data.
pub proof fn lemma_mx_fields(c: CursorView, rdlen: int, d: Mx, c2: CursorView)
    requires
        <Mx as RDataBase>::read_outcome(c, rdlen, Ok(d), c2),
    ensures
        2 <= rdlen,
        c.pos + rdlen <= c.end,
        d.preference == c.buf[c.pos as int] * 256 + c.buf[c.pos + 1],
        read_name_spec(data_window(c, rdlen).at(c.pos + 2)) matches Ok((t, q)) && t
            == d.exchange@ && q == c.pos + rdlen,
        c2.pos == c.pos + rdlen,
{
    assert(c.fits(rdlen));
    lemma_name_in_window(data_window(c, rdlen).at(c.pos + 2));
}

/// Decoded `MINFO` data is two domain names in wire order: the responsible mailbox is the name
/// encoded at the start of the record data, the error mailbox the name right after it, which
/// ends the record data.
pub proof fn lemma_minfo_names(c: CursorView, rdlen: int, d: Minfo, c2: CursorView)
    requires
        <Minfo as RDataBase>::read_outcome(c, rdlen, Ok(d), c2),
    ensures
        c.pos + rdlen <= c.end,
        ({
            let w = data_window(c, rdlen);
            let r0 = read_name_spec(w);
            let r1 = read_name_spec(w.at(r0->Ok_0.1));
            &&& r0 is Ok && r0->Ok_0.0 == d.rmailbx@
            &&& r1 is Ok && r1->Ok_0.0 == d.emailbx@ && r1->Ok_0.1 == c.pos + rdlen
        }),
        c2.pos == c.pos + rdlen,
{
    assert(c.fits(rdlen));
    let w = data_window(c, rdlen);
    lemma_name_in_window(w);
    if let Ok((_t0, q0)) = read_name_spec(w) {
        lemma_name_in_window(w.at(q0));
    }
}

/// Decoded `SOA` data follows the wire order of its fields: the primary name server is the
/// name encoded at the start of the record data, the mailbox the name right after it, and
/// then come the serial, refresh, retry, expire and minimum, each a big-endian four-byte
/// number, the last ending the record data.
pub proof fn lemma_soa_fields(c: CursorView, rdlen: int, d: Soa, c2: CursorView)
    requires
        <Soa as RDataBase>::read_outcome(c, rdlen, Ok(d), c2),
    ensures
        c.pos + rdlen <= c.end,
        ({
            let w = data_window(c, rdlen);
            let r0 = read_name_spec(w);
            let r1 = read_name_spec(w.at(r0->Ok_0.1));
            let q1 = r1->Ok_0.1;
            &&& r0 is Ok && r0->Ok_0.0 == d.mname@
            &&& r1 is Ok && r1->Ok_0.0 == d.rname@
            &&& q1 + 20 == c.pos + rdlen
            &&& d.serial == ((c.buf[q1] * 256 + c.buf[q1 + 1]) * 256 + c.buf[q1 + 2]) * 256 + c.buf[q1 + 3]
            &&& d.refresh == ((c.buf[q1 + 4] * 256 + c.buf[q1 + 5]) * 256 + c.buf[q1 + 6]) * 256 + c.buf[q1 + 7]
            &&& d.retry == ((c.buf[q1 + 8] * 256 + c.buf[q1 + 9]) * 256 + c.buf[q1 + 10]) * 256 + c.buf[q1 + 11]
            &&& d.expire == ((c.buf[q1 + 12] * 256 + c.buf[q1 + 13]) * 256 + c.buf[q1 + 14]) * 256 + c.buf[q1 + 15]
            &&& d.minimum == ((c.buf[q1 + 16] * 256 + c.buf[q1 + 17]) * 256 + c.buf[q1 + 18]) * 256 + c.buf[q1 + 19]
        }),
        c2.pos == c.pos + rdlen,
{
    assert(c.fits(rdlen));
    let w = data_window(c, rdlen);
    lemma_name_in_window(w);
    if let Ok((_t0, q0)) = read_name_spec(w) {
        lemma_name_in_window(w.at(q0));
    }
}

/// Decoded `TXT` data made of one character-string is the bytes of that string: everything
/// after its length byte.
pub proof fn lemma_txt_single_string(c: CursorView, rdlen: int, d: Txt, c2: CursorView)
    requires
        c.end <= c.buf.len(),
        <Txt as RDataBase>::read_outcome(c, rdlen, Ok(d), c2),
        1 <= rdlen,
        c.buf[c.pos as int] == rdlen - 1,
    ensures
        c.pos + rdlen <= c.end,
        d.text@ == c.buf.subrange(c.pos + 1, c.pos + rdlen),
        c2.pos == c.pos + rdlen,
{
    assert(c.fits(rdlen));
    let c1 = window_open(c, rdlen).1;
    let len = c.buf[c.pos as int];
    let b = c.buf.subrange(c.pos + 1, c.pos + rdlen);
    assert(u8_read(c1).0 == Ok::<u8, Error>(len));
    let c1b = u8_read(c1).1;
    if len > 0 {
        assert(slice_read(c1b, len as int).0 == Ok::<Seq<u8>, Error>(b));
        assert(Seq::<u8>::empty() + b =~= b);
        let c3 = slice_read(c1b, len as int).1;
        assert(txt_read_from(c1, rdlen, Seq::empty()) == txt_read_from(c3, 0, Seq::<u8>::empty() + b));
        assert(txt_read_from(c3, 0, Seq::<u8>::empty() + b).0 == Ok::<Seq<u8>, Error>(b));
    } else {
        assert(b =~= Seq::<u8>::empty());
        assert(txt_read_from(c1, rdlen, Seq::empty()) == txt_read_from(c1b, 0, Seq::<u8>::empty()));
        assert(txt_read_from(c1b, 0, Seq::<u8>::empty()).0 == Ok::<Seq<u8>, Error>(b));
    }
}

} // verus!
