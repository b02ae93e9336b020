//! Resource records, with their data read into one of the supported types.

use vstd::prelude::*;

use crate::bytes::{Cursor, CursorView};
use crate::errors::{Error, Result};
use crate::names::inline_name::InlineName;
use crate::records::class::Class;
use crate::records::data::{Aaaa, Cname, Hinfo, Mb, Md, Mf, Mg, Minfo, Mr, Mx, Ns, Null, Ptr, RDataBase, RecordData, Soa, Txt, Wks, A};
use crate::records::rtype::Type;

verus! {

/// The record types whose data can be read into [`RecordData`].
pub open spec fn handled_type(ty: u16) -> bool {
    ty == Type::A || ty == Type::NS || ty == Type::MD || ty == Type::MF || ty == Type::CNAME || ty == Type::SOA || ty == Type::MB || ty == Type::MG || ty == Type::MR || ty == Type::NULL || ty == Type::WKS || ty == Type::PTR || ty == Type::HINFO || ty == Type::MINFO || ty == Type::MX || ty == Type::TXT || ty == Type::AAAA
}

/// Reading `rdlen` bytes of record data of type `ty` at the cursor `c` gives `d` and leaves the
/// cursor at `c2`, as the data type of `ty` reads it.
pub open spec fn rdata_outcome(ty: u16, c: CursorView, rdlen: int, d: Result<RecordData>, c2: CursorView) -> bool {
    if ty == Type::A {
        exists|x: Result<A>|
            #[trigger] A::read_outcome(c, rdlen, x, c2) && d == match x {
                Ok(v) => Ok::<RecordData, Error>(RecordData::A(v)),
                Err(e) => Err::<RecordData, Error>(e),
            }
    } else if ty == Type::NS {
        exists|x: Result<Ns>|
            #[trigger] Ns::read_outcome(c, rdlen, x, c2) && d == match x {
                Ok(v) => Ok::<RecordData, Error>(RecordData::Ns(v)),
                Err(e) => Err::<RecordData, Error>(e),
            }
    } else if ty == Type::MD {
        exists|x: Result<Md>|
            #[trigger] Md::read_outcome(c, rdlen, x, c2) && d == match x {
                Ok(v) => Ok::<RecordData, Error>(RecordData::Md(v)),
                Err(e) => Err::<RecordData, Error>(e),
            }
    } else if ty == Type::MF {
        exists|x: Result<Mf>|
            #[trigger] Mf::read_outcome(c, rdlen, x, c2) && d == match x {
                Ok(v) => Ok::<RecordData, Error>(RecordData::Mf(v)),
                Err(e) => Err::<RecordData, Error>(e),
            }
    } else if ty == Type::CNAME {
        exists|x: Result<Cname>|
            #[trigger] Cname::read_outcome(c, rdlen, x, c2) && d == match x {
                Ok(v) => Ok::<RecordData, Error>(RecordData::Cname(v)),
                Err(e) => Err::<RecordData, Error>(e),
            }
    } else if ty == Type::SOA {
        exists|x: Result<Soa>|
            #[trigger] Soa::read_outcome(c, rdlen, x, c2) && d == match x {
                Ok(v) => Ok::<RecordData, Error>(RecordData::Soa(v)),
                Err(e) => Err::<RecordData, Error>(e),
            }
    } else if ty == Type::MB {
        exists|x: Result<Mb>|
            #[trigger] Mb::read_outcome(c, rdlen, x, c2) && d == match x {
                Ok(v) => Ok::<RecordData, Error>(RecordData::Mb(v)),
                Err(e) => Err::<RecordData, Error>(e),
            }
    } else if ty == Type::MG {
        exists|x: Result<Mg>|
            #[trigger] Mg::read_outcome(c, rdlen, x, c2) && d == match x {
                Ok(v) => Ok::<RecordData, Error>(RecordData::Mg(v)),
                Err(e) => Err::<RecordData, Error>(e),
            }
    } else if ty == Type::MR {
        exists|x: Result<Mr>|
            #[trigger] Mr::read_outcome(c, rdlen, x, c2) && d == match x {
                Ok(v) => Ok::<RecordData, Error>(RecordData::Mr(v)),
                Err(e) => Err::<RecordData, Error>(e),
            }
    } else if ty == Type::NULL {
        exists|x: Result<Null>|
            #[trigger] Null::read_outcome(c, rdlen, x, c2) && d == match x {
                Ok(v) => Ok::<RecordData, Error>(RecordData::Null(v)),
                Err(e) => Err::<RecordData, Error>(e),
            }
    } else if ty == Type::WKS {
        exists|x: Result<Wks>|
            #[trigger] Wks::read_outcome(c, rdlen, x, c2) && d == match x {
                Ok(v) => Ok::<RecordData, Error>(RecordData::Wks(v)),
                Err(e) => Err::<RecordData, Error>(e),
            }
    } else if ty == Type::PTR {
        exists|x: Result<Ptr>|
            #[trigger] Ptr::read_outcome(c, rdlen, x, c2) && d == match x {
                Ok(v) => Ok::<RecordData, Error>(RecordData::Ptr(v)),
                Err(e) => Err::<RecordData, Error>(e),
            }
    } else if ty == Type::HINFO {
        exists|x: Result<Hinfo>|
            #[trigger] Hinfo::read_outcome(c, rdlen, x, c2) && d == match x {
                Ok(v) => Ok::<RecordData, Error>(RecordData::Hinfo(v)),
                Err(e) => Err::<RecordData, Error>(e),
            }
    } else if ty == Type::MINFO {
        exists|x: Result<Minfo>|
            #[trigger] Minfo::read_outcome(c, rdlen, x, c2) && d == match x {
                Ok(v) => Ok::<RecordData, Error>(RecordData::Minfo(v)),
                Err(e) => Err::<RecordData, Error>(e),
            }
    } else if ty == Type::MX {
        exists|x: Result<Mx>|
            #[trigger] Mx::read_outcome(c, rdlen, x, c2) && d == match x {
                Ok(v) => Ok::<RecordData, Error>(RecordData::Mx(v)),
                Err(e) => Err::<RecordData, Error>(e),
            }
    } else if ty == Type::TXT {
        exists|x: Result<Txt>|
            #[trigger] Txt::read_outcome(c, rdlen, x, c2) && d == match x {
                Ok(v) => Ok::<RecordData, Error>(RecordData::Txt(v)),
                Err(e) => Err::<RecordData, Error>(e),
            }
    } else if ty == Type::AAAA {
        exists|x: Result<Aaaa>|
            #[trigger] Aaaa::read_outcome(c, rdlen, x, c2) && d == match x {
                Ok(v) => Ok::<RecordData, Error>(RecordData::Aaaa(v)),
                Err(e) => Err::<RecordData, Error>(e),
            }
    } else {
        false
    }
}

/// Reads `rdlen` bytes of record data of type `ty`, one of the supported types.
pub fn read_record_data(c: &mut Cursor<'_>, ty: u16, rdlen: usize) -> (d: Result<RecordData>)
    requires
        handled_type(ty),
    ensures
        rdata_outcome(ty, old(c)@, rdlen as int, d, final(c)@),
{
    if ty == Type::A {
        let ghost c0 = c@;
        let x = A::from_cursor(c, rdlen);
        let d = match x {
            Ok(v) => Ok(RecordData::A(v)),
            Err(e) => Err(e),
        };
        assert(A::read_outcome(c0, rdlen as int, x, c@));
        return d;
    }
    if ty == Type::NS {
        let ghost c0 = c@;
        let x = Ns::from_cursor(c, rdlen);
        let d = match x {
            Ok(v) => Ok(RecordData::Ns(v)),
            Err(e) => Err(e),
        };
        assert(Ns::read_outcome(c0, rdlen as int, x, c@));
        return d;
    }
    if ty == Type::MD {
        let ghost c0 = c@;
        let x = Md::from_cursor(c, rdlen);
        let d = match x {
            Ok(v) => Ok(RecordData::Md(v)),
            Err(e) => Err(e),
        };
        assert(Md::read_outcome(c0, rdlen as int, x, c@));
        return d;
    }
    if ty == Type::MF {
        let ghost c0 = c@;
        let x = Mf::from_cursor(c, rdlen);
        let d = match x {
            Ok(v) => Ok(RecordData::Mf(v)),
            Err(e) => Err(e),
        };
        assert(Mf::read_outcome(c0, rdlen as int, x, c@));
        return d;
    }
    if ty == Type::CNAME {
        let ghost c0 = c@;
        let x = Cname::from_cursor(c, rdlen);
        let d = match x {
            Ok(v) => Ok(RecordData::Cname(v)),
            Err(e) => Err(e),
        };
        assert(Cname::read_outcome(c0, rdlen as int, x, c@));
        return d;
    }
    if ty == Type::SOA {
        let ghost c0 = c@;
        let x = Soa::from_cursor(c, rdlen);
        let d = match x {
            Ok(v) => Ok(RecordData::Soa(v)),
            Err(e) => Err(e),
        };
        assert(Soa::read_outcome(c0, rdlen as int, x, c@));
        return d;
    }
    if ty == Type::MB {
        let ghost c0 = c@;
        let x = Mb::from_cursor(c, rdlen);
        let d = match x {
            Ok(v) => Ok(RecordData::Mb(v)),
            Err(e) => Err(e),
        };
        assert(Mb::read_outcome(c0, rdlen as int, x, c@));
        return d;
    }
    if ty == Type::MG {
        let ghost c0 = c@;
        let x = Mg::from_cursor(c, rdlen);
        let d = match x {
            Ok(v) => Ok(RecordData::Mg(v)),
            Err(e) => Err(e),
        };
        assert(Mg::read_outcome(c0, rdlen as int, x, c@));
        return d;
    }
    if ty == Type::MR {
        let ghost c0 = c@;
        let x = Mr::from_cursor(c, rdlen);
        let d = match x {
            Ok(v) => Ok(RecordData::Mr(v)),
            Err(e) => Err(e),
        };
        assert(Mr::read_outcome(c0, rdlen as int, x, c@));
        return d;
    }
    if ty == Type::NULL {
        let ghost c0 = c@;
        let x = Null::from_cursor(c, rdlen);
        let d = match x {
            Ok(v) => Ok(RecordData::Null(v)),
            Err(e) => Err(e),
        };
        assert(Null::read_outcome(c0, rdlen as int, x, c@));
        return d;
    }
    if ty == Type::WKS {
        let ghost c0 = c@;
        let x = Wks::from_cursor(c, rdlen);
        let d = match x {
            Ok(v) => Ok(RecordData::Wks(v)),
            Err(e) => Err(e),
        };
        assert(Wks::read_outcome(c0, rdlen as int, x, c@));
        return d;
    }
    if ty == Type::PTR {
        let ghost c0 = c@;
        let x = Ptr::from_cursor(c, rdlen);
        let d = match x {
            Ok(v) => Ok(RecordData::Ptr(v)),
            Err(e) => Err(e),
        };
        assert(Ptr::read_outcome(c0, rdlen as int, x, c@));
        return d;
    }
    if ty == Type::HINFO {
        let ghost c0 = c@;
        let x = Hinfo::from_cursor(c, rdlen);
        let d = match x {
            Ok(v) => Ok(RecordData::Hinfo(v)),
            Err(e) => Err(e),
        };
        assert(Hinfo::read_outcome(c0, rdlen as int, x, c@));
        return d;
    }
    if ty == Type::MINFO {
        let ghost c0 = c@;
        let x = Minfo::from_cursor(c, rdlen);
        let d = match x {
            Ok(v) => Ok(RecordData::Minfo(v)),
            Err(e) => Err(e),
        };
        assert(Minfo::read_outcome(c0, rdlen as int, x, c@));
        return d;
    }
    if ty == Type::MX {
        let ghost c0 = c@;
        let x = Mx::from_cursor(c, rdlen);
        let d = match x {
            Ok(v) => Ok(RecordData::Mx(v)),
            Err(e) => Err(e),
        };
        assert(Mx::read_outcome(c0, rdlen as int, x, c@));
        return d;
    }
    if ty == Type::TXT {
        let ghost c0 = c@;
        let x = Txt::from_cursor(c, rdlen);
        let d = match x {
            Ok(v) => Ok(RecordData::Txt(v)),
            Err(e) => Err(e),
        };
        assert(Txt::read_outcome(c0, rdlen as int, x, c@));
        return d;
    }
    if ty == Type::AAAA {
        let ghost c0 = c@;
        let x = Aaaa::from_cursor(c, rdlen);
        let d = match x {
            Ok(v) => Ok(RecordData::Aaaa(v)),
            Err(e) => Err(e),
        };
        assert(Aaaa::read_outcome(c0, rdlen as int, x, c@));
        return d;
    }
    assert(false);
    Err(Error::InternalError("unexpected record type"))
}

/// A resource record, with its data read into one of the supported types.
#[derive(Clone, Debug)]
pub struct ResourceRecord {
    /// The owner name.
    pub name: InlineName,
    /// The record class.
    pub rclass: Class,
    /// The record type.
    pub rtype: Type,
    /// The time to live.
    pub ttl: u32,
    /// The record data.
    pub rdata: RecordData,
}

} // verus!
