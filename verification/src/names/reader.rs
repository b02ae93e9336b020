//! Reading encoded domain names from a message.

use vstd::prelude::*;

use crate::bytes::{Cursor, CursorView, Reader};
use crate::errors::{Error, Result};
use crate::message::reader::labels::{read_name_spec, skip_domain_name, skip_name_spec};
use crate::names::inline_name::InlineName;
use crate::names::name::Name;

verus! {

/// Reading a domain name from the cursor `c` gives a name with the text `t`, or an error, and
/// leaves the cursor at `c2`: after the encoded name on success, where it was on error.
pub open spec fn name_read_outcome(c: CursorView, r: Result<Seq<u8>>, c2: CursorView) -> bool {
    match read_name_spec(c) {
        Ok((t, p)) => r == Ok::<Seq<u8>, Error>(t) && c2 == c.at(p),
        Err(e) => r == Err::<Seq<u8>, Error>(e) && c2 == c,
    }
}

/// Reading domain names encoded in a message.
pub struct DomainNameReader;

impl DomainNameReader {
    /// Reads a domain name into an inline name.
    pub fn read(cursor: &mut Cursor<'_>) -> (r: Result<InlineName>)
        ensures
            name_read_outcome(
                old(cursor)@,
                match r {
                    Ok(n) => Ok::<Seq<u8>, Error>(n@),
                    Err(e) => Err::<Seq<u8>, Error>(e),
                },
                final(cursor)@,
            ),
    {
        InlineName::from_cursor(cursor)
    }

    /// Reads a domain name into a heap-allocated name.
    pub fn read_string(cursor: &mut Cursor<'_>) -> (r: Result<Name>)
        ensures
            name_read_outcome(
                old(cursor)@,
                match r {
                    Ok(n) => Ok::<Seq<u8>, Error>(n@),
                    Err(e) => Err::<Seq<u8>, Error>(e),
                },
                final(cursor)@,
            ),
    {
        Name::from_cursor(cursor)
    }

    /// Skips a domain name, checking its labels.
    ///
    /// On error the cursor is left unchanged.
    pub fn skip(cursor: &mut Cursor<'_>) -> (r: Result<()>)
        ensures
            match skip_name_spec(old(cursor)@) {
                Ok(p) => r == Ok::<(), Error>(()) && final(cursor)@ == old(cursor)@.at(p),
                Err(e) => r == Err::<(), Error>(e) && final(cursor)@ == old(cursor)@,
            },
    {
        match skip_domain_name(cursor) {
            Ok(_) => Ok(()),
            Err(e) => Err(e),
        }
    }
}

impl InlineName {
    /// Reading an inline name from the cursor `c` gives `r` and leaves the cursor at `c2`.
    pub open spec fn read_outcome(c: CursorView, r: Result<InlineName>, c2: CursorView) -> bool {
        name_read_outcome(
            c,
            match r {
                Ok(n) => Ok::<Seq<u8>, Error>(n@),
                Err(e) => Err::<Seq<u8>, Error>(e),
            },
            c2,
        )
    }
}

impl Name {
    /// Reading a name from the cursor `c` gives `r` and leaves the cursor at `c2`.
    pub open spec fn read_outcome(c: CursorView, r: Result<Name>, c2: CursorView) -> bool {
        name_read_outcome(
            c,
            match r {
                Ok(n) => Ok::<Seq<u8>, Error>(n@),
                Err(e) => Err::<Seq<u8>, Error>(e),
            },
            c2,
        )
    }
}

impl<'a> Reader<InlineName> for Cursor<'a> {
    /// Reads a domain name into an inline name.
    fn read(&mut self) -> (r: Result<InlineName>)
        ensures
            InlineName::read_outcome(old(self)@, r, final(self)@),
    {
        DomainNameReader::read(self)
    }
}

impl<'a> Reader<Name> for Cursor<'a> {
    /// Reads a domain name into a heap-allocated name.
    fn read(&mut self) -> (r: Result<Name>)
        ensures
            Name::read_outcome(old(self)@, r, final(self)@),
    {
        DomainNameReader::read_string(self)
    }
}

} // verus!
