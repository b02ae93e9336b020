//! A question of a DNS message.

use vstd::prelude::*;

use crate::bytes::{u16_read, Cursor, CursorView, Reader};
use crate::errors::{Error, Result};
use crate::message::reader::labels::read_name_spec;
use crate::names::inline_name::InlineName;
use crate::records::class::Class;
use crate::records::rtype::Type;

verus! {

/// Reading a question at the cursor: its name, type and class, and the cursor afterwards.
pub open spec fn question_read(c: CursorView) -> (Result<(Seq<u8>, u16, u16)>, CursorView) {
    match read_name_spec(c) {
        Err(e) => (Err(e), c),
        Ok((t, p)) => match u16_read(c.at(p)) {
            (Err(e), c1) => (Err(e), c1),
            (Ok(ty), c1) => match u16_read(c1) {
                (Err(e), c2) => (Err(e), c2),
                (Ok(cl), c2) => (Ok((t, ty, cl)), c2),
            },
        },
    }
}

/// A question of a DNS message: a domain name, a type and a class.
#[derive(Debug, Clone)]
pub struct Question {
    /// The domain name asked about.
    pub qname: InlineName,
    /// The type asked for.
    pub qtype: Type,
    /// The class asked for.
    pub qclass: Class,
}

impl Question {
    /// Reading a question from the cursor `c` gives `r` and leaves the cursor at `c2`.
    pub open spec fn read_outcome(c: CursorView, r: Result<Question>, c2: CursorView) -> bool {
        match question_read(c) {
            (Ok((t, ty, cl)), c1) => r matches Ok(q) && q.qname@ == t && q.qtype@ == ty
                && q.qclass@ == cl && c2 == c1,
            (Err(e), c1) => r == Err::<Question, Error>(e) && c2 == c1,
        }
    }
}

impl<'a> Reader<Question> for Cursor<'a> {
    /// Reads a question: a domain name, a type and a class.
    fn read(&mut self) -> (r: Result<Question>)
        ensures
            Question::read_outcome(old(self)@, r, final(self)@),
    {
        let qname = match InlineName::from_cursor(self) {
            Ok(n) => n,
            Err(e) => return Err(e),
        };
        let qtype: Result<Type> = self.read();
        let qtype = match qtype {
            Ok(t) => t,
            Err(e) => return Err(e),
        };
        let qclass: Result<Class> = self.read();
        let qclass = match qclass {
            Ok(c) => c,
            Err(e) => return Err(e),
        };
        Ok(Question { qname, qtype, qclass })
    }
}

} // verus!
