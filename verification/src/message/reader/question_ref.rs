//! A question of a DNS message whose name is left in the message.

use vstd::prelude::*;

use crate::bytes::{u16_read, Cursor, CursorView, Reader};
use crate::errors::{Error, Result};
use crate::message::class_value::ClassValue;
use crate::message::reader::labels::skip_name_spec;
use crate::message::reader::name_ref::NameRef;
use crate::message::type_value::TypeValue;

verus! {

/// Reading a question at the cursor with its name skipped: its type and class, and the cursor
/// afterwards.
pub open spec fn question_ref_read(c: CursorView) -> (Result<(u16, u16)>, CursorView) {
    match skip_name_spec(c) {
        Err(e) => (Err(e), c),
        Ok(p) => match u16_read(c.at(p)) {
            (Err(e), c1) => (Err(e), c1),
            (Ok(ty), c1) => match u16_read(c1) {
                (Err(e), c2) => (Err(e), c2),
                (Ok(cl), c2) => (Ok((ty, cl)), c2),
            },
        },
    }
}

/// A question of a DNS message, with its name left in the message.
#[derive(Debug, Clone, Copy)]
pub struct QuestionRef<'a> {
    /// The domain name asked about, in the message.
    pub qname: NameRef<'a>,
    /// The type asked for.
    pub qtype: TypeValue,
    /// The class asked for.
    pub qclass: ClassValue,
}

impl<'a> QuestionRef<'a> {
    /// Reading a question reference from the cursor `c` gives `r` and leaves the cursor at `c2`.
    pub open spec fn read_outcome(c: CursorView, r: Result<QuestionRef<'a>>, c2: CursorView) -> bool {
        match question_ref_read(c) {
            (Ok((ty, cl)), c1) => r matches Ok(q) && q.qname@ == c && q.qtype@ == ty
                && q.qclass@ == cl && c2 == c1,
            (Err(e), c1) => r == Err::<QuestionRef<'a>, Error>(e) && c2 == c1,
        }
    }
}

impl<'a> Reader<QuestionRef<'a>> for Cursor<'a> {
    /// Reads a question, leaving its name in the message.
    fn read(&mut self) -> (r: Result<QuestionRef<'a>>)
        ensures
            QuestionRef::read_outcome(old(self)@, r, final(self)@),
    {
        let qname = NameRef::new(*self);
        match self.skip_domain_name() {
            Ok(_) => {},
            Err(e) => return Err(e),
        }
        let qtype: Result<TypeValue> = self.read();
        let qtype = match qtype {
            Ok(t) => t,
            Err(e) => return Err(e),
        };
        let qclass: Result<ClassValue> = self.read();
        let qclass = match qclass {
            Ok(c) => c,
            Err(e) => return Err(e),
        };
        Ok(QuestionRef { qname, qtype, qclass })
    }
}

} // verus!
