//! Character strings: a length byte, then as many bytes.

use vstd::prelude::*;

use crate::bytes::{slice_read, u8_read, Cursor, CursorView};
use crate::errors::{Error, Result};

verus! {

/// Reading a character string at the cursor: its bytes, and the cursor afterwards.
pub open spec fn character_string_read(c: CursorView) -> (Result<Seq<u8>>, CursorView) {
    match u8_read(c) {
        (Err(e), c1) => (Err(e), c1),
        (Ok(len), c1) => slice_read(c1, len as int),
    }
}

impl<'a> Cursor<'a> {
    /// Reads a character string: a length byte, then as many bytes.
    pub fn read_character_string(&mut self) -> (r: Result<Vec<u8>>)
        ensures
            match character_string_read(old(self)@) {
                (Ok(b), c) => r matches Ok(v) && v@ == b && final(self)@ == c,
                (Err(e), c) => r == Err::<Vec<u8>, Error>(e) && final(self)@ == c,
            },
    {
        let len = match self.u8() {
            Ok(l) => l,
            Err(e) => return Err(e),
        };
        match self.slice(len as usize) {
            Ok(s) => Ok(vstd::slice::slice_to_vec(s)),
            Err(e) => Err(e),
        }
    }
}

} // verus!
