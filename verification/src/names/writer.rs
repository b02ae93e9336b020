//! Encoding of domain names in the wire format.

use vstd::prelude::*;

use crate::bytes::{WCursor, WCursorView};
use crate::constants::DOMAIN_NAME_MAX_LENGTH;
use crate::errors::{Error, Result};
use crate::names::utils::{check_label_bytes, check_label_spec, lemma_valid_label_ascii};
use vstd::string::StringSliceAdditionalSpecFns;

verus! {

/// Writing `bytes` and then `more` is writing both at once.
pub proof fn lemma_written_concat(w: WCursorView, bytes: Seq<u8>, more: Seq<u8>)
    requires
        0 <= w.pos,
        w.pos + bytes.len() + more.len() <= w.buf.len(),
    ensures
        w.written(bytes).written(more) == w.written(bytes + more),
        w.written(bytes + more).buf.len() == w.buf.len(),
{
    let a = w.written(bytes);
    assert(a.buf.len() == w.buf.len());
    assert(a.written(more).buf =~= w.written(bytes + more).buf);
}

/// The outcome of writing one label: its length byte and its bytes, when the label is valid
/// and the buffer has room for both.
pub open spec fn label_write(label: Seq<u8>, w: WCursorView) -> (Result<()>, WCursorView) {
    match check_label_spec(label) {
        Err(e) => (Err(e), w),
        Ok(_) => if w.remaining() > label.len() {
            (Ok(()), w.written(seq![label.len() as u8] + label))
        } else {
            (Err(Error::BufferTooShort((w.pos + label.len() + 1) as usize)), w)
        },
    }
}

/// The outcome of writing the dot-separated labels of `s`, scanning from index `j` with the
/// current label starting at `i`; `dotted` tells whether a dot was seen.
///
/// Each dot ends a label, which is written then. The text after the last dot is written as a
/// label unless it is empty; a name without dots is written as one label.
pub open spec fn labels_write_from(
    s: Seq<u8>,
    i: int,
    j: int,
    dotted: bool,
    w: WCursorView,
) -> (Result<()>, WCursorView)
    decreases s.len() - j,
{
    if j >= s.len() {
        if !dotted || s.len() - i > 0 {
            label_write(s.subrange(i, s.len() as int), w)
        } else {
            (Ok(()), w)
        }
    } else if s[j] == 46 {
        match label_write(s.subrange(i, j), w) {
            (Err(e), w2) => (Err(e), w2),
            (Ok(_), w2) => labels_write_from(s, j + 1, j + 1, true, w2),
        }
    } else {
        labels_write_from(s, i, j + 1, dotted, w)
    }
}

/// The outcome of writing the textual domain name `s` in the wire format: the labels, then the
/// terminating zero byte; the result is the encoded length, at most 255.
///
/// Labels written before an error stay written.
pub open spec fn name_write(s: Seq<u8>, w: WCursorView) -> (Result<usize>, WCursorView) {
    if s.len() == 0 {
        (Err(Error::DomainNameLabelIsEmpty), w)
    } else {
        match labels_write_from(s, 0, 0, false, w) {
            (Err(e), w2) => (Err(e), w2),
            (Ok(_), w2) => if w2.remaining() < 1 {
                (Err(Error::EndOfBuffer), w2)
            } else {
                let w3 = w2.written(seq![0u8]);
                let length = w3.pos - w.pos;
                if length > 255 {
                    (Err(Error::DomainNameTooLong(length as usize)), w3)
                } else {
                    (Ok(length as usize), w3)
                }
            },
        }
    }
}

/// Writing labels keeps the buffer's length and moves the position forward only.
pub proof fn lemma_labels_write_bounds(s: Seq<u8>, i: int, j: int, dotted: bool, w: WCursorView)
    requires
        0 <= i <= j <= s.len(),
        0 <= w.pos <= w.buf.len(),
    ensures
        ({
            let w2 = labels_write_from(s, i, j, dotted, w).1;
            w2.buf.len() == w.buf.len() && w.pos <= w2.pos <= w2.buf.len()
        }),
    decreases s.len() - j,
{
    if j >= s.len() {
    } else if s[j] == 46 {
        match label_write(s.subrange(i, j), w) {
            (Err(e), w2) => {},
            (Ok(_), w2) => {
                lemma_labels_write_bounds(s, j + 1, j + 1, true, w2);
            },
        }
    } else {
        lemma_labels_write_bounds(s, i, j + 1, dotted, w);
    }
}

/// Writing a name never moves the write position back, nor past the end of the buffer.
pub proof fn lemma_name_write_forward(s: Seq<u8>, w: WCursorView)
    requires
        0 <= w.pos <= w.buf.len(),
    ensures
        w.pos <= name_write(s, w).1.pos <= name_write(s, w).1.buf.len(),
        name_write(s, w).1.buf.len() == w.buf.len(),
{
    if s.len() > 0 {
        lemma_labels_write_bounds(s, 0, 0, false, w);
    }
}

impl<'a> WCursor<'a> {
    /// Writes one label: its length byte, then its bytes.
    ///
    /// On error the cursor is left unchanged.
    fn write_label(&mut self, label: &[u8]) -> (r: Result<()>)
        ensures
            (r, final(self)@) == label_write(label@, old(self)@),
    {
        match check_label_bytes(label) {
            Ok(_) => {},
            Err(e) => return Err(e),
        }
        proof {
            lemma_valid_label_ascii(label@);
        }
        if self.len() > label.len() {
            let ghost w = self@;
            let p = self.pos();
            let _ = self.u8(label.len() as u8);
            let _ = self.bytes(label);
            proof {
                lemma_written_concat(w, seq![label.len() as u8], label@);
            }
            Ok(())
        } else {
            let p = self.pos();
            Err(Error::BufferTooShort(p + label.len() + 1))
        }
    }

    /// Writes a textual domain name in the wire format and returns the number of bytes
    /// written.
    ///
    /// # Errors
    ///
    /// An empty name or label, an invalid label, a buffer too short and an encoded name longer
    /// than 255 bytes are errors, as [`name_write`] describes. Labels written before an error
    /// stay written.
    pub fn write_domain_name(&mut self, name: &str) -> (r: Result<usize>)
        ensures
            (r, final(self)@) == name_write(name.spec_bytes(), old(self)@),
    {
        self.write_domain_name_bytes(name.as_bytes())
    }

    /// Writes a textual domain name, given as bytes, in the wire format and returns the number
    /// of bytes written.
    ///
    /// The errors are those of [`WCursor::write_domain_name`].
    pub fn write_domain_name_bytes(&mut self, name: &[u8]) -> (r: Result<usize>)
        ensures
            (r, final(self)@) == name_write(name@, old(self)@),
    {
        if name.len() == 0 {
            return Err(Error::DomainNameLabelIsEmpty);
        }
        let ghost w0 = self@;
        let start = self.pos();
        let len = name.len();
        let mut i: usize = 0;
        let mut j: usize = 0;
        let mut dotted = false;
        while j < len
            invariant
                i <= j <= len,
                len == name@.len(),
                !dotted ==> i == 0,
                start == w0.pos,
                w0 == old(self)@,
                0 <= w0.pos <= w0.buf.len(),
                w0.pos <= self@.pos <= self@.buf.len(),
                self@.buf.len() == w0.buf.len(),
                labels_write_from(name@, 0, 0, false, w0) == labels_write_from(
                    name@,
                    i as int,
                    j as int,
                    dotted,
                    self@,
                ),
            decreases len - j,
        {
            if name[j] == 46 {
                let label = vstd::slice::slice_subrange(name, i, j);
                let ghost before = self@;
                let res = self.write_label(label);
                match res {
                    Ok(_) => {},
                    Err(e) => {
                        return Err(e);
                    },
                }
                i = j + 1;
                dotted = true;
            }
            j = j + 1;
        }
        if !dotted || len - i > 0 {
            let label = vstd::slice::slice_subrange(name, i, len);
            let res = self.write_label(label);
            match res {
                Ok(_) => {},
                Err(e) => return Err(e),
            }
        }
        let res = self.u8(0);
        match res {
            Ok(_) => {},
            Err(e) => return Err(e),
        }
        let length = self.pos() - start;
        if length > DOMAIN_NAME_MAX_LENGTH {
            return Err(Error::DomainNameTooLong(length));
        }
        Ok(length)
    }
}

} // verus!
