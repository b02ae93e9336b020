//! Decoding of encoded (and possibly compressed) domain names.
//!
//! An encoded domain name is a sequence of labels, each given by a length byte and its bytes,
//! ended either by a zero byte or by a compression pointer: two bytes with the two highest bits
//! set, holding the offset in the message where the rest of the name is encoded.
//!
//! A pointer must point before the first pointer of the name, and at most
//! [`DOMAIN_NAME_MAX_POINTERS`] pointers are followed, so decoding always ends.

use vstd::prelude::*;

use crate::bytes::{Cursor, CursorView};
use crate::constants::DOMAIN_NAME_MAX_POINTERS;
use crate::errors::{Error, Result};
use crate::names::dname::DNameBase;
use crate::message::reader::label_ref::LabelRef;
use crate::names::utils::{check_label_bytes, check_label_spec, name_append};

verus! {

/// One step of decoding an encoded domain name.
pub enum LabelStep {
    /// The terminating zero byte was read; the position after the name is given.
    Done(int),
    /// A label: its bytes, the position of its length byte and the position after it.
    Label(Seq<u8>, int, int),
    /// A compression pointer: the offset it points to and the position after the name.
    Jump(int, int),
    /// Decoding failed.
    Fail(Error),
}

/// The offset a compression pointer made of bytes `o1` and `o2` points to.
pub open spec fn pointer_offset(o1: u8, o2: u8) -> int {
    (o1 % 64) as int * 256 + o2 as int
}

/// The position after a name, as known once a byte at `pos` was read: the position after the
/// first pointer when one was followed (`max_pos` is not zero), else `pos + 1`.
pub open spec fn after_name(max_pos: int, next: int) -> int {
    if max_pos == 0 {
        next
    } else {
        max_pos
    }
}

/// Decodes the element at `pos`: a label, a pointer or the end of the name.
///
/// `max_pos` is the position after the first pointer followed so far (zero when none was),
/// `n` the number of pointers followed so far, and reads may not pass `end`.
pub open spec fn label_step(buf: Seq<u8>, end: int, pos: int, max_pos: int, n: int) -> LabelStep {
    if !(0 <= pos < end) {
        LabelStep::Fail(Error::EndOfBuffer)
    } else {
        let b = buf[pos];
        if b == 0 {
            LabelStep::Done(after_name(max_pos, pos + 1))
        } else if b < 64 {
            if pos + 1 + b > end {
                LabelStep::Fail(Error::EndOfBuffer)
            } else {
                LabelStep::Label(buf.subrange(pos + 1, pos + 1 + b), pos, pos + 1 + b)
            }
        } else if b >= 192 {
            if pos + 2 > end {
                LabelStep::Fail(Error::EndOfBuffer)
            } else {
                let offset = pointer_offset(b, buf[pos + 1]);
                let m = after_name(max_pos, pos + 2);
                if offset >= m - 2 {
                    LabelStep::Fail(
                        Error::DomainNameBadPointer { pointer: offset as usize, max_offset: m as usize },
                    )
                } else if n + 1 > DOMAIN_NAME_MAX_POINTERS {
                    LabelStep::Fail(Error::DomainNameTooMuchPointers)
                } else {
                    LabelStep::Jump(offset, m)
                }
            }
        } else {
            LabelStep::Fail(Error::DomainNameBadLabelType(b))
        }
    }
}

/// Reads a domain name from the element at `pos` on, appending its labels to `text`.
///
/// The result is the textual name (`.` for the root) and the position after the encoded name.
pub open spec fn read_from(
    buf: Seq<u8>,
    end: int,
    pos: int,
    max_pos: int,
    n: int,
    text: Seq<u8>,
) -> Result<(Seq<u8>, int)>
    decreases DOMAIN_NAME_MAX_POINTERS - n, end - pos,
{
    match label_step(buf, end, pos, max_pos, n) {
        LabelStep::Fail(e) => Err(e),
        LabelStep::Done(m) => Ok(
            (
                if text.len() == 0 {
                    seq![46u8]
                } else {
                    text
                },
                m,
            ),
        ),
        LabelStep::Label(bytes, _p, next) => match name_append(text, bytes) {
            Err(e) => Err(e),
            Ok(t) => read_from(buf, end, next, max_pos, n, t),
        },
        LabelStep::Jump(to, m) => read_from(buf, end, to, m, n + 1, text),
    }
}

/// Skips a domain name from the element at `pos` on, checking its labels.
///
/// The result is the position after the encoded name.
pub open spec fn skip_from(buf: Seq<u8>, end: int, pos: int, max_pos: int, n: int) -> Result<int>
    decreases DOMAIN_NAME_MAX_POINTERS - n, end - pos,
{
    match label_step(buf, end, pos, max_pos, n) {
        LabelStep::Fail(e) => Err(e),
        LabelStep::Done(m) => Ok(m),
        LabelStep::Label(bytes, _p, next) => match check_label_spec(bytes) {
            Err(e) => Err(e),
            Ok(_) => skip_from(buf, end, next, max_pos, n),
        },
        LabelStep::Jump(to, m) => skip_from(buf, end, to, m, n + 1),
    }
}

/// The labels of a domain name from the element at `pos` on, each with the position of its
/// length byte; a failure is the last item.
pub open spec fn label_items(buf: Seq<u8>, end: int, pos: int, max_pos: int, n: int) -> Seq<
    Result<(Seq<u8>, int)>,
>
    decreases DOMAIN_NAME_MAX_POINTERS - n, end - pos,
{
    match label_step(buf, end, pos, max_pos, n) {
        LabelStep::Fail(e) => seq![Err(e)],
        LabelStep::Done(_m) => Seq::empty(),
        LabelStep::Label(bytes, p, next) => match check_label_spec(bytes) {
            Err(e) => seq![Err(e)],
            Ok(_) => seq![Ok((bytes, p))] + label_items(buf, end, next, max_pos, n),
        },
        LabelStep::Jump(to, m) => label_items(buf, end, to, m, n + 1),
    }
}

/// Reads the domain name encoded at the cursor's position.
pub open spec fn read_name_spec(c: CursorView) -> Result<(Seq<u8>, int)> {
    read_from(c.buf, c.end as int, c.pos as int, 0, 0, Seq::empty())
}

/// Skips the domain name encoded at the cursor's position.
pub open spec fn skip_name_spec(c: CursorView) -> Result<int> {
    skip_from(c.buf, c.end as int, c.pos as int, 0, 0)
}

/// The labels of the domain name encoded at the cursor's position.
pub open spec fn name_labels(c: CursorView) -> Seq<Result<(Seq<u8>, int)>> {
    label_items(c.buf, c.end as int, c.pos as int, 0, 0)
}

/// Checks if a byte starts a compression pointer.
fn is_pointer(b: u8) -> (r: bool)
    ensures
        r == (b >= 192),
{
    let r = (b & 0b1100_0000) == 0b1100_0000;
    assert(((b & 0xC0u8) == 0xC0u8) == (b >= 192)) by (bit_vector);
    r
}

/// Checks if a byte is the length of a label.
fn is_length(b: u8) -> (r: bool)
    ensures
        r == (b < 64),
{
    let r = (b & 0b0011_1111) == b;
    assert(((b & 0x3Fu8) == b) == (b < 64)) by (bit_vector);
    r
}

/// The offset a compression pointer points to.
fn pointer_to_offset(o1: u8, o2: u8) -> (r: u16)
    ensures
        r == pointer_offset(o1, o2),
{
    let r = (((o1 & 0b0011_1111) as u16) << 8) | o2 as u16;
    assert((((o1 & 0x3Fu8) as u16) << 8u16) | (o2 as u16) == (o1 % 64) as u16 * 256 + o2 as u16)
        by (bit_vector);
    r
}

/// Reads a domain name at the cursor's position.
///
/// On success the cursor is positioned after the encoded name (after the first compression
/// pointer, if one was followed); on error it is left unchanged.
pub fn read_domain_name<N: DNameBase>(c: &mut Cursor<'_>) -> (r: Result<N>)
    ensures
        match read_name_spec(old(c)@) {
            Ok((t, p)) => (r matches Ok(n) && n.dname_bytes() == t) && final(c)@ == old(c)@.at(p),
            Err(e) => r matches Err(e2) && e2 == e && final(c)@ == old(c)@,
        },
{
    let ghost c0 = c@;
    let mut dn = N::empty();
    let mut cursor = *c;
    let mut max_pos: usize = 0;
    let mut n_pointers: usize = 0;
    loop
        invariant_except_break
            cursor@.buf == c0.buf,
            cursor@.end == c0.end,
            c@ == c0,
            max_pos == 0 || max_pos >= 2,
            n_pointers <= DOMAIN_NAME_MAX_POINTERS,
            read_name_spec(c0) == read_from(
                c0.buf,
                c0.end as int,
                cursor@.pos as int,
                max_pos as int,
                n_pointers as int,
                dn.dname_bytes(),
            ),
        ensures
            c@ == c0,
            read_name_spec(c0) == Ok::<(Seq<u8>, int), Error>(
                (
                    if dn.dname_bytes().len() == 0 {
                        seq![46u8]
                    } else {
                        dn.dname_bytes()
                    },
                    max_pos as int,
                ),
            ),
        decreases DOMAIN_NAME_MAX_POINTERS - n_pointers, cursor@.end - cursor@.pos,
    {
        let label = match cursor.u8() {
            Ok(b) => b,
            Err(e) => return Err(e),
        };
        if label == 0 {
            if max_pos == 0 {
                max_pos = cursor.pos();
            }
            break ;
        } else if is_length(label) {
            let bytes = match cursor.slice(label as usize) {
                Ok(s) => s,
                Err(e) => return Err(e),
            };
            match dn.append_label_bytes(bytes) {
                Ok(_) => {},
                Err(e) => return Err(e),
            }
        } else if is_pointer(label) {
            let o2 = match cursor.u8() {
                Ok(b) => b,
                Err(e) => return Err(e),
            };
            let offset = pointer_to_offset(label, o2) as usize;
            if max_pos == 0 {
                max_pos = cursor.pos();
            }
            if offset >= max_pos - 2 {
                return Err(Error::DomainNameBadPointer { pointer: offset, max_offset: max_pos });
            }
            n_pointers = n_pointers + 1;
            if n_pointers > DOMAIN_NAME_MAX_POINTERS {
                return Err(Error::DomainNameTooMuchPointers);
            }
            cursor.set_pos(offset);
        } else {
            return Err(Error::DomainNameBadLabelType(label));
        }
    }
    if dn.is_empty() {
        dn.set_root();
    }
    c.set_pos(max_pos);
    Ok(dn)
}

/// Skips a domain name at the cursor's position, checking its labels.
///
/// Returns the number of bytes the cursor advanced by. On error the cursor is left unchanged.
pub fn skip_domain_name(c: &mut Cursor<'_>) -> (r: Result<usize>)
    ensures
        match skip_name_spec(old(c)@) {
            Ok(p) => r == Ok::<usize, Error>((p - old(c)@.pos) as usize) && final(c)@ == old(c)@.at(p),
            Err(e) => r == Err::<usize, Error>(e) && final(c)@ == old(c)@,
        },
{
    let ghost c0 = c@;
    let start = c.pos();
    let mut cursor = *c;
    let mut max_pos: usize = 0;
    let mut n_pointers: usize = 0;
    loop
        invariant_except_break
            cursor@.buf == c0.buf,
            cursor@.end == c0.end,
            c@ == c0,
            start == c0.pos,
            max_pos == 0 ==> cursor@.pos >= start,
            max_pos != 0 ==> max_pos > start,
            max_pos == 0 || max_pos >= 2,
            n_pointers <= DOMAIN_NAME_MAX_POINTERS,
            skip_name_spec(c0) == skip_from(
                c0.buf,
                c0.end as int,
                cursor@.pos as int,
                max_pos as int,
                n_pointers as int,
            ),
        ensures
            c@ == c0,
            start == c0.pos,
            max_pos > start,
            skip_name_spec(c0) == Ok::<int, Error>(max_pos as int),
        decreases DOMAIN_NAME_MAX_POINTERS - n_pointers, cursor@.end - cursor@.pos,
    {
        let label = match cursor.u8() {
            Ok(b) => b,
            Err(e) => return Err(e),
        };
        if label == 0 {
            if max_pos == 0 {
                max_pos = cursor.pos();
            }
            break ;
        } else if is_length(label) {
            let bytes = match cursor.slice(label as usize) {
                Ok(s) => s,
                Err(e) => return Err(e),
            };
            match check_label_bytes(bytes) {
                Ok(_) => {},
                Err(e) => return Err(e),
            }
        } else if is_pointer(label) {
            let o2 = match cursor.u8() {
                Ok(b) => b,
                Err(e) => return Err(e),
            };
            let offset = pointer_to_offset(label, o2) as usize;
            if max_pos == 0 {
                max_pos = cursor.pos();
            }
            if offset >= max_pos - 2 {
                return Err(Error::DomainNameBadPointer { pointer: offset, max_offset: max_pos });
            }
            n_pointers = n_pointers + 1;
            if n_pointers > DOMAIN_NAME_MAX_POINTERS {
                return Err(Error::DomainNameTooMuchPointers);
            }
            cursor.set_pos(offset);
        } else {
            return Err(Error::DomainNameBadLabelType(label));
        }
    }
    c.set_pos(max_pos);
    Ok(max_pos - start)
}

} // verus!

verus! {

/// A skipped name ends after its start: after the name itself, or after the first pointer
/// followed.
pub proof fn lemma_skip_from_after(buf: Seq<u8>, end: int, pos: int, max_pos: int, n: int)
    requires
        0 <= max_pos,
    ensures
        skip_from(buf, end, pos, max_pos, n) matches Ok(m) ==> (if max_pos == 0 {
            m > pos
        } else {
            m == max_pos
        }),
    decreases DOMAIN_NAME_MAX_POINTERS - n, end - pos,
{
    match label_step(buf, end, pos, max_pos, n) {
        LabelStep::Label(bytes, _p, next) => {
            lemma_skip_from_after(buf, end, next, max_pos, n);
        },
        LabelStep::Jump(to, m) => {
            lemma_skip_from_after(buf, end, to, m, n + 1);
        },
        _ => {},
    }
}

/// Skipping a name, a question or a record never moves a cursor back.
pub proof fn lemma_skip_name_forward(c: CursorView)
    ensures
        skip_name_spec(c) matches Ok(p) ==> c.pos < p <= c.end,
        skip_question_spec(c).1.pos >= c.pos,
        skip_rr_spec(c).1.pos >= c.pos,
{
    lemma_skip_from_after(c.buf, c.end as int, c.pos as int, 0, 0);
    lemma_skip_from_bound(c.buf, c.end as int, c.pos as int, 0, 0);
}

/// A decoded name ends within the readable part of the buffer.
pub proof fn lemma_skip_from_bound(buf: Seq<u8>, end: int, pos: int, max_pos: int, n: int)
    requires
        0 <= max_pos <= end,
    ensures
        skip_from(buf, end, pos, max_pos, n) matches Ok(m) ==> 0 < m <= end,
    decreases DOMAIN_NAME_MAX_POINTERS - n, end - pos,
{
    match label_step(buf, end, pos, max_pos, n) {
        LabelStep::Label(bytes, _p, next) => {
            lemma_skip_from_bound(buf, end, next, max_pos, n);
        },
        LabelStep::Jump(to, m) => {
            lemma_skip_from_bound(buf, end, to, m, n + 1);
        },
        _ => {},
    }
}

/// A decoded name ends within the readable part of the buffer.
pub proof fn lemma_read_from_bound(
    buf: Seq<u8>,
    end: int,
    pos: int,
    max_pos: int,
    n: int,
    text: Seq<u8>,
)
    requires
        0 <= max_pos <= end,
    ensures
        read_from(buf, end, pos, max_pos, n, text) matches Ok((_t, m)) ==> 0 < m <= end,
    decreases DOMAIN_NAME_MAX_POINTERS - n, end - pos,
{
    match label_step(buf, end, pos, max_pos, n) {
        LabelStep::Label(bytes, _p, next) => {
            match name_append(text, bytes) {
                Ok(t) => lemma_read_from_bound(buf, end, next, max_pos, n, t),
                Err(_) => {},
            }
        },
        LabelStep::Jump(to, m) => {
            lemma_read_from_bound(buf, end, to, m, n + 1, text);
        },
        _ => {},
    }
}

/// A name that reads without error from an element on also skips without error, and the
/// skip ends where the read ends.
pub proof fn lemma_read_from_skip_from(
    buf: Seq<u8>,
    end: int,
    pos: int,
    max_pos: int,
    n: int,
    text: Seq<u8>,
)
    ensures
        read_from(buf, end, pos, max_pos, n, text) matches Ok((_t, m)) ==> skip_from(
            buf,
            end,
            pos,
            max_pos,
            n,
        ) == Ok::<int, Error>(m),
    decreases DOMAIN_NAME_MAX_POINTERS - n, end - pos,
{
    match label_step(buf, end, pos, max_pos, n) {
        LabelStep::Label(bytes, _p, next) => {
            match name_append(text, bytes) {
                Ok(t) => lemma_read_from_skip_from(buf, end, next, max_pos, n, t),
                Err(_) => {},
            }
        },
        LabelStep::Jump(to, m) => {
            lemma_read_from_skip_from(buf, end, to, m, n + 1, text);
        },
        _ => {},
    }
}

/// Skipping the name at a cursor succeeds whenever reading it does, and ends at the same
/// position: just past its terminating zero label or its first compression pointer.
pub proof fn lemma_skip_ends_where_read_ends(c: CursorView)
    ensures
        read_name_spec(c) matches Ok((_t, p)) ==> skip_name_spec(c) == Ok::<int, Error>(p),
{
    lemma_read_from_skip_from(c.buf, c.end as int, c.pos as int, 0, 0, Seq::empty());
}

/// Skipping a question at the cursor: the result and the cursor afterwards.
pub open spec fn skip_question_spec(c: CursorView) -> (Result<()>, CursorView) {
    match skip_name_spec(c) {
        Err(e) => (Err(e), c),
        Ok(p) => if c.at(p).fits(4) {
            (Ok(()), c.at(p + 4))
        } else {
            (Err(Error::EndOfBuffer), c.at(p))
        },
    }
}

/// Skipping a resource record at the cursor: the result and the cursor afterwards.
pub open spec fn skip_rr_spec(c: CursorView) -> (Result<()>, CursorView) {
    match skip_name_spec(c) {
        Err(e) => (Err(e), c),
        Ok(p) => if !c.at(p).fits(8) {
            (Err(Error::EndOfBuffer), c.at(p))
        } else if c.at(p + 8).remaining() < 2 {
            (Err(Error::EndOfBuffer), c.at(p + 8))
        } else {
            let rdlen = crate::bytes::be16(c.buf[p + 8], c.buf[p + 9]);
            if c.at(p + 10).fits(rdlen) {
                (Ok(()), c.at(p + 10 + rdlen))
            } else {
                (Err(Error::EndOfBuffer), c.at(p + 10))
            }
        },
    }
}

impl<'a> Cursor<'a> {
    /// Skips a domain name, checking its labels, and returns the number of bytes skipped.
    ///
    /// On error the cursor is left unchanged.
    pub fn skip_domain_name(&mut self) -> (r: Result<usize>)
        ensures
            match skip_name_spec(old(self)@) {
                Ok(p) => r == Ok::<usize, Error>((p - old(self)@.pos) as usize) && final(self)@
                    == old(self)@.at(p),
                Err(e) => r == Err::<usize, Error>(e) && final(self)@ == old(self)@,
            },
    {
        skip_domain_name(self)
    }

    /// Skips a question: a domain name, a type and a class.
    pub fn skip_question(&mut self) -> (r: Result<()>)
        ensures
            (r, final(self)@) == skip_question_spec(old(self)@),
    {
        proof {
            lemma_skip_from_bound(self@.buf, self@.end as int, self@.pos as int, 0, 0);
        }
        match skip_domain_name(self) {
            Ok(_) => {},
            Err(e) => return Err(e),
        }
        self.skip(4)
    }

    /// Skips a resource record: a domain name, a type, a class, a TTL and the record data.
    pub fn skip_rr(&mut self) -> (r: Result<()>)
        ensures
            (r, final(self)@) == skip_rr_spec(old(self)@),
    {
        proof {
            lemma_skip_from_bound(self@.buf, self@.end as int, self@.pos as int, 0, 0);
        }
        match skip_domain_name(self) {
            Ok(_) => {},
            Err(e) => return Err(e),
        }
        match self.skip(8) {
            Ok(_) => {},
            Err(e) => return Err(e),
        }
        let rd_len = match self.u16_be() {
            Ok(v) => v,
            Err(e) => return Err(e),
        };
        self.skip(rd_len as usize)
    }
}

} // verus!

verus! {

/// Only the last label item may be a failure.
pub proof fn lemma_label_items_failure_last(
    buf: Seq<u8>,
    end: int,
    pos: int,
    max_pos: int,
    n: int,
)
    ensures
        forall|i: int|
            0 <= i < label_items(buf, end, pos, max_pos, n).len() - 1 ==> #[trigger] label_items(
                buf,
                end,
                pos,
                max_pos,
                n,
            )[i] is Ok,
    decreases DOMAIN_NAME_MAX_POINTERS - n, end - pos,
{
    match label_step(buf, end, pos, max_pos, n) {
        LabelStep::Label(bytes, p, next) => {
            lemma_label_items_failure_last(buf, end, next, max_pos, n);
            let items = label_items(buf, end, pos, max_pos, n);
            let rest = label_items(buf, end, next, max_pos, n);
            if check_label_spec(bytes) is Ok {
                assert forall|i: int| 0 <= i < items.len() - 1 implies #[trigger] items[i] is Ok by {
                    if i > 0 {
                        assert(items[i] == rest[i - 1]);
                    }
                }
            }
        },
        LabelStep::Jump(to, m) => {
            lemma_label_items_failure_last(buf, end, to, m, n + 1);
        },
        _ => {},
    }
}

/// The view of an item returned from [`Labels::next`].
pub open spec fn label_result_view(r: Result<LabelRef<'_>>) -> Result<(Seq<u8>, int)> {
    match r {
        Ok(l) => Ok(l@),
        Err(e) => Err(e),
    }
}

/// The view of an item returned from [`Labels::skip_next_label`].
pub open spec fn skip_result_matches(r: Result<()>, item: Result<(Seq<u8>, int)>) -> bool {
    match item {
        Ok(_) => r is Ok,
        Err(e) => r == Err::<(), Error>(e),
    }
}

/// Iterator over encoded domain name labels.
///
/// Compression pointers are followed transparently. A failure is returned once, after which
/// the iterator is exhausted.
#[derive(Debug)]
pub struct Labels<'a> {
    cursor: Cursor<'a>,
    n_pointers: usize,
    max_pos: usize,
    done: bool,
}

impl<'a> Labels<'a> {
    /// The labels (and possibly a final failure) that the iterator is yet to return.
    pub closed spec fn items(&self) -> Seq<Result<(Seq<u8>, int)>> {
        if self.done {
            Seq::empty()
        } else {
            label_items(
                self.cursor@.buf,
                self.cursor@.end as int,
                self.cursor@.pos as int,
                self.max_pos as int,
                self.n_pointers as int,
            )
        }
    }

    /// The position after the encoded name, once it is known.
    pub closed spec fn spec_max_pos(&self) -> usize {
        self.max_pos
    }

    /// Creates an iterator over the labels of the name encoded at the cursor's position.
    pub fn new(c: Cursor<'a>) -> (l: Labels<'a>)
        ensures
            l.items() == name_labels(c@),
            l.spec_max_pos() == 0,
    {
        Labels { cursor: c, n_pointers: 0, max_pos: 0, done: false }
    }

    /// Returns the position after the encoded name, or zero while it is not known yet.
    ///
    /// The position is known once the iterator reached the end of the name or its first
    /// compression pointer.
    pub fn max_pos(&self) -> (p: usize)
        ensures
            p == self.spec_max_pos(),
    {
        self.max_pos
    }

    /// Returns the next label.
    ///
    /// Returns `None` when the name was read entirely, or after a failure was returned.
    pub fn next(&mut self) -> (r: Option<Result<LabelRef<'a>>>)
        ensures
            old(self).items().len() == 0 ==> r is None && final(self).items().len() == 0,
            old(self).items().len() > 0 ==> (r matches Some(x) && label_result_view(x) == old(self).items()[0]) && final(self).items() == old(self).items().drop_first(),
    {
        if self.done {
            return None;
        }
        let ghost items = self.items();
        proof {
            lemma_label_items_failure_last(
                self.cursor@.buf,
                self.cursor@.end as int,
                self.cursor@.pos as int,
                self.max_pos as int,
                self.n_pointers as int,
            );
        }
        let res = self.next_impl();
        match res {
            Ok(Some(l)) => Some(Ok(l)),
            Ok(None) => None,
            Err(e) => {
                self.done = true;
                assert(items.drop_first() =~= Seq::<Result<(Seq<u8>, int)>>::empty());
                Some(Err(e))
            },
        }
    }

    /// Skips the next label, checking it.
    ///
    /// Returns `None` when the name was read entirely, or after a failure was returned.
    pub fn skip_next_label(&mut self) -> (r: Option<Result<()>>)
        ensures
            old(self).items().len() == 0 ==> r is None && final(self).items().len() == 0,
            old(self).items().len() > 0 ==> (r matches Some(x) && skip_result_matches(
                x,
                old(self).items()[0],
            )) && final(self).items() == old(self).items().drop_first(),
    {
        if self.done {
            return None;
        }
        let ghost items = self.items();
        proof {
            lemma_label_items_failure_last(
                self.cursor@.buf,
                self.cursor@.end as int,
                self.cursor@.pos as int,
                self.max_pos as int,
                self.n_pointers as int,
            );
        }
        let res = self.skip_impl();
        match res {
            Ok(true) => Some(Ok(())),
            Ok(false) => None,
            Err(e) => {
                self.done = true;
                assert(items.drop_first() =~= Seq::<Result<(Seq<u8>, int)>>::empty());
                Some(Err(e))
            },
        }
    }

    fn next_impl(&mut self) -> (r: Result<Option<LabelRef<'a>>>)
        requires
            !old(self).done,
        ensures
            old(self).items().len() == 0 ==> r == Ok::<Option<LabelRef<'a>>, Error>(None)
                && final(self).items().len() == 0,
            old(self).items().len() > 0 && old(self).items()[0] is Ok ==> (r matches Ok(Some(l))
                && Ok::<(Seq<u8>, int), Error>(l@) == old(self).items()[0]) && final(self).items()
                == old(self).items().drop_first(),
            old(self).items().len() > 0 && old(self).items()[0] is Err ==> (r matches Err(e)
                && Err::<(Seq<u8>, int), Error>(e) == old(self).items()[0]),
    {
        let ghost items = self.items();
        loop
            invariant
                !self.done,
                self.items() == items,
                items == old(self).items(),
            decreases DOMAIN_NAME_MAX_POINTERS - self.n_pointers, self.cursor@.end - self.cursor@.pos,
        {
            let pos = self.cursor.pos();
            let label = match self.cursor.u8() {
                Ok(b) => b,
                Err(e) => return Err(e),
            };
            if label == 0 {
                if self.max_pos == 0 {
                    self.max_pos = self.cursor.pos();
                }
                self.done = true;
                return Ok(None);
            } else if is_length(label) {
                let bytes = match self.cursor.slice(label as usize) {
                    Ok(s) => s,
                    Err(e) => return Err(e),
                };
                match check_label_bytes(bytes) {
                    Ok(_) => {},
                    Err(e) => return Err(e),
                }
                let l = LabelRef::new(bytes, pos);
                proof {
                    let rest = self.items();
                    assert(items == seq![Ok::<(Seq<u8>, int), Error>(l@)] + rest);
                    assert(items.drop_first() =~= rest);
                }
                return Ok(Some(l));
            } else if is_pointer(label) {
                let o2 = match self.cursor.u8() {
                    Ok(b) => b,
                    Err(e) => return Err(e),
                };
                let offset = pointer_to_offset(label, o2) as usize;
                let m = if self.max_pos == 0 {
                    self.cursor.pos()
                } else {
                    self.max_pos
                };
                if offset + 2 >= m {
                    return Err(Error::DomainNameBadPointer { pointer: offset, max_offset: m });
                }
                if self.n_pointers >= DOMAIN_NAME_MAX_POINTERS {
                    return Err(Error::DomainNameTooMuchPointers);
                }
                self.max_pos = m;
                self.n_pointers = self.n_pointers + 1;
                self.cursor.set_pos(offset);
            } else {
                return Err(Error::DomainNameBadLabelType(label));
            }
        }
    }

    fn skip_impl(&mut self) -> (r: Result<bool>)
        requires
            !old(self).done,
        ensures
            old(self).items().len() == 0 ==> r == Ok::<bool, Error>(false)
                && final(self).items().len() == 0,
            old(self).items().len() > 0 && old(self).items()[0] is Ok ==> r == Ok::<bool, Error>(true)
                && final(self).items() == old(self).items().drop_first(),
            old(self).items().len() > 0 && old(self).items()[0] is Err ==> (r matches Err(e)
                && Err::<(Seq<u8>, int), Error>(e) == old(self).items()[0]),
    {
        let ghost items = self.items();
        proof {
            lemma_label_items_failure_last(
                self.cursor@.buf,
                self.cursor@.end as int,
                self.cursor@.pos as int,
                self.max_pos as int,
                self.n_pointers as int,
            );
        }
        let res = self.next_impl();
        match res {
            Ok(Some(_l)) => Ok(true),
            Ok(None) => Ok(false),
            Err(e) => Err(e),
        }
    }
}

} // verus!
