//! Reading a message through iterators over its questions and records.

use vstd::prelude::*;

use crate::bytes::{Cursor, CursorView, Reader};
use crate::constants::HEADER_LENGTH;
use crate::errors::{Error, Result};
use crate::message::header::{read_header_spec, Header};
use crate::message::question::Question;
use crate::message::reader::labels::{skip_question_spec, skip_rr_spec};
use crate::message::reader::questions::{Questions, QuestionsView};
use crate::message::reader::records::{Records, RecordsView};
use crate::message::reader::section_tracker::TrackerView;
use crate::message::records_section::{section_at, section_index, RecordsSection};

verus! {

/// A cursor over the whole message `buf`, at `pos`.
pub open spec fn msg_cursor(buf: Seq<u8>, pos: usize) -> CursorView {
    CursorView { buf, pos, end: buf.len() as usize, window: false }
}

/// Skipping `n` questions at the cursor.
pub open spec fn skip_questions_n(c: CursorView, n: nat) -> (Result<()>, CursorView)
    decreases n,
{
    if n == 0 {
        (Ok(()), c)
    } else {
        match skip_question_spec(c) {
            (Err(e), c1) => (Err(e), c1),
            (Ok(_), c1) => skip_questions_n(c1, (n - 1) as nat),
        }
    }
}

/// Skipping `n` resource records at the cursor.
pub open spec fn skip_rrs_n(c: CursorView, n: nat) -> (Result<()>, CursorView)
    decreases n,
{
    if n == 0 {
        (Ok(()), c)
    } else {
        match skip_rr_spec(c) {
            (Err(e), c1) => (Err(e), c1),
            (Ok(_), c1) => skip_rrs_n(c1, (n - 1) as nat),
        }
    }
}

/// The offset of the answer section of the message `buf` with header `h`: after the header
/// and the questions.
pub open spec fn answer_offset(buf: Seq<u8>, h: Header) -> Result<usize> {
    match skip_questions_n(msg_cursor(buf, 12), h.qd_count as nat) {
        (Ok(_), c) => Ok(c.pos),
        (Err(e), _c) => Err(e),
    }
}

/// The offset of the authority section: after the answer records.
pub open spec fn authority_offset(buf: Seq<u8>, h: Header) -> Result<usize> {
    match answer_offset(buf, h) {
        Err(e) => Err(e),
        Ok(a) => match skip_rrs_n(msg_cursor(buf, a), h.an_count as nat) {
            (Ok(_), c) => Ok(c.pos),
            (Err(e), _c) => Err(e),
        },
    }
}

/// The offset of the additional section: after the authority records.
pub open spec fn additional_offset(buf: Seq<u8>, h: Header) -> Result<usize> {
    match authority_offset(buf, h) {
        Err(e) => Err(e),
        Ok(a) => match skip_rrs_n(msg_cursor(buf, a), h.ns_count as nat) {
            (Ok(_), c) => Ok(c.pos),
            (Err(e), _c) => Err(e),
        },
    }
}

/// The offset of a records section of the message `buf` with header `h`.
pub open spec fn section_offset_spec(buf: Seq<u8>, h: Header, s: RecordsSection) -> Result<usize> {
    match s {
        RecordsSection::Answer => answer_offset(buf, h),
        RecordsSection::Authority => authority_offset(buf, h),
        RecordsSection::Additional => additional_offset(buf, h),
    }
}

/// Skipping questions or records never moves a cursor back.
proof fn lemma_skip_n_forward(c: CursorView, n: nat, questions: bool)
    ensures
        questions ==> skip_questions_n(c, n).1.pos >= c.pos,
        !questions ==> skip_rrs_n(c, n).1.pos >= c.pos,
    decreases n,
{
    if n > 0 {
        lemma_skip_forward(c);
        if questions {
            match skip_question_spec(c) {
                (Err(_), _) => {},
                (Ok(_), c1) => {
                    lemma_skip_n_forward(c1, (n - 1) as nat, questions);
                },
            }
        } else {
            match skip_rr_spec(c) {
                (Err(_), _) => {},
                (Ok(_), c1) => {
                    lemma_skip_n_forward(c1, (n - 1) as nat, questions);
                },
            }
        }
    }
}

/// Skipping a question or a record never moves a cursor back.
proof fn lemma_skip_forward(c: CursorView)
    ensures
        skip_question_spec(c).1.pos >= c.pos,
        skip_rr_spec(c).1.pos >= c.pos,
{
    crate::message::reader::labels::lemma_skip_name_forward(c);
}

/// Reading a message through iterators over its questions and records.
///
/// The offsets of the records sections are computed when first needed and kept.
pub struct MessageIterator<'a> {
    buf: &'a [u8],
    header: Header,
    offsets: [usize; 3],
}

impl<'a> MessageIterator<'a> {
    #[verifier::type_invariant]
    spec fn inv(&self) -> bool {
        &&& self.offsets@.len() == 3
        &&& self.offsets@[0] != 0
        &&& forall|i: int|
            0 <= i < 3 && self.offsets@[i] != 0 ==> section_offset_spec(
                self.buf@,
                self.header,
                section_at(i),
            ) == Ok::<usize, Error>(self.offsets@[i])
    }

    /// The message.
    pub closed spec fn spec_buf(&self) -> Seq<u8> {
        self.buf@
    }

    /// The header of the message.
    pub closed spec fn spec_header(&self) -> Header {
        self.header
    }

    /// Creates an iterator over the message `buf`: reads its header and computes the offset
    /// of its answer section.
    ///
    /// # Errors
    ///
    /// The errors of reading the header and of skipping the questions.
    pub fn new(buf: &'a [u8]) -> (r: Result<MessageIterator<'a>>)
        ensures
            match read_header_spec(msg_cursor(buf@, 0)) {
                (Err(e), _c) => r == Err::<MessageIterator<'a>, Error>(e),
                (Ok(h), _c) => match answer_offset(buf@, h) {
                    Err(e) => r == Err::<MessageIterator<'a>, Error>(e),
                    Ok(_) => r matches Ok(mi) && mi.spec_buf() == buf@ && mi.spec_header() == h,
                },
            },
    {
        let mut cursor = Cursor::new(buf);
        let header: Result<Header> = cursor.read();
        let header = match header {
            Ok(h) => h,
            Err(e) => return Err(e),
        };
        let answer = match MessageIterator::compute_offset(buf, &header, RecordsSection::Answer) {
            Ok(a) => a,
            Err(e) => return Err(e),
        };
        proof {
            lemma_skip_n_forward(msg_cursor(buf@, 12), header.qd_count as nat, true);
        }
        let offsets = [answer, 0, 0];
        let mi = MessageIterator { buf, header, offsets };
        Ok(mi)
    }

    /// Returns the header of the message.
    pub fn header(&self) -> (h: &Header)
        ensures
            *h == self.spec_header(),
    {
        &self.header
    }

    /// Reads the first question of the message.
    ///
    /// # Errors
    ///
    /// [`Error::BadQuestionsCount`] with zero when the message has no question; the errors of
    /// reading the question.
    pub fn question(&self) -> (r: Result<Question>)
        ensures
            self.spec_header().qd_count == 0 ==> r == Err::<Question, Error>(
                Error::BadQuestionsCount(0),
            ),
            self.spec_header().qd_count > 0 ==> exists|c2: CursorView|
                #[trigger] Question::read_outcome(msg_cursor(self.spec_buf(), 12), r, c2),
    {
        let mut questions = self.questions();
        match questions.next() {
            Some(res) => res,
            None => Err(Error::BadQuestionsCount(0)),
        }
    }

    /// Returns an iterator over the questions of the message.
    pub fn questions(&self) -> (q: Questions<'a>)
        ensures
            q@ == (QuestionsView {
                cursor: msg_cursor(self.spec_buf(), 12),
                err: false,
                qd_count: self.spec_header().qd_count,
                qd_read: 0,
            }),
    {
        Questions::new(Cursor::with_pos(self.buf, HEADER_LENGTH), self.header.qd_count)
    }

    /// Returns an iterator over the records of the message.
    pub fn records(&self) -> (r: Records<'a>)
        ensures
            answer_offset(self.spec_buf(), self.spec_header()) matches Ok(a) && r@ == (RecordsView {
                cursor: msg_cursor(self.spec_buf(), a),
                tracker: TrackerView {
                    qd_total: self.spec_header().qd_count,
                    qd_read: 0,
                    totals: seq![
                        self.spec_header().an_count,
                        self.spec_header().ns_count,
                        self.spec_header().ar_count,
                    ],
                    reads: seq![0u16, 0u16, 0u16],
                    offsets: seq![0u16, 0u16, 0u16],
                },
                err: false,
            }),
    {
        proof {
            use_type_invariant(self);
        }
        Records::new(Cursor::with_pos(self.buf, self.offsets[0]), &self.header)
    }

    /// Returns the offset of a records section, computing it when it is not known yet.
    ///
    /// # Errors
    ///
    /// The errors of skipping the questions and records before the section.
    pub fn section_offset(&mut self, section: RecordsSection) -> (r: Result<usize>)
        ensures
            r == section_offset_spec(old(self).spec_buf(), old(self).spec_header(), section),
            final(self).spec_buf() == old(self).spec_buf(),
            final(self).spec_header() == old(self).spec_header(),
    {
        proof {
            use_type_invariant(&*self);
        }
        let i = section.index();
        let existing = self.offsets[i];
        if existing != 0 {
            proof {
                assert(section_at(i as int) == section);
            }
            return Ok(existing);
        }
        let res = MessageIterator::compute_offset(self.buf, &self.header, section);
        match res {
            Ok(offset) => {
                proof {
                    lemma_offset_positive(self.buf@, self.header, section);
                }
                let mut offsets = self.offsets;
                offsets[i] = offset;
                *self = MessageIterator { buf: self.buf, header: self.header, offsets };
                Ok(offset)
            },
            Err(e) => Err(e),
        }
    }

    /// Computes the offset of a records section by skipping what precedes it.
    pub(crate) fn compute_offset(buf: &'a [u8], header: &Header, section: RecordsSection) -> (r: Result<usize>)
        ensures
            r == section_offset_spec(buf@, *header, section),
        decreases section_index(section),
    {
        match section {
            RecordsSection::Answer => {
                let mut c = Cursor::with_pos(buf, HEADER_LENGTH);
                let mut k: u16 = 0;
                while k < header.qd_count
                    invariant
                        k <= header.qd_count,
                        c@.buf == buf@,
                        skip_questions_n(msg_cursor(buf@, 12), header.qd_count as nat)
                            == skip_questions_n(c@, (header.qd_count - k) as nat),
                    decreases header.qd_count - k,
                {
                    match c.skip_question() {
                        Ok(_) => {},
                        Err(e) => return Err(e),
                    }
                    k = k + 1;
                }
                Ok(c.pos())
            },
            RecordsSection::Authority => {
                let start = match MessageIterator::compute_offset(buf, header, RecordsSection::Answer) {
                    Ok(a) => a,
                    Err(e) => return Err(e),
                };
                MessageIterator::skip_records(buf, start, header.an_count)
            },
            RecordsSection::Additional => {
                let start = match MessageIterator::compute_offset(buf, header, RecordsSection::Authority) {
                    Ok(a) => a,
                    Err(e) => return Err(e),
                };
                MessageIterator::skip_records(buf, start, header.ns_count)
            },
        }
    }

    /// Skips `count` records from `start` and returns the position after them.
    fn skip_records(buf: &'a [u8], start: usize, count: u16) -> (r: Result<usize>)
        ensures
            r == (match skip_rrs_n(msg_cursor(buf@, start), count as nat) {
                (Ok(_), c) => Ok::<usize, Error>(c.pos),
                (Err(e), _c) => Err::<usize, Error>(e),
            }),
    {
        let mut c = Cursor::with_pos(buf, start);
        let mut k: u16 = 0;
        while k < count
            invariant
                k <= count,
                c@.buf == buf@,
                skip_rrs_n(msg_cursor(buf@, start), count as nat) == skip_rrs_n(
                    c@,
                    (count - k) as nat,
                ),
            decreases count - k,
        {
            match c.skip_rr() {
                Ok(_) => {},
                Err(e) => return Err(e),
            }
            k = k + 1;
        }
        Ok(c.pos())
    }
}

/// Section offsets are never zero: they come after the header.
proof fn lemma_offset_positive(buf: Seq<u8>, h: Header, s: RecordsSection)
    ensures
        section_offset_spec(buf, h, s) matches Ok(o) ==> o >= 12,
{
    lemma_skip_n_forward(msg_cursor(buf, 12), h.qd_count as nat, true);
    if let Ok(a) = answer_offset(buf, h) {
        lemma_skip_n_forward(msg_cursor(buf, a), h.an_count as nat, false);
        if let Ok(b) = authority_offset(buf, h) {
            lemma_skip_n_forward(msg_cursor(buf, b), h.ns_count as nat, false);
        }
    }
}

} // verus!
