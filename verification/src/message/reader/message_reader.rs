//! A reader of DNS messages, element by element.

use vstd::prelude::*;

use crate::bytes::{skip_read, slice_read, u16_read, u32_read, Cursor, CursorView, Reader};
use crate::constants::HEADER_LENGTH;
use crate::errors::{Error, Result};
use crate::message::class_value::ClassValue;
use crate::message::header::{read_header_spec, Header};
use crate::message::question::Question;
use crate::message::reader::message_iterator::{additional_offset, answer_offset, msg_cursor, MessageIterator};
use crate::message::reader::questions::{Questions, QuestionsView};
use crate::message::reader::records::{Records, RecordsView};
use crate::message::reader::labels::{read_domain_name, read_name_spec, skip_name_spec, skip_question_spec};
use crate::message::reader::name_ref::NameRef;
use crate::message::reader::question_ref::QuestionRef;
use crate::message::reader::record_marker::{RecordHeader, RecordHeaderRef, RecordMarker, RecordOffset, TYPE_TO_RDATA_OFFSET};
use crate::message::reader::section_tracker::{first_pending, lemma_first_pending_same, lemma_first_pending_some, left_from, next_section_spec, tracker_consistent, tracker_question_read, tracker_section_read, tracker_seek, tracker_set, SectionTracker, TrackerView};
use crate::message::records_section::{section_index, RecordsSection};
use crate::message::type_value::TypeValue;
use crate::names::dname::DName;
use crate::records::data::RData;
use crate::records::opt::{opt_of, Opt};

verus! {

/// The abstract state of a [`MessageReader`].
pub struct ReaderView {
    /// The cursor over the message.
    pub cursor: CursorView,
    /// What was read of each section.
    pub tracker: TrackerView,
    /// Whether the reader is done, after an error or a finished read.
    pub done: bool,
}

/// Reading the fixed fields of a record at the cursor `c`, the record's owner name starting at
/// `pos`: the marker, and the cursor afterwards.
pub open spec fn raw_marker_read(c: CursorView, pos: usize, section: RecordsSection) -> (
    Result<RecordMarker>,
    CursorView,
) {
    match u16_read(c) {
        (Err(e), c1) => (Err(e), c1),
        (Ok(t), c1) => match u16_read(c1) {
            (Err(e), c2) => (Err(e), c2),
            (Ok(k), c2) => match u32_read(c2) {
                (Err(e), c3) => (Err(e), c3),
                (Ok(ttl), c3) => match u16_read(c3) {
                    (Err(e), c4) => (Err(e), c4),
                    (Ok(rdlen), c4) => (
                        Ok(
                            RecordMarker {
                                offset: RecordOffset { offset: pos, type_offset: c.pos },
                                rtype: TypeValue::spec_from_value(t),
                                rclass: ClassValue::spec_from_value(k),
                                ttl,
                                rdlen,
                                section,
                            },
                        ),
                        c4,
                    ),
                },
            },
        },
    }
}

/// Reading the marker of the next record: its section is found, its owner name skipped and
/// its fixed fields read.
pub open spec fn marker_read(v: ReaderView) -> (Result<RecordMarker>, ReaderView) {
    let pos = v.cursor.pos;
    match next_section_spec(v.tracker, pos as u16) {
        (None, t1) => (Err(Error::ReaderDone), ReaderView { tracker: t1, ..v }),
        (Some(s), t1) => match skip_name_spec(v.cursor) {
            Err(e) => (Err(e), ReaderView { tracker: t1, ..v }),
            Ok(p) => {
                let (r, c2) = raw_marker_read(v.cursor.at(p), pos, s);
                (r, ReaderView { cursor: c2, tracker: t1, ..v })
            },
        },
    }
}

/// Reading the header of the next record: its section is found, its owner name read and its
/// fixed fields read.
pub open spec fn header_read(v: ReaderView) -> (Result<(Seq<u8>, RecordMarker)>, ReaderView) {
    let pos = v.cursor.pos;
    match next_section_spec(v.tracker, pos as u16) {
        (None, t1) => (Err(Error::ReaderDone), ReaderView { tracker: t1, ..v }),
        (Some(s), t1) => match read_name_spec(v.cursor) {
            Err(e) => (Err(e), ReaderView { tracker: t1, ..v }),
            Ok((t, p)) => {
                let (r, c2) = raw_marker_read(v.cursor.at(p), pos, s);
                (
                    match r {
                        Ok(m) => Ok((t, m)),
                        Err(e) => Err(e),
                    },
                    ReaderView { cursor: c2, tracker: t1, ..v },
                )
            },
        },
    }
}

/// Skipping the data of the record of `marker`: the record then counts as read; an error
/// makes the reader done.
pub open spec fn data_skip(v: ReaderView, marker: RecordMarker) -> (Result<()>, ReaderView) {
    match skip_read(v.cursor, marker.rdlen as int) {
        (Ok(_), c) => (
            Ok(()),
            ReaderView {
                cursor: c,
                tracker: tracker_section_read(v.tracker, marker.section, c.pos),
                ..v
            },
        ),
        (Err(e), c) => (Err(e), ReaderView { cursor: c, done: true, ..v }),
    }
}

/// Skipping the questions left to read.
pub open spec fn questions_skip(v: ReaderView) -> (Result<()>, ReaderView)
    decreases v.tracker.qd_total - v.tracker.qd_read,
{
    if v.tracker.qd_read >= v.tracker.qd_total {
        (Ok(()), v)
    } else {
        match skip_question_spec(v.cursor) {
            (Err(e), c) => (Err(e), ReaderView { cursor: c, ..v }),
            (Ok(_), c) => questions_skip(
                ReaderView { cursor: c, tracker: tracker_question_read(v.tracker, c.pos), ..v },
            ),
        }
    }
}

/// The records left to read in the sections up to the one at `i`.
pub open spec fn left_through(t: TrackerView, i: int) -> int
    decreases i + 1,
{
    if i < 0 {
        0
    } else {
        (t.totals[i] - t.reads[i]) + left_through(t, i - 1)
    }
}

/// Skipping the records left in `section`, record by record; `n` records are left up to it.
pub open spec fn section_skip(v: ReaderView, section: RecordsSection, n: nat) -> (
    Result<()>,
    ReaderView,
)
    decreases n,
{
    let i = section_index(section);
    if n == 0 || v.tracker.reads[i] >= v.tracker.totals[i] {
        (Ok(()), v)
    } else {
        match marker_read(v) {
            (Err(e), v1) => (Err(e), v1),
            (Ok(m), v1) => match data_skip(v1, m) {
                (Err(e), v2) => (Err(e), v2),
                (Ok(_), v2) => section_skip(v2, section, (n - 1) as nat),
            },
        }
    }
}

/// Skipping a whole section from the state `v`.
pub open spec fn whole_section_skip(v: ReaderView, section: RecordsSection) -> (
    Result<()>,
    ReaderView,
) {
    section_skip(v, section, left_through(v.tracker, section_index(section)) as nat)
}

/// Skipping what precedes `section` in a message of which only the header was read.
pub open spec fn seek_skip(v: ReaderView, section: RecordsSection) -> (Result<()>, ReaderView) {
    match questions_skip(v) {
        (Err(e), v1) => (Err(e), v1),
        (Ok(_), v1) => match section {
            RecordsSection::Answer => (Ok(()), v1),
            RecordsSection::Authority => whole_section_skip(v1, RecordsSection::Answer),
            RecordsSection::Additional => match whole_section_skip(v1, RecordsSection::Answer) {
                (Err(e), v2) => (Err(e), v2),
                (Ok(_), v2) => whole_section_skip(v2, RecordsSection::Authority),
            },
        },
    }
}

/// Moving to the first record of `section`: by its offset where it is known; by skipping what
/// precedes it where only the header was read; an error otherwise.
pub open spec fn seek_spec(v: ReaderView, section: RecordsSection) -> (Result<()>, ReaderView) {
    let i = section_index(section);
    if v.done {
        (Err(Error::ReaderDone), v)
    } else if v.tracker.offsets[i] != 0 {
        (
            Ok(()),
            ReaderView {
                cursor: v.cursor.at(v.tracker.offsets[i] as int),
                tracker: tracker_seek(v.tracker, section),
                ..v
            },
        )
    } else if v.cursor.pos != 12 {
        (Err(Error::RecordsSectionOffsetUnknown(section)), v)
    } else {
        match seek_skip(v, section) {
            (Ok(_), v2) => (Ok(()), v2),
            (Err(e), v2) => (Err(e), ReaderView { done: true, ..v2 }),
        }
    }
}

/// Reading the header: the counts of the message are set from it; an error makes the reader
/// done.
pub open spec fn header_step(v: ReaderView) -> (Result<Header>, ReaderView) {
    match read_header_spec(v.cursor) {
        (Ok(h), c) => (Ok(h), ReaderView { cursor: c, tracker: tracker_set(v.tracker, h), ..v }),
        (Err(e), c) => (Err(e), ReaderView { cursor: c, done: true, ..v }),
    }
}

/// What a question read leaves: on success the question counts as read, on error the reader
/// is done.
pub open spec fn question_after(v: ReaderView, ok: bool, v2: ReaderView) -> bool {
    if ok {
        v2.tracker == tracker_question_read(v.tracker, v2.cursor.pos) && v2.done == v.done
    } else {
        v2.tracker == v.tracker && v2.done
    }
}

/// The number of questions left to read, as a reader reports it.
pub open spec fn questions_left(v: ReaderView) -> int {
    if v.done {
        0
    } else {
        v.tracker.qd_total - v.tracker.qd_read
    }
}

/// What a read of record data leaves: on success the record counts as read, on error the
/// reader is done.
pub open spec fn data_after(v: ReaderView, marker: RecordMarker, ok: bool, v2: ReaderView) -> bool {
    if ok {
        v2.tracker == tracker_section_read(v.tracker, marker.section, v2.cursor.pos) && v2.done
            == v.done
    } else {
        v2.tracker == v.tracker && v2.done
    }
}

/// A marker that the reader gives places the record's data where the reader then stands: a
/// cursor over the same message, with the same bounds, moved to the marker's data offset
/// ([`MessageReader::record_data_bytes_at`], [`MessageReader::record_data_at`]) is the cursor
/// that [`MessageReader::record_data_bytes`] and [`MessageReader::record_data`] read from
/// right after [`MessageReader::record_marker`], so both read the same bytes and the same
/// data. The marker's offset is where the record starts.
pub proof fn lemma_marker_data_cursor(v: ReaderView, w: CursorView)
    requires
        w.buf == v.cursor.buf,
        w.end == v.cursor.end,
        w.window == v.cursor.window,
    ensures
        marker_read(v) matches (Ok(m), v2) ==> {
            &&& m.offset.offset == v.cursor.pos
            &&& w.at(m.offset.type_offset + TYPE_TO_RDATA_OFFSET) == v2.cursor
            &&& slice_read(w.at(m.offset.type_offset + TYPE_TO_RDATA_OFFSET), m.rdlen as int)
                == slice_read(v2.cursor, m.rdlen as int)
        },
{
}

/// Reading a record's header gives the marker that reading its marker gives and leaves the
/// reader in the same state; the owner name it gives is the name decoded where the record
/// starts.
pub proof fn lemma_header_read_marker(v: ReaderView)
    ensures
        header_read(v) matches (Ok((t, m)), v2) ==> {
            &&& marker_read(v) == (Ok::<RecordMarker, Error>(m), v2)
            &&& read_name_spec(v.cursor.at(m.offset.offset as int)) matches Ok((t2, _p))
            &&& t2 == t
        },
{
    crate::message::reader::labels::lemma_skip_ends_where_read_ends(v.cursor);
    assert(v.cursor.at(v.cursor.pos as int) == v.cursor);
}

/// A reader of DNS messages, element by element: the header, the questions, then the records
/// of each section.
///
/// An error makes the reader done: later reads fail with [`Error::ReaderDone`].
#[derive(Debug)]
pub struct MessageReader<'a> {
    cursor: Cursor<'a>,
    section_tracker: SectionTracker,
    done: bool,
}

impl<'a> View for MessageReader<'a> {
    type V = ReaderView;

    closed spec fn view(&self) -> ReaderView {
        ReaderView { cursor: self.cursor@, tracker: self.section_tracker@, done: self.done }
    }
}

/// The sections up to the first with records left hold no records left.
proof fn lemma_first_pending(t: TrackerView, s: int, k: int)
    requires
        tracker_consistent(t),
        0 <= s <= 3,
        first_pending(t, s) matches Some(f) ==> 0 <= k < f && k >= s,
        first_pending(t, s) is None ==> s <= k < 3,
    ensures
        t.reads[k] == t.totals[k],
    decreases 3 - s,
{
    if s < 3 && t.reads[s] >= t.totals[s] && k > s {
        lemma_first_pending(t, s + 1, k);
    }
}

/// The records left up to a section are none or more; some when that section has some.
pub proof fn lemma_left_through_bounds(t: TrackerView, i: int)
    requires
        tracker_consistent(t),
        -1 <= i < 3,
    ensures
        left_through(t, i) >= 0,
        0 <= i && t.reads[i] < t.totals[i] ==> left_through(t, i) > 0,
    decreases i + 1,
{
    if i >= 0 {
        lemma_left_through_bounds(t, i - 1);
    }
}

/// Reading a record of the first section with records left brings the records left up to a
/// later section down by one.
pub proof fn lemma_left_through_step(t: TrackerView, i: int, s: RecordsSection, pos: usize)
    requires
        tracker_consistent(t),
        0 <= i < 3,
        section_index(s) <= i,
        first_pending(t, 0) == Some(section_index(s)),
    ensures
        left_through(tracker_section_read(t, s, pos), i) == left_through(t, i) - 1,
        tracker_consistent(tracker_section_read(t, s, pos)),
        left_through(t, i) > 0,
{
    let j = section_index(s);
    let t2 = tracker_section_read(t, s, pos);
    lemma_first_pending_some(t, 0);
    assert(t.reads[j] < t.totals[j]);
    assert(t2.reads[j] == t.reads[j] + 1);
    assert(t2.totals == t.totals);
    assert(forall|k: int| 0 <= k < 3 && k != j ==> t2.reads[k] == t.reads[k]);
    lemma_left_through_bounds(t, i);
    crate::message::reader::section_tracker::lemma_fill_len(t.offsets, t.totals, j + 1, pos as u16);
    assert(left_through(t2, -1) == 0);
    assert(left_through(t, -1) == 0);
    assert(left_through(t2, 0) == t2.totals[0] - t2.reads[0]);
    assert(left_through(t, 0) == t.totals[0] - t.reads[0]);
    assert(left_through(t2, 1) == t2.totals[1] - t2.reads[1] + left_through(t2, 0));
    assert(left_through(t, 1) == t.totals[1] - t.reads[1] + left_through(t, 0));
    assert(left_through(t2, 2) == t2.totals[2] - t2.reads[2] + left_through(t2, 1));
    assert(left_through(t, 2) == t.totals[2] - t.reads[2] + left_through(t, 1));
}

/// The first section with records left comes no later than a section with records left.
proof fn lemma_pending_before(t: TrackerView, i: int, s: RecordsSection)
    requires
        tracker_consistent(t),
        0 <= i < 3,
        t.reads[i] < t.totals[i],
        first_pending(t, 0) == Some(section_index(s)),
    ensures
        section_index(s) <= i,
{
    lemma_first_pending_some(t, 0);
    if section_index(s) > i {
        lemma_first_pending(t, 0, i);
    }
}

/// The records left up to a section depend on the counts only.
pub proof fn lemma_left_through_same(a: TrackerView, b: TrackerView, i: int)
    requires
        a.reads == b.reads,
        a.totals == b.totals,
    ensures
        left_through(a, i) == left_through(b, i),
    decreases i + 1,
{
    if i >= 0 {
        lemma_left_through_same(a, b, i - 1);
    }
}

impl<'a> MessageReader<'a> {
    /// Creates a reader of the message `msg`.
    ///
    /// # Errors
    ///
    /// [`Error::MessageTooLong`] when the message is longer than 65535 bytes.
    pub fn new(msg: &'a [u8]) -> (r: Result<MessageReader<'a>>)
        ensures
            msg@.len() > 0xFFFF ==> r == Err::<MessageReader<'a>, Error>(
                Error::MessageTooLong(msg@.len() as usize),
            ),
            msg@.len() <= 0xFFFF ==> (r matches Ok(m) && m@ == (ReaderView {
                cursor: CursorView { buf: msg@, pos: 0, end: msg@.len() as usize, window: false },
                tracker: TrackerView {
                    qd_total: 0,
                    qd_read: 0,
                    totals: seq![0u16, 0u16, 0u16],
                    reads: seq![0u16, 0u16, 0u16],
                    offsets: seq![0u16, 0u16, 0u16],
                },
                done: false,
            })),
    {
        if msg.len() > 0xFFFF {
            return Err(Error::MessageTooLong(msg.len()));
        }
        Ok(MessageReader { cursor: Cursor::new(msg), section_tracker: SectionTracker::default(), done: false })
    }

    /// Creates a reader from a cursor and a tracker of what was read.
    pub(crate) fn from_parts(cursor: Cursor<'a>, tracker: SectionTracker) -> (r: MessageReader<'a>)
        ensures
            r@ == (ReaderView { cursor: cursor@, tracker: tracker@, done: false }),
    {
        MessageReader { cursor, section_tracker: tracker, done: false }
    }

    /// Reads the message header and sets the counts of questions and records from it.
    ///
    /// An error makes the reader done.
    pub fn header(&mut self) -> (r: Result<Header>)
        ensures
            (r, final(self)@) == header_step(old(self)@),
    {
        let res: Result<Header> = self.cursor.read();
        match res {
            Ok(h) => {
                self.section_tracker.set(&h);
                Ok(h)
            },
            Err(e) => {
                self.done = true;
                Err(e)
            },
        }
    }

    /// Returns an iterator over the questions of the message, from its first question, as
    /// many as the message header gives. The reader itself does not move.
    ///
    /// # Errors
    ///
    /// The errors of reading the header, and of skipping the questions, the answer records
    /// and the authority records.
    pub fn questions(&self) -> (r: Result<Questions<'a>>)
        ensures
            match read_header_spec(msg_cursor(self@.cursor.buf, 0)) {
                (Err(e), _c) => r == Err::<Questions<'a>, Error>(e),
                (Ok(h), _c) => match additional_offset(self@.cursor.buf, h) {
                    Err(e) => r == Err::<Questions<'a>, Error>(e),
                    Ok(_) => r matches Ok(q) && q@ == (QuestionsView {
                        cursor: msg_cursor(self@.cursor.buf, 12),
                        err: false,
                        qd_count: h.qd_count,
                        qd_read: 0,
                    }),
                },
            },
    {
        let buf = self.cursor.buffer();
        let header = match MessageReader::message_header(buf) {
            Ok(h) => h,
            Err(e) => return Err(e),
        };
        Ok(Questions::new(Cursor::with_pos(buf, HEADER_LENGTH), header.qd_count))
    }

    /// Returns an iterator over the records of the message, from its first answer record.
    /// The reader itself does not move.
    ///
    /// # Errors
    ///
    /// Those of [`MessageReader::questions`].
    pub fn records(&self) -> (r: Result<Records<'a>>)
        ensures
            match read_header_spec(msg_cursor(self@.cursor.buf, 0)) {
                (Err(e), _c) => r == Err::<Records<'a>, Error>(e),
                (Ok(h), _c) => match additional_offset(self@.cursor.buf, h) {
                    Err(e) => r == Err::<Records<'a>, Error>(e),
                    Ok(_) => answer_offset(self@.cursor.buf, h) matches Ok(a) && r matches Ok(rs)
                        && rs@ == (RecordsView {
                        cursor: msg_cursor(self@.cursor.buf, a),
                        tracker: TrackerView {
                            qd_total: h.qd_count,
                            qd_read: 0,
                            totals: seq![h.an_count, h.ns_count, h.ar_count],
                            reads: seq![0u16, 0u16, 0u16],
                            offsets: seq![0u16, 0u16, 0u16],
                        },
                        err: false,
                    }),
                },
            },
    {
        let buf = self.cursor.buffer();
        let header = match MessageReader::message_header(buf) {
            Ok(h) => h,
            Err(e) => return Err(e),
        };
        let answer = match MessageIterator::compute_offset(buf, &header, RecordsSection::Answer) {
            Ok(a) => a,
            Err(e) => return Err(e),
        };
        Ok(Records::new(Cursor::with_pos(buf, answer), &header))
    }

    /// Reads the header of the message `buf` and checks that its question, answer and
    /// authority sections can be skipped.
    fn message_header(buf: &'a [u8]) -> (r: Result<Header>)
        ensures
            match read_header_spec(msg_cursor(buf@, 0)) {
                (Err(e), _c) => r == Err::<Header, Error>(e),
                (Ok(h), _c) => match additional_offset(buf@, h) {
                    Err(e) => r == Err::<Header, Error>(e),
                    Ok(_) => r == Ok::<Header, Error>(h),
                },
            },
    {
        let mut cursor = Cursor::new(buf);
        let header: Result<Header> = cursor.read();
        let header = match header {
            Ok(h) => h,
            Err(e) => return Err(e),
        };
        match MessageIterator::compute_offset(buf, &header, RecordsSection::Additional) {
            Ok(_) => Ok(header),
            Err(e) => Err(e),
        }
    }

    /// Moves to the first record of `section`, as [`seek_spec`] describes.
    pub fn seek(&mut self, section: RecordsSection) -> (r: Result<()>)
        requires
            tracker_consistent(old(self)@.tracker),
        ensures
            (r, final(self)@) == seek_spec(old(self)@, section),
    {
        if self.done {
            return Err(Error::ReaderDone);
        }
        match self.section_tracker.section_offset(section) {
            Some(offset) => {
                self.cursor.set_pos(offset);
                self.section_tracker.seek(section);
                return Ok(());
            },
            None => {},
        }
        if self.cursor.pos() != HEADER_LENGTH {
            return Err(Error::RecordsSectionOffsetUnknown(section));
        }
        let res = self.seek_impl(section);
        match res {
            Ok(_) => Ok(()),
            Err(e) => {
                self.done = true;
                Err(e)
            },
        }
    }

    fn seek_impl(&mut self, section: RecordsSection) -> (r: Result<()>)
        requires
            tracker_consistent(old(self)@.tracker),
        ensures
            (r, final(self)@) == seek_skip(old(self)@, section),
    {
        match self.skip_questions_impl() {
            Ok(_) => {},
            Err(e) => return Err(e),
        }
        match section {
            RecordsSection::Answer => Ok(()),
            RecordsSection::Authority => self.skip_section_impl(RecordsSection::Answer),
            RecordsSection::Additional => {
                match self.skip_section_impl(RecordsSection::Answer) {
                    Ok(_) => {},
                    Err(e) => return Err(e),
                }
                self.skip_section_impl(RecordsSection::Authority)
            },
        }
    }

    fn skip_section_impl(&mut self, section: RecordsSection) -> (r: Result<()>)
        requires
            tracker_consistent(old(self)@.tracker),
        ensures
            (r, final(self)@) == whole_section_skip(old(self)@, section),
            r is Ok ==> tracker_consistent(final(self)@.tracker),
    {
        let ghost v0 = self@;
        let ghost i = section_index(section);
        proof {
            self.section_tracker.lemma_wf();
            lemma_left_through_bounds(self@.tracker, i);
        }
        while self.section_tracker.records_left_in(section) > 0
            invariant
                v0 == old(self)@,
                i == section_index(section),
                tracker_consistent(self@.tracker),
                left_through(self@.tracker, i) >= 0,
                whole_section_skip(v0, section) == section_skip(
                    self@,
                    section,
                    left_through(self@.tracker, i) as nat,
                ),
            decreases left_through(self@.tracker, i),
        {
            let ghost v1 = self@;
            proof {
                lemma_left_through_bounds(v1.tracker, i);
            }
            let marker = match self.marker_impl() {
                Ok(m) => m,
                Err(e) => return Err(e),
            };
            let ghost vm = self@;
            proof {
                self.section_tracker.lemma_wf();
                lemma_first_pending_same(vm.tracker, v1.tracker, 0);
                lemma_first_pending_some(vm.tracker, 0);
                lemma_left_through_same(vm.tracker, v1.tracker, i);
                lemma_pending_before(vm.tracker, i, marker.section);
                lemma_left_through_step(vm.tracker, i, marker.section, 0);
            }
            match self.skip_record_data_impl(&marker) {
                Ok(_) => {},
                Err(e) => return Err(e),
            }
            proof {
                lemma_left_through_step(vm.tracker, i, marker.section, self@.cursor.pos);
            }
        }
        Ok(())
    }

    /// Checks if questions are left to read.
    pub fn has_questions(&self) -> (r: bool)
        requires
            self@.tracker.qd_read <= self@.tracker.qd_total,
        ensures
            r == (questions_left(self@) > 0),
    {
        self.questions_count() > 0
    }

    /// Returns the number of questions left to read; zero once the reader is done.
    pub fn questions_count(&self) -> (r: usize)
        requires
            self@.tracker.qd_read <= self@.tracker.qd_total,
        ensures
            r == questions_left(self@),
    {
        if !self.done {
            self.section_tracker.questions_left()
        } else {
            0
        }
    }

    /// Reads the next question.
    ///
    /// # Errors
    ///
    /// [`Error::ReaderDone`] when the reader is done or no question is left; the errors of
    /// reading the question. Any of them makes the reader done.
    pub fn question(&mut self) -> (r: Result<Question>)
        requires
            old(self)@.tracker.qd_read <= old(self)@.tracker.qd_total,
        ensures
            old(self)@.done ==> r == Err::<Question, Error>(Error::ReaderDone) && final(self)@
                == old(self)@,
            !old(self)@.done && old(self)@.tracker.qd_read == old(self)@.tracker.qd_total ==> r
                == Err::<Question, Error>(Error::ReaderDone) && final(self)@ == (ReaderView {
                done: true,
                ..old(self)@
            }),
            !old(self)@.done && old(self)@.tracker.qd_read < old(self)@.tracker.qd_total ==> (
            Question::read_outcome(old(self)@.cursor, r, final(self)@.cursor) && question_after(
                old(self)@,
                r is Ok,
                final(self)@,
            )),
    {
        if self.done {
            return Err(Error::ReaderDone);
        }
        if self.section_tracker.questions_left() == 0 {
            self.done = true;
            return Err(Error::ReaderDone);
        }
        let res: Result<Question> = self.cursor.read();
        match res {
            Ok(_) => {
                self.section_tracker.question_read(self.cursor.pos());
            },
            Err(_) => {
                self.done = true;
            },
        }
        res
    }

    /// Reads the next question, leaving its name in the message.
    ///
    /// The errors are those of [`MessageReader::question`].
    pub fn question_ref(&mut self) -> (r: Result<QuestionRef<'a>>)
        requires
            old(self)@.tracker.qd_read <= old(self)@.tracker.qd_total,
        ensures
            old(self)@.done ==> r == Err::<QuestionRef<'a>, Error>(Error::ReaderDone)
                && final(self)@ == old(self)@,
            !old(self)@.done && old(self)@.tracker.qd_read == old(self)@.tracker.qd_total ==> r
                == Err::<QuestionRef<'a>, Error>(Error::ReaderDone) && final(self)@ == (
            ReaderView { done: true, ..old(self)@ }),
            !old(self)@.done && old(self)@.tracker.qd_read < old(self)@.tracker.qd_total ==> (
            QuestionRef::read_outcome(old(self)@.cursor, r, final(self)@.cursor)
                && question_after(old(self)@, r is Ok, final(self)@)),
    {
        if self.done {
            return Err(Error::ReaderDone);
        }
        if self.section_tracker.questions_left() == 0 {
            self.done = true;
            return Err(Error::ReaderDone);
        }
        let res: Result<QuestionRef<'a>> = self.cursor.read();
        match res {
            Ok(_) => {
                self.section_tracker.question_read(self.cursor.pos());
            },
            Err(_) => {
                self.done = true;
            },
        }
        res
    }

    /// Reads the question of a message that holds exactly one.
    ///
    /// # Errors
    ///
    /// [`Error::ReaderDone`] when the reader is done or the question was already read;
    /// [`Error::BadQuestionsCount`] with the number of questions in the header when it is not
    /// one; the errors of reading the question. Any of them makes the reader done.
    pub fn the_question(&mut self) -> (r: Result<Question>)
        requires
            old(self)@.tracker.qd_read <= old(self)@.tracker.qd_total,
        ensures
            old(self)@.done ==> r == Err::<Question, Error>(Error::ReaderDone) && final(self)@
                == old(self)@,
            !old(self)@.done && old(self)@.tracker.qd_total != 1 ==> r == Err::<Question, Error>(
                Error::BadQuestionsCount(old(self)@.tracker.qd_total as usize),
            ) && final(self)@ == (ReaderView { done: true, ..old(self)@ }),
            !old(self)@.done && old(self)@.tracker.qd_total == 1 && old(self)@.tracker.qd_read == 1
                ==> r == Err::<Question, Error>(Error::ReaderDone) && final(self)@ == (ReaderView {
                done: true,
                ..old(self)@
            }),
            !old(self)@.done && old(self)@.tracker.qd_total == 1 && old(self)@.tracker.qd_read == 0
                ==> (Question::read_outcome(old(self)@.cursor, r, final(self)@.cursor)
                && question_after(old(self)@, r is Ok, final(self)@)),
    {
        if self.done {
            return Err(Error::ReaderDone);
        }
        let total = self.section_tracker.questions_total();
        if total != 1 {
            self.done = true;
            return Err(Error::BadQuestionsCount(total as usize));
        }
        if self.section_tracker.questions_left() == 0 {
            self.done = true;
            return Err(Error::ReaderDone);
        }
        let res: Result<Question> = self.cursor.read();
        match res {
            Ok(_) => {
                self.section_tracker.question_read(self.cursor.pos());
            },
            Err(_) => {
                self.done = true;
            },
        }
        res
    }

    /// Reads the question of a message that holds exactly one, leaving its name in the
    /// message.
    ///
    /// The errors are those of [`MessageReader::the_question`].
    pub fn the_question_ref(&mut self) -> (r: Result<QuestionRef<'a>>)
        requires
            old(self)@.tracker.qd_read <= old(self)@.tracker.qd_total,
        ensures
            old(self)@.done ==> r == Err::<QuestionRef<'a>, Error>(Error::ReaderDone)
                && final(self)@ == old(self)@,
            !old(self)@.done && old(self)@.tracker.qd_total != 1 ==> r == Err::<QuestionRef<'a>, Error>(
                Error::BadQuestionsCount(old(self)@.tracker.qd_total as usize),
            ) && final(self)@ == (ReaderView { done: true, ..old(self)@ }),
            !old(self)@.done && old(self)@.tracker.qd_total == 1 && old(self)@.tracker.qd_read == 1
                ==> r == Err::<QuestionRef<'a>, Error>(Error::ReaderDone) && final(self)@ == (ReaderView {
                done: true,
                ..old(self)@
            }),
            !old(self)@.done && old(self)@.tracker.qd_total == 1 && old(self)@.tracker.qd_read == 0
                ==> (QuestionRef::read_outcome(old(self)@.cursor, r, final(self)@.cursor)
                && question_after(old(self)@, r is Ok, final(self)@)),
    {
        if self.done {
            return Err(Error::ReaderDone);
        }
        let total = self.section_tracker.questions_total();
        if total != 1 {
            self.done = true;
            return Err(Error::BadQuestionsCount(total as usize));
        }
        if self.section_tracker.questions_left() == 0 {
            self.done = true;
            return Err(Error::ReaderDone);
        }
        let res: Result<QuestionRef<'a>> = self.cursor.read();
        match res {
            Ok(_) => {
                self.section_tracker.question_read(self.cursor.pos());
            },
            Err(_) => {
                self.done = true;
            },
        }
        res
    }

    /// Skips the questions left to read.
    ///
    /// An error makes the reader done.
    pub fn skip_questions(&mut self) -> (r: Result<()>)
        requires
            tracker_consistent(old(self)@.tracker),
        ensures
            old(self)@.done ==> r == Err::<(), Error>(Error::ReaderDone) && final(self)@ == old(self)@,
            !old(self)@.done ==> match questions_skip(old(self)@) {
                (Ok(_), v) => r == Ok::<(), Error>(()) && final(self)@ == v,
                (Err(e), v) => r == Err::<(), Error>(e) && final(self)@ == (ReaderView {
                    done: true,
                    ..v
                }),
            },
            r is Ok ==> tracker_consistent(final(self)@.tracker),
    {
        if self.done {
            return Err(Error::ReaderDone);
        }
        let res = self.skip_questions_impl();
        match res {
            Ok(_) => Ok(()),
            Err(e) => {
                self.done = true;
                Err(e)
            },
        }
    }

    fn skip_questions_impl(&mut self) -> (r: Result<()>)
        requires
            tracker_consistent(old(self)@.tracker),
        ensures
            (r, final(self)@) == questions_skip(old(self)@),
            r is Ok ==> tracker_consistent(final(self)@.tracker),
    {
        let ghost v0 = self@;
        proof {
            self.section_tracker.lemma_wf();
        }
        while self.section_tracker.questions_left() > 0
            invariant
                v0 == old(self)@,
                tracker_consistent(self@.tracker),
                questions_skip(v0) == questions_skip(self@),
            decreases self@.tracker.qd_total - self@.tracker.qd_read,
        {
            match self.cursor.skip_question() {
                Ok(_) => {},
                Err(e) => return Err(e),
            }
            self.section_tracker.question_read(self.cursor.pos());
            proof {
                self.section_tracker.lemma_wf();
            }
        }
        Ok(())
    }

    /// Checks if records are left to read.
    pub fn has_records(&self) -> (r: bool)
        requires
            tracker_consistent(self@.tracker),
        ensures
            r == (!self@.done && left_from(self@.tracker, 0) > 0),
    {
        self.records_count() > 0
    }

    /// Checks if records are left to read in `section`.
    pub fn has_records_in(&self, section: RecordsSection) -> (r: bool)
        requires
            tracker_consistent(self@.tracker),
        ensures
            r == (!self@.done && self@.tracker.reads[section_index(section)]
                < self@.tracker.totals[section_index(section)]),
    {
        self.records_count_in(section) > 0
    }

    /// Returns the number of records left to read; zero once the reader is done.
    pub fn records_count(&self) -> (r: usize)
        requires
            tracker_consistent(self@.tracker),
        ensures
            r == (if self@.done {
                0
            } else {
                left_from(self@.tracker, 0)
            }),
    {
        if !self.done {
            self.section_tracker.records_left()
        } else {
            0
        }
    }

    /// Returns the number of records left to read in `section`; zero once the reader is done.
    pub fn records_count_in(&self, section: RecordsSection) -> (r: usize)
        requires
            tracker_consistent(self@.tracker),
        ensures
            r == (if self@.done {
                0
            } else {
                self@.tracker.totals[section_index(section)] - self@.tracker.reads[section_index(
                    section,
                )]
            }),
    {
        if !self.done {
            self.section_tracker.records_left_in(section)
        } else {
            0
        }
    }

    /// Reads the marker of the next record: its owner name is skipped.
    ///
    /// # Errors
    ///
    /// [`Error::ReaderDone`] when the reader is done or no record is left; the errors of
    /// reading the record. Any of them makes the reader done.
    pub fn record_marker(&mut self) -> (r: Result<RecordMarker>)
        ensures
            old(self)@.done ==> r == Err::<RecordMarker, Error>(Error::ReaderDone) && final(self)@ == old(self)@,
            !old(self)@.done ==> match marker_read(old(self)@) {
                (Ok(m), v) => r == Ok::<RecordMarker, Error>(m) && final(self)@ == v,
                (Err(e), v) => r == Err::<RecordMarker, Error>(e) && final(self)@ == (ReaderView {
                    done: true,
                    ..v
                }),
            },
    {
        if self.done {
            return Err(Error::ReaderDone);
        }
        let res = self.marker_impl();
        if res.is_err() {
            self.done = true;
        }
        res
    }

    fn marker_impl(&mut self) -> (r: Result<RecordMarker>)
        ensures
            (r, final(self)@) == marker_read(old(self)@),
            r matches Ok(m) ==> first_pending(old(self)@.tracker, 0) == Some(
                section_index(m.section),
            ),
    {
        let pos = self.cursor.pos();
        let section = match self.calc_section() {
            Ok(s) => s,
            Err(e) => return Err(e),
        };
        match self.cursor.skip_domain_name() {
            Ok(_) => {},
            Err(e) => return Err(e),
        }
        self.raw_marker_impl(pos, section)
    }

    fn raw_marker_impl(&mut self, pos: usize, section: RecordsSection) -> (r: Result<RecordMarker>)
        ensures
            (r, final(self)@.cursor) == raw_marker_read(old(self)@.cursor, pos, section),
            final(self)@.tracker == old(self)@.tracker,
            final(self)@.done == old(self)@.done,
    {
        let offset = RecordOffset { offset: pos, type_offset: self.cursor.pos() };
        let rtype = match self.cursor.u16_be() {
            Ok(v) => TypeValue::from(v),
            Err(e) => return Err(e),
        };
        let rclass = match self.cursor.u16_be() {
            Ok(v) => ClassValue::from(v),
            Err(e) => return Err(e),
        };
        let ttl = match self.cursor.u32_be() {
            Ok(v) => v,
            Err(e) => return Err(e),
        };
        let rdlen = match self.cursor.u16_be() {
            Ok(v) => v,
            Err(e) => return Err(e),
        };
        Ok(RecordMarker { offset, rtype, rclass, ttl, rdlen, section })
    }

    fn calc_section(&mut self) -> (r: Result<RecordsSection>)
        ensures
            ({
                let (s, t) = next_section_spec(old(self)@.tracker, old(self)@.cursor.pos as u16);
                &&& final(self)@ == ReaderView { tracker: t, ..old(self)@ }
                &&& match s {
                    Some(x) => r == Ok::<RecordsSection, Error>(x),
                    None => r == Err::<RecordsSection, Error>(Error::ReaderDone),
                }
            }),
            r matches Ok(x) ==> first_pending(old(self)@.tracker, 0) == Some(section_index(x)),
    {
        let pos = self.cursor.pos();
        match self.section_tracker.next_section(pos) {
            Some(s) => {
                proof {
                    lemma_first_pending_some(old(self)@.tracker, 0);
                }
                Ok(s)
            },
            None => Err(Error::ReaderDone),
        }
    }

    /// Reads the header of the next record, leaving its owner name in the message.
    ///
    /// The errors are those of [`MessageReader::record_marker`].
    pub fn record_header_ref(&mut self) -> (r: Result<RecordHeaderRef<'a>>)
        ensures
            r matches Ok(h) ==> first_pending(old(self)@.tracker, 0) == Some(
                section_index(h.marker.section),
            ),
            old(self)@.done ==> r == Err::<RecordHeaderRef<'a>, Error>(Error::ReaderDone) && final(self)@ == old(self)@,
            !old(self)@.done ==> match marker_read(old(self)@) {
                (Ok(m), v) => (r matches Ok(h) && h.marker == m && h.name_ref@ == old(self)@.cursor) && final(self)@ == v,
                (Err(e), v) => r matches Err(e2) && e2 == e && final(self)@ == (ReaderView {
                    done: true,
                    ..v
                }),
            },
    {
        if self.done {
            return Err(Error::ReaderDone);
        }
        let name_ref = NameRef::new(self.cursor);
        let res = self.marker_impl();
        match res {
            Ok(marker) => Ok(RecordHeaderRef { name_ref, marker }),
            Err(e) => {
                self.done = true;
                Err(e)
            },
        }
    }

    /// Reads the header of the next record, its owner name read into a domain name.
    ///
    /// The errors are those of [`MessageReader::record_marker`].
    pub fn record_header<N: DName>(&mut self) -> (r: Result<RecordHeader<N>>)
        ensures
            old(self)@.done ==> r == Err::<RecordHeader<N>, Error>(Error::ReaderDone) && final(self)@ == old(self)@,
            !old(self)@.done ==> match header_read(old(self)@) {
                (Ok((t, m)), v) => (r matches Ok(h) && h.marker == m && h.name.dname_bytes() == t)
                    && final(self)@ == v,
                (Err(e), v) => r matches Err(e2) && e2 == e && final(self)@ == (ReaderView {
                    done: true,
                    ..v
                }),
            },
    {
        if self.done {
            return Err(Error::ReaderDone);
        }
        let ghost v0 = self@;
        let pos = self.cursor.pos();
        let section = match self.calc_section() {
            Ok(s) => s,
            Err(e) => {
                self.done = true;
                return Err(e);
            },
        };
        let name: N = match read_domain_name(&mut self.cursor) {
            Ok(n) => n,
            Err(e) => {
                self.done = true;
                return Err(e);
            },
        };
        match self.raw_marker_impl(pos, section) {
            Ok(marker) => Ok(RecordHeader { name, marker }),
            Err(e) => {
                self.done = true;
                Err(e)
            },
        }
    }

    /// Skips the data of the record of `marker`; the record then counts as read.
    ///
    /// # Errors
    ///
    /// [`Error::ReaderDone`] when the reader is done; [`Error::EndOfBuffer`] when the data does
    /// not fit, which makes the reader done.
    pub fn skip_record_data(&mut self, marker: &RecordMarker) -> (r: Result<()>)
        requires
            old(self)@.tracker.reads[section_index(marker.section)] < u16::MAX,
        ensures
            old(self)@.done ==> r == Err::<(), Error>(Error::ReaderDone) && final(self)@ == old(self)@,
            !old(self)@.done ==> (r, final(self)@) == data_skip(old(self)@, *marker),
    {
        if self.done {
            return Err(Error::ReaderDone);
        }
        self.skip_record_data_impl(marker)
    }

    fn skip_record_data_impl(&mut self, marker: &RecordMarker) -> (r: Result<()>)
        requires
            old(self)@.tracker.reads[section_index(marker.section)] < u16::MAX,
        ensures
            (r, final(self)@) == data_skip(old(self)@, *marker),
    {
        let res = self.cursor.skip(marker.rdlen as usize);
        match res {
            Ok(_) => {
                self.section_tracker.section_read(marker.section, self.cursor.pos());
            },
            Err(_) => {
                self.done = true;
            },
        }
        res
    }

    /// Returns the data of the record of `marker`, as bytes; the record then counts as read.
    ///
    /// # Errors
    ///
    /// [`Error::ReaderDone`] when the reader is done; [`Error::EndOfBuffer`] when the data does
    /// not fit, which makes the reader done.
    pub fn record_data_bytes(&mut self, marker: &RecordMarker) -> (r: Result<&'a [u8]>)
        requires
            old(self)@.tracker.reads[section_index(marker.section)] < u16::MAX,
        ensures
            old(self)@.done ==> r == Err::<&'a [u8], Error>(Error::ReaderDone) && final(self)@
                == old(self)@,
            !old(self)@.done ==> match slice_read(old(self)@.cursor, marker.rdlen as int) {
                (Ok(b), c) => r matches Ok(s) && s@ == b && final(self)@.cursor == c
                    && data_after(old(self)@, *marker, true, final(self)@),
                (Err(e), c) => r == Err::<&'a [u8], Error>(e) && final(self)@.cursor == c
                    && data_after(old(self)@, *marker, false, final(self)@),
            },
    {
        if self.done {
            return Err(Error::ReaderDone);
        }
        let res = self.cursor.slice(marker.rdlen as usize);
        match res {
            Ok(_) => {
                self.section_tracker.section_read(marker.section, self.cursor.pos());
            },
            Err(_) => {
                self.done = true;
            },
        }
        res
    }

    /// Reads the data of the record of `marker`; the record then counts as read.
    ///
    /// # Errors
    ///
    /// [`Error::ReaderDone`] when the reader is done; the errors of reading the data, which
    /// make the reader done.
    pub fn record_data<D: RData>(&mut self, marker: &RecordMarker) -> (r: Result<D>)
        requires
            old(self)@.tracker.reads[section_index(marker.section)] < u16::MAX,
        ensures
            old(self)@.done ==> r == Err::<D, Error>(Error::ReaderDone) && final(self)@ == old(self)@,
            !old(self)@.done ==> D::read_outcome(
                old(self)@.cursor,
                marker.rdlen as int,
                r,
                final(self)@.cursor,
            ) && data_after(old(self)@, *marker, r is Ok, final(self)@),
    {
        if self.done {
            return Err(Error::ReaderDone);
        }
        let res = D::from_cursor(&mut self.cursor, marker.rdlen as usize);
        match res {
            Ok(_) => {
                self.section_tracker.section_read(marker.section, self.cursor.pos());
            },
            Err(_) => {
                self.done = true;
            },
        }
        res
    }

    /// Reads the `OPT` pseudo-record of `marker`: its data is skipped and its fields are taken
    /// from the marker's class and time to live; the record then counts as read.
    ///
    /// # Errors
    ///
    /// [`Error::ReaderDone`] when the reader is done; [`Error::EndOfBuffer`] when the data does
    /// not fit, which makes the reader done.
    pub fn opt_record(&mut self, marker: &RecordMarker) -> (r: Result<Opt>)
        requires
            old(self)@.tracker.reads[section_index(marker.section)] < u16::MAX,
        ensures
            old(self)@.done ==> r == Err::<Opt, Error>(Error::ReaderDone) && final(self)@ == old(self)@,
            !old(self)@.done ==> match skip_read(old(self)@.cursor, marker.rdlen as int) {
                (Ok(_), c) => r matches Ok(o) && o@ == opt_of(marker.rclass@, marker.ttl)
                    && final(self)@.cursor == c && data_after(old(self)@, *marker, true, final(self)@),
                (Err(e), c) => r == Err::<Opt, Error>(e) && final(self)@.cursor == c && data_after(
                    old(self)@,
                    *marker,
                    false,
                    final(self)@,
                ),
            },
    {
        if self.done {
            return Err(Error::ReaderDone);
        }
        let res = match self.cursor.skip(marker.rdlen as usize) {
            Ok(_) => Ok(Opt::from_msg(marker.rclass.value(), marker.ttl)),
            Err(e) => Err(e),
        };
        match res {
            Ok(_) => {
                self.section_tracker.section_read(marker.section, self.cursor.pos());
            },
            Err(_) => {
                self.done = true;
            },
        }
        res
    }

    /// Returns the data of the record of `marker` as bytes, leaving the reader as it is.
    ///
    /// # Errors
    ///
    /// [`Error::EndOfBuffer`] when the data does not fit.
    pub fn record_data_bytes_at(&self, marker: &RecordMarker) -> (r: Result<&'a [u8]>)
        requires
            marker.offset.type_offset + TYPE_TO_RDATA_OFFSET <= usize::MAX,
        ensures
            match slice_read(
                self@.cursor.at(marker.offset.type_offset + TYPE_TO_RDATA_OFFSET),
                marker.rdlen as int,
            ) {
                (Ok(b), _c) => r matches Ok(s) && s@ == b,
                (Err(e), _c) => r == Err::<&'a [u8], Error>(e),
            },
    {
        let mut cursor = self.cursor.clone_with_pos(marker.rdata_pos());
        cursor.slice(marker.rdlen as usize)
    }

    /// Reads the data of the record of `marker`, leaving the reader as it is.
    ///
    /// The errors are those of reading the data.
    pub fn record_data_at<D: RData>(&self, marker: &RecordMarker) -> (r: Result<D>)
        requires
            marker.offset.type_offset + TYPE_TO_RDATA_OFFSET <= usize::MAX,
        ensures
            exists|c2: CursorView|
                #[trigger] D::read_outcome(
                    self@.cursor.at(marker.offset.type_offset + TYPE_TO_RDATA_OFFSET),
                    marker.rdlen as int,
                    r,
                    c2,
                ),
    {
        let mut cursor = self.cursor.clone_with_pos(marker.rdata_pos());
        let ghost c0 = cursor@;
        let r = D::from_cursor(&mut cursor, marker.rdlen as usize);
        assert(D::read_outcome(
            self@.cursor.at(marker.offset.type_offset + TYPE_TO_RDATA_OFFSET),
            marker.rdlen as int,
            r,
            cursor@,
        ));
        r
    }

    /// Returns a reference to the domain name that starts the data of the record of `marker`.
    pub fn name_ref_at(&self, marker: &RecordMarker) -> (n: NameRef<'a>)
        requires
            marker.offset.type_offset + TYPE_TO_RDATA_OFFSET <= usize::MAX,
        ensures
            n@ == self@.cursor.at(marker.offset.type_offset + TYPE_TO_RDATA_OFFSET),
    {
        NameRef::new(self.cursor.clone_with_pos(marker.rdata_pos()))
    }
}

} // verus!
