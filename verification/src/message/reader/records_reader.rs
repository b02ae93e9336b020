//! A reader of the records of a message, whose header and questions are known.

use vstd::prelude::*;

use crate::bytes::{slice_read, Cursor, CursorView};
use crate::errors::{Error, Result};
use crate::message::header::Header;
use crate::message::reader::message_reader::{data_after, data_skip, header_read, marker_read, MessageReader, ReaderView};
use crate::message::reader::name_ref::NameRef;
use crate::message::reader::record_marker::{RecordHeader, RecordHeaderRef, RecordMarker, TYPE_TO_RDATA_OFFSET};
use crate::message::reader::section_tracker::{left_from, tracker_consistent, SectionTracker, TrackerView};
use crate::message::records_section::{section_index, RecordsSection};
use crate::names::dname::DName;
use crate::records::data::RData;

verus! {

/// The header with the counts of the sections other than `section` set to zero.
pub open spec fn header_for_section(h: Header, section: RecordsSection) -> Header {
    match section {
        RecordsSection::Answer => Header { ns_count: 0, ar_count: 0, ..h },
        RecordsSection::Authority => Header { an_count: 0, ar_count: 0, ..h },
        RecordsSection::Additional => Header { an_count: 0, ns_count: 0, ..h },
    }
}

/// A reader of the records of a message whose header and questions are known, record by
/// record.
///
/// An error makes the reader done: later reads fail with [`Error::ReaderDone`].
pub struct RecordsReader<'a> {
    inner: MessageReader<'a>,
}

impl<'a> View for RecordsReader<'a> {
    type V = ReaderView;

    closed spec fn view(&self) -> ReaderView {
        self.inner@
    }
}

impl<'a> RecordsReader<'a> {
    /// Creates a reader of the records that follow the cursor, with the counts of `header`.
    pub(crate) fn new(cursor: Cursor<'a>, header: &Header) -> (r: RecordsReader<'a>)
        ensures
            r@ == (ReaderView {
                cursor: cursor@,
                tracker: TrackerView {
                    qd_total: header.qd_count,
                    qd_read: 0,
                    totals: seq![header.an_count, header.ns_count, header.ar_count],
                    reads: seq![0u16, 0u16, 0u16],
                    offsets: seq![0u16, 0u16, 0u16],
                },
                done: false,
            }),
    {
        RecordsReader { inner: MessageReader::from_parts(cursor, SectionTracker::new(header)) }
    }

    /// Creates a reader of the records of `section` only, which start at the cursor.
    pub(crate) fn with_section(cursor: Cursor<'a>, header: &Header, section: RecordsSection) -> (r: RecordsReader<'a>)
        ensures
            r@ == (ReaderView {
                cursor: cursor@,
                tracker: TrackerView {
                    qd_total: header.qd_count,
                    qd_read: 0,
                    totals: seq![
                        header_for_section(*header, section).an_count,
                        header_for_section(*header, section).ns_count,
                        header_for_section(*header, section).ar_count,
                    ],
                    reads: seq![0u16, 0u16, 0u16],
                    offsets: seq![0u16, 0u16, 0u16],
                },
                done: false,
            }),
    {
        let mut h = *header;
        match section {
            RecordsSection::Answer => {
                h.ns_count = 0;
                h.ar_count = 0;
            },
            RecordsSection::Authority => {
                h.an_count = 0;
                h.ar_count = 0;
            },
            RecordsSection::Additional => {
                h.an_count = 0;
                h.ns_count = 0;
            },
        }
        RecordsReader::new(cursor, &h)
    }

    /// Checks if records are left to read.
    pub fn has_records(&self) -> (r: bool)
        requires
            tracker_consistent(self@.tracker),
        ensures
            r == (!self@.done && left_from(self@.tracker, 0) > 0),
    {
        self.inner.has_records()
    }

    /// Returns the number of records left to read; zero once the reader is done.
    pub fn count(&self) -> (r: usize)
        requires
            tracker_consistent(self@.tracker),
        ensures
            r == (if self@.done {
                0
            } else {
                left_from(self@.tracker, 0)
            }),
    {
        self.inner.records_count()
    }

    /// Reads the marker of the next record: its owner name is skipped.
    ///
    /// The errors are those of [`MessageReader::record_marker`].
    pub fn marker(&mut self) -> (r: Result<RecordMarker>)
        ensures
            old(self)@.done ==> r == Err::<RecordMarker, Error>(Error::ReaderDone) && final(self)@ == old(self)@,
            !old(self)@.done ==> match marker_read(old(self)@) {
                (Ok(m), v) => r == Ok::<RecordMarker, Error>(m) && final(self)@ == v,
                (Err(e), v) => r == Err::<RecordMarker, Error>(e) && final(self)@ == (ReaderView {
                    done: true,
                    ..v
                }),
            },
    {
        self.inner.record_marker()
    }

    /// Reads the header of the next record, leaving its owner name in the message.
    ///
    /// The errors are those of [`MessageReader::record_marker`].
    pub fn header_ref(&mut self) -> (r: Result<RecordHeaderRef<'a>>)
        ensures
            old(self)@.done ==> r == Err::<RecordHeaderRef<'a>, Error>(Error::ReaderDone) && final(self)@ == old(self)@,
            !old(self)@.done ==> match marker_read(old(self)@) {
                (Ok(m), v) => (r matches Ok(h) && h.marker == m && h.name_ref@ == old(self)@.cursor)
                    && final(self)@ == v,
                (Err(e), v) => r matches Err(e2) && e2 == e && final(self)@ == (ReaderView {
                    done: true,
                    ..v
                }),
            },
    {
        self.inner.record_header_ref()
    }

    /// Reads the header of the next record, its owner name read into a domain name.
    ///
    /// The errors are those of [`MessageReader::record_marker`].
    pub fn header<N: DName>(&mut self) -> (r: Result<RecordHeader<N>>)
        ensures
            old(self)@.done ==> r == Err::<RecordHeader<N>, Error>(Error::ReaderDone) && final(self)@ == old(self)@,
            !old(self)@.done ==> match header_read(old(self)@) {
                (Ok((t, m)), v) => (r matches Ok(h) && h.marker == m && h.name.dname_bytes() == t)
                    && final(self)@ == v,
                (Err(e), v) => r matches Err(e2) && e2 == e && final(self)@ == (ReaderView {
                    done: true,
                    ..v
                }),
            },
    {
        self.inner.record_header()
    }

    /// Skips the data of the record of `marker`; the record then counts as read.
    ///
    /// The errors are those of [`MessageReader::skip_record_data`].
    pub fn skip_data(&mut self, marker: &RecordMarker) -> (r: Result<()>)
        requires
            old(self)@.tracker.reads[section_index(marker.section)] < u16::MAX,
        ensures
            old(self)@.done ==> r == Err::<(), Error>(Error::ReaderDone) && final(self)@ == old(self)@,
            !old(self)@.done ==> (r, final(self)@) == data_skip(old(self)@, *marker),
    {
        self.inner.skip_record_data(marker)
    }

    /// Returns the data of the record of `marker`, as bytes; the record then counts as read.
    ///
    /// The errors are those of [`MessageReader::record_data_bytes`].
    pub fn data_bytes(&mut self, marker: &RecordMarker) -> (r: Result<&'a [u8]>)
        requires
            old(self)@.tracker.reads[section_index(marker.section)] < u16::MAX,
        ensures
            old(self)@.done ==> r == Err::<&'a [u8], Error>(Error::ReaderDone) && final(self)@
                == old(self)@,
            !old(self)@.done ==> match slice_read(old(self)@.cursor, marker.rdlen as int) {
                (Ok(b), c) => r matches Ok(s) && s@ == b && final(self)@.cursor == c
                    && data_after(old(self)@, *marker, true, final(self)@),
                (Err(e), c) => r == Err::<&'a [u8], Error>(e) && final(self)@.cursor == c
                    && data_after(old(self)@, *marker, false, final(self)@),
            },
    {
        self.inner.record_data_bytes(marker)
    }

    /// Reads the data of the record of `marker`; the record then counts as read.
    ///
    /// The errors are those of [`MessageReader::record_data`].
    pub fn data<D: RData>(&mut self, marker: &RecordMarker) -> (r: Result<D>)
        requires
            old(self)@.tracker.reads[section_index(marker.section)] < u16::MAX,
        ensures
            old(self)@.done ==> r == Err::<D, Error>(Error::ReaderDone) && final(self)@ == old(self)@,
            !old(self)@.done ==> D::read_outcome(
                old(self)@.cursor,
                marker.rdlen as int,
                r,
                final(self)@.cursor,
            ) && data_after(old(self)@, *marker, r is Ok, final(self)@),
    {
        self.inner.record_data(marker)
    }

    /// Returns the data of the record of `marker` as bytes, leaving the reader as it is.
    pub fn data_bytes_at(&self, marker: &RecordMarker) -> (r: Result<&'a [u8]>)
        requires
            marker.offset.type_offset + TYPE_TO_RDATA_OFFSET <= usize::MAX,
        ensures
            match slice_read(
                self@.cursor.at(marker.offset.type_offset + TYPE_TO_RDATA_OFFSET),
                marker.rdlen as int,
            ) {
                (Ok(b), _c) => r matches Ok(s) && s@ == b,
                (Err(e), _c) => r == Err::<&'a [u8], Error>(e),
            },
    {
        self.inner.record_data_bytes_at(marker)
    }

    /// Reads the data of the record of `marker`, leaving the reader as it is.
    pub fn data_at<D: RData>(&self, marker: &RecordMarker) -> (r: Result<D>)
        requires
            marker.offset.type_offset + TYPE_TO_RDATA_OFFSET <= usize::MAX,
        ensures
            exists|c2: CursorView|
                #[trigger] D::read_outcome(
                    self@.cursor.at(marker.offset.type_offset + TYPE_TO_RDATA_OFFSET),
                    marker.rdlen as int,
                    r,
                    c2,
                ),
    {
        let r = self.inner.record_data_at(marker);
        proof {
            let p = marker.offset.type_offset + TYPE_TO_RDATA_OFFSET;
            let c2 = choose|c2: CursorView|
                #[trigger] D::read_outcome(self.inner@.cursor.at(p), marker.rdlen as int, r, c2);
            assert(D::read_outcome(self@.cursor.at(p), marker.rdlen as int, r, c2));
        }
        r
    }

    /// Returns a reference to the domain name that starts the data of the record of `marker`.
    pub fn name_ref_at(&self, marker: &RecordMarker) -> (n: NameRef<'a>)
        requires
            marker.offset.type_offset + TYPE_TO_RDATA_OFFSET <= usize::MAX,
        ensures
            n@ == self@.cursor.at(marker.offset.type_offset + TYPE_TO_RDATA_OFFSET),
    {
        self.inner.name_ref_at(marker)
    }
}

} // verus!
