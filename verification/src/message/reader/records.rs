//! An iterator over the records of a message, read into resource records.

use vstd::prelude::*;

use crate::bytes::{skip_read, u16_read, u32_read, Cursor, CursorView};
use crate::errors::{Error, Result};
use crate::message::header::Header;
use crate::message::reader::labels::{read_name_spec, skip_name_spec};
use crate::message::reader::message_reader::{lemma_left_through_bounds, lemma_left_through_same, lemma_left_through_step, left_through};
use crate::message::reader::section_tracker::{lemma_first_pending_same, lemma_first_pending_some, next_section_spec, tracker_consistent, tracker_section_read, SectionTracker, TrackerView};
use crate::message::records_section::RecordsSection;
use crate::names::inline_name::InlineName;
use crate::records::class::{class_defined, Class};
use crate::records::data::RecordData;
use crate::records::record::{handled_type, rdata_outcome, read_record_data, ResourceRecord};
use crate::records::rtype::{rtype_defined, Type};

verus! {

/// Where a scan for the next record of a supported class and type ends.
pub enum ScanEnd {
    /// No record is left.
    Done,
    /// A read failed.
    Failed(Error),
    /// A record of a defined class and type: its section, the position of its owner name, its
    /// type, class, time to live and data length; the cursor stands at its data.
    Found(RecordsSection, usize, u16, u16, u32, u16),
}

/// Reading the fixed fields of a record at the cursor: type, class, time to live and data
/// length.
pub open spec fn fixed_fields_read(c: CursorView) -> (Result<(u16, u16, u32, u16)>, CursorView) {
    match u16_read(c) {
        (Err(e), c1) => (Err(e), c1),
        (Ok(t), c1) => match u16_read(c1) {
            (Err(e), c2) => (Err(e), c2),
            (Ok(k), c2) => match u32_read(c2) {
                (Err(e), c3) => (Err(e), c3),
                (Ok(ttl), c3) => match u16_read(c3) {
                    (Err(e), c4) => (Err(e), c4),
                    (Ok(rdlen), c4) => (Ok((t, k, ttl, rdlen)), c4),
                },
            },
        },
    }
}

/// Scanning for the next record of a defined class and type from the cursor `c` and tracker
/// `t`, skipping the others; `n` records are left.
pub open spec fn records_scan(c: CursorView, t: TrackerView, n: nat) -> (
    ScanEnd,
    CursorView,
    TrackerView,
)
    decreases n,
{
    let pos = c.pos;
    match next_section_spec(t, pos as u16) {
        (None, t1) => (ScanEnd::Done, c, t1),
        (Some(s), t1) => match skip_name_spec(c) {
            Err(e) => (ScanEnd::Failed(e), c, t1),
            Ok(p) => match fixed_fields_read(c.at(p)) {
                (Err(e), c2) => (ScanEnd::Failed(e), c2, t1),
                (Ok((ty, cl, ttl, rdlen)), c2) => if !class_defined(cl) || !rtype_defined(ty) {
                    match skip_read(c2, rdlen as int) {
                        (Err(e), c3) => (ScanEnd::Failed(e), c3, t1),
                        (Ok(_), c3) => if n == 0 {
                            (ScanEnd::Done, c3, t1)
                        } else {
                            records_scan(c3, tracker_section_read(t1, s, c3.pos), (n - 1) as nat)
                        },
                    }
                } else {
                    (ScanEnd::Found(s, pos, ty, cl, ttl, rdlen), c2, t1)
                },
            },
        },
    }
}

/// Reading a found record of a defined class and type, whose data the cursor `c1` stands at,
/// gives `r` and leaves the cursor at `c2` and the tracker at `t2`.
pub open spec fn found_outcome(
    s: RecordsSection,
    npos: usize,
    ty: u16,
    cl: u16,
    ttl: u32,
    rdlen: u16,
    c1: CursorView,
    t1: TrackerView,
    r: Result<Option<(RecordsSection, ResourceRecord)>>,
    c2: CursorView,
    t2: TrackerView,
) -> bool {
    if !handled_type(ty) {
        r == Err::<Option<(RecordsSection, ResourceRecord)>, Error>(
            Error::UnexpectedType(Type::spec_from_value(ty)),
        ) && c2 == c1 && t2 == t1
    } else {
        match read_name_spec(c1.at(npos as int)) {
            Err(e) => r == Err::<Option<(RecordsSection, ResourceRecord)>, Error>(e) && c2 == c1 && t2
                == t1,
            Ok((name, _p)) => exists|d: Result<RecordData>|
                #[trigger] rdata_outcome(ty, c1, rdlen as int, d, c2) && match d {
                    Err(e) => r == Err::<Option<(RecordsSection, ResourceRecord)>, Error>(e) && t2
                        == t1,
                    Ok(rd) => (r matches Ok(Some((s2, rec))) && s2 == s && rec.name@ == name
                        && rec.rclass@ == cl && rec.rtype@ == ty && rec.ttl == ttl && rec.rdata
                        == rd) && t2 == tracker_section_read(t1, s, c2.pos),
                },
        }
    }
}

/// Reading the next record from the cursor `c` and tracker `t` gives `r` and leaves the cursor
/// at `c2` and the tracker at `t2`: records of undefined classes or types are skipped; a record
/// of a defined type whose data has no supported type is an error; the others are read.
pub open spec fn records_read_outcome(
    c: CursorView,
    t: TrackerView,
    r: Result<Option<(RecordsSection, ResourceRecord)>>,
    c2: CursorView,
    t2: TrackerView,
) -> bool {
    match records_scan(c, t, left_through(t, 2) as nat) {
        (ScanEnd::Done, c1, t1) => r == Ok::<Option<(RecordsSection, ResourceRecord)>, Error>(None)
            && c2 == c1 && t2 == t1,
        (ScanEnd::Failed(e), c1, t1) => r == Err::<Option<(RecordsSection, ResourceRecord)>, Error>(e)
            && c2 == c1 && t2 == t1,
        (ScanEnd::Found(s, npos, ty, cl, ttl, rdlen), c1, t1) => found_outcome(
            s,
            npos,
            ty,
            cl,
            ttl,
            rdlen,
            c1,
            t1,
            r,
            c2,
            t2,
        ),
    }
}

/// The abstract state of [`Records`].
pub struct RecordsView {
    /// The cursor at the next record.
    pub cursor: CursorView,
    /// What was read of each section.
    pub tracker: TrackerView,
    /// Whether a read failed.
    pub err: bool,
}

/// An iterator over the records of a message, read into resource records; it stops after the
/// first error.
pub struct Records<'a> {
    cursor: Cursor<'a>,
    section_tracker: SectionTracker,
    err: bool,
}

impl<'a> View for Records<'a> {
    type V = RecordsView;

    closed spec fn view(&self) -> RecordsView {
        RecordsView { cursor: self.cursor@, tracker: self.section_tracker@, err: self.err }
    }
}

impl<'a> Records<'a> {
    /// Creates an iterator over the records that follow the cursor, with the counts of
    /// `header`.
    pub(crate) fn new(cursor: Cursor<'a>, header: &Header) -> (r: Records<'a>)
        ensures
            r@ == (RecordsView {
                cursor: cursor@,
                tracker: TrackerView {
                    qd_total: header.qd_count,
                    qd_read: 0,
                    totals: seq![header.an_count, header.ns_count, header.ar_count],
                    reads: seq![0u16, 0u16, 0u16],
                    offsets: seq![0u16, 0u16, 0u16],
                },
                err: false,
            }),
    {
        Records { cursor, section_tracker: SectionTracker::new(header), err: false }
    }

    /// Reads the next record; `None` once all were read or a read failed.
    pub fn next(&mut self) -> (r: Option<Result<(RecordsSection, ResourceRecord)>>)
        requires
            tracker_consistent(old(self)@.tracker),
        ensures
            old(self)@.err ==> r is None && final(self)@ == old(self)@,
            !old(self)@.err ==> match r {
                Some(Ok(x)) => records_read_outcome(
                    old(self)@.cursor,
                    old(self)@.tracker,
                    Ok(Some(x)),
                    final(self)@.cursor,
                    final(self)@.tracker,
                ) && !final(self)@.err,
                None => records_read_outcome(
                    old(self)@.cursor,
                    old(self)@.tracker,
                    Ok(None),
                    final(self)@.cursor,
                    final(self)@.tracker,
                ) && !final(self)@.err,
                Some(Err(e)) => records_read_outcome(
                    old(self)@.cursor,
                    old(self)@.tracker,
                    Err(e),
                    final(self)@.cursor,
                    final(self)@.tracker,
                ) && final(self)@.err,
            },
            tracker_consistent(final(self)@.tracker),
            r matches Some(Ok(_)) ==> left_through(final(self)@.tracker, 2) < left_through(
                old(self)@.tracker,
                2,
            ),
    {
        if self.err {
            return None;
        }
        let ghost c0 = self.cursor@;
        let ghost t0 = self.section_tracker@;
        let res = self.read_impl();
        assert(records_read_outcome(
            old(self)@.cursor,
            old(self)@.tracker,
            res,
            self@.cursor,
            self@.tracker,
        ));
        match res {
            Ok(Some(t)) => Some(Ok(t)),
            Ok(None) => None,
            Err(e) => {
                self.err = true;
                assert(records_read_outcome(
                    old(self)@.cursor,
                    old(self)@.tracker,
                    res,
                    self@.cursor,
                    self@.tracker,
                ));
                Some(Err(e))
            },
        }
    }

    fn read_impl(&mut self) -> (r: Result<Option<(RecordsSection, ResourceRecord)>>)
        requires
            tracker_consistent(old(self)@.tracker),
        ensures
            records_read_outcome(
                old(self)@.cursor,
                old(self)@.tracker,
                r,
                final(self)@.cursor,
                final(self)@.tracker,
            ),
            final(self)@.err == old(self)@.err,
            tracker_consistent(final(self)@.tracker),
            r matches Ok(Some(_)) ==> left_through(final(self)@.tracker, 2) < left_through(
                old(self)@.tracker,
                2,
            ),
    {
        let ghost c0 = self.cursor@;
        let ghost t0 = self.section_tracker@;
        proof {
            lemma_left_through_bounds(t0, 2);
        }
        loop
            invariant
                c0 == old(self)@.cursor,
                t0 == old(self)@.tracker,
                self.err == old(self)@.err,
                tracker_consistent(self.section_tracker@),
                left_through(self.section_tracker@, 2) >= 0,
                left_through(self.section_tracker@, 2) <= left_through(t0, 2),
                records_scan(c0, t0, left_through(t0, 2) as nat) == records_scan(
                    self.cursor@,
                    self.section_tracker@,
                    left_through(self.section_tracker@, 2) as nat,
                ),
            decreases left_through(self.section_tracker@, 2),
        {
            let ghost t1 = self.section_tracker@;
            let ghost cstart = self.cursor@;
            let pos = self.cursor.pos();
            let section = match self.section_tracker.next_section(pos) {
                Some(s) => s,
                None => return Ok(None),
            };
            let ghost tm = self.section_tracker@;
            proof {
                self.section_tracker.lemma_wf();
                lemma_first_pending_some(t1, 0);
                lemma_first_pending_same(tm, t1, 0);
                lemma_left_through_same(tm, t1, 2);
                lemma_left_through_step(tm, 2, section, 0);
            }
            let domain_name_pos = self.cursor.pos();
            match self.cursor.skip_domain_name() {
                Ok(_) => {},
                Err(e) => return Err(e),
            }
            let tv = match self.cursor.u16_be() {
                Ok(v) => v,
                Err(e) => return Err(e),
            };
            let cv = match self.cursor.u16_be() {
                Ok(v) => v,
                Err(e) => return Err(e),
            };
            let rtype = Type::from(tv);
            let rclass = Class::from(cv);
            let ttl = match self.cursor.u32_be() {
                Ok(v) => v,
                Err(e) => return Err(e),
            };
            let rdlen = match self.cursor.u16_be() {
                Ok(v) => v,
                Err(e) => return Err(e),
            };
            proof {
                Type::lemma_from_value(tv);
                Class::lemma_from_value(cv);
            }
            if !rclass.is_defined() || !rtype.is_defined() {
                match self.cursor.skip(rdlen as usize) {
                    Ok(_) => {},
                    Err(e) => return Err(e),
                }
                self.section_tracker.section_read(section, self.cursor.pos());
                proof {
                    self.section_tracker.lemma_wf();
                    lemma_left_through_step(tm, 2, section, self.cursor@.pos);
                }
            } else {
                let ty = rtype.value();
                if !(ty == Type::A || ty == Type::NS || ty == Type::MD || ty == Type::MF || ty
                    == Type::CNAME || ty == Type::SOA || ty == Type::MB || ty == Type::MG || ty
                    == Type::MR || ty == Type::NULL || ty == Type::WKS || ty == Type::PTR || ty
                    == Type::HINFO || ty == Type::MINFO || ty == Type::MX || ty == Type::TXT || ty
                    == Type::AAAA) {
                    return Err(Error::UnexpectedType(rtype));
                }
                let mut name_cursor = self.cursor.clone_with_pos(domain_name_pos);
                let name = match InlineName::from_cursor(&mut name_cursor) {
                    Ok(n) => n,
                    Err(e) => return Err(e),
                };
                let ghost cd = self.cursor@;
                let rdata = read_record_data(&mut self.cursor, ty, rdlen as usize);
                let ghost d = rdata;
                let rdata = match rdata {
                    Ok(d) => d,
                    Err(e) => {
                        proof {
                            let n = left_through(t1, 2) as nat;
                            assert(records_scan(cstart, t1, n) == records_scan(
                                c0,
                                t0,
                                left_through(t0, 2) as nat,
                            ));
                            assert(records_scan(c0, t0, left_through(t0, 2) as nat) == (
                                ScanEnd::Found(section, domain_name_pos, ty, cv, ttl, rdlen),
                                cd,
                                tm,
                            ));
                            assert(rdata_outcome(ty, cd, rdlen as int, d, self.cursor@));
                            assert(found_outcome(
                                section,
                                domain_name_pos,
                                ty,
                                cv,
                                ttl,
                                rdlen,
                                cd,
                                tm,
                                Err(e),
                                self.cursor@,
                                self.section_tracker@,
                            ));
                        }
                        return Err(e);
                    },
                };
                self.section_tracker.section_read(section, self.cursor.pos());
                proof {
                    self.section_tracker.lemma_wf();
                    lemma_left_through_step(tm, 2, section, self.cursor@.pos);
                    assert(rdata_outcome(ty, cd, rdlen as int, d, self.cursor@));
                }
                let rec = ResourceRecord { name, rclass, rtype, ttl, rdata };
                proof {
                    let n = left_through(t1, 2) as nat;
                    assert(records_scan(cstart, t1, n) == records_scan(c0, t0, left_through(t0, 2) as nat));
                    assert(records_scan(c0, t0, left_through(t0, 2) as nat) == (
                        ScanEnd::Found(section, domain_name_pos, ty, cv, ttl, rdlen),
                        cd,
                        tm,
                    ));
                    assert(rdata_outcome(ty, cd, rdlen as int, d, self.cursor@));
                    assert(d == Ok::<RecordData, Error>(rec.rdata));
                    assert(read_name_spec(cd.at(domain_name_pos as int)) matches Ok((nm, _p)) && nm
                        == rec.name@);
                    assert(handled_type(ty));
                    let rr = Ok::<Option<(RecordsSection, ResourceRecord)>, Error>(Some((section, rec)));
                    assert(match d {
                        Err(e) => rr == Err::<Option<(RecordsSection, ResourceRecord)>, Error>(e)
                            && self.section_tracker@ == tm,
                        Ok(rd) => (rr matches Ok(Some((s2, rec2))) && s2 == section && rec2.name@ == rec.name@
                            && rec2.rclass@ == cv && rec2.rtype@ == ty && rec2.ttl == ttl && rec2.rdata
                            == rd) && self.section_tracker@ == tracker_section_read(tm, section, self.cursor@.pos),
                    });
                    assert(found_outcome(
                        section,
                        domain_name_pos,
                        ty,
                        cv,
                        ttl,
                        rdlen,
                        cd,
                        tm,
                        rr,
                        self.cursor@,
                        self.section_tracker@,
                    ));
                }
                return Ok(Some((section, rec)));
            }
        }
    }
}

/// Once no record is left to read in any section, reading the next record gives `None` and
/// leaves the cursor and the tracker as they are.
pub proof fn lemma_read_none_when_nothing_left(
    c: CursorView,
    t: TrackerView,
    r: Result<Option<(RecordsSection, ResourceRecord)>>,
    c2: CursorView,
    t2: TrackerView,
)
    requires
        tracker_consistent(t),
        left_through(t, 2) == 0,
        records_read_outcome(c, t, r, c2, t2),
    ensures
        r == Ok::<Option<(RecordsSection, ResourceRecord)>, Error>(None),
        c2 == c,
        t2 == t,
{
    lemma_left_through_bounds(t, 0);
    lemma_left_through_bounds(t, 1);
    lemma_left_through_bounds(t, 2);
    lemma_first_pending_some(t, 0);
    assert(left_through(t, 2) == (t.totals[2] - t.reads[2]) + left_through(t, 1));
    assert(left_through(t, 1) == (t.totals[1] - t.reads[1]) + left_through(t, 0));
    assert(left_through(t, 0) == (t.totals[0] - t.reads[0]) + left_through(t, -1));
    assert(next_section_spec(t, c.pos as u16).0 is None);
}

} // verus!
