//! The answer to a query: the record set asked for, with the chain of aliases that led to it.

use vstd::prelude::*;

use crate::bytes::CursorView;
use crate::errors::{AnswerError, Error, Result};
use crate::message::header::{read_header_spec, Header};
use crate::message::message_type::MessageType;
use crate::message::question::question_read;
use crate::message::rcode::RCode;
use crate::message::reader::message_iterator::{additional_offset, answer_offset, msg_cursor, MessageIterator};
use crate::message::reader::message_reader::{left_through, lemma_left_through_bounds};
use crate::message::reader::label_ref::eq_ignore_case;
use crate::message::reader::records::records_read_outcome;
use crate::message::reader::section_tracker::{tracker_consistent, TrackerView};
use crate::message::records_section::RecordsSection;
use crate::names::name::Name;
use crate::records::class::Class;
use crate::records::data::{RData, RecordData};
use crate::records::record::ResourceRecord;
use crate::records::record_set::{count_some, lemma_count_some_clear, RecordSet};
use crate::records::rtype::Type;

verus! {

/// What makes a message no answer, as an answer error: not a response, a response code other
/// than `NOERROR`, or truncation; `None` when the flags are fine.
pub open spec fn answer_flags_error(h: Header) -> Option<AnswerError> {
    if !h.flags@.qr {
        Some(AnswerError::BadMessageType(MessageType::Query))
    } else if h.flags@.rcode != 0 {
        Some(AnswerError::BadResponseCode(RCode::spec_from_value(h.flags@.rcode)))
    } else if h.flags@.tc {
        Some(AnswerError::MessageTruncated)
    } else {
        None
    }
}

/// The record `o` is present and belongs to `name` (ignoring ASCII case), type `ty` and class
/// `cl`.
pub open spec fn record_matches(o: Option<ResourceRecord>, name: Seq<u8>, ty: u16, cl: u16) -> bool {
    o matches Some(rec) && eq_ignore_case(rec.name@, name) && rec.rtype@ == ty && rec.rclass@ == cl
}

/// Taking out of the first `n` entries of `recs` the records of `name`, class `cl` and the type
/// of `D`: the entries left, the smallest time to live (from `u32::MAX` on) and the data of the
/// records taken, in order; an error when the data of one does not convert to `D`.
pub open spec fn rrset_take<D: RData>(recs: Seq<Option<ResourceRecord>>, name: Seq<u8>, cl: u16, n: nat) -> Result<
    (Seq<Option<ResourceRecord>>, u32, Seq<D>),
>
    decreases n,
{
    if n == 0 {
        Ok((recs, u32::MAX, Seq::empty()))
    } else {
        match rrset_take::<D>(recs, name, cl, (n - 1) as nat) {
            Err(e) => Err(e),
            Ok((rs, ttl, data)) => if record_matches(rs[n - 1], name, D::spec_rtype(), cl) {
                let rec = rs[n - 1]->0;
                match D::of_data(rec.rdata) {
                    None => Err(Error::InternalError("record data conversion failed")),
                    Some(d) => Ok(
                        (
                            rs.update(n - 1, None),
                            if rec.ttl < ttl {
                                rec.ttl
                            } else {
                                ttl
                            },
                            data.push(d),
                        ),
                    ),
                }
            } else {
                Ok((rs, ttl, data))
            },
        }
    }
}

/// The index of the first entry of `recs`, from `i` on, that matches `name`, `ty` and `cl`.
pub open spec fn first_match(recs: Seq<Option<ResourceRecord>>, name: Seq<u8>, ty: u16, cl: u16, i: int) -> Option<
    int,
>
    decreases recs.len() - i,
{
    if i >= recs.len() || i < 0 {
        None
    } else if record_matches(recs[i], name, ty, cl) {
        Some(i)
    } else {
        first_match(recs, name, ty, cl, i + 1)
    }
}

/// Taking records out keeps the entries and leaves no more of them holding a record; when no
/// data was taken, nothing was.
pub proof fn lemma_rrset_take_count<D: RData>(recs: Seq<Option<ResourceRecord>>, name: Seq<u8>, cl: u16, n: nat)
    requires
        n <= recs.len(),
    ensures
        rrset_take::<D>(recs, name, cl, n) matches Ok((rs, _ttl, data)) ==> rs.len() == recs.len()
            && count_some(rs) <= count_some(recs) && (data.len() == 0 ==> rs == recs),
    decreases n,
{
    if n > 0 {
        lemma_rrset_take_count::<D>(recs, name, cl, (n - 1) as nat);
        match rrset_take::<D>(recs, name, cl, (n - 1) as nat) {
            Err(_) => {},
            Ok((rs, ttl, data)) => {
                lemma_count_some_clear(rs, n - 1);
            },
        }
    }
}

/// Once taking records out fails, it fails with the same error over more entries.
pub proof fn lemma_rrset_take_err<D: RData>(recs: Seq<Option<ResourceRecord>>, name: Seq<u8>, cl: u16, n: nat, m: nat)
    requires
        n <= m,
        rrset_take::<D>(recs, name, cl, n) is Err,
    ensures
        rrset_take::<D>(recs, name, cl, m) == rrset_take::<D>(recs, name, cl, n),
    decreases m - n,
{
    if n < m {
        lemma_rrset_take_err::<D>(recs, name, cl, n, (m - 1) as nat);
    }
}

/// The first match is a matching entry.
pub proof fn lemma_first_match(recs: Seq<Option<ResourceRecord>>, name: Seq<u8>, ty: u16, cl: u16, i: int)
    ensures
        first_match(recs, name, ty, cl, i) matches Some(k) ==> i <= k < recs.len() && record_matches(
            recs[k],
            name,
            ty,
            cl,
        ),
    decreases recs.len() - i,
{
    if 0 <= i < recs.len() && !record_matches(recs[i], name, ty, cl) {
        lemma_first_match(recs, name, ty, cl, i + 1);
    }
}

/// Following the chain of aliases from `name` through the entries `recs`: the first name with
/// records of class `cl` and the type of `D` gives the answer; otherwise its first alias record
/// (`CNAME`) is taken out and the chain goes on at the name it points to. The result is the
/// chain's names (after `cnames`), the last name, the smallest time to live of its records and
/// their data.
pub open spec fn answer_chain<D: RData>(
    recs: Seq<Option<ResourceRecord>>,
    name: Seq<u8>,
    cl: u16,
    cnames: Seq<Seq<u8>>,
) -> Result<(Seq<Seq<u8>>, Seq<u8>, u32, Seq<D>)>
    decreases count_some(recs),
{
    match rrset_take::<D>(recs, name, cl, recs.len()) {
        Err(e) => Err(e),
        Ok((rs, ttl, data)) => if data.len() > 0 {
            Ok((cnames, name, ttl, data))
        } else {
            match first_match(rs, name, Type::CNAME, cl, 0) {
                None => Err(Error::AnswerError(AnswerError::NoAnswer)),
                Some(k) => match rs[k]->0.rdata {
                    RecordData::Cname(c) => {
                        proof {
                            lemma_rrset_take_count::<D>(recs, name, cl, recs.len());
                            lemma_first_match(rs, name, Type::CNAME, cl, 0);
                            lemma_count_some_clear(rs, k);
                        }
                        answer_chain::<D>(rs.update(k, None), c.cname@, cl, cnames.push(c.cname@))
                    },
                    _ => Err(Error::InternalError("unexpected RecordData discriminant: Cname expected")),
                },
            }
        },
    }
}

/// The texts of the names `v`.
pub open spec fn names_text(v: Seq<Name>) -> Seq<Seq<u8>> {
    v.map_values(|n: Name| n@)
}

/// The tracker of a records iterator at the start of the records of a message with header `h`.
pub open spec fn records_start(h: Header) -> TrackerView {
    TrackerView {
        qd_total: h.qd_count,
        qd_read: 0,
        totals: seq![h.an_count, h.ns_count, h.ar_count],
        reads: seq![0u16, 0u16, 0u16],
        offsets: seq![0u16, 0u16, 0u16],
    }
}

/// The records iterator, from cursor `c` and tracker `t`, reads the records `steps` one after
/// the other and ends at cursor `c2` and tracker `t2`.
pub open spec fn records_run(
    c: CursorView,
    t: TrackerView,
    steps: Seq<(RecordsSection, ResourceRecord)>,
    c2: CursorView,
    t2: TrackerView,
) -> bool
    decreases steps.len(),
{
    if steps.len() == 0 {
        c2 == c && t2 == t
    } else {
        exists|cm: CursorView, tm: TrackerView|
            records_run(c, t, steps.drop_last(), cm, tm) && #[trigger] records_read_outcome(
                cm,
                tm,
                Ok(Some(steps.last())),
                c2,
                t2,
            )
    }
}

/// The records `recs`, as read from the answer section.
pub open spec fn answer_steps(recs: Seq<ResourceRecord>) -> Seq<(RecordsSection, ResourceRecord)> {
    recs.map_values(|rec: ResourceRecord| (RecordsSection::Answer, rec))
}

/// The next read of the records iterator from `c` and `t` ends the answer section: it fails
/// with the error `fail`, finds no record, or finds one of another section.
pub open spec fn answer_stop(c: CursorView, t: TrackerView, fail: Option<Error>) -> bool {
    exists|res: Result<Option<(RecordsSection, ResourceRecord)>>, c2: CursorView, t2: TrackerView|
        #[trigger] records_read_outcome(c, t, res, c2, t2) && match res {
            Err(e) => fail == Some(e),
            Ok(None) => fail is None,
            Ok(Some((s, _rec))) => s != RecordsSection::Answer && fail is None,
        }
}

/// Reading the answer records from cursor `c` and tracker `t` gives the records `recs`, then
/// stops on the error `fail` or at the end of the answer section.
pub open spec fn answer_records_read(
    c: CursorView,
    t: TrackerView,
    recs: Seq<ResourceRecord>,
    fail: Option<Error>,
) -> bool {
    exists|cm: CursorView, tm: TrackerView|
        #[trigger] records_run(c, t, answer_steps(recs), cm, tm) && answer_stop(cm, tm, fail)
}

/// The answer `r` is made from the outcome `chain` of [`answer_chain`], for class `cl`.
pub open spec fn answer_result<D: RData>(
    chain: Result<(Seq<Seq<u8>>, Seq<u8>, u32, Seq<D>)>,
    cl: u16,
    r: Result<Answer<D>>,
) -> bool {
    match chain {
        Err(e) => r == Err::<Answer<D>, Error>(e),
        Ok((cnames, name, ttl, data)) => r matches Ok(a) && names_text(a.spec_cnames()@) == cnames
            && a.spec_rrset().name@ == name && a.spec_rrset().rclass@ == cl
            && a.spec_rrset().ttl == ttl && a.spec_rrset().rdata@ == data,
    }
}

/// The entries of `recs`, each holding its record.
pub open spec fn entries(recs: Seq<ResourceRecord>) -> Seq<Option<ResourceRecord>> {
    recs.map_values(|rec: ResourceRecord| Some(rec))
}

/// One more answer record read extends the run of answer records.
pub proof fn lemma_answer_step(
    c: CursorView,
    t: TrackerView,
    recs: Seq<ResourceRecord>,
    cm: CursorView,
    tm: TrackerView,
    rec: ResourceRecord,
    c2: CursorView,
    t2: TrackerView,
)
    requires
        records_run(c, t, answer_steps(recs), cm, tm),
        records_read_outcome(cm, tm, Ok(Some((RecordsSection::Answer, rec))), c2, t2),
    ensures
        records_run(c, t, answer_steps(recs.push(rec)), c2, t2),
{
    let steps = answer_steps(recs.push(rec));
    assert(steps.drop_last() =~= answer_steps(recs));
    assert(steps.last() == (RecordsSection::Answer, rec));
}

/// A read that ends the answer section ends the reading of the answer records.
pub proof fn lemma_answer_stop(
    c: CursorView,
    t: TrackerView,
    recs: Seq<ResourceRecord>,
    cm: CursorView,
    tm: TrackerView,
    res: Result<Option<(RecordsSection, ResourceRecord)>>,
    c2: CursorView,
    t2: TrackerView,
    fail: Option<Error>,
)
    requires
        records_run(c, t, answer_steps(recs), cm, tm),
        records_read_outcome(cm, tm, res, c2, t2),
        match res {
            Err(e) => fail == Some(e),
            Ok(None) => fail is None,
            Ok(Some((s, _rec))) => s != RecordsSection::Answer && fail is None,
        },
    ensures
        answer_records_read(c, t, recs, fail),
{
    assert(answer_stop(cm, tm, fail));
}

/// The answer to a data query.
///
/// It holds the record set asked for and the chain of aliases (`CNAME` records) that leads from
/// the question's name to the name of the set.
pub struct Answer<D: RData> {
    cnames: Vec<Name>,
    rrset: RecordSet<D>,
}

impl<D: RData> Answer<D> {
    /// The chain of aliases.
    pub closed spec fn spec_cnames(&self) -> Vec<Name> {
        self.cnames
    }

    /// The record set.
    pub closed spec fn spec_rrset(&self) -> RecordSet<D> {
        self.rrset
    }

    /// Returns the chain of aliases that leads to the record set.
    ///
    /// The question's name may have an alias (`CNAME`) record; the name it points to may have
    /// one of its own, and so on. The record set belongs to the last name of the chain.
    pub fn cnames(&self) -> (r: &Vec<Name>)
        ensures
            *r == self.spec_cnames(),
    {
        &self.cnames
    }

    /// Returns the record set with the data asked for.
    ///
    /// It belongs to the question's name, or to the last name of the chain of aliases.
    pub fn rrset(&self) -> (r: &RecordSet<D>)
        ensures
            *r == self.spec_rrset(),
    {
        &self.rrset
    }

    /// Checks the flags of a response as [`answer_flags_error`] says.
    fn check_flags(h: &Header) -> (r: Result<()>)
        ensures
            match answer_flags_error(*h) {
                Some(e) => r == Err::<(), Error>(Error::AnswerError(e)),
                None => r == Ok::<(), Error>(()),
            },
    {
        let flags = h.flags;
        let mt = flags.message_type();
        if !mt.is_response() {
            return Err(Error::AnswerError(AnswerError::BadMessageType(mt)));
        }
        let rc = flags.response_code();
        proof {
            RCode::lemma_value_of(rc);
        }
        if rc.value() != RCode::NOERROR {
            return Err(Error::AnswerError(AnswerError::BadResponseCode(rc)));
        }
        if flags.truncated() {
            return Err(Error::AnswerError(AnswerError::MessageTruncated));
        }
        Ok(())
    }

    /// Reads the answer to the question of the response `msg`, following the chain of aliases
    /// (`CNAME` records) of its answer section.
    ///
    /// # Errors
    ///
    /// The errors of reading the header and of skipping the questions, the answer records and
    /// the authority records; [`AnswerError::BadMessageType`], [`AnswerError::BadResponseCode`]
    /// and [`AnswerError::MessageTruncated`] as the response's flags say;
    /// [`Error::MessageWithoutQuestion`] when the message has no question; the errors of reading
    /// the question and the answer records; [`AnswerError::NoAnswer`] when the question asks for
    /// another type of data or no record of the name, class and type is found.
    pub fn from_msg(msg: &[u8]) -> (r: Result<Answer<D>>)
        ensures
            match read_header_spec(msg_cursor(msg@, 0)) {
                (Err(e), _c) => r == Err::<Answer<D>, Error>(e),
                (Ok(h), _c) => match additional_offset(msg@, h) {
                    Err(e) => r == Err::<Answer<D>, Error>(e),
                    Ok(_) => match answer_flags_error(h) {
                        Some(e) => r == Err::<Answer<D>, Error>(Error::AnswerError(e)),
                        None => if h.qd_count == 0 {
                            r == Err::<Answer<D>, Error>(Error::MessageWithoutQuestion)
                        } else {
                            match question_read(msg_cursor(msg@, 12)) {
                                (Err(e), _c) => r == Err::<Answer<D>, Error>(e),
                                (Ok((qname, qtype, qclass)), _c) => exists|
                                    recs: Seq<ResourceRecord>,
                                    fail: Option<Error>,
                                |
                                    #[trigger] answer_records_read(
                                        msg_cursor(msg@, answer_offset(msg@, h)->Ok_0),
                                        records_start(h),
                                        recs,
                                        fail,
                                    ) && match fail {
                                        Some(e) => r == Err::<Answer<D>, Error>(e),
                                        None => if qtype != D::spec_rtype() {
                                            r == Err::<Answer<D>, Error>(
                                                Error::AnswerError(AnswerError::NoAnswer),
                                            )
                                        } else {
                                            answer_result::<D>(
                                                answer_chain::<D>(
                                                    entries(recs),
                                                    qname,
                                                    qclass,
                                                    Seq::empty(),
                                                ),
                                                qclass,
                                                r,
                                            )
                                        },
                                    },
                            }
                        },
                    },
                },
            },
    {
        let mut mi = match MessageIterator::new(msg) {
            Ok(m) => m,
            Err(e) => return Err(e),
        };
        match mi.section_offset(RecordsSection::Additional) {
            Ok(_) => {},
            Err(e) => return Err(e),
        }
        match Answer::<D>::check_flags(mi.header()) {
            Ok(_) => {},
            Err(e) => return Err(e),
        }
        if mi.header().qd_count == 0 {
            return Err(Error::MessageWithoutQuestion);
        }
        let question = match mi.question() {
            Ok(q) => q,
            Err(e) => return Err(e),
        };
        let read = Answer::<D>::read_answer_records(&mi);
        let ghost start = msg_cursor(msg@, answer_offset(msg@, mi.spec_header())->Ok_0);
        let ghost (recs, fail) = choose|recs: Seq<ResourceRecord>, fail: Option<Error>|
            #[trigger] answer_records_read(start, records_start(mi.spec_header()), recs, fail)
                && match fail {
                Some(e) => read == Err::<Vec<Option<ResourceRecord>>, Error>(e),
                None => read matches Ok(v) && v@ == entries(recs),
            };
        proof {
            assert(answer_records_read(start, records_start(mi.spec_header()), recs, fail));
        }
        let mut records = match read {
            Ok(v) => v,
            Err(e) => return Err(e),
        };
        if question.qtype.value() != D::rtype_value() {
            return Err(Error::AnswerError(AnswerError::NoAnswer));
        }
        let qname = Name::from_inline(&question.qname);
        Answer::<D>::from_records(records, &qname, question.qclass)
    }

    /// Makes the answer to a question for `qname` and `qclass` from the records of the
    /// response's answer section, following the chain of aliases as [`answer_chain`] says.
    ///
    /// # Errors
    ///
    /// [`AnswerError::NoAnswer`] when no record of the name, class and type is found;
    /// [`Error::InternalError`] when the data of a record does not have the type it should.
    pub fn from_records(records: Vec<Option<ResourceRecord>>, qname: &Name, qclass: Class) -> (r:
        Result<Answer<D>>)
        ensures
            answer_result::<D>(
                answer_chain::<D>(records@, qname@, qclass@, Seq::empty()),
                qclass@,
                r,
            ),
    {
        let ghost r0 = records@;
        let mut left = records;
        let rclass = qclass;
        let mut name = qname.clone();
        let mut cnames: Vec<Name> = Vec::new();
        let mut found: Option<RecordSet<D>> = None;
        let ghost chain = answer_chain::<D>(left@, name@, rclass@, Seq::empty());
        proof {
            assert(names_text(cnames@) =~= Seq::<Seq<u8>>::empty());
        }
        while found.is_none()
            invariant
                chain == answer_chain::<D>(r0, qname@, qclass@, Seq::<Seq<u8>>::empty()),
                r0 == records@,
                rclass == qclass,
                found is None ==> chain == answer_chain::<D>(
                    left@,
                    name@,
                    rclass@,
                    names_text(cnames@),
                ),
                found matches Some(rs) ==> chain == Ok::<
                    (Seq<Seq<u8>>, Seq<u8>, u32, Seq<D>),
                    Error,
                >((names_text(cnames@), name@, rs.ttl, rs.rdata@)) && rs.rclass == rclass,
            decreases count_some(left@) + if found is None {
                1int
            } else {
                0int
            },
        {
            let ghost before = left@;
            let res = Answer::<D>::extract_rrset(&mut left, &name, rclass);
            proof {
                lemma_rrset_take_count::<D>(before, name@, rclass@, before.len());
            }
            match res {
                Ok(Some(rs)) => {
                    found = Some(rs);
                },
                Ok(None) => {
                    let ghost middle = left@;
                    proof {
                        lemma_first_match(middle, name@, Type::CNAME, rclass@, 0);
                    }
                    match Answer::<D>::extract_cname(&mut left, &name, rclass) {
                        Some(rec) => {
                            proof {
                                lemma_first_match(middle, name@, Type::CNAME, rclass@, 0);
                                let k = first_match(middle, name@, Type::CNAME, rclass@, 0)->0;
                                lemma_count_some_clear(middle, k);
                            }
                            match rec.rdata {
                                RecordData::Cname(s) => {
                                    let ghost before_names = cnames@;
                                    cnames.push(s.cname.clone());
                                    proof {
                                        assert(names_text(cnames@) =~= names_text(before_names).push(
                                            s.cname@,
                                        ));
                                    }
                                    name = s.cname;
                                },
                                _ => {
                                    return Err(
                                        Error::InternalError(
                                            "unexpected RecordData discriminant: Cname expected",
                                        ),
                                    );
                                },
                            }
                        },
                        None => {
                            proof {
                                let t = rrset_take::<D>(before, name@, rclass@, before.len());
                                assert(t is Ok);
                                assert(t->Ok_0.0 == middle);
                                assert(t->Ok_0.2.len() == 0);
                                assert(first_match(middle, name@, Type::CNAME, rclass@, 0) is None);
                                assert(answer_chain::<D>(before, name@, rclass@, names_text(cnames@))
                                    == Err::<(Seq<Seq<u8>>, Seq<u8>, u32, Seq<D>), Error>(
                                    Error::AnswerError(AnswerError::NoAnswer),
                                ));
                            }
                            return Err(Error::AnswerError(AnswerError::NoAnswer));
                        },
                    }
                },
                Err(e) => {
                    proof {
                        assert(answer_chain::<D>(before, name@, rclass@, names_text(cnames@))
                            == Err::<(Seq<Seq<u8>>, Seq<u8>, u32, Seq<D>), Error>(e));
                        assert(chain == Err::<(Seq<Seq<u8>>, Seq<u8>, u32, Seq<D>), Error>(e));
                        assert(answer_chain::<D>(r0, qname@, qclass@, Seq::<Seq<u8>>::empty())
                            == Err::<(Seq<Seq<u8>>, Seq<u8>, u32, Seq<D>), Error>(e));
                    }
                    return Err(e);
                },
            }
        }
        let mut rrset = match found {
            Some(rs) => rs,
            None => return Err(Error::AnswerError(AnswerError::NoAnswer)),
        };
        rrset.name = name;
        Ok(Answer { cnames, rrset })
    }

    /// Takes out of `records` those of `name`, `rclass` and the set's type, and gathers their
    /// data, as [`rrset_take`] says; `None` when there are none.
    ///
    /// # Errors
    ///
    /// [`Error::InternalError`] when the data of a record does not convert to the set's type.
    fn extract_rrset(records: &mut Vec<Option<ResourceRecord>>, name: &Name, rclass: Class) -> (r:
        Result<Option<RecordSet<D>>>)
        ensures
            match rrset_take::<D>(old(records)@, name@, rclass@, old(records)@.len()) {
                Err(e) => r == Err::<Option<RecordSet<D>>, Error>(e),
                Ok((rs, ttl, data)) => final(records)@ == rs && if data.len() > 0 {
                    r matches Ok(Some(set)) && set.name@ == Seq::<u8>::empty() && set.rclass
                        == rclass && set.ttl == ttl && set.rdata@ == data
                } else {
                    r == Ok::<Option<RecordSet<D>>, Error>(None)
                },
            },
    {
        let mut rrset = RecordSet { name: Name::new(), rclass, ttl: u32::MAX, rdata: Vec::new() };
        let rtype = D::rtype_value();
        let mut i: usize = 0;
        let ghost r0 = records@;
        while i < records.len()
            invariant
                r0 == old(records)@,
                i <= records@.len(),
                records@.len() == r0.len(),
                rtype == D::spec_rtype(),
                rrset_take::<D>(r0, name@, rclass@, i as nat) == Ok::<
                    (Seq<Option<ResourceRecord>>, u32, Seq<D>),
                    Error,
                >((records@, rrset.ttl, rrset.rdata@)),
                rrset.rclass == rclass,
                rrset.name@ == Seq::<u8>::empty(),
            decreases records@.len() - i,
        {
            let wanted = match &records[i] {
                Some(rec) => rec.name.eq_name(name) && rec.rtype.value() == rtype
                    && rec.rclass.value() == rclass.value(),
                None => false,
            };
            let ghost before = records@;
            if wanted {
                let mut taken: Option<ResourceRecord> = None;
                records.set_and_swap(i, &mut taken);
                match taken {
                    Some(rec) => {
                        if rec.ttl < rrset.ttl {
                            rrset.ttl = rec.ttl;
                        }
                        let d = match D::from(rec.rdata) {
                            Ok(d) => d,
                            Err(e) => {
                                proof {
                                    lemma_rrset_take_err::<D>(
                                        r0,
                                        name@,
                                        rclass@,
                                        (i + 1) as nat,
                                        r0.len(),
                                    );
                                }
                                return Err(e);
                            },
                        };
                        rrset.rdata.push(d);
                    },
                    None => {},
                }
            }
            proof {
                assert(record_matches(before[i as int], name@, D::spec_rtype(), rclass@) == wanted);
            }
            i = i + 1;
        }
        if rrset.rdata.len() > 0 {
            Ok(Some(rrset))
        } else {
            Ok(None)
        }
    }

    /// Takes out of `records` the first alias record (`CNAME`) of `name` and `rclass`; `None`
    /// when there is none.
    fn extract_cname(records: &mut Vec<Option<ResourceRecord>>, name: &Name, rclass: Class) -> (r:
        Option<ResourceRecord>)
        ensures
            match first_match(old(records)@, name@, Type::CNAME, rclass@, 0) {
                None => r is None && final(records)@ == old(records)@,
                Some(k) => r == old(records)@[k] && final(records)@ == old(records)@.update(
                    k,
                    None,
                ),
            },
    {
        let mut i: usize = 0;
        while i < records.len()
            invariant
                i <= records@.len(),
                records@ == old(records)@,
                first_match(old(records)@, name@, Type::CNAME, rclass@, 0) == first_match(
                    old(records)@,
                    name@,
                    Type::CNAME,
                    rclass@,
                    i as int,
                ),
            decreases records@.len() - i,
        {
            let wanted = match &records[i] {
                Some(rec) => rec.name.eq_name(name) && rec.rtype.value() == Type::CNAME
                    && rec.rclass.value() == rclass.value(),
                None => false,
            };
            if wanted {
                let mut taken: Option<ResourceRecord> = None;
                records.set_and_swap(i, &mut taken);
                return taken;
            }
            i = i + 1;
        }
        None
    }

    /// Reads the records of the answer section, which comes first among the records.
    fn read_answer_records(mi: &MessageIterator<'_>) -> (r: Result<Vec<Option<ResourceRecord>>>)
        ensures
            exists|recs: Seq<ResourceRecord>, fail: Option<Error>|
                #[trigger] answer_records_read(
                    msg_cursor(mi.spec_buf(), answer_offset(mi.spec_buf(), mi.spec_header())->Ok_0),
                    records_start(mi.spec_header()),
                    recs,
                    fail,
                ) && match fail {
                    Some(e) => r == Err::<Vec<Option<ResourceRecord>>, Error>(e),
                    None => r matches Ok(v) && v@ == entries(recs),
                },
    {
        let mut records: Vec<Option<ResourceRecord>> = Vec::new();
        let mut it = mi.records();
        let ghost c0 = it@.cursor;
        let ghost t0 = it@.tracker;
        let ghost mut recs: Seq<ResourceRecord> = Seq::empty();
        proof {
            lemma_left_through_bounds(it@.tracker, 2);
            assert(answer_steps(recs) =~= Seq::<(RecordsSection, ResourceRecord)>::empty());
            assert(records@ =~= entries(recs));
        }
        loop
            invariant
                tracker_consistent(it@.tracker),
                left_through(it@.tracker, 2) >= 0,
                !it@.err,
                records@ == entries(recs),
                records_run(c0, t0, answer_steps(recs), it@.cursor, it@.tracker),
                c0 == msg_cursor(mi.spec_buf(), answer_offset(mi.spec_buf(), mi.spec_header())->Ok_0),
                t0 == records_start(mi.spec_header()),
            decreases left_through(it@.tracker, 2),
        {
            let ghost cb = it@.cursor;
            let ghost tb = it@.tracker;
            let next = it.next();
            proof {
                lemma_left_through_bounds(it@.tracker, 2);
            }
            match next {
                Some(Ok((section, record))) => {
                    match section {
                        RecordsSection::Answer => {
                            let ghost before = recs;
                            records.push(Some(record));
                            proof {
                                recs = recs.push(record);
                                lemma_answer_step(c0, t0, before, cb, tb, record, it@.cursor, it@.tracker);
                                assert(records@ =~= entries(recs));
                            }
                        },
                        _ => {
                            proof {
                                lemma_answer_stop(
                                    c0,
                                    t0,
                                    recs,
                                    cb,
                                    tb,
                                    Ok(Some((section, record))),
                                    it@.cursor,
                                    it@.tracker,
                                    None,
                                );
                            }
                            return Ok(records);
                        },
                    }
                },
                Some(Err(e)) => {
                    proof {
                        lemma_answer_stop(c0, t0, recs, cb, tb, Err(e), it@.cursor, it@.tracker, Some(e));
                    }
                    return Err(e);
                },
                None => {
                    proof {
                        lemma_answer_stop(c0, t0, recs, cb, tb, Ok(None), it@.cursor, it@.tracker, None);
                    }
                    return Ok(records);
                },
            }
        }
    }
}

} // verus!
