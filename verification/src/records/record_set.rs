//! The set of records of one name, class and type that answers a question.

use vstd::prelude::*;

use crate::bytes::CursorView;
use crate::errors::{Error, Result};
use crate::message::header::Header;
use crate::message::message_type::MessageType;

use crate::message::reader::message_reader::{data_skip, header_step, left_through, marker_read, questions_skip, ReaderView, lemma_left_through_bounds, lemma_left_through_step, MessageReader};
use crate::message::reader::name_ref::{names_eq_spec, NameRef};
use crate::message::reader::record_marker::{RecordHeaderRef, RecordMarker, TYPE_TO_RDATA_OFFSET};
use crate::message::reader::labels::read_name_spec;
use crate::message::reader::question_ref::question_ref_read;
use crate::message::reader::section_tracker::{lemma_first_pending_some, tracker_consistent, tracker_question_read, TrackerView};
use crate::message::rcode::RCode;
use crate::message::records_section::RecordsSection;
use crate::names::name::Name;
use crate::records::class::Class;
use crate::records::rtype::Type;
use crate::records::data::RData;

verus! {

/// What makes a message no answer: not a response, a response code other than `NOERROR`, or
/// truncation; `None` when the flags are fine.
pub open spec fn response_error(h: Header) -> Option<Error> {
    if !h.flags@.qr {
        Some(Error::BadMessageType(MessageType::Query))
    } else if h.flags@.rcode != 0 {
        Some(Error::BadResponseCode(RCode::spec_from_value(h.flags@.rcode)))
    } else if h.flags@.tc {
        Some(Error::MessageTruncated)
    } else {
        None
    }
}

/// Checks the flags of a response: it is a response, its code is `NOERROR` and it is not
/// truncated.
pub fn check_response(h: &Header) -> (r: Result<()>)
    ensures
        match response_error(*h) {
            Some(e) => r == Err::<(), Error>(e),
            None => r == Ok::<(), Error>(()),
        },
{
    let flags = h.flags;
    let mt = flags.message_type();
    if !mt.is_response() {
        return Err(Error::BadMessageType(mt));
    }
    let rc = flags.response_code();
    proof {
        RCode::lemma_value_of(rc);
    }
    if rc.value() != RCode::NOERROR {
        return Err(Error::BadResponseCode(rc));
    }
    if flags.truncated() {
        return Err(Error::MessageTruncated);
    }
    Ok(())
}

/// The owner name and marker of each header; `None` where a header was taken out.
pub open spec fn header_views<'a>(hs: Seq<Option<RecordHeaderRef<'a>>>) -> Seq<
    Option<(CursorView, RecordMarker)>,
> {
    hs.map_values(
        |o: Option<RecordHeaderRef<'a>>|
            match o {
                Some(h) => Some((h.name_ref@, h.marker)),
                None => None,
            },
    )
}

/// The header `o` is present, of type `ty` and class `cl`, and its data lies at an offset a
/// reader can address.
pub open spec fn header_wanted(o: Option<(CursorView, RecordMarker)>, ty: u16, cl: u16) -> bool {
    o matches Some((_c, m)) && m.rtype@ == ty && m.rclass@ == cl && m.offset.type_offset
        <= usize::MAX - TYPE_TO_RDATA_OFFSET
}

/// The cursor at the data of the record of marker `m`, in the message of reader cursor `rd`.
pub open spec fn data_cursor(rd: CursorView, m: RecordMarker) -> CursorView {
    rd.at(m.offset.type_offset + TYPE_TO_RDATA_OFFSET)
}

/// One step of taking records out of the headers: the entry at `i` is looked at, from the
/// outcome `prev` of the entries before it, giving `out`.
///
/// A present entry whose owner name is `name` (an error met comparing the names is the
/// outcome) and which is of the type of `D` and class `cl` is taken out; its data is read
/// (an error is the outcome) and its time to live counts towards the smallest.
pub open spec fn rrset_step<D: RData>(
    rd: CursorView,
    name: CursorView,
    cl: u16,
    i: int,
    prev: Result<(Seq<Option<(CursorView, RecordMarker)>>, u32, Seq<D>)>,
    out: Result<(Seq<Option<(CursorView, RecordMarker)>>, u32, Seq<D>)>,
) -> bool {
    match prev {
        Err(e) => out == Err::<(Seq<Option<(CursorView, RecordMarker)>>, u32, Seq<D>), Error>(e),
        Ok((hs, ttl, data)) => match hs[i] {
            None => out == prev,
            Some((c, m)) => match names_eq_spec(c, name) {
                Err(e) => out == Err::<(Seq<Option<(CursorView, RecordMarker)>>, u32, Seq<D>), Error>(e),
                Ok(same) => if same && header_wanted(hs[i], D::spec_rtype(), cl) {
                    exists|d: Result<D>, c2: CursorView|
                        #[trigger] D::read_outcome(data_cursor(rd, m), m.rdlen as int, d, c2)
                            && match d {
                            Err(e) => out == Err::<
                                (Seq<Option<(CursorView, RecordMarker)>>, u32, Seq<D>),
                                Error,
                            >(e),
                            Ok(x) => out == Ok::<
                                (Seq<Option<(CursorView, RecordMarker)>>, u32, Seq<D>),
                                Error,
                            >(
                                (
                                    hs.update(i, None),
                                    if m.ttl < ttl {
                                        m.ttl
                                    } else {
                                        ttl
                                    },
                                    data.push(x),
                                ),
                            ),
                        }
                } else {
                    out == prev
                },
            },
        },
    }
}

/// The outcomes `states` follow one another by [`rrset_step`], from the first entry on.
pub open spec fn rrset_run<D: RData>(
    rd: CursorView,
    name: CursorView,
    cl: u16,
    states: Seq<Result<(Seq<Option<(CursorView, RecordMarker)>>, u32, Seq<D>)>>,
) -> bool {
    forall|j: int|
        0 <= j < states.len() - 1 ==> #[trigger] rrset_step::<D>(
            rd,
            name,
            cl,
            j,
            states[j],
            states[j + 1],
        )
}

/// Taking out of the first `n` headers those of `name`, class `cl` and the type of `D`, as
/// [`rrset_step`] says, gives `out`: the headers left, the smallest time to live (from
/// `u32::MAX` on) and the data read, in order.
pub open spec fn rrset_take<D: RData>(
    rd: CursorView,
    hs: Seq<Option<(CursorView, RecordMarker)>>,
    name: CursorView,
    cl: u16,
    n: nat,
    out: Result<(Seq<Option<(CursorView, RecordMarker)>>, u32, Seq<D>)>,
) -> bool {
    exists|states: Seq<Result<(Seq<Option<(CursorView, RecordMarker)>>, u32, Seq<D>)>>|
        #[trigger] rrset_run::<D>(rd, name, cl, states) && states.len() == n + 1 && states[0]
            == Ok::<(Seq<Option<(CursorView, RecordMarker)>>, u32, Seq<D>), Error>(
            (hs, u32::MAX, Seq::empty()),
        ) && states[n as int] == out
}

/// The first header from `i` on whose owner name is `name` and which is an alias record
/// (`CNAME`) of class `cl`; an error met comparing the names is the outcome.
pub open spec fn cname_find(hs: Seq<Option<(CursorView, RecordMarker)>>, name: CursorView, cl: u16, i: int) -> Result<
    Option<int>,
>
    decreases hs.len() - i,
{
    if i >= hs.len() || i < 0 {
        Ok(None)
    } else {
        match hs[i] {
            None => cname_find(hs, name, cl, i + 1),
            Some((c, _m)) => match names_eq_spec(c, name) {
                Err(e) => Err(e),
                Ok(same) => if same && header_wanted(hs[i], Type::CNAME, cl) {
                    Ok(Some(i))
                } else {
                    cname_find(hs, name, cl, i + 1)
                },
            },
        }
    }
}

/// Where one step of following a chain of aliases leads.
pub enum ChainStep<D> {
    /// The chain ends with this outcome: the set's name, smallest time to live and data, or an
    /// error.
    Found(Result<(CursorView, u32, Seq<D>)>),
    /// The chain goes on with these headers left, at this name.
    Next(Seq<Option<(CursorView, RecordMarker)>>, CursorView),
}

/// One step of following a chain of aliases from `name` through the headers `hs` leads to
/// `next`: the records of `name`, class `cl` and the type of `D` are taken out; when there
/// are some, they make the set; otherwise the first alias record of `name` is taken out and
/// the chain goes on at the name that starts its data.
pub open spec fn chain_step<D: RData>(
    rd: CursorView,
    cl: u16,
    hs: Seq<Option<(CursorView, RecordMarker)>>,
    name: CursorView,
    next: ChainStep<D>,
) -> bool {
    exists|t: Result<(Seq<Option<(CursorView, RecordMarker)>>, u32, Seq<D>)>|
        #[trigger] rrset_take::<D>(rd, hs, name, cl, hs.len(), t) && match t {
            Err(e) => next == ChainStep::<D>::Found(Err(e)),
            Ok((rs, ttl, data)) => if data.len() > 0 {
                next == ChainStep::<D>::Found(Ok((name, ttl, data)))
            } else {
                match cname_find(rs, name, cl, 0) {
                    Err(e) => next == ChainStep::<D>::Found(Err(e)),
                    Ok(None) => next == ChainStep::<D>::Found(Err(Error::NoAnswer)),
                    Ok(Some(k)) => next == ChainStep::<D>::Next(
                        rs.update(k, None),
                        data_cursor(rd, (rs[k]->0).1),
                    ),
                }
            },
        }
}

/// The states of `path` follow one another by [`chain_step`].
pub open spec fn chain_path<D: RData>(
    rd: CursorView,
    cl: u16,
    path: Seq<(Seq<Option<(CursorView, RecordMarker)>>, CursorView)>,
) -> bool {
    forall|j: int|
        0 <= j < path.len() - 1 ==> #[trigger] chain_step::<D>(
            rd,
            cl,
            path[j].0,
            path[j].1,
            ChainStep::<D>::Next(path[j + 1].0, path[j + 1].1),
        )
}

/// Following the chain of aliases from `name` through the headers `hs`, step by step as
/// [`chain_step`] says, ends with `out`.
pub open spec fn rrset_chain<D: RData>(
    rd: CursorView,
    hs: Seq<Option<(CursorView, RecordMarker)>>,
    name: CursorView,
    cl: u16,
    out: Result<(CursorView, u32, Seq<D>)>,
) -> bool {
    exists|path: Seq<(Seq<Option<(CursorView, RecordMarker)>>, CursorView)>|
        #[trigger] chain_path::<D>(rd, cl, path) && path.len() > 0 && path[0] == (hs, name)
            && chain_step::<D>(
            rd,
            cl,
            path.last().0,
            path.last().1,
            ChainStep::<D>::Found(out),
        )
}

/// The record set `r` is made from the outcome `out` of [`rrset_chain`], for class `cl`: its
/// name is read at the cursor where the chain ended.
pub open spec fn rrset_result<D: RData>(
    out: Result<(CursorView, u32, Seq<D>)>,
    cl: u16,
    r: Result<RecordSet<D>>,
) -> bool {
    match out {
        Err(e) => r == Err::<RecordSet<D>, Error>(e),
        Ok((nc, ttl, data)) => match read_name_spec(nc) {
            Err(e) => r == Err::<RecordSet<D>, Error>(e),
            Ok((t, _p)) => r matches Ok(rs) && rs.name@ == t && rs.rclass@ == cl && rs.ttl == ttl
                && rs.rdata@ == data,
        },
    }
}

/// A path of chain steps extended by one more step is a path.
pub proof fn lemma_chain_path_push<D: RData>(
    rd: CursorView,
    cl: u16,
    path: Seq<(Seq<Option<(CursorView, RecordMarker)>>, CursorView)>,
    next: (Seq<Option<(CursorView, RecordMarker)>>, CursorView),
)
    requires
        path.len() > 0,
        chain_path::<D>(rd, cl, path),
        chain_step::<D>(rd, cl, path.last().0, path.last().1, ChainStep::<D>::Next(next.0, next.1)),
    ensures
        chain_path::<D>(rd, cl, path.push(next)),
{
    let p2 = path.push(next);
    assert forall|j: int| 0 <= j < p2.len() - 1 implies #[trigger] chain_step::<D>(
        rd,
        cl,
        p2[j].0,
        p2[j].1,
        ChainStep::<D>::Next(p2[j + 1].0, p2[j + 1].1),
    ) by {
        if j < path.len() - 1 {
            assert(chain_step::<D>(
                rd,
                cl,
                path[j].0,
                path[j].1,
                ChainStep::<D>::Next(path[j + 1].0, path[j + 1].1),
            ));
        }
    }
}

/// The state of a reader created on the message `msg`.
pub open spec fn reader_start(msg: Seq<u8>) -> ReaderView {
    ReaderView {
        cursor: CursorView { buf: msg, pos: 0, end: msg.len() as usize, window: false },
        tracker: TrackerView {
            qd_total: 0,
            qd_read: 0,
            totals: seq![0u16, 0u16, 0u16],
            reads: seq![0u16, 0u16, 0u16],
            offsets: seq![0u16, 0u16, 0u16],
        },
        done: false,
    }
}

/// Reading a question with its name left in the message: the name's cursor, the type and
/// the class, and the reader afterwards.
pub open spec fn question_ref_step(v: ReaderView) -> (Result<(CursorView, u16, u16)>, ReaderView) {
    if v.done {
        (Err(Error::ReaderDone), v)
    } else if v.tracker.qd_read == v.tracker.qd_total {
        (Err(Error::ReaderDone), ReaderView { done: true, ..v })
    } else {
        match question_ref_read(v.cursor) {
            (Ok((ty, cl)), c1) => (
                Ok((v.cursor, ty, cl)),
                ReaderView { cursor: c1, tracker: tracker_question_read(v.tracker, c1.pos), ..v },
            ),
            (Err(e), c1) => (Err(e), ReaderView { cursor: c1, done: true, ..v }),
        }
    }
}

/// Skipping the questions left with a reader: an error makes it done.
pub open spec fn questions_skip_step(v: ReaderView) -> (Result<()>, ReaderView) {
    if v.done {
        (Err(Error::ReaderDone), v)
    } else {
        match questions_skip(v) {
            (Ok(_), v2) => (Ok(()), v2),
            (Err(e), v2) => (Err(e), ReaderView { done: true, ..v2 }),
        }
    }
}

/// Reading the headers of the answer records left, at most `n` of them: the owner name's
/// cursor and the marker of each, and the reader afterwards.
pub open spec fn answer_headers_read(v: ReaderView, n: nat) -> (
    Result<Seq<(CursorView, RecordMarker)>>,
    ReaderView,
)
    decreases n,
{
    if n == 0 || v.done || !(v.tracker.reads[0] < v.tracker.totals[0]) {
        (Ok(Seq::empty()), v)
    } else {
        match marker_read(v) {
            (Err(e), v1) => (Err(e), ReaderView { done: true, ..v1 }),
            (Ok(m), v1) => match data_skip(v1, m) {
                (Err(e), v2) => (Err(e), v2),
                (Ok(_), v2) => match answer_headers_read(v2, (n - 1) as nat) {
                    (Err(e), v3) => (Err(e), v3),
                    (Ok(rest), v3) => (Ok(seq![(v.cursor, m)] + rest), v3),
                },
            },
        }
    }
}

/// The headers `hs`, each present.
pub open spec fn present(hs: Seq<(CursorView, RecordMarker)>) -> Seq<Option<(CursorView, RecordMarker)>> {
    hs.map_values(|h: (CursorView, RecordMarker)| Some(h))
}

/// The outcome `r` of reading the record set of type `D` that answers the question of the
/// message `msg`, at most 65535 bytes long: the header is read and its flags checked, the
/// question read and the answer records' headers read; then the chain of aliases is followed
/// from the question's name, as [`rrset_chain`] and [`rrset_result`] say.
pub open spec fn rrset_from_msg<D: RData>(msg: Seq<u8>, r: Result<RecordSet<D>>) -> bool {
    match header_step(reader_start(msg)) {
        (Err(e), _v) => r == Err::<RecordSet<D>, Error>(e),
        (Ok(h), v1) => match response_error(h) {
            Some(e) => r == Err::<RecordSet<D>, Error>(e),
            None => match question_ref_step(v1) {
                (Err(e), _v) => r == Err::<RecordSet<D>, Error>(e),
                (Ok((qname, _qtype, qclass)), v2) => match questions_skip_step(v2) {
                    (Err(e), _v) => r == Err::<RecordSet<D>, Error>(e),
                    (Ok(_), v3) => match answer_headers_read(v3, left_through(v3.tracker, 0) as nat) {
                        (Err(e), _v) => r == Err::<RecordSet<D>, Error>(e),
                        (Ok(hs), v4) => exists|out: Result<(CursorView, u32, Seq<D>)>|
                            #[trigger] rrset_chain::<D>(v4.cursor, present(hs), qname, qclass, out)
                                && rrset_result::<D>(out, qclass, r),
                    },
                },
            },
        },
    }
}

/// Adding a header adds its owner name's cursor and marker to the views.
proof fn lemma_views_push<'a>(
    hs: Seq<Option<RecordHeaderRef<'a>>>,
    h: RecordHeaderRef<'a>,
    done: Seq<(CursorView, RecordMarker)>,
    x: (CursorView, RecordMarker),
)
    requires
        header_views(hs) == present(done),
        x == (h.name_ref@, h.marker),
    ensures
        header_views(hs.push(Some(h))) == present(done.push(x)),
{
    let a = header_views(hs.push(Some(h)));
    let b = present(done.push(x));
    assert(hs.len() == done.len()) by {
        assert(header_views(hs).len() == hs.len());
        assert(present(done).len() == done.len());
    }
    assert forall|i: int| 0 <= i < a.len() implies a[i] == b[i] by {
        if i < hs.len() {
            assert(header_views(hs)[i] == present(done)[i]);
        }
    }
    assert(a =~= b);
}

/// The records of one name, class and type that answer a question.
pub struct RecordSet<D: RData> {
    /// The name of the records, the last of a chain of aliases that starts at the question's
    /// name.
    pub name: Name,
    /// The class of the records.
    pub rclass: Class,
    /// The smallest time to live of the records.
    pub ttl: u32,
    /// The data of the records.
    pub rdata: Vec<D>,
}

impl<D: RData> RecordSet<D> {
    /// Returns the record type of the set.
    pub fn rtype() -> (t: u16)
        ensures
            t == D::spec_rtype(),
    {
        D::rtype_value()
    }

    /// Reads the record set that answers the question of the response `msg`, following the
    /// chain of aliases (`CNAME` records) of the answer section.
    ///
    /// # Errors
    ///
    /// [`Error::MessageTooLong`], the errors of reading the header, [`Error::BadMessageType`],
    /// [`Error::BadResponseCode`] and [`Error::MessageTruncated`] as the response's flags say;
    /// the errors of reading the question and the answer records; [`Error::NoAnswer`] when no
    /// record of the name, class and type is found.
    pub fn from_msg(msg: &[u8]) -> (r: Result<RecordSet<D>>)
        ensures
            msg@.len() > 0xFFFF ==> r == Err::<RecordSet<D>, Error>(
                Error::MessageTooLong(msg@.len() as usize),
            ),
            msg@.len() <= 0xFFFF ==> rrset_from_msg::<D>(msg@, r),
    {
        let mut mr = match MessageReader::new(msg) {
            Ok(m) => m,
            Err(e) => return Err(e),
        };
        let ghost v0 = mr@;
        proof {
            assert(v0 == reader_start(msg@));
        }
        let header = match mr.header() {
            Ok(h) => h,
            Err(e) => return Err(e),
        };
        let ghost v1 = mr@;
        match check_response(&header) {
            Ok(_) => {},
            Err(e) => return Err(e),
        }
        let question = match mr.question_ref() {
            Ok(q) => q,
            Err(e) => return Err(e),
        };
        let ghost v2 = mr@;
        proof {
            assert(question_ref_step(v1) == (
                Ok::<(CursorView, u16, u16), Error>((question.qname@, question.qtype@, question.qclass@)),
                v2,
            ));
            crate::message::reader::section_tracker::lemma_fill_len(
                seq![0u16, 0u16, 0u16],
                mr@.tracker.totals,
                0,
                mr@.cursor.pos as u16,
            );
        }
        match mr.skip_questions() {
            Ok(_) => {},
            Err(e) => return Err(e),
        }
        let ghost v3 = mr@;
        proof {
            assert(questions_skip_step(v2) == (Ok::<(), Error>(()), v3));
        }
        let mut headers = match RecordSet::<D>::read_answer_headers(&mut mr) {
            Ok(h) => h,
            Err(e) => return Err(e),
        };
        proof {
            assert(answer_headers_read(v3, left_through(v3.tracker, 0) as nat).1 == mr@);
            assert(answer_headers_read(v3, left_through(v3.tracker, 0) as nat).0 is Ok);
        }
        let rclass = Class::from(question.qclass.value());
        proof {
            Class::lemma_from_value(question.qclass@);
        }
        let ghost rd = mr@.cursor;
        let ghost hv = header_views(headers@);
        let r = RecordSet::<D>::follow_chain(&mr, headers, question.qname, rclass);
        proof {
            let out = choose|out: Result<(CursorView, u32, Seq<D>)>|
                #[trigger] rrset_chain::<D>(rd, hv, question.qname@, rclass@, out)
                    && rrset_result::<D>(out, rclass@, r);
            let hs = answer_headers_read(v3, left_through(v3.tracker, 0) as nat).0->Ok_0;
            assert(present(hs) == hv);
            assert(rrset_chain::<D>(rd, present(hs), question.qname@, question.qclass@, out));
            assert(rrset_result::<D>(out, question.qclass@, r));
            assert(header_step(reader_start(msg@)) == (Ok::<Header, Error>(header), v1));
            assert(response_error(header) is None);
            let v4 = answer_headers_read(v3, left_through(v3.tracker, 0) as nat).1;
            let q = question_ref_step(v1).0->Ok_0;
            assert(v4.cursor == rd);
            assert(q.0 == question.qname@);
            assert(q.2 == question.qclass@);
            assert(rrset_chain::<D>(v4.cursor, present(hs), q.0, q.2, out));
            assert(rrset_result::<D>(out, q.2, r));
        }
        r
    }

    /// Follows the chain of aliases from `qname` through `headers`, as [`rrset_chain`] says,
    /// and reads the name of the set found.
    fn follow_chain<'a>(
        mr: &MessageReader<'a>,
        headers: Vec<Option<RecordHeaderRef<'a>>>,
        qname: NameRef<'a>,
        rclass: Class,
    ) -> (r: Result<RecordSet<D>>)
        ensures
            exists|out: Result<(CursorView, u32, Seq<D>)>|
                #[trigger] rrset_chain::<D>(mr@.cursor, header_views(headers@), qname@, rclass@, out)
                    && rrset_result::<D>(out, rclass@, r),
    {
        let ghost rd = mr@.cursor;
        let ghost hv0 = header_views(headers@);
        let ghost n0 = qname@;
        let mut left = headers;
        let mut name = qname;
        let mut found: Option<RecordSet<D>> = None;
        let ghost mut path = seq![(hv0, n0)];
        while found.is_none()
            invariant
                rd == mr@.cursor,
                hv0 == header_views(headers@),
                n0 == qname@,
                chain_path::<D>(rd, rclass@, path),
                path.len() > 0,
                path[0] == (hv0, n0),
                found is None ==> path.last() == (header_views(left@), name@),
                found matches Some(rs) ==> chain_step::<D>(
                    rd,
                    rclass@,
                    path.last().0,
                    path.last().1,
                    ChainStep::<D>::Found(Ok((name@, rs.ttl, rs.rdata@))),
                ) && rs.rclass == rclass,
            decreases count_some(header_views(left@)) + if found is None {
                1int
            } else {
                0int
            },
        {
            let ghost hv = header_views(left@);
            let res = RecordSet::<D>::extract_rrset(mr, &mut left, &name, rclass);
            let ghost t = choose|t: Result<(Seq<Option<(CursorView, RecordMarker)>>, u32, Seq<D>)>|
                #[trigger] rrset_take::<D>(rd, hv, name@, rclass@, hv.len(), t) && match t {
                    Err(e) => res == Err::<Option<RecordSet<D>>, Error>(e),
                    Ok((rs, ttl, data)) => header_views(left@) == rs && if data.len() > 0 {
                        res matches Ok(Some(set)) && set.name@ == Seq::<u8>::empty() && set.rclass
                            == rclass && set.ttl == ttl && set.rdata@ == data
                    } else {
                        res == Ok::<Option<RecordSet<D>>, Error>(None)
                    },
                };
            match res {
                Ok(Some(rs)) => {
                    proof {
                        lemma_rrset_take_count::<D>(
                            rd,
                            hv,
                            name@,
                            rclass@,
                            hv.len(),
                            t->Ok_0.0,
                            t->Ok_0.1,
                            t->Ok_0.2,
                        );
                        assert(chain_step::<D>(
                            rd,
                            rclass@,
                            hv,
                            name@,
                            ChainStep::<D>::Found(Ok((name@, rs.ttl, rs.rdata@))),
                        ));
                    }
                    found = Some(rs);
                },
                Ok(None) => {
                    let ghost hv1 = header_views(left@);
                    proof {
                        lemma_rrset_take_count::<D>(
                            rd,
                            hv,
                            name@,
                            rclass@,
                            hv.len(),
                            hv1,
                            t->Ok_0.1,
                            t->Ok_0.2,
                        );
                        lemma_cname_find(hv1, name@, rclass@, 0);
                    }
                    match RecordSet::<D>::extract_cname(mr, &mut left, &name, rclass) {
                        Ok(Some(n)) => {
                            proof {
                                let k = cname_find(hv1, name@, rclass@, 0)->Ok_0->Some_0;
                                lemma_count_some_clear(hv1, k);
                                let next = (hv1.update(k, None), n@);
                                assert(chain_step::<D>(
                                    rd,
                                    rclass@,
                                    hv,
                                    name@,
                                    ChainStep::<D>::Next(next.0, next.1),
                                ));
                                lemma_chain_path_push::<D>(rd, rclass@, path, next);
                                path = path.push(next);
                            }
                            name = n;
                        },
                        Ok(None) => {
                            proof {
                                let out = Err::<(CursorView, u32, Seq<D>), Error>(Error::NoAnswer);
                                assert(chain_step::<D>(
                                    rd,
                                    rclass@,
                                    hv,
                                    name@,
                                    ChainStep::<D>::Found(out),
                                ));
                                assert(rrset_chain::<D>(rd, hv0, n0, rclass@, out));
                            }
                            return Err(Error::NoAnswer);
                        },
                        Err(e) => {
                            proof {
                                let out = Err::<(CursorView, u32, Seq<D>), Error>(e);
                                assert(chain_step::<D>(
                                    rd,
                                    rclass@,
                                    hv,
                                    name@,
                                    ChainStep::<D>::Found(out),
                                ));
                                assert(rrset_chain::<D>(rd, hv0, n0, rclass@, out));
                            }
                            return Err(e);
                        },
                    }
                },
                Err(e) => {
                    proof {
                        let out = Err::<(CursorView, u32, Seq<D>), Error>(e);
                        assert(chain_step::<D>(rd, rclass@, hv, name@, ChainStep::<D>::Found(out)));
                        assert(rrset_chain::<D>(rd, hv0, n0, rclass@, out));
                    }
                    return Err(e);
                },
            }
        }
        let mut rrset = match found {
            Some(rs) => rs,
            None => return Err(Error::NoAnswer),
        };
        let ghost out = Ok::<(CursorView, u32, Seq<D>), Error>((name@, rrset.ttl, rrset.rdata@));
        proof {
            assert(rrset_chain::<D>(rd, hv0, n0, rclass@, out));
        }
        match name.to_name() {
            Ok(n) => {
                rrset.name = n;
            },
            Err(e) => return Err(e),
        }
        Ok(rrset)
    }

    /// Reads the headers of the records of the answer section, which the reader stands at, as
    /// [`answer_headers_read`] says.
    fn read_answer_headers<'a>(mr: &mut MessageReader<'a>) -> (r: Result<Vec<Option<RecordHeaderRef<'a>>>>)
        requires
            tracker_consistent(old(mr)@.tracker),
        ensures
            match answer_headers_read(old(mr)@, left_through(old(mr)@.tracker, 0) as nat) {
                (Err(e), v) => r == Err::<Vec<Option<RecordHeaderRef<'a>>>, Error>(e) && final(mr)@
                    == v,
                (Ok(hs), v) => r matches Ok(headers) && header_views(headers@) == present(hs)
                    && final(mr)@ == v,
            },
    {
        let mut headers: Vec<Option<RecordHeaderRef<'a>>> = Vec::new();
        let ghost v0 = mr@;
        let ghost mut done_list: Seq<(CursorView, RecordMarker)> = Seq::empty();
        proof {
            lemma_left_through_bounds(mr@.tracker, 0);
            assert(header_views(headers@) =~= present(done_list));
            match answer_headers_read(v0, left_through(v0.tracker, 0) as nat) {
                (Ok(rest), _v) => {
                    assert(done_list + rest =~= rest);
                },
                _ => {},
            }
        }
        while mr.has_records_in(RecordsSection::Answer)
            invariant
                v0 == old(mr)@,
                tracker_consistent(mr@.tracker),
                left_through(mr@.tracker, 0) >= 0,
                header_views(headers@) == present(done_list),
                answer_headers_read(v0, left_through(v0.tracker, 0) as nat) == match answer_headers_read(
                    mr@,
                    left_through(mr@.tracker, 0) as nat,
                ) {
                    (Err(e), v) => (Err::<Seq<(CursorView, RecordMarker)>, Error>(e), v),
                    (Ok(rest), v) => (Ok::<Seq<(CursorView, RecordMarker)>, Error>(done_list + rest), v),
                },
            decreases left_through(mr@.tracker, 0),
        {
            let ghost v = mr@;
            let ghost t1 = mr@.tracker;
            proof {
                lemma_left_through_bounds(t1, 0);
            }
            proof {
                assert(!v.done);
                assert(v.tracker.reads[0] < v.tracker.totals[0]);
                assert(left_through(v.tracker, 0) > 0);
            }
            let h = match mr.record_header_ref() {
                Ok(h) => h,
                Err(e) => {
                    proof {
                        assert(marker_read(v).0 is Err);
                        assert(answer_headers_read(v, left_through(v.tracker, 0) as nat).0 == Err::<Seq<(CursorView, RecordMarker)>, Error>(e));
                    }
                    return Err(e);
                },
            };
            let ghost tm = mr@.tracker;
            proof {
                assert(h.name_ref@ == v.cursor);
                assert(marker_read(v).0 == Ok::<RecordMarker, Error>(h.marker));
                lemma_first_pending_some(t1, 0);
                crate::message::reader::section_tracker::lemma_first_pending_same(tm, t1, 0);
                crate::message::reader::message_reader::lemma_left_through_same(tm, t1, 0);
                lemma_left_through_step(tm, 0, h.marker.section, 0);
            }
            match mr.skip_record_data(h.marker()) {
                Ok(_) => {},
                Err(e) => return Err(e),
            }
            proof {
                lemma_left_through_step(tm, 0, h.marker.section, mr@.cursor.pos);
            }
            let ghost before = done_list;
            let ghost old_headers = headers@;
            headers.push(Some(h));
            proof {
                let x = (v.cursor, h.marker);
                lemma_views_push(old_headers, h, before, x);
                done_list = done_list.push(x);
                match answer_headers_read(mr@, left_through(mr@.tracker, 0) as nat) {
                    (Ok(rest), _v) => {
                        assert(before + (seq![x] + rest) =~= done_list + rest);
                    },
                    _ => {},
                }
            }
        }
        proof {
            assert(done_list + Seq::<(CursorView, RecordMarker)>::empty() =~= done_list);
        }
        Ok(headers)
    }

    /// Takes out of `headers` the records of `name`, `rclass` and the set's type, and reads
    /// their data, as [`rrset_take`] says; `None` when there are none.
    fn extract_rrset<'a>(
        mr: &MessageReader<'a>,
        headers: &mut Vec<Option<RecordHeaderRef<'a>>>,
        name: &NameRef<'a>,
        rclass: Class,
    ) -> (r: Result<Option<RecordSet<D>>>)
        ensures
            exists|t: Result<(Seq<Option<(CursorView, RecordMarker)>>, u32, Seq<D>)>|
                #[trigger] rrset_take::<D>(
                    mr@.cursor,
                    header_views(old(headers)@),
                    name@,
                    rclass@,
                    old(headers)@.len(),
                    t,
                ) && match t {
                    Err(e) => r == Err::<Option<RecordSet<D>>, Error>(e),
                    Ok((rs, ttl, data)) => header_views(final(headers)@) == rs && if data.len() > 0 {
                        r matches Ok(Some(set)) && set.name@ == Seq::<u8>::empty() && set.rclass
                            == rclass && set.ttl == ttl && set.rdata@ == data
                    } else {
                        r == Ok::<Option<RecordSet<D>>, Error>(None)
                    },
                },
    {
        let mut rrset = RecordSet { name: Name::new(), rclass, ttl: u32::MAX, rdata: Vec::new() };
        let rtype = D::rtype_value();
        let mut i: usize = 0;
        let ghost rd = mr@.cursor;
        let ghost h0 = header_views(headers@);
        let ghost init = Ok::<(Seq<Option<(CursorView, RecordMarker)>>, u32, Seq<D>), Error>(
            (h0, u32::MAX, Seq::empty()),
        );
        let ghost mut states = seq![init];
        proof {
            assert(rrset.rdata@ =~= Seq::<D>::empty());
        }
        while i < headers.len()
            invariant
                h0 == header_views(old(headers)@),
                rd == mr@.cursor,
                i <= headers@.len(),
                headers@.len() == h0.len(),
                rtype == D::spec_rtype(),
                rrset_run::<D>(rd, name@, rclass@, states),
                states.len() == i + 1,
                states[0] == init,
                init == Ok::<(Seq<Option<(CursorView, RecordMarker)>>, u32, Seq<D>), Error>(
                    (h0, u32::MAX, Seq::empty()),
                ),
                states[i as int] == Ok::<(Seq<Option<(CursorView, RecordMarker)>>, u32, Seq<D>), Error>(
                    (header_views(headers@), rrset.ttl, rrset.rdata@),
                ),
                rrset.rclass == rclass,
                rrset.name@ == Seq::<u8>::empty(),
            decreases headers@.len() - i,
        {
            let ghost hv = header_views(headers@);
            let ghost prev = states[i as int];
            let o = headers[i];
            proof {
                assert(hv[i as int] == match o {
                    Some(h) => Some((h.name_ref@, h.marker)),
                    None => None::<(CursorView, RecordMarker)>,
                });
            }
            match o {
                Some(h) => {
                    let same_name = match h.name().eq(name) {
                        Ok(b) => b,
                        Err(e) => {
                            proof {
                                let out = Err::<
                                    (Seq<Option<(CursorView, RecordMarker)>>, u32, Seq<D>),
                                    Error,
                                >(e);
                                assert(rrset_step::<D>(rd, name@, rclass@, i as int, prev, out));
                                lemma_rrset_run_push::<D>(rd, name@, rclass@, states, out);
                                lemma_rrset_err_to::<D>(
                                    rd,
                                    h0,
                                    name@,
                                    rclass@,
                                    states.push(out),
                                    e,
                                    h0.len(),
                                );
                            }
                            return Err(e);
                        },
                    };
                    if same_name && h.rtype().value() == rtype && h.rclass().value()
                        == rclass.value() && h.marker.offset.type_offset <= usize::MAX
                        - TYPE_TO_RDATA_OFFSET {
                        let ghost old_data = rrset.rdata@;
                        if h.ttl() < rrset.ttl {
                            rrset.ttl = h.ttl();
                        }
                        let res = mr.record_data_at::<D>(h.marker());
                        let ghost c2 = choose|c2: CursorView|
                            #[trigger] D::read_outcome(
                                rd.at(h.marker.offset.type_offset + TYPE_TO_RDATA_OFFSET),
                                h.marker.rdlen as int,
                                res,
                                c2,
                            );
                        proof {
                            assert(D::read_outcome(
                                data_cursor(rd, h.marker),
                                h.marker.rdlen as int,
                                res,
                                c2,
                            ));
                        }
                        let d = match res {
                            Ok(d) => d,
                            Err(e) => {
                                proof {
                                    let out = Err::<
                                        (Seq<Option<(CursorView, RecordMarker)>>, u32, Seq<D>),
                                        Error,
                                    >(e);
                                    assert(rrset_step::<D>(rd, name@, rclass@, i as int, prev, out));
                                    lemma_rrset_run_push::<D>(rd, name@, rclass@, states, out);
                                    lemma_rrset_err_to::<D>(
                                        rd,
                                        h0,
                                        name@,
                                        rclass@,
                                        states.push(out),
                                        e,
                                        h0.len(),
                                    );
                                }
                                return Err(e);
                            },
                        };
                        rrset.rdata.push(d);
                        headers.set(i, None);
                        proof {
                            assert(header_views(headers@) =~= hv.update(i as int, None));
                            let out = Ok::<(Seq<Option<(CursorView, RecordMarker)>>, u32, Seq<D>), Error>(
                                (header_views(headers@), rrset.ttl, rrset.rdata@),
                            );
                            assert(rrset.rdata@ == old_data.push(d));
                            assert(rrset_step::<D>(rd, name@, rclass@, i as int, prev, out));
                            lemma_rrset_run_push::<D>(rd, name@, rclass@, states, out);
                            states = states.push(out);
                        }
                    } else {
                        proof {
                            assert(rrset_step::<D>(rd, name@, rclass@, i as int, prev, prev));
                            lemma_rrset_run_push::<D>(rd, name@, rclass@, states, prev);
                            states = states.push(prev);
                        }
                    }
                },
                None => {
                    proof {
                        assert(rrset_step::<D>(rd, name@, rclass@, i as int, prev, prev));
                        lemma_rrset_run_push::<D>(rd, name@, rclass@, states, prev);
                        states = states.push(prev);
                    }
                },
            }
            i = i + 1;
        }
        proof {
            assert(rrset_take::<D>(rd, h0, name@, rclass@, h0.len(), states[h0.len() as int]));
        }
        if rrset.rdata.len() > 0 {
            Ok(Some(rrset))
        } else {
            Ok(None)
        }
    }

    /// Takes out of `headers` the first alias record (`CNAME`) of `name` and `rclass`, as
    /// [`cname_find`] says, and returns the name that starts its data; `None` when there is
    /// none.
    fn extract_cname<'a>(
        mr: &MessageReader<'a>,
        headers: &mut Vec<Option<RecordHeaderRef<'a>>>,
        name: &NameRef<'a>,
        rclass: Class,
    ) -> (r: Result<Option<NameRef<'a>>>)
        ensures
            match cname_find(header_views(old(headers)@), name@, rclass@, 0) {
                Err(e) => r == Err::<Option<NameRef<'a>>, Error>(e),
                Ok(None) => r == Ok::<Option<NameRef<'a>>, Error>(None) && final(headers)@ == old(
                    headers,
                )@,
                Ok(Some(k)) => r matches Ok(Some(n)) && n@ == data_cursor(
                    mr@.cursor,
                    (header_views(old(headers)@)[k]->0).1,
                ) && header_views(final(headers)@) == header_views(old(headers)@).update(
                    k,
                    None,
                ),
            },
    {
        let mut i: usize = 0;
        let ghost h0 = header_views(headers@);
        while i < headers.len()
            invariant
                h0 == header_views(old(headers)@),
                i <= headers@.len(),
                headers@ == old(headers)@,
                cname_find(h0, name@, rclass@, 0) == cname_find(h0, name@, rclass@, i as int),
            decreases headers@.len() - i,
        {
            let o = headers[i];
            proof {
                assert(h0[i as int] == match o {
                    Some(h) => Some((h.name_ref@, h.marker)),
                    None => None::<(CursorView, RecordMarker)>,
                });
            }
            match o {
                Some(h) => {
                    let same_name = match h.name().eq(name) {
                        Ok(b) => b,
                        Err(e) => return Err(e),
                    };
                    if same_name && h.rtype().value() == crate::records::rtype::Type::CNAME
                        && h.rclass().value() == rclass.value() && h.marker.offset.type_offset
                        <= usize::MAX - TYPE_TO_RDATA_OFFSET {
                        let n = mr.name_ref_at(h.marker());
                        headers.set(i, None);
                        proof {
                            assert(header_views(headers@) =~= h0.update(i as int, None));
                        }
                        return Ok(Some(n));
                    }
                },
                None => {},
            }
            i = i + 1;
        }
        Ok(None)
    }
}

/// A run of steps extended by one more step is a run.
pub proof fn lemma_rrset_run_push<D: RData>(
    rd: CursorView,
    name: CursorView,
    cl: u16,
    states: Seq<Result<(Seq<Option<(CursorView, RecordMarker)>>, u32, Seq<D>)>>,
    next: Result<(Seq<Option<(CursorView, RecordMarker)>>, u32, Seq<D>)>,
)
    requires
        states.len() > 0,
        rrset_run::<D>(rd, name, cl, states),
        rrset_step::<D>(rd, name, cl, states.len() - 1, states.last(), next),
    ensures
        rrset_run::<D>(rd, name, cl, states.push(next)),
{
    let s2 = states.push(next);
    assert forall|j: int| 0 <= j < s2.len() - 1 implies #[trigger] rrset_step::<D>(
        rd,
        name,
        cl,
        j,
        s2[j],
        s2[j + 1],
    ) by {
        if j < states.len() - 1 {
            assert(rrset_step::<D>(rd, name, cl, j, states[j], states[j + 1]));
        }
    }
}

/// A run that fails at its end takes records out of `n` headers with the same error, for any
/// `n` from its length on.
pub proof fn lemma_rrset_err_to<D: RData>(
    rd: CursorView,
    hs: Seq<Option<(CursorView, RecordMarker)>>,
    name: CursorView,
    cl: u16,
    states: Seq<Result<(Seq<Option<(CursorView, RecordMarker)>>, u32, Seq<D>)>>,
    e: Error,
    n: nat,
)
    requires
        states.len() > 0,
        states.len() - 1 <= n,
        rrset_run::<D>(rd, name, cl, states),
        states[0] == Ok::<(Seq<Option<(CursorView, RecordMarker)>>, u32, Seq<D>), Error>(
            (hs, u32::MAX, Seq::empty()),
        ),
        states.last() == Err::<(Seq<Option<(CursorView, RecordMarker)>>, u32, Seq<D>), Error>(e),
    ensures
        rrset_take::<D>(rd, hs, name, cl, n, Err(e)),
    decreases n - (states.len() - 1),
{
    if states.len() - 1 == n {
        assert(rrset_run::<D>(rd, name, cl, states));
    } else {
        let out = Err::<(Seq<Option<(CursorView, RecordMarker)>>, u32, Seq<D>), Error>(e);
        assert(rrset_step::<D>(rd, name, cl, states.len() - 1, states.last(), out));
        lemma_rrset_run_push::<D>(rd, name, cl, states, out);
        lemma_rrset_err_to::<D>(rd, hs, name, cl, states.push(out), e, n);
    }
}

/// Along a run, each outcome that succeeds keeps the headers and has turned one present
/// header into one data read for each record taken.
proof fn lemma_rrset_states_count<D: RData>(
    rd: CursorView,
    hs: Seq<Option<(CursorView, RecordMarker)>>,
    name: CursorView,
    cl: u16,
    states: Seq<Result<(Seq<Option<(CursorView, RecordMarker)>>, u32, Seq<D>)>>,
    j: int,
)
    requires
        rrset_run::<D>(rd, name, cl, states),
        states.len() > 0,
        states[0] == Ok::<(Seq<Option<(CursorView, RecordMarker)>>, u32, Seq<D>), Error>(
            (hs, u32::MAX, Seq::empty()),
        ),
        0 <= j < states.len(),
        j <= hs.len(),
    ensures
        states[j] matches Ok((rs, _ttl, data)) ==> rs.len() == hs.len() && count_some(rs)
            + data.len() == count_some(hs),
    decreases j,
{
    if j > 0 {
        lemma_rrset_states_count::<D>(rd, hs, name, cl, states, j - 1);
        let k = j - 1;
        assert(rrset_step::<D>(rd, name, cl, k, states[k], states[k + 1]));
        assert(k + 1 == j);
        match states[j - 1] {
            Err(_) => {},
            Ok((ps, pt, pd)) => {
                lemma_count_some_clear(ps, j - 1);
            },
        }
    }
}

/// Taking records out keeps the headers and turns one present header into one data read for
/// each record taken.
pub proof fn lemma_rrset_take_count<D: RData>(
    rd: CursorView,
    hs: Seq<Option<(CursorView, RecordMarker)>>,
    name: CursorView,
    cl: u16,
    n: nat,
    rs: Seq<Option<(CursorView, RecordMarker)>>,
    ttl: u32,
    data: Seq<D>,
)
    requires
        n <= hs.len(),
        rrset_take::<D>(rd, hs, name, cl, n, Ok((rs, ttl, data))),
    ensures
        rs.len() == hs.len(),
        count_some(rs) + data.len() == count_some(hs),
{
    let states = choose|states: Seq<Result<(Seq<Option<(CursorView, RecordMarker)>>, u32, Seq<D>)>>|
        #[trigger] rrset_run::<D>(rd, name, cl, states) && states.len() == n + 1 && states[0]
            == Ok::<(Seq<Option<(CursorView, RecordMarker)>>, u32, Seq<D>), Error>(
            (hs, u32::MAX, Seq::empty()),
        ) && states[n as int] == Ok::<(Seq<Option<(CursorView, RecordMarker)>>, u32, Seq<D>), Error>(
            (rs, ttl, data),
        );
    lemma_rrset_states_count::<D>(rd, hs, name, cl, states, n as int);
}

/// The alias record found is a present header of the right type and class.
pub proof fn lemma_cname_find(hs: Seq<Option<(CursorView, RecordMarker)>>, name: CursorView, cl: u16, i: int)
    ensures
        cname_find(hs, name, cl, i) matches Ok(Some(k)) ==> 0 <= i <= k < hs.len() && hs[k] is Some
            && header_wanted(hs[k], Type::CNAME, cl),
    decreases hs.len() - i,
{
    if 0 <= i < hs.len() {
        lemma_cname_find(hs, name, cl, i + 1);
    }
}

/// The number of entries of `s` that hold something.
pub open spec fn count_some<T>(s: Seq<Option<T>>) -> nat
    decreases s.len(),
{
    if s.len() == 0 {
        0
    } else {
        count_some(s.drop_last()) + if s.last() is Some {
            1nat
        } else {
            0nat
        }
    }
}

/// Emptying an entry that held something leaves one entry fewer holding something; emptying
/// any entry leaves no more.
pub proof fn lemma_count_some_clear<T>(s: Seq<Option<T>>, i: int)
    requires
        0 <= i < s.len(),
    ensures
        s[i] is Some ==> count_some(s.update(i, None)) + 1 == count_some(s),
        count_some(s.update(i, None)) <= count_some(s),
    decreases s.len(),
{
    let t = s.update(i, None);
    if i == s.len() - 1 {
        assert(t.drop_last() =~= s.drop_last());
    } else {
        lemma_count_some_clear(s.drop_last(), i);
        assert(t.drop_last() =~= s.drop_last().update(i, None));
    }
}

} // verus!
