//! Bookkeeping of the questions and records read from a message, and of section offsets.

use vstd::prelude::*;

use crate::message::header::Header;
use crate::message::records_section::{section_at, section_index, RecordsSection};

verus! {

/// The abstract state of a [`SectionTracker`]; each sequence holds one entry per records
/// section, in message order.
pub struct TrackerView {
    /// The number of questions in the message.
    pub qd_total: u16,
    /// The number of questions read.
    pub qd_read: u16,
    /// The number of records in each section.
    pub totals: Seq<u16>,
    /// The number of records read in each section.
    pub reads: Seq<u16>,
    /// The offset of each section, zero while unknown.
    pub offsets: Seq<u16>,
}

impl TrackerView {
    /// The sequences have one entry per section.
    pub open spec fn wf(self) -> bool {
        self.totals.len() == 3 && self.reads.len() == 3 && self.offsets.len() == 3
    }
}

/// The offsets after recording `pos` as the offset of section `p` and of the sections before
/// it, going back while they are empty and have no offset.
pub open spec fn fill_back(offsets: Seq<u16>, totals: Seq<u16>, p: int, pos: u16) -> Seq<u16>
    decreases p + 1,
{
    if p < 0 {
        offsets
    } else if offsets[p] == 0 && totals[p] == 0 {
        fill_back(offsets.update(p, pos), totals, p - 1, pos)
    } else {
        offsets
    }
}

/// The offsets after recording `pos` as the offset of section `n` and of the sections after
/// it, going on while they have no offset and the one just set is empty.
pub open spec fn fill_forward(offsets: Seq<u16>, totals: Seq<u16>, n: int, pos: u16) -> Seq<u16>
    decreases 3 - n,
{
    if n >= 3 || n < 0 {
        offsets
    } else if offsets[n] == 0 {
        if totals[n] != 0 {
            offsets.update(n, pos)
        } else {
            fill_forward(offsets.update(n, pos), totals, n + 1, pos)
        }
    } else {
        offsets
    }
}

/// The first section from `s` on with records left to read.
pub open spec fn first_pending(v: TrackerView, s: int) -> Option<int>
    decreases 3 - s,
{
    if s >= 3 || s < 0 {
        None
    } else if v.reads[s] < v.totals[s] {
        Some(s)
    } else {
        first_pending(v, s + 1)
    }
}

/// The first section from `s` on with records left has records left, and stands at `s` or
/// after.
pub proof fn lemma_first_pending_some(v: TrackerView, s: int)
    ensures
        first_pending(v, s) matches Some(f) ==> s <= f < 3 && v.reads[f] < v.totals[f],
    decreases 3 - s,
{
    if 0 <= s < 3 && v.reads[s] >= v.totals[s] {
        lemma_first_pending_some(v, s + 1);
    }
}

/// Recording offsets keeps one offset per section.
pub proof fn lemma_fill_len(offsets: Seq<u16>, totals: Seq<u16>, n: int, pos: u16)
    requires
        offsets.len() == 3,
        totals.len() == 3,
    ensures
        fill_forward(offsets, totals, n, pos).len() == 3,
    decreases 3 - n,
{
    if 0 <= n < 3 && offsets[n] == 0 && totals[n] == 0 {
        lemma_fill_len(offsets.update(n, pos), totals, n + 1, pos);
    }
}

/// Recording offsets backwards keeps one offset per section.
pub proof fn lemma_fill_back_len(offsets: Seq<u16>, totals: Seq<u16>, p: int, pos: u16)
    requires
        offsets.len() == 3,
        totals.len() == 3,
        p < 3,
    ensures
        fill_back(offsets, totals, p, pos).len() == 3,
    decreases p + 1,
{
    if p >= 0 && offsets[p] == 0 && totals[p] == 0 {
        lemma_fill_back_len(offsets.update(p, pos), totals, p - 1, pos);
    }
}

/// The first section with records left depends on the counts only.
pub proof fn lemma_first_pending_same(a: TrackerView, b: TrackerView, s: int)
    requires
        a.reads == b.reads,
        a.totals == b.totals,
    ensures
        first_pending(a, s) == first_pending(b, s),
    decreases 3 - s,
{
    if 0 <= s < 3 && a.reads[s] >= a.totals[s] {
        lemma_first_pending_same(a, b, s + 1);
    }
}

/// The outcome of looking for the section of the next record at `pos`: the first section with
/// records left, whose offset is recorded if this is its first record, and before which empty
/// sections get the same offset.
pub open spec fn next_section_spec(v: TrackerView, pos: u16) -> (Option<RecordsSection>, TrackerView) {
    match first_pending(v, 0) {
        None => (None, v),
        Some(s) => {
            let o1 = if v.reads[s] == 0 && v.offsets[s] == 0 {
                v.offsets.update(s, pos)
            } else {
                v.offsets
            };
            (Some(section_at(s)), TrackerView { offsets: fill_back(o1, v.totals, s - 1, pos), ..v })
        },
    }
}

/// The tracker after its counts are set from a header.
pub open spec fn tracker_set(v: TrackerView, header: Header) -> TrackerView {
    TrackerView {
        qd_total: header.qd_count,
        totals: seq![header.an_count, header.ns_count, header.ar_count],
        ..v
    }
}

/// The tracker after a seek to `section`: the sections before it read, the others unread.
pub open spec fn tracker_seek(v: TrackerView, section: RecordsSection) -> TrackerView {
    TrackerView {
        reads: Seq::new(
            3,
            |s: int|
                if s < section_index(section) {
                    v.totals[s]
                } else {
                    0u16
                },
        ),
        ..v
    }
}

/// The tracker after a record of `section` was read, `pos` being the position after it.
pub open spec fn tracker_section_read(v: TrackerView, section: RecordsSection, pos: usize) -> TrackerView {
    let i = section_index(section);
    let reads = v.reads.update(i, (v.reads[i] + 1) as u16);
    TrackerView {
        reads,
        offsets: if v.totals[i] == reads[i] {
            fill_forward(v.offsets, v.totals, i + 1, pos as u16)
        } else {
            v.offsets
        },
        ..v
    }
}

/// The tracker after a question was read, `pos` being the position after it.
pub open spec fn tracker_question_read(v: TrackerView, pos: usize) -> TrackerView {
    let qd_read = (v.qd_read + 1) as u16;
    TrackerView {
        qd_read,
        offsets: if v.qd_total == qd_read {
            fill_forward(v.offsets, v.totals, 0, pos as u16)
        } else {
            v.offsets
        },
        ..v
    }
}

/// No section has more records read than it holds, and no more questions were read than the
/// message holds.
pub open spec fn tracker_consistent(v: TrackerView) -> bool {
    &&& v.wf()
    &&& v.qd_read <= v.qd_total
    &&& forall|s: int| 0 <= s < 3 ==> v.reads[s] <= v.totals[s]
}

/// The sum of the records left to read in sections `s` and after.
pub open spec fn left_from(v: TrackerView, s: int) -> int
    decreases 3 - s,
{
    if s >= 3 || s < 0 {
        0
    } else {
        (v.totals[s] - v.reads[s]) + left_from(v, s + 1)
    }
}

/// Bookkeeping of the questions and records read from a message: how many of each section
/// were read, and the offsets of the records sections once they are known.
#[derive(Debug, Clone, Copy)]
pub struct SectionTracker {
    qd_total: u16,
    qd_read: u16,
    totals: [u16; 3],
    reads: [u16; 3],
    offsets: [u16; 3],
}

impl Default for SectionTracker {
    fn default() -> (t: SectionTracker)
        ensures
            t@ == (TrackerView {
                qd_total: 0,
                qd_read: 0,
                totals: seq![0u16, 0u16, 0u16],
                reads: seq![0u16, 0u16, 0u16],
                offsets: seq![0u16, 0u16, 0u16],
            }),
    {
        let t = SectionTracker {
            qd_total: 0,
            qd_read: 0,
            totals: [0, 0, 0],
            reads: [0, 0, 0],
            offsets: [0, 0, 0],
        };
        assert(t.totals@ =~= seq![0u16, 0u16, 0u16]);
        assert(t.reads@ =~= seq![0u16, 0u16, 0u16]);
        assert(t.offsets@ =~= seq![0u16, 0u16, 0u16]);
        t
    }
}

impl View for SectionTracker {
    type V = TrackerView;

    closed spec fn view(&self) -> TrackerView {
        TrackerView {
            qd_total: self.qd_total,
            qd_read: self.qd_read,
            totals: self.totals@,
            reads: self.reads@,
            offsets: self.offsets@,
        }
    }
}

impl SectionTracker {
    /// The sequences of a tracker have one entry per section.
    pub proof fn lemma_wf(&self)
        ensures
            self@.wf(),
    {
    }

    /// Creates a tracker for a message with the counts of `header`, nothing read yet.
    pub fn new(header: &Header) -> (t: SectionTracker)
        ensures
            t@ == (TrackerView {
                qd_total: header.qd_count,
                qd_read: 0,
                totals: seq![header.an_count, header.ns_count, header.ar_count],
                reads: seq![0u16, 0u16, 0u16],
                offsets: seq![0u16, 0u16, 0u16],
            }),
    {
        let t = SectionTracker {
            qd_total: header.qd_count,
            qd_read: 0,
            totals: [header.an_count, header.ns_count, header.ar_count],
            reads: [0, 0, 0],
            offsets: [0, 0, 0],
        };
        assert(t.totals@ =~= seq![header.an_count, header.ns_count, header.ar_count]);
        assert(t.reads@ =~= seq![0u16, 0u16, 0u16]);
        assert(t.offsets@ =~= seq![0u16, 0u16, 0u16]);
        t
    }

    /// Sets the counts from `header`; what was read and the offsets are kept.
    pub fn set(&mut self, header: &Header)
        ensures
            final(self)@ == tracker_set(old(self)@, *header),
    {
        self.qd_total = header.qd_count;
        self.totals = [header.an_count, header.ns_count, header.ar_count];
        assert(self.totals@ =~= seq![header.an_count, header.ns_count, header.ar_count]);
    }

    /// Finds the section of the next record, which starts at `pos`, and records the offsets
    /// this reveals, as [`next_section_spec`] describes; `None` when all records were read.
    ///
    /// Offsets are 16-bit: `pos` is taken modulo 65536.
    pub fn next_section(&mut self, pos: usize) -> (r: Option<RecordsSection>)
        ensures
            (r, final(self)@) == next_section_spec(old(self)@, pos as u16),
    {
        let p16 = pos as u16;
        let ghost v0 = self@;
        let mut s: usize = 0;
        while s < 3
            invariant
                s <= 3,
                self@ == v0,
                v0 == old(self)@,
                p16 == pos as u16,
                v0.wf(),
                first_pending(v0, 0) == first_pending(v0, s as int),
            decreases 3 - s,
        {
            if self.reads[s] < self.totals[s] {
                if self.reads[s] == 0 && self.offsets[s] == 0 {
                    self.offsets[s] = p16;
                }
                let ghost o1 = self.offsets@;
                assert(first_pending(v0, 0) == Some(s as int));
                let mut p: usize = s;
                while p > 0
                    invariant
                        p <= s,
                        s < 3,
                        v0 == old(self)@,
                        p16 == pos as u16,
                        first_pending(v0, 0) == Some(s as int),
                        o1 == (if v0.reads[s as int] == 0 && v0.offsets[s as int] == 0 {
                            v0.offsets.update(s as int, p16)
                        } else {
                            v0.offsets
                        }),
                        self.offsets@.len() == 3,
                        self.totals@ == v0.totals,
                        self.reads@ == v0.reads,
                        self.qd_total == v0.qd_total,
                        self.qd_read == v0.qd_read,
                        fill_back(o1, v0.totals, s - 1, p16) == fill_back(
                            self.offsets@,
                            v0.totals,
                            p - 1,
                            p16,
                        ),
                    decreases p,
                {
                    if self.offsets[p - 1] == 0 && self.totals[p - 1] == 0 {
                        self.offsets[p - 1] = p16;
                        p = p - 1;
                    } else {
                        p = 0;
                    }
                }
                return Some(RecordsSection::at(s));
            }
            s = s + 1;
        }
        None
    }

    /// Returns the offset of a section, where it is known.
    pub fn section_offset(&self, section: RecordsSection) -> (r: Option<usize>)
        ensures
            r == (if self@.offsets[section_index(section)] != 0 {
                Some(self@.offsets[section_index(section)] as usize)
            } else {
                None
            }),
    {
        let i = section.index();
        if self.offsets[i] != 0 {
            Some(self.offsets[i] as usize)
        } else {
            None
        }
    }

    /// Marks the sections before `section` as read and the others as unread.
    pub fn seek(&mut self, section: RecordsSection)
        ensures
            final(self)@ == tracker_seek(old(self)@, section),
    {
        let idx = section.index();
        let mut s: usize = 0;
        let ghost v0 = self@;
        while s < 3
            invariant
                s <= 3,
                idx == section_index(section),
                self.totals@ == v0.totals,
                self.offsets@ == v0.offsets,
                self.qd_total == v0.qd_total,
                self.qd_read == v0.qd_read,
                self.reads@.len() == 3,
                v0.wf(),
                forall|k: int|
                    0 <= k < s ==> self.reads@[k] == (if k < idx {
                        v0.totals[k]
                    } else {
                        0u16
                    }),
            decreases 3 - s,
        {
            if s < idx {
                self.reads[s] = self.totals[s];
            } else {
                self.reads[s] = 0;
            }
            s = s + 1;
        }
        assert(self.reads@ =~= Seq::new(
            3,
            |k: int|
                if k < section_index(section) {
                    v0.totals[k]
                } else {
                    0u16
                },
        ));
    }

    /// Records a record of `section` as read; `pos` is the position after it. When it was the
    /// last record of the section, `pos` is recorded as the offset of the next sections, as
    /// [`fill_forward`] describes.
    pub fn section_read(&mut self, section: RecordsSection, pos: usize)
        requires
            old(self)@.reads[section_index(section)] < u16::MAX,
        ensures
            final(self)@ == tracker_section_read(old(self)@, section, pos),
    {
        let i = section.index();
        self.reads[i] = self.reads[i] + 1;
        if self.totals[i] == self.reads[i] {
            self.fill_forward(i + 1, pos as u16);
        }
    }

    /// Records `pos` as the offset of section `n` and of the following ones, as
    /// [`fill_forward`] describes.
    fn fill_forward(&mut self, n: usize, pos: u16)
        requires
            n <= 3,
        ensures
            final(self)@ == (TrackerView {
                offsets: fill_forward(old(self)@.offsets, old(self)@.totals, n as int, pos),
                ..old(self)@
            }),
    {
        let ghost v0 = self@;
        let mut k: usize = n;
        while k < 3
            invariant
                n <= k <= 3,
                self.totals@ == v0.totals,
                self.reads@ == v0.reads,
                self.qd_total == v0.qd_total,
                self.qd_read == v0.qd_read,
                self.offsets@.len() == 3,
                v0.wf(),
                fill_forward(v0.offsets, v0.totals, n as int, pos) == fill_forward(
                    self.offsets@,
                    v0.totals,
                    k as int,
                    pos,
                ),
            decreases 3 - k,
        {
            if self.offsets[k] == 0 {
                self.offsets[k] = pos;
                if self.totals[k] != 0 {
                    k = 3;
                } else {
                    k = k + 1;
                }
            } else {
                k = 3;
            }
        }
    }

    /// Records a question as read; `pos` is the position after it. When it was the last
    /// question, `pos` is recorded as the offset of the first sections, as [`fill_forward`]
    /// describes.
    pub fn question_read(&mut self, pos: usize)
        requires
            old(self)@.qd_read < u16::MAX,
        ensures
            final(self)@ == tracker_question_read(old(self)@, pos),
    {
        self.qd_read = self.qd_read + 1;
        if self.qd_total == self.qd_read {
            self.fill_forward(0, pos as u16);
        }
    }

    /// Returns the number of records left to read in all sections.
    pub fn records_left(&self) -> (r: usize)
        requires
            forall|s: int| 0 <= s < 3 ==> self@.reads[s] <= self@.totals[s],
        ensures
            r == left_from(self@, 0),
    {
        let mut acc: usize = 0;
        let mut s: usize = 3;
        while s > 0
            invariant
                s <= 3,
                self@.wf(),
                forall|k: int| 0 <= k < 3 ==> self@.reads[k] <= self@.totals[k],
                acc == left_from(self@, s as int),
                acc <= (3 - s) * 0xFFFF,
            decreases s,
        {
            s = s - 1;
            acc = acc + (self.totals[s] - self.reads[s]) as usize;
        }
        acc
    }

    /// Returns the number of records left to read in a section.
    pub fn records_left_in(&self, section: RecordsSection) -> (r: usize)
        requires
            self@.reads[section_index(section)] <= self@.totals[section_index(section)],
        ensures
            r == self@.totals[section_index(section)] - self@.reads[section_index(section)],
    {
        let i = section.index();
        (self.totals[i] - self.reads[i]) as usize
    }

    /// Returns the number of questions of the message, as its header gives it.
    pub(crate) fn questions_total(&self) -> (r: u16)
        ensures
            r == self@.qd_total,
    {
        self.qd_total
    }

    /// Returns the number of questions left to read.
    pub fn questions_left(&self) -> (r: usize)
        requires
            self@.qd_read <= self@.qd_total,
        ensures
            r == self@.qd_total - self@.qd_read,
    {
        (self.qd_total - self.qd_read) as usize
    }
}

} // verus!
