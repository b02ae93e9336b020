//! An iterator over the questions of a message.

use vstd::prelude::*;

use crate::bytes::{Cursor, CursorView, Reader};
use crate::errors::Result;
use crate::message::question::Question;

verus! {

/// The abstract state of [`Questions`].
pub struct QuestionsView {
    /// The cursor at the next question.
    pub cursor: CursorView,
    /// Whether a read failed.
    pub err: bool,
    /// The number of questions in the message.
    pub qd_count: u16,
    /// The number of questions read.
    pub qd_read: u16,
}

/// An iterator over the questions of a message; it stops after the first error.
pub struct Questions<'a> {
    cursor: Cursor<'a>,
    err: bool,
    qd_count: u16,
    qd_read: u16,
}

impl<'a> View for Questions<'a> {
    type V = QuestionsView;

    closed spec fn view(&self) -> QuestionsView {
        QuestionsView {
            cursor: self.cursor@,
            err: self.err,
            qd_count: self.qd_count,
            qd_read: self.qd_read,
        }
    }
}

impl<'a> Questions<'a> {
    #[verifier::type_invariant]
    spec fn inv(&self) -> bool {
        self.qd_read <= self.qd_count
    }

    /// Creates an iterator over `qd_count` questions starting at the cursor.
    pub(crate) fn new(cursor: Cursor<'a>, qd_count: u16) -> (q: Questions<'a>)
        ensures
            q@ == (QuestionsView { cursor: cursor@, err: false, qd_count, qd_read: 0 }),
    {
        Questions { cursor, err: false, qd_count, qd_read: 0 }
    }

    /// Reads the next question; `None` once all were read or a read failed.
    pub fn next(&mut self) -> (r: Option<Result<Question>>)
        ensures
            old(self)@.err || old(self)@.qd_read == old(self)@.qd_count ==> r is None && final(self)@
                == old(self)@,
            !old(self)@.err && old(self)@.qd_read < old(self)@.qd_count ==> (r matches Some(res)
                && Question::read_outcome(old(self)@.cursor, res, final(self)@.cursor)
                && final(self)@.qd_count == old(self)@.qd_count && (if res is Ok {
                final(self)@.qd_read == old(self)@.qd_read + 1 && !final(self)@.err
            } else {
                final(self)@.qd_read == old(self)@.qd_read && final(self)@.err
            })),
    {
        proof {
            use_type_invariant(&*self);
        }
        if self.err || self.qd_read == self.qd_count {
            return None;
        }
        let mut c = self.cursor;
        let res: Result<Question> = c.read();
        match res {
            Ok(_) => {
                *self = Questions {
                    cursor: c,
                    err: self.err,
                    qd_count: self.qd_count,
                    qd_read: self.qd_read + 1,
                };
            },
            Err(_) => {
                *self = Questions {
                    cursor: c,
                    err: true,
                    qd_count: self.qd_count,
                    qd_read: self.qd_read,
                };
            },
        }
        Some(res)
    }
}

} // verus!
