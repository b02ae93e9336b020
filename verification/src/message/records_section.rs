//! The sections of a DNS message that hold resource records.

use vstd::prelude::*;

verus! {

/// A section of a DNS message that holds resource records.
#[derive(Copy, Clone, PartialEq, Eq, Structural, PartialOrd, Ord, Hash, Debug)]
pub enum RecordsSection {
    /// The answer section.
    Answer,
    /// The authority section.
    Authority,
    /// The additional section.
    Additional,
}

/// The position of a section in a message: answer 0, authority 1, additional 2.
pub open spec fn section_index(s: RecordsSection) -> int {
    match s {
        RecordsSection::Answer => 0,
        RecordsSection::Authority => 1,
        RecordsSection::Additional => 2,
    }
}

/// The section at a position in a message.
pub open spec fn section_at(i: int) -> RecordsSection {
    if i == 0 {
        RecordsSection::Answer
    } else if i == 1 {
        RecordsSection::Authority
    } else {
        RecordsSection::Additional
    }
}

impl RecordsSection {
    /// Returns the position of the section in a message: answer 0, authority 1, additional 2.
    pub fn index(self) -> (r: usize)
        ensures
            r == section_index(self),
    {
        match self {
            RecordsSection::Answer => 0,
            RecordsSection::Authority => 1,
            RecordsSection::Additional => 2,
        }
    }

    /// Returns the section at a position in a message.
    pub fn at(i: usize) -> (r: RecordsSection)
        requires
            i < 3,
        ensures
            r == section_at(i as int),
            section_index(r) == i,
    {
        if i == 0 {
            RecordsSection::Answer
        } else if i == 1 {
            RecordsSection::Authority
        } else {
            RecordsSection::Additional
        }
    }

    /// Returns the name of the section.
    pub fn as_str(self) -> (r: &'static str)
        ensures
            r == (match self {
                RecordsSection::Answer => "Answer",
                RecordsSection::Authority => "Authority",
                RecordsSection::Additional => "Additional",
            }),
    {
        match self {
            RecordsSection::Answer => "Answer",
            RecordsSection::Authority => "Authority",
            RecordsSection::Additional => "Additional",
        }
    }
}

} // verus!
