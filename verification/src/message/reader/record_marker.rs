//! The fixed fields of a resource record, and where the record stands in a message.

use vstd::prelude::*;

use crate::message::class_value::ClassValue;
use crate::message::reader::name_ref::NameRef;
use crate::message::records_section::RecordsSection;
use crate::message::type_value::TypeValue;
use crate::names::dname::DName;

verus! {

/// The distance from the `TYPE` field of a record to its `RDATA`.
pub const TYPE_TO_RDATA_OFFSET: usize = 10;

/// Where a resource record stands in a message.
#[derive(Debug, Copy, Clone, PartialEq, Eq, Structural, PartialOrd, Ord, Hash)]
pub struct RecordOffset {
    /// The offset of the record's owner name.
    pub offset: usize,
    /// The offset of the record's `TYPE` field.
    pub type_offset: usize,
}

/// The fixed fields of a resource record, with its position and section.
#[derive(Debug, Copy, Clone, PartialEq, Eq, Structural, PartialOrd, Ord, Hash)]
pub struct RecordMarker {
    /// Where the record stands.
    pub offset: RecordOffset,
    /// The record type.
    pub rtype: TypeValue,
    /// The record class.
    pub rclass: ClassValue,
    /// The time to live.
    pub ttl: u32,
    /// The length of the record data.
    pub rdlen: u16,
    /// The section the record belongs to.
    pub section: RecordsSection,
}

impl RecordMarker {
    /// Returns where the record stands.
    pub fn offset(&self) -> (r: RecordOffset)
        ensures
            r == self.offset,
    {
        self.offset
    }

    /// Returns the position of the record data.
    pub fn rdata_pos(&self) -> (r: usize)
        requires
            self.offset.type_offset + TYPE_TO_RDATA_OFFSET <= usize::MAX,
        ensures
            r == self.offset.type_offset + TYPE_TO_RDATA_OFFSET,
    {
        self.offset.type_offset + TYPE_TO_RDATA_OFFSET
    }

    /// Returns the record type.
    pub fn rtype(&self) -> (r: TypeValue)
        ensures
            r == self.rtype,
    {
        self.rtype
    }

    /// Returns the record class.
    pub fn rclass(&self) -> (r: ClassValue)
        ensures
            r == self.rclass,
    {
        self.rclass
    }

    /// Returns the time to live.
    pub fn ttl(&self) -> (r: u32)
        ensures
            r == self.ttl,
    {
        self.ttl
    }

    /// Returns the length of the record data.
    pub fn rdlen(&self) -> (r: u16)
        ensures
            r == self.rdlen,
    {
        self.rdlen
    }

    /// Returns the section the record belongs to.
    pub fn section(&self) -> (r: RecordsSection)
        ensures
            r == self.section,
    {
        self.section
    }
}

/// The header of a resource record: its owner name, read into a domain name, and its marker.
pub struct RecordHeader<N: DName> {
    /// The owner name.
    pub name: N,
    /// The fixed fields.
    pub marker: RecordMarker,
}

impl<N: DName> RecordHeader<N> {
    /// Returns the owner name.
    pub fn name(&self) -> (r: &N)
        ensures
            *r == self.name,
    {
        &self.name
    }

    /// Returns the marker of the record.
    pub fn marker(&self) -> (r: &RecordMarker)
        ensures
            *r == self.marker,
    {
        &self.marker
    }

    /// Returns where the record stands.
    pub fn offset(&self) -> (r: RecordOffset)
        ensures
            r == self.marker.offset,
    {
        self.marker.offset
    }

    /// Returns the record type.
    pub fn rtype(&self) -> (r: TypeValue)
        ensures
            r == self.marker.rtype,
    {
        self.marker.rtype
    }

    /// Returns the record class.
    pub fn rclass(&self) -> (r: ClassValue)
        ensures
            r == self.marker.rclass,
    {
        self.marker.rclass
    }

    /// Returns the time to live.
    pub fn ttl(&self) -> (r: u32)
        ensures
            r == self.marker.ttl,
    {
        self.marker.ttl
    }

    /// Returns the length of the record data.
    pub fn rdlen(&self) -> (r: u16)
        ensures
            r == self.marker.rdlen,
    {
        self.marker.rdlen
    }

    /// Returns the section the record belongs to.
    pub fn section(&self) -> (r: RecordsSection)
        ensures
            r == self.marker.section,
    {
        self.marker.section
    }
}

/// The header of a resource record whose owner name is left in the message.
#[derive(Copy, Clone)]
pub struct RecordHeaderRef<'a> {
    /// The owner name, in the message.
    pub name_ref: NameRef<'a>,
    /// The fixed fields.
    pub marker: RecordMarker,
}

impl<'a> RecordHeaderRef<'a> {
    /// Returns the owner name.
    pub fn name(&self) -> (r: &NameRef<'a>)
        ensures
            *r == self.name_ref,
    {
        &self.name_ref
    }

    /// Returns the marker of the record.
    pub fn marker(&self) -> (r: &RecordMarker)
        ensures
            *r == self.marker,
    {
        &self.marker
    }

    /// Returns where the record stands.
    pub fn offset(&self) -> (r: RecordOffset)
        ensures
            r == self.marker.offset,
    {
        self.marker.offset
    }

    /// Returns the record type.
    pub fn rtype(&self) -> (r: TypeValue)
        ensures
            r == self.marker.rtype,
    {
        self.marker.rtype
    }

    /// Returns the record class.
    pub fn rclass(&self) -> (r: ClassValue)
        ensures
            r == self.marker.rclass,
    {
        self.marker.rclass
    }

    /// Returns the time to live.
    pub fn ttl(&self) -> (r: u32)
        ensures
            r == self.marker.ttl,
    {
        self.marker.ttl
    }

    /// Returns the length of the record data.
    pub fn rdlen(&self) -> (r: u16)
        ensures
            r == self.marker.rdlen,
    {
        self.marker.rdlen
    }

    /// Returns the section the record belongs to.
    pub fn section(&self) -> (r: RecordsSection)
        ensures
            r == self.marker.section,
    {
        self.marker.section
    }
}

} // verus!
