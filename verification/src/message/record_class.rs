//! Record class values.

use core::cmp::Ordering;
use vstd::prelude::*;
use vstd::string::StringSliceAdditionalSpecFns;

use crate::records::class::{class_defined, class_name, Class};
use crate::bytes::{u16_read, Cursor, CursorView, Reader};
use crate::errors::{Error, Result};
use crate::text::{decorated_decimal, decorated_decimal_string, lemma_ascii_text};

verus! {

/// The text of a value: the name of its named constant, or `RCLASS(`, the value in decimal
/// and `)`.
pub open spec fn record_class_text(v: u16) -> Seq<char> {
    if class_defined(v) {
        class_name(v)@
    } else {
        decorated_decimal("RCLASS(".spec_bytes(), v as nat, ")".spec_bytes())
    }
}

/// A record class value, the `RCLASS` of a resource record; it may have no named constant.
#[derive(Copy, Clone, PartialEq, Eq, Structural, PartialOrd, Ord, Hash, Debug, Default)]
pub struct RecordClass {
    value: u16,
}

impl View for RecordClass {
    type V = u16;

    /// The numerical value.
    closed spec fn view(&self) -> u16 {
        self.value
    }
}

impl RecordClass {
    /// Returns the name of the value's named constant, or `"UNKNOWN_RCLASS"` when it has none.
    pub fn to_str(self) -> (r: &'static str)
        ensures
            r == (if class_defined(self@) {
                class_name(self@)
            } else {
                "UNKNOWN_RCLASS"
            }),
    {
        let n = Class::from(self.value);
        proof {
            Class::lemma_from_value(self.value);
        }
        if n.is_defined() {
            n.name()
        } else {
            "UNKNOWN_RCLASS"
        }
    }

    /// Checks if this is a data-class value.
    pub fn is_data_class(self) -> (r: bool)
        ensures
            r == (0x0001 <= self@ && self@ <= 0x007F),
    {
        0x0001 <= self.value && self.value <= 0x007F
    }

    /// Checks if this is a query-class or a meta-class value.
    pub fn is_meta_class(self) -> (r: bool)
        ensures
            r == (0x0080 <= self@ && self@ <= 0x00FF),
    {
        0x0080 <= self.value && self.value <= 0x00FF
    }

    /// The value with the numerical value `v`.
    pub closed spec fn spec_from_value(v: u16) -> RecordClass {
        RecordClass { value: v }
    }

    /// The value made from a number has that number.
    pub broadcast proof fn lemma_from_value(v: u16)
        ensures
            #[trigger] RecordClass::spec_from_value(v)@ == v,
    {
    }

    /// Returns the numerical value.
    pub fn value(self) -> (r: u16)
        ensures
            r == self@,
    {
        self.value
    }

    /// Returns the text of the value: the name of its named constant, or `RCLASS(`, the value
    /// in decimal and `)`.
    pub fn to_string(&self) -> (s: String)
        ensures
            s@ == record_class_text(self@),
    {
        let n = Class::from(self.value);
        proof {
            Class::lemma_from_value(self.value);
        }
        if n.is_defined() {
            n.name().to_owned()
        } else {
            let pre = "RCLASS(";
            let suf = ")";
            proof {
                reveal_strlit("RCLASS(");
                reveal_strlit(")");
                lemma_ascii_text(pre);
                lemma_ascii_text(suf);
            }
            decorated_decimal_string(pre, self.value as u32, suf)
        }
    }
}

impl From<u16> for RecordClass {
    fn from(value: u16) -> (r: RecordClass) {
        RecordClass { value: value }
    }
}

impl vstd::std_specs::convert::FromSpecImpl<u16> for RecordClass {
    open spec fn obeys_from_spec() -> bool {
        true
    }

    open spec fn from_spec(value: u16) -> RecordClass {
        RecordClass::spec_from_value(value)
    }
}

impl From<Class> for RecordClass {
    fn from(value: Class) -> (r: RecordClass) {
        RecordClass { value: value.value() }
    }
}

impl vstd::std_specs::convert::FromSpecImpl<Class> for RecordClass {
    open spec fn obeys_from_spec() -> bool {
        true
    }

    open spec fn from_spec(value: Class) -> RecordClass {
        RecordClass::spec_from_value(value@)
    }
}

impl PartialEq<u16> for RecordClass {
    fn eq(&self, other: &u16) -> (r: bool) {
        self.value == *other
    }
}

impl vstd::std_specs::cmp::PartialEqSpecImpl<u16> for RecordClass {
    open spec fn obeys_eq_spec() -> bool {
        true
    }

    open spec fn eq_spec(&self, other: &u16) -> bool {
        self@ == *other
    }
}

impl PartialEq<Class> for RecordClass {
    fn eq(&self, other: &Class) -> (r: bool) {
        self.value == other.value()
    }
}

impl vstd::std_specs::cmp::PartialEqSpecImpl<Class> for RecordClass {
    open spec fn obeys_eq_spec() -> bool {
        true
    }

    open spec fn eq_spec(&self, other: &Class) -> bool {
        self@ == other@
    }
}

impl PartialOrd<u16> for RecordClass {
    fn partial_cmp(&self, other: &u16) -> (r: Option<Ordering>) {
        if self.value < *other {
            Some(Ordering::Less)
        } else if self.value == *other {
            Some(Ordering::Equal)
        } else {
            Some(Ordering::Greater)
        }
    }
}

impl vstd::std_specs::cmp::PartialOrdSpecImpl<u16> for RecordClass {
    open spec fn obeys_partial_cmp_spec() -> bool {
        true
    }

    open spec fn partial_cmp_spec(&self, other: &u16) -> Option<Ordering> {
        if self@ < *other {
            Some(Ordering::Less)
        } else if self@ == *other {
            Some(Ordering::Equal)
        } else {
            Some(Ordering::Greater)
        }
    }
}

impl RecordClass {
    /// What reading a value as a big-endian 16-bit number gives, from the cursor `c` to `c2`.
    pub open spec fn read_outcome(c: CursorView, r: Result<RecordClass>, c2: CursorView) -> bool {
        match u16_read(c) {
            (Ok(v), c1) => r matches Ok(t) && t@ == v && c2 == c1,
            (Err(e), c1) => r == Err::<RecordClass, Error>(e) && c2 == c1,
        }
    }
}

impl<'a> Reader<RecordClass> for Cursor<'a> {
    /// Reads a value as a big-endian 16-bit number.
    fn read(&mut self) -> (r: Result<RecordClass>)
        ensures
            RecordClass::read_outcome(old(self)@, r, final(self)@),
    {
        match self.u16_be() {
            Ok(v) => {
                proof {
                    RecordClass::lemma_from_value(v);
                }
                Ok(RecordClass::from(v))
            },
            Err(e) => Err(e),
        }
    }
}

} // verus!
