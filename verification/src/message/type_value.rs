//! Record type values.

use core::cmp::Ordering;
use vstd::prelude::*;
use vstd::string::StringSliceAdditionalSpecFns;

use crate::records::rtype::{rtype_defined, rtype_name, Type};
use crate::bytes::{u16_read, Cursor, CursorView, Reader};
use crate::errors::{Error, Result};
use crate::text::{decorated_decimal, decorated_decimal_string, lemma_ascii_text};

verus! {

/// The text of a value: the name of its named constant, or `TYPE` followed by the value
/// in decimal.
pub open spec fn type_value_text(v: u16) -> Seq<char> {
    if rtype_defined(v) {
        rtype_name(v)@
    } else {
        decorated_decimal("TYPE".spec_bytes(), v as nat, "".spec_bytes())
    }
}

/// A record type value, the `TYPE` of a resource record; it may have no named constant.
#[derive(Copy, Clone, PartialEq, Eq, Structural, PartialOrd, Ord, Hash, Debug, Default)]
pub struct TypeValue(u16);

impl View for TypeValue {
    type V = u16;

    /// The numerical value.
    closed spec fn view(&self) -> u16 {
        self.0
    }
}

impl TypeValue {
    /// Returns the name of the value's named constant, or `"UNKNOWN_TYPE"` when it has none.
    pub fn to_str(self) -> (r: &'static str)
        ensures
            r == (if rtype_defined(self@) {
                rtype_name(self@)
            } else {
                "UNKNOWN_TYPE"
            }),
    {
        let n = Type::from(self.0);
        proof {
            Type::lemma_from_value(self.0);
        }
        if n.is_defined() {
            n.name()
        } else {
            "UNKNOWN_TYPE"
        }
    }

    /// Checks if this is a data-type value.
    pub fn is_data_type(self) -> (r: bool)
        ensures
            r == ((0x0001 <= self@ && self@ <= 0x007F) || (0x0100 <= self@ && self@ <= 0xEFFF)),
    {
        (0x0001 <= self.0 && self.0 <= 0x007F) || (0x0100 <= self.0 && self.0 <= 0xEFFF)
    }

    /// Checks if this is a question-type or a meta-type value.
    pub fn is_meta_type(self) -> (r: bool)
        ensures
            r == (0x0080 <= self@ && self@ <= 0x00FF),
    {
        0x0080 <= self.0 && self.0 <= 0x00FF
    }

    /// The value with the numerical value `v`.
    pub closed spec fn spec_from_value(v: u16) -> TypeValue {
        TypeValue(v)
    }

    /// The value made from a number has that number.
    pub broadcast proof fn lemma_from_value(v: u16)
        ensures
            #[trigger] TypeValue::spec_from_value(v)@ == v,
    {
    }

    /// Returns the numerical value.
    pub fn value(self) -> (r: u16)
        ensures
            r == self@,
    {
        self.0
    }

    /// Returns the text of the value: the name of its named constant, or `TYPE` followed by
    /// the value in decimal.
    pub fn to_string(&self) -> (s: String)
        ensures
            s@ == type_value_text(self@),
    {
        let n = Type::from(self.0);
        proof {
            Type::lemma_from_value(self.0);
        }
        if n.is_defined() {
            n.name().to_owned()
        } else {
            let pre = "TYPE";
            let suf = "";
            proof {
                reveal_strlit("TYPE");
                reveal_strlit("");
                lemma_ascii_text(pre);
                lemma_ascii_text(suf);
            }
            decorated_decimal_string(pre, self.0 as u32, suf)
        }
    }
}

impl From<u16> for TypeValue {
    fn from(value: u16) -> (r: TypeValue) {
        TypeValue(value)
    }
}

impl vstd::std_specs::convert::FromSpecImpl<u16> for TypeValue {
    open spec fn obeys_from_spec() -> bool {
        true
    }

    open spec fn from_spec(value: u16) -> TypeValue {
        TypeValue::spec_from_value(value)
    }
}

impl From<Type> for TypeValue {
    fn from(value: Type) -> (r: TypeValue) {
        TypeValue(value.value())
    }
}

impl vstd::std_specs::convert::FromSpecImpl<Type> for TypeValue {
    open spec fn obeys_from_spec() -> bool {
        true
    }

    open spec fn from_spec(value: Type) -> TypeValue {
        TypeValue::spec_from_value(value@)
    }
}

impl PartialEq<u16> for TypeValue {
    fn eq(&self, other: &u16) -> (r: bool) {
        self.0 == *other
    }
}

impl vstd::std_specs::cmp::PartialEqSpecImpl<u16> for TypeValue {
    open spec fn obeys_eq_spec() -> bool {
        true
    }

    open spec fn eq_spec(&self, other: &u16) -> bool {
        self@ == *other
    }
}

impl PartialEq<Type> for TypeValue {
    fn eq(&self, other: &Type) -> (r: bool) {
        self.0 == other.value()
    }
}

impl vstd::std_specs::cmp::PartialEqSpecImpl<Type> for TypeValue {
    open spec fn obeys_eq_spec() -> bool {
        true
    }

    open spec fn eq_spec(&self, other: &Type) -> bool {
        self@ == other@
    }
}

impl PartialOrd<u16> for TypeValue {
    fn partial_cmp(&self, other: &u16) -> (r: Option<Ordering>) {
        if self.0 < *other {
            Some(Ordering::Less)
        } else if self.0 == *other {
            Some(Ordering::Equal)
        } else {
            Some(Ordering::Greater)
        }
    }
}

impl vstd::std_specs::cmp::PartialOrdSpecImpl<u16> for TypeValue {
    open spec fn obeys_partial_cmp_spec() -> bool {
        true
    }

    open spec fn partial_cmp_spec(&self, other: &u16) -> Option<Ordering> {
        if self@ < *other {
            Some(Ordering::Less)
        } else if self@ == *other {
            Some(Ordering::Equal)
        } else {
            Some(Ordering::Greater)
        }
    }
}

impl TypeValue {
    /// What reading a value as a big-endian 16-bit number gives, from the cursor `c` to `c2`.
    pub open spec fn read_outcome(c: CursorView, r: Result<TypeValue>, c2: CursorView) -> bool {
        match u16_read(c) {
            (Ok(v), c1) => r matches Ok(t) && t@ == v && c2 == c1,
            (Err(e), c1) => r == Err::<TypeValue, Error>(e) && c2 == c1,
        }
    }
}

impl<'a> Reader<TypeValue> for Cursor<'a> {
    /// Reads a value as a big-endian 16-bit number.
    fn read(&mut self) -> (r: Result<TypeValue>)
        ensures
            TypeValue::read_outcome(old(self)@, r, final(self)@),
    {
        match self.u16_be() {
            Ok(v) => {
                proof {
                    TypeValue::lemma_from_value(v);
                }
                Ok(TypeValue::from(v))
            },
            Err(e) => Err(e),
        }
    }
}

} // verus!
