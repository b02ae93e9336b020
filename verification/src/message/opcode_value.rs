//! Operation code values.

use core::cmp::Ordering;
use vstd::prelude::*;
use vstd::string::StringSliceAdditionalSpecFns;

use crate::message::opcode::{opcode_defined, opcode_name, OpCode};
use crate::bytes::Reader;

use crate::text::{decorated_decimal, decorated_decimal_string, lemma_ascii_text};

verus! {

/// The text of a value: the name of its named constant, or `OPCODE` followed by the value
/// in decimal.
pub open spec fn opcode_value_text(v: u8) -> Seq<char> {
    if opcode_defined(v) {
        opcode_name(v)@
    } else {
        decorated_decimal("OPCODE".spec_bytes(), v as nat, "".spec_bytes())
    }
}

/// An operation code value, the `OPCODE` of a message header; it may have no named constant.
#[derive(Copy, Clone, PartialEq, Eq, Structural, PartialOrd, Ord, Hash, Debug, Default)]
pub struct OpCodeValue(u8);

impl View for OpCodeValue {
    type V = u8;

    /// The numerical value.
    closed spec fn view(&self) -> u8 {
        self.0
    }
}

impl OpCodeValue {
    /// Returns the name of the value's named constant, or `"UNKNOWN_OPCODE"` when it has none.
    pub fn to_str(self) -> (r: &'static str)
        ensures
            r == (if opcode_defined(self@) {
                opcode_name(self@)
            } else {
                "UNKNOWN_OPCODE"
            }),
    {
        let n = OpCode::from(self.0);
        proof {
            OpCode::lemma_from_value(self.0);
        }
        if n.is_defined() {
            n.name()
        } else {
            "UNKNOWN_OPCODE"
        }
    }

    /// The value with the numerical value `v`.
    pub closed spec fn spec_from_value(v: u8) -> OpCodeValue {
        OpCodeValue(v)
    }

    /// The value made from a number has that number.
    pub broadcast proof fn lemma_from_value(v: u8)
        ensures
            #[trigger] OpCodeValue::spec_from_value(v)@ == v,
    {
    }

    /// Returns the numerical value.
    pub fn value(self) -> (r: u8)
        ensures
            r == self@,
    {
        self.0
    }

    /// Returns the text of the value: the name of its named constant, or `OPCODE` followed by
    /// the value in decimal.
    pub fn to_string(&self) -> (s: String)
        ensures
            s@ == opcode_value_text(self@),
    {
        let n = OpCode::from(self.0);
        proof {
            OpCode::lemma_from_value(self.0);
        }
        if n.is_defined() {
            n.name().to_owned()
        } else {
            let pre = "OPCODE";
            let suf = "";
            proof {
                reveal_strlit("OPCODE");
                reveal_strlit("");
                lemma_ascii_text(pre);
                lemma_ascii_text(suf);
            }
            decorated_decimal_string(pre, self.0 as u32, suf)
        }
    }
}

impl From<u8> for OpCodeValue {
    fn from(value: u8) -> (r: OpCodeValue) {
        OpCodeValue(value)
    }
}

impl vstd::std_specs::convert::FromSpecImpl<u8> for OpCodeValue {
    open spec fn obeys_from_spec() -> bool {
        true
    }

    open spec fn from_spec(value: u8) -> OpCodeValue {
        OpCodeValue::spec_from_value(value)
    }
}

impl From<OpCode> for OpCodeValue {
    fn from(value: OpCode) -> (r: OpCodeValue) {
        OpCodeValue(value.value())
    }
}

impl vstd::std_specs::convert::FromSpecImpl<OpCode> for OpCodeValue {
    open spec fn obeys_from_spec() -> bool {
        true
    }

    open spec fn from_spec(value: OpCode) -> OpCodeValue {
        OpCodeValue::spec_from_value(value@)
    }
}

impl PartialEq<u8> for OpCodeValue {
    fn eq(&self, other: &u8) -> (r: bool) {
        self.0 == *other
    }
}

impl vstd::std_specs::cmp::PartialEqSpecImpl<u8> for OpCodeValue {
    open spec fn obeys_eq_spec() -> bool {
        true
    }

    open spec fn eq_spec(&self, other: &u8) -> bool {
        self@ == *other
    }
}

impl PartialEq<OpCode> for OpCodeValue {
    fn eq(&self, other: &OpCode) -> (r: bool) {
        self.0 == other.value()
    }
}

impl vstd::std_specs::cmp::PartialEqSpecImpl<OpCode> for OpCodeValue {
    open spec fn obeys_eq_spec() -> bool {
        true
    }

    open spec fn eq_spec(&self, other: &OpCode) -> bool {
        self@ == other@
    }
}

impl PartialOrd<u8> for OpCodeValue {
    fn partial_cmp(&self, other: &u8) -> (r: Option<Ordering>) {
        if self.0 < *other {
            Some(Ordering::Less)
        } else if self.0 == *other {
            Some(Ordering::Equal)
        } else {
            Some(Ordering::Greater)
        }
    }
}

impl vstd::std_specs::cmp::PartialOrdSpecImpl<u8> for OpCodeValue {
    open spec fn obeys_partial_cmp_spec() -> bool {
        true
    }

    open spec fn partial_cmp_spec(&self, other: &u8) -> Option<Ordering> {
        if self@ < *other {
            Some(Ordering::Less)
        } else if self@ == *other {
            Some(Ordering::Equal)
        } else {
            Some(Ordering::Greater)
        }
    }
}

} // verus!
