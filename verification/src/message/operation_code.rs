//! Operation code values.

use core::cmp::Ordering;
use vstd::prelude::*;
use vstd::string::StringSliceAdditionalSpecFns;

use crate::message::opcode::{opcode_defined, opcode_name, OpCode};
use crate::bytes::Reader;

use crate::text::{decorated_decimal, decorated_decimal_string, lemma_ascii_text};

verus! {

/// The text of a value: the name of its named constant, or `OPCODE(`, the value in decimal
/// and `)`.
pub open spec fn operation_code_text(v: u8) -> Seq<char> {
    if opcode_defined(v) {
        opcode_name(v)@
    } else {
        decorated_decimal("OPCODE(".spec_bytes(), v as nat, ")".spec_bytes())
    }
}

/// An operation code value, the `OPCODE` of a message header; it may have no named constant.
#[derive(Copy, Clone, PartialEq, Eq, Structural, PartialOrd, Ord, Hash, Debug, Default)]
pub struct OperationCode {
    value: u8,
}

impl View for OperationCode {
    type V = u8;

    /// The numerical value.
    closed spec fn view(&self) -> u8 {
        self.value
    }
}

impl OperationCode {
    /// Returns the name of the value's named constant, or `"UNKNOWN_OPCODE"` when it has none.
    pub fn to_str(self) -> (r: &'static str)
        ensures
            r == (if opcode_defined(self@) {
                opcode_name(self@)
            } else {
                "UNKNOWN_OPCODE"
            }),
    {
        let n = OpCode::from(self.value);
        proof {
            OpCode::lemma_from_value(self.value);
        }
        if n.is_defined() {
            n.name()
        } else {
            "UNKNOWN_OPCODE"
        }
    }

    /// The value with the numerical value `v`.
    pub closed spec fn spec_from_value(v: u8) -> OperationCode {
        OperationCode { value: v }
    }

    /// The value made from a number has that number.
    pub broadcast proof fn lemma_from_value(v: u8)
        ensures
            #[trigger] OperationCode::spec_from_value(v)@ == v,
    {
    }

    /// Returns the numerical value.
    pub fn value(self) -> (r: u8)
        ensures
            r == self@,
    {
        self.value
    }

    /// Returns the text of the value: the name of its named constant, or `OPCODE(`, the value
    /// in decimal and `)`.
    pub fn to_string(&self) -> (s: String)
        ensures
            s@ == operation_code_text(self@),
    {
        let n = OpCode::from(self.value);
        proof {
            OpCode::lemma_from_value(self.value);
        }
        if n.is_defined() {
            n.name().to_owned()
        } else {
            let pre = "OPCODE(";
            let suf = ")";
            proof {
                reveal_strlit("OPCODE(");
                reveal_strlit(")");
                lemma_ascii_text(pre);
                lemma_ascii_text(suf);
            }
            decorated_decimal_string(pre, self.value as u32, suf)
        }
    }
}

impl From<u8> for OperationCode {
    fn from(value: u8) -> (r: OperationCode) {
        OperationCode { value: value }
    }
}

impl vstd::std_specs::convert::FromSpecImpl<u8> for OperationCode {
    open spec fn obeys_from_spec() -> bool {
        true
    }

    open spec fn from_spec(value: u8) -> OperationCode {
        OperationCode::spec_from_value(value)
    }
}

impl From<OpCode> for OperationCode {
    fn from(value: OpCode) -> (r: OperationCode) {
        OperationCode { value: value.value() }
    }
}

impl vstd::std_specs::convert::FromSpecImpl<OpCode> for OperationCode {
    open spec fn obeys_from_spec() -> bool {
        true
    }

    open spec fn from_spec(value: OpCode) -> OperationCode {
        OperationCode::spec_from_value(value@)
    }
}

impl PartialEq<u8> for OperationCode {
    fn eq(&self, other: &u8) -> (r: bool) {
        self.value == *other
    }
}

impl vstd::std_specs::cmp::PartialEqSpecImpl<u8> for OperationCode {
    open spec fn obeys_eq_spec() -> bool {
        true
    }

    open spec fn eq_spec(&self, other: &u8) -> bool {
        self@ == *other
    }
}

impl PartialEq<OpCode> for OperationCode {
    fn eq(&self, other: &OpCode) -> (r: bool) {
        self.value == other.value()
    }
}

impl vstd::std_specs::cmp::PartialEqSpecImpl<OpCode> for OperationCode {
    open spec fn obeys_eq_spec() -> bool {
        true
    }

    open spec fn eq_spec(&self, other: &OpCode) -> bool {
        self@ == other@
    }
}

impl PartialOrd<u8> for OperationCode {
    fn partial_cmp(&self, other: &u8) -> (r: Option<Ordering>) {
        if self.value < *other {
            Some(Ordering::Less)
        } else if self.value == *other {
            Some(Ordering::Equal)
        } else {
            Some(Ordering::Greater)
        }
    }
}

impl vstd::std_specs::cmp::PartialOrdSpecImpl<u8> for OperationCode {
    open spec fn obeys_partial_cmp_spec() -> bool {
        true
    }

    open spec fn partial_cmp_spec(&self, other: &u8) -> Option<Ordering> {
        if self@ < *other {
            Some(Ordering::Less)
        } else if self@ == *other {
            Some(Ordering::Equal)
        } else {
            Some(Ordering::Greater)
        }
    }
}

} // verus!
