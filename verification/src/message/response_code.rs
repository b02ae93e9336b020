//! Response code values.

use core::cmp::Ordering;
use vstd::prelude::*;
use vstd::string::StringSliceAdditionalSpecFns;

use crate::message::rcode::{rcode_defined, rcode_name, RCode};
use crate::bytes::Reader;

use crate::text::{decorated_decimal, decorated_decimal_string, lemma_ascii_text};

verus! {

/// The text of a value: the name of its named constant, or `RCODE` followed by the value
/// in decimal.
pub open spec fn response_code_text(v: u16) -> Seq<char> {
    if rcode_defined(v) {
        rcode_name(v)@
    } else {
        decorated_decimal("RCODE".spec_bytes(), v as nat, "".spec_bytes())
    }
}

/// A response code value, the `RCODE` of a message; it may have no named constant.
#[derive(Copy, Clone, PartialEq, Eq, Structural, PartialOrd, Ord, Hash, Debug, Default)]
pub struct ResponseCode {
    value: u16,
}

impl View for ResponseCode {
    type V = u16;

    /// The numerical value.
    closed spec fn view(&self) -> u16 {
        self.value
    }
}

impl ResponseCode {
    /// Returns the name of the value's named constant, or `"UNKNOWN_RCODE"` when it has none.
    pub fn to_str(self) -> (r: &'static str)
        ensures
            r == (if rcode_defined(self@) {
                rcode_name(self@)
            } else {
                "UNKNOWN_RCODE"
            }),
    {
        let n = RCode::from(self.value);
        proof {
            RCode::lemma_from_value(self.value);
        }
        if n.is_defined() {
            n.name()
        } else {
            "UNKNOWN_RCODE"
        }
    }

    /// The value with the numerical value `v`.
    pub closed spec fn spec_from_value(v: u16) -> ResponseCode {
        ResponseCode { value: v }
    }

    /// The value made from a number has that number.
    pub broadcast proof fn lemma_from_value(v: u16)
        ensures
            #[trigger] ResponseCode::spec_from_value(v)@ == v,
    {
    }

    /// Returns the numerical value.
    pub fn value(self) -> (r: u16)
        ensures
            r == self@,
    {
        self.value
    }

    /// Returns the text of the value: the name of its named constant, or `RCODE` followed by
    /// the value in decimal.
    pub fn to_string(&self) -> (s: String)
        ensures
            s@ == response_code_text(self@),
    {
        let n = RCode::from(self.value);
        proof {
            RCode::lemma_from_value(self.value);
        }
        if n.is_defined() {
            n.name().to_owned()
        } else {
            let pre = "RCODE";
            let suf = "";
            proof {
                reveal_strlit("RCODE");
                reveal_strlit("");
                lemma_ascii_text(pre);
                lemma_ascii_text(suf);
            }
            decorated_decimal_string(pre, self.value as u32, suf)
        }
    }
}

impl From<u16> for ResponseCode {
    fn from(value: u16) -> (r: ResponseCode) {
        ResponseCode { value: value }
    }
}

impl vstd::std_specs::convert::FromSpecImpl<u16> for ResponseCode {
    open spec fn obeys_from_spec() -> bool {
        true
    }

    open spec fn from_spec(value: u16) -> ResponseCode {
        ResponseCode::spec_from_value(value)
    }
}

impl From<RCode> for ResponseCode {
    fn from(value: RCode) -> (r: ResponseCode) {
        ResponseCode { value: value.value() }
    }
}

impl vstd::std_specs::convert::FromSpecImpl<RCode> for ResponseCode {
    open spec fn obeys_from_spec() -> bool {
        true
    }

    open spec fn from_spec(value: RCode) -> ResponseCode {
        ResponseCode::spec_from_value(value@)
    }
}

impl PartialEq<u16> for ResponseCode {
    fn eq(&self, other: &u16) -> (r: bool) {
        self.value == *other
    }
}

impl vstd::std_specs::cmp::PartialEqSpecImpl<u16> for ResponseCode {
    open spec fn obeys_eq_spec() -> bool {
        true
    }

    open spec fn eq_spec(&self, other: &u16) -> bool {
        self@ == *other
    }
}

impl PartialEq<RCode> for ResponseCode {
    fn eq(&self, other: &RCode) -> (r: bool) {
        self.value == other.value()
    }
}

impl vstd::std_specs::cmp::PartialEqSpecImpl<RCode> for ResponseCode {
    open spec fn obeys_eq_spec() -> bool {
        true
    }

    open spec fn eq_spec(&self, other: &RCode) -> bool {
        self@ == other@
    }
}

impl PartialOrd<u16> for ResponseCode {
    fn partial_cmp(&self, other: &u16) -> (r: Option<Ordering>) {
        if self.value < *other {
            Some(Ordering::Less)
        } else if self.value == *other {
            Some(Ordering::Equal)
        } else {
            Some(Ordering::Greater)
        }
    }
}

impl vstd::std_specs::cmp::PartialOrdSpecImpl<u16> for ResponseCode {
    open spec fn obeys_partial_cmp_spec() -> bool {
        true
    }

    open spec fn partial_cmp_spec(&self, other: &u16) -> Option<Ordering> {
        if self@ < *other {
            Some(Ordering::Less)
        } else if self@ == *other {
            Some(Ordering::Equal)
        } else {
            Some(Ordering::Greater)
        }
    }
}

} // verus!
