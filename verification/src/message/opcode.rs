//! DNS message operation codes.

use core::cmp::Ordering;
use vstd::prelude::*;
use vstd::string::StringSliceAdditionalSpecFns;
use vstd::utf8::encode_utf8;

use crate::bytes::Reader;
use crate::errors::{Result, OpCodeFromStrError, UnknownOpCodeName};
use crate::text::{generic_value, lemma_ascii_text, lemma_decimal_bytes, lemma_generic_round_trip, parse_generic, prefixed_decimal, prefixed_decimal_string, str_eq};

verus! {

/// The name given to operation code values with no named constant.
pub const UNKNOWN_OPCODE: &'static str = "__UNKNOWN_OPCODE__";

/// The prefix of the generic text of an operation code value.
pub const RFC3597_PFX: &'static str = "OPCODE";

/// The name of an operation code value with a named constant, or `__UNKNOWN_OPCODE__`.
pub open spec fn opcode_name(v: u8) -> &'static str {
    if v == 0 {
        "QUERY"
    } else if v == 1 {
        "IQUERY"
    } else if v == 2 {
        "STATUS"
    } else {
        UNKNOWN_OPCODE
    }
}

/// Operation code values with a named constant.
pub open spec fn opcode_defined(v: u8) -> bool {
    v == 0
        || v == 1
        || v == 2
}

/// The text of an operation code value: its name, or `OPCODE` and the value in decimal when it has
/// no named constant.
pub open spec fn opcode_text(v: u8) -> Seq<char> {
    if opcode_defined(v) {
        opcode_name(v)@
    } else {
        prefixed_decimal(RFC3597_PFX.spec_bytes(), v as nat)
    }
}

/// Some operation code value with a named constant has the name `s`.
pub open spec fn opcode_named(s: Seq<char>) -> bool {
    exists|v: u8| opcode_defined(v) && #[trigger] opcode_name(v)@ == s
}

/// The operation code value that the text `s` stands for: the value whose name it is, or the value
/// in the generic text `OPCODE` and a decimal number.
pub open spec fn opcode_of_text(s: Seq<char>) -> Option<u8> {
    if opcode_named(s) {
        Some(choose|v: u8| opcode_defined(v) && #[trigger] opcode_name(v)@ == s)
    } else {
        match generic_value(encode_utf8(s), RFC3597_PFX.spec_bytes(), 0xFF) {
            Some(n) => Some(n as u8),
            None => None,
        }
    }
}

/// Distinct operation code values with named constants have distinct names.
pub proof fn lemma_opcode_names_distinct(a: u8, b: u8)
    requires
        opcode_defined(a),
        opcode_defined(b),
        opcode_name(a)@ == opcode_name(b)@,
    ensures
        a == b,
{
    reveal_strlit("QUERY");
    reveal_strlit("IQUERY");
    reveal_strlit("STATUS");
    let x = opcode_name(a)@;
    let y = opcode_name(b)@;
    assert(x.len() == y.len());
    assert(x[0] == y[0]);
    assert(x[x.len() - 1] == y[y.len() - 1]);
}

/// No name of an operation code value starts with the generic prefix `OPCODE`.
proof fn lemma_opcode_names_not_generic(v: u8, s: Seq<char>)
    requires
        opcode_defined(v),
        s.len() > 6,
        s[0] == 'O',
        s[1] == 'P',
        s[2] == 'C',
        s[3] == 'O',
        s[4] == 'D',
        s[5] == 'E',
    ensures
        opcode_name(v)@ != s,
{
    reveal_strlit("QUERY");
    reveal_strlit("IQUERY");
    reveal_strlit("STATUS");
}

/// The text of an operation code value stands for that value.
pub proof fn lemma_opcode_text_round_trip(v: u8)
    ensures
        opcode_of_text(opcode_text(v)) == Some(v),
{
    if opcode_defined(v) {
        let w = choose|w: u8| opcode_defined(w) && #[trigger] opcode_name(w)@ == opcode_name(v)@;
        assert(opcode_defined(v) && opcode_name(v)@ == opcode_name(v)@);
        lemma_opcode_names_distinct(w, v);
    } else {
        reveal_strlit("OPCODE");
        lemma_ascii_text(RFC3597_PFX);
        lemma_generic_round_trip(RFC3597_PFX.spec_bytes(), v as nat, 0xFF);
        let t = opcode_text(v);
        lemma_decimal_bytes(v as nat);
        assert(t.len() > 6);
        assert(t[0] == 'O');
        assert(t[1] == 'P');
        assert(t[2] == 'C');
        assert(t[3] == 'O');
        assert(t[4] == 'D');
        assert(t[5] == 'E');
        if opcode_named(t) {
            let w = choose|w: u8| opcode_defined(w) && #[trigger] opcode_name(w)@ == t;
            lemma_opcode_names_not_generic(w, t);
        }
        vstd::utf8::encode_utf8_decode_utf8(t);
    }
}

/// A DNS message operation code, the `OPCODE` of a message header.
///
/// Values with no named constant are supported too; their text is `OPCODE` followed by the
/// value in decimal.
#[derive(Copy, Clone, PartialEq, Eq, Structural, PartialOrd, Ord, Hash, Debug, Default)]
pub struct OpCode(u8);

impl View for OpCode {
    type V = u8;

    /// The numerical value.
    closed spec fn view(&self) -> u8 {
        self.0
    }
}

impl OpCode {
    /// The value of QUERY: a standard query.
    pub const QUERY: u8 = 0;

    /// The value of IQUERY: an inverse query.
    pub const IQUERY: u8 = 1;

    /// The value of STATUS: a server status request.
    pub const STATUS: u8 = 2;

    /// Returns the name of the operation code, or `"__UNKNOWN_OPCODE__"` for a value with no named
    /// constant.
    pub fn name(self) -> (r: &'static str)
        ensures
            r == opcode_name(self@),
    {
        match self.0 {
            0 => "QUERY",
            1 => "IQUERY",
            2 => "STATUS",
            _ => UNKNOWN_OPCODE,
        }
    }

    /// The operation code with the numerical value `v`.
    pub closed spec fn spec_from_value(v: u8) -> OpCode {
        OpCode(v)
    }

    /// The operation code made from a numerical value has that value.
    pub broadcast proof fn lemma_from_value(v: u8)
        ensures
            #[trigger] OpCode::spec_from_value(v)@ == v,
    {
    }

    /// A value is the one made from its number.
    pub proof fn lemma_value_of(t: OpCode)
        ensures
            OpCode::spec_from_value(t@) == t,
    {
    }

    /// Returns the numerical value.
    pub fn value(self) -> (r: u8)
        ensures
            r == self@,
    {
        self.0
    }

    /// Creates an operation code value from its name, as [`OpCode::name`] returns it; the comparison is
    /// case-sensitive.
    ///
    /// # Errors
    ///
    /// [`UnknownOpCodeName`] when no value with a named constant has the name.
    pub fn from_name(name: &str) -> (r: core::result::Result<OpCode, UnknownOpCodeName>)
        ensures
            match r {
                Ok(t) => opcode_defined(t@) && opcode_name(t@)@ == name@,
                Err(_) => !opcode_named(name@),
            },
    {
        if str_eq(name, "QUERY") {
            return Ok(OpCode(OpCode::QUERY));
        }
        if str_eq(name, "IQUERY") {
            return Ok(OpCode(OpCode::IQUERY));
        }
        if str_eq(name, "STATUS") {
            return Ok(OpCode(OpCode::STATUS));
        }
        Err(UnknownOpCodeName)
    }

    /// Checks if the value has a named constant.
    pub fn is_defined(self) -> (r: bool)
        ensures
            r == opcode_defined(self@),
    {
        match self.0 {
            0 | 1 | 2 => true,
            _ => false,
        }
    }

    /// Creates an operation code value from its text: a name, or `OPCODE` followed by a decimal value.
    ///
    /// # Errors
    ///
    /// [`OpCodeFromStrError`] when the text stands for no value.
    pub fn from_str(s: &str) -> (r: core::result::Result<OpCode, OpCodeFromStrError>)
        ensures
            match opcode_of_text(s@) {
                Some(v) => r matches Ok(t) && t@ == v,
                None => r is Err,
            },
    {
        match OpCode::from_name(s) {
            Ok(t) => {
                proof {
                    let w = choose|w: u8| opcode_defined(w) && #[trigger] opcode_name(w)@ == s@;
                    lemma_opcode_names_distinct(w, t@);
                }
                return Ok(t);
            },
            Err(_) => {},
        }
        proof {
            reveal_strlit("OPCODE");
        }
        match parse_generic(s, RFC3597_PFX, 0xFF) {
            Some(v) => Ok(OpCode(v as u8)),
            None => Err(OpCodeFromStrError),
        }
    }

    /// Returns the text of the value: its name, or `OPCODE` followed by the value in decimal
    /// when it has no named constant.
    pub fn to_string(&self) -> (s: String)
        ensures
            s@ == opcode_text(self@),
    {
        if self.is_defined() {
            self.name().to_owned()
        } else {
            proof {
                reveal_strlit("OPCODE");
                lemma_ascii_text(RFC3597_PFX);
            }
            prefixed_decimal_string(RFC3597_PFX, self.0 as u32)
        }
    }
}

impl From<u8> for OpCode {
    fn from(value: u8) -> (r: OpCode) {
        OpCode(value)
    }
}

impl vstd::std_specs::convert::FromSpecImpl<u8> for OpCode {
    open spec fn obeys_from_spec() -> bool {
        true
    }

    open spec fn from_spec(value: u8) -> OpCode {
        OpCode::spec_from_value(value)
    }
}

impl PartialEq<u8> for OpCode {
    fn eq(&self, other: &u8) -> (r: bool) {
        self.0 == *other
    }
}

impl vstd::std_specs::cmp::PartialEqSpecImpl<u8> for OpCode {
    open spec fn obeys_eq_spec() -> bool {
        true
    }

    open spec fn eq_spec(&self, other: &u8) -> bool {
        self@ == *other
    }
}

impl PartialOrd<u8> for OpCode {
    fn partial_cmp(&self, other: &u8) -> (r: Option<Ordering>) {
        if self.0 < *other {
            Some(Ordering::Less)
        } else if self.0 == *other {
            Some(Ordering::Equal)
        } else {
            Some(Ordering::Greater)
        }
    }
}

impl vstd::std_specs::cmp::PartialOrdSpecImpl<u8> for OpCode {
    open spec fn obeys_partial_cmp_spec() -> bool {
        true
    }

    open spec fn partial_cmp_spec(&self, other: &u8) -> Option<Ordering> {
        if self@ < *other {
            Some(Ordering::Less)
        } else if self@ == *other {
            Some(Ordering::Equal)
        } else {
            Some(Ordering::Greater)
        }
    }
}

impl core::str::FromStr for OpCode {
    type Err = OpCodeFromStrError;

    fn from_str(s: &str) -> (r: core::result::Result<OpCode, OpCodeFromStrError>)
        ensures
            match opcode_of_text(s@) {
                Some(v) => r matches Ok(t) && t@ == v,
                None => r is Err,
            },
    {
        OpCode::from_str(s)
    }
}

} // verus!
