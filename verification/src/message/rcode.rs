//! DNS response codes.

use core::cmp::Ordering;
use vstd::prelude::*;
use vstd::string::StringSliceAdditionalSpecFns;
use vstd::utf8::encode_utf8;

use crate::bytes::Reader;
use crate::errors::{Result, RCodeFromStrError, UnknownRCodeName};
use crate::text::{generic_value, lemma_ascii_text, lemma_decimal_bytes, lemma_generic_round_trip, parse_generic, prefixed_decimal, prefixed_decimal_string, str_eq};

verus! {

/// The name given to response code values with no named constant.
pub const UNKNOWN_RCODE: &'static str = "__UNKNOWN_RCODE__";

/// The prefix of the generic text of a response code value.
pub const RFC3597_PFX: &'static str = "RCODE";

/// The name of a response code value with a named constant, or `__UNKNOWN_RCODE__`.
pub open spec fn rcode_name(v: u16) -> &'static str {
    if v == 0 {
        "NOERROR"
    } else if v == 1 {
        "FORMERR"
    } else if v == 2 {
        "SERVFAIL"
    } else if v == 3 {
        "NXDOMAIN"
    } else if v == 4 {
        "NOTIMP"
    } else if v == 5 {
        "REFUSED"
    } else if v == 16 {
        "BADVERS"
    } else {
        UNKNOWN_RCODE
    }
}

/// Response code values with a named constant.
pub open spec fn rcode_defined(v: u16) -> bool {
    v == 0
        || v == 1
        || v == 2
        || v == 3
        || v == 4
        || v == 5
        || v == 16
}

/// The text of a response code value: its name, or `RCODE` and the value in decimal when it has
/// no named constant.
pub open spec fn rcode_text(v: u16) -> Seq<char> {
    if rcode_defined(v) {
        rcode_name(v)@
    } else {
        prefixed_decimal(RFC3597_PFX.spec_bytes(), v as nat)
    }
}

/// Some response code value with a named constant has the name `s`.
pub open spec fn rcode_named(s: Seq<char>) -> bool {
    exists|v: u16| rcode_defined(v) && #[trigger] rcode_name(v)@ == s
}

/// The response code value that the text `s` stands for: the value whose name it is, or the value
/// in the generic text `RCODE` and a decimal number.
pub open spec fn rcode_of_text(s: Seq<char>) -> Option<u16> {
    if rcode_named(s) {
        Some(choose|v: u16| rcode_defined(v) && #[trigger] rcode_name(v)@ == s)
    } else {
        match generic_value(encode_utf8(s), RFC3597_PFX.spec_bytes(), 0xFFFF) {
            Some(n) => Some(n as u16),
            None => None,
        }
    }
}

/// Distinct response code values with named constants have distinct names.
pub proof fn lemma_rcode_names_distinct(a: u16, b: u16)
    requires
        rcode_defined(a),
        rcode_defined(b),
        rcode_name(a)@ == rcode_name(b)@,
    ensures
        a == b,
{
    reveal_strlit("NOERROR");
    reveal_strlit("FORMERR");
    reveal_strlit("SERVFAIL");
    reveal_strlit("NXDOMAIN");
    reveal_strlit("NOTIMP");
    reveal_strlit("REFUSED");
    reveal_strlit("BADVERS");
    let x = rcode_name(a)@;
    let y = rcode_name(b)@;
    assert(x.len() == y.len());
    assert(x[0] == y[0]);
    assert(x[x.len() - 1] == y[y.len() - 1]);
}

/// No name of a response code value starts with the generic prefix `RCODE`.
proof fn lemma_rcode_names_not_generic(v: u16, s: Seq<char>)
    requires
        rcode_defined(v),
        s.len() > 5,
        s[0] == 'R',
        s[1] == 'C',
        s[2] == 'O',
        s[3] == 'D',
        s[4] == 'E',
    ensures
        rcode_name(v)@ != s,
{
    reveal_strlit("NOERROR");
    reveal_strlit("FORMERR");
    reveal_strlit("SERVFAIL");
    reveal_strlit("NXDOMAIN");
    reveal_strlit("NOTIMP");
    reveal_strlit("REFUSED");
    reveal_strlit("BADVERS");
}

/// The text of a response code value stands for that value.
pub proof fn lemma_rcode_text_round_trip(v: u16)
    ensures
        rcode_of_text(rcode_text(v)) == Some(v),
{
    if rcode_defined(v) {
        let w = choose|w: u16| rcode_defined(w) && #[trigger] rcode_name(w)@ == rcode_name(v)@;
        assert(rcode_defined(v) && rcode_name(v)@ == rcode_name(v)@);
        lemma_rcode_names_distinct(w, v);
    } else {
        reveal_strlit("RCODE");
        lemma_ascii_text(RFC3597_PFX);
        lemma_generic_round_trip(RFC3597_PFX.spec_bytes(), v as nat, 0xFFFF);
        let t = rcode_text(v);
        lemma_decimal_bytes(v as nat);
        assert(t.len() > 5);
        assert(t[0] == 'R');
        assert(t[1] == 'C');
        assert(t[2] == 'O');
        assert(t[3] == 'D');
        assert(t[4] == 'E');
        if rcode_named(t) {
            let w = choose|w: u16| rcode_defined(w) && #[trigger] rcode_name(w)@ == t;
            lemma_rcode_names_not_generic(w, t);
        }
        vstd::utf8::encode_utf8_decode_utf8(t);
    }
}

/// A DNS response code, the `RCODE` of a message, possibly extended by the `OPT`
/// pseudo-record to 12 bits.
///
/// Values with no named constant are supported too; their text is `RCODE` followed by the
/// value in decimal.
#[derive(Copy, Clone, PartialEq, Eq, Structural, PartialOrd, Ord, Hash, Debug)]
pub struct RCode(u16);

impl View for RCode {
    type V = u16;

    /// The numerical value.
    closed spec fn view(&self) -> u16 {
        self.0
    }
}

impl RCode {
    /// The value of NOERROR: no error condition.
    pub const NOERROR: u16 = 0;

    /// The value of FORMERR: format error - the name server was unable to interpret the query.
    pub const FORMERR: u16 = 1;

    /// The value of SERVFAIL: server failure - the name server was unable to process the query.
    pub const SERVFAIL: u16 = 2;

    /// The value of NXDOMAIN: name error - the domain name does not exist.
    pub const NXDOMAIN: u16 = 3;

    /// The value of NOTIMP: not implemented - the name server does not support the kind of query.
    pub const NOTIMP: u16 = 4;

    /// The value of REFUSED: refused - the name server refuses the operation for policy reasons.
    pub const REFUSED: u16 = 5;

    /// The value of BADVERS: bad version.
    pub const BADVERS: u16 = 16;

    /// Returns the name of the response code, or `"__UNKNOWN_RCODE__"` for a value with no named
    /// constant.
    pub fn name(self) -> (r: &'static str)
        ensures
            r == rcode_name(self@),
    {
        match self.0 {
            0 => "NOERROR",
            1 => "FORMERR",
            2 => "SERVFAIL",
            3 => "NXDOMAIN",
            4 => "NOTIMP",
            5 => "REFUSED",
            16 => "BADVERS",
            _ => UNKNOWN_RCODE,
        }
    }

    /// The response code with the numerical value `v`.
    pub closed spec fn spec_from_value(v: u16) -> RCode {
        RCode(v)
    }

    /// The response code made from a numerical value has that value.
    pub broadcast proof fn lemma_from_value(v: u16)
        ensures
            #[trigger] RCode::spec_from_value(v)@ == v,
    {
    }

    /// A value is the one made from its number.
    pub proof fn lemma_value_of(t: RCode)
        ensures
            RCode::spec_from_value(t@) == t,
    {
    }

    /// Returns the numerical value.
    pub fn value(self) -> (r: u16)
        ensures
            r == self@,
    {
        self.0
    }

    /// Creates an extended response code: the low 4 bits come from `base`, as the message
    /// header holds it, and the high 8 bits from `extension`, as the `OPT` pseudo-record
    /// holds it.
    pub fn extended(base: RCode, extension: u8) -> (r: RCode)
        ensures
            r@ == base@ % 16 + 16 * extension,
    {
        let b: u16 = base.0;
        let e: u16 = extension as u16;
        let v: u16 = (b & 0xF) | (e << 4);
        assert(v == b % 16 + 16 * e) by (bit_vector)
            requires
                v == (b & 0xF) | (e << 4),
                e < 256,
        ;
        RCode(v)
    }

    /// Creates a response code value from its name, as [`RCode::name`] returns it; the comparison is
    /// case-sensitive.
    ///
    /// # Errors
    ///
    /// [`UnknownRCodeName`] when no value with a named constant has the name.
    pub fn from_name(name: &str) -> (r: core::result::Result<RCode, UnknownRCodeName>)
        ensures
            match r {
                Ok(t) => rcode_defined(t@) && rcode_name(t@)@ == name@,
                Err(_) => !rcode_named(name@),
            },
    {
        if str_eq(name, "NOERROR") {
            return Ok(RCode(RCode::NOERROR));
        }
        if str_eq(name, "FORMERR") {
            return Ok(RCode(RCode::FORMERR));
        }
        if str_eq(name, "SERVFAIL") {
            return Ok(RCode(RCode::SERVFAIL));
        }
        if str_eq(name, "NXDOMAIN") {
            return Ok(RCode(RCode::NXDOMAIN));
        }
        if str_eq(name, "NOTIMP") {
            return Ok(RCode(RCode::NOTIMP));
        }
        if str_eq(name, "REFUSED") {
            return Ok(RCode(RCode::REFUSED));
        }
        if str_eq(name, "BADVERS") {
            return Ok(RCode(RCode::BADVERS));
        }
        Err(UnknownRCodeName)
    }

    /// Checks if the value has a named constant.
    pub fn is_defined(self) -> (r: bool)
        ensures
            r == rcode_defined(self@),
    {
        match self.0 {
            0 | 1 | 2 | 3 | 4 | 5 | 16 => true,
            _ => false,
        }
    }

    /// Creates a response code value from its text: a name, or `RCODE` followed by a decimal value.
    ///
    /// # Errors
    ///
    /// [`RCodeFromStrError`] when the text stands for no value.
    pub fn from_str(s: &str) -> (r: core::result::Result<RCode, RCodeFromStrError>)
        ensures
            match rcode_of_text(s@) {
                Some(v) => r matches Ok(t) && t@ == v,
                None => r is Err,
            },
    {
        match RCode::from_name(s) {
            Ok(t) => {
                proof {
                    let w = choose|w: u16| rcode_defined(w) && #[trigger] rcode_name(w)@ == s@;
                    lemma_rcode_names_distinct(w, t@);
                }
                return Ok(t);
            },
            Err(_) => {},
        }
        proof {
            reveal_strlit("RCODE");
        }
        match parse_generic(s, RFC3597_PFX, 0xFFFF) {
            Some(v) => Ok(RCode(v as u16)),
            None => Err(RCodeFromStrError),
        }
    }

    /// Returns the text of the value: its name, or `RCODE` followed by the value in decimal
    /// when it has no named constant.
    pub fn to_string(&self) -> (s: String)
        ensures
            s@ == rcode_text(self@),
    {
        if self.is_defined() {
            self.name().to_owned()
        } else {
            proof {
                reveal_strlit("RCODE");
                lemma_ascii_text(RFC3597_PFX);
            }
            prefixed_decimal_string(RFC3597_PFX, self.0 as u32)
        }
    }
}

impl From<u16> for RCode {
    fn from(value: u16) -> (r: RCode) {
        RCode(value)
    }
}

impl vstd::std_specs::convert::FromSpecImpl<u16> for RCode {
    open spec fn obeys_from_spec() -> bool {
        true
    }

    open spec fn from_spec(value: u16) -> RCode {
        RCode::spec_from_value(value)
    }
}

impl PartialEq<u16> for RCode {
    fn eq(&self, other: &u16) -> (r: bool) {
        self.0 == *other
    }
}

impl vstd::std_specs::cmp::PartialEqSpecImpl<u16> for RCode {
    open spec fn obeys_eq_spec() -> bool {
        true
    }

    open spec fn eq_spec(&self, other: &u16) -> bool {
        self@ == *other
    }
}

impl PartialOrd<u16> for RCode {
    fn partial_cmp(&self, other: &u16) -> (r: Option<Ordering>) {
        if self.0 < *other {
            Some(Ordering::Less)
        } else if self.0 == *other {
            Some(Ordering::Equal)
        } else {
            Some(Ordering::Greater)
        }
    }
}

impl vstd::std_specs::cmp::PartialOrdSpecImpl<u16> for RCode {
    open spec fn obeys_partial_cmp_spec() -> bool {
        true
    }

    open spec fn partial_cmp_spec(&self, other: &u16) -> Option<Ordering> {
        if self@ < *other {
            Some(Ordering::Less)
        } else if self@ == *other {
            Some(Ordering::Equal)
        } else {
            Some(Ordering::Greater)
        }
    }
}

impl core::str::FromStr for RCode {
    type Err = RCodeFromStrError;

    fn from_str(s: &str) -> (r: core::result::Result<RCode, RCodeFromStrError>)
        ensures
            match rcode_of_text(s@) {
                Some(v) => r matches Ok(t) && t@ == v,
                None => r is Err,
            },
    {
        RCode::from_str(s)
    }
}

} // verus!
