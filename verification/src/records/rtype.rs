//! DNS record types.

use core::cmp::Ordering;
use vstd::prelude::*;
use vstd::string::StringSliceAdditionalSpecFns;
use vstd::utf8::encode_utf8;

use crate::bytes::{u16_read, Cursor, CursorView, Reader};
use crate::errors::{Error, Result, TypeFromStrError, UnknownTypeName};
use crate::text::{generic_value, lemma_ascii_text, lemma_decimal_bytes, lemma_generic_round_trip, parse_generic, prefixed_decimal, prefixed_decimal_string, str_eq};

verus! {

/// The name given to type values with no named constant.
pub const UNKNOWN_TYPE: &'static str = "__UNKNOWN_TYPE__";

/// The prefix of the generic text of a type value.
pub const RFC3597_PFX: &'static str = "TYPE";

/// The name of a type value with a named constant, or `__UNKNOWN_TYPE__`.
pub open spec fn rtype_name(v: u16) -> &'static str {
    if v == 1 {
        "A"
    } else if v == 2 {
        "NS"
    } else if v == 3 {
        "MD"
    } else if v == 4 {
        "MF"
    } else if v == 5 {
        "CNAME"
    } else if v == 6 {
        "SOA"
    } else if v == 7 {
        "MB"
    } else if v == 8 {
        "MG"
    } else if v == 9 {
        "MR"
    } else if v == 10 {
        "NULL"
    } else if v == 11 {
        "WKS"
    } else if v == 12 {
        "PTR"
    } else if v == 13 {
        "HINFO"
    } else if v == 14 {
        "MINFO"
    } else if v == 15 {
        "MX"
    } else if v == 16 {
        "TXT"
    } else if v == 28 {
        "AAAA"
    } else if v == 41 {
        "OPT"
    } else if v == 252 {
        "AXFR"
    } else if v == 253 {
        "MAILB"
    } else if v == 254 {
        "MAILA"
    } else if v == 255 {
        "ANY"
    } else {
        UNKNOWN_TYPE
    }
}

/// Type values with a named constant.
pub open spec fn rtype_defined(v: u16) -> bool {
    v == 1
        || v == 2
        || v == 3
        || v == 4
        || v == 5
        || v == 6
        || v == 7
        || v == 8
        || v == 9
        || v == 10
        || v == 11
        || v == 12
        || v == 13
        || v == 14
        || v == 15
        || v == 16
        || v == 28
        || v == 41
        || v == 252
        || v == 253
        || v == 254
        || v == 255
}

/// The text of a type value: its name, or `TYPE` and the value in decimal when it has
/// no named constant.
pub open spec fn rtype_text(v: u16) -> Seq<char> {
    if rtype_defined(v) {
        rtype_name(v)@
    } else {
        prefixed_decimal(RFC3597_PFX.spec_bytes(), v as nat)
    }
}

/// Some type value with a named constant has the name `s`.
pub open spec fn rtype_named(s: Seq<char>) -> bool {
    exists|v: u16| rtype_defined(v) && #[trigger] rtype_name(v)@ == s
}

/// The type value that the text `s` stands for: the value whose name it is, or the value
/// in the generic text `TYPE` and a decimal number.
pub open spec fn rtype_of_text(s: Seq<char>) -> Option<u16> {
    if rtype_named(s) {
        Some(choose|v: u16| rtype_defined(v) && #[trigger] rtype_name(v)@ == s)
    } else {
        match generic_value(encode_utf8(s), RFC3597_PFX.spec_bytes(), 0xFFFF) {
            Some(n) => Some(n as u16),
            None => None,
        }
    }
}

/// Distinct type values with named constants have distinct names.
pub proof fn lemma_rtype_names_distinct(a: u16, b: u16)
    requires
        rtype_defined(a),
        rtype_defined(b),
        rtype_name(a)@ == rtype_name(b)@,
    ensures
        a == b,
{
    reveal_strlit("A");
    reveal_strlit("NS");
    reveal_strlit("MD");
    reveal_strlit("MF");
    reveal_strlit("CNAME");
    reveal_strlit("SOA");
    reveal_strlit("MB");
    reveal_strlit("MG");
    reveal_strlit("MR");
    reveal_strlit("NULL");
    reveal_strlit("WKS");
    reveal_strlit("PTR");
    reveal_strlit("HINFO");
    reveal_strlit("MINFO");
    reveal_strlit("MX");
    reveal_strlit("TXT");
    reveal_strlit("AAAA");
    reveal_strlit("OPT");
    reveal_strlit("AXFR");
    reveal_strlit("MAILB");
    reveal_strlit("MAILA");
    reveal_strlit("ANY");
    let x = rtype_name(a)@;
    let y = rtype_name(b)@;
    assert(x.len() == y.len());
    assert(x[0] == y[0]);
    assert(x[x.len() - 1] == y[y.len() - 1]);
}

/// No name of a type value starts with the generic prefix `TYPE`.
proof fn lemma_rtype_names_not_generic(v: u16, s: Seq<char>)
    requires
        rtype_defined(v),
        s.len() > 4,
        s[0] == 'T',
        s[1] == 'Y',
        s[2] == 'P',
        s[3] == 'E',
    ensures
        rtype_name(v)@ != s,
{
    reveal_strlit("A");
    reveal_strlit("NS");
    reveal_strlit("MD");
    reveal_strlit("MF");
    reveal_strlit("CNAME");
    reveal_strlit("SOA");
    reveal_strlit("MB");
    reveal_strlit("MG");
    reveal_strlit("MR");
    reveal_strlit("NULL");
    reveal_strlit("WKS");
    reveal_strlit("PTR");
    reveal_strlit("HINFO");
    reveal_strlit("MINFO");
    reveal_strlit("MX");
    reveal_strlit("TXT");
    reveal_strlit("AAAA");
    reveal_strlit("OPT");
    reveal_strlit("AXFR");
    reveal_strlit("MAILB");
    reveal_strlit("MAILA");
    reveal_strlit("ANY");
}

/// The text of a type value stands for that value.
pub proof fn lemma_rtype_text_round_trip(v: u16)
    ensures
        rtype_of_text(rtype_text(v)) == Some(v),
{
    if rtype_defined(v) {
        let w = choose|w: u16| rtype_defined(w) && #[trigger] rtype_name(w)@ == rtype_name(v)@;
        assert(rtype_defined(v) && rtype_name(v)@ == rtype_name(v)@);
        lemma_rtype_names_distinct(w, v);
    } else {
        reveal_strlit("TYPE");
        lemma_ascii_text(RFC3597_PFX);
        lemma_generic_round_trip(RFC3597_PFX.spec_bytes(), v as nat, 0xFFFF);
        let t = rtype_text(v);
        lemma_decimal_bytes(v as nat);
        assert(t.len() > 4);
        assert(t[0] == 'T');
        assert(t[1] == 'Y');
        assert(t[2] == 'P');
        assert(t[3] == 'E');
        if rtype_named(t) {
            let w = choose|w: u16| rtype_defined(w) && #[trigger] rtype_name(w)@ == t;
            lemma_rtype_names_not_generic(w, t);
        }
        vstd::utf8::encode_utf8_decode_utf8(t);
    }
}

/// A DNS record type, the `TYPE` value of a resource record.
///
/// It is a 16-bit value. Values with no named constant are supported too; their text is
/// `TYPE` followed by the value in decimal.
#[derive(Copy, Clone, PartialEq, Eq, Structural, PartialOrd, Ord, Hash, Debug, Default)]
pub struct Type(u16);

impl View for Type {
    type V = u16;

    /// The numerical value.
    closed spec fn view(&self) -> u16 {
        self.0
    }
}

impl Type {
    /// The value of A: a host address (IPv4).
    pub const A: u16 = 1;

    /// The value of NS: an authoritative name server.
    pub const NS: u16 = 2;

    /// The value of MD: a mail destination (obsolete - use MX).
    pub const MD: u16 = 3;

    /// The value of MF: a mail forwarder (obsolete - use MX).
    pub const MF: u16 = 4;

    /// The value of CNAME: the canonical name of an alias.
    pub const CNAME: u16 = 5;

    /// The value of SOA: marks the start of a zone authority.
    pub const SOA: u16 = 6;

    /// The value of MB: a mailbox domain name.
    pub const MB: u16 = 7;

    /// The value of MG: a mail group member.
    pub const MG: u16 = 8;

    /// The value of MR: a mail rename domain name.
    pub const MR: u16 = 9;

    /// The value of NULL: a NULL RR.
    pub const NULL: u16 = 10;

    /// The value of WKS: a well known service description.
    pub const WKS: u16 = 11;

    /// The value of PTR: a domain name pointer.
    pub const PTR: u16 = 12;

    /// The value of HINFO: host information.
    pub const HINFO: u16 = 13;

    /// The value of MINFO: mailbox or mail list information.
    pub const MINFO: u16 = 14;

    /// The value of MX: mail exchange.
    pub const MX: u16 = 15;

    /// The value of TXT: text strings.
    pub const TXT: u16 = 16;

    /// The value of AAAA: a host address (IPv6).
    pub const AAAA: u16 = 28;

    /// The value of OPT: the EDNS(0) OPT pseudo-record.
    pub const OPT: u16 = 41;

    /// The value of AXFR: a request for a transfer of an entire zone.
    pub const AXFR: u16 = 252;

    /// The value of MAILB: a request for mailbox-related records (MB, MG or MR).
    pub const MAILB: u16 = 253;

    /// The value of MAILA: a request for mail agent records (obsolete - see MX).
    pub const MAILA: u16 = 254;

    /// The value of ANY: a request for all records.
    pub const ANY: u16 = 255;

    /// Returns the name of the type, or `"__UNKNOWN_TYPE__"` for a value with no named
    /// constant.
    pub fn name(self) -> (r: &'static str)
        ensures
            r == rtype_name(self@),
    {
        match self.0 {
            1 => "A",
            2 => "NS",
            3 => "MD",
            4 => "MF",
            5 => "CNAME",
            6 => "SOA",
            7 => "MB",
            8 => "MG",
            9 => "MR",
            10 => "NULL",
            11 => "WKS",
            12 => "PTR",
            13 => "HINFO",
            14 => "MINFO",
            15 => "MX",
            16 => "TXT",
            28 => "AAAA",
            41 => "OPT",
            252 => "AXFR",
            253 => "MAILB",
            254 => "MAILA",
            255 => "ANY",
            _ => UNKNOWN_TYPE,
        }
    }

    /// The type with the numerical value `v`.
    pub closed spec fn spec_from_value(v: u16) -> Type {
        Type(v)
    }

    /// The type made from a numerical value has that value.
    pub broadcast proof fn lemma_from_value(v: u16)
        ensures
            #[trigger] Type::spec_from_value(v)@ == v,
    {
    }

    /// A value is the one made from its number.
    pub proof fn lemma_value_of(t: Type)
        ensures
            Type::spec_from_value(t@) == t,
    {
    }

    /// Returns the numerical value.
    pub fn value(self) -> (r: u16)
        ensures
            r == self@,
    {
        self.0
    }

    /// Checks if this is a data-type value.
    pub fn is_data_type(self) -> (r: bool)
        ensures
            r == ((0x0001 <= self@ && self@ <= 0x007F) || (0x0100 <= self@ && self@ <= 0xEFFF)),
    {
        (0x0001 <= self.0 && self.0 <= 0x007F) || (0x0100 <= self.0 && self.0 <= 0xEFFF)
    }

    /// Checks if this is a question-type or a meta-type value.
    pub fn is_meta_type(self) -> (r: bool)
        ensures
            r == (0x0080 <= self@ && self@ <= 0x00FF),
    {
        0x0080 <= self.0 && self.0 <= 0x00FF
    }

    /// Creates a type value from its name, as [`Type::name`] returns it; the comparison is
    /// case-sensitive.
    ///
    /// # Errors
    ///
    /// [`UnknownTypeName`] when no value with a named constant has the name.
    pub fn from_name(name: &str) -> (r: core::result::Result<Type, UnknownTypeName>)
        ensures
            match r {
                Ok(t) => rtype_defined(t@) && rtype_name(t@)@ == name@,
                Err(_) => !rtype_named(name@),
            },
    {
        if str_eq(name, "A") {
            return Ok(Type(Type::A));
        }
        if str_eq(name, "NS") {
            return Ok(Type(Type::NS));
        }
        if str_eq(name, "MD") {
            return Ok(Type(Type::MD));
        }
        if str_eq(name, "MF") {
            return Ok(Type(Type::MF));
        }
        if str_eq(name, "CNAME") {
            return Ok(Type(Type::CNAME));
        }
        if str_eq(name, "SOA") {
            return Ok(Type(Type::SOA));
        }
        if str_eq(name, "MB") {
            return Ok(Type(Type::MB));
        }
        if str_eq(name, "MG") {
            return Ok(Type(Type::MG));
        }
        if str_eq(name, "MR") {
            return Ok(Type(Type::MR));
        }
        if str_eq(name, "NULL") {
            return Ok(Type(Type::NULL));
        }
        if str_eq(name, "WKS") {
            return Ok(Type(Type::WKS));
        }
        if str_eq(name, "PTR") {
            return Ok(Type(Type::PTR));
        }
        if str_eq(name, "HINFO") {
            return Ok(Type(Type::HINFO));
        }
        if str_eq(name, "MINFO") {
            return Ok(Type(Type::MINFO));
        }
        if str_eq(name, "MX") {
            return Ok(Type(Type::MX));
        }
        if str_eq(name, "TXT") {
            return Ok(Type(Type::TXT));
        }
        if str_eq(name, "AAAA") {
            return Ok(Type(Type::AAAA));
        }
        if str_eq(name, "OPT") {
            return Ok(Type(Type::OPT));
        }
        if str_eq(name, "AXFR") {
            return Ok(Type(Type::AXFR));
        }
        if str_eq(name, "MAILB") {
            return Ok(Type(Type::MAILB));
        }
        if str_eq(name, "MAILA") {
            return Ok(Type(Type::MAILA));
        }
        if str_eq(name, "ANY") {
            return Ok(Type(Type::ANY));
        }
        Err(UnknownTypeName)
    }

    /// Checks if the value has a named constant.
    pub fn is_defined(self) -> (r: bool)
        ensures
            r == rtype_defined(self@),
    {
        match self.0 {
            1 | 2 | 3 | 4 | 5 | 6 | 7 | 8 | 9 | 10 | 11 | 12 | 13 | 14 | 15 | 16 | 28 | 41 | 252 | 253 | 254 | 255 => true,
            _ => false,
        }
    }

    /// Creates a type value from its text: a name, or `TYPE` followed by a decimal value.
    ///
    /// # Errors
    ///
    /// [`TypeFromStrError`] when the text stands for no value.
    pub fn from_str(s: &str) -> (r: core::result::Result<Type, TypeFromStrError>)
        ensures
            match rtype_of_text(s@) {
                Some(v) => r matches Ok(t) && t@ == v,
                None => r is Err,
            },
    {
        match Type::from_name(s) {
            Ok(t) => {
                proof {
                    let w = choose|w: u16| rtype_defined(w) && #[trigger] rtype_name(w)@ == s@;
                    lemma_rtype_names_distinct(w, t@);
                }
                return Ok(t);
            },
            Err(_) => {},
        }
        proof {
            reveal_strlit("TYPE");
        }
        match parse_generic(s, RFC3597_PFX, 0xFFFF) {
            Some(v) => Ok(Type(v as u16)),
            None => Err(TypeFromStrError),
        }
    }

    /// Returns the text of the value: its name, or `TYPE` followed by the value in decimal
    /// when it has no named constant.
    pub fn to_string(&self) -> (s: String)
        ensures
            s@ == rtype_text(self@),
    {
        if self.is_defined() {
            self.name().to_owned()
        } else {
            proof {
                reveal_strlit("TYPE");
                lemma_ascii_text(RFC3597_PFX);
            }
            prefixed_decimal_string(RFC3597_PFX, self.0 as u32)
        }
    }
}

impl From<u16> for Type {
    fn from(value: u16) -> (r: Type) {
        Type(value)
    }
}

impl vstd::std_specs::convert::FromSpecImpl<u16> for Type {
    open spec fn obeys_from_spec() -> bool {
        true
    }

    open spec fn from_spec(value: u16) -> Type {
        Type::spec_from_value(value)
    }
}

impl PartialEq<u16> for Type {
    fn eq(&self, other: &u16) -> (r: bool) {
        self.0 == *other
    }
}

impl vstd::std_specs::cmp::PartialEqSpecImpl<u16> for Type {
    open spec fn obeys_eq_spec() -> bool {
        true
    }

    open spec fn eq_spec(&self, other: &u16) -> bool {
        self@ == *other
    }
}

impl PartialOrd<u16> for Type {
    fn partial_cmp(&self, other: &u16) -> (r: Option<Ordering>) {
        if self.0 < *other {
            Some(Ordering::Less)
        } else if self.0 == *other {
            Some(Ordering::Equal)
        } else {
            Some(Ordering::Greater)
        }
    }
}

impl vstd::std_specs::cmp::PartialOrdSpecImpl<u16> for Type {
    open spec fn obeys_partial_cmp_spec() -> bool {
        true
    }

    open spec fn partial_cmp_spec(&self, other: &u16) -> Option<Ordering> {
        if self@ < *other {
            Some(Ordering::Less)
        } else if self@ == *other {
            Some(Ordering::Equal)
        } else {
            Some(Ordering::Greater)
        }
    }
}

impl core::str::FromStr for Type {
    type Err = TypeFromStrError;

    fn from_str(s: &str) -> (r: core::result::Result<Type, TypeFromStrError>)
        ensures
            match rtype_of_text(s@) {
                Some(v) => r matches Ok(t) && t@ == v,
                None => r is Err,
            },
    {
        Type::from_str(s)
    }
}

impl Type {
    /// What reading a value as a big-endian 16-bit number gives, from the cursor `c` to `c2`.
    pub open spec fn read_outcome(c: CursorView, r: Result<Type>, c2: CursorView) -> bool {
        match u16_read(c) {
            (Ok(v), c1) => r matches Ok(t) && t@ == v && c2 == c1,
            (Err(e), c1) => r == Err::<Type, Error>(e) && c2 == c1,
        }
    }
}

impl<'a> Reader<Type> for Cursor<'a> {
    /// Reads a value as a big-endian 16-bit number.
    fn read(&mut self) -> (r: Result<Type>)
        ensures
            Type::read_outcome(old(self)@, r, final(self)@),
    {
        match self.u16_be() {
            Ok(v) => {
                proof {
                    Type::lemma_from_value(v);
                }
                Ok(Type::from(v))
            },
            Err(e) => Err(e),
        }
    }
}

} // verus!
