//! DNS record classes.

use core::cmp::Ordering;
use vstd::prelude::*;
use vstd::string::StringSliceAdditionalSpecFns;
use vstd::utf8::encode_utf8;

use crate::bytes::{u16_read, Cursor, CursorView, Reader};
use crate::errors::{Error, Result, ClassFromStrError, UnknownClassName};
use crate::text::{generic_value, lemma_ascii_text, lemma_decimal_bytes, lemma_generic_round_trip, parse_generic, prefixed_decimal, prefixed_decimal_string, str_eq};

verus! {

/// The name given to class values with no named constant.
pub const UNKNOWN_CLASS: &'static str = "__UNKNOWN_CLASS__";

/// The prefix of the generic text of a class value.
pub const RFC3597_PFX: &'static str = "CLASS";

/// The name of a class value with a named constant, or `__UNKNOWN_CLASS__`.
pub open spec fn class_name(v: u16) -> &'static str {
    if v == 1 {
        "IN"
    } else if v == 2 {
        "CS"
    } else if v == 3 {
        "CH"
    } else if v == 4 {
        "HS"
    } else if v == 255 {
        "ANY"
    } else {
        UNKNOWN_CLASS
    }
}

/// Class values with a named constant.
pub open spec fn class_defined(v: u16) -> bool {
    v == 1
        || v == 2
        || v == 3
        || v == 4
        || v == 255
}

/// The text of a class value: its name, or `CLASS` and the value in decimal when it has
/// no named constant.
pub open spec fn class_text(v: u16) -> Seq<char> {
    if class_defined(v) {
        class_name(v)@
    } else {
        prefixed_decimal(RFC3597_PFX.spec_bytes(), v as nat)
    }
}

/// Some class value with a named constant has the name `s`.
pub open spec fn class_named(s: Seq<char>) -> bool {
    exists|v: u16| class_defined(v) && #[trigger] class_name(v)@ == s
}

/// The class value that the text `s` stands for: the value whose name it is, or the value
/// in the generic text `CLASS` and a decimal number.
pub open spec fn class_of_text(s: Seq<char>) -> Option<u16> {
    if class_named(s) {
        Some(choose|v: u16| class_defined(v) && #[trigger] class_name(v)@ == s)
    } else {
        match generic_value(encode_utf8(s), RFC3597_PFX.spec_bytes(), 0xFFFF) {
            Some(n) => Some(n as u16),
            None => None,
        }
    }
}

/// Distinct class values with named constants have distinct names.
pub proof fn lemma_class_names_distinct(a: u16, b: u16)
    requires
        class_defined(a),
        class_defined(b),
        class_name(a)@ == class_name(b)@,
    ensures
        a == b,
{
    reveal_strlit("IN");
    reveal_strlit("CS");
    reveal_strlit("CH");
    reveal_strlit("HS");
    reveal_strlit("ANY");
    let x = class_name(a)@;
    let y = class_name(b)@;
    assert(x.len() == y.len());
    assert(x[0] == y[0]);
    assert(x[x.len() - 1] == y[y.len() - 1]);
}

/// No name of a class value starts with the generic prefix `CLASS`.
proof fn lemma_class_names_not_generic(v: u16, s: Seq<char>)
    requires
        class_defined(v),
        s.len() > 5,
        s[0] == 'C',
        s[1] == 'L',
        s[2] == 'A',
        s[3] == 'S',
        s[4] == 'S',
    ensures
        class_name(v)@ != s,
{
    reveal_strlit("IN");
    reveal_strlit("CS");
    reveal_strlit("CH");
    reveal_strlit("HS");
    reveal_strlit("ANY");
}

/// The text of a class value stands for that value.
pub proof fn lemma_class_text_round_trip(v: u16)
    ensures
        class_of_text(class_text(v)) == Some(v),
{
    if class_defined(v) {
        let w = choose|w: u16| class_defined(w) && #[trigger] class_name(w)@ == class_name(v)@;
        assert(class_defined(v) && class_name(v)@ == class_name(v)@);
        lemma_class_names_distinct(w, v);
    } else {
        reveal_strlit("CLASS");
        lemma_ascii_text(RFC3597_PFX);
        lemma_generic_round_trip(RFC3597_PFX.spec_bytes(), v as nat, 0xFFFF);
        let t = class_text(v);
        lemma_decimal_bytes(v as nat);
        assert(t.len() > 5);
        assert(t[0] == 'C');
        assert(t[1] == 'L');
        assert(t[2] == 'A');
        assert(t[3] == 'S');
        assert(t[4] == 'S');
        if class_named(t) {
            let w = choose|w: u16| class_defined(w) && #[trigger] class_name(w)@ == t;
            lemma_class_names_not_generic(w, t);
        }
        vstd::utf8::encode_utf8_decode_utf8(t);
    }
}

/// A DNS record class, the `CLASS` value of a resource record.
///
/// It is a 16-bit value. Values with no named constant are supported too; their text is
/// `CLASS` followed by the value in decimal. The default class is `IN`.
#[derive(Copy, Clone, PartialEq, Eq, Structural, PartialOrd, Ord, Hash, Debug)]
pub struct Class(u16);

impl View for Class {
    type V = u16;

    /// The numerical value.
    closed spec fn view(&self) -> u16 {
        self.0
    }
}

impl Class {
    /// The value of IN: the Internet.
    pub const IN: u16 = 1;

    /// The value of CS: the CSNET class (obsolete).
    pub const CS: u16 = 2;

    /// The value of CH: the CHAOS class.
    pub const CH: u16 = 3;

    /// The value of HS: Hesiod.
    pub const HS: u16 = 4;

    /// The value of ANY: any class.
    pub const ANY: u16 = 255;

    /// Returns the name of the class, or `"__UNKNOWN_CLASS__"` for a value with no named
    /// constant.
    pub fn name(self) -> (r: &'static str)
        ensures
            r == class_name(self@),
    {
        match self.0 {
            1 => "IN",
            2 => "CS",
            3 => "CH",
            4 => "HS",
            255 => "ANY",
            _ => UNKNOWN_CLASS,
        }
    }

    /// The class with the numerical value `v`.
    pub closed spec fn spec_from_value(v: u16) -> Class {
        Class(v)
    }

    /// The class made from a numerical value has that value.
    pub broadcast proof fn lemma_from_value(v: u16)
        ensures
            #[trigger] Class::spec_from_value(v)@ == v,
    {
    }

    /// A value is the one made from its number.
    pub proof fn lemma_value_of(t: Class)
        ensures
            Class::spec_from_value(t@) == t,
    {
    }

    /// Returns the numerical value.
    pub fn value(self) -> (r: u16)
        ensures
            r == self@,
    {
        self.0
    }

    /// Checks if this is a data-class value.
    pub fn is_data_class(self) -> (r: bool)
        ensures
            r == (0x0001 <= self@ && self@ <= 0x007F),
    {
        0x0001 <= self.0 && self.0 <= 0x007F
    }

    /// Checks if this is a query-class or a meta-class value.
    pub fn is_meta_class(self) -> (r: bool)
        ensures
            r == (0x0080 <= self@ && self@ <= 0x00FF),
    {
        0x0080 <= self.0 && self.0 <= 0x00FF
    }

    /// Creates a class value from its name, as [`Class::name`] returns it; the comparison is
    /// case-sensitive.
    ///
    /// # Errors
    ///
    /// [`UnknownClassName`] when no value with a named constant has the name.
    pub fn from_name(name: &str) -> (r: core::result::Result<Class, UnknownClassName>)
        ensures
            match r {
                Ok(t) => class_defined(t@) && class_name(t@)@ == name@,
                Err(_) => !class_named(name@),
            },
    {
        if str_eq(name, "IN") {
            return Ok(Class(Class::IN));
        }
        if str_eq(name, "CS") {
            return Ok(Class(Class::CS));
        }
        if str_eq(name, "CH") {
            return Ok(Class(Class::CH));
        }
        if str_eq(name, "HS") {
            return Ok(Class(Class::HS));
        }
        if str_eq(name, "ANY") {
            return Ok(Class(Class::ANY));
        }
        Err(UnknownClassName)
    }

    /// Checks if the value has a named constant.
    pub fn is_defined(self) -> (r: bool)
        ensures
            r == class_defined(self@),
    {
        match self.0 {
            1 | 2 | 3 | 4 | 255 => true,
            _ => false,
        }
    }

    /// Creates a class value from its text: a name, or `CLASS` followed by a decimal value.
    ///
    /// # Errors
    ///
    /// [`ClassFromStrError`] when the text stands for no value.
    pub fn from_str(s: &str) -> (r: core::result::Result<Class, ClassFromStrError>)
        ensures
            match class_of_text(s@) {
                Some(v) => r matches Ok(t) && t@ == v,
                None => r is Err,
            },
    {
        match Class::from_name(s) {
            Ok(t) => {
                proof {
                    let w = choose|w: u16| class_defined(w) && #[trigger] class_name(w)@ == s@;
                    lemma_class_names_distinct(w, t@);
                }
                return Ok(t);
            },
            Err(_) => {},
        }
        proof {
            reveal_strlit("CLASS");
        }
        match parse_generic(s, RFC3597_PFX, 0xFFFF) {
            Some(v) => Ok(Class(v as u16)),
            None => Err(ClassFromStrError),
        }
    }

    /// Returns the text of the value: its name, or `CLASS` followed by the value in decimal
    /// when it has no named constant.
    pub fn to_string(&self) -> (s: String)
        ensures
            s@ == class_text(self@),
    {
        if self.is_defined() {
            self.name().to_owned()
        } else {
            proof {
                reveal_strlit("CLASS");
                lemma_ascii_text(RFC3597_PFX);
            }
            prefixed_decimal_string(RFC3597_PFX, self.0 as u32)
        }
    }
}

impl From<u16> for Class {
    fn from(value: u16) -> (r: Class) {
        Class(value)
    }
}

impl vstd::std_specs::convert::FromSpecImpl<u16> for Class {
    open spec fn obeys_from_spec() -> bool {
        true
    }

    open spec fn from_spec(value: u16) -> Class {
        Class::spec_from_value(value)
    }
}

impl PartialEq<u16> for Class {
    fn eq(&self, other: &u16) -> (r: bool) {
        self.0 == *other
    }
}

impl vstd::std_specs::cmp::PartialEqSpecImpl<u16> for Class {
    open spec fn obeys_eq_spec() -> bool {
        true
    }

    open spec fn eq_spec(&self, other: &u16) -> bool {
        self@ == *other
    }
}

impl PartialOrd<u16> for Class {
    fn partial_cmp(&self, other: &u16) -> (r: Option<Ordering>) {
        if self.0 < *other {
            Some(Ordering::Less)
        } else if self.0 == *other {
            Some(Ordering::Equal)
        } else {
            Some(Ordering::Greater)
        }
    }
}

impl vstd::std_specs::cmp::PartialOrdSpecImpl<u16> for Class {
    open spec fn obeys_partial_cmp_spec() -> bool {
        true
    }

    open spec fn partial_cmp_spec(&self, other: &u16) -> Option<Ordering> {
        if self@ < *other {
            Some(Ordering::Less)
        } else if self@ == *other {
            Some(Ordering::Equal)
        } else {
            Some(Ordering::Greater)
        }
    }
}

impl core::str::FromStr for Class {
    type Err = ClassFromStrError;

    fn from_str(s: &str) -> (r: core::result::Result<Class, ClassFromStrError>)
        ensures
            match class_of_text(s@) {
                Some(v) => r matches Ok(t) && t@ == v,
                None => r is Err,
            },
    {
        Class::from_str(s)
    }
}

impl Default for Class {
    fn default() -> (r: Class)
        ensures
            r@ == Class::IN,
    {
        Class(Class::IN)
    }
}

impl Class {
    /// What reading a value as a big-endian 16-bit number gives, from the cursor `c` to `c2`.
    pub open spec fn read_outcome(c: CursorView, r: Result<Class>, c2: CursorView) -> bool {
        match u16_read(c) {
            (Ok(v), c1) => r matches Ok(t) && t@ == v && c2 == c1,
            (Err(e), c1) => r == Err::<Class, Error>(e) && c2 == c1,
        }
    }
}

impl<'a> Reader<Class> for Cursor<'a> {
    /// Reads a value as a big-endian 16-bit number.
    fn read(&mut self) -> (r: Result<Class>)
        ensures
            Class::read_outcome(old(self)@, r, final(self)@),
    {
        match self.u16_be() {
            Ok(v) => {
                proof {
                    Class::lemma_from_value(v);
                }
                Ok(Class::from(v))
            },
            Err(e) => Err(e),
        }
    }
}

} // verus!
