//! A domain name stored on the heap.

use core::cmp::Ordering;
use vstd::prelude::*;
use vstd::string::StringSliceAdditionalSpecFns;

use crate::bytes::Cursor;
use crate::constants::DOMAIN_NAME_MAX_LENGTH;
use crate::errors::{Error, Result};
use crate::message::reader::label_ref::{bytes_eq_ignore_case, eq_ignore_case};
use crate::message::reader::labels::{read_domain_name, read_name_spec};
use crate::names::compare::{eq_str_bytes, eq_str_spec, name_order, order_bytes};
use crate::names::dname::{DName, DNameBase};
use crate::names::inline_name::InlineName;
use crate::names::utils::{absolute, check_label_bytes, check_name, check_name_spec, is_ascii_bytes, lemma_ascii_encoding, lemma_name_append, lemma_valid_name, name_append, str_from_utf8};

verus! {

/// A domain name backed by a heap-allocated buffer.
///
/// The name is held in its textual form, each label followed by a dot: `example.com.`.
/// The root zone is `.`. Names compare equal ignoring ASCII case.
#[derive(Debug)]
pub struct Name {
    bytes: Vec<u8>,
}

impl View for Name {
    type V = Seq<u8>;

    /// The textual form of the name, as bytes.
    closed spec fn view(&self) -> Seq<u8> {
        self.bytes@
    }
}

impl Name {
    #[verifier::type_invariant]
    spec fn inv(&self) -> bool {
        is_ascii_bytes(self.bytes@) && self.bytes@.len() <= 255
    }

    /// Creates an empty domain name.
    pub fn new() -> (n: Name)
        ensures
            n@ == Seq::<u8>::empty(),
    {
        Name { bytes: Vec::new() }
    }

    /// Creates a domain name denoting the root zone `.`.
    pub fn root() -> (n: Name)
        ensures
            n@ == seq![46u8],
    {
        let mut bytes = Vec::new();
        bytes.push(46u8);
        Name { bytes }
    }

    /// Creates a domain name from its textual form.
    ///
    /// A final dot is added when `s` has none.
    ///
    /// # Errors
    ///
    /// The errors of [`check_name`]: an empty label, an invalid label or a name too long.
    pub fn from(s: &str) -> (r: Result<Name>)
        ensures
            match check_name_spec(s.spec_bytes()) {
                Ok(_) => r matches Ok(n) && n@ == absolute(s.spec_bytes()),
                Err(e) => r == Err::<Name, Error>(e),
            },
    {
        match check_name(s) {
            Ok(_) => {},
            Err(e) => return Err(e),
        }
        proof {
            lemma_valid_name(s.spec_bytes());
        }
        let b = s.as_bytes();
        let mut bytes = vstd::slice::slice_to_vec(b);
        if b[b.len() - 1] != 46 {
            bytes.push(46u8);
        }
        Ok(Name { bytes })
    }

    /// Returns the domain name as string slice.
    pub fn as_str(&self) -> (s: &str)
        ensures
            s.spec_bytes() == self@,
            is_ascii_bytes(self@),
            self@.len() <= 255,
    {
        proof {
            use_type_invariant(self);
            lemma_ascii_encoding(self.bytes@);
        }
        match str_from_utf8(self.bytes.as_slice()) {
            Some(s) => s,
            None => {
                assert(false);
                ""
            },
        }
    }

    /// Converts an inline name into a heap-allocated one with the same text.
    pub fn from_inline(name: &InlineName) -> (r: Name)
        ensures
            r@ == name@,
    {
        let s = name.as_str();
        let bytes = vstd::slice::slice_to_vec(s.as_bytes());
        Name { bytes }
    }

    /// Returns the length of the domain name in bytes.
    pub fn len(&self) -> (n: usize)
        ensures
            n == self@.len(),
    {
        self.bytes.len()
    }

    /// Checks if the domain name is empty.
    pub fn is_empty(&self) -> (b: bool)
        ensures
            b == (self@.len() == 0),
    {
        self.bytes.len() == 0
    }

    /// Clears the domain name to be empty.
    pub fn clear(&mut self)
        ensures
            final(self)@ == Seq::<u8>::empty(),
    {
        self.bytes = Vec::new();
    }

    /// Appends a label, given as bytes, to the domain name.
    ///
    /// On error the domain name is left unchanged.
    pub fn append_label_bytes(&mut self, label: &[u8]) -> (r: Result<()>)
        ensures
            match name_append(old(self)@, label@) {
                Ok(t) => r == Ok::<(), Error>(()) && final(self)@ == t,
                Err(e) => r == Err::<(), Error>(e) && final(self)@ == old(self)@,
            },
    {
        proof {
            use_type_invariant(&*self);
        }
        match check_label_bytes(label) {
            Ok(_) => {},
            Err(e) => return Err(e),
        }
        let new_len = self.bytes.len() + label.len() + 1;
        if new_len > DOMAIN_NAME_MAX_LENGTH {
            return Err(Error::DomainNameTooLong(new_len));
        }
        proof {
            lemma_name_append(self.bytes@, label@);
        }
        let mut bytes = self.bytes.clone();
        assert(bytes@ =~= self.bytes@);
        bytes.extend_from_slice(label);
        bytes.push(46u8);
        assert(bytes@ =~= self.bytes@ + label@ + seq![46u8]);
        *self = Name { bytes };
        Ok(())
    }

    /// Appends a label to the domain name.
    ///
    /// On error the domain name is left unchanged.
    pub fn append_label(&mut self, label: &str) -> (r: Result<()>)
        ensures
            match name_append(old(self)@, label.spec_bytes()) {
                Ok(t) => r == Ok::<(), Error>(()) && final(self)@ == t,
                Err(e) => r == Err::<(), Error>(e) && final(self)@ == old(self)@,
            },
    {
        self.append_label_bytes(label.as_bytes())
    }

    /// Sets the domain name to denote the root zone `.`.
    pub fn set_root(&mut self)
        ensures
            final(self)@ == seq![46u8],
    {
        *self = Name::root();
    }

    /// Reads a domain name from a cursor.
    pub fn from_cursor(c: &mut Cursor<'_>) -> (r: Result<Name>)
        ensures
            match read_name_spec(old(c)@) {
                Ok((t, p)) => (r matches Ok(n) && n@ == t) && final(c)@ == old(c)@.at(p),
                Err(e) => r matches Err(e2) && e2 == e && final(c)@ == old(c)@,
            },
    {
        read_domain_name(c)
    }

    /// Compares this name with a string, ignoring ASCII case; a missing final dot in `other`
    /// is disregarded.
    pub fn eq_str(&self, other: &str) -> (r: bool)
        ensures
            r == eq_str_spec(self@, other.spec_bytes()),
    {
        eq_str_bytes(self.bytes.as_slice(), other.as_bytes())
    }

    /// Orders this name and another one, ignoring ASCII case.
    pub fn cmp(&self, other: &Name) -> (r: Ordering)
        ensures
            r == name_order(self@, other@),
    {
        order_bytes(self.bytes.as_slice(), other.bytes.as_slice())
    }

    /// Returns the textual form of the name.
    pub fn to_string(&self) -> (s: String)
        ensures
            s@ == self.as_str_view(),
    {
        let s = self.as_str();
        proof {
            vstd::utf8::encode_utf8_decode_utf8(s@);
        }
        s.to_owned()
    }

    /// The characters of the textual form of the name.
    pub closed spec fn as_str_view(&self) -> Seq<char> {
        vstd::utf8::decode_utf8(self.bytes@)
    }
}

impl Clone for Name {
    fn clone(&self) -> (r: Name)
        ensures
            r@ == self@,
    {
        proof {
            use_type_invariant(self);
        }
        let bytes = self.bytes.clone();
        assert(bytes@ =~= self.bytes@);
        Name { bytes }
    }
}

impl Default for Name {
    fn default() -> (r: Name)
        ensures
            r@ == Seq::<u8>::empty(),
    {
        Name::new()
    }
}

impl PartialEq for Name {
    fn eq(&self, other: &Name) -> (r: bool) {
        bytes_eq_ignore_case(self.bytes.as_slice(), other.bytes.as_slice())
    }
}

impl vstd::std_specs::cmp::PartialEqSpecImpl for Name {
    open spec fn obeys_eq_spec() -> bool {
        true
    }

    open spec fn eq_spec(&self, other: &Name) -> bool {
        eq_ignore_case(self@, other@)
    }
}

impl Eq for Name {

}

impl<'s> PartialEq<&'s str> for Name {
    fn eq(&self, other: &&'s str) -> (r: bool) {
        self.eq_str(*other)
    }
}

impl<'s> vstd::std_specs::cmp::PartialEqSpecImpl<&'s str> for Name {
    open spec fn obeys_eq_spec() -> bool {
        true
    }

    open spec fn eq_spec(&self, other: &&'s str) -> bool {
        eq_str_spec(self@, other.spec_bytes())
    }
}

impl core::str::FromStr for Name {
    type Err = Error;

    fn from_str(s: &str) -> (r: Result<Name>)
        ensures
            match check_name_spec(s.spec_bytes()) {
                Ok(_) => r matches Ok(n) && n@ == absolute(s.spec_bytes()),
                Err(e) => r == Err::<Name, Error>(e),
            },
    {
        Name::from(s)
    }
}

impl DNameBase for Name {
    open spec fn dname_bytes(&self) -> Seq<u8> {
        self@
    }

    fn empty() -> (r: Name) {
        Name::new()
    }

    fn as_str(&self) -> (s: &str) {
        self.as_str()
    }

    fn len(&self) -> (n: usize) {
        self.len()
    }

    fn is_empty(&self) -> (b: bool) {
        self.is_empty()
    }

    fn clear(&mut self) {
        self.clear()
    }

    fn append_label_bytes(&mut self, label: &[u8]) -> (r: Result<()>) {
        self.append_label_bytes(label)
    }

    fn append_label(&mut self, label: &str) -> (r: Result<()>) {
        self.append_label(label)
    }

    fn set_root(&mut self) {
        self.set_root()
    }
}

impl DName for Name {

}

} // verus!
