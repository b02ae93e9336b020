//! A domain name stored inline, without heap allocation.

use arrayvec::ArrayString;
use core::cmp::Ordering;
use vstd::prelude::*;
use vstd::string::StringSliceAdditionalSpecFns;
use vstd::utf8::encode_utf8;

use crate::bytes::Cursor;
use crate::errors::{Error, Result};
use crate::message::reader::label_ref::{ascii_lower, bytes_eq_ignore_case, eq_ignore_case, to_ascii_lower};
use crate::message::reader::labels::{read_domain_name, read_name_spec};
use crate::names::array_string::{array_string_as_str, array_string_chars, array_string_clear, array_string_new, array_string_try_push_str};
use crate::names::compare::{eq_str_bytes, eq_str_spec, name_order, order_bytes};
use crate::names::dname::{DName, DNameBase};
use crate::names::name::Name;
use crate::names::utils::{absolute, check_label, check_label_bytes, check_label_spec, check_name, check_name_spec, is_ascii_bytes, lemma_ascii_concat, lemma_ascii_decoding, lemma_ascii_encoding, lemma_valid_label_ascii, lemma_valid_name, name_append, str_from_utf8};

verus! {

/// The textual name left after appending `label` to `text` the way an inline name does it:
/// the label and its dot where both fit; the label alone where only the dot did not fit;
/// otherwise the name unchanged.
pub open spec fn inline_append(text: Seq<u8>, label: Seq<u8>) -> Seq<u8> {
    match name_append(text, label) {
        Ok(t) => t,
        Err(_) => if check_label_spec(label) is Ok && text.len() + label.len() == 255 {
            text + label
        } else {
            text
        },
    }
}

/// The string `.`, the final dot of a label.
fn dot_str() -> (s: &'static str)
    ensures
        s@ == seq!['.'],
        s.spec_bytes() == seq![46u8],
{
    let s = ".";
    proof {
        reveal_strlit(".");
        vstd::utf8::is_ascii_chars_encode_utf8(s@);
        assert(s.spec_bytes() =~= seq![46u8]);
    }
    s
}

/// A domain name backed by a fixed-capacity array of 255 bytes.
///
/// It needs no heap allocation. The name is held in its textual form, each label followed by a
/// dot: `example.com.`; the root zone is `.`. Names compare equal ignoring ASCII case.
#[derive(Debug)]
pub struct InlineName {
    arr: ArrayString<255>,
}

impl View for InlineName {
    type V = Seq<u8>;

    /// The textual form of the name, as bytes.
    closed spec fn view(&self) -> Seq<u8> {
        encode_utf8(array_string_chars(self.arr))
    }
}

impl InlineName {
    #[verifier::type_invariant]
    spec fn inv(&self) -> bool {
        is_ascii_bytes(self@) && self@.len() <= 255
    }

    /// Creates an empty domain name.
    pub fn new() -> (n: InlineName)
        ensures
            n@ == Seq::<u8>::empty(),
    {
        let arr = array_string_new();
        proof {
            assert(encode_utf8(Seq::<char>::empty()) =~= Seq::<u8>::empty()) by {
                vstd::utf8::encode_utf8_valid_utf8(Seq::<char>::empty());
                vstd::utf8::encode_utf8_decode_utf8(Seq::<char>::empty());
            }
        }
        InlineName { arr }
    }

    /// Creates the root domain name `.`.
    pub fn root() -> (n: InlineName)
        ensures
            n@ == seq![46u8],
    {
        let mut dn = InlineName::new();
        dn.set_root();
        dn
    }

    /// Appends the string `t`, all ASCII and short enough to fit, to the array `arr`.
    fn push_fitting(arr: &mut ArrayString<255>, t: &str)
        requires
            is_ascii_bytes(encode_utf8(array_string_chars(*old(arr)))),
            is_ascii_bytes(t.spec_bytes()),
            encode_utf8(array_string_chars(*old(arr))).len() + t.spec_bytes().len() <= 255,
        ensures
            encode_utf8(array_string_chars(*final(arr))) == encode_utf8(
                array_string_chars(*old(arr)),
            ) + t.spec_bytes(),
    {
        proof {
            lemma_ascii_decoding(array_string_chars(*arr));
            lemma_ascii_decoding(t@);
            lemma_ascii_concat(array_string_chars(*arr), t@);
        }
        let ok = array_string_try_push_str(arr, t);
        assert(ok);
    }

    /// Creates a domain name from its textual form.
    ///
    /// A final dot is added when `s` has none.
    ///
    /// # Errors
    ///
    /// The errors of [`check_name`]: an empty label, an invalid label or a name too long.
    pub fn from(s: &str) -> (r: Result<InlineName>)
        ensures
            match check_name_spec(s.spec_bytes()) {
                Ok(_) => r matches Ok(n) && n@ == absolute(s.spec_bytes()),
                Err(e) => r == Err::<InlineName, Error>(e),
            },
    {
        match check_name(s) {
            Ok(_) => {},
            Err(e) => return Err(e),
        }
        proof {
            lemma_valid_name(s.spec_bytes());
        }
        let empty = InlineName::new();
        let mut arr = empty.arr;
        InlineName::push_fitting(&mut arr, s);
        assert(encode_utf8(array_string_chars(arr)) =~= s.spec_bytes());
        let bytes = s.as_bytes();
        if bytes[bytes.len() - 1] != 46 {
            let dot = dot_str();
            InlineName::push_fitting(&mut arr, dot);
        }
        assert(encode_utf8(array_string_chars(arr)) =~= absolute(s.spec_bytes()));
        Ok(InlineName { arr })
    }

    /// Returns the domain name as a string slice.
    pub fn as_str(&self) -> (s: &str)
        ensures
            s.spec_bytes() == self@,
            is_ascii_bytes(self@),
            self@.len() <= 255,
    {
        proof {
            use_type_invariant(self);
        }
        array_string_as_str(&self.arr)
    }

    /// Returns the length of the domain name in bytes.
    pub fn len(&self) -> (n: usize)
        ensures
            n == self@.len(),
            n <= 255,
    {
        self.as_str().len()
    }

    /// Checks if the domain name is empty.
    pub fn is_empty(&self) -> (b: bool)
        ensures
            b == (self@.len() == 0),
    {
        self.len() == 0
    }

    /// Makes the domain name empty.
    pub fn clear(&mut self)
        ensures
            final(self)@ == Seq::<u8>::empty(),
    {
        let mut arr = self.arr;
        array_string_clear(&mut arr);
        proof {
            vstd::utf8::encode_utf8_decode_utf8(Seq::<char>::empty());
            assert(encode_utf8(Seq::<char>::empty()) =~= Seq::<u8>::empty()) by {
                vstd::utf8::is_ascii_chars_encode_utf8(Seq::<char>::empty());
            }
        }
        *self = InlineName { arr };
    }

    /// Appends a label, known to be valid, with its final dot.
    fn push_label(&mut self, label: &str) -> (r: Result<()>)
        requires
            check_label_spec(label.spec_bytes()) is Ok,
        ensures
            match name_append(old(self)@, label.spec_bytes()) {
                Ok(_) => r == Ok::<(), Error>(()),
                Err(e) => r == Err::<(), Error>(e),
            },
            final(self)@ == inline_append(old(self)@, label.spec_bytes()),
    {
        proof {
            use_type_invariant(&*self);
            lemma_valid_label_ascii(label.spec_bytes());
        }
        let len = self.len();
        let label_len = label.len();
        let mut arr = self.arr;
        if len + label_len > 255 {
            return Err(Error::DomainNameTooLong(len + label_len + 1));
        }
        InlineName::push_fitting(&mut arr, label);
        proof {
            let t = self@ + label.spec_bytes();
            assert forall|k: int| 0 <= k < t.len() implies #[trigger] t[k] < 128 by {
                if k < self@.len() {
                    assert(t[k] == self@[k]);
                } else {
                    assert(t[k] == label.spec_bytes()[k - self@.len()]);
                }
            }
        }
        *self = InlineName { arr };
        if len + label_len + 1 > 255 {
            return Err(Error::DomainNameTooLong(len + label_len + 1));
        }
        let dot = dot_str();
        InlineName::push_fitting(&mut arr, dot);
        proof {
            let t = self@ + dot.spec_bytes();
            assert forall|k: int| 0 <= k < t.len() implies #[trigger] t[k] < 128 by {
                if k < self@.len() {
                    assert(t[k] == self@[k]);
                }
            }
        }
        *self = InlineName { arr };
        Ok(())
    }

    /// Appends a label, given as bytes, to the domain name.
    ///
    /// Where the label fits but its final dot does not, the label stays appended without it.
    pub fn append_label_bytes(&mut self, label: &[u8]) -> (r: Result<()>)
        ensures
            match name_append(old(self)@, label@) {
                Ok(_) => r == Ok::<(), Error>(()),
                Err(e) => r == Err::<(), Error>(e),
            },
            final(self)@ == inline_append(old(self)@, label@),
    {
        match check_label_bytes(label) {
            Ok(_) => {},
            Err(e) => return Err(e),
        }
        proof {
            lemma_valid_label_ascii(label@);
            lemma_ascii_encoding(label@);
        }
        match str_from_utf8(label) {
            Some(s) => self.push_label(s),
            None => {
                assert(false);
                Ok(())
            },
        }
    }

    /// Appends a label to the domain name.
    ///
    /// Where the label fits but its final dot does not, the label stays appended without it.
    pub fn append_label(&mut self, label: &str) -> (r: Result<()>)
        ensures
            match name_append(old(self)@, label.spec_bytes()) {
                Ok(_) => r == Ok::<(), Error>(()),
                Err(e) => r == Err::<(), Error>(e),
            },
            final(self)@ == inline_append(old(self)@, label.spec_bytes()),
    {
        match check_label(label) {
            Ok(_) => {},
            Err(e) => return Err(e),
        }
        self.push_label(label)
    }

    /// Sets the domain name to denote the root zone `.`.
    pub fn set_root(&mut self)
        ensures
            final(self)@ == seq![46u8],
    {
        self.clear();
        let mut arr = self.arr;
        let dot = dot_str();
        proof {
            use_type_invariant(&*self);
        }
        InlineName::push_fitting(&mut arr, dot);
        assert(encode_utf8(array_string_chars(arr)) =~= seq![46u8]);
        *self = InlineName { arr };
    }

    /// Reads a domain name from a cursor.
    ///
    /// On success the cursor is positioned after the encoded name; on error it is left
    /// unchanged.
    pub fn from_cursor(c: &mut Cursor<'_>) -> (r: Result<InlineName>)
        ensures
            match read_name_spec(old(c)@) {
                Ok((t, p)) => (r matches Ok(n) && n@ == t) && final(c)@ == old(c)@.at(p),
                Err(e) => r matches Err(e2) && e2 == e && final(c)@ == old(c)@,
            },
    {
        read_domain_name(c)
    }

    /// Compares this name with a string, ignoring ASCII case; a missing final dot in `other`
    /// is disregarded.
    pub fn eq_str(&self, other: &str) -> (r: bool)
        ensures
            r == eq_str_spec(self@, other.spec_bytes()),
    {
        eq_str_bytes(self.as_str().as_bytes(), other.as_bytes())
    }

    /// Compares this name with a heap-allocated one, ignoring ASCII case.
    pub fn eq_name(&self, other: &Name) -> (r: bool)
        ensures
            r == eq_ignore_case(self@, other@),
    {
        bytes_eq_ignore_case(self.as_str().as_bytes(), other.as_str().as_bytes())
    }

    /// Orders this name and another one, byte by byte ignoring ASCII case, then by length.
    pub fn cmp(&self, other: &InlineName) -> (r: Ordering)
        ensures
            r == name_order(self@, other@),
    {
        order_bytes(self.as_str().as_bytes(), other.as_str().as_bytes())
    }

    /// Returns the textual form of the name.
    pub fn to_string(&self) -> (s: String)
        ensures
            s@ == self.as_str_view(),
    {
        let s = array_string_as_str(&self.arr);
        s.to_owned()
    }

    /// The characters of the textual form of the name.
    pub closed spec fn as_str_view(&self) -> Seq<char> {
        array_string_chars(self.arr)
    }
}

impl Clone for InlineName {
    fn clone(&self) -> (r: InlineName)
        ensures
            r@ == self@,
    {
        proof {
            use_type_invariant(self);
        }
        InlineName { arr: self.arr }
    }
}

impl Default for InlineName {
    fn default() -> (r: InlineName)
        ensures
            r@ == Seq::<u8>::empty(),
    {
        InlineName::new()
    }
}

impl PartialEq for InlineName {
    fn eq(&self, other: &InlineName) -> (r: bool) {
        bytes_eq_ignore_case(self.as_str().as_bytes(), other.as_str().as_bytes())
    }
}

impl vstd::std_specs::cmp::PartialEqSpecImpl for InlineName {
    open spec fn obeys_eq_spec() -> bool {
        true
    }

    open spec fn eq_spec(&self, other: &InlineName) -> bool {
        eq_ignore_case(self@, other@)
    }
}

impl Eq for InlineName {

}

impl InlineName {
    /// The bytes of the textual form in ASCII lower case: equal names have the same.
    pub fn lowercase_bytes(&self) -> (r: Vec<u8>)
        ensures
            r@ == lower_bytes(self@),
    {
        let bytes = self.as_str().as_bytes();
        let mut out: Vec<u8> = Vec::new();
        let mut i: usize = 0;
        while i < bytes.len()
            invariant
                i <= bytes@.len(),
                bytes@ == self@,
                out@ == lower_bytes(bytes@.subrange(0, i as int)),
            decreases bytes@.len() - i,
        {
            out.push(to_ascii_lower(bytes[i]));
            i = i + 1;
            assert(out@ =~= lower_bytes(bytes@.subrange(0, i as int)));
        }
        assert(bytes@.subrange(0, bytes@.len() as int) =~= bytes@);
        out
    }
}

/// The bytes `s` in ASCII lower case.
pub open spec fn lower_bytes(s: Seq<u8>) -> Seq<u8> {
    Seq::new(s.len(), |i: int| ascii_lower(s[i]))
}

/// Two names are equal, ignoring ASCII case, exactly when their lower-case bytes are the
/// same: equal names feed the same bytes to a hasher.
pub proof fn lemma_eq_iff_same_lowercase(a: Seq<u8>, b: Seq<u8>)
    ensures
        eq_ignore_case(a, b) <==> lower_bytes(a) == lower_bytes(b),
{
    let la = lower_bytes(a);
    let lb = lower_bytes(b);
    if eq_ignore_case(a, b) {
        assert(la =~= lb);
    }
    if la == lb {
        assert(la.len() == a.len() && lb.len() == b.len());
        assert(a.len() == b.len());
        assert forall|i: int| 0 <= i < a.len() implies ascii_lower(#[trigger] a[i]) == ascii_lower(
            b[i],
        ) by {
            assert(la[i] == lb[i]);
        }
    }
}

/// Calls `Hasher::write_u8` on `state` with `b`. Nothing is claimed of the hasher's state
/// after the call.
#[verifier::external_body]
fn hasher_write_u8<H: core::hash::Hasher>(state: &mut H, b: u8) {
    state.write_u8(b);
}

impl core::hash::Hash for InlineName {
    /// Feeds the lower-case bytes of the name to `state`, one `write_u8` per byte, so that
    /// names equal ignoring case feed the same bytes.
    fn hash<H: core::hash::Hasher>(&self, state: &mut H) {
        let lower = self.lowercase_bytes();
        let mut i: usize = 0;
        while i < lower.len()
            invariant
                i <= lower@.len(),
                lower@ == lower_bytes(self@),
            decreases lower@.len() - i,
        {
            hasher_write_u8(state, lower[i]);
            i = i + 1;
        }
    }
}

impl PartialOrd for InlineName {
    fn partial_cmp(&self, other: &InlineName) -> (r: Option<Ordering>) {
        Some(self.cmp(other))
    }
}

impl vstd::std_specs::cmp::PartialOrdSpecImpl for InlineName {
    open spec fn obeys_partial_cmp_spec() -> bool {
        true
    }

    open spec fn partial_cmp_spec(&self, other: &InlineName) -> Option<Ordering> {
        Some(name_order(self@, other@))
    }
}

impl<'s> PartialEq<&'s str> for InlineName {
    fn eq(&self, other: &&'s str) -> (r: bool) {
        self.eq_str(*other)
    }
}

impl<'s> vstd::std_specs::cmp::PartialEqSpecImpl<&'s str> for InlineName {
    open spec fn obeys_eq_spec() -> bool {
        true
    }

    open spec fn eq_spec(&self, other: &&'s str) -> bool {
        eq_str_spec(self@, other.spec_bytes())
    }
}

impl PartialEq<Name> for InlineName {
    fn eq(&self, other: &Name) -> (r: bool) {
        self.eq_name(other)
    }
}

impl vstd::std_specs::cmp::PartialEqSpecImpl<Name> for InlineName {
    open spec fn obeys_eq_spec() -> bool {
        true
    }

    open spec fn eq_spec(&self, other: &Name) -> bool {
        eq_ignore_case(self@, other@)
    }
}

impl InlineName {
    /// An inline name with the text of `name`.
    pub closed spec fn from_name_spec(name: Name) -> InlineName {
        choose|n: InlineName| n@ == name@
    }

    /// Converts a heap-allocated name into an inline one with the same text.
    pub fn from_name(name: &Name) -> (r: InlineName)
        ensures
            r@ == name@,
    {
        let empty = InlineName::new();
        let mut arr = empty.arr;
        let s = name.as_str();
        InlineName::push_fitting(&mut arr, s);
        assert(encode_utf8(array_string_chars(arr)) =~= name@);
        InlineName { arr }
    }
}

impl From<Name> for InlineName {
    fn from(name: Name) -> (r: InlineName) {
        InlineName::from_name(&name)
    }
}

impl vstd::std_specs::convert::FromSpecImpl<Name> for InlineName {
    open spec fn obeys_from_spec() -> bool {
        false
    }

    open spec fn from_spec(name: Name) -> InlineName {
        InlineName::from_name_spec(name)
    }
}

impl core::str::FromStr for InlineName {
    type Err = Error;

    fn from_str(s: &str) -> (r: Result<InlineName>)
        ensures
            match check_name_spec(s.spec_bytes()) {
                Ok(_) => r matches Ok(n) && n@ == absolute(s.spec_bytes()),
                Err(e) => r == Err::<InlineName, Error>(e),
            },
    {
        InlineName::from(s)
    }
}

impl DNameBase for InlineName {
    open spec fn dname_bytes(&self) -> Seq<u8> {
        self@
    }

    fn empty() -> (r: InlineName) {
        InlineName::new()
    }

    fn as_str(&self) -> (s: &str) {
        self.as_str()
    }

    fn len(&self) -> (n: usize) {
        self.len()
    }

    fn is_empty(&self) -> (b: bool) {
        self.is_empty()
    }

    fn clear(&mut self) {
        self.clear()
    }

    fn append_label_bytes(&mut self, label: &[u8]) -> (r: Result<()>) {
        self.append_label_bytes(label)
    }

    fn append_label(&mut self, label: &str) -> (r: Result<()>) {
        self.append_label(label)
    }

    fn set_root(&mut self) {
        self.set_root()
    }
}

impl DName for InlineName {

}

} // verus!
