//! Labels of encoded domain names.

use vstd::prelude::*;

verus! {

/// The lower-case form of an ASCII byte.
pub open spec fn ascii_lower(b: u8) -> u8 {
    if 65 <= b <= 90 {
        (b + 32) as u8
    } else {
        b
    }
}

/// Two byte strings are equal, ignoring ASCII case.
pub open spec fn eq_ignore_case(a: Seq<u8>, b: Seq<u8>) -> bool {
    a.len() == b.len() && forall|i: int| 0 <= i < a.len() ==> ascii_lower(#[trigger] a[i]) == ascii_lower(b[i])
}

/// Returns the lower-case form of an ASCII byte.
pub fn to_ascii_lower(b: u8) -> (r: u8)
    ensures
        r == ascii_lower(b),
{
    if 65 <= b && b <= 90 {
        b + 32
    } else {
        b
    }
}

/// Compares two byte strings, ignoring ASCII case.
pub fn bytes_eq_ignore_case(a: &[u8], b: &[u8]) -> (r: bool)
    ensures
        r == eq_ignore_case(a@, b@),
{
    if a.len() != b.len() {
        return false;
    }
    let mut i: usize = 0;
    while i < a.len()
        invariant
            a@.len() == b@.len(),
            i <= a@.len(),
            forall|k: int| 0 <= k < i ==> ascii_lower(#[trigger] a@[k]) == ascii_lower(b@[k]),
        decreases a@.len() - i,
    {
        if to_ascii_lower(a[i]) != to_ascii_lower(b[i]) {
            return false;
        }
        i = i + 1;
    }
    true
}

/// An encoded domain name label returned from the [`Labels`] iterator.
///
/// `LabelRef` doesn't own the label bytes, but rather points into a message buffer.
///
/// [`Labels`]: super::labels::Labels
#[derive(Debug, Clone, Copy)]
pub struct LabelRef<'a> {
    pub(crate) bytes: &'a [u8],
    pub(crate) pos: usize,
}

impl<'a> View for LabelRef<'a> {
    type V = (Seq<u8>, int);

    /// The label bytes and the position of the label in the message.
    closed spec fn view(&self) -> (Seq<u8>, int) {
        (self.bytes@, self.pos as int)
    }
}

impl<'a> LabelRef<'a> {
    /// Creates a label of `bytes` encoded at `pos`.
    pub fn new(bytes: &'a [u8], pos: usize) -> (l: LabelRef<'a>)
        ensures
            l@ == (bytes@, pos as int),
    {
        LabelRef { bytes, pos }
    }

    /// Returns the label bytes.
    pub fn bytes(&self) -> (b: &'a [u8])
        ensures
            b@ == self@.0,
    {
        self.bytes
    }

    /// Returns the position of the label's length byte in the message.
    pub fn pos(&self) -> (p: usize)
        ensures
            p == self@.1,
    {
        self.pos
    }
}

/// An encoded domain name label.
///
/// Two labels are equal when they are encoded at the same position, or when their bytes are
/// equal, ignoring ASCII case.
#[derive(Debug)]
pub struct Label<'a> {
    pub(crate) bytes: &'a [u8],
    pub(crate) pos: usize,
}

impl<'a> View for Label<'a> {
    type V = (Seq<u8>, int);

    /// The label bytes and the position of the label in the message.
    closed spec fn view(&self) -> (Seq<u8>, int) {
        (self.bytes@, self.pos as int)
    }
}

/// Two labels are the same label: encoded at the same position, or equal ignoring ASCII case.
pub open spec fn labels_same(a: (Seq<u8>, int), b: (Seq<u8>, int)) -> bool {
    a.1 == b.1 || eq_ignore_case(a.0, b.0)
}

impl<'a> Label<'a> {
    /// Creates a label of `bytes` encoded at `pos`.
    pub fn new(bytes: &'a [u8], pos: usize) -> (l: Label<'a>)
        ensures
            l@ == (bytes@, pos as int),
    {
        Label { bytes, pos }
    }

    /// Returns the label bytes.
    pub fn bytes(&self) -> (b: &'a [u8])
        ensures
            b@ == self@.0,
    {
        self.bytes
    }
}

impl<'a> PartialEq for Label<'a> {
    fn eq(&self, other: &Label<'a>) -> (r: bool) {
        if self.pos == other.pos {
            return true;
        }
        bytes_eq_ignore_case(self.bytes, other.bytes)
    }
}

impl<'a> vstd::std_specs::cmp::PartialEqSpecImpl for Label<'a> {
    open spec fn obeys_eq_spec() -> bool {
        true
    }

    open spec fn eq_spec(&self, other: &Label<'a>) -> bool {
        labels_same(self@, other@)
    }
}

impl<'a> Eq for Label<'a> {

}

/// Two bytes fold to the same byte exactly when they are equal or are the upper- and
/// lower-case forms of one ASCII letter.
pub proof fn lemma_ascii_lower_same(a: u8, b: u8)
    ensures
        ascii_lower(a) == ascii_lower(b) <==> (a == b || (65 <= a <= 90 && b == a + 32) || (65
            <= b <= 90 && a == b + 32)),
{
}

/// A byte with every ASCII lower-case letter turned into its upper-case form.
pub open spec fn ascii_upper(b: u8) -> u8 {
    if 97 <= b <= 122 {
        (b - 32) as u8
    } else {
        b
    }
}

/// A byte string equals, ignoring ASCII case, its form in ASCII upper case.
pub proof fn lemma_eq_ignore_case_upper(s: Seq<u8>)
    ensures
        eq_ignore_case(s, Seq::new(s.len(), |i: int| ascii_upper(s[i]))),
{
    let u = Seq::new(s.len(), |i: int| ascii_upper(s[i]));
    assert forall|i: int| 0 <= i < s.len() implies ascii_lower(#[trigger] s[i]) == ascii_lower(
        u[i],
    ) by {
        lemma_ascii_lower_same(s[i], u[i]);
    }
}

} // verus!
