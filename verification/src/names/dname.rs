//! The interface shared by the domain name types.

use vstd::prelude::*;
use vstd::string::StringSliceAdditionalSpecFns;

use crate::errors::{Error, Result};
use crate::names::utils::name_append;

verus! {

/// What a refused append leaves of a name: the name as it was, or, where the label itself fit
/// but its final dot did not, the name with the label and no dot.
pub open spec fn append_leftover(text: Seq<u8>, label: Seq<u8>, after: Seq<u8>) -> bool {
    after == text || after == text + label
}

/// An interface of a domain name.
///
/// A domain name is held in its textual form, each label followed by a dot, as in
/// `example.com.`; the root zone is `.`.
pub trait DNameBase: Sized {
    /// The textual form of the domain name, as bytes.
    spec fn dname_bytes(&self) -> Seq<u8>;

    /// Returns an empty domain name.
    fn empty() -> (r: Self)
        ensures
            r.dname_bytes() == Seq::<u8>::empty(),
    ;

    /// Returns the domain name as string slice.
    fn as_str(&self) -> (s: &str)
        ensures
            s.spec_bytes() == self.dname_bytes(),
    ;

    /// Returns the length of the domain name in bytes.
    fn len(&self) -> (n: usize)
        ensures
            n == self.dname_bytes().len(),
    ;

    /// Checks if the domain name is empty.
    fn is_empty(&self) -> (b: bool)
        ensures
            b == (self.dname_bytes().len() == 0),
    ;

    /// Clears the domain name to be empty.
    fn clear(&mut self)
        ensures
            final(self).dname_bytes() == Seq::<u8>::empty(),
    ;

    /// Appends a label, given as bytes, to the domain name.
    ///
    /// On error the domain name is left as [`append_leftover`] describes.
    fn append_label_bytes(&mut self, label: &[u8]) -> (r: Result<()>)
        ensures
            match name_append(old(self).dname_bytes(), label@) {
                Ok(t) => r == Ok::<(), Error>(()) && final(self).dname_bytes() == t,
                Err(e) => r == Err::<(), Error>(e) && append_leftover(
                    old(self).dname_bytes(),
                    label@,
                    final(self).dname_bytes(),
                ),
            },
    ;

    /// Appends a label to the domain name.
    ///
    /// On error the domain name is left as [`append_leftover`] describes.
    fn append_label(&mut self, label: &str) -> (r: Result<()>)
        ensures
            match name_append(old(self).dname_bytes(), label.spec_bytes()) {
                Ok(t) => r == Ok::<(), Error>(()) && final(self).dname_bytes() == t,
                Err(e) => r == Err::<(), Error>(e) && append_leftover(
                    old(self).dname_bytes(),
                    label.spec_bytes(),
                    final(self).dname_bytes(),
                ),
            },
    ;

    /// Sets the domain name to denote the root DNS zone `.`.
    fn set_root(&mut self)
        ensures
            final(self).dname_bytes() == seq![46u8],
    ;
}

/// A marker trait for all domain-name types.
pub trait DName: DNameBase {

}

} // verus!
