//! The fixed-capacity string of the `arrayvec` crate that stores inline domain names.

use arrayvec::ArrayString;
use vstd::prelude::*;
use vstd::string::StringSliceAdditionalSpecFns;
use vstd::utf8::encode_utf8;

verus! {

#[verifier::external_type_specification]
#[verifier::external_body]
pub struct ExArrayString<const CAP: usize>(ArrayString<CAP>);

/// The characters an `ArrayString<255>` holds.
pub uninterp spec fn array_string_chars(s: ArrayString<255>) -> Seq<char>;

/// Creates an empty string with `ArrayString::new`.
///
/// Claims that the new string holds no characters.
#[verifier::external_body]
pub(crate) fn array_string_new() -> (r: ArrayString<255>)
    ensures
        array_string_chars(r) == Seq::<char>::empty(),
{
    ArrayString::new()
}

/// Returns the characters with `ArrayString::as_str`.
///
/// Claims that the slice holds the string's characters.
#[verifier::external_body]
pub(crate) fn array_string_as_str(s: &ArrayString<255>) -> (r: &str)
    ensures
        r@ == array_string_chars(*s),
{
    s.as_str()
}

/// Empties the string with `ArrayString::clear`.
///
/// Claims that the string holds no characters afterwards.
#[verifier::external_body]
pub(crate) fn array_string_clear(s: &mut ArrayString<255>)
    ensures
        array_string_chars(*final(s)) == Seq::<char>::empty(),
{
    s.clear()
}

/// Appends `t` with `ArrayString::try_push_str`.
///
/// Claims what the crate's source shows: the call succeeds exactly when the UTF-8 bytes of `t`
/// fit in the capacity left (255 bytes minus the UTF-8 length of the contents); then `t` is
/// appended, otherwise the string is unchanged.
#[verifier::external_body]
pub(crate) fn array_string_try_push_str(s: &mut ArrayString<255>, t: &str) -> (r: bool)
    ensures
        r == (t.spec_bytes().len() + encode_utf8(array_string_chars(*old(s))).len() <= 255),
        r ==> array_string_chars(*final(s)) == array_string_chars(*old(s)) + t@,
        !r ==> array_string_chars(*final(s)) == array_string_chars(*old(s)),
{
    s.try_push_str(t).is_ok()
}

} // verus!
