//! Validation of domain name labels and textual domain names.

use vstd::prelude::*;
use vstd::utf8::*;
use vstd::string::StringSliceAdditionalSpecFns;

use crate::constants::{DOMAIN_NAME_LABEL_MAX_LENGTH, DOMAIN_NAME_MAX_LENGTH};
use crate::errors::{Error, Result};

verus! {

/// Reported when the first character of a label is not a letter or a digit.
pub const LABEL_FIRST_CHAR_ERROR: &'static str = "domain name label first character is not alphanumeric";

/// Reported when the last character of a label is not a letter or a digit.
pub const LABEL_LAST_CHAR_ERROR: &'static str = "domain name label last character is not alphanumeric";

/// Reported when an inner character of a label is neither a letter, a digit nor a hyphen.
pub const LABEL_MIDDLE_CHAR_ERROR: &'static str =
    "domain name label middle character is not alphanumeric or hyphen";

/// An ASCII letter or digit.
pub open spec fn is_alnum(b: u8) -> bool {
    (48 <= b <= 57) || (65 <= b <= 90) || (97 <= b <= 122)
}

/// A byte allowed inside a label: a letter, a digit or a hyphen.
pub open spec fn is_inner(b: u8) -> bool {
    is_alnum(b) || b == 45
}

/// The first byte at or after `i`, before the last byte of `label`, that may not stand inside
/// a label.
pub open spec fn first_bad_inner(label: Seq<u8>, i: int) -> Option<u8>
    decreases label.len() - i,
{
    if i >= label.len() - 1 {
        None
    } else if !is_inner(label[i]) {
        Some(label[i])
    } else {
        first_bad_inner(label, i + 1)
    }
}

/// Validation of a single label (RFC 1035 with the leading digits of RFC 1123).
pub open spec fn check_label_spec(label: Seq<u8>) -> Result<()> {
    if label.len() == 0 {
        Err(Error::DomainNameLabelIsEmpty)
    } else if label.len() > 63 {
        Err(Error::DomainNameLabelTooLong(label.len() as usize))
    } else if !is_alnum(label[0]) {
        Err(Error::DomainNameLabelInvalidChar(LABEL_FIRST_CHAR_ERROR, label[0]))
    } else if !is_alnum(label.last()) {
        Err(Error::DomainNameLabelInvalidChar(LABEL_LAST_CHAR_ERROR, label.last()))
    } else {
        match first_bad_inner(label, 1) {
            Some(b) => Err(Error::DomainNameLabelInvalidChar(LABEL_MIDDLE_CHAR_ERROR, b)),
            None => Ok(()),
        }
    }
}

/// All bytes are ASCII.
pub open spec fn is_ascii_bytes(b: Seq<u8>) -> bool {
    forall|i: int| 0 <= i < b.len() ==> #[trigger] b[i] < 128
}

/// The characters that the ASCII bytes `b` stand for.
pub open spec fn ascii_chars(b: Seq<u8>) -> Seq<char> {
    Seq::new(b.len(), |i: int| b[i] as char)
}

/// The result of appending a label to the textual domain name `text`: the label and a dot.
pub open spec fn name_append(text: Seq<u8>, label: Seq<u8>) -> Result<Seq<u8>> {
    match check_label_spec(label) {
        Err(e) => Err(e),
        Ok(_) => if text.len() + label.len() + 1 > 255 {
            Err(Error::DomainNameTooLong((text.len() + label.len() + 1) as usize))
        } else {
            Ok(text + label + seq![46u8])
        },
    }
}

/// The first failed label check among the dot-separated labels of `s`, scanning from `i`
/// with the current label starting at `start`.
///
/// A final dot ends the last label; it does not start an empty one.
pub open spec fn labels_check_from(s: Seq<u8>, start: int, i: int) -> Result<()>
    decreases s.len() - i,
{
    if i >= s.len() {
        if start < s.len() {
            check_label_spec(s.subrange(start, s.len() as int))
        } else {
            Ok(())
        }
    } else if s[i] == 46 {
        match check_label_spec(s.subrange(start, i)) {
            Err(e) => Err(e),
            Ok(_) => labels_check_from(s, i + 1, i + 1),
        }
    } else {
        labels_check_from(s, start, i + 1)
    }
}

/// The length of `s` as a domain name: with its final dot, added where missing.
pub open spec fn dotted_len(s: Seq<u8>) -> int {
    if s.len() > 0 && s.last() == 46 {
        s.len() as int
    } else {
        s.len() + 1int
    }
}

/// [`dotted_len`] as a `usize`, wrapping to zero past `usize::MAX`.
pub open spec fn dotted_len_usize(s: Seq<u8>) -> usize {
    if dotted_len(s) <= usize::MAX {
        dotted_len(s) as usize
    } else {
        0
    }
}

/// `s` in its absolute form: with a final dot, added where missing.
pub open spec fn absolute(s: Seq<u8>) -> Seq<u8> {
    if s.len() > 0 && s.last() == 46 {
        s
    } else {
        s.push(46u8)
    }
}

/// Validation of a textual domain name.
pub open spec fn check_name_spec(s: Seq<u8>) -> Result<()> {
    if s.len() == 0 {
        Err(Error::DomainNameLabelIsEmpty)
    } else if s == seq![46u8] {
        Ok(())
    } else if dotted_len(s) > 255 {
        Err(Error::DomainNameTooLong(dotted_len_usize(s)))
    } else {
        labels_check_from(s, 0, 0)
    }
}

/// Checks whether a byte is an ASCII letter or digit.
pub fn is_alnum_byte(b: u8) -> (r: bool)
    ensures
        r == is_alnum(b),
{
    (48 <= b && b <= 57) || (65 <= b && b <= 90) || (97 <= b && b <= 122)
}

/// Checks a domain name label given as bytes.
///
/// # Errors
///
/// - [`Error::DomainNameLabelIsEmpty`] - the label is empty
/// - [`Error::DomainNameLabelTooLong`] - the label is longer than 63 bytes
/// - [`Error::DomainNameLabelInvalidChar`] - the label starts or ends with a character other
///   than a letter or a digit, or holds a character other than a letter, a digit or a hyphen
pub fn check_label_bytes(label: &[u8]) -> (r: Result<()>)
    ensures
        r == check_label_spec(label@),
{
    let len = label.len();
    if len == 0 {
        return Err(Error::DomainNameLabelIsEmpty);
    }
    if len > DOMAIN_NAME_LABEL_MAX_LENGTH {
        return Err(Error::DomainNameLabelTooLong(len));
    }
    let first = label[0];
    if !is_alnum_byte(first) {
        return Err(Error::DomainNameLabelInvalidChar(LABEL_FIRST_CHAR_ERROR, first));
    }
    let last = label[len - 1];
    if !is_alnum_byte(last) {
        return Err(Error::DomainNameLabelInvalidChar(LABEL_LAST_CHAR_ERROR, last));
    }
    let mut i: usize = 1;
    while i + 1 < len
        invariant
            1 <= i,
            len == label@.len(),
            len >= 1,
            len <= 63,
            is_alnum(label@[0]),
            is_alnum(label@.last()),
            i <= len,
            first_bad_inner(label@, 1) == first_bad_inner(label@, i as int),
        decreases len - i,
    {
        let b = label[i];
        if !(is_alnum_byte(b) || b == 45) {
            return Err(Error::DomainNameLabelInvalidChar(LABEL_MIDDLE_CHAR_ERROR, b));
        }
        i = i + 1;
    }
    Ok(())
}

/// Checks a domain name label given as a string.
pub fn check_label(label: &str) -> (r: Result<()>)
    ensures
        r == check_label_spec(label.spec_bytes()),
{
    check_label_bytes(label.as_bytes())
}

/// Checks a textual domain name: each of its labels, and its total length.
///
/// The name may end with a dot. The root zone is written `.`.
pub fn check_name_bytes(s: &[u8]) -> (r: Result<()>)
    ensures
        r == check_name_spec(s@),
{
    let len = s.len();
    if len == 0 {
        return Err(Error::DomainNameLabelIsEmpty);
    }
    if len == 1 && s[0] == 46 {
        assert(s@ =~= seq![46u8]);
        return Ok(());
    }
    assert(s@ != seq![46u8]);
    let dlen: usize = if s[len - 1] == 46 {
        len
    } else {
        if len > DOMAIN_NAME_MAX_LENGTH {
            return Err(Error::DomainNameTooLong(len.wrapping_add(1)));
        }
        len + 1
    };
    if dlen > DOMAIN_NAME_MAX_LENGTH {
        return Err(Error::DomainNameTooLong(dlen));
    }
    let mut start: usize = 0;
    let mut j: usize = 0;
    while j < len
        invariant
            len == s@.len(),
            len > 0,
            s@ != seq![46u8],
            dotted_len(s@) <= 255,
            start <= j <= len,
            labels_check_from(s@, 0, 0) == labels_check_from(s@, start as int, j as int),
        decreases len - j,
    {
        if s[j] == 46 {
            let seg = vstd::slice::slice_subrange(s, start, j);
            let r = check_label_bytes(seg);
            if r.is_err() {
                return r;
            }
            start = j + 1;
        }
        j = j + 1;
    }
    if start < len {
        let seg = vstd::slice::slice_subrange(s, start, len);
        check_label_bytes(seg)
    } else {
        Ok(())
    }
}

/// Checks a textual domain name given as a string.
pub fn check_name(s: &str) -> (r: Result<()>)
    ensures
        r == check_name_spec(s.spec_bytes()),
{
    check_name_bytes(s.as_bytes())
}

/// Converts bytes to a string slice with `core::str::from_utf8`.
///
/// Claims what the standard library documents: the conversion succeeds exactly when the bytes
/// are valid UTF-8, and the string slice then holds these very bytes.
#[verifier::external_body]
pub(crate) fn str_from_utf8(b: &[u8]) -> (r: Option<&str>)
    ensures
        r is Some <==> valid_utf8(b@),
        r matches Some(s) ==> s.spec_bytes() == b@,
{
    core::str::from_utf8(b).ok()
}

/// The labels of a name that passed [`labels_check_from`] hold ASCII bytes only.
pub proof fn lemma_labels_check_ascii(s: Seq<u8>, start: int, i: int)
    requires
        labels_check_from(s, start, i) is Ok,
        0 <= start <= i <= s.len(),
        forall|k: int| start <= k < i ==> s[k] != 46,
    ensures
        forall|k: int| start <= k < s.len() ==> #[trigger] s[k] < 128,
    decreases s.len() - i,
{
    if i >= s.len() {
        if start < s.len() {
            let l = s.subrange(start, s.len() as int);
            lemma_valid_label_ascii(l);
            assert forall|k: int| start <= k < s.len() implies #[trigger] s[k] < 128 by {
                assert(l[k - start] == s[k]);
            }
        }
    } else if s[i] == 46 {
        let l = s.subrange(start, i);
        lemma_valid_label_ascii(l);
        lemma_labels_check_ascii(s, i + 1, i + 1);
        assert forall|k: int| start <= k < s.len() implies #[trigger] s[k] < 128 by {
            if k < i {
                assert(l[k - start] == s[k]);
            }
        }
    } else {
        lemma_labels_check_ascii(s, start, i + 1);
    }
}

/// A valid textual name holds ASCII bytes only, and is at most 255 bytes long with its final
/// dot.
pub proof fn lemma_valid_name(s: Seq<u8>)
    requires
        check_name_spec(s) is Ok,
    ensures
        is_ascii_bytes(s),
        is_ascii_bytes(absolute(s)),
        absolute(s).len() == dotted_len(s),
        dotted_len(s) <= 255,
        absolute(s).len() > 0,
{
    if s != seq![46u8] {
        lemma_labels_check_ascii(s, 0, 0);
    }
    assert(is_ascii_bytes(s));
    if !(s.len() > 0 && s.last() == 46) {
        assert forall|k: int| 0 <= k < absolute(s).len() implies #[trigger] absolute(s)[k] < 128 by {
            if k < s.len() {
                assert(absolute(s)[k] == s[k]);
            }
        }
    }
}

/// Appending a label to a valid name text keeps it ASCII and at most 255 bytes long.
pub proof fn lemma_name_append(text: Seq<u8>, label: Seq<u8>)
    requires
        is_ascii_bytes(text),
        name_append(text, label) is Ok,
    ensures
        name_append(text, label) matches Ok(t) && is_ascii_bytes(t) && t.len() <= 255
            && t == text + label + seq![46u8],
        is_ascii_bytes(label),
{
    lemma_valid_label_ascii(label);
    let t = text + label + seq![46u8];
    assert forall|k: int| 0 <= k < t.len() implies #[trigger] t[k] < 128 by {
        if k < text.len() {
            assert(t[k] == text[k]);
        } else if k < text.len() + label.len() {
            assert(t[k] == label[k - text.len()]);
        }
    }
}

/// A valid label holds ASCII bytes only.
pub proof fn lemma_valid_label_ascii(label: Seq<u8>)
    requires
        check_label_spec(label) is Ok,
    ensures
        is_ascii_bytes(label),
        label.len() <= 63,
{
    assert forall|i: int| 0 <= i < label.len() implies #[trigger] label[i] < 128 by {
        lemma_first_bad_inner_none(label, 1, i);
    }
}

proof fn lemma_first_bad_inner_none(label: Seq<u8>, i: int, k: int)
    requires
        first_bad_inner(label, i) is None,
        0 <= k < label.len(),
        is_alnum(label[0]),
        label.len() > 0,
        is_alnum(label.last()),
        1 <= i,
        i <= k || k == 0 || k == label.len() - 1,
    ensures
        label[k] < 128,
    decreases label.len() - i,
{
    if k == 0 || k == label.len() - 1 {
    } else if i >= label.len() - 1 {
    } else if i == k {
    } else {
        lemma_first_bad_inner_none(label, i + 1, k);
    }
}

/// ASCII bytes are the UTF-8 encoding of the characters they stand for.
pub proof fn lemma_ascii_encoding(b: Seq<u8>)
    requires
        is_ascii_bytes(b),
    ensures
        is_ascii_chars(ascii_chars(b)),
        encode_utf8(ascii_chars(b)) == b,
        valid_utf8(b),
        decode_utf8(b) == ascii_chars(b),
{
    let c = ascii_chars(b);
    assert(is_ascii_chars(c)) by {
        assert forall|i: int| 0 <= i < c.len() implies '\0' <= #[trigger] c[i] <= '\u{7f}' by {
            assert(b[i] < 128);
        }
    }
    is_ascii_chars_encode_utf8(c);
    assert(encode_utf8(c) =~= b) by {
        assert forall|i: int| 0 <= i < b.len() implies encode_utf8(c)[i] == b[i] by {
            assert(c[i] as u8 == encode_utf8(c)[i]);
            assert(c[i] == b[i] as char);
        }
    }
    encode_utf8_valid_utf8(c);
    encode_utf8_decode_utf8(c);
}

/// Characters whose encoding is ASCII are the characters those bytes stand for.
pub proof fn lemma_ascii_decoding(c: Seq<char>)
    requires
        is_ascii_bytes(encode_utf8(c)),
    ensures
        c == ascii_chars(encode_utf8(c)),
        is_ascii_chars(c),
{
    let b = encode_utf8(c);
    lemma_ascii_encoding(b);
    encode_utf8_decode_utf8(c);
    encode_utf8_decode_utf8(ascii_chars(b));
}

/// The encoding of two ASCII character sequences, one after the other.
pub proof fn lemma_ascii_concat(c1: Seq<char>, c2: Seq<char>)
    requires
        is_ascii_chars(c1),
        is_ascii_chars(c2),
    ensures
        encode_utf8(c1 + c2) == encode_utf8(c1) + encode_utf8(c2),
        is_ascii_chars(c1 + c2),
{
    is_ascii_chars_concat(c1 + c2, c1, c2);
    is_ascii_chars_encode_utf8(c1);
    is_ascii_chars_encode_utf8(c2);
    is_ascii_chars_encode_utf8(c1 + c2);
    let l = encode_utf8(c1 + c2);
    let r = encode_utf8(c1) + encode_utf8(c2);
    assert(l =~= r) by {
        assert forall|i: int| 0 <= i < l.len() implies l[i] == r[i] by {
            assert((c1 + c2)[i] as u8 == l[i]);
            if i < c1.len() {
                assert(c1[i] as u8 == encode_utf8(c1)[i]);
            } else {
                assert(c2[i - c1.len()] as u8 == encode_utf8(c2)[i - c1.len()]);
            }
        }
    }
}

} // verus!
