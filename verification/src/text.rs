//! Comparison, parsing and rendering of the ASCII text of names and numbers.

use vstd::prelude::*;
use vstd::string::StringSliceAdditionalSpecFns;
use vstd::utf8::encode_utf8_decode_utf8;

use crate::names::utils::{ascii_chars, is_ascii_bytes, lemma_ascii_encoding, str_from_utf8};

verus! {

/// Two string slices hold the same characters exactly when they hold the same bytes.
pub proof fn lemma_str_bytes_eq(a: &str, b: &str)
    ensures
        (a@ == b@) == (a.spec_bytes() == b.spec_bytes()),
{
    encode_utf8_decode_utf8(a@);
    encode_utf8_decode_utf8(b@);
}

/// Checks whether two byte slices are equal.
pub fn bytes_eq(a: &[u8], b: &[u8]) -> (r: bool)
    ensures
        r == (a@ == b@),
{
    if a.len() != b.len() {
        return false;
    }
    let mut i: usize = 0;
    while i < a.len()
        invariant
            i <= a@.len(),
            a@.len() == b@.len(),
            forall|k: int| 0 <= k < i ==> a@[k] == b@[k],
        decreases a@.len() - i,
    {
        if a[i] != b[i] {
            return false;
        }
        i = i + 1;
    }
    assert(a@ =~= b@);
    true
}

/// Checks whether two string slices are equal.
pub fn str_eq(a: &str, b: &str) -> (r: bool)
    ensures
        r == (a@ == b@),
{
    proof {
        lemma_str_bytes_eq(a, b);
    }
    bytes_eq(a.as_bytes(), b.as_bytes())
}

/// Checks whether `s` begins with `prefix`.
pub open spec fn has_prefix(s: Seq<u8>, prefix: Seq<u8>) -> bool {
    prefix.len() <= s.len() && s.subrange(0, prefix.len() as int) == prefix
}

/// Returns the bytes of `s` after `prefix`, where `s` begins with it.
pub fn strip_prefix<'a>(s: &'a [u8], prefix: &[u8]) -> (r: Option<&'a [u8]>)
    ensures
        match r {
            Some(rest) => has_prefix(s@, prefix@) && rest@ == s@.subrange(
                prefix@.len() as int,
                s@.len() as int,
            ),
            None => !has_prefix(s@, prefix@),
        },
{
    if prefix.len() > s.len() {
        return None;
    }
    let head = vstd::slice::slice_subrange(s, 0, prefix.len());
    if bytes_eq(head, prefix) {
        Some(vstd::slice::slice_subrange(s, prefix.len(), s.len()))
    } else {
        None
    }
}

/// The byte of the decimal digit `d`.
pub open spec fn digit_byte(d: nat) -> u8 {
    (48 + d) as u8
}

/// The decimal representation of `n`, without leading zeros.
pub open spec fn decimal_bytes(n: nat) -> Seq<u8>
    decreases n,
{
    if n < 10 {
        seq![digit_byte(n)]
    } else {
        decimal_bytes(n / 10).push(digit_byte(n % 10))
    }
}

/// Checks whether a byte is a decimal digit.
pub open spec fn is_digit(b: u8) -> bool {
    48 <= b <= 57
}

/// All bytes of `s` are decimal digits.
pub open spec fn all_digits(s: Seq<u8>) -> bool {
    forall|i: int| 0 <= i < s.len() ==> is_digit(#[trigger] s[i])
}

/// The number the decimal digits `s` stand for.
pub open spec fn digits_value(s: Seq<u8>) -> nat
    decreases s.len(),
{
    if s.len() == 0 {
        0
    } else {
        digits_value(s.drop_last()) * 10 + (s.last() - 48) as nat
    }
}

/// The value of a decimal number in text, as parsed into an unsigned integer type whose
/// largest value is `max`: an optional `+` sign, then one or more decimal digits, the value
/// at most `max`.
pub open spec fn parse_decimal_spec(s: Seq<u8>, max: nat) -> Option<nat> {
    let d = if s.len() > 0 && s[0] == 43 {
        s.drop_first()
    } else {
        s
    };
    if d.len() > 0 && all_digits(d) && digits_value(d) <= max {
        Some(digits_value(d))
    } else {
        None
    }
}

/// The decimal representation of a number holds decimal digits only, and they stand for it.
pub proof fn lemma_decimal_bytes(n: nat)
    ensures
        all_digits(decimal_bytes(n)),
        decimal_bytes(n).len() > 0,
        digits_value(decimal_bytes(n)) == n,
        is_ascii_bytes(decimal_bytes(n)),
    decreases n,
{
    let d = decimal_bytes(n);
    if n < 10 {
        assert(digit_byte(n) == 48 + n);
        assert(d.drop_last() =~= Seq::<u8>::empty());
        assert(digits_value(d) == digits_value(d.drop_last()) * 10 + (d.last() - 48) as nat);
    } else {
        lemma_decimal_bytes(n / 10);
        assert(d.drop_last() =~= decimal_bytes(n / 10));
        assert(digit_byte(n % 10) == 48 + n % 10);
        assert((n / 10) * 10 + n % 10 == n) by (nonlinear_arith);
        assert(d.last() == 48 + n % 10);
        assert(digits_value(d) == digits_value(d.drop_last()) * 10 + (d.last() - 48) as nat);
        assert forall|i: int| 0 <= i < d.len() implies is_digit(#[trigger] d[i]) by {
            if i < d.len() - 1 {
                assert(d[i] == decimal_bytes(n / 10)[i]);
            }
        }
    }
    assert forall|i: int| 0 <= i < d.len() implies #[trigger] d[i] < 128 by {
        assert(is_digit(d[i]));
    }
}

/// Parsing the decimal representation of a number no larger than `max` gives the number.
pub proof fn lemma_parse_decimal(n: nat, max: nat)
    requires
        n <= max,
    ensures
        parse_decimal_spec(decimal_bytes(n), max) == Some(n),
{
    lemma_decimal_bytes(n);
    assert(is_digit(decimal_bytes(n)[0]));
}

/// A prefix of decimal digits stands for no more than the whole.
proof fn lemma_digits_value_prefix(s: Seq<u8>, k: int)
    requires
        0 <= k <= s.len(),
    ensures
        digits_value(s.subrange(0, k)) <= digits_value(s),
    decreases s.len() - k,
{
    if k < s.len() {
        lemma_digits_value_prefix(s, k + 1);
        let p = s.subrange(0, k + 1);
        assert(p.drop_last() =~= s.subrange(0, k));
    } else {
        assert(s.subrange(0, k) =~= s);
    }
}

/// Parses a decimal number in text into a value no larger than `max`, as
/// [`parse_decimal_spec`] describes.
pub fn parse_decimal(s: &[u8], max: u32) -> (r: Option<u32>)
    requires
        max <= 0xFFFF,
    ensures
        match parse_decimal_spec(s@, max as nat) {
            Some(v) => r == Some(v as u32),
            None => r is None,
        },
{
    let mut start: usize = 0;
    if s.len() > 0 && s[0] == 43 {
        start = 1;
    }
    let ghost d = if s@.len() > 0 && s@[0] == 43 {
        s@.drop_first()
    } else {
        s@
    };
    assert(d =~= s@.subrange(start as int, s@.len() as int));
    if start >= s.len() {
        return None;
    }
    let mut i: usize = start;
    let mut v: u32 = 0;
    assert(s@.subrange(start as int, start as int) =~= Seq::<u8>::empty());
    while i < s.len()
        invariant
            start <= i <= s@.len(),
            start < s@.len(),
            d == s@.subrange(start as int, s@.len() as int),
            d == (if s@.len() > 0 && s@[0] == 43 {
                s@.drop_first()
            } else {
                s@
            }),
            max <= 0xFFFF,
            v <= max,
            v == digits_value(s@.subrange(start as int, i as int)),
            forall|k: int| start <= k < i ==> is_digit(#[trigger] s@[k]),
        decreases s@.len() - i,
    {
        let b = s[i];
        if b < 48 || b > 57 {
            assert(!is_digit(d[i - start]));
            return None;
        }
        proof {
            let p = s@.subrange(start as int, i + 1);
            assert(p.drop_last() =~= s@.subrange(start as int, i as int));
        }
        v = v * 10 + (b - 48) as u32;
        i = i + 1;
        if v > max {
            proof {
                if all_digits(d) {
                    lemma_digits_value_prefix(d, i - start);
                    assert(d.subrange(0, i - start) =~= s@.subrange(start as int, i as int));
                }
            }
            return None;
        }
    }
    assert(s@.subrange(start as int, i as int) =~= d);
    assert(all_digits(d)) by {
        assert forall|k: int| 0 <= k < d.len() implies is_digit(#[trigger] d[k]) by {
            assert(d[k] == s@[start + k]);
        }
    }
    Some(v)
}

/// Appends the decimal representation of `n` to `out`.
pub fn push_decimal(out: &mut Vec<u8>, n: u32)
    ensures
        final(out)@ == old(out)@ + decimal_bytes(n as nat),
    decreases n,
{
    if n >= 10 {
        push_decimal(out, n / 10);
    }
    out.push((48 + n % 10) as u8);
    proof {
        if n >= 10 {
            assert(decimal_bytes(n as nat) == decimal_bytes((n / 10) as nat).push(
                digit_byte((n % 10) as nat),
            ));
        }
    }
    assert(final(out)@ =~= old(out)@ + decimal_bytes(n as nat));
}

/// Makes a string of ASCII bytes.
pub fn ascii_string(bytes: &[u8]) -> (s: String)
    requires
        is_ascii_bytes(bytes@),
    ensures
        s@ == ascii_chars(bytes@),
{
    proof {
        lemma_ascii_encoding(bytes@);
    }
    match str_from_utf8(bytes) {
        Some(t) => {
            proof {
                encode_utf8_decode_utf8(t@);
            }
            t.to_owned()
        },
        None => {
            assert(false);
            String::new()
        },
    }
}

/// The number that generic text stands for: `prefix`, then a decimal number no larger than
/// `max`.
pub open spec fn generic_value(s: Seq<u8>, prefix: Seq<u8>, max: nat) -> Option<nat> {
    if has_prefix(s, prefix) {
        parse_decimal_spec(s.subrange(prefix.len() as int, s.len() as int), max)
    } else {
        None
    }
}

/// Parses generic text, as [`generic_value`] describes.
pub fn parse_generic(s: &str, prefix: &str, max: u32) -> (r: Option<u32>)
    requires
        max <= 0xFFFF,
    ensures
        match generic_value(s.spec_bytes(), prefix.spec_bytes(), max as nat) {
            Some(v) => r == Some(v as u32),
            None => r is None,
        },
{
    match strip_prefix(s.as_bytes(), prefix.as_bytes()) {
        Some(sfx) => parse_decimal(sfx, max),
        None => None,
    }
}

/// The text of an unknown value: a prefix, then the value in decimal.
pub open spec fn prefixed_decimal(prefix: Seq<u8>, n: nat) -> Seq<char> {
    ascii_chars(prefix + decimal_bytes(n))
}

/// The text of a value rendered as `prefix`, the value in decimal, then `suffix`.
pub open spec fn decorated_decimal(prefix: Seq<u8>, n: nat, suffix: Seq<u8>) -> Seq<char> {
    ascii_chars(prefix + decimal_bytes(n) + suffix)
}

/// Renders `prefix`, then `n` in decimal, then `suffix`.
pub fn decorated_decimal_string(prefix: &str, n: u32, suffix: &str) -> (s: String)
    requires
        is_ascii_bytes(prefix.spec_bytes()),
        is_ascii_bytes(suffix.spec_bytes()),
    ensures
        s@ == decorated_decimal(prefix.spec_bytes(), n as nat, suffix.spec_bytes()),
{
    let mut out: Vec<u8> = vstd::slice::slice_to_vec(prefix.as_bytes());
    push_decimal(&mut out, n);
    let mut tail = vstd::slice::slice_to_vec(suffix.as_bytes());
    out.append(&mut tail);
    proof {
        lemma_decimal_bytes(n as nat);
        let p = prefix.spec_bytes();
        let d = decimal_bytes(n as nat);
        let t = p + d + suffix.spec_bytes();
        assert(out@ =~= t);
        assert forall|k: int| 0 <= k < t.len() implies #[trigger] t[k] < 128 by {
            if k < p.len() {
                assert(t[k] == p[k]);
            } else if k < p.len() + d.len() {
                assert(t[k] == d[k - p.len()]);
            } else {
                assert(t[k] == suffix.spec_bytes()[k - p.len() - d.len()]);
            }
        }
    }
    ascii_string(out.as_slice())
}

/// The UTF-8 encoding of ASCII characters is their bytes.
pub proof fn lemma_ascii_text(s: &str)
    requires
        vstd::utf8::is_ascii_chars(s@),
    ensures
        is_ascii_bytes(s.spec_bytes()),
        s.spec_bytes().len() == s@.len(),
        forall|i: int| 0 <= i < s@.len() ==> s.spec_bytes()[i] == s@[i] as u8,
{
    vstd::utf8::is_ascii_chars_encode_utf8(s@);
    assert forall|i: int| 0 <= i < s.spec_bytes().len() implies #[trigger] s.spec_bytes()[i]
        < 128 by {
        assert(s@[i] as u8 == s.spec_bytes()[i]);
    }
}

/// The generic text of a number is recognized as that number.
pub proof fn lemma_generic_round_trip(prefix: Seq<u8>, n: nat, max: nat)
    requires
        n <= max,
        is_ascii_bytes(prefix),
    ensures
        generic_value(prefix + decimal_bytes(n), prefix, max) == Some(n),
        vstd::utf8::encode_utf8(prefixed_decimal(prefix, n)) == prefix + decimal_bytes(n),
{
    let t = prefix + decimal_bytes(n);
    lemma_decimal_bytes(n);
    lemma_parse_decimal(n, max);
    assert(t.subrange(0, prefix.len() as int) =~= prefix);
    assert(t.subrange(prefix.len() as int, t.len() as int) =~= decimal_bytes(n));
    assert forall|k: int| 0 <= k < t.len() implies #[trigger] t[k] < 128 by {
        if k < prefix.len() {
            assert(t[k] == prefix[k]);
        } else {
            assert(t[k] == decimal_bytes(n)[k - prefix.len()]);
        }
    }
    lemma_ascii_encoding(t);
}

/// Renders `prefix` followed by `n` in decimal.
pub fn prefixed_decimal_string(prefix: &str, n: u32) -> (s: String)
    requires
        is_ascii_bytes(prefix.spec_bytes()),
    ensures
        s@ == prefixed_decimal(prefix.spec_bytes(), n as nat),
{
    let mut out: Vec<u8> = vstd::slice::slice_to_vec(prefix.as_bytes());
    push_decimal(&mut out, n);
    proof {
        lemma_decimal_bytes(n as nat);
        let t = prefix.spec_bytes() + decimal_bytes(n as nat);
        assert forall|k: int| 0 <= k < t.len() implies #[trigger] t[k] < 128 by {
            if k < prefix.spec_bytes().len() {
                assert(t[k] == prefix.spec_bytes()[k]);
            } else {
                assert(t[k] == decimal_bytes(n as nat)[k - prefix.spec_bytes().len()]);
            }
        }
    }
    ascii_string(out.as_slice())
}

} // verus!
