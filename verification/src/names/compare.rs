//! Comparison of domain names in their textual form, ignoring ASCII case.

use core::cmp::Ordering;
use vstd::prelude::*;

use crate::message::reader::label_ref::{ascii_lower, eq_ignore_case, to_ascii_lower, bytes_eq_ignore_case};

verus! {

/// A textual domain name equals a string: both denote the root zone, or neither does and they
/// are equal ignoring ASCII case, the final dot of the name disregarded when the string has none.
pub open spec fn eq_str_spec(name: Seq<u8>, other: Seq<u8>) -> bool {
    let l_root = name == seq![46u8];
    let r_root = other == seq![46u8];
    if l_root && r_root {
        true
    } else if l_root != r_root {
        false
    } else {
        let bytes = if name.len() > 0 && !(other.len() > 0 && other.last() == 46) {
            name.drop_last()
        } else {
            name
        };
        eq_ignore_case(bytes, other)
    }
}

/// The bytes of `s` from index `i` on.
pub open spec fn tail_at(s: Seq<u8>, i: usize) -> Seq<u8> {
    s.subrange(i as int, s.len() as int)
}

/// Dropping the first byte of a tail gives the next tail.
pub proof fn lemma_tail_step(s: Seq<u8>, i: usize)
    requires
        i < s.len(),
        s.len() <= usize::MAX,
    ensures
        tail_at(s, i).drop_first() == tail_at(s, (i + 1) as usize),
        tail_at(s, i)[0] == s[i as int],
        tail_at(s, i).len() == s.len() - i,
{
    assert(tail_at(s, i).drop_first() =~= tail_at(s, (i + 1) as usize));
}

/// A whole sequence is its tail from index zero.
pub proof fn lemma_tail_zero(s: Seq<u8>)
    ensures
        tail_at(s, 0) == s,
{
    assert(tail_at(s, 0) =~= s);
}

/// The order of two textual names: bytes compared ignoring ASCII case, then the shorter
/// name first.
pub open spec fn name_order(a: Seq<u8>, b: Seq<u8>) -> Ordering
    decreases a.len(),
{
    if a.len() == 0 || b.len() == 0 {
        if a.len() < b.len() {
            Ordering::Less
        } else if a.len() == b.len() {
            Ordering::Equal
        } else {
            Ordering::Greater
        }
    } else if ascii_lower(a[0]) < ascii_lower(b[0]) {
        Ordering::Less
    } else if ascii_lower(a[0]) > ascii_lower(b[0]) {
        Ordering::Greater
    } else {
        name_order(a.drop_first(), b.drop_first())
    }
}

/// Checks if a textual name equals a string, as described by [`eq_str_spec`].
pub fn eq_str_bytes(name: &[u8], other: &[u8]) -> (r: bool)
    ensures
        r == eq_str_spec(name@, other@),
{
    let l_root = name.len() == 1 && name[0] == 46;
    let r_root = other.len() == 1 && other[0] == 46;
    proof {
        if name@.len() == 1 && name@[0] == 46 {
            assert(name@ =~= seq![46u8]);
        }
        if other@.len() == 1 && other@[0] == 46 {
            assert(other@ =~= seq![46u8]);
        }
    }
    if l_root && r_root {
        return true;
    }
    if l_root != r_root {
        return false;
    }
    let other_dotted = other.len() > 0 && other[other.len() - 1] == 46;
    if name.len() > 0 && !other_dotted {
        let bytes = vstd::slice::slice_subrange(name, 0, name.len() - 1);
        assert(bytes@ =~= name@.drop_last());
        bytes_eq_ignore_case(bytes, other)
    } else {
        bytes_eq_ignore_case(name, other)
    }
}

/// Orders two textual names, as described by [`name_order`].
pub fn order_bytes(a: &[u8], b: &[u8]) -> (r: Ordering)
    ensures
        r == name_order(a@, b@),
{
    let mut i: usize = 0;
    proof {
        lemma_tail_zero(a@);
        lemma_tail_zero(b@);
    }
    while i < a.len() && i < b.len()
        invariant
            i <= a@.len(),
            i <= b@.len(),
            name_order(a@, b@) == name_order(tail_at(a@, i), tail_at(b@, i)),
        decreases a@.len() - i,
    {
        proof {
            lemma_tail_step(a@, i);
            lemma_tail_step(b@, i);
        }
        let l = to_ascii_lower(a[i]);
        let r = to_ascii_lower(b[i]);
        if l < r {
            return Ordering::Less;
        } else if l > r {
            return Ordering::Greater;
        }
        i = i + 1;
    }
    proof {
        assert(tail_at(a@, i).len() == a@.len() - i);
        assert(tail_at(b@, i).len() == b@.len() - i);
    }
    if a.len() < b.len() {
        Ordering::Less
    } else if a.len() == b.len() {
        Ordering::Equal
    } else {
        Ordering::Greater
    }
}

} // verus!
