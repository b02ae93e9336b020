//! Encoded domain names referenced in a message buffer.

use vstd::prelude::*;

use crate::bytes::{Cursor, CursorView};
use crate::errors::{Error, Result};
use crate::message::reader::label_ref::{bytes_eq_ignore_case, eq_ignore_case};
use crate::message::reader::labels::{name_labels, read_domain_name, read_name_spec, Labels};
use crate::names::dname::DNameBase;

verus! {

/// The `i`-th label item, or `None` past the end.
pub open spec fn item_at(items: Seq<Result<(Seq<u8>, int)>>, i: int) -> Option<
    Result<(Seq<u8>, int)>,
> {
    if 0 <= i < items.len() {
        Some(items[i])
    } else {
        None
    }
}

/// Comparison of two encoded names from their `i`-th labels on.
///
/// Labels encoded at the same position end equal names; otherwise labels are compared
/// ignoring ASCII case. A failure met while reading labels of both names is the result.
pub open spec fn names_eq_from(
    a: Seq<Result<(Seq<u8>, int)>>,
    b: Seq<Result<(Seq<u8>, int)>>,
    i: int,
) -> Result<bool>
    decreases a.len() - i,
{
    match (item_at(a, i), item_at(b, i)) {
        (Some(x), Some(y)) => match x {
            Err(e) => Err(e),
            Ok((xb, xp)) => match y {
                Err(e) => Err(e),
                Ok((yb, yp)) => if xp == yp {
                    Ok(true)
                } else if !eq_ignore_case(xb, yb) {
                    Ok(false)
                } else {
                    names_eq_from(a, b, i + 1)
                },
            },
        },
        (None, None) => Ok(true),
        _ => Ok(false),
    }
}

/// Comparison of the names encoded at two cursors of the same message.
pub open spec fn names_eq_spec(a: CursorView, b: CursorView) -> Result<bool> {
    names_eq_from(name_labels(a), name_labels(b), 0)
}

/// An encoded domain name.
///
/// `NameRef` represents an encoded domain name. It doesn't hold the name bytes itself, but rather
/// points into a message buffer.
///
/// Its main purpose is efficient comparison between domain names encoded in the **same** DNS
/// message. This is optimized for compressed domain names, where two labels encoded at the same
/// offset ensure that suffixes of a domain name starting at these labels are equal.
#[derive(Debug, Clone, Copy)]
pub struct NameRef<'a> {
    cursor: Cursor<'a>,
}

impl<'a> View for NameRef<'a> {
    type V = CursorView;

    /// The cursor positioned at the encoded name.
    closed spec fn view(&self) -> CursorView {
        self.cursor@
    }
}

impl<'a> NameRef<'a> {
    /// Creates a reference to the name encoded at the cursor's position.
    pub fn new(cursor: Cursor<'a>) -> (n: NameRef<'a>)
        ensures
            n@ == cursor@,
    {
        NameRef { cursor }
    }

    /// Returns an iterator over the labels of this domain name.
    pub fn labels(&self) -> (l: Labels<'a>)
        ensures
            l.items() == name_labels(self@),
    {
        Labels::new(self.cursor)
    }

    /// Checks if this `NameRef` points to the same name as another one.
    ///
    /// This method is well defined only when applied to names encoded in the **same** DNS message.
    pub fn eq(&self, other: &Self) -> (r: Result<bool>)
        ensures
            r == names_eq_spec(self@, other@),
    {
        let ghost a = name_labels(self@);
        let ghost b = name_labels(other@);
        let mut my_labels = self.labels();
        let mut other_labels = other.labels();
        let ghost mut i: int = 0;
        proof {
            assert(a.subrange(0, a.len() as int) =~= a);
            assert(b.subrange(0, b.len() as int) =~= b);
        }
        loop
            invariant
                0 <= i <= a.len() || (i > a.len() && my_labels.items().len() == 0),
                my_labels.items() == (if i <= a.len() {
                    a.subrange(i, a.len() as int)
                } else {
                    Seq::empty()
                }),
                other_labels.items() == (if i <= b.len() {
                    b.subrange(i, b.len() as int)
                } else {
                    Seq::empty()
                }),
                names_eq_spec(self@, other@) == names_eq_from(a, b, i),
                a == name_labels(self@),
                b == name_labels(other@),
            decreases a.len() - i,
        {
            let ghost ia = my_labels.items();
            let ghost ib = other_labels.items();
            let mo = my_labels.next();
            let oo = other_labels.next();
            proof {
                if i < a.len() {
                    assert(ia[0] == a[i]);
                    assert(a.subrange(i + 1, a.len() as int) =~= ia.drop_first());
                }
                if i < b.len() {
                    assert(ib[0] == b[i]);
                    assert(b.subrange(i + 1, b.len() as int) =~= ib.drop_first());
                }
            }
            match (mo, oo) {
                (Some(mr), Some(or)) => {
                    let ml = match mr {
                        Ok(l) => l,
                        Err(e) => return Err(e),
                    };
                    let ol = match or {
                        Ok(l) => l,
                        Err(e) => return Err(e),
                    };
                    if ml.pos() == ol.pos() {
                        return Ok(true);
                    } else if !bytes_eq_ignore_case(ml.bytes(), ol.bytes()) {
                        return Ok(false);
                    }
                },
                (None, None) => return Ok(true),
                _ => return Ok(false),
            }
            proof {
                i = i + 1;
            }
        }
    }

    /// Checks if this `NameRef` and another one point to different names.
    ///
    /// This method is the inverse of [`NameRef::eq`].
    ///
    /// This method is well defined only when applied to names encoded in the **same** DNS message.
    pub fn ne(&self, other: &Self) -> (r: Result<bool>)
        ensures
            match names_eq_spec(self@, other@) {
                Ok(b) => r == Ok::<bool, Error>(!b),
                Err(e) => r == Err::<bool, Error>(e),
            },
    {
        match self.eq(other) {
            Ok(b) => Ok(!b),
            Err(e) => Err(e),
        }
    }

    /// Reads the referenced domain name into a domain name type.
    pub fn to_name<N: DNameBase>(&self) -> (r: Result<N>)
        ensures
            match read_name_spec(self@) {
                Ok((t, _p)) => r matches Ok(n) && n.dname_bytes() == t,
                Err(e) => r matches Err(e2) && e2 == e,
            },
    {
        let mut c = self.cursor;
        read_domain_name(&mut c)
    }
}

} // verus!
