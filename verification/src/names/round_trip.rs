//! What is read back of a domain name written in the wire format.

use vstd::prelude::*;

use crate::bytes::{CursorView, WCursorView};
use crate::message::reader::labels::{read_from, read_name_spec};
use crate::names::utils::{absolute, check_label_spec};
use crate::names::writer::{label_write, labels_write_from, lemma_labels_write_bounds, name_write};

verus! {

/// The text of the labels that [`labels_write_from`] writes, each followed by a dot.
pub open spec fn labels_text(s: Seq<u8>, i: int, j: int, dotted: bool) -> Seq<u8>
    decreases s.len() - j,
{
    if j >= s.len() {
        if !dotted || s.len() - i > 0 {
            s.subrange(i, s.len() as int) + seq![46u8]
        } else {
            Seq::empty()
        }
    } else if s[j] == 46 {
        s.subrange(i, j) + seq![46u8] + labels_text(s, j + 1, j + 1, true)
    } else {
        labels_text(s, i, j + 1, dotted)
    }
}

/// The labels' text is the rest of the name, with a final dot where it has none.
proof fn lemma_labels_text(s: Seq<u8>, i: int, j: int, dotted: bool)
    requires
        0 <= i <= j <= s.len(),
        forall|k: int| i <= k < j ==> s[k] != 46,
        dotted ==> i > 0 && s[i - 1] == 46,
        !dotted ==> i == 0,
    ensures
        labels_text(s, i, j, dotted) == s.subrange(i, s.len() as int) + (if s.len() > 0
            && s.last() == 46 {
            Seq::<u8>::empty()
        } else {
            seq![46u8]
        }),
    decreases s.len() - j,
{
    if j >= s.len() {
        assert(s.subrange(i, s.len() as int) + Seq::<u8>::empty() =~= s.subrange(
            i,
            s.len() as int,
        ));
    } else if s[j] == 46 {
        lemma_labels_text(s, j + 1, j + 1, true);
        let tail = if s.len() > 0 && s.last() == 46 {
            Seq::<u8>::empty()
        } else {
            seq![46u8]
        };
        assert(s.subrange(i, j) + seq![46u8] + (s.subrange(j + 1, s.len() as int) + tail)
            =~= s.subrange(i, s.len() as int) + tail);
    } else {
        lemma_labels_text(s, i, j + 1, dotted);
    }
}

/// Writing labels changes no byte before the write position.
pub proof fn lemma_labels_write_prefix(s: Seq<u8>, i: int, j: int, dotted: bool, w: WCursorView, k: int)
    requires
        0 <= i <= j <= s.len(),
        0 <= w.pos <= w.buf.len(),
        0 <= k < w.pos,
    ensures
        labels_write_from(s, i, j, dotted, w).1.buf.len() == w.buf.len(),
        labels_write_from(s, i, j, dotted, w).1.buf[k] == w.buf[k],
        w.pos <= labels_write_from(s, i, j, dotted, w).1.pos <= w.buf.len(),
    decreases s.len() - j,
{
    if j >= s.len() {
    } else if s[j] == 46 {
        match label_write(s.subrange(i, j), w) {
            (Err(_), _) => {},
            (Ok(_), w2) => {
                lemma_labels_write_prefix(s, j + 1, j + 1, true, w2, k);
            },
        }
    } else {
        lemma_labels_write_prefix(s, i, j + 1, dotted, w, k);
    }
}

/// Reading the labels written from `w` on, in a buffer that holds them followed by a zero
/// byte, appends their text to `text` and ends after the zero byte.
proof fn lemma_labels_read_back(
    s: Seq<u8>,
    i: int,
    j: int,
    dotted: bool,
    w: WCursorView,
    buf: Seq<u8>,
    end: int,
    text: Seq<u8>,
)
    requires
        0 <= i <= j <= s.len(),
        forall|k: int| i <= k < j ==> s[k] != 46,
        0 <= w.pos <= w.buf.len(),
        labels_write_from(s, i, j, dotted, w).0 is Ok,
        ({
            let w2 = labels_write_from(s, i, j, dotted, w).1;
            &&& w2.pos < end <= buf.len()
            &&& buf[w2.pos] == 0
            &&& forall|k: int| w.pos <= k < w2.pos ==> buf[k] == w2.buf[k]
            &&& text.len() + (w2.pos - w.pos) <= 255
        }),
    ensures
        ({
            let w2 = labels_write_from(s, i, j, dotted, w).1;
            let t = text + labels_text(s, i, j, dotted);
            read_from(buf, end, w.pos, 0, 0, text) == Ok::<(Seq<u8>, int), crate::errors::Error>(
                (
                    if t.len() == 0 {
                        seq![46u8]
                    } else {
                        t
                    },
                    w2.pos + 1,
                ),
            )
        }),
    decreases s.len() - j,
{
    let w2 = labels_write_from(s, i, j, dotted, w).1;
    if j >= s.len() {
        if !dotted || s.len() - i > 0 {
            let label = s.subrange(i, s.len() as int);
            let bytes = seq![label.len() as u8] + label;
            assert(check_label_spec(label) is Ok);
            assert(w2 == w.written(bytes));
            assert(buf[w.pos] == label.len());
            assert(buf.subrange(w.pos + 1, w.pos + 1 + label.len()) =~= label) by {
                assert forall|k: int| 0 <= k < label.len() implies buf.subrange(
                    w.pos + 1,
                    w.pos + 1 + label.len(),
                )[k] == label[k] by {
                    assert(buf[w.pos + 1 + k] == w2.buf[w.pos + 1 + k]);
                    assert(w2.buf[w.pos + 1 + k] == bytes[1 + k]);
                }
            }
            let t1 = text + label + seq![46u8];
            assert(text + labels_text(s, i, j, dotted) =~= t1);
            assert(read_from(buf, end, w2.pos, 0, 0, t1) == Ok::<
                (Seq<u8>, int),
                crate::errors::Error,
            >((t1, w2.pos + 1)));
        } else {
            assert(labels_text(s, i, j, dotted) =~= Seq::<u8>::empty());
            assert(text + labels_text(s, i, j, dotted) =~= text);
        }
    } else if s[j] == 46 {
        let label = s.subrange(i, j);
        let bytes = seq![label.len() as u8] + label;
        match label_write(label, w) {
            (Err(_), _) => {},
            (Ok(_), wa) => {
                assert(check_label_spec(label) is Ok);
                assert(wa == w.written(bytes));
                lemma_labels_write_prefix(s, j + 1, j + 1, true, wa, w.pos);
                assert forall|k: int| w.pos <= k < wa.pos implies buf[k] == wa.buf[k] by {
                    lemma_labels_write_prefix(s, j + 1, j + 1, true, wa, k);
                }
                assert(buf[w.pos] == label.len());
                assert(buf.subrange(w.pos + 1, w.pos + 1 + label.len()) =~= label) by {
                    assert forall|k: int| 0 <= k < label.len() implies buf.subrange(
                        w.pos + 1,
                        w.pos + 1 + label.len(),
                    )[k] == label[k] by {
                        assert(buf[w.pos + 1 + k] == wa.buf[w.pos + 1 + k]);
                        assert(wa.buf[w.pos + 1 + k] == bytes[1 + k]);
                    }
                }
                let t1 = text + label + seq![46u8];
                lemma_labels_read_back(s, j + 1, j + 1, true, wa, buf, end, t1);
                assert(text + labels_text(s, i, j, dotted) =~= t1 + labels_text(
                    s,
                    j + 1,
                    j + 1,
                    true,
                ));
            },
        }
    } else {
        lemma_labels_read_back(s, i, j + 1, dotted, w, buf, end, text);
    }
}

/// A domain name written in the wire format reads back as its absolute textual form (with a
/// final dot) from any buffer that holds the bytes written, and the read ends where the write
/// ended.
pub proof fn lemma_name_write_read_in(s: Seq<u8>, w: WCursorView, buf: Seq<u8>, end: usize)
    requires
        0 <= w.pos <= w.buf.len() <= usize::MAX,
        name_write(s, w).0 is Ok,
        name_write(s, w).1.pos <= end <= buf.len(),
        forall|k: int| w.pos <= k < name_write(s, w).1.pos ==> buf[k] == name_write(s, w).1.buf[k],
    ensures
        read_name_spec(CursorView { buf, pos: w.pos as usize, end, window: false }) == Ok::<
            (Seq<u8>, int),
            crate::errors::Error,
        >((absolute(s), name_write(s, w).1.pos)),
{
    let w2 = labels_write_from(s, 0, 0, false, w).1;
    let w3 = name_write(s, w).1;
    lemma_labels_write_bounds(s, 0, 0, false, w);
    assert(w3 == w2.written(seq![0u8]));
    assert(w3.buf[w2.pos] == 0);
    assert(buf[w2.pos] == 0);
    assert forall|k: int| w.pos <= k < w2.pos implies buf[k] == w2.buf[k] by {
        assert(buf[k] == w3.buf[k]);
    }
    lemma_labels_read_back(s, 0, 0, false, w, buf, end as int, Seq::empty());
    lemma_labels_text(s, 0, 0, false);
    assert(s.subrange(0, s.len() as int) =~= s);
    assert(s + Seq::<u8>::empty() =~= s);
    assert(Seq::<u8>::empty() + labels_text(s, 0, 0, false) =~= absolute(s));
}

/// A domain name written in the wire format reads back as its absolute textual form (with a
/// final dot), and the read ends where the write ended.
pub proof fn lemma_name_write_read(s: Seq<u8>, w: WCursorView, end: usize)
    requires
        0 <= w.pos <= w.buf.len() <= usize::MAX,
        name_write(s, w).0 is Ok,
        name_write(s, w).1.pos <= end <= w.buf.len(),
    ensures
        read_name_spec(
            CursorView { buf: name_write(s, w).1.buf, pos: w.pos as usize, end, window: false },
        ) == Ok::<(Seq<u8>, int), crate::errors::Error>((absolute(s), name_write(s, w).1.pos)),
{
    crate::names::writer::lemma_name_write_forward(s, w);
    lemma_name_write_read_in(s, w, name_write(s, w).1.buf, end);
}

/// Writing a name changes no byte before the write position.
pub proof fn lemma_name_write_prefix(s: Seq<u8>, w: WCursorView, k: int)
    requires
        0 <= w.pos <= w.buf.len(),
        0 <= k < w.pos,
    ensures
        name_write(s, w).1.buf[k] == w.buf[k],
{
    if s.len() > 0 {
        lemma_labels_write_prefix(s, 0, 0, false, w, k);
        lemma_labels_write_bounds(s, 0, 0, false, w);
    }
}

} // verus!
