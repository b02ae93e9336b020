//! Byte cursors for reading and writing DNS messages.

use vstd::prelude::*;

use crate::errors::{Error, Result};

verus! {

/// Big-endian value of two bytes.
pub open spec fn be16(b0: u8, b1: u8) -> int {
    b0 as int * 256 + b1 as int
}

/// Big-endian value of four bytes.
pub open spec fn be32(b0: u8, b1: u8, b2: u8, b3: u8) -> int {
    ((b0 as int * 256 + b1 as int) * 256 + b2 as int) * 256 + b3 as int
}

/// Reading a value of type `T`.
pub trait Reader<T> {
    /// Reads a value.
    fn read(&mut self) -> (r: Result<T>);
}

/// Writing a value of type `T`.
pub trait Writer<T> {
    /// Writes a value and returns the number of bytes written.
    fn write(&mut self, value: &T) -> (r: Result<usize>);
}

/// The abstract state of a [`Cursor`].
pub struct CursorView {
    /// The whole underlying buffer.
    pub buf: Seq<u8>,
    /// The current position.
    pub pos: usize,
    /// The position reads may not pass (the end of the buffer, or of an open window).
    pub end: usize,
    /// Whether a window is open.
    pub window: bool,
}

impl CursorView {
    /// The number of bytes that may still be read.
    pub open spec fn remaining(self) -> int {
        if self.pos <= self.end {
            self.end - self.pos
        } else {
            0
        }
    }

    /// `n` more bytes may be read from the current position.
    pub open spec fn fits(self, n: int) -> bool {
        0 <= n && self.pos <= self.end && n <= self.end - self.pos
    }

    /// The same state at another position.
    pub open spec fn at(self, pos: int) -> CursorView {
        CursorView { pos: pos as usize, ..self }
    }

    /// The byte at `i` may be read: it lies before the end.
    pub open spec fn readable(self, i: int) -> bool {
        0 <= i < self.end
    }
}

/// Reading a big-endian `u16` at the cursor: the result and the cursor afterwards.
pub open spec fn u16_read(c: CursorView) -> (Result<u16>, CursorView) {
    if c.remaining() >= 2 {
        (Ok(be16(c.buf[c.pos as int], c.buf[c.pos + 1]) as u16), c.at(c.pos + 2))
    } else {
        (Err(Error::EndOfBuffer), c)
    }
}

/// Reading a big-endian `u32` at the cursor: the result and the cursor afterwards.
pub open spec fn u32_read(c: CursorView) -> (Result<u32>, CursorView) {
    if c.remaining() >= 4 {
        (
            Ok(
                be32(c.buf[c.pos as int], c.buf[c.pos + 1], c.buf[c.pos + 2], c.buf[c.pos + 3]) as u32,
            ),
            c.at(c.pos + 4),
        )
    } else {
        (Err(Error::EndOfBuffer), c)
    }
}

/// Reading a byte at the cursor: the result and the cursor afterwards.
pub open spec fn u8_read(c: CursorView) -> (Result<u8>, CursorView) {
    if c.remaining() >= 1 {
        (Ok(c.buf[c.pos as int]), c.at(c.pos + 1))
    } else {
        (Err(Error::EndOfBuffer), c)
    }
}

/// Reading `len` bytes at the cursor: the result and the cursor afterwards.
pub open spec fn slice_read(c: CursorView, len: int) -> (Result<Seq<u8>>, CursorView) {
    if c.fits(len) {
        (Ok(c.buf.subrange(c.pos as int, c.pos + len)), c.at(c.pos + len))
    } else {
        (Err(Error::EndOfBuffer), c)
    }
}

/// Skipping `len` bytes at the cursor: the result and the cursor afterwards.
pub open spec fn skip_read(c: CursorView, len: int) -> (Result<()>, CursorView) {
    if c.fits(len) {
        (Ok(()), c.at(c.pos + len))
    } else {
        (Err(Error::EndOfBuffer), c)
    }
}

/// Opening a window of `size` bytes at the cursor: the result and the cursor afterwards.
pub open spec fn window_open(c: CursorView, size: int) -> (Result<()>, CursorView) {
    if c.fits(size) {
        (Ok(()), CursorView { end: (c.pos + size) as usize, window: true, ..c })
    } else {
        (Err(Error::EndOfBuffer), c)
    }
}

/// Closing a window at the cursor: the result and the cursor afterwards.
pub open spec fn window_close(c: CursorView) -> (Result<()>, CursorView) {
    if c.pos == c.end {
        (Ok(()), CursorView { end: c.buf.len() as usize, window: false, ..c })
    } else {
        (Err(Error::CursorWindowError { expected: c.end, actual: c.pos }), c)
    }
}

/// A read cursor over a message buffer.
///
/// Reads are bounded by an end position, which is the end of the buffer unless a window
/// was opened with [`Cursor::window`]. A failed read leaves the cursor unchanged.
#[derive(Clone, Copy, Debug)]
pub struct Cursor<'a> {
    buf: &'a [u8],
    pos: usize,
    end: usize,
    window: bool,
}

impl<'a> View for Cursor<'a> {
    type V = CursorView;

    closed spec fn view(&self) -> CursorView {
        CursorView { buf: self.buf@, pos: self.pos, end: self.end, window: self.window }
    }
}

impl<'a> Cursor<'a> {
    #[verifier::type_invariant]
    spec fn inv(&self) -> bool {
        self.end <= self.buf@.len()
    }

    /// Creates a cursor at the start of `buf`.
    pub fn new(buf: &'a [u8]) -> (c: Cursor<'a>)
        ensures
            c@ == (CursorView { buf: buf@, pos: 0, end: buf@.len() as usize, window: false }),
    {
        Cursor { buf, pos: 0, end: buf.len(), window: false }
    }

    /// Creates a cursor over `buf` positioned at `pos`.
    pub fn with_pos(buf: &'a [u8], pos: usize) -> (c: Cursor<'a>)
        ensures
            c@ == (CursorView { buf: buf@, pos: pos, end: buf@.len() as usize, window: false }),
    {
        Cursor { buf, pos, end: buf.len(), window: false }
    }

    /// Returns a copy of this cursor positioned at `pos`.
    pub fn clone_with_pos(&self, pos: usize) -> (c: Cursor<'a>)
        ensures
            c@ == self@.at(pos as int),
    {
        proof {
            use_type_invariant(self);
        }
        Cursor { buf: self.buf, pos, end: self.end, window: self.window }
    }

    /// Returns the whole buffer that the cursor reads from.
    pub fn buffer(&self) -> (b: &'a [u8])
        ensures
            b@ == self@.buf,
    {
        self.buf
    }

    /// Returns the current position.
    pub fn pos(&self) -> (p: usize)
        ensures
            p == self@.pos,
    {
        self.pos
    }

    /// Moves the cursor to `pos`.
    pub fn set_pos(&mut self, pos: usize)
        ensures
            final(self)@ == old(self)@.at(pos as int),
    {
        proof {
            use_type_invariant(&*self);
        }
        *self = Cursor { buf: self.buf, pos, end: self.end, window: self.window };
    }

    /// Returns the number of bytes that may still be read.
    pub fn len(&self) -> (n: usize)
        ensures
            n == self@.remaining(),
    {
        if self.pos <= self.end {
            self.end - self.pos
        } else {
            0
        }
    }

    /// Returns `true` when nothing is left to read.
    pub fn is_empty(&self) -> (b: bool)
        ensures
            b == (self@.remaining() == 0),
    {
        self.len() == 0
    }

    /// Reads one byte.
    pub fn u8(&mut self) -> (r: Result<u8>)
        ensures
            (r, final(self)@) == u8_read(old(self)@),
            old(self)@.remaining() >= 1 ==> r == Ok::<u8, Error>(old(self)@.buf[old(self)@.pos as int])
                && final(self)@ == old(self)@.at(old(self)@.pos + 1),
            old(self)@.remaining() < 1 ==> r == Err::<u8, Error>(Error::EndOfBuffer)
                && final(self)@ == old(self)@,
    {
        proof {
            use_type_invariant(&*self);
        }
        if self.len() >= 1 {
            let b = self.buf[self.pos];
            *self = Cursor { buf: self.buf, pos: self.pos + 1, end: self.end, window: self.window };
            Ok(b)
        } else {
            Err(Error::EndOfBuffer)
        }
    }

    /// Reads a big-endian `u16`.
    pub fn u16_be(&mut self) -> (r: Result<u16>)
        ensures
            (r, final(self)@) == u16_read(old(self)@),
            old(self)@.remaining() >= 2 ==> r == Ok::<u16, Error>(be16(
                old(self)@.buf[old(self)@.pos as int],
                old(self)@.buf[old(self)@.pos + 1],
            ) as u16) && final(self)@ == old(self)@.at(old(self)@.pos + 2),
            old(self)@.remaining() < 2 ==> r == Err::<u16, Error>(Error::EndOfBuffer)
                && final(self)@ == old(self)@,
    {
        proof {
            use_type_invariant(&*self);
        }
        if self.len() >= 2 {
            let b0 = self.buf[self.pos];
            let b1 = self.buf[self.pos + 1];
            *self = Cursor { buf: self.buf, pos: self.pos + 2, end: self.end, window: self.window };
            Ok(b0 as u16 * 256 + b1 as u16)
        } else {
            Err(Error::EndOfBuffer)
        }
    }

    /// Reads a big-endian `u32`.
    pub fn u32_be(&mut self) -> (r: Result<u32>)
        ensures
            (r, final(self)@) == u32_read(old(self)@),
            old(self)@.remaining() >= 4 ==> r == Ok::<u32, Error>(be32(
                old(self)@.buf[old(self)@.pos as int],
                old(self)@.buf[old(self)@.pos + 1],
                old(self)@.buf[old(self)@.pos + 2],
                old(self)@.buf[old(self)@.pos + 3],
            ) as u32) && final(self)@ == old(self)@.at(old(self)@.pos + 4),
            old(self)@.remaining() < 4 ==> r == Err::<u32, Error>(Error::EndOfBuffer)
                && final(self)@ == old(self)@,
    {
        proof {
            use_type_invariant(&*self);
        }
        if self.len() >= 4 {
            let p = self.pos;
            let b0 = self.buf[p] as u32;
            let b1 = self.buf[p + 1] as u32;
            let b2 = self.buf[p + 2] as u32;
            let b3 = self.buf[p + 3] as u32;
            *self = Cursor { buf: self.buf, pos: p + 4, end: self.end, window: self.window };
            Ok(((b0 * 256 + b1) * 256 + b2) * 256 + b3)
        } else {
            Err(Error::EndOfBuffer)
        }
    }

    /// Reads `len` bytes and returns them as a slice of the underlying buffer.
    pub fn slice(&mut self, len: usize) -> (r: Result<&'a [u8]>)
        ensures
            match slice_read(old(self)@, len as int) {
                (Ok(b), c) => r matches Ok(s) && s@ == b && s@.len() == len && final(self)@ == c,
                (Err(e), c) => r == Err::<&'a [u8], Error>(e) && final(self)@ == c,
            },
            old(self)@.fits(len as int) ==> (r matches Ok(s) && s@ == old(self)@.buf.subrange(
                old(self)@.pos as int,
                old(self)@.pos + len,
            )) && final(self)@ == old(self)@.at(old(self)@.pos + len),
            !old(self)@.fits(len as int) ==> r == Err::<&'a [u8], Error>(Error::EndOfBuffer)
                && final(self)@ == old(self)@,
    {
        proof {
            use_type_invariant(&*self);
        }
        if self.pos <= self.end && len <= self.end - self.pos {
            let p = self.pos;
            let s = vstd::slice::slice_subrange(self.buf, p, p + len);
            *self = Cursor { buf: self.buf, pos: p + len, end: self.end, window: self.window };
            Ok(s)
        } else {
            Err(Error::EndOfBuffer)
        }
    }

    /// Skips `len` bytes.
    pub fn skip(&mut self, len: usize) -> (r: Result<()>)
        ensures
            (r, final(self)@) == skip_read(old(self)@, len as int),
            old(self)@.fits(len as int) ==> r == Ok::<(), Error>(())
                && final(self)@ == old(self)@.at(old(self)@.pos + len),
            !old(self)@.fits(len as int) ==> r == Err::<(), Error>(Error::EndOfBuffer)
                && final(self)@ == old(self)@,
    {
        proof {
            use_type_invariant(&*self);
        }
        if self.pos <= self.end && len <= self.end - self.pos {
            *self = Cursor {
                buf: self.buf,
                pos: self.pos + len,
                end: self.end,
                window: self.window,
            };
            Ok(())
        } else {
            Err(Error::EndOfBuffer)
        }
    }

    /// Restricts reading to the next `size` bytes.
    ///
    /// The window is closed with [`Cursor::close_window`], which checks that the window was
    /// read entirely.
    pub fn window(&mut self, size: usize) -> (r: Result<()>)
        ensures
            (r, final(self)@) == window_open(old(self)@, size as int),
            old(self)@.fits(size as int) ==> r == Ok::<(), Error>(()) && final(self)@ == (CursorView {
                end: (old(self)@.pos + size) as usize,
                window: true,
                ..old(self)@
            }),
            !old(self)@.fits(size as int) ==> r == Err::<(), Error>(
                Error::EndOfBuffer,
            ) && final(self)@ == old(self)@,
    {
        proof {
            use_type_invariant(&*self);
        }
        if self.pos <= self.end && size <= self.end - self.pos {
            *self = Cursor { buf: self.buf, pos: self.pos, end: self.pos + size, window: true };
            Ok(())
        } else {
            Err(Error::EndOfBuffer)
        }
    }

    /// Closes a window opened with [`Cursor::window`].
    ///
    /// Fails with [`Error::CursorWindowError`] when the window was not read to its end.
    pub fn close_window(&mut self) -> (r: Result<()>)
        ensures
            (r, final(self)@) == window_close(old(self)@),
            old(self)@.pos == old(self)@.end ==> r == Ok::<(), Error>(()) && final(self)@ == (CursorView {
                end: old(self)@.buf.len() as usize,
                window: false,
                ..old(self)@
            }),
            old(self)@.pos != old(self)@.end ==> r == Err::<(), Error>(
                Error::CursorWindowError {
                    expected: old(self)@.end,
                    actual: old(self)@.pos,
                },
            ) && final(self)@ == old(self)@,
    {
        proof {
            use_type_invariant(&*self);
        }
        if self.pos == self.end {
            *self = Cursor { buf: self.buf, pos: self.pos, end: self.buf.len(), window: false };
            Ok(())
        } else {
            Err(Error::CursorWindowError { expected: self.end, actual: self.pos })
        }
    }
}

/// The abstract state of a [`WCursor`].
pub struct WCursorView {
    /// The contents of the underlying buffer.
    pub buf: Seq<u8>,
    /// The current write position.
    pub pos: int,
}

/// A write cursor over a mutable buffer.
///
/// A failed write leaves the cursor and the buffer unchanged.
pub struct WCursor<'a> {
    buf: &'a mut [u8],
    pos: usize,
}

impl<'a> View for WCursor<'a> {
    type V = WCursorView;

    closed spec fn view(&self) -> WCursorView {
        WCursorView { buf: self.buf@, pos: self.pos as int }
    }
}

impl WCursorView {
    /// The number of bytes that may still be written.
    pub open spec fn remaining(self) -> int {
        self.buf.len() - self.pos
    }

    /// The state after writing `bytes` at the current position.
    pub open spec fn written(self, bytes: Seq<u8>) -> WCursorView {
        WCursorView {
            buf: self.buf.subrange(0, self.pos) + bytes + self.buf.subrange(
                self.pos + bytes.len(),
                self.buf.len() as int,
            ),
            pos: self.pos + bytes.len(),
        }
    }
}

/// The big-endian encoding of a `u16`.
pub open spec fn be16_bytes(v: u16) -> Seq<u8> {
    seq![(v / 256) as u8, (v % 256) as u8]
}

/// The big-endian encoding of a `u32`.
pub open spec fn be32_bytes(v: u32) -> Seq<u8> {
    seq![
        (v / 0x100_0000) as u8,
        ((v / 0x1_0000) % 256) as u8,
        ((v / 256) % 256) as u8,
        (v % 256) as u8,
    ]
}

impl<'a> WCursor<'a> {
    #[verifier::type_invariant]
    spec fn inv(&self) -> bool {
        self.pos <= self.buf@.len() && self.buf@.len() <= isize::MAX
    }

    /// Creates a write cursor at the start of `buf`.
    pub fn new(buf: &'a mut [u8]) -> (c: WCursor<'a>)
        requires
            old(buf)@.len() <= isize::MAX,
        ensures
            c@ == (WCursorView { buf: old(buf)@, pos: 0 }),
    {
        WCursor { buf, pos: 0 }
    }

    /// Returns the current write position.
    pub fn pos(&self) -> (p: usize)
        ensures
            p == self@.pos,
            p <= self@.buf.len(),
            self@.buf.len() <= isize::MAX,
    {
        proof {
            use_type_invariant(self);
        }
        self.pos
    }

    /// Returns the number of bytes that may still be written.
    pub fn len(&self) -> (n: usize)
        ensures
            n == self@.remaining(),
    {
        proof {
            use_type_invariant(self);
        }
        self.buf.len() - self.pos
    }

    /// Returns `true` when the buffer is full.
    pub fn is_empty(&self) -> (b: bool)
        ensures
            b == (self@.remaining() == 0),
    {
        self.len() == 0
    }

    /// Moves the write position back to the start and returns the previous position.
    pub fn reset_pos(&mut self) -> (p: usize)
        ensures
            p == old(self)@.pos,
            final(self)@ == (WCursorView { buf: old(self)@.buf, pos: 0 }),
    {
        proof {
            use_type_invariant(&*self);
        }
        let p = self.pos;
        self.pos = 0;
        p
    }

    /// Writes the bytes of `bytes` at the current position.
    pub fn bytes(&mut self, bytes: &[u8]) -> (r: Result<()>)
        ensures
            bytes@.len() <= old(self)@.remaining() ==> r == Ok::<(), Error>(())
                && final(self)@ == old(self)@.written(bytes@),
            bytes@.len() > old(self)@.remaining() ==> r == Err::<(), Error>(Error::EndOfBuffer)
                && final(self)@ == old(self)@,
    {
        proof {
            use_type_invariant(&*self);
        }
        if bytes.len() > self.buf.len() - self.pos {
            return Err(Error::EndOfBuffer);
        }
        let ghost start = self@;
        assert(start.buf.len() == self.buf.len());
        let mut i: usize = 0;
        while i < bytes.len()
            invariant
                i <= bytes@.len(),
                start.pos + bytes@.len() <= start.buf.len(),
                start.buf.len() <= isize::MAX,
                self.pos == start.pos,
                self.buf@.len() == start.buf.len(),
                forall|k: int| 0 <= k < start.pos ==> self.buf@[k] == start.buf[k],
                forall|k: int| 0 <= k < i ==> self.buf@[start.pos + k] == bytes@[k],
                forall|k: int|
                    start.pos + i <= k < start.buf.len() ==> self.buf@[k] == start.buf[k],
            decreases bytes@.len() - i,
        {
            let p = self.pos + i;
            self.buf[p] = bytes[i];
            i = i + 1;
        }
        self.pos = self.pos + bytes.len();
        assert(self.buf@ =~= start.written(bytes@).buf);
        Ok(())
    }

    /// Writes one byte.
    pub fn u8(&mut self, b: u8) -> (r: Result<()>)
        ensures
            old(self)@.remaining() >= 1 ==> r == Ok::<(), Error>(())
                && final(self)@ == old(self)@.written(seq![b]),
            old(self)@.remaining() < 1 ==> r == Err::<(), Error>(Error::EndOfBuffer)
                && final(self)@ == old(self)@,
    {
        let arr = [b];
        assert(arr@ =~= seq![b]);
        self.bytes(&arr)
    }

    /// Writes a big-endian `u16`.
    pub fn u16_be(&mut self, v: u16) -> (r: Result<()>)
        ensures
            old(self)@.remaining() >= 2 ==> r == Ok::<(), Error>(())
                && final(self)@ == old(self)@.written(be16_bytes(v)),
            old(self)@.remaining() < 2 ==> r == Err::<(), Error>(Error::EndOfBuffer)
                && final(self)@ == old(self)@,
    {
        let arr = [(v / 256) as u8, (v % 256) as u8];
        assert(arr@ =~= be16_bytes(v));
        self.bytes(&arr)
    }

    /// Writes a big-endian `u32`.
    pub fn u32_be(&mut self, v: u32) -> (r: Result<()>)
        ensures
            old(self)@.remaining() >= 4 ==> r == Ok::<(), Error>(())
                && final(self)@ == old(self)@.written(be32_bytes(v)),
            old(self)@.remaining() < 4 ==> r == Err::<(), Error>(Error::EndOfBuffer)
                && final(self)@ == old(self)@,
    {
        let arr = [
            (v / 0x100_0000) as u8,
            ((v / 0x1_0000) % 256) as u8,
            ((v / 256) % 256) as u8,
            (v % 256) as u8,
        ];
        assert(arr@ =~= be32_bytes(v));
        self.bytes(&arr)
    }
}

} // verus!
