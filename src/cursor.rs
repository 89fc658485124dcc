//! Position-tracked byte cursors with bounds-checked access.
use vstd::prelude::*;

use crate::error::{BufferTooSmall, Error};

verus! {

/// Value of two bytes read in big-endian order.
pub open spec fn be_u16(hi: u8, lo: u8) -> u16 {
    (hi as int * 256 + lo as int) as u16
}

/// Big-endian bytes of a 16 bit value.
pub open spec fn u16_be_bytes(v: u16) -> Seq<u8> {
    seq![(v / 256) as u8, (v % 256) as u8]
}

/// A read cursor over a borrowed byte slice.
pub struct Cursor<'a> {
    buffer: &'a [u8],
    pos: usize,
}

impl<'a> Cursor<'a> {
    #[verifier::type_invariant]
    spec fn inv(&self) -> bool {
        self.pos <= self.buffer@.len()
    }

    /// The whole underlying buffer.
    pub closed spec fn data(&self) -> Seq<u8> {
        self.buffer@
    }

    /// The cursor position.
    pub closed spec fn pos(&self) -> nat {
        self.pos as nat
    }

    /// The bytes not read yet.
    pub open spec fn rest(&self) -> Seq<u8> {
        self.data().skip(self.pos() as int)
    }

    /// Constructs a new cursor at the start of `buffer`.
    pub fn new(buffer: &'a [u8]) -> (r: Self)
        ensures
            r.data() == buffer@,
            r.pos() == 0,
    {
        Cursor { buffer, pos: 0 }
    }

    /// Length of the underlying buffer.
    pub fn len(&self) -> (r: usize)
        ensures
            r == self.data().len(),
    {
        self.buffer.len()
    }

    /// Number of bytes left to read.
    pub fn remaining(&self) -> (r: usize)
        ensures
            r == self.rest().len(),
    {
        proof {
            use_type_invariant(self);
        }
        self.buffer.len() - self.pos
    }

    /// Position of the cursor in the underlying buffer.
    pub fn position(&self) -> (r: usize)
        ensures
            r == self.pos(),
    {
        self.pos
    }

    /// Fails unless at least `expected` bytes are left to read.
    pub fn check_remaining(&self, expected: usize) -> (r: Result<(), Error>)
        requires
            self.pos() + expected <= usize::MAX,
        ensures
            self.rest().len() >= expected ==> r is Ok,
            self.rest().len() < expected ==> r == Err::<(), Error>(
                Error::BufferTooSmall(
                    BufferTooSmall {
                        size: (self.pos() + self.rest().len()) as usize,
                        expected: (self.pos() + expected) as usize,
                    },
                ),
            ),
    {
        proof {
            use_type_invariant(self);
        }
        if self.buffer.len() - self.pos < expected {
            Err(
                Error::BufferTooSmall(
                    BufferTooSmall { size: self.buffer.len(), expected: self.pos + expected },
                ),
            )
        } else {
            Ok(())
        }
    }

    /// Reads one byte without moving the cursor.
    pub fn peek_u8(&self, offset: usize) -> (r: u8)
        requires
            offset < self.rest().len(),
        ensures
            r == self.rest()[offset as int],
    {
        proof {
            use_type_invariant(self);
        }
        let _n = self.buffer.len();
        self.buffer[self.pos + offset]
    }

    /// Reads one byte.
    pub fn read_u8(&mut self) -> (r: u8)
        requires
            old(self).rest().len() >= 1,
        ensures
            r == old(self).rest()[0],
            final(self).data() == old(self).data(),
            final(self).pos() == old(self).pos() + 1,
            final(self).rest() == old(self).rest().skip(1),
    {
        proof {
            use_type_invariant(&*self);
        }
        let _n = self.buffer.len();
        let v = self.buffer[self.pos];
        self.pos = self.pos + 1;
        assert(self.rest() =~= old(self).rest().skip(1));
        v
    }

    /// Reads a big-endian 16 bit value.
    pub fn read_u16_be(&mut self) -> (r: u16)
        requires
            old(self).rest().len() >= 2,
        ensures
            r == be_u16(old(self).rest()[0], old(self).rest()[1]),
            final(self).data() == old(self).data(),
            final(self).pos() == old(self).pos() + 2,
            final(self).rest() == old(self).rest().skip(2),
    {
        proof {
            use_type_invariant(&*self);
        }
        let _n = self.buffer.len();
        let hi = self.buffer[self.pos];
        let lo = self.buffer[self.pos + 1];
        self.pos = self.pos + 2;
        assert(self.rest() =~= old(self).rest().skip(2));
        hi as u16 * 256 + lo as u16
    }

    /// Reads `count` bytes.
    pub fn read_bytes(&mut self, count: usize) -> (r: Vec<u8>)
        requires
            old(self).rest().len() >= count,
        ensures
            r@ == old(self).rest().take(count as int),
            final(self).data() == old(self).data(),
            final(self).pos() == old(self).pos() + count,
            final(self).rest() == old(self).rest().skip(count as int),
    {
        proof {
            use_type_invariant(&*self);
        }
        let mut out: Vec<u8> = Vec::with_capacity(count);
        let start = self.pos;
        let n = self.buffer.len();
        let mut i: usize = 0;
        while i < count
            invariant
                start == self.pos,
                start + count <= self.buffer@.len(),
                n == self.buffer@.len(),
                i <= count,
                out@ == self.buffer@.subrange(start as int, start + i),
            decreases count - i,
        {
            out.push(self.buffer[start + i]);
            i = i + 1;
        }
        self.pos = start + count;
        assert(out@ =~= old(self).rest().take(count as int));
        assert(self.rest() =~= old(self).rest().skip(count as int));
        out
    }
}

/// A write cursor that owns its fixed-length output buffer.
pub struct WriteCursor {
    buffer: Vec<u8>,
    pos: usize,
}

impl WriteCursor {
    /// The whole underlying buffer.
    pub closed spec fn data(&self) -> Seq<u8> {
        self.buffer@
    }

    /// The cursor position.
    pub closed spec fn pos(&self) -> nat {
        self.pos as nat
    }

    /// The cursor position lies within the buffer.
    pub open spec fn wf(&self) -> bool {
        self.pos() <= self.data().len()
    }

    /// Number of bytes that can still be written.
    pub open spec fn room(&self) -> nat {
        (self.data().len() - self.pos()) as nat
    }

    /// The buffer after `bytes` were written at the cursor position.
    pub open spec fn written(&self, bytes: Seq<u8>) -> Seq<u8> {
        self.data().take(self.pos() as int) + bytes + self.data().skip(self.pos() + bytes.len() as int)
    }

    /// Constructs a write cursor at the start of `buffer`.
    pub fn new(buffer: Vec<u8>) -> (r: Self)
        ensures
            r.wf(),
            r.data() == buffer@,
            r.pos() == 0,
    {
        WriteCursor { buffer, pos: 0 }
    }

    /// Length of the underlying buffer.
    pub fn len(&self) -> (r: usize)
        ensures
            r == self.data().len(),
    {
        self.buffer.len()
    }

    /// Number of bytes that can still be written.
    pub fn remaining(&self) -> (r: usize)
        requires
            self.wf(),
        ensures
            r == self.room(),
    {
        self.buffer.len() - self.pos
    }

    /// Position of the cursor in the underlying buffer.
    pub fn position(&self) -> (r: usize)
        ensures
            r == self.pos(),
    {
        self.pos
    }

    /// The underlying buffer.
    pub fn as_slice(&self) -> (r: &[u8])
        ensures
            r@ == self.data(),
    {
        self.buffer.as_slice()
    }

    /// Gives back the underlying buffer.
    pub fn into_inner(self) -> (r: Vec<u8>)
        ensures
            r@ == self.data(),
    {
        self.buffer
    }

    /// Fails unless at least `expected` bytes can still be written.
    pub fn check_remaining(&self, expected: usize) -> (r: Result<(), Error>)
        requires
            self.wf(),
            self.pos() + expected <= usize::MAX,
        ensures
            self.room() >= expected ==> r is Ok,
            self.room() < expected ==> r == Err::<(), Error>(
                Error::BufferTooSmall(
                    BufferTooSmall {
                        size: self.data().len() as usize,
                        expected: (self.pos() + expected) as usize,
                    },
                ),
            ),
    {
        if self.buffer.len() - self.pos < expected {
            Err(
                Error::BufferTooSmall(
                    BufferTooSmall { size: self.buffer.len(), expected: self.pos + expected },
                ),
            )
        } else {
            Ok(())
        }
    }

    /// Writes one byte.
    pub fn write_u8(&mut self, v: u8)
        requires
            old(self).wf(),
            old(self).room() >= 1,
        ensures
            final(self).wf(),
            final(self).data() == old(self).written(seq![v]),
            final(self).pos() == old(self).pos() + 1,
    {
        let _n = self.buffer.len();
        let p = self.pos;
        self.buffer.set(p, v);
        self.pos = p + 1;
        assert(self.buffer@ =~= old(self).written(seq![v]));
    }

    /// Writes a 16 bit value in big-endian order.
    pub fn write_u16_be(&mut self, v: u16)
        requires
            old(self).wf(),
            old(self).room() >= 2,
        ensures
            final(self).wf(),
            final(self).data() == old(self).written(u16_be_bytes(v)),
            final(self).pos() == old(self).pos() + 2,
    {
        let _n = self.buffer.len();
        let p = self.pos;
        self.buffer.set(p, (v / 256) as u8);
        self.buffer.set(p + 1, (v % 256) as u8);
        self.pos = p + 2;
        assert(self.buffer@ =~= old(self).written(u16_be_bytes(v)));
    }

    /// Writes the given bytes.
    pub fn write_bytes(&mut self, src: &[u8])
        requires
            old(self).wf(),
            old(self).room() >= src@.len(),
        ensures
            final(self).wf(),
            final(self).data() == old(self).written(src@),
            final(self).pos() == old(self).pos() + src@.len(),
    {
        let start = self.pos;
        let n = self.buffer.len();
        let mut i: usize = 0;
        while i < src.len()
            invariant
                n == self.buffer@.len(),
                start == old(self).pos(),
                start + src@.len() <= self.buffer@.len(),
                self.buffer@.len() == old(self).data().len(),
                self.pos == start,
                i <= src@.len(),
                forall|k: int| 0 <= k < start ==> self.buffer@[k] == old(self).data()[k],
                forall|k: int| 0 <= k < i ==> self.buffer@[start + k] == src@[k],
                forall|k: int|
                    start + i <= k < self.buffer@.len() ==> self.buffer@[k] == old(
                        self,
                    ).data()[k],
            decreases src@.len() - i,
        {
            self.buffer.set(start + i, src[i]);
            i = i + 1;
        }
        self.pos = start + src.len();
        assert(self.buffer@ =~= old(self).written(src@));
    }
}

} // verus!
