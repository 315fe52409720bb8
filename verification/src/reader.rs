//! A stream of bytes that have been received and not been read yet.

use crate::error::{end_of_stream, SharedError};
#[allow(unused_imports)]
use crate::error::ErrorView;
use vstd::prelude::*;

verus! {

/// The bytes received from a stream, and how many of them have been read.
///
/// The view is what is left to read.
#[derive(Debug)]
pub struct ByteReader {
    bytes: Vec<u8>,
    pos: usize,
}

impl View for ByteReader {
    type V = Seq<u8>;

    closed spec fn view(&self) -> Seq<u8> {
        self.bytes@.skip(self.pos as int)
    }
}

/// The number whose bytes, most significant first, are `s`.
pub open spec fn big_endian(s: Seq<u8>) -> nat
    decreases s.len(),
{
    if s.len() == 0 {
        0
    } else {
        big_endian(s.drop_last()) * 256 + s.last() as nat
    }
}

/// What a failed read of `n` bytes leaves in the room made for them: the bytes
/// that were there, and zeros.
pub open spec fn short_read(s: Seq<u8>, n: nat) -> Seq<u8> {
    s + Seq::new((n - s.len()) as nat, |i: int| 0u8)
}

impl ByteReader {
    #[verifier::type_invariant]
    spec fn in_bounds(self) -> bool {
        self.pos <= self.bytes.len()
    }

    /// A reader of `bytes`, of which nothing has been read.
    pub fn new(bytes: Vec<u8>) -> (r: ByteReader)
        ensures
            r@ == bytes@,
    {
        let r = ByteReader { bytes, pos: 0 };
        assert(r@ =~= bytes@);
        r
    }

    /// The number of bytes that are left to read.
    pub fn remaining(&self) -> (r: usize)
        ensures
            r == self@.len(),
    {
        proof {
            use_type_invariant(self);
        }
        self.bytes.len() - self.pos
    }

    /// Reads one byte.
    pub fn read_u8(&mut self) -> (r: Result<u8, SharedError>)
        ensures
            match r {
                Ok(b) => old(self)@.len() > 0 && b == old(self)@[0] && final(self)@
                    == old(self)@.drop_first(),
                Err(e) => old(self)@.len() == 0 && e@ == ErrorView::Read && final(self)@
                    == old(self)@,
            },
    {
        proof {
            use_type_invariant(&*self);
        }
        if self.pos == self.bytes.len() {
            return Err(end_of_stream());
        }
        let b = self.bytes[self.pos];
        self.pos = self.pos + 1;
        assert(self@ =~= old(self)@.drop_first());
        Ok(b)
    }

    /// Reads `n` bytes and appends them to `out`.
    ///
    /// Where fewer are left, all of them are read, and `out` grows by `n` bytes
    /// all the same: those that were read, and zeros.
    pub fn read_exact(&mut self, n: usize, out: &mut Vec<u8>) -> (r: Result<(), SharedError>)
        ensures
            match r {
                Ok(()) => n <= old(self)@.len() && final(out)@ == old(out)@ + old(self)@.take(
                    n as int,
                ) && final(self)@ == old(self)@.skip(n as int),
                Err(e) => n > old(self)@.len() && e@ == ErrorView::Read && final(out)@ == old(out)@
                    + short_read(old(self)@, n as nat) && final(self)@ == Seq::<u8>::empty(),
            },
    {
        proof {
            use_type_invariant(&*self);
        }
        let left: usize = self.bytes.len() - self.pos;
        let got: usize = if n <= left {
            n
        } else {
            left
        };
        let start: usize = self.pos;
        let mut i: usize = 0;
        while i < got
            invariant
                i <= got,
                start + got <= self.bytes.len(),
                self.pos == start,
                self.bytes@ == old(self).bytes@,
                out@ == old(out)@ + old(self).bytes@.subrange(start as int, start + i),
            decreases got - i,
        {
            out.push(self.bytes[start + i]);
            i = i + 1;
            assert(out@ =~= old(out)@ + old(self).bytes@.subrange(start as int, start + i));
        }
        self.pos = start + got;
        if n <= left {
            assert(out@ =~= old(out)@ + old(self)@.take(n as int));
            assert(self@ =~= old(self)@.skip(n as int));
            Ok(())
        } else {
            let want: usize = n - left;
            let mut j: usize = 0;
            while j < want
                invariant
                    j <= want,
                    out@ == old(out)@ + old(self)@ + Seq::new(j as nat, |k: int| 0u8),
                decreases want - j,
            {
                out.push(0);
                j = j + 1;
                assert(out@ =~= old(out)@ + old(self)@ + Seq::new(j as nat, |k: int| 0u8));
            }
            assert(out@ =~= old(out)@ + short_read(old(self)@, n as nat));
            assert(self@ =~= Seq::<u8>::empty());
            Err(end_of_stream())
        }
    }

    /// Reads two bytes, the more significant first.
    ///
    /// Where fewer are left, all of them are read.
    pub fn read_u16(&mut self) -> (r: Result<u16, SharedError>)
        ensures
            match r {
                Ok(v) => old(self)@.len() >= 2 && v == big_endian(old(self)@.take(2))
                    && final(self)@ == old(self)@.skip(2),
                Err(e) => old(self)@.len() < 2 && e@ == ErrorView::Read && final(self)@
                    == Seq::<u8>::empty(),
            },
    {
        let hi = match self.read_u8() {
            Ok(b) => b,
            Err(e) => {
                assert(self@ =~= Seq::<u8>::empty());
                return Err(e);
            },
        };
        let lo = match self.read_u8() {
            Ok(b) => b,
            Err(e) => {
                assert(self@ =~= Seq::<u8>::empty());
                return Err(e);
            },
        };
        proof {
            reveal_with_fuel(big_endian, 3);
            assert(old(self)@.take(2) =~= seq![hi, lo]);
            assert(seq![hi, lo].drop_last() =~= seq![hi]);
            assert(self@ =~= old(self)@.skip(2));
        }
        Ok(hi as u16 * 256 + lo as u16)
    }

    /// Reads four bytes, the most significant first.
    ///
    /// Where fewer are left, all of them are read.
    pub fn read_u32(&mut self) -> (r: Result<u32, SharedError>)
        ensures
            match r {
                Ok(v) => old(self)@.len() >= 4 && v == big_endian(old(self)@.take(4))
                    && final(self)@ == old(self)@.skip(4),
                Err(e) => old(self)@.len() < 4 && e@ == ErrorView::Read && final(self)@
                    == Seq::<u8>::empty(),
            },
    {
        let hi = match self.read_u16() {
            Ok(v) => v,
            Err(e) => return Err(e),
        };
        let lo = match self.read_u16() {
            Ok(v) => v,
            Err(e) => return Err(e),
        };
        proof {
            let s = old(self)@.take(4);
            reveal_with_fuel(big_endian, 5);
            assert(s.drop_last().drop_last() =~= old(self)@.take(2));
            assert(old(self)@.skip(2).take(2).drop_last().drop_last() =~= Seq::<u8>::empty());
            assert(old(self)@.take(2).drop_last().drop_last() =~= Seq::<u8>::empty());
            assert(self@ =~= old(self)@.skip(4));
        }
        Ok(hi as u32 * 65536 + lo as u32)
    }

    /// Reads all that is left, and appends it to `out`.
    pub fn read_rest(&mut self, out: &mut Vec<u8>)
        ensures
            final(out)@ == old(out)@ + old(self)@,
            final(self)@ == Seq::<u8>::empty(),
    {
        proof {
            use_type_invariant(&*self);
        }
        let end: usize = self.bytes.len();
        let start: usize = self.pos;
        let mut i: usize = start;
        while i < end
            invariant
                start <= i <= end,
                self.pos == start,
                end == self.bytes@.len(),
                self.bytes@ == old(self).bytes@,
                out@ == old(out)@ + old(self).bytes@.subrange(start as int, i as int),
            decreases end - i,
        {
            out.push(self.bytes[i]);
            i = i + 1;
            assert(out@ =~= old(out)@ + old(self).bytes@.subrange(start as int, i as int));
        }
        self.pos = end;
        assert(out@ =~= old(out)@ + old(self)@);
        assert(self@ =~= Seq::<u8>::empty());
    }
}

} // verus!
