//! A cursor over borrowed bytes, for decoders that take only what they need.
use vstd::prelude::*;
use crate::error::Error;

verus! {

/// Reads a byte slice from the front without copying what is left.
pub struct ConsumableBytes<'a> {
    bytes: &'a [u8],
    position: usize,
}

impl<'a> View for ConsumableBytes<'a> {
    type V = Seq<u8>;

    /// The bytes not yet consumed.
    closed spec fn view(&self) -> Seq<u8> {
        self.bytes@.subrange(self.position as int, self.bytes@.len() as int)
    }
}

impl<'a> ConsumableBytes<'a> {
    #[verifier::type_invariant]
    spec fn inv(&self) -> bool {
        self.position <= self.bytes@.len()
    }

    pub fn new(bytes: &'a [u8]) -> (r: Self)
        ensures
            r@ == bytes@,
    {
        let r = ConsumableBytes { bytes, position: 0 };
        proof {
            assert(r@ =~= bytes@);
        }
        r
    }

    pub fn is_empty(&self) -> (r: bool)
        ensures
            r == (self@.len() == 0),
    {
        proof {
            use_type_invariant(self);
        }
        self.position == self.bytes.len()
    }

    /// Takes the first byte; fails, consuming nothing, when none is left.
    pub fn consume_first(&mut self) -> (r: Result<u8, Error>)
        ensures
            old(self)@.len() == 0 ==> r == Err::<u8, Error>(Error::InvalidBytes) && final(self)@
                == old(self)@,
            old(self)@.len() > 0 ==> r == Ok::<u8, Error>(old(self)@[0]) && final(self)@
                == old(self)@.drop_first(),
    {
        proof {
            use_type_invariant(&*self);
        }
        if self.position == self.bytes.len() {
            return Err(Error::InvalidBytes);
        }
        let b = self.bytes[self.position];
        self.position = self.position + 1;
        proof {
            assert(final(self)@ =~= old(self)@.drop_first());
        }
        Ok(b)
    }

    /// Takes the first `count` bytes; fails, consuming nothing, when fewer
    /// are left.
    pub fn consume_first_n(&mut self, count: usize) -> (r: Result<Vec<u8>, Error>)
        ensures
            old(self)@.len() < count ==> r == Err::<Vec<u8>, Error>(Error::InvalidBytes)
                && final(self)@ == old(self)@,
            old(self)@.len() >= count ==> r is Ok && r->Ok_0@ == old(self)@.subrange(
                0,
                count as int,
            ) && final(self)@ == old(self)@.skip(count as int),
    {
        proof {
            use_type_invariant(&*self);
        }
        if self.bytes.len() - self.position < count {
            return Err(Error::InvalidBytes);
        }
        let mut out: Vec<u8> = Vec::new();
        let start = self.position;
        let bytes = self.bytes;
        let n = bytes.len();
        let mut i: usize = 0;
        while i < count
            invariant
                n == bytes@.len(),
                start + count <= bytes@.len(),
                i <= count,
                out@ == bytes@.subrange(start as int, start + i),
            decreases count - i,
        {
            out.push(bytes[start + i]);
            i = i + 1;
            proof {
                assert(out@ =~= bytes@.subrange(start as int, start + i));
            }
        }
        self.position = start + count;
        proof {
            assert(out@ =~= old(self)@.subrange(0, count as int));
            assert(final(self)@ =~= old(self)@.skip(count as int));
        }
        Ok(out)
    }
}

} // verus!
