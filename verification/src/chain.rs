//! Two sources read one after the other.

use vstd::prelude::*;
use crate::initializer::Initializer;
use crate::outcome::OpRes;
use crate::read_core::ReadCore;

verus! {

/// The bytes of `first`, then those of `second`.
#[derive(Debug)]
pub struct Chain<T, U> {
    first: T,
    second: U,
    done_first: bool,
}

impl<T, U> Chain<T, U> {
    /// The two sources.
    pub closed spec fn sources(&self) -> (T, U) {
        (self.first, self.second)
    }

    /// Whether the first source has reported its end. Once true, it stays so.
    pub closed spec fn exhausted_first(&self) -> bool {
        self.done_first
    }

    /// Puts `second` behind `first`.
    pub fn new(first: T, second: U) -> (c: Self)
        ensures
            c.sources() == (first, second),
            !c.exhausted_first(),
    {
        Self { first, second, done_first: false }
    }

    /// Gives the two sources back.
    pub fn into_inner(self) -> (pair: (T, U))
        ensures
            pair == self.sources(),
    {
        (self.first, self.second)
    }

    /// The two sources.
    pub fn get_ref(&self) -> (pair: (&T, &U))
        ensures
            *pair.0 == self.sources().0,
            *pair.1 == self.sources().1,
    {
        (&self.first, &self.second)
    }

    /// The two sources, to be changed in place.
    pub fn get_mut(&mut self) -> (pair: (&mut T, &mut U))
        ensures
            *pair.0 == old(self).sources().0,
            *pair.1 == old(self).sources().1,
            final(self).sources() == (*final(pair.0), *final(pair.1)),
            final(self).exhausted_first() == old(self).exhausted_first(),
    {
        (&mut self.first, &mut self.second)
    }
}

impl<T: ReadCore, U: ReadCore<Err = T::Err>> ReadCore for Chain<T, U> {
    type Err = T::Err;

    open spec fn inv(&self) -> bool {
        self.sources().0.inv() && self.sources().1.inv()
    }

    /// What the first source has pending, unless it has reported its end,
    /// followed by what the second has.
    open spec fn pending(&self) -> Seq<u8> {
        if self.exhausted_first() {
            self.sources().1.pending()
        } else {
            self.sources().0.pending() + self.sources().1.pending()
        }
    }

    open spec fn stalls(&self) -> nat {
        if self.exhausted_first() {
            self.sources().1.stalls()
        } else {
            self.sources().0.stalls() + self.sources().1.stalls() + 1
        }
    }

    open spec fn faultless(&self) -> bool {
        (self.exhausted_first() || self.sources().0.faultless()) && self.sources().1.faultless()
    }

    /// The errors of the first source, unless it has reported its end, and
    /// those of the second.
    open spec fn raises(&self, e: Self::Err) -> bool {
        (!self.exhausted_first() && self.sources().0.raises(e)) || self.sources().1.raises(e)
    }

    open spec fn zeroes(&self) -> bool {
        self.sources().0.zeroes() || self.sources().1.zeroes()
    }

    /// Asks the first source until it reports its end, and from that same call
    /// on the second. The first source is never asked again.
    fn read(&mut self, buf: &mut [u8]) -> (res: Result<OpRes, Self::Err>)
        ensures
            old(self).exhausted_first() ==> final(self).exhausted_first() && final(self).sources().0
                == old(self).sources().0,
            !final(self).exhausted_first() ==> final(self).sources().1 == old(self).sources().1,
            final(self).exhausted_first() && !old(self).exhausted_first() ==> old(buf)@.len() == 0
                || old(self).sources().0.pending().len() == 0,
    {
        let ghost f = self.first.pending();
        let ghost s = self.second.pending();
        let ghost len = buf@.len();
        if !self.done_first {
            match self.first.read(buf) {
                Err(e) => {
                    proof {
                        assert(self.first.pending() == f ==> self.pending() == old(self).pending());
                    }
                    return Err(e);
                },
                Ok(OpRes::Eof) => {
                    self.done_first = true;
                },
                Ok(op) => {
                    proof {
                        if op.is_transfer() {
                            let n = op.moved() as int;
                            assert((f + s).take(n) == f.take(n));
                            assert((f + s).skip(n) == f.skip(n) + s);
                        } else {
                            assert(self.first.pending() == f ==> self.pending() == f + s);
                            assert(self.stalls() < old(self).stalls());
                        }
                    }
                    return Ok(op);
                },
            }
        }
        let res = self.second.read(buf);
        proof {
            if !old(self).exhausted_first() && len > 0 {
                assert(f + s == s);
            }
            assert(res matches Ok(OpRes::Retry) ==> self.stalls() < old(self).stalls());
        }
        res
    }

    /// The first source's policy where it asks for zeroing, else the second's.
    fn initializer(&self) -> (i: Initializer) {
        let initializer = self.first.initializer();
        if initializer.should_initialize() {
            initializer
        } else {
            self.second.initializer()
        }
    }
}

/// A chain whose first source has not reported its end has pending
/// everything that the first source has, followed by everything that the
/// second has.
pub proof fn chain_concatenates<T: ReadCore, U: ReadCore<Err = T::Err>>(c: Chain<T, U>)
    requires
        !c.exhausted_first(),
    ensures
        c.pending() == c.sources().0.pending() + c.sources().1.pending(),
        c.pending().len() == c.sources().0.pending().len() + c.sources().1.pending().len(),
        c.pending().take(c.sources().0.pending().len() as int) == c.sources().0.pending(),
        c.pending().skip(c.sources().0.pending().len() as int) == c.sources().1.pending(),
{
}

} // verus!
