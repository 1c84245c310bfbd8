//! A source that presents only the first bytes of another.

use vstd::prelude::*;
use crate::initializer::Initializer;
use crate::outcome::{min_nat, OpRes};
use crate::read_core::ReadCore;

verus! {

/// The first `limit` bytes of a source. The limit is a quota: it goes down by
/// every byte that passes, and at zero the source is no longer asked.
pub struct Take<T> {
    inner: T,
    limit: u64,
}

impl<T> Take<T> {
    /// The wrapped source.
    pub closed spec fn source(&self) -> T {
        self.inner
    }

    /// The bytes that may still pass.
    pub closed spec fn quota(&self) -> u64 {
        self.limit
    }

    /// Caps `inner` at `limit` bytes.
    pub fn new(inner: T, limit: u64) -> (t: Self)
        ensures
            t.source() == inner,
            t.quota() == limit,
    {
        Self { inner, limit }
    }

    /// The bytes that may still pass.
    #[verifier::when_used_as_spec(quota)]
    pub fn limit(&self) -> (l: u64)
        ensures
            l == self.quota(),
    {
        self.limit
    }

    /// Sets the quota anew, whatever has passed so far.
    pub fn set_limit(&mut self, limit: u64)
        ensures
            final(self).quota() == limit,
            final(self).source() == old(self).source(),
    {
        self.limit = limit;
    }

    /// Gives the wrapped source back.
    pub fn into_inner(self) -> (inner: T)
        ensures
            inner == self.source(),
    {
        self.inner
    }

    /// The wrapped source.
    pub fn get_ref(&self) -> (inner: &T)
        ensures
            *inner == self.source(),
    {
        &self.inner
    }

    /// The wrapped source, to be changed in place. The quota stays.
    pub fn get_mut(&mut self) -> (inner: &mut T)
        ensures
            *inner == old(self).source(),
            final(self).source() == *final(inner),
            final(self).quota() == old(self).quota(),
    {
        &mut self.inner
    }
}

impl<T: ReadCore> ReadCore for Take<T> {
    type Err = T::Err;

    open spec fn inv(&self) -> bool {
        self.source().inv()
    }

    /// What the wrapped source has pending, as far as the quota reaches.
    open spec fn pending(&self) -> Seq<u8> {
        self.source().pending().take(
            min_nat(self.quota() as nat, self.source().pending().len()) as int,
        )
    }

    open spec fn stalls(&self) -> nat {
        self.source().stalls()
    }

    open spec fn faultless(&self) -> bool {
        self.source().faultless()
    }

    open spec fn raises(&self, e: Self::Err) -> bool {
        self.source().raises(e)
    }

    open spec fn zeroes(&self) -> bool {
        self.source().zeroes()
    }

    /// With no quota left the answer is `Eof` and the wrapped source is not
    /// asked. Otherwise the wrapped source is asked for the front of `buf`, as
    /// far as the quota reaches, and its outcome is passed on; the quota goes
    /// down by exactly the bytes that were moved.
    fn read(&mut self, buf: &mut [u8]) -> (res: Result<OpRes, Self::Err>)
        ensures
            old(self).quota() == 0 ==> res == Ok::<OpRes, Self::Err>(OpRes::Eof) && *final(self)
                == *old(self) && final(buf)@ == old(buf)@,
            res matches Ok(op) ==> op.moved() <= old(self).quota(),
            res matches Ok(op) ==> final(self).quota() == old(self).quota() - op.moved(),
            res is Err ==> final(self).quota() == old(self).quota(),
    {
        if self.limit == 0 {
            return Ok(OpRes::Eof);
        }
        let len: usize = buf.len();
        let max: usize = if len as u64 <= self.limit {
            len
        } else {
            self.limit as usize
        };
        let ghost before = self.inner.pending();
        let (front, back) = buf.split_at_mut(max);
        let res = self.inner.read(front);
        proof {
            assert(buf@ == front@ + back@);
        }
        match res {
            Ok(OpRes::Partial(n)) => {
                self.limit -= n as u64;
                proof {
                    assert(buf@.take(n as int) == front@.take(n as int));
                    assert(old(self).pending().take(n as int) == before.take(n as int));
                    assert(self.pending() == old(self).pending().skip(n as int));
                }
                Ok(OpRes::Partial(n))
            },
            Ok(OpRes::Completly(n)) => {
                self.limit -= n as u64;
                proof {
                    assert(buf@.take(n as int) == front@.take(n as int));
                    assert(old(self).pending().take(n as int) == before.take(n as int));
                    assert(self.pending() == old(self).pending().skip(n as int));
                }
                Ok(OpRes::Completly(n))
            },
            other => {
                proof {
                    assert(other matches Ok(OpRes::Retry) ==> self.stalls() < old(self).stalls());
                }
                other
            },
        }
    }

    fn initializer(&self) -> (i: Initializer) {
        self.inner.initializer()
    }
}

/// A capped source never has more pending than its quota, has exactly its
/// quota pending where the wrapped source has at least as much, and has
/// pending a prefix of what the wrapped source has. With no quota left it has
/// nothing pending, whatever the wrapped source holds.
pub proof fn take_caps_pending<T: ReadCore>(t: Take<T>)
    ensures
        t.pending().len() <= t.quota(),
        t.pending().len() <= t.source().pending().len(),
        t.source().pending().len() >= t.quota() ==> t.pending().len() == t.quota(),
        t.pending() == t.source().pending().take(t.pending().len() as int),
        t.quota() == 0 ==> t.pending().len() == 0,
{
}

} // verus!
