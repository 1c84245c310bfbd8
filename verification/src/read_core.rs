//! The read capability: one required attempt, and the operations derived from
//! it.

use vstd::prelude::*;
use vstd::std_specs::convert::FromSpec;
use crate::bytes::Bytes;
use crate::chain::Chain;
use crate::initializer::Initializer;
use crate::outcome::{
    fills, made_from, source_step, transfers, InvalidUtf8, OpRes, UnexpectedEndOfFile,
};
use crate::take::Take;

verus! {

/// The error that a derived read operation raises when the source ends while
/// bytes are still owed.
pub open spec fn end_of_file<E: From<UnexpectedEndOfFile>>() -> E {
    E::from_spec(UnexpectedEndOfFile)
}

/// The error that text accumulation raises for bytes that are no well-formed
/// text.
pub open spec fn invalid_text<E: From<InvalidUtf8>>() -> E {
    E::from_spec(InvalidUtf8)
}

/// A source of bytes.
///
/// A source is described by the bytes that it has yet to deliver
/// (`pending`), by a bound on the retries it may still ask for before it
/// moves on (`stalls`), by whether it can fail (`faultless`), by the errors
/// it may fail with (`raises`) and by its initialization policy (`zeroes`).
/// `read` is the one required operation; everything else is derived from it.
pub trait ReadCore {
    type Err: From<UnexpectedEndOfFile> + From<InvalidUtf8>;

    /// The source is well formed.
    spec fn inv(&self) -> bool;

    /// The bytes that the source has yet to deliver, in order.
    spec fn pending(&self) -> Seq<u8>;

    /// A bound on how many more times in a row the source asks for a retry.
    spec fn stalls(&self) -> nat;

    /// No attempt on this source ends in an error.
    spec fn faultless(&self) -> bool;

    /// `e` is an error that an attempt on this source may end in. A source
    /// never comes to raise an error that it did not raise before.
    spec fn raises(&self, e: Self::Err) -> bool;

    /// The source's initialization policy: whether a destination must be
    /// zeroed before it is handed to `read`.
    spec fn zeroes(&self) -> bool;

    /// Attempts to transfer at most `buf.len()` bytes to the front of `buf`.
    ///
    /// A transfer moves a prefix of the pending bytes. `Eof` on a request for
    /// at least one byte means that nothing is pending. `Retry` and an error
    /// move nothing, and `Retry` uses up one of the stalls.
    fn read(&mut self, buf: &mut [u8]) -> (res: Result<OpRes, Self::Err>)
        requires
            old(self).inv(),
        ensures
            final(self).inv(),
            final(buf)@.len() == old(buf)@.len(),
            old(self).faultless() ==> final(self).faultless() && res is Ok,
            source_step(
                old(self).pending(),
                final(self).pending(),
                old(buf)@.len(),
                final(buf)@,
                res,
            ),
            res matches Ok(OpRes::Retry) ==> final(self).stalls() < old(self).stalls(),
            res matches Err(e) ==> old(self).raises(e),
            forall|e: Self::Err| #[trigger] final(self).raises(e) ==> old(self).raises(e),
    ;

    /// The source's initialization policy.
    fn initializer(&self) -> (i: Initializer)
        ensures
            i.zeroes() == self.zeroes(),
    ;

    /// Fills `buf` completely, reissuing the attempt on the unfilled rest
    /// until nothing of it is left.
    ///
    /// On success the buffer holds the first `buf.len()` pending bytes and the
    /// source goes on behind them. On failure a shorter prefix was moved; what
    /// stands behind it in the buffer is left open. The failure is an error of
    /// the source, passed on as it came, or the error that is made when the
    /// source has nothing left. An empty buffer is filled without asking the
    /// source. A faultless source fails exactly when it has fewer bytes than
    /// the buffer asks for, after giving up everything it had.
    ///
    /// As provided here, the failure of a faultless source is the end-of-file
    /// error.
    fn read_exact(&mut self, buf: &mut [u8]) -> (res: Result<(), Self::Err>)
        requires
            old(self).inv(),
        ensures
            final(self).inv(),
            final(buf)@.len() == old(buf)@.len(),
            old(self).faultless() ==> final(self).faultless(),
            fills(
                old(self).pending(),
                final(self).pending(),
                final(buf)@,
                old(buf)@.len(),
                res is Ok,
            ),
            old(buf)@.len() == 0 ==> res is Ok,
            old(self).faultless() ==> (res is Ok <==> old(buf)@.len() <= old(self).pending().len()),
            old(self).faultless() && res is Err ==> final(self).pending().len() == 0,
            res matches Err(e) ==> old(self).raises(e) || (made_from(UnexpectedEndOfFile, e)
                && final(self).pending().len() == 0),
            forall|e: Self::Err| #[trigger] final(self).raises(e) ==> old(self).raises(e),
        default_ensures
            old(self).faultless() && <Self::Err as FromSpec<UnexpectedEndOfFile>>::obeys_from_spec()
                ==> (res matches Err(e) ==> e == end_of_file::<Self::Err>()),
    {
        let len: usize = buf.len();
        let mut filled: usize = 0;
        let ghost stream = self.pending();
        let ghost sound = self.faultless();
        proof {
            assert(stream.skip(0) == stream);
            assert(buf@.take(0) == stream.take(0));
        }
        while filled < len
            invariant
                self.inv(),
                filled <= len,
                buf@.len() == len,
                len == old(buf)@.len(),
                stream == old(self).pending(),
                sound == old(self).faultless(),
                sound ==> self.faultless(),
                forall|e: Self::Err| #[trigger] self.raises(e) ==> old(self).raises(e),
                transfers(stream, self.pending(), buf@, filled as nat),
            decreases self.pending().len(), self.stalls(),
        {
            let ghost before = self.pending();
            let ghost done = buf@.take(filled as int);
            let (head, rest) = buf.split_at_mut(filled);
            let attempt = self.read(rest);
            proof {
                assert(buf@ == head@ + rest@);
                assert(head@ == done);
            }
            match attempt {
                Err(e) => {
                    proof {
                        assert(buf@.take(filled as int) == done);
                    }
                    return Err(e);
                },
                Ok(OpRes::Eof) => {
                    proof {
                        assert(buf@.take(filled as int) == done);
                    }
                    return Err(Self::Err::from(UnexpectedEndOfFile));
                },
                Ok(OpRes::Retry) => {
                    proof {
                        assert(buf@.take(filled as int) == done);
                    }
                },
                Ok(OpRes::Partial(n)) | Ok(OpRes::Completly(n)) => {
                    proof {
                        assert(buf@.take(filled + n) == done + rest@.take(n as int));
                        assert(stream.take(filled + n) == stream.take(filled as int) + before.take(
                            n as int,
                        ));
                        assert(self.pending() == stream.skip(filled + n));
                    }
                    filled += n;
                },
            }
        }
        Ok(())
    }

    /// Borrows the source.
    #[must_use]
    fn by_ref(&mut self) -> (r: &mut Self) where Self: Sized
        ensures
            *r == *old(self),
            *final(self) == *final(r),
    {
        self
    }

    /// Turns the source into a byte-at-a-time sequence.
    fn bytes(self) -> (b: Bytes<Self>) where Self: Sized
        ensures
            b.source() == self,
            !b.finished(),
    {
        Bytes::new(self)
    }

    /// Caps the source at `limit` bytes.
    fn take(self, limit: u64) -> (t: Take<Self>) where Self: Sized
        ensures
            t.source() == self,
            t.quota() == limit,
    {
        Take::new(self, limit)
    }
}

/// Reads `first` to its end and then goes on with `next`: the chain has
/// pending what `first` has, followed by what `next` has.
pub fn chain<T: ReadCore, U: ReadCore<Err = T::Err>>(first: T, next: U) -> (c: Chain<T, U>)
    ensures
        c.sources() == (first, next),
        !c.exhausted_first(),
        c.inv() == (first.inv() && next.inv()),
        c.pending() == first.pending() + next.pending(),
        c.faultless() == (first.faultless() && next.faultless()),
        forall|e: T::Err| #[trigger] c.raises(e) == (first.raises(e) || next.raises(e)),
{
    Chain::new(first, next)
}

} // verus!
