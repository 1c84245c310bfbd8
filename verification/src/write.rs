//! The count-shaped write contract: an attempt reports how many bytes it
//! took, zero where it can take none, and asks for a retry through an error
//! of the interrupted kind.

use vstd::prelude::*;
use std::io::ErrorKind;
use crate::error::{Error, Result};
use crate::pieces::{run, run_ends_whole, run_grows, run_starts_empty};
use crate::vectored::{first_nonempty, joined, pieces, target};
use crate::write_core::{accepts, takes};

verus! {

/// The error of `write_all` on a sink that takes no more.
pub open spec fn write_zero() -> Error {
    Error::custom(ErrorKind::WriteZero, "failed to write whole buffer")
}

/// The number of bytes that a count-shaped attempt moved: an error moves
/// nothing.
pub open spec fn count_of(res: Result<usize>) -> nat {
    match res {
        Ok(n) => n as nat,
        Err(_) => 0,
    }
}

/// A sink for bytes under the count-shaped contract. It is described as a
/// sink of the outcome protocol is: by what it has taken and made durable, by
/// its room, by its stalls and by whether it can fail and with which errors.
pub trait Write {
    /// The sink is well formed.
    spec fn inv(&self) -> bool;

    /// The bytes that the sink has taken, in order.
    spec fn written(&self) -> Seq<u8>;

    /// The number of bytes that the sink will still take.
    spec fn room(&self) -> nat;

    /// The number of bytes, of those taken, that the sink has made durable,
    /// in whatever sense the sink defines. Bytes that are durable stay so.
    spec fn settled(&self) -> nat;

    /// A bound on how many more times in a row the sink is interrupted.
    spec fn stalls(&self) -> nat;

    /// No operation on this sink ends in an error, but for interruptions.
    spec fn faultless(&self) -> bool;

    /// `e` is an error, other than an interruption, that an operation on this
    /// sink may end in. A sink never comes to raise an error that it did not
    /// raise before.
    spec fn raises(&self, e: Error) -> bool;

    /// Attempts to take at most `buf.len()` bytes from the front of `buf` and
    /// returns how many were taken. Zero on a request of at least one byte
    /// means that the sink has no room left.
    fn write(&mut self, buf: &[u8]) -> (res: Result<usize>)
        requires
            old(self).inv(),
        ensures
            final(self).inv(),
            old(self).faultless() ==> final(self).faultless() && (res matches Err(e)
                ==> e.is_interrupted()),
            accepts(
                old(self).written(),
                final(self).written(),
                old(self).room(),
                final(self).room(),
                buf@,
                count_of(res),
            ),
            res matches Ok(n) && n == 0 && buf@.len() > 0 ==> old(self).room() == 0,
            res matches Err(e) && e.is_interrupted() ==> final(self).stalls() < old(self).stalls(),
            res matches Err(e) ==> e.is_interrupted() || old(self).raises(e),
            forall|e: Error| #[trigger] final(self).raises(e) ==> old(self).raises(e),
            final(self).settled() >= old(self).settled(),
    ;

    /// One write attempt over a list of buffers: the sink is offered the
    /// first buffer that is not empty, or no bytes where all are empty.
    fn write_vectored(&mut self, bufs: &Vec<Vec<u8>>) -> (res: Result<usize>)
        requires
            old(self).inv(),
        ensures
            final(self).inv(),
            old(self).faultless() ==> final(self).faultless() && (res matches Err(e)
                ==> e.is_interrupted()),
            accepts(
                old(self).written(),
                final(self).written(),
                old(self).room(),
                final(self).room(),
                target(bufs@),
                count_of(res),
            ),
            res matches Ok(n) && n == 0 && target(bufs@).len() > 0 ==> old(self).room() == 0,
            res matches Err(e) && e.is_interrupted() ==> final(self).stalls() < old(self).stalls(),
            res matches Err(e) ==> e.is_interrupted() || old(self).raises(e),
            forall|e: Error| #[trigger] final(self).raises(e) ==> old(self).raises(e),
    {
        let i: usize = first_nonempty(bufs);
        if i < bufs.len() {
            self.write(bufs[i].as_slice())
        } else {
            let none: [u8; 0] = [];
            self.write(&none)
        }
    }

    /// Whether the sink has a vectored write of its own. Under this contract
    /// it has not: `write_vectored` goes by way of the scalar write.
    fn is_write_vectored(&self) -> (b: bool)
        ensures
            !b,
    {
        false
    }

    /// Makes what the sink has taken durable, in whatever sense the sink
    /// defines. It takes no bytes.
    ///
    /// After a flush that succeeds, every byte that the sink has taken is
    /// durable. One that fails undoes nothing: what was durable stays so.
    fn flush(&mut self) -> (res: Result<()>)
        requires
            old(self).inv(),
        ensures
            final(self).inv(),
            old(self).faultless() ==> final(self).faultless() && res is Ok,
            final(self).written() == old(self).written(),
            final(self).room() == old(self).room(),
            res is Ok ==> final(self).settled() == final(self).written().len(),
            res is Err ==> final(self).settled() >= old(self).settled(),
            res matches Err(e) ==> old(self).raises(e),
            forall|e: Error| #[trigger] final(self).raises(e) ==> old(self).raises(e),
    ;

    /// Writes the whole of `buf`, reissuing the attempt on the unwritten rest
    /// until nothing of it is left.
    ///
    /// Whatever the result, the sink has taken a prefix of `buf`: the whole of
    /// it on success, less on failure. A faultless sink fails exactly when its
    /// room is smaller than `buf`, and then with the write-zero error, after
    /// taking as much as it had room for.
    fn write_all(&mut self, buf: &[u8]) -> (res: Result<()>)
        requires
            old(self).inv(),
        ensures
            final(self).inv(),
            old(self).faultless() ==> final(self).faultless(),
            takes(
                old(self).written(),
                final(self).written(),
                old(self).room(),
                final(self).room(),
                buf@,
                res is Ok,
            ),
            old(self).faultless() ==> (res is Ok <==> buf@.len() <= old(self).room()),
            old(self).faultless() && res is Err ==> final(self).room() == 0,
            res matches Err(e) ==> old(self).raises(e) || (e == write_zero() && final(self).room()
                == 0),
            forall|e: Error| #[trigger] final(self).raises(e) ==> old(self).raises(e),
        default_ensures
            old(self).faultless() ==> (res matches Err(e) ==> e == write_zero()),
    {
        let len: usize = buf.len();
        let mut sent: usize = 0;
        let ghost base = self.written();
        let ghost space = self.room();
        proof {
            assert(base + buf@.take(0) == base);
        }
        while sent < len
            invariant
                self.inv(),
                sent <= len,
                len == buf@.len(),
                base == old(self).written(),
                space == old(self).room(),
                old(self).faultless() ==> self.faultless(),
                forall|e: Error| #[trigger] self.raises(e) ==> old(self).raises(e),
                accepts(base, self.written(), space, self.room(), buf@, sent as nat),
            decreases len - sent, self.stalls(),
        {
            let rest = vstd::slice::slice_subrange(buf, sent, len);
            match self.write(rest) {
                Ok(n) => {
                    if n == 0 {
                        return Err(
                            Error::new(ErrorKind::WriteZero, "failed to write whole buffer"),
                        );
                    }
                    proof {
                        assert(buf@.take(sent + n) == buf@.take(sent as int) + rest@.take(
                            n as int,
                        ));
                        assert(self.written() == base + buf@.take(sent + n));
                    }
                    sent += n;
                },
                Err(e) => {
                    if !e.interrupted() {
                        return Err(e);
                    }
                },
            }
        }
        Ok(())
    }

    /// Writes the whole of every buffer, one buffer after the other.
    ///
    /// Whatever the result, the sink has taken a prefix of the buffers'
    /// bytes: all of them on success, less on failure. A faultless sink fails
    /// exactly when its room is smaller than the buffers together.
    fn write_all_vectored(&mut self, bufs: &Vec<Vec<u8>>) -> (res: Result<()>)
        requires
            old(self).inv(),
        ensures
            final(self).inv(),
            old(self).faultless() ==> final(self).faultless(),
            takes(
                old(self).written(),
                final(self).written(),
                old(self).room(),
                final(self).room(),
                joined(bufs@),
                res is Ok,
            ),
            old(self).faultless() ==> (res is Ok <==> joined(bufs@).len() <= old(self).room()),
            res matches Err(e) ==> old(self).raises(e) || e == write_zero(),
            forall|e: Error| #[trigger] final(self).raises(e) ==> old(self).raises(e),
    {
        let ghost base = self.written();
        let ghost space = self.room();
        let ghost all = pieces(bufs@);
        let mut i: usize = 0;
        proof {
            run_starts_empty(all);
            assert(base + Seq::<u8>::empty() == base);
        }
        while i < bufs.len()
            invariant
                self.inv(),
                i <= bufs@.len(),
                all == pieces(bufs@),
                base == old(self).written(),
                space == old(self).room(),
                old(self).faultless() ==> self.faultless(),
                forall|e: Error| #[trigger] self.raises(e) ==> old(self).raises(e),
                run(all, i as int).len() <= space,
                self.written() == base + run(all, i as int),
                self.room() == space - run(all, i as int).len(),
            decreases bufs@.len() - i,
        {
            let pushed = self.write_all(bufs[i].as_slice());
            proof {
                let sofar = run(all, i as int);
                let k = self.written().len() - (base + sofar).len();
                run_grows(all, i as int, k);
                assert(self.written() == base + (sofar + all[i as int].take(k)));
                if pushed is Ok {
                    assert(all[i as int].take(k) == all[i as int]);
                }
            }
            match pushed {
                Ok(()) => {},
                Err(e) => {
                    return Err(e);
                },
            }
            i += 1;
        }
        proof {
            run_ends_whole(all);
            assert(joined(bufs@).take(joined(bufs@).len() as int) == joined(bufs@));
        }
        Ok(())
    }

    /// Borrows the sink.
    fn by_ref(&mut self) -> (r: &mut Self) where Self: Sized
        ensures
            *r == *old(self),
            *final(self) == *final(r),
    {
        self
    }
}

} // verus!
