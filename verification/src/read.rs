//! The count-shaped read contract: an attempt reports how many bytes it
//! moved, zero for the end, and asks for a retry through an error of the
//! interrupted kind.

use vstd::prelude::*;
use vstd::string::StringExecFns;
use vstd::utf8::valid_utf8;
use std::io::ErrorKind;
use crate::bytes::Bytes;
use crate::chain::Chain;
use crate::error::{Error, Result};
use crate::initializer::Initializer;
use crate::outcome::{fills, idles, transfers};
use crate::read_alloc::{checked_text, drains, kept_text, Guard, DEFAULT_RESERVATION};
use crate::take::Take;
use crate::vectored::{
    first_filled, first_nonempty, lengths_kept, others_kept, picked, target,
};

verus! {

/// The error of `read_exact` on a source that ended too early.
pub open spec fn short_read() -> Error {
    Error::custom(ErrorKind::UnexpectedEof, "failed to fill whole buffer")
}

/// The error of `read_to_string` on bytes that are no well-formed text.
pub open spec fn not_text() -> Error {
    Error::custom(ErrorKind::InvalidData, "stream did not contain valid UTF-8")
}

/// What one count-shaped attempt may do to a source with `before` pending:
/// a positive count is a transfer of that many bytes, a count of zero or an
/// error moves nothing, and a count of zero on a request for at least one
/// byte means that nothing is pending.
pub open spec fn count_step(
    before: Seq<u8>,
    after: Seq<u8>,
    len: nat,
    data: Seq<u8>,
    res: Result<usize>,
) -> bool {
    match res {
        Ok(n) => {
            &&& n <= len
            &&& n > 0 ==> transfers(before, after, data, n as nat)
            &&& n == 0 ==> idles(before, after, len) && (len > 0 ==> before.len() == 0)
        },
        Err(_) => idles(before, after, len),
    }
}

/// A source of bytes under the count-shaped contract. It is described as a
/// source of the outcome protocol is: by what it has pending, by its stalls,
/// by whether it can fail and with which errors, and by its initialization
/// policy.
pub trait Read {
    /// The source is well formed.
    spec fn inv(&self) -> bool;

    /// The bytes that the source has yet to deliver, in order.
    spec fn pending(&self) -> Seq<u8>;

    /// A bound on how many more times in a row the source is interrupted.
    spec fn stalls(&self) -> nat;

    /// No attempt on this source ends in an error, but for interruptions.
    spec fn faultless(&self) -> bool;

    /// `e` is an error, other than an interruption, that an operation on this
    /// source may end in. A source never comes to raise an error that it did
    /// not raise before.
    spec fn raises(&self, e: Error) -> bool;

    /// The source's initialization policy.
    spec fn zeroes(&self) -> bool;

    /// Attempts to transfer at most `buf.len()` bytes to the front of `buf`
    /// and returns how many were moved.
    fn read(&mut self, buf: &mut [u8]) -> (res: Result<usize>)
        requires
            old(self).inv(),
        ensures
            final(self).inv(),
            final(buf)@.len() == old(buf)@.len(),
            old(self).faultless() ==> final(self).faultless() && (res matches Err(e)
                ==> e.is_interrupted()),
            count_step(
                old(self).pending(),
                final(self).pending(),
                old(buf)@.len(),
                final(buf)@,
                res,
            ),
            res matches Err(e) && e.is_interrupted() ==> final(self).stalls() < old(self).stalls(),
            res matches Err(e) ==> e.is_interrupted() || old(self).raises(e),
            forall|e: Error| #[trigger] final(self).raises(e) ==> old(self).raises(e),
    ;

    /// One read attempt over a list of buffers: the source is asked for the
    /// first buffer that is not empty, or for no bytes where all are empty.
    /// The other buffers stay as they were.
    fn read_vectored(&mut self, bufs: &mut Vec<Vec<u8>>) -> (res: Result<usize>)
        requires
            old(self).inv(),
        ensures
            final(self).inv(),
            old(self).faultless() ==> final(self).faultless() && (res matches Err(e)
                ==> e.is_interrupted()),
            others_kept(old(bufs)@, final(bufs)@),
            lengths_kept(old(bufs)@, final(bufs)@),
            count_step(
                old(self).pending(),
                final(self).pending(),
                target(old(bufs)@).len(),
                picked(final(bufs)@, first_filled(old(bufs)@)),
                res,
            ),
            res matches Err(e) && e.is_interrupted() ==> final(self).stalls() < old(self).stalls(),
            res matches Err(e) ==> e.is_interrupted() || old(self).raises(e),
            forall|e: Error| #[trigger] final(self).raises(e) ==> old(self).raises(e),
    {
        let i: usize = first_nonempty(bufs);
        if i < bufs.len() {
            let res = self.read(bufs[i].as_mut_slice());
            proof {
                assert(bufs@[i as int]@.len() == old(bufs)@[i as int]@.len());
            }
            res
        } else {
            let mut none: [u8; 0] = [];
            self.read(&mut none)
        }
    }

    /// Whether the source has a vectored read of its own. Under this
    /// contract it has not: `read_vectored` goes by way of the scalar read.
    fn is_read_vectored(&self) -> (b: bool)
        ensures
            !b,
    {
        false
    }

    /// The source's initialization policy.
    fn initializer(&self) -> (i: Initializer)
        ensures
            i.zeroes() == self.zeroes(),
    ;

    /// Fills `buf` completely, reissuing the attempt on the unfilled rest
    /// until nothing of it is left or the source reports its end.
    ///
    /// On success the buffer holds the first `buf.len()` pending bytes. On
    /// failure a shorter prefix was moved. A faultless source fails exactly
    /// when it has fewer bytes than the buffer asks for, and then with the
    /// error of a short read, after giving up everything it had.
    fn read_exact(&mut self, buf: &mut [u8]) -> (res: Result<()>)
        requires
            old(self).inv(),
        ensures
            final(self).inv(),
            final(buf)@.len() == old(buf)@.len(),
            old(self).faultless() ==> final(self).faultless(),
            fills(
                old(self).pending(),
                final(self).pending(),
                final(buf)@,
                old(buf)@.len(),
                res is Ok,
            ),
            old(self).faultless() ==> (res is Ok <==> old(buf)@.len() <= old(self).pending().len()),
            old(self).faultless() && res is Err ==> final(self).pending().len() == 0,
            res matches Err(e) ==> old(self).raises(e) || (e == short_read() && final(self).pending().len() == 0),
            forall|e: Error| #[trigger] final(self).raises(e) ==> old(self).raises(e),
        default_ensures
            old(self).faultless() ==> (res matches Err(e) ==> e == short_read()),
    {
        let len: usize = buf.len();
        let mut filled: usize = 0;
        let ghost stream = self.pending();
        proof {
            assert(stream.skip(0) == stream);
            assert(buf@.take(0) == stream.take(0));
        }
        let mut ended: bool = false;
        while filled < len && !ended
            invariant
                self.inv(),
                filled <= len,
                buf@.len() == len,
                len == old(buf)@.len(),
                stream == old(self).pending(),
                old(self).faultless() ==> self.faultless(),
                forall|e: Error| #[trigger] self.raises(e) ==> old(self).raises(e),
                transfers(stream, self.pending(), buf@, filled as nat),
                ended ==> filled < len && self.pending().len() == 0,
            decreases self.pending().len(), if ended { 0nat } else { 1nat }, self.stalls(),
        {
            let ghost before = self.pending();
            let ghost done = buf@.take(filled as int);
            let (head, rest) = buf.split_at_mut(filled);
            let attempt = self.read(rest);
            proof {
                assert(buf@ == head@ + rest@);
                assert(buf@.take(filled as int) == done);
            }
            match attempt {
                Ok(n) => {
                    if n == 0 {
                        ended = true;
                    } else {
                        proof {
                            assert(buf@.take(filled + n) == done + rest@.take(n as int));
                            assert(stream.take(filled + n) == stream.take(filled as int)
                                + before.take(n as int));
                            assert(self.pending() == stream.skip(filled + n));
                        }
                        filled += n;
                    }
                },
                Err(e) => {
                    if !e.interrupted() {
                        return Err(e);
                    }
                },
            }
        }
        if filled < len {
            Err(Error::new(ErrorKind::UnexpectedEof, "failed to fill whole buffer"))
        } else {
            Ok(())
        }
    }

    /// Borrows the source.
    fn by_ref(&mut self) -> (r: &mut Self) where Self: Sized
        ensures
            *r == *old(self),
            *final(self) == *final(r),
    {
        self
    }

    /// Turns the source into a byte-at-a-time sequence.
    fn bytes(self) -> (b: Bytes<Self>) where Self: Sized
        ensures
            b.source() == self,
            !b.finished(),
    {
        Bytes::new(self)
    }

    /// Caps the source at `limit` bytes.
    fn take(self, limit: u64) -> (t: Take<Self>) where Self: Sized
        ensures
            t.source() == self,
            t.quota() == limit,
    {
        Take::new(self, limit)
    }
}

/// The bulk operations of a count-shaped source: everything it has left, as
/// bytes or as text.
pub trait ReadExt: Read + Sized {
    /// Appends to `buf` everything that the source has left, and returns how
    /// many bytes that were.
    ///
    /// Whatever the result, the buffer ends as it began plus the bytes that
    /// the source gave up: a failure part of the way leaves exactly the bytes
    /// moved before it. A faultless source is always drained.
    fn read_to_end(&mut self, buf: &mut Vec<u8>) -> (res: Result<usize>)
        requires
            old(self).inv(),
            old(buf)@.len() + old(self).pending().len() <= usize::MAX,
        ensures
            final(self).inv(),
            old(self).faultless() ==> final(self).faultless() && res is Ok,
            drains(old(self).pending(), final(self).pending(), old(buf)@, final(buf)@),
            res matches Ok(n) ==> final(self).pending().len() == 0,
            res matches Ok(n) ==> n == old(self).pending().len(),
            res matches Err(e) ==> old(self).raises(e),
            forall|e: Error| #[trigger] final(self).raises(e) ==> old(self).raises(e),
    {
        read_to_end(self, buf)
    }

    /// Appends to `buf`, as text, everything that the source has left, and
    /// returns how many bytes that were.
    ///
    /// Where the bytes that the source gave up are well-formed text, they are
    /// appended, also where the source failed behind them. Where they are
    /// not, the text stays as it was, and the result is the source's error
    /// if it failed and the invalid-data error if it did not.
    fn read_to_string(&mut self, buf: &mut String) -> (res: Result<usize>)
        requires
            old(self).inv(),
            old(self).pending().len() <= usize::MAX,
        ensures
            final(self).inv(),
            old(self).faultless() ==> final(self).faultless() && final(self).pending().len() == 0,
            final(self).pending().len() <= old(self).pending().len(),
            final(self).pending() == old(self).pending().skip(
                old(self).pending().len() - final(self).pending().len(),
            ),
            final(buf)@ == old(buf)@ + kept_text(
                old(self).pending().take(old(self).pending().len() - final(self).pending().len()),
            ),
            res matches Ok(n) ==> {
                &&& final(self).pending().len() == 0
                &&& n == old(self).pending().len()
                &&& valid_utf8(old(self).pending())
            },
            old(self).faultless() ==> (res is Ok <==> valid_utf8(old(self).pending())),
            old(self).faultless() ==> (res matches Err(e) ==> e == not_text()),
            res matches Err(e) ==> old(self).raises(e) || e == not_text(),
            forall|e: Error| #[trigger] final(self).raises(e) ==> old(self).raises(e),
    {
        let mut gathered: Vec<u8> = Vec::new();
        let drained = read_to_end(self, &mut gathered);
        proof {
            let before = old(self).pending();
            let k = before.len() - self.pending().len();
            assert(Seq::<u8>::empty() + before.take(k) == before.take(k));
            if drained is Ok {
                assert(before.take(before.len() as int) == before);
            }
        }
        append_to_string(buf, gathered.as_slice(), drained)
    }
}

impl<R: Read> ReadExt for R {

}

/// Reads `first` to its end and then goes on with `next`.
pub fn chain<T: Read, U: Read>(first: T, next: U) -> (c: Chain<T, U>)
    ensures
        c.sources() == (first, next),
        !c.exhausted_first(),
{
    Chain::new(first, next)
}

/// Drains `r` into `buf`, adding the default room whenever the buffer is
/// full, and returns how many bytes were read.
fn read_to_end<R: Read>(r: &mut R, buf: &mut Vec<u8>) -> (res: Result<usize>)
    requires
        old(r).inv(),
        old(buf)@.len() + old(r).pending().len() <= usize::MAX,
    ensures
        final(r).inv(),
        old(r).faultless() ==> final(r).faultless() && res is Ok,
        drains(old(r).pending(), final(r).pending(), old(buf)@, final(buf)@),
        res matches Ok(n) ==> final(r).pending().len() == 0 && n == old(r).pending().len(),
        res matches Err(e) ==> old(r).raises(e),
        forall|e: Error| #[trigger] final(r).raises(e) ==> old(r).raises(e),
{
    let by_default = |_r: &R| -> (n: usize)
        ensures
            n == DEFAULT_RESERVATION,
        { DEFAULT_RESERVATION };
    read_to_end_with_reservation(r, buf, by_default)
}

/// Drains `r` into `buf`, asking `reservation_size` how much room to add
/// whenever the buffer is full, and returns how many bytes were read.
///
/// The guard keeps the length up to which the buffer holds bytes that were
/// read. The room behind it is added zeroed, handed to the source's
/// initialization policy and then to the source; on every way out the buffer
/// is cut back to the guard's length.
fn read_to_end_with_reservation<R, F>(r: &mut R, buf: &mut Vec<u8>, reservation_size: F) -> (res:
    Result<usize>) where R: Read, F: Fn(&R) -> usize
    requires
        old(r).inv(),
        old(buf)@.len() + old(r).pending().len() <= usize::MAX,
        forall|x: &R| x.inv() ==> call_requires(reservation_size, (x,)),
        forall|x: &R, n: usize| #[trigger]
            call_ensures(reservation_size, (x,), n) ==> (n == 0 ==> x.pending().len() == 0),
    ensures
        final(r).inv(),
        old(r).faultless() ==> final(r).faultless() && res is Ok,
        drains(old(r).pending(), final(r).pending(), old(buf)@, final(buf)@),
        res matches Ok(n) ==> final(r).pending().len() == 0 && n == old(r).pending().len(),
        res matches Err(e) ==> old(r).raises(e),
        forall|e: Error| #[trigger] final(r).raises(e) ==> old(r).raises(e),
{
    let start_len: usize = buf.len();
    let mut g = Guard { len: buf.len() };
    let ghost base = buf@;
    let ghost stream = r.pending();
    proof {
        assert(stream.skip(0) == stream);
        assert(buf@.take(g.len as int) == base + stream.take(0));
    }
    loop
        invariant
            r.inv(),
            base == old(buf)@,
            stream == old(r).pending(),
            start_len == base.len(),
            old(r).faultless() ==> r.faultless(),
            forall|e: Error| #[trigger] r.raises(e) ==> old(r).raises(e),
            base.len() <= g.len <= buf@.len(),
            g.len - base.len() <= stream.len(),
            base.len() + stream.len() <= usize::MAX,
            buf@.take(g.len as int) == base + stream.take(g.len - base.len()),
            r.pending() == stream.skip(g.len - base.len()),
            forall|x: &R| x.inv() ==> call_requires(reservation_size, (x,)),
            forall|x: &R, n: usize| #[trigger]
                call_ensures(reservation_size, (x,), n) ==> (n == 0 ==> x.pending().len() == 0),
        decreases r.pending().len(), r.stalls(),
    {
        let ghost committed = buf@.take(g.len as int);
        if g.len == buf.len() {
            let hint: usize = reservation_size(&*r);
            buf.reserve(hint);
            let most: usize = usize::MAX - g.len;
            let grow: usize = if hint <= most {
                hint
            } else {
                most
            };
            buf.resize(g.len + grow, 0);
            let policy = r.initializer();
            let (_, fresh) = buf.as_mut_slice().split_at_mut(g.len);
            policy.initialize(fresh);
            proof {
                assert(buf@.take(g.len as int) == committed);
            }
        }
        let ghost before = r.pending();
        let (kept, spare) = buf.as_mut_slice().split_at_mut(g.len);
        let attempt = r.read(spare);
        proof {
            assert(buf@ == kept@ + spare@);
            assert(buf@.take(g.len as int) == committed);
        }
        match attempt {
            Ok(n) => {
                if n == 0 {
                    let total: usize = g.len - start_len;
                    g.release(buf);
                    return Ok(total);
                }
                proof {
                    let done = g.len - base.len();
                    assert(buf@.take(g.len + n) == committed + spare@.take(n as int));
                    assert(stream.take(done + n) == stream.take(done) + before.take(n as int));
                    assert(r.pending() == stream.skip(done + n));
                }
                g.len += n;
            },
            Err(e) => {
                if !e.interrupted() {
                    g.release(buf);
                    return Err(e);
                }
            },
        }
    }
}

/// Commits to `buf` the bytes that a drain has gathered.
///
/// Well-formed text is appended and the drain's result passed on, an error
/// too. Bytes that are no well-formed text leave the text as it was; the
/// drain's error is passed on if it has one, and the invalid-data error is
/// raised if it has none.
pub fn append_to_string(buf: &mut String, gathered: &[u8], drained: Result<usize>) -> (res:
    Result<usize>)
    ensures
        final(buf)@ == old(buf)@ + kept_text(gathered@),
        valid_utf8(gathered@) ==> res == drained,
        !valid_utf8(gathered@) ==> match drained {
            Ok(_) => res == Err::<usize, Error>(not_text()),
            Err(e) => res == Err::<usize, Error>(e),
        },
{
    match checked_text(gathered) {
        None => {
            match drained {
                Ok(_) => Err(
                    Error::new(ErrorKind::InvalidData, "stream did not contain valid UTF-8"),
                ),
                Err(e) => Err(e),
            }
        },
        Some(text) => {
            proof {
                vstd::utf8::encode_utf8_decode_utf8(text@);
            }
            buf.append(text);
            drained
        },
    }
}

} // verus!
