//! The bridge between the two contracts: every count-shaped source or sink
//! speaks the outcome protocol, and a wrapper makes a source or sink of the
//! outcome protocol count-shaped.
//!
//! The bridge is a mapping of values and keeps no state of its own. A
//! count of zero and the end of the stream stand for each other, so do a
//! positive count and a transfer, and so do an error of the interrupted kind
//! and the request for a retry.

use vstd::prelude::*;
use std::io::ErrorKind;
use crate::error::{custom_has_its_kind, Error, Result};
use crate::initializer::Initializer;
use crate::outcome::OpRes;
use crate::read::{not_text, short_read, Read, ReadExt};
use crate::read_alloc::ReadAlloc;
use crate::read_core::ReadCore;
use crate::write::{write_zero, Write};
use crate::write_core::WriteCore;

verus! {

/// The outcome that a count-shaped result stands for.
pub open spec fn outcome_of(res: Result<usize>, len: nat) -> core::result::Result<OpRes, Error> {
    match res {
        Ok(n) => Ok(OpRes::of_count(n as nat, len)),
        Err(e) => if e.is_interrupted() {
            Ok(OpRes::Retry)
        } else {
            Err(e)
        },
    }
}

/// Maps a count-shaped result of a request for `len` bytes to an outcome.
pub fn to_outcome(res: Result<usize>, len: usize) -> (out: core::result::Result<OpRes, Error>)
    ensures
        out == outcome_of(res, len as nat),
{
    match res {
        Ok(n) => Ok(OpRes::from_count(n, len)),
        Err(e) => if e.interrupted() {
            Ok(OpRes::Retry)
        } else {
            Err(e)
        },
    }
}

/// The error by which the count-shaped contract asks for a retry.
pub open spec fn try_again() -> Error {
    Error::custom(ErrorKind::Interrupted, "Read was Interrupted. Try again.")
}

/// The error that stands, in the count-shaped contract, for any error of a
/// wrapped source or sink.
pub open spec fn wrapped_failure() -> Error {
    Error::custom(ErrorKind::Other, "Unable to read from Reader.")
}

/// The count-shaped result that an outcome stands for.
pub open spec fn count_of_outcome<E>(attempt: core::result::Result<OpRes, E>) -> Result<usize> {
    match attempt {
        Ok(OpRes::Retry) => Err(try_again()),
        Ok(op) => Ok(op.moved() as usize),
        Err(_) => Err(wrapped_failure()),
    }
}

/// Maps an outcome to a count-shaped result. Of the errors it makes,
/// only the one that asks for a retry is of the interrupted kind.
pub fn to_count<E>(attempt: core::result::Result<OpRes, E>) -> (res: Result<usize>)
    ensures
        res == count_of_outcome(attempt),
        res matches Err(e) ==> (e.is_interrupted() <==> attempt matches Ok(OpRes::Retry)),
{
    proof {
        custom_has_its_kind(ErrorKind::Interrupted, "Read was Interrupted. Try again.");
        custom_has_its_kind(ErrorKind::Other, "Unable to read from Reader.");
    }
    match attempt {
        Err(_) => Err(wrap_error()),
        Ok(OpRes::Retry) => Err(
            Error::new(ErrorKind::Interrupted, "Read was Interrupted. Try again."),
        ),
        Ok(OpRes::Partial(n)) => Ok(n),
        Ok(OpRes::Completly(n)) => Ok(n),
        Ok(OpRes::Eof) => Ok(0),
    }
}

/// The error that stands for any error of a wrapped source or sink.
pub fn wrap_error() -> (e: Error)
    ensures
        e == wrapped_failure(),
        !e.is_interrupted(),
{
    proof {
        custom_has_its_kind(ErrorKind::Other, "Unable to read from Reader.");
    }
    Error::new(ErrorKind::Other, "Unable to read from Reader.")
}

impl<T: Read> ReadCore for T {
    type Err = Error;

    open spec fn inv(&self) -> bool {
        Read::inv(self)
    }

    open spec fn pending(&self) -> Seq<u8> {
        Read::pending(self)
    }

    open spec fn stalls(&self) -> nat {
        Read::stalls(self)
    }

    open spec fn faultless(&self) -> bool {
        Read::faultless(self)
    }

    /// The errors of the source, and those that the derived operations of
    /// the count-shaped contract make.
    open spec fn raises(&self, e: Error) -> bool {
        Read::raises(self, e) || e == short_read() || e == not_text()
    }

    open spec fn zeroes(&self) -> bool {
        Read::zeroes(self)
    }

    fn read(&mut self, buf: &mut [u8]) -> (res: core::result::Result<OpRes, Self::Err>) {
        let len: usize = buf.len();
        let counted = Read::read(self, buf);
        to_outcome(counted, len)
    }

    fn initializer(&self) -> (i: Initializer) {
        Read::initializer(self)
    }

    /// As the count-shaped contract has it: a short read fails with that
    /// contract's error.
    fn read_exact(&mut self, buf: &mut [u8]) -> (res: core::result::Result<(), Self::Err>) {
        Read::read_exact(self, buf)
    }
}

impl<T: Read> ReadAlloc for T {
    fn read_to_end(&mut self, buf: &mut Vec<u8>) -> (res: core::result::Result<(), Self::Err>) {
        match ReadExt::read_to_end(self, buf) {
            Ok(_) => Ok(()),
            Err(e) => Err(e),
        }
    }

    /// As the count-shaped contract has it: well-formed text is kept also
    /// where the source failed behind it.
    fn read_to_string(&mut self, buf: &mut String) -> (res: core::result::Result<(), Self::Err>) {
        let counted = ReadExt::read_to_string(self, buf);
        proof {
            let before = Read::pending(old(self));
            assert(before.take(before.len() as int) == before);
        }
        match counted {
            Ok(_) => Ok(()),
            Err(e) => Err(e),
        }
    }
}

impl<T: Write> WriteCore for T {
    type Err = Error;

    open spec fn inv(&self) -> bool {
        Write::inv(self)
    }

    open spec fn written(&self) -> Seq<u8> {
        Write::written(self)
    }

    open spec fn room(&self) -> nat {
        Write::room(self)
    }

    open spec fn settled(&self) -> nat {
        Write::settled(self)
    }

    open spec fn stalls(&self) -> nat {
        Write::stalls(self)
    }

    open spec fn faultless(&self) -> bool {
        Write::faultless(self)
    }

    /// The errors of the sink, and the one that the derived operations of
    /// the count-shaped contract make.
    open spec fn raises(&self, e: Error) -> bool {
        Write::raises(self, e) || e == write_zero()
    }

    fn write(&mut self, buf: &[u8]) -> (res: core::result::Result<OpRes, Self::Err>) {
        let counted = Write::write(self, buf);
        to_outcome(counted, buf.len())
    }

    /// As the count-shaped contract has it: the sink is flushed, and its
    /// error, if any, passed on as it came.
    fn flush(&mut self) -> (res: core::result::Result<(), Self::Err>)
        ensures
            res matches Err(e) ==> Write::raises(old(self), e),
    {
        Write::flush(self)
    }

    /// As the count-shaped contract has it: a sink that takes no more fails
    /// with that contract's error.
    fn write_all(&mut self, buf: &[u8]) -> (res: core::result::Result<(), Self::Err>) {
        Write::write_all(self, buf)
    }
}

/// A source of the outcome protocol, made count-shaped.
pub struct LegacyRead<R: ReadCore>(pub R);

impl<R: ReadCore> Read for LegacyRead<R> {
    open spec fn inv(&self) -> bool {
        self.0.inv()
    }

    open spec fn pending(&self) -> Seq<u8> {
        self.0.pending()
    }

    open spec fn stalls(&self) -> nat {
        self.0.stalls()
    }

    open spec fn faultless(&self) -> bool {
        self.0.faultless()
    }

    /// The one error that stands for every error of the wrapped source.
    open spec fn raises(&self, e: Error) -> bool {
        e == wrapped_failure()
    }

    open spec fn zeroes(&self) -> bool {
        self.0.zeroes()
    }

    fn read(&mut self, buf: &mut [u8]) -> (res: Result<usize>) {
        let attempt = ReadCore::read(&mut self.0, buf);
        to_count(attempt)
    }

    fn initializer(&self) -> (i: Initializer) {
        ReadCore::initializer(&self.0)
    }

    /// As the wrapped source has it, with its error wrapped.
    fn read_exact(&mut self, buf: &mut [u8]) -> (res: Result<()>) {
        match ReadCore::read_exact(&mut self.0, buf) {
            Ok(()) => Ok(()),
            Err(_) => Err(wrap_error()),
        }
    }
}

/// A sink of the outcome protocol, made count-shaped.
#[derive(Debug)]
pub struct LegacyWrite<W: WriteCore>(pub W);

impl<W: WriteCore> Write for LegacyWrite<W> {
    open spec fn inv(&self) -> bool {
        self.0.inv()
    }

    open spec fn written(&self) -> Seq<u8> {
        self.0.written()
    }

    open spec fn room(&self) -> nat {
        self.0.room()
    }

    open spec fn settled(&self) -> nat {
        self.0.settled()
    }

    open spec fn stalls(&self) -> nat {
        self.0.stalls()
    }

    open spec fn faultless(&self) -> bool {
        self.0.faultless()
    }

    /// The one error that stands for every error of the wrapped sink.
    open spec fn raises(&self, e: Error) -> bool {
        e == wrapped_failure()
    }

    fn write(&mut self, buf: &[u8]) -> (res: Result<usize>) {
        let attempt = WriteCore::write(&mut self.0, buf);
        proof {
            assert(Write::settled(self) >= Write::settled(old(self)));
        }
        to_count(attempt)
    }

    /// Flushes the wrapped sink. The flush succeeds exactly when that of the
    /// wrapped sink does, and then all that the wrapped sink has taken is
    /// durable; its error, if any, is wrapped.
    fn flush(&mut self) -> (res: Result<()>) {
        match WriteCore::flush(&mut self.0) {
            Ok(()) => Ok(()),
            Err(_) => Err(wrap_error()),
        }
    }

    /// As the wrapped sink has it, with its error wrapped.
    fn write_all(&mut self, buf: &[u8]) -> (res: Result<()>) {
        match WriteCore::write_all(&mut self.0, buf) {
            Ok(()) => Ok(()),
            Err(_) => Err(wrap_error()),
        }
    }
}

} // verus!
