//! The outcome of one read or write attempt, and the canonical failures that
//! the derived operations raise.

use vstd::prelude::*;

verus! {

/// The stream ended while more data was mandatory.
#[derive(Copy, Clone, Debug)]
pub struct UnexpectedEndOfFile;

/// The accumulated bytes are not well-formed text.
#[derive(Copy, Clone, Debug)]
pub struct InvalidUtf8;

/// A position lies outside the data it refers to.
#[derive(Copy, Clone, Debug)]
pub struct OutOfBounds;

/// The formatting machinery failed although the sink did not.
#[derive(Copy, Clone, Debug)]
pub struct FormatterError;

/// What a single read or write attempt achieved.
#[derive(Copy, Clone, Debug, PartialEq, Eq, Structural)]
pub enum OpRes {
    /// Nothing was transferred; the attempt must be reissued.
    Retry,
    /// Nothing was transferred and nothing more will come from this call site.
    Eof,
    /// The requested region was transferred in full. More may or may not remain.
    Completly(usize),
    /// Part of the requested region was transferred. More may or may not remain.
    Partial(usize),
}

impl OpRes {
    /// The number of bytes that the attempt moved.
    pub open spec fn moved(self) -> nat {
        match self {
            OpRes::Retry => 0,
            OpRes::Eof => 0,
            OpRes::Completly(n) => n as nat,
            OpRes::Partial(n) => n as nat,
        }
    }

    /// Whether the outcome is admissible for a request of `len` bytes: a
    /// transfer is never empty, a partial one is shorter than the request and
    /// a complete one no longer than it.
    pub open spec fn fits(self, len: nat) -> bool {
        match self {
            OpRes::Retry => true,
            OpRes::Eof => true,
            OpRes::Completly(n) => 0 < n <= len,
            OpRes::Partial(n) => 0 < n < len,
        }
    }

    /// Whether bytes were moved.
    pub open spec fn is_transfer(self) -> bool {
        self is Completly || self is Partial
    }

    /// The outcome that stands for a plain byte count: none moved is the end,
    /// the whole request is a complete transfer, anything between a partial
    /// one.
    pub open spec fn of_count(n: nat, len: nat) -> OpRes {
        if n == 0 {
            OpRes::Eof
        } else if n == len {
            OpRes::Completly(n as usize)
        } else {
            OpRes::Partial(n as usize)
        }
    }

    /// The outcome of an attempt that moved `n` of the `len` bytes asked for.
    pub fn from_count(n: usize, len: usize) -> (op: OpRes)
        ensures
            op == OpRes::of_count(n as nat, len as nat),
    {
        if n == 0 {
            OpRes::Eof
        } else if n == len {
            OpRes::Completly(n)
        } else {
            OpRes::Partial(n)
        }
    }

    /// The number of bytes moved by the attempt: zero for `Retry` and `Eof`.
    pub fn transferred(&self) -> (n: usize)
        ensures
            n == self.moved(),
    {
        match self {
            OpRes::Retry => 0,
            OpRes::Eof => 0,
            OpRes::Completly(n) => *n,
            OpRes::Partial(n) => *n,
        }
    }
}

/// The number of bytes that an attempt moved, whether it ended in an outcome
/// or in an error: an error moves nothing.
pub open spec fn moved_by<E>(attempt: Result<OpRes, E>) -> nat {
    match attempt {
        Ok(op) => op.moved(),
        Err(_) => 0,
    }
}

/// A transfer of `n` bytes out of a source: the first `n` pending bytes now
/// stand at the front of `data`, and the source goes on behind them.
pub open spec fn transfers(before: Seq<u8>, after: Seq<u8>, data: Seq<u8>, n: nat) -> bool {
    &&& n <= before.len()
    &&& n <= data.len()
    &&& data.take(n as int) == before.take(n as int)
    &&& after == before.skip(n as int)
}

/// An attempt that moved nothing leaves the pending bytes as they were. The
/// one exception is a request for zero bytes made of a source that still has
/// data: it is answered without a transfer, and what is pending afterwards is
/// left open.
pub open spec fn idles(before: Seq<u8>, after: Seq<u8>, len: nat) -> bool {
    (len == 0 && before.len() > 0) || after == before
}

/// What one attempt may do to a source with `before` pending, asked for `len`
/// bytes: a transfer moves a prefix of them to the front of `data`, anything
/// else moves nothing, and the end on a request for at least one byte means
/// that nothing was pending.
pub open spec fn source_step<E>(
    before: Seq<u8>,
    after: Seq<u8>,
    len: nat,
    data: Seq<u8>,
    attempt: Result<OpRes, E>,
) -> bool {
    match attempt {
        Ok(op) => {
            &&& op.fits(len)
            &&& op.is_transfer() ==> transfers(before, after, data, op.moved())
            &&& !op.is_transfer() ==> idles(before, after, len)
            &&& op is Eof && len > 0 ==> before.len() == 0
        },
        Err(_) => idles(before, after, len),
    }
}

/// What filling a buffer of `len` bytes does to a source with `before`
/// pending: the bytes that the source gave up stand at the front of `data`,
/// and there are `len` of them exactly if the filling succeeded (`ok`), and
/// fewer if it did not.
pub open spec fn fills(before: Seq<u8>, after: Seq<u8>, data: Seq<u8>, len: nat, ok: bool) -> bool {
    &&& after.len() <= before.len()
    &&& transfers(before, after, data, (before.len() - after.len()) as nat)
    &&& ok ==> before.len() - after.len() == len
    &&& !ok ==> before.len() - after.len() < len
}

/// `e` is an error that was made from `x`.
pub open spec fn made_from<X, E: From<X>>(x: X, e: E) -> bool {
    call_ensures(E::from, (x,), e)
}

/// The smaller of two natural numbers.
pub open spec fn min_nat(a: nat, b: nat) -> nat {
    if a <= b {
        a
    } else {
        b
    }
}

} // verus!
