//! A source and a sink that follow a script: they move their bytes in small
//! pieces, ask for retries and fail where they are told to.

use vstd::prelude::*;
use vstd::std_specs::convert::FromSpecImpl;
use crate::initializer::Initializer;
use crate::outcome::{FormatterError, InvalidUtf8, OpRes, UnexpectedEndOfFile};
use crate::read_alloc::ReadAlloc;
use crate::read_core::ReadCore;
use crate::write_core::WriteCore;

verus! {

/// The canonical failures, and the failure that a script asks for.
#[derive(Debug, Clone, Copy, PartialEq, Eq, Structural)]
pub enum ScriptError {
    /// The script said to fail here.
    Broken,
    UnexpectedEof,
    InvalidUtf8,
    FormatterError,
}

impl From<InvalidUtf8> for ScriptError {
    fn from(_e: InvalidUtf8) -> (r: Self) {
        Self::InvalidUtf8
    }
}

impl FromSpecImpl<InvalidUtf8> for ScriptError {
    open spec fn obeys_from_spec() -> bool {
        true
    }

    open spec fn from_spec(_e: InvalidUtf8) -> Self {
        Self::InvalidUtf8
    }
}

impl From<UnexpectedEndOfFile> for ScriptError {
    fn from(_e: UnexpectedEndOfFile) -> (r: Self) {
        Self::UnexpectedEof
    }
}

impl FromSpecImpl<UnexpectedEndOfFile> for ScriptError {
    open spec fn obeys_from_spec() -> bool {
        true
    }

    open spec fn from_spec(_e: UnexpectedEndOfFile) -> Self {
        Self::UnexpectedEof
    }
}

impl From<FormatterError> for ScriptError {
    fn from(_e: FormatterError) -> (r: Self) {
        Self::FormatterError
    }
}

impl FromSpecImpl<FormatterError> for ScriptError {
    open spec fn obeys_from_spec() -> bool {
        true
    }

    open spec fn from_spec(_e: FormatterError) -> Self {
        Self::FormatterError
    }
}

/// How a scripted source or sink paces itself and where it fails.
#[derive(Debug, Clone, Copy)]
pub struct Script {
    /// The most bytes moved by one attempt; zero for no such cap.
    pub chunk: usize,
    /// The retries asked for before every transfer.
    pub pause: usize,
    /// The number of bytes moved from which on every attempt fails.
    pub fail_at: Option<usize>,
}

impl Script {
    /// The script of a source or sink that moves all it can at once, never
    /// asks for a retry and never fails.
    pub fn plain() -> (s: Script)
        ensures
            s.chunk == 0,
            s.pause == 0,
            s.fail_at is None,
    {
        Script { chunk: 0, pause: 0, fail_at: None }
    }

    /// Whether the script says to fail once `moved` bytes have passed.
    pub open spec fn fails_at(&self, moved: nat) -> bool {
        self.fail_at matches Some(p) && moved >= p
    }

    /// The number of bytes that the next transfer moves, of `wanted` asked
    /// for and `left` at hand, after `moved` have passed: as many as
    /// possible, within the cap and up to the place of failure.
    pub open spec fn share(&self, wanted: nat, left: nat, moved: nat) -> nat {
        let a = if wanted <= left {
            wanted
        } else {
            left
        };
        let b = if self.chunk > 0 && self.chunk < a {
            self.chunk as nat
        } else {
            a
        };
        match self.fail_at {
            Some(p) => if moved <= p && p - moved < b {
                (p - moved) as nat
            } else {
                b
            },
            None => b,
        }
    }

    /// The number of bytes that the next transfer moves.
    fn portion(&self, wanted: usize, left: usize, moved: usize) -> (n: usize)
        ensures
            n == self.share(wanted as nat, left as nat, moved as nat),
            n <= wanted,
            n <= left,
            wanted > 0 && left > 0 && !self.fails_at(moved as nat) ==> n > 0,
    {
        let a: usize = if wanted <= left {
            wanted
        } else {
            left
        };
        let b: usize = if self.chunk > 0 && self.chunk < a {
            self.chunk
        } else {
            a
        };
        match self.fail_at {
            Some(p) => if moved <= p && p - moved < b {
                p - moved
            } else {
                b
            },
            None => b,
        }
    }
}

/// A source that delivers its data as its script says.
#[derive(Debug)]
pub struct ScriptedSource {
    data: Vec<u8>,
    pos: usize,
    waited: usize,
    script: Script,
    zeroing: bool,
}

impl ScriptedSource {
    /// The data that the source was made over.
    pub closed spec fn data(&self) -> Seq<u8> {
        self.data@
    }

    /// The number of bytes delivered so far.
    pub closed spec fn position(&self) -> nat {
        self.pos as nat
    }

    /// The retries asked for since the last transfer.
    pub closed spec fn waited(&self) -> nat {
        self.waited as nat
    }

    /// The script that the source follows.
    pub closed spec fn script(&self) -> Script {
        self.script
    }

    /// The source's initialization policy.
    pub closed spec fn policy(&self) -> bool {
        self.zeroing
    }

    /// A source that delivers `data` as `script` says, and asks for zeroed
    /// buffers if `zeroing` is set.
    pub fn new(data: Vec<u8>, script: Script, zeroing: bool) -> (r: Self)
        ensures
            r.inv(),
            r.data() == data@,
            r.position() == 0,
            r.waited() == 0,
            r.script() == script,
            r.policy() == zeroing,
            r.pending() == data@,
    {
        Self { data, pos: 0, waited: 0, script, zeroing }
    }

    /// The number of bytes delivered so far.
    pub fn delivered(&self) -> (n: usize)
        ensures
            n == self.position(),
    {
        self.pos
    }
}

impl ReadCore for ScriptedSource {
    type Err = ScriptError;

    open spec fn inv(&self) -> bool {
        self.position() <= self.data().len() && self.waited() <= self.script().pause
    }

    open spec fn pending(&self) -> Seq<u8> {
        self.data().skip(self.position() as int)
    }

    open spec fn stalls(&self) -> nat {
        (self.script().pause - self.waited()) as nat
    }

    open spec fn faultless(&self) -> bool {
        self.script().fail_at is None
    }

    open spec fn raises(&self, e: Self::Err) -> bool {
        self.script().fail_at is Some && e == ScriptError::Broken
    }

    open spec fn zeroes(&self) -> bool {
        self.policy()
    }

    /// Fails where the script says so. Else it reports the end where nothing
    /// is pending or asked for, asks for a retry while the script's pause
    /// lasts, and then moves the script's share of the pending bytes.
    fn read(&mut self, buf: &mut [u8]) -> (res: Result<OpRes, Self::Err>)
        ensures
            final(self).data() == old(self).data(),
            final(self).script() == old(self).script(),
            old(self).script().fails_at(old(self).position()) <==> res is Err,
            res matches Err(e) ==> e == ScriptError::Broken && *final(self) == *old(self),
            res matches Ok(op) ==> {
                if old(buf)@.len() == 0 || old(self).pending().len() == 0 {
                    op == OpRes::Eof
                } else if old(self).waited() < old(self).script().pause {
                    op == OpRes::Retry
                } else {
                    op == OpRes::of_count(
                        old(self).script().share(
                            old(buf)@.len(),
                            old(self).pending().len(),
                            old(self).position(),
                        ),
                        old(buf)@.len(),
                    )
                }
            },
    {
        let len: usize = buf.len();
        if let Some(p) = self.script.fail_at {
            if self.pos >= p {
                return Err(ScriptError::Broken);
            }
        }
        let left: usize = self.data.len() - self.pos;
        if len == 0 || left == 0 {
            return Ok(OpRes::Eof);
        }
        if self.waited < self.script.pause {
            self.waited += 1;
            proof {
                assert(self.stalls() < old(self).stalls());
            }
            return Ok(OpRes::Retry);
        }
        let count: usize = self.script.portion(len, left, self.pos);
        let mut moved: usize = 0;
        while moved < count
            invariant
                moved <= count,
                count <= len,
                count <= self.data@.len() - self.pos,
                self.data@.len() <= usize::MAX,
                buf@.len() == len,
                *self == *old(self),
                forall|j: int| 0 <= j < moved ==> buf@[j] == self.data@[self.pos + j],
            decreases count - moved,
        {
            buf[moved] = self.data[self.pos + moved];
            moved += 1;
        }
        proof {
            assert(buf@.take(count as int) == old(self).pending().take(count as int));
            assert(self.data@.skip(self.pos as int).skip(count as int) == self.data@.skip(
                self.pos + count,
            ));
        }
        self.pos += count;
        self.waited = 0;
        Ok(OpRes::from_count(count, len))
    }

    fn initializer(&self) -> (i: Initializer) {
        if self.zeroing {
            Initializer::zeroing()
        } else {
            Initializer::nop()
        }
    }
}

impl ReadAlloc for ScriptedSource {

}

/// A sink that takes bytes as its script says, up to a capacity.
#[derive(Debug)]
pub struct ScriptedSink {
    data: Vec<u8>,
    capacity: usize,
    waited: usize,
    flushes: usize,
    flushed: usize,
    script: Script,
}

impl ScriptedSink {
    /// The bytes taken so far.
    pub closed spec fn taken(&self) -> Seq<u8> {
        self.data@
    }

    /// The most bytes that the sink takes in all.
    pub closed spec fn capacity(&self) -> nat {
        self.capacity as nat
    }

    /// The retries asked for since the last transfer.
    pub closed spec fn waited(&self) -> nat {
        self.waited as nat
    }

    /// The script that the sink follows.
    pub closed spec fn script(&self) -> Script {
        self.script
    }

    /// The number of flushes that succeeded, as far as a `usize` counts.
    pub closed spec fn flush_count(&self) -> nat {
        self.flushes as nat
    }

    /// The number of bytes that the sink held at its last flush that
    /// succeeded.
    pub closed spec fn flushed_len(&self) -> nat {
        self.flushed as nat
    }

    /// An empty sink that takes up to `capacity` bytes as `script` says.
    pub fn new(capacity: usize, script: Script) -> (w: Self)
        ensures
            w.inv(),
            w.taken() == Seq::<u8>::empty(),
            w.capacity() == capacity,
            w.waited() == 0,
            w.script() == script,
            w.flush_count() == 0,
            w.flushed_len() == 0,
    {
        Self { data: Vec::new(), capacity, waited: 0, flushes: 0, flushed: 0, script }
    }

    /// The bytes taken so far.
    pub fn contents(&self) -> (data: &Vec<u8>)
        ensures
            data@ == self.taken(),
    {
        &self.data
    }

    /// The number of times the sink was flushed with success.
    pub fn flushes(&self) -> (n: usize)
        ensures
            n == self.flush_count(),
    {
        self.flushes
    }

    /// The number of bytes that the sink held at its last flush that
    /// succeeded: so many of its bytes are durable.
    pub fn flushed(&self) -> (n: usize)
        ensures
            n == self.flushed_len(),
    {
        self.flushed
    }
}

impl WriteCore for ScriptedSink {
    type Err = ScriptError;

    open spec fn inv(&self) -> bool {
        self.taken().len() <= self.capacity() && self.waited() <= self.script().pause
    }

    open spec fn written(&self) -> Seq<u8> {
        self.taken()
    }

    open spec fn room(&self) -> nat {
        (self.capacity() - self.taken().len()) as nat
    }

    /// The bytes that the sink held at its last flush.
    open spec fn settled(&self) -> nat {
        self.flushed_len()
    }

    open spec fn stalls(&self) -> nat {
        (self.script().pause - self.waited()) as nat
    }

    open spec fn faultless(&self) -> bool {
        self.script().fail_at is None
    }

    open spec fn raises(&self, e: Self::Err) -> bool {
        self.script().fail_at is Some && e == ScriptError::Broken
    }

    /// Fails where the script says so. Else it reports the end where it has
    /// no room or nothing is offered, asks for a retry while the script's
    /// pause lasts, and then takes the script's share of the bytes offered.
    fn write(&mut self, buf: &[u8]) -> (res: Result<OpRes, Self::Err>)
        ensures
            final(self).capacity() == old(self).capacity(),
            final(self).script() == old(self).script(),
            final(self).flush_count() == old(self).flush_count(),
            final(self).flushed_len() == old(self).flushed_len(),
            old(self).script().fails_at(old(self).taken().len()) <==> res is Err,
            res matches Err(e) ==> e == ScriptError::Broken,
            res matches Ok(op) ==> {
                if buf@.len() == 0 || old(self).room() == 0 {
                    op == OpRes::Eof
                } else if old(self).waited() < old(self).script().pause {
                    op == OpRes::Retry
                } else {
                    op == OpRes::of_count(
                        old(self).script().share(
                            buf@.len(),
                            old(self).room(),
                            old(self).taken().len(),
                        ),
                        buf@.len(),
                    )
                }
            },
    {
        let len: usize = buf.len();
        let have: usize = self.data.len();
        if let Some(p) = self.script.fail_at {
            if have >= p {
                return Err(ScriptError::Broken);
            }
        }
        let left: usize = self.capacity - have;
        if len == 0 || left == 0 {
            proof {
                assert(self.written() + buf@.take(0) == self.written());
            }
            return Ok(OpRes::Eof);
        }
        if self.waited < self.script.pause {
            self.waited += 1;
            proof {
                assert(self.written() + buf@.take(0) == self.written());
                assert(self.stalls() < old(self).stalls());
                assert(self.settled() == old(self).settled());
            }
            return Ok(OpRes::Retry);
        }
        let count: usize = self.script.portion(len, left, have);
        let mut moved: usize = 0;
        while moved < count
            invariant
                moved <= count,
                count <= len,
                len == buf@.len(),
                self.capacity == old(self).capacity,
                self.script == old(self).script,
                self.waited == old(self).waited,
                self.flushes == old(self).flushes,
                self.flushed == old(self).flushed,
                self.data@ == old(self).data@ + buf@.take(moved as int),
            decreases count - moved,
        {
            self.data.push(buf[moved]);
            proof {
                assert(buf@.take(moved + 1) == buf@.take(moved as int).push(buf@[moved as int]));
            }
            moved += 1;
        }
        self.waited = 0;
        proof {
            assert(self.settled() == old(self).settled());
        }
        Ok(OpRes::from_count(count, len))
    }

    /// Fails where the script says so, and changes nothing then. Else all
    /// the bytes taken become durable and the flush is counted.
    fn flush(&mut self) -> (res: Result<(), Self::Err>)
        ensures
            old(self).script().fails_at(old(self).taken().len()) <==> res is Err,
            res matches Err(e) ==> e == ScriptError::Broken && *final(self) == *old(self),
            res is Ok ==> {
                &&& final(self).flushed_len() == old(self).taken().len()
                &&& final(self).flush_count() == if old(self).flush_count() < usize::MAX {
                    old(self).flush_count() + 1
                } else {
                    old(self).flush_count()
                }
                &&& final(self).waited() == old(self).waited()
                &&& final(self).capacity() == old(self).capacity()
                &&& final(self).script() == old(self).script()
            },
    {
        if let Some(p) = self.script.fail_at {
            if self.data.len() >= p {
                return Err(ScriptError::Broken);
            }
        }
        if self.flushes < usize::MAX {
            self.flushes += 1;
        }
        self.flushed = self.data.len();
        Ok(())
    }
}

} // verus!
