//! A source taken one byte at a time.

use vstd::prelude::*;
use crate::outcome::OpRes;
use crate::read_core::ReadCore;

verus! {

/// The bytes of a source as a forward-only sequence, which ends with the
/// source's end or after the first error.
#[derive(Debug)]
pub struct Bytes<R> {
    inner: R,
    done: bool,
}

impl<R> Bytes<R> {
    /// The wrapped source.
    pub closed spec fn source(&self) -> R {
        self.inner
    }

    /// Whether the sequence has ended.
    pub closed spec fn finished(&self) -> bool {
        self.done
    }

    /// Starts the sequence at what `inner` has pending.
    pub fn new(inner: R) -> (b: Self)
        ensures
            b.source() == inner,
            !b.finished(),
    {
        Self { inner, done: false }
    }
}

impl<R: ReadCore> Bytes<R> {
    /// The next element of the sequence.
    ///
    /// A retry is reissued at once. The first pending byte is produced where
    /// there is one; the source's end produces nothing and ends the sequence;
    /// an error of the source is produced once, as it came, and ends the
    /// sequence too. Once ended, the sequence produces nothing and leaves the
    /// source alone.
    pub fn next(&mut self) -> (item: Option<Result<u8, R::Err>>)
        requires
            old(self).source().inv(),
        ensures
            final(self).source().inv(),
            old(self).finished() ==> item is None && *final(self) == *old(self),
            old(self).source().faultless() ==> final(self).source().faultless(),
            old(self).source().faultless() ==> !(item matches Some(Err(_))),
            !old(self).finished() ==> match item {
                Some(Ok(byte)) => {
                    &&& !final(self).finished()
                    &&& old(self).source().pending().len() > 0
                    &&& byte == old(self).source().pending()[0]
                    &&& final(self).source().pending() == old(self).source().pending().skip(1)
                },
                Some(Err(e)) => {
                    &&& final(self).finished()
                    &&& final(self).source().pending() == old(self).source().pending()
                    &&& old(self).source().raises(e)
                },
                None => {
                    &&& final(self).finished()
                    &&& old(self).source().pending().len() == 0
                    &&& final(self).source().pending().len() == 0
                },
            },
    {
        if self.done {
            return None;
        }
        let mut byte: [u8; 1] = [0];
        loop
            invariant
                self.inner.inv(),
                !self.done,
                !old(self).finished(),
                self.inner.pending() == old(self).inner.pending(),
                old(self).inner.faultless() ==> self.inner.faultless(),
                forall|e: R::Err| #[trigger] self.inner.raises(e) ==> old(self).inner.raises(e),
            decreases self.inner.stalls(),
        {
            let ghost before = self.inner.pending();
            match self.inner.read(&mut byte) {
                Ok(OpRes::Eof) => {
                    self.done = true;
                    return None;
                },
                Ok(OpRes::Retry) => {},
                Ok(OpRes::Partial(_)) | Ok(OpRes::Completly(_)) => {
                    proof {
                        assert(byte@.take(1)[0] == before.take(1)[0]);
                    }
                    return Some(Ok(byte[0]));
                },
                Err(err) => {
                    self.done = true;
                    return Some(Err(err));
                },
            }
        }
    }
}

} // verus!
