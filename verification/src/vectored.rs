//! Reads and writes over a list of buffers. They are layered on the scalar
//! operations: an attempt uses the first buffer that is not empty, and a
//! whole write takes the buffers one after the other.

use vstd::prelude::*;
use crate::outcome::{made_from, source_step, OpRes, UnexpectedEndOfFile};
use crate::pieces::{run, run_ends_whole, run_grows, run_starts_empty};
use crate::read_alloc::ReadAlloc;
use crate::read_core::ReadCore;
use crate::write_core::{accepts, takes, WriteCore};

verus! {

/// The index of the first buffer from `from` on that is not empty, and the
/// number of buffers where there is none.
pub open spec fn first_filled_from(bufs: Seq<Vec<u8>>, from: int) -> int
    decreases bufs.len() - from,
{
    if from < 0 || from >= bufs.len() {
        bufs.len() as int
    } else if bufs[from]@.len() > 0 {
        from
    } else {
        first_filled_from(bufs, from + 1)
    }
}

/// The index of the first buffer that is not empty, and the number of
/// buffers where there is none.
pub open spec fn first_filled(bufs: Seq<Vec<u8>>) -> int {
    first_filled_from(bufs, 0)
}

/// What buffer `i` holds, and nothing where there is no such buffer.
pub open spec fn picked(bufs: Seq<Vec<u8>>, i: int) -> Seq<u8> {
    if 0 <= i < bufs.len() {
        bufs[i]@
    } else {
        Seq::<u8>::empty()
    }
}

/// What the buffer that an attempt uses holds: the first buffer that is not
/// empty, and nothing where all are empty.
pub open spec fn target(bufs: Seq<Vec<u8>>) -> Seq<u8> {
    picked(bufs, first_filled(bufs))
}

/// All the buffers but the one that an attempt uses are the same in `before`
/// and `after`.
pub open spec fn others_kept(before: Seq<Vec<u8>>, after: Seq<Vec<u8>>) -> bool {
    &&& after.len() == before.len()
    &&& forall|j: int|
        0 <= j < before.len() && j != first_filled(before) ==> #[trigger] after[j]@ == before[j]@
}

/// What the buffers hold, buffer by buffer.
pub open spec fn pieces(bufs: Seq<Vec<u8>>) -> Seq<Seq<u8>> {
    bufs.map_values(|v: Vec<u8>| v@)
}

/// Every buffer is as long in `after` as it is in `before`.
pub open spec fn lengths_kept(before: Seq<Vec<u8>>, after: Seq<Vec<u8>>) -> bool {
    &&& after.len() == before.len()
    &&& forall|j: int| 0 <= j < before.len() ==> #[trigger] after[j]@.len() == before[j]@.len()
}

/// The bytes of all the buffers, one buffer after the other.
pub open spec fn joined(bufs: Seq<Vec<u8>>) -> Seq<u8> {
    pieces(bufs).flatten()
}

/// The index of the first buffer that is not empty, and the number of
/// buffers where there is none.
pub fn first_nonempty(bufs: &Vec<Vec<u8>>) -> (i: usize)
    ensures
        i == first_filled(bufs@),
        i <= bufs@.len(),
        i < bufs@.len() ==> bufs@[i as int]@.len() > 0,
{
    let mut i: usize = 0;
    while i < bufs.len() && bufs[i].len() == 0
        invariant
            i <= bufs@.len(),
            first_filled(bufs@) == first_filled_from(bufs@, i as int),
        decreases bufs@.len() - i,
    {
        i += 1;
    }
    i
}

/// One read attempt over a list of buffers, by way of the scalar read: the
/// source is asked for the first buffer that is not empty, or for no bytes
/// where all are empty. The other buffers stay as they were.
pub fn default_read_vectored<R: ReadCore>(r: &mut R, bufs: &mut Vec<Vec<u8>>) -> (res: Result<
    OpRes,
    R::Err,
>)
    requires
        old(r).inv(),
    ensures
        final(r).inv(),
        old(r).faultless() ==> final(r).faultless() && res is Ok,
        others_kept(old(bufs)@, final(bufs)@),
        lengths_kept(old(bufs)@, final(bufs)@),
        source_step(
            old(r).pending(),
            final(r).pending(),
            target(old(bufs)@).len(),
            picked(final(bufs)@, first_filled(old(bufs)@)),
            res,
        ),
        res matches Ok(OpRes::Retry) ==> final(r).stalls() < old(r).stalls(),
        res matches Err(e) ==> old(r).raises(e),
        forall|e: R::Err| #[trigger] final(r).raises(e) ==> old(r).raises(e),
{
    let i: usize = first_nonempty(bufs);
    if i < bufs.len() {
        let res = r.read(bufs[i].as_mut_slice());
        proof {
            assert(bufs@[i as int]@.len() == old(bufs)@[i as int]@.len());
        }
        res
    } else {
        let mut none: [u8; 0] = [];
        r.read(&mut none)
    }
}

/// One write attempt over a list of buffers, by way of the scalar write: the
/// sink is offered the first buffer that is not empty, or no bytes where all
/// are empty.
pub fn default_write_vectored<W: WriteCore>(w: &mut W, bufs: &Vec<Vec<u8>>) -> (res: Result<
    OpRes,
    W::Err,
>)
    requires
        old(w).inv(),
    ensures
        final(w).inv(),
        old(w).faultless() ==> final(w).faultless() && res is Ok,
        accepts(
            old(w).written(),
            final(w).written(),
            old(w).room(),
            final(w).room(),
            target(bufs@),
            crate::outcome::moved_by(res),
        ),
        res matches Ok(op) ==> {
            &&& op.fits(target(bufs@).len())
            &&& op is Completly ==> op.moved() == target(bufs@).len()
            &&& op is Eof && target(bufs@).len() > 0 ==> old(w).room() == 0
            &&& op is Retry ==> final(w).stalls() < old(w).stalls()
        },
        res matches Err(e) ==> old(w).raises(e),
        forall|e: W::Err| #[trigger] final(w).raises(e) ==> old(w).raises(e),
{
    let i: usize = first_nonempty(bufs);
    if i < bufs.len() {
        w.write(bufs[i].as_slice())
    } else {
        let none: [u8; 0] = [];
        w.write(&none)
    }
}

/// Reads over a list of buffers, for every source.
pub trait ReadStd: ReadAlloc {
    /// One read attempt over a list of buffers: the source is asked for the
    /// first buffer that is not empty, or for no bytes where all are empty.
    /// The other buffers stay as they were.
    fn read_vectored(&mut self, bufs: &mut Vec<Vec<u8>>) -> (res: Result<OpRes, Self::Err>)
        requires
            old(self).inv(),
        ensures
            final(self).inv(),
            old(self).faultless() ==> final(self).faultless() && res is Ok,
            others_kept(old(bufs)@, final(bufs)@),
            lengths_kept(old(bufs)@, final(bufs)@),
            source_step(
                old(self).pending(),
                final(self).pending(),
                target(old(bufs)@).len(),
                picked(final(bufs)@, first_filled(old(bufs)@)),
                res,
            ),
            res matches Ok(OpRes::Retry) ==> final(self).stalls() < old(self).stalls(),
            res matches Err(e) ==> old(self).raises(e),
            forall|e: Self::Err| #[trigger] final(self).raises(e) ==> old(self).raises(e),
    {
        default_read_vectored(self, bufs)
    }

    /// Whether the source has a vectored read of its own. It has not: the
    /// vectored read goes by way of the scalar one.
    fn is_read_vectored(&self) -> (b: bool)
        ensures
            !b,
    {
        false
    }
}

impl<T: ReadAlloc> ReadStd for T {

}

/// Writes over a list of buffers, for every sink.
pub trait WriteStd: WriteCore + Sized {
    /// One write attempt over a list of buffers: the sink is offered the
    /// first buffer that is not empty, or no bytes where all are empty.
    fn write_vectored(&mut self, bufs: &Vec<Vec<u8>>) -> (res: Result<OpRes, Self::Err>)
        requires
            old(self).inv(),
        ensures
            final(self).inv(),
            old(self).faultless() ==> final(self).faultless() && res is Ok,
            accepts(
                old(self).written(),
                final(self).written(),
                old(self).room(),
                final(self).room(),
                target(bufs@),
                crate::outcome::moved_by(res),
            ),
            res matches Ok(op) ==> {
                &&& op.fits(target(bufs@).len())
                &&& op is Completly ==> op.moved() == target(bufs@).len()
                &&& op is Eof && target(bufs@).len() > 0 ==> old(self).room() == 0
                &&& op is Retry ==> final(self).stalls() < old(self).stalls()
            },
            res matches Err(e) ==> old(self).raises(e),
            forall|e: Self::Err| #[trigger] final(self).raises(e) ==> old(self).raises(e),
    {
        default_write_vectored(self, bufs)
    }

    /// Whether the sink has a vectored write of its own. It has not: the
    /// vectored write goes by way of the scalar one.
    fn is_write_vectored(&self) -> (b: bool)
        ensures
            !b,
    {
        false
    }

    /// Writes the whole of every buffer, one buffer after the other.
    ///
    /// Whatever the result, the sink has taken a prefix of the buffers'
    /// bytes: all of them on success, less on failure. A faultless sink fails
    /// exactly when its room is smaller than the buffers together.
    fn write_all_vectored(&mut self, bufs: &Vec<Vec<u8>>) -> (res: Result<(), Self::Err>)
        requires
            old(self).inv(),
        ensures
            final(self).inv(),
            old(self).faultless() ==> final(self).faultless(),
            takes(
                old(self).written(),
                final(self).written(),
                old(self).room(),
                final(self).room(),
                joined(bufs@),
                res is Ok,
            ),
            old(self).faultless() ==> (res is Ok <==> joined(bufs@).len() <= old(self).room()),
            res matches Err(e) ==> old(self).raises(e) || made_from(UnexpectedEndOfFile, e),
            forall|e: Self::Err| #[trigger] final(self).raises(e) ==> old(self).raises(e),
    {
        let ghost base = self.written();
        let ghost space = self.room();
        let ghost all = pieces(bufs@);
        let mut i: usize = 0;
        proof {
            run_starts_empty(all);
            assert(base + Seq::<u8>::empty() == base);
        }
        while i < bufs.len()
            invariant
                self.inv(),
                i <= bufs@.len(),
                all == pieces(bufs@),
                base == old(self).written(),
                space == old(self).room(),
                old(self).faultless() ==> self.faultless(),
                forall|e: Self::Err| #[trigger] self.raises(e) ==> old(self).raises(e),
                run(all, i as int).len() <= space,
                self.written() == base + run(all, i as int),
                self.room() == space - run(all, i as int).len(),
            decreases bufs@.len() - i,
        {
            let pushed = self.write_all(bufs[i].as_slice());
            proof {
                let sofar = run(all, i as int);
                let k = self.written().len() - (base + sofar).len();
                run_grows(all, i as int, k);
                assert(self.written() == base + (sofar + all[i as int].take(k)));
                if pushed is Ok {
                    assert(all[i as int].take(k) == all[i as int]);
                }
            }
            match pushed {
                Ok(()) => {},
                Err(e) => {
                    return Err(e);
                },
            }
            i += 1;
        }
        proof {
            run_ends_whole(all);
            assert(joined(bufs@).take(joined(bufs@).len() as int) == joined(bufs@));
        }
        Ok(())
    }
}

impl<W: WriteCore> WriteStd for W {

}

} // verus!
