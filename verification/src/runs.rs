//! What a source gives up over many attempts.
//!
//! A run is a series of attempts on one source. It is described by what the
//! source had pending before each attempt and after the last, and by the
//! piece that each attempt delivered: nothing for an attempt that moved
//! nothing.

use vstd::prelude::*;
use crate::chain::Chain;
use crate::outcome::{moved_by, source_step, OpRes};
use crate::read_core::ReadCore;
use crate::take::Take;

verus! {

/// An attempt delivered `piece`, the first of the bytes that were pending
/// before it, and left the others pending.
pub open spec fn delivery(before: Seq<u8>, after: Seq<u8>, piece: Seq<u8>) -> bool {
    &&& piece.len() <= before.len()
    &&& piece == before.take(piece.len() as int)
    &&& after == before.skip(piece.len() as int)
}

/// The run that took the pending bytes from `pending[0]` through to
/// `pending.last()`, with `pieces[i]` delivered by attempt `i`.
pub open spec fn delivers(pending: Seq<Seq<u8>>, pieces: Seq<Seq<u8>>) -> bool {
    &&& pending.len() == pieces.len() + 1
    &&& forall|i: int|
        0 <= i < pieces.len() ==> delivery(#[trigger] pending[i], pending[i + 1], pieces[i])
}

/// An attempt that asks for at least one byte is a delivery, whatever its
/// outcome: of the bytes it moved, or of nothing.
pub proof fn attempt_is_delivery<E>(
    before: Seq<u8>,
    after: Seq<u8>,
    len: nat,
    data: Seq<u8>,
    attempt: Result<OpRes, E>,
)
    requires
        len > 0,
        source_step(before, after, len, data, attempt),
    ensures
        delivery(before, after, data.take(moved_by(attempt) as int)),
{
    let n = moved_by(attempt);
    if attempt is Ok && attempt->Ok_0.is_transfer() {
        assert(data.take(n as int).len() == n);
    } else {
        assert(n == 0);
        assert(data.take(0).len() == 0);
        assert(before.skip(0) == before);
        assert(data.take(0) == before.take(0));
    }
}

/// Over any run, the pieces delivered, put one after the other, and what is
/// still pending at its end make up what was pending at its start: nothing is
/// lost, nothing comes twice and nothing changes place, however the bytes
/// were split over the attempts.
pub proof fn deliveries_add_up(pending: Seq<Seq<u8>>, pieces: Seq<Seq<u8>>)
    requires
        delivers(pending, pieces),
    ensures
        pieces.flatten() + pending.last() == pending[0],
        pieces.flatten().len() + pending.last().len() == pending[0].len(),
    decreases pieces.len(),
{
    if pieces.len() == 0 {
        assert(pieces.flatten() == Seq::<u8>::empty());
        assert(Seq::<u8>::empty() + pending[0] == pending[0]);
    } else {
        let k = pieces.len() - 1;
        let earlier = pieces.drop_last();
        let states = pending.drop_last();
        assert(delivers(states, earlier)) by {
            assert forall|i: int| 0 <= i < earlier.len() implies delivery(
                #[trigger] states[i],
                states[i + 1],
                earlier[i],
            ) by {
                assert(states[i] == pending[i]);
                assert(states[i + 1] == pending[i + 1]);
            }
        }
        deliveries_add_up(states, earlier);
        assert(states.last() == pending[k]);
        assert(pieces == earlier.push(pieces[k]));
        earlier.lemma_flatten_push(pieces[k]);
        assert(delivery(pending[k], pending[k + 1], pieces[k]));
        assert(pieces[k] + pending[k + 1] == pending[k]);
        assert(pieces.flatten() + pending.last() == earlier.flatten() + (pieces[k] + pending[k
            + 1]));
    }
}

/// Over any run on a capped source, the bytes delivered are no more than the
/// quota that the source started with. Where the run ends with nothing
/// pending and the wrapped source had at least the quota, they are exactly
/// the quota.
pub proof fn take_delivers_within_quota<T: ReadCore>(
    t: Take<T>,
    pending: Seq<Seq<u8>>,
    pieces: Seq<Seq<u8>>,
)
    requires
        delivers(pending, pieces),
        pending[0] == t.pending(),
    ensures
        pieces.flatten().len() <= t.quota(),
        pending.last().len() == 0 && t.source().pending().len() >= t.quota()
            ==> pieces.flatten().len() == t.quota(),
{
    deliveries_add_up(pending, pieces);
}

/// A run that takes a chain from its start to where nothing is pending
/// delivers everything that the first source had, followed by everything
/// that the second had.
pub proof fn chain_delivers_both<T: ReadCore, U: ReadCore<Err = T::Err>>(
    c: Chain<T, U>,
    pending: Seq<Seq<u8>>,
    pieces: Seq<Seq<u8>>,
)
    requires
        !c.exhausted_first(),
        delivers(pending, pieces),
        pending[0] == c.pending(),
        pending.last().len() == 0,
    ensures
        pieces.flatten() == c.sources().0.pending() + c.sources().1.pending(),
{
    deliveries_add_up(pending, pieces);
    assert(pieces.flatten() + pending.last() == pieces.flatten());
}

} // verus!
