//! Bytes that come in pieces: what a list of pieces holds when they are put
//! one after the other.

use vstd::prelude::*;
use vstd::seq_lib::lemma_flatten_concat;

verus! {

/// The bytes of the first `i` pieces, one piece after the other.
pub open spec fn run(pieces: Seq<Seq<u8>>, i: int) -> Seq<u8> {
    pieces.take(i).flatten()
}

/// No pieces hold no bytes.
pub proof fn run_starts_empty(pieces: Seq<Seq<u8>>)
    ensures
        run(pieces, 0) == Seq::<u8>::empty(),
{
    assert(pieces.take(0) == Seq::<Seq<u8>>::empty());
}

/// All the pieces hold all the bytes.
pub proof fn run_ends_whole(pieces: Seq<Seq<u8>>)
    ensures
        run(pieces, pieces.len() as int) == pieces.flatten(),
{
    assert(pieces.take(pieces.len() as int) == pieces);
}

/// Where the first `i` pieces and the first `k` bytes of the piece behind
/// them stand among all the bytes: at their front. The first `i + 1` pieces
/// are the first `i` followed by piece `i`.
pub proof fn run_grows(pieces: Seq<Seq<u8>>, i: int, k: int)
    requires
        0 <= i < pieces.len(),
        0 <= k <= pieces[i].len(),
    ensures
        run(pieces, i + 1) == run(pieces, i) + pieces[i],
        run(pieces, i).len() + pieces[i].len() <= pieces.flatten().len(),
        pieces.flatten().take(run(pieces, i).len() + k) == run(pieces, i) + pieces[i].take(k),
{
    let head = pieces.take(i);
    let next = pieces.take(i + 1);
    assert(next == head.push(pieces[i]));
    head.lemma_flatten_push(pieces[i]);
    assert(pieces == next + pieces.skip(i + 1));
    lemma_flatten_concat(next, pieces.skip(i + 1));
    let whole = pieces.flatten();
    let front = run(pieces, i) + pieces[i];
    assert(whole.take(front.len() as int) == front);
    assert(front.take(run(pieces, i).len() + k) == run(pieces, i) + pieces[i].take(k));
    assert(whole.take(front.len() as int).take(run(pieces, i).len() + k) == whole.take(
        run(pieces, i).len() + k,
    ));
}

} // verus!
