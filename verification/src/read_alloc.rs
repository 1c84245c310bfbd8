//! Draining a source into a growable buffer.

use vstd::prelude::*;
use vstd::std_specs::convert::FromSpec;
use vstd::string::StringExecFns;
use vstd::string::StringSliceAdditionalSpecFns;
use vstd::utf8::{decode_utf8, valid_utf8};
use crate::chain::Chain;
use crate::outcome::{made_from, min_nat, InvalidUtf8, OpRes};
use crate::read_core::{invalid_text, ReadCore};
use crate::take::Take;

verus! {

/// The room that is added to a full buffer where the source gives no better
/// hint.
pub const DEFAULT_RESERVATION: usize = 32;

/// The relation between a source and a buffer before and after a drain: the
/// buffer gained a prefix of what was pending, and the source goes on behind
/// that prefix.
pub open spec fn drains(before: Seq<u8>, after: Seq<u8>, base: Seq<u8>, result: Seq<u8>) -> bool {
    &&& after.len() <= before.len()
    &&& after == before.skip(before.len() - after.len())
    &&& result == base + before.take(before.len() - after.len())
    &&& result.len() == base.len() + (before.len() - after.len())
}

/// The text that well-formed bytes stand for, and no text for bytes that are
/// not well formed.
pub open spec fn kept_text(bytes: Seq<u8>) -> Seq<char> {
    if valid_utf8(bytes) {
        decode_utf8(bytes)
    } else {
        Seq::<char>::empty()
    }
}

/// The committed length of a buffer under growth. Behind it the buffer may
/// hold room that no read has filled yet; `release` cuts that off.
pub(crate) struct Guard {
    pub(crate) len: usize,
}

impl Guard {
    /// Cuts the buffer back to the committed length.
    pub(crate) fn release(self, buf: &mut Vec<u8>)
        requires
            self.len <= old(buf)@.len(),
        ensures
            final(buf)@ == old(buf)@.take(self.len as int),
    {
        buf.truncate(self.len);
    }
}

/// Drains `r` into `buf`, adding the default room whenever the buffer is
/// full.
fn read_to_end<R: ReadCore>(r: &mut R, buf: &mut Vec<u8>) -> (res: Result<(), R::Err>)
    requires
        old(r).inv(),
        old(buf)@.len() + old(r).pending().len() <= usize::MAX,
    ensures
        final(r).inv(),
        old(r).faultless() ==> final(r).faultless() && res is Ok,
        drains(old(r).pending(), final(r).pending(), old(buf)@, final(buf)@),
        res is Ok ==> final(r).pending().len() == 0,
        res matches Err(e) ==> old(r).raises(e),
        forall|e: R::Err| #[trigger] final(r).raises(e) ==> old(r).raises(e),
{
    let by_default = |_r: &R| -> (n: usize)
        ensures
            n == DEFAULT_RESERVATION,
        { DEFAULT_RESERVATION };
    read_to_end_with_reservation(r, buf, by_default)
}

/// Drains `r` into `buf`, asking `reservation_size` how much room to add
/// whenever the buffer is full.
///
/// The guard keeps the length up to which the buffer holds bytes that were
/// read. The room behind it is added zeroed, handed to the source's
/// initialization policy and then to the source; on every way out the buffer
/// is cut back to the guard's length, so that no byte of that room is ever
/// seen as data.
fn read_to_end_with_reservation<R, F>(r: &mut R, buf: &mut Vec<u8>, reservation_size: F) -> (res:
    Result<(), R::Err>) where R: ReadCore, F: Fn(&R) -> usize
    requires
        old(r).inv(),
        old(buf)@.len() + old(r).pending().len() <= usize::MAX,
        forall|x: &R| x.inv() ==> call_requires(reservation_size, (x,)),
        forall|x: &R, n: usize| #[trigger]
            call_ensures(reservation_size, (x,), n) ==> (n == 0 ==> x.pending().len() == 0),
    ensures
        final(r).inv(),
        old(r).faultless() ==> final(r).faultless() && res is Ok,
        drains(old(r).pending(), final(r).pending(), old(buf)@, final(buf)@),
        res is Ok ==> final(r).pending().len() == 0,
        res matches Err(e) ==> old(r).raises(e),
        forall|e: R::Err| #[trigger] final(r).raises(e) ==> old(r).raises(e),
{
    let mut g = Guard { len: buf.len() };
    let ghost base = buf@;
    let ghost stream = r.pending();
    proof {
        assert(stream.skip(0) == stream);
        assert(buf@.take(g.len as int) == base + stream.take(0));
    }
    loop
        invariant
            r.inv(),
            base == old(buf)@,
            stream == old(r).pending(),
            old(r).faultless() ==> r.faultless(),
            forall|e: R::Err| #[trigger] r.raises(e) ==> old(r).raises(e),
            base.len() <= g.len <= buf@.len(),
            g.len - base.len() <= stream.len(),
            base.len() + stream.len() <= usize::MAX,
            buf@.take(g.len as int) == base + stream.take(g.len - base.len()),
            r.pending() == stream.skip(g.len - base.len()),
            forall|x: &R| x.inv() ==> call_requires(reservation_size, (x,)),
            forall|x: &R, n: usize| #[trigger]
                call_ensures(reservation_size, (x,), n) ==> (n == 0 ==> x.pending().len() == 0),
        decreases r.pending().len(), r.stalls(),
    {
        let ghost committed = buf@.take(g.len as int);
        if g.len == buf.len() {
            let hint: usize = reservation_size(&*r);
            buf.reserve(hint);
            let most: usize = usize::MAX - g.len;
            let grow: usize = if hint <= most {
                hint
            } else {
                most
            };
            buf.resize(g.len + grow, 0);
            let policy = r.initializer();
            let (_, fresh) = buf.as_mut_slice().split_at_mut(g.len);
            policy.initialize(fresh);
            proof {
                assert(buf@.take(g.len as int) == committed);
            }
        }
        let ghost before = r.pending();
        let (kept, spare) = buf.as_mut_slice().split_at_mut(g.len);
        let attempt = r.read(spare);
        proof {
            assert(buf@ == kept@ + spare@);
            assert(buf@.take(g.len as int) == committed);
        }
        match attempt {
            Err(e) => {
                g.release(buf);
                return Err(e);
            },
            Ok(OpRes::Eof) => {
                g.release(buf);
                return Ok(());
            },
            Ok(OpRes::Retry) => {},
            Ok(OpRes::Partial(n)) | Ok(OpRes::Completly(n)) => {
                proof {
                    let done = g.len - base.len();
                    assert(buf@.take(g.len + n) == committed + spare@.take(n as int));
                    assert(stream.take(done + n) == stream.take(done) + before.take(n as int));
                    assert(r.pending() == stream.skip(done + n));
                }
                g.len += n;
            },
        }
    }
}

/// `core::str::from_utf8`: the bytes as text where they are well-formed
/// UTF-8, and nothing where they are not. The text has exactly these bytes.
#[verifier::external_body]
pub(crate) fn checked_text(bytes: &[u8]) -> (text: Option<&str>)
    ensures
        text is Some <==> valid_utf8(bytes@),
        text matches Some(s) ==> s.spec_bytes() == bytes@,
{
    core::str::from_utf8(bytes).ok()
}

/// Commits to `buf` the bytes that a drain has gathered.
///
/// Where the drain failed, its error is passed on and the text stays as it
/// was. Where it succeeded, the bytes are appended if they are well-formed
/// text; if they are not, the text stays as it was and the invalid-text error
/// is raised.
pub fn append_to_string<E: From<InvalidUtf8>>(
    buf: &mut String,
    gathered: &[u8],
    drained: Result<(), E>,
) -> (res: Result<(), E>)
    ensures
        match drained {
            Err(e) => res == Err::<(), E>(e) && final(buf)@ == old(buf)@,
            Ok(()) => if valid_utf8(gathered@) {
                res is Ok && final(buf)@ == old(buf)@ + decode_utf8(gathered@)
            } else {
                &&& (res matches Err(e) && made_from(InvalidUtf8, e))
                &&& final(buf)@ == old(buf)@
                &&& <E as FromSpec<InvalidUtf8>>::obeys_from_spec() ==> res == Err::<(), E>(
                    invalid_text::<E>(),
                )
            },
        },
{
    match drained {
        Err(e) => Err(e),
        Ok(()) => match checked_text(gathered) {
            None => Err(E::from(InvalidUtf8)),
            Some(text) => {
                proof {
                    vstd::utf8::encode_utf8_decode_utf8(text@);
                }
                buf.append(text);
                Ok(())
            },
        },
    }
}

/// The bulk operations of a source: everything it has left, as bytes or as
/// text.
pub trait ReadAlloc: ReadCore + Sized {
    /// Appends to `buf` everything that the source has left.
    ///
    /// Whatever the result, the buffer ends as it began plus the bytes that
    /// the source gave up, and the source goes on behind them: a failure part
    /// of the way leaves exactly the bytes moved before it. Success means that
    /// nothing is left pending; a failure is an error of the source, passed on
    /// as it came. A faultless source is always drained.
    fn read_to_end(&mut self, buf: &mut Vec<u8>) -> (res: Result<(), Self::Err>)
        requires
            old(self).inv(),
            old(buf)@.len() + old(self).pending().len() <= usize::MAX,
        ensures
            final(self).inv(),
            old(self).faultless() ==> final(self).faultless() && res is Ok,
            drains(old(self).pending(), final(self).pending(), old(buf)@, final(buf)@),
            res is Ok ==> final(self).pending().len() == 0,
            res matches Err(e) ==> old(self).raises(e),
            forall|e: Self::Err| #[trigger] final(self).raises(e) ==> old(self).raises(e),
    {
        read_to_end(self, buf)
    }

    /// Appends to `buf`, as text, everything that the source has left.
    ///
    /// Success means that the source was drained, that its bytes were
    /// well-formed text and that the text grew by them. Bytes that are no
    /// well-formed text never reach the text. A failure is an error of the
    /// source, passed on as it came, or the error that is made for bytes that
    /// are no text. A faultless source is always drained, and fails exactly
    /// when its bytes are no well-formed text.
    ///
    /// As provided here, a failure of any kind leaves the text as it was, and
    /// the failure of a faultless source is the invalid-text error.
    fn read_to_string(&mut self, buf: &mut String) -> (res: Result<(), Self::Err>)
        requires
            old(self).inv(),
            old(self).pending().len() <= usize::MAX,
        ensures
            final(self).inv(),
            old(self).faultless() ==> final(self).faultless(),
            final(self).pending().len() <= old(self).pending().len(),
            final(self).pending() == old(self).pending().skip(
                old(self).pending().len() - final(self).pending().len(),
            ),
            res is Ok ==> {
                &&& final(self).pending().len() == 0
                &&& valid_utf8(old(self).pending())
                &&& final(buf)@ == old(buf)@ + decode_utf8(old(self).pending())
            },
            res is Err ==> final(buf)@ == old(buf)@ || final(buf)@ == old(buf)@ + kept_text(
                old(self).pending().take(old(self).pending().len() - final(self).pending().len()),
            ),
            !valid_utf8(
                old(self).pending().take(old(self).pending().len() - final(self).pending().len()),
            ) ==> res is Err && final(buf)@ == old(buf)@,
            old(self).faultless() ==> final(self).pending().len() == 0,
            old(self).faultless() ==> (res is Ok <==> valid_utf8(old(self).pending())),
            res matches Err(e) ==> old(self).raises(e) || made_from(InvalidUtf8, e),
            forall|e: Self::Err| #[trigger] final(self).raises(e) ==> old(self).raises(e),
        default_ensures
            res is Err ==> final(buf)@ == old(buf)@,
            old(self).faultless() && <Self::Err as FromSpec<InvalidUtf8>>::obeys_from_spec()
                ==> (res matches Err(e) ==> e == invalid_text::<Self::Err>()),
    {
        let mut gathered: Vec<u8> = Vec::new();
        let drained = read_to_end(self, &mut gathered);
        proof {
            let before = old(self).pending();
            if drained is Ok {
                assert(before.take(before.len() as int) == before);
            }
            assert(Seq::<u8>::empty() + before.take(before.len() - self.pending().len())
                == before.take(before.len() - self.pending().len()));
        }
        append_to_string(buf, gathered.as_slice(), drained)
    }
}

impl<T: ReadCore> ReadAlloc for Take<T> {
    /// As for any source, with the room added to a full buffer capped by the
    /// quota, so that a nearly spent cap reserves little.
    fn read_to_end(&mut self, buf: &mut Vec<u8>) -> (res: Result<(), Self::Err>) {
        let by_quota = |t: &Take<T>| -> (n: usize)
            ensures
                n as nat == min_nat(t.quota() as nat, DEFAULT_RESERVATION as nat),
            {
                if t.limit() < DEFAULT_RESERVATION as u64 {
                    t.limit() as usize
                } else {
                    DEFAULT_RESERVATION
                }
            };
        read_to_end_with_reservation(self, buf, by_quota)
    }
}

impl<T: ReadCore, U: ReadCore<Err = T::Err>> ReadAlloc for Chain<T, U> {

}

} // verus!
